use vstd::prelude::*;

verus! {

/// The characters that separate path components inside an archive entry
/// name.  Both separators are honoured, whatever system wrote the archive.
pub open spec fn is_sep(c: char) -> bool {
    c == '/' || c == '\\'
}

/// Fold one finished component into the stack of resolved components.
/// Empty components and `.` are dropped, `..` removes the component above
/// it and is rejected when there is none (the name would escape the root),
/// and any other component is kept.
pub open spec fn close_component(stack: Seq<Seq<char>>, cur: Seq<char>) -> Option<Seq<Seq<char>>> {
    if cur.len() == 0 || cur == seq!['.'] {
        Some(stack)
    } else if cur == seq!['.', '.'] {
        if stack.len() == 0 {
            None
        } else {
            Some(stack.drop_last())
        }
    } else {
        Some(stack.push(cur))
    }
}

/// The resolution state after reading the first `i` characters of the
/// name: the components resolved so far and the unfinished component, or
/// `None` once the name is rejected (a NUL byte, or a `..` that would
/// climb above the root).
pub open spec fn scan_state(s: Seq<char>, i: int) -> Option<(Seq<Seq<char>>, Seq<char>)>
    decreases i,
{
    if i <= 0 {
        Some((Seq::empty(), Seq::empty()))
    } else {
        match scan_state(s, i - 1) {
            None => None,
            Some(st) => {
                let c = s[i - 1];
                if c == '\0' {
                    None
                } else if is_sep(c) {
                    match close_component(st.0, st.1) {
                        None => None,
                        Some(stack) => Some((stack, Seq::empty())),
                    }
                } else {
                    Some((st.0, st.1.push(c)))
                }
            },
        }
    }
}

/// The safe relative form of an archive entry name: its resolved path
/// components, or `None` when the name cannot be resolved to a path
/// contained within the extraction root (an absolute name, a NUL byte, or
/// a traversal above the root).
pub open spec fn sanitize_spec(s: Seq<char>) -> Option<Seq<Seq<char>>> {
    if s.len() > 0 && is_sep(s[0]) {
        None
    } else {
        match scan_state(s, s.len() as int) {
            None => None,
            Some(st) => close_component(st.0, st.1),
        }
    }
}

/// A resolved component is plain: non-empty, not a dot form, and free of
/// separators and NUL, so joining it below a root directory cannot leave
/// that directory.
pub open spec fn plain_component(c: Seq<char>) -> bool {
    c.len() > 0 && c != seq!['.'] && c != seq!['.', '.'] && (forall|i: int|
        0 <= i < c.len() ==> !is_sep(c[i]) && c[i] != '\0')
}

/// A rejected name stays rejected as the scan reads on.
proof fn lemma_scan_none_persists(s: Seq<char>, i: int, j: int)
    requires
        0 <= i <= j,
        scan_state(s, i) is None,
    ensures
        scan_state(s, j) is None,
    decreases j - i,
{
    if j > i {
        lemma_scan_none_persists(s, i, j - 1);
    }
}

/// Every component the scan has resolved is plain, and the unfinished
/// component holds no separator and no NUL.
proof fn lemma_scan_state_plain(s: Seq<char>, i: int)
    requires
        0 <= i,
    ensures
        scan_state(s, i) matches Some(st) ==> (forall|k: int|
            0 <= k < st.0.len() ==> plain_component(st.0[k])) && (forall|k: int|
            0 <= k < st.1.len() ==> !is_sep(st.1[k]) && st.1[k] != '\0'),
    decreases i,
{
    if i > 0 {
        lemma_scan_state_plain(s, i - 1);
    }
}

/// Every component of a sanitized name is plain: extraction through the
/// sanitizer writes only at paths contained within the extraction root.
pub proof fn lemma_sanitized_components_plain(s: Seq<char>)
    ensures
        sanitize_spec(s) matches Some(cs) ==> forall|k: int|
            0 <= k < cs.len() ==> plain_component(cs[k]),
{
    lemma_scan_state_plain(s, s.len() as int);
}

/// Resolve an archive entry name to safe path components below the
/// extraction root, or reject it.  `None` is a normal outcome, not an
/// error: the caller skips the entry.
pub fn sanitize_entry_path(name: &str) -> (r: Option<Vec<String>>)
    ensures
        (match r {
            Some(comps) => sanitize_spec(name@) == Some(comps.deep_view()),
            None => sanitize_spec(name@) is None,
        }),
{
    let n = name.unicode_len();
    if n > 0 {
        let c0 = name.get_char(0);
        if c0 == '/' || c0 == '\\' {
            return None;
        }
    }
    let mut stack: Vec<String> = Vec::new();
    let mut start: usize = 0;
    let mut i: usize = 0;
    while i < n
        invariant
            start <= i <= n,
            n == name@.len(),
            name@.len() > 0 ==> !is_sep(name@[0]),
            scan_state(name@, i as int) == Some(
                (stack.deep_view(), name@.subrange(start as int, i as int)),
            ),
        decreases n - i,
    {
        let c = name.get_char(i);
        if c == '\0' {
            proof {
                lemma_scan_none_persists(name@, i + 1, n as int);
            }
            return None;
        } else if c == '/' || c == '\\' {
            let closed = close_current(name, start, i, &mut stack);
            if !closed {
                proof {
                    lemma_scan_none_persists(name@, i + 1, n as int);
                }
                return None;
            }
            start = i + 1;
        } else {
            proof {
                assert(name@.subrange(start as int, i + 1) =~= name@.subrange(
                    start as int,
                    i as int,
                ).push(name@[i as int]));
            }
        }
        i += 1;
    }
    let closed = close_current(name, start, n, &mut stack);
    if !closed {
        return None;
    }
    Some(stack)
}

/// Fold the component `name[start..end]` into the stack, as
/// `close_component` says; `false` reports a rejected name.
fn close_current(name: &str, start: usize, end: usize, stack: &mut Vec<String>) -> (ok: bool)
    requires
        start <= end <= name@.len(),
    ensures
        (match close_component(old(stack).deep_view(), name@.subrange(start as int, end as int)) {
            Some(st) => ok && final(stack).deep_view() == st,
            None => !ok,
        }),
{
    let ghost cur = name@.subrange(start as int, end as int);
    let len = end - start;
    if len == 0 {
        proof {
            assert(cur.len() == 0);
        }
        return true;
    }
    if len == 1 && name.get_char(start) == '.' {
        proof {
            assert(cur =~= seq!['.']);
        }
        return true;
    }
    if len == 2 && name.get_char(start) == '.' && name.get_char(start + 1) == '.' {
        proof {
            assert(cur =~= seq!['.', '.']);
        }
        if stack.len() == 0 {
            return false;
        }
        stack.pop();
        proof {
            assert(stack.deep_view() =~= old(stack).deep_view().drop_last());
        }
        return true;
    }
    proof {
        assert(cur.len() > 0 && cur != seq!['.'] && cur != seq!['.', '.']) by {
            if cur =~= seq!['.'] {
                assert(cur.len() == 1 && cur[0] == '.');
            }
            if cur =~= seq!['.', '.'] {
                assert(cur.len() == 2 && cur[0] == '.' && cur[1] == '.');
            }
        }
    }
    let comp = name.substring_char(start, end).to_owned();
    stack.push(comp);
    proof {
        assert(stack.deep_view() =~= old(stack).deep_view().push(cur));
    }
    true
}

} // verus!
