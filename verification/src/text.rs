use vstd::prelude::*;

verus! {

/// `p` is a prefix of `s`.
pub open spec fn starts_with(s: Seq<char>, p: Seq<char>) -> bool {
    p.len() <= s.len() && s.subrange(0, p.len() as int) == p
}

/// `p` is a suffix of `s`.
pub open spec fn ends_with(s: Seq<char>, p: Seq<char>) -> bool {
    p.len() <= s.len() && s.subrange(s.len() - p.len(), s.len() as int) == p
}

/// The Unicode white-space characters, the set that trimming removes at
/// either end of a release name.
pub open spec fn is_space(c: char) -> bool {
    c == ' ' || c == '\t' || c == '\n' || c == '\r' || c == '\u{0b}' || c == '\u{0c}'
        || c == '\u{85}' || c == '\u{a0}' || c == '\u{1680}' || c == '\u{2000}'
        || c == '\u{2001}' || c == '\u{2002}' || c == '\u{2003}' || c == '\u{2004}'
        || c == '\u{2005}' || c == '\u{2006}' || c == '\u{2007}' || c == '\u{2008}'
        || c == '\u{2009}' || c == '\u{200a}' || c == '\u{2028}' || c == '\u{2029}'
        || c == '\u{202f}' || c == '\u{205f}' || c == '\u{3000}'
}

/// `s` with its leading white space removed.
pub open spec fn trim_front(s: Seq<char>) -> Seq<char>
    decreases s.len(),
{
    if s.len() > 0 && is_space(s[0]) {
        trim_front(s.drop_first())
    } else {
        s
    }
}

/// `s` with its trailing white space removed.
pub open spec fn trim_back(s: Seq<char>) -> Seq<char>
    decreases s.len(),
{
    if s.len() > 0 && is_space(s.last()) {
        trim_back(s.drop_last())
    } else {
        s
    }
}

/// `s` with white space removed at both ends: what trimming a string returns.
pub open spec fn trim_spec(s: Seq<char>) -> Seq<char> {
    trim_back(trim_front(s))
}

/// Whether `c` is one of the white-space characters.
pub fn is_space_char(c: char) -> (b: bool)
    ensures
        b == is_space(c),
{
    c == ' ' || c == '\t' || c == '\n' || c == '\r' || c == '\u{0b}' || c == '\u{0c}'
        || c == '\u{85}' || c == '\u{a0}' || c == '\u{1680}' || c == '\u{2000}'
        || c == '\u{2001}' || c == '\u{2002}' || c == '\u{2003}' || c == '\u{2004}'
        || c == '\u{2005}' || c == '\u{2006}' || c == '\u{2007}' || c == '\u{2008}'
        || c == '\u{2009}' || c == '\u{200a}' || c == '\u{2028}' || c == '\u{2029}'
        || c == '\u{202f}' || c == '\u{205f}' || c == '\u{3000}'
}

/// Dropping spaces from the front one character at a time reaches the
/// first index that holds a non-space character.
proof fn lemma_trim_front_subrange(s: Seq<char>, a: int)
    requires
        0 <= a <= s.len(),
        forall|i: int| 0 <= i < a ==> is_space(s[i]),
        a == s.len() || !is_space(s[a]),
    ensures
        trim_front(s) == s.subrange(a, s.len() as int),
    decreases a,
{
    if a == 0 {
        if s.len() > 0 && is_space(s[0]) {
            assert(false);
        } else {
            assert(s.subrange(0, s.len() as int) =~= s);
        }
    } else {
        assert(is_space(s[0]));
        lemma_trim_front_subrange(s.drop_first(), a - 1);
        assert(s.drop_first().subrange(a - 1, s.drop_first().len() as int) =~= s.subrange(
            a,
            s.len() as int,
        ));
    }
}

/// Dropping spaces from the back one character at a time reaches the
/// last index that holds a non-space character.
proof fn lemma_trim_back_subrange(s: Seq<char>, b: int)
    requires
        0 <= b <= s.len(),
        forall|i: int| b <= i < s.len() ==> is_space(s[i]),
        b == 0 || !is_space(s[b - 1]),
    ensures
        trim_back(s) == s.subrange(0, b),
    decreases s.len() - b,
{
    if b == s.len() {
        if s.len() > 0 && is_space(s.last()) {
            assert(false);
        } else {
            assert(s.subrange(0, s.len() as int) =~= s);
        }
    } else {
        assert(is_space(s.last()));
        lemma_trim_back_subrange(s.drop_last(), b);
        assert(s.drop_last().subrange(0, b) =~= s.subrange(0, b));
    }
}

/// Trimming is idempotent: a trimmed string trims to itself.
pub proof fn lemma_trim_idempotent(s: Seq<char>)
    ensures
        trim_spec(trim_spec(s)) == trim_spec(s),
{
    let t = trim_spec(s);
    lemma_trim_front_props(s);
    lemma_trim_back_props(trim_front(s));
    if t.len() > 0 {
        assert(!is_space(t[0])) by {
            assert(t[0] == trim_front(s)[0]);
        }
        assert(!is_space(t.last()));
        lemma_trim_front_subrange(t, 0);
        assert(trim_front(t) == t);
        lemma_trim_back_subrange(t, t.len() as int);
        assert(trim_back(t) == t);
    } else {
        assert(trim_front(t) == t);
        assert(trim_back(t) == t);
    }
}

/// The front-trimmed string is a suffix of `s` whose first character,
/// if any, is not white space.
proof fn lemma_trim_front_props(s: Seq<char>)
    ensures
        trim_front(s).len() > 0 ==> !is_space(trim_front(s)[0]),
        trim_front(s).len() <= s.len(),
    decreases s.len(),
{
    if s.len() > 0 && is_space(s[0]) {
        lemma_trim_front_props(s.drop_first());
    }
}

/// The back-trimmed string is a prefix of `s` whose last character, if
/// any, is not white space; trimming the back keeps the front character.
proof fn lemma_trim_back_props(s: Seq<char>)
    ensures
        trim_back(s).len() > 0 ==> !is_space(trim_back(s).last()),
        trim_back(s).len() <= s.len(),
        forall|i: int| 0 <= i < trim_back(s).len() ==> trim_back(s)[i] == s[i],
    decreases s.len(),
{
    if s.len() > 0 && is_space(s.last()) {
        lemma_trim_back_props(s.drop_last());
        assert(forall|i: int|
            0 <= i < trim_back(s).len() ==> trim_back(s)[i] == s.drop_last()[i] && s.drop_last()[i]
                == s[i]);
    }
}

/// Whether `s` begins with `p`, character for character.
pub fn str_starts_with(s: &str, p: &str) -> (b: bool)
    ensures
        b == starts_with(s@, p@),
{
    let sn = s.unicode_len();
    let pn = p.unicode_len();
    if pn > sn {
        return false;
    }
    let mut i: usize = 0;
    while i < pn
        invariant
            i <= pn,
            pn <= sn,
            sn == s@.len(),
            pn == p@.len(),
            forall|j: int| 0 <= j < i ==> s@[j] == p@[j],
        decreases pn - i,
    {
        if s.get_char(i) != p.get_char(i) {
            assert(s@.subrange(0, pn as int) != p@) by {
                assert(s@.subrange(0, pn as int)[i as int] == s@[i as int]);
            }
            return false;
        }
        i += 1;
    }
    assert(s@.subrange(0, pn as int) =~= p@);
    true
}

/// Whether `s` ends with `p`, character for character.
pub fn str_ends_with(s: &str, p: &str) -> (b: bool)
    ensures
        b == ends_with(s@, p@),
{
    let sn = s.unicode_len();
    let pn = p.unicode_len();
    if pn > sn {
        return false;
    }
    let off = sn - pn;
    let mut i: usize = 0;
    while i < pn
        invariant
            i <= pn,
            pn <= sn,
            off == sn - pn,
            sn == s@.len(),
            pn == p@.len(),
            forall|j: int| 0 <= j < i ==> s@[off + j] == p@[j],
        decreases pn - i,
    {
        if s.get_char(off + i) != p.get_char(i) {
            assert(s@.subrange(s@.len() - p@.len(), s@.len() as int) != p@) by {
                assert(s@.subrange(s@.len() - p@.len(), s@.len() as int)[i as int] == s@[off + i]);
            }
            return false;
        }
        i += 1;
    }
    assert(s@.subrange(s@.len() - p@.len(), s@.len() as int) =~= p@);
    true
}

/// `s` with white space removed at both ends.
pub fn trim(s: &str) -> (r: String)
    ensures
        r@ == trim_spec(s@),
{
    let n = s.unicode_len();
    let mut a: usize = 0;
    while a < n && is_space_char(s.get_char(a))
        invariant
            a <= n,
            n == s@.len(),
            forall|i: int| 0 <= i < a ==> is_space(s@[i]),
        decreases n - a,
    {
        a += 1;
    }
    let mut b: usize = n;
    while b > a && is_space_char(s.get_char(b - 1))
        invariant
            a <= b <= n,
            n == s@.len(),
            forall|i: int| 0 <= i < a ==> is_space(s@[i]),
            forall|i: int| b <= i < n ==> is_space(s@[i]),
        decreases b,
    {
        b -= 1;
    }
    proof {
        lemma_trim_front_subrange(s@, a as int);
        let t = s@.subrange(a as int, n as int);
        lemma_trim_back_subrange(t, b - a);
        assert(t.subrange(0, b - a) =~= s@.subrange(a as int, b as int));
    }
    s.substring_char(a, b).to_owned()
}

} // verus!
