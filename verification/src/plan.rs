use vstd::prelude::*;
use crate::paths::{sanitize_spec, plain_component, lemma_sanitized_components_plain,
    sanitize_entry_path};
use crate::release::{ReleaseV, select_spec};
use crate::text::trim_spec;
use crate::version::needs_update;

verus! {

/// One entry of the downloaded archive, as plain values: its name as
/// recorded in the archive, its decompressed bytes, and its Unix mode if
/// it carries one.
pub struct ArchiveEntry {
    pub name: String,
    pub data: Vec<u8>,
    pub unix_mode: Option<u32>,
}

impl DeepView for ArchiveEntry {
    type V = (Seq<char>, Seq<u8>, Option<u32>);

    open spec fn deep_view(&self) -> (Seq<char>, Seq<u8>, Option<u32>) {
        (self.name@, self.data@, self.unix_mode)
    }
}

/// One step of an installation, in order.  The first four touch only the
/// staging directory; the last two retire the live directory and promote
/// staging in its place.  Paths are resolved components below the staging
/// root.
pub enum InstallAction {
    MakeDir { path: Vec<String> },
    WriteFile { path: Vec<String>, data: Vec<u8> },
    SetMode { path: Vec<String>, mode: u32 },
    WriteVersionMarker { name: String },
    RemoveLive,
    PromoteStaging,
}

/// The mathematical model of an installation step.
pub ghost enum ActionV {
    MakeDir { path: Seq<Seq<char>> },
    WriteFile { path: Seq<Seq<char>>, data: Seq<u8> },
    SetMode { path: Seq<Seq<char>>, mode: u32 },
    WriteVersionMarker { name: Seq<char> },
    RemoveLive,
    PromoteStaging,
}

impl DeepView for InstallAction {
    type V = ActionV;

    open spec fn deep_view(&self) -> ActionV {
        match self {
            InstallAction::MakeDir { path } => ActionV::MakeDir { path: path.deep_view() },
            InstallAction::WriteFile { path, data } => ActionV::WriteFile {
                path: path.deep_view(),
                data: data@,
            },
            InstallAction::SetMode { path, mode } => ActionV::SetMode {
                path: path.deep_view(),
                mode: *mode,
            },
            InstallAction::WriteVersionMarker { name } => ActionV::WriteVersionMarker {
                name: name@,
            },
            InstallAction::RemoveLive => ActionV::RemoveLive,
            InstallAction::PromoteStaging => ActionV::PromoteStaging,
        }
    }
}

/// An entry whose name ends with `/` is a directory entry.
pub open spec fn is_dir_name(name: Seq<char>) -> bool {
    name.len() > 0 && name.last() == '/'
}

/// The steps one archive entry contributes.  An entry whose name cannot be
/// resolved within the staging root is silently skipped, as is one that
/// resolves to no components at all; a directory entry becomes a directory
/// creation, a file entry a verbatim write, and a recorded Unix mode is
/// applied after either.
pub open spec fn entry_actions(e: (Seq<char>, Seq<u8>, Option<u32>)) -> Seq<ActionV> {
    match sanitize_spec(e.0) {
        None => Seq::empty(),
        Some(comps) => {
            if comps.len() == 0 {
                Seq::empty()
            } else {
                let base: Seq<ActionV> = if is_dir_name(e.0) {
                    seq![ActionV::MakeDir { path: comps }]
                } else {
                    seq![ActionV::WriteFile { path: comps, data: e.1 }]
                };
                match e.2 {
                    Some(m) => base.push(ActionV::SetMode { path: comps, mode: m }),
                    None => base,
                }
            }
        },
    }
}

/// The steps that populate the staging directory, in archive order.
pub open spec fn staging_actions(es: Seq<(Seq<char>, Seq<u8>, Option<u32>)>) -> Seq<ActionV>
    decreases es.len(),
{
    if es.len() == 0 {
        Seq::empty()
    } else {
        entry_actions(es[0]) + staging_actions(es.drop_first())
    }
}

/// The whole installation: populate staging, stamp the version marker into
/// staging, and only then retire the live directory and promote staging.
pub open spec fn install_plan_spec(
    es: Seq<(Seq<char>, Seq<u8>, Option<u32>)>,
    version_name: Seq<char>,
) -> Seq<ActionV> {
    staging_actions(es) + seq![
        ActionV::WriteVersionMarker { name: version_name },
        ActionV::RemoveLive,
        ActionV::PromoteStaging,
    ]
}

/// Whether `name` names a directory entry.
fn is_dir_entry(name: &str) -> (b: bool)
    ensures
        b == is_dir_name(name@),
{
    let n = name.unicode_len();
    if n == 0 {
        return false;
    }
    name.get_char(n - 1) == '/'
}

/// Appending one entry appends its actions.
proof fn lemma_staging_actions_snoc(
    es: Seq<(Seq<char>, Seq<u8>, Option<u32>)>,
    e: (Seq<char>, Seq<u8>, Option<u32>),
)
    ensures
        staging_actions(es.push(e)) == staging_actions(es) + entry_actions(e),
    decreases es.len(),
{
    if es.len() == 0 {
        assert(es.push(e).drop_first() =~= es);
        assert(es.push(e)[0] == e);
        assert(staging_actions(es) =~= Seq::<ActionV>::empty());
        assert(staging_actions(es.push(e)) =~= entry_actions(e) + staging_actions(es));
        assert(entry_actions(e) + staging_actions(es) =~= staging_actions(es) + entry_actions(e));
    } else {
        assert(es.push(e).drop_first() =~= es.drop_first().push(e));
        lemma_staging_actions_snoc(es.drop_first(), e);
        assert(es.push(e)[0] == es[0]);
        assert(entry_actions(es[0]) + (staging_actions(es.drop_first()) + entry_actions(e))
            =~= (entry_actions(es[0]) + staging_actions(es.drop_first())) + entry_actions(e));
    }
}

/// Build the installation plan for the resolved release: the actions that
/// extract every safe archive entry into staging, write the release name
/// as the version marker, and swap the staging directory into place.
pub fn build_install_plan(entries: &Vec<ArchiveEntry>, version_name: &String) -> (plan: Vec<
    InstallAction,
>)
    ensures
        plan.deep_view() == install_plan_spec(entries.deep_view(), version_name@),
{
    let ghost ev = entries.deep_view();
    let n = entries.len();
    let mut plan: Vec<InstallAction> = Vec::new();
    proof {
        assert(ev.subrange(0, 0) =~= Seq::<(Seq<char>, Seq<u8>, Option<u32>)>::empty());
        assert(plan.deep_view() =~= staging_actions(ev.subrange(0, 0)));
    }
    let mut i: usize = 0;
    while i < n
        invariant
            i <= n,
            n == entries@.len(),
            ev == entries.deep_view(),
            plan.deep_view() == staging_actions(ev.subrange(0, i as int)),
        decreases n - i,
    {
        proof {
            assert(ev[i as int] == entries@[i as int].deep_view());
        }
        let e = &entries[i];
        let ghost before = plan.deep_view();
        match sanitize_entry_path(e.name.as_str()) {
            None => {},
            Some(comps) => {
                if comps.len() > 0 {
                    let with_mode = match &e.unix_mode {
                        Some(_) => true,
                        None => false,
                    };
                    let mode_path: Option<Vec<String>> = if with_mode {
                        Some(clone_components(&comps))
                    } else {
                        None
                    };
                    if is_dir_entry(e.name.as_str()) {
                        plan.push(InstallAction::MakeDir { path: comps });
                    } else {
                        plan.push(
                            InstallAction::WriteFile { path: comps, data: clone_bytes(&e.data) },
                        );
                    }
                    match mode_path {
                        Some(p) => {
                            let m = match &e.unix_mode {
                                Some(m) => *m,
                                None => unreached(),
                            };
                            plan.push(InstallAction::SetMode { path: p, mode: m });
                        },
                        None => {},
                    }
                }
            },
        }
        proof {
            assert(plan.deep_view() =~= before + entry_actions(ev[i as int]));
            lemma_staging_actions_snoc(ev.subrange(0, i as int), ev[i as int]);
            assert(ev.subrange(0, i + 1) =~= ev.subrange(0, i as int).push(ev[i as int]));
        }
        i += 1;
    }
    proof {
        assert(ev.subrange(0, n as int) =~= ev);
    }
    plan.push(InstallAction::WriteVersionMarker { name: version_name.clone() });
    plan.push(InstallAction::RemoveLive);
    plan.push(InstallAction::PromoteStaging);
    proof {
        assert(plan.deep_view() =~= install_plan_spec(ev, version_name@));
    }
    plan
}

/// A copy of the resolved components, value for value.
fn clone_components(comps: &Vec<String>) -> (r: Vec<String>)
    ensures
        r.deep_view() == comps.deep_view(),
{
    let r = comps.clone();
    proof {
        assert(forall|i: int| 0 <= i < comps@.len() ==> r@[i]@ == comps@[i]@);
        assert(r.deep_view() =~= comps.deep_view());
    }
    r
}

/// A copy of an entry's bytes, value for value.
fn clone_bytes(data: &Vec<u8>) -> (r: Vec<u8>)
    ensures
        r@ == data@,
{
    let r = data.clone();
    proof {
        assert(r@ =~= data@);
    }
    r
}

/// Only staging steps: nothing that touches the live installation
/// directory.
pub open spec fn staging_only(a: ActionV) -> bool {
    a is MakeDir || a is WriteFile || a is SetMode || a is WriteVersionMarker
}

/// Whether a step writes only at a safe path below the staging root.
pub open spec fn action_contained(a: ActionV) -> bool {
    match a {
        ActionV::MakeDir { path } => path.len() > 0 && (forall|i: int|
            0 <= i < path.len() ==> plain_component(path[i])),
        ActionV::WriteFile { path, data: _ } => path.len() > 0 && (forall|i: int|
            0 <= i < path.len() ==> plain_component(path[i])),
        ActionV::SetMode { path, mode: _ } => path.len() > 0 && (forall|i: int|
            0 <= i < path.len() ==> plain_component(path[i])),
        _ => true,
    }
}

/// The steps of one entry stay in staging and at contained paths.
proof fn lemma_entry_actions_contained(e: (Seq<char>, Seq<u8>, Option<u32>))
    ensures
        forall|k: int|
            0 <= k < entry_actions(e).len() ==> staging_only(#[trigger] entry_actions(e)[k])
                && action_contained(entry_actions(e)[k]),
{
    lemma_sanitized_components_plain(e.0);
}

/// All staging steps stay in staging and at contained paths.
proof fn lemma_staging_actions_contained(es: Seq<(Seq<char>, Seq<u8>, Option<u32>)>)
    ensures
        forall|k: int|
            0 <= k < staging_actions(es).len() ==> staging_only(#[trigger] staging_actions(es)[k])
                && action_contained(staging_actions(es)[k]),
    decreases es.len(),
{
    if es.len() > 0 {
        lemma_entry_actions_contained(es[0]);
        lemma_staging_actions_contained(es.drop_first());
        assert(forall|k: int|
            0 <= k < staging_actions(es).len() ==> #[trigger] staging_actions(es)[k]
                == if k < entry_actions(es[0]).len() {
                entry_actions(es[0])[k]
            } else {
                staging_actions(es.drop_first())[k - entry_actions(es[0]).len()]
            });
    }
}

/// No archive entry can write outside the staging directory: every step of
/// the plan that writes at a path writes below the staging root, through
/// plain components only.  An entry whose name resolves outside the root
/// contributes no step at all.
pub proof fn lemma_plan_paths_contained(
    es: Seq<(Seq<char>, Seq<u8>, Option<u32>)>,
    version_name: Seq<char>,
)
    ensures
        forall|k: int|
            0 <= k < install_plan_spec(es, version_name).len() ==> action_contained(
                #[trigger] install_plan_spec(es, version_name)[k],
            ),
{
    lemma_staging_actions_contained(es);
    let p = install_plan_spec(es, version_name);
    assert(forall|k: int|
        0 <= k < staging_actions(es).len() ==> #[trigger] p[k] == staging_actions(es)[k]);
}

/// Until the step that removes the live directory — the second-to-last of
/// the plan, followed at once by the promotion — every step touches only
/// the staging directory.  An interruption anywhere before that step
/// leaves the live installation directory untouched, the recorded
/// installed version with it.
pub proof fn lemma_live_untouched_until_swap(
    es: Seq<(Seq<char>, Seq<u8>, Option<u32>)>,
    version_name: Seq<char>,
)
    ensures
        install_plan_spec(es, version_name).len() >= 3,
        install_plan_spec(es, version_name)[install_plan_spec(es, version_name).len() - 3]
            == (ActionV::WriteVersionMarker { name: version_name }),
        install_plan_spec(es, version_name)[install_plan_spec(es, version_name).len() - 2]
            is RemoveLive,
        install_plan_spec(es, version_name).last() is PromoteStaging,
        forall|k: int|
            0 <= k < install_plan_spec(es, version_name).len() - 2 ==> staging_only(
                #[trigger] install_plan_spec(es, version_name)[k],
            ),
{
    lemma_staging_actions_contained(es);
    let p = install_plan_spec(es, version_name);
    assert(forall|k: int|
        0 <= k < staging_actions(es).len() ==> #[trigger] p[k] == staging_actions(es)[k]);
}

/// After a successful update the version marker holds exactly the resolved
/// release name — already trimmed, so trimming it again changes nothing —
/// and a second run against the same catalog state resolves the same name
/// and owes no update: the no-op path.
pub proof fn lemma_version_round_trip(
    rels: Seq<ReleaseV>,
    suffix: Seq<char>,
    es: Seq<(Seq<char>, Seq<u8>, Option<u32>)>,
)
    requires
        select_spec(rels, suffix) is Some,
    ensures
        ({
            let r = select_spec(rels, suffix)->0;
            let p = install_plan_spec(es, r.name);
            &&& p[p.len() - 3] == (ActionV::WriteVersionMarker { name: r.name })
            &&& trim_spec(r.name) == r.name
            &&& !needs_update(r.name, select_spec(rels, suffix)->0.name)
        }),
{
    lemma_select_name_trimmed(rels, suffix);
}

/// The name a selection resolves is already trimmed.
proof fn lemma_select_name_trimmed(rels: Seq<ReleaseV>, suffix: Seq<char>)
    requires
        select_spec(rels, suffix) is Some,
    ensures
        trim_spec(select_spec(rels, suffix)->0.name) == select_spec(rels, suffix)->0.name,
    decreases rels.len(),
{
    let r = rels[0];
    if crate::release::release_qualifies(r) && crate::release::first_matching_asset(
        r.assets,
        suffix,
    ) is Some {
        crate::text::lemma_trim_idempotent(r.name->0);
    } else {
        lemma_select_name_trimmed(rels.drop_first(), suffix);
    }
}

} // verus!
