//! Ejecting a tape: finding which tape is inserted, and where each target's
//! link and backup are.
use vstd::prelude::*;
use vstd::string::*;
use crate::error::TapeError;
use crate::path::{
    is_component, is_dot, is_dot_dot, lemma_parse_component, lemma_parse_render, path_wf,
    spec_file_name, spec_join, spec_parent, spec_parse, spec_render, spec_with_file_name, PathModel,
    TapePath,
};
use crate::insert::{by_name, spec_recorded_location, spec_source_path, LinkStep};
use crate::path::spec_strip_prefix;
use crate::state::{lemma_record_reads_back, recorded_tape, spec_record, spec_recorded_tape};
use crate::text::spec_trim;

verus! {

/// The file name of the backup of `p`: `.{name}.bak`, where `name` is the
/// file name of `p`, or `config` when it has none.
pub open spec fn spec_backup_name(p: PathModel) -> Seq<char> {
    let name = match spec_file_name(p) {
        Some(n) => n,
        None => "config"@,
    };
    seq!['.'] + name + ".bak"@
}

/// Where the backup of whatever stood at `p` is kept.
pub open spec fn spec_backup_path(p: PathModel) -> PathModel {
    spec_with_file_name(p, spec_backup_name(p))
}

/// The directory of the tape that the state file names `recorded`, inside
/// the tape library `library`.
pub open spec fn spec_eject_tape_dir(library: PathModel, recorded: Seq<char>) -> PathModel {
    spec_join(library, spec_parse(recorded))
}

/// The backup path of `path`, which ejecting restores from: the file name
/// becomes `.{name}.bak` (`.config.bak` when the path has no file name).
pub fn get_lastest_backup(path: &TapePath) -> (res: TapePath)
    ensures
        res@ == spec_backup_path(path@),
{
    proof {
        reveal_strlit("config");
        reveal_strlit(".");
        reveal_strlit(".bak");
    }
    let name = match path.file_name() {
        Some(n) => n,
        None => String::from_str("config"),
    };
    let mut backup = String::from_str(".");
    backup.append(name.as_str());
    backup.append(".bak");
    proof {
        assert(name@ == match spec_file_name(path@) {
            Some(n) => n,
            None => "config"@,
        });
        assert(backup@ =~= spec_backup_name(path@));
    }
    path.with_file_name(backup.as_str())
}

/// A backup never replaces what it backs up: the backup path differs from
/// the path, and when the path has a file name the backup sits beside it,
/// in the same directory, under the name `.{name}.bak`.
pub proof fn lemma_backup_is_sibling(p: PathModel)
    requires
        path_wf(p),
    ensures
        spec_backup_path(p) != p,
        path_wf(spec_backup_path(p)),
        spec_file_name(p) is Some ==> {
            &&& spec_parent(spec_backup_path(p)) == spec_parent(p)
            &&& spec_file_name(spec_backup_path(p)) == Some(spec_backup_name(p))
        },
{
    reveal_strlit("config");
    reveal_strlit(".bak");
    let name = spec_backup_name(p);
    let stem = match spec_file_name(p) {
        Some(n) => n,
        None => "config"@,
    };
    assert(name =~= seq!['.'] + stem + seq!['.', 'b', 'a', 'k']);
    assert(!stem.contains('/')) by {
        if spec_file_name(p) is Some {
            assert(is_component(p.1[p.1.len() - 1]));
        } else {
            assert("config"@ =~= seq!['c', 'o', 'n', 'f', 'i', 'g']);
        }
    }
    assert(!name.contains('/')) by {
        if name.contains('/') {
            let k = choose|k: int| 0 <= k < name.len() && name[k] == '/';
            if 1 <= k < 1 + stem.len() {
                assert(stem[k - 1] == '/');
            }
        }
    }
    assert(is_component(name));
    assert(!is_dot(name));
    assert(!is_dot_dot(name));
    lemma_parse_component(name);
    let b = spec_backup_path(p);
    if spec_file_name(p) is Some {
        let base = p.1.drop_last();
        assert(b.1 =~= base.push(name));
        assert(b.1.drop_last() =~= base);
        assert(name.len() != p.1.last().len());
        assert(b.1.last() != p.1.last());
        assert forall|i: int| 0 <= i < b.1.len() implies {
            &&& is_component(#[trigger] b.1[i])
            &&& is_dot(b.1[i]) ==> (i == 0 && !b.0)
        } by {
            if i < base.len() {
                assert(b.1[i] == p.1[i]);
            }
        }
    } else {
        assert(b.1 =~= p.1.push(name));
        assert(b.1.len() != p.1.len());
        assert forall|i: int| 0 <= i < b.1.len() implies {
            &&& is_component(#[trigger] b.1[i])
            &&& is_dot(b.1[i]) ==> (i == 0 && !b.0)
        } by {
            if i < p.1.len() {
                assert(b.1[i] == p.1[i]);
            }
        }
    }
}

/// Where the state text says the inserted tape was found; fails when there
/// is no state file (`state` is `None`) or when it names no tape.
pub fn ejected_tape(state: &Option<String>) -> (res: Result<String, TapeError>)
    ensures
        state is None ==> res matches Err(TapeError::NoActiveTape),
        state matches Some(content) ==> match spec_recorded_tape(content@) {
            Some(name) => res matches Ok(r) && r@ == name,
            None => res matches Err(TapeError::CorruptedState),
        },
{
    match state {
        None => Err(TapeError::NoActiveTape),
        Some(content) => match recorded_tape(content.as_str()) {
            Some(name) => Ok(name),
            None => Err(TapeError::CorruptedState),
        },
    }
}

/// The directory of the tape recorded as `recorded`, inside the tape
/// library.
pub fn eject_tape_dir(library: &TapePath, recorded: &str) -> (res: TapePath)
    ensures
        res@ == spec_eject_tape_dir(library@, recorded@),
{
    library.join(&TapePath::parse(recorded))
}

/// The link to remove and the backup to move back for the target `target`
/// of a tape, in the configuration directory `config_dir`.
pub fn restore_paths(config_dir: &TapePath, target: &TapePath) -> (res: (TapePath, TapePath))
    ensures
        res.0@ == spec_join(config_dir@, target@),
        res.1@ == spec_backup_path(spec_join(config_dir@, target@)),
{
    let link = config_dir.join(target);
    let backup = get_lastest_backup(&link);
    (link, backup)
}

/// Ejecting undoes inserting, target by target: the link that ejecting
/// removes is the one that inserting created, and the backup it moves back
/// is the one that inserting made of what stood there, which is never the
/// link itself and, for a target with a file name, sits in the same
/// directory.
pub proof fn lemma_eject_restores_insert_backup(config_dir: PathModel, target: PathModel)
    requires
        path_wf(config_dir),
        path_wf(target),
    ensures
        ({
            let dest = spec_join(config_dir, target);
            &&& spec_backup_path(dest) != dest
            &&& spec_file_name(dest) is Some ==> spec_parent(spec_backup_path(dest)) == spec_parent(
                dest,
            )
        }),
{
    let dest = spec_join(config_dir, target);
    assert(path_wf(dest)) by {
        if !target.0 {
            if target.1.len() > 0 && is_dot(target.1[0]) && (config_dir.0 || config_dir.1.len()
                > 0) {
                assert forall|i: int| 0 <= i < dest.1.len() implies {
                    &&& is_component(#[trigger] dest.1[i])
                    &&& is_dot(dest.1[i]) ==> (i == 0 && !dest.0)
                } by {
                    if i < config_dir.1.len() {
                        assert(dest.1[i] == config_dir.1[i]);
                    } else {
                        assert(dest.1[i] == target.1[i - config_dir.1.len() + 1]);
                    }
                }
            } else {
                assert forall|i: int| 0 <= i < dest.1.len() implies {
                    &&& is_component(#[trigger] dest.1[i])
                    &&& is_dot(dest.1[i]) ==> (i == 0 && !dest.0)
                } by {
                    if i < config_dir.1.len() {
                        assert(dest.1[i] == config_dir.1[i]);
                    } else {
                        assert(dest.1[i] == target.1[i - config_dir.1.len()]);
                    }
                }
            }
        }
    }
    lemma_backup_is_sibling(dest);
}

/// Ejecting finds the tape that inserting recorded.  The state file names
/// a tape chosen by name by that name, and any other tape by the full path
/// `tape_dir` of the directory it was inserted from; either reads back as
/// written, and the directory that ejecting then looks in is the named tape
/// in the library, or `tape_dir` itself.  (Names and paths that hold a line
/// break or begin or end with whitespace do not survive the state file.)
pub proof fn lemma_eject_finds_inserted_tape(
    display: Seq<char>,
    name: Option<Seq<char>>,
    path: Option<Seq<char>>,
    library: PathModel,
    tape_dir: PathModel,
)
    requires
        !display.contains('\n'),
        by_name(name, path) ==> !name->0.contains('\n') && spec_trim(name->0) == name->0,
        !by_name(name, path) ==> {
            &&& path_wf(tape_dir)
            &&& tape_dir.0
            &&& !spec_render(tape_dir).contains('\n')
            &&& spec_trim(spec_render(tape_dir)) == spec_render(tape_dir)
        },
    ensures
        ({
            let loc = spec_recorded_location(name, path, tape_dir);
            &&& spec_recorded_tape(spec_record(display, loc)) == Some(loc)
            &&& spec_eject_tape_dir(library, loc) == if by_name(name, path) {
                spec_source_path(name, path, library)->0
            } else {
                tape_dir
            }
        }),
{
    let loc = spec_recorded_location(name, path, tape_dir);
    lemma_record_reads_back(display, loc);
    if !by_name(name, path) {
        lemma_parse_render(tape_dir);
    }
}

/// What is known of one target of the tape being ejected: its link place
/// and backup (from `restore_paths`), what the link place holds, and
/// whether a backup is there.
pub struct RestoreProbe {
    pub link: TapePath,
    pub backup: TapePath,
    /// Where the entry at the link place points, when it is a symbolic link.
    pub link_target: Option<TapePath>,
    /// Whether anything (a link included) stands at the link place.
    pub link_present: bool,
    /// Whether anything stands at the backup place.
    pub backup_present: bool,
}

/// What ejecting does at one target: remove the link when it is the tape's,
/// then move the backup back to `link` when there is one.
pub struct RestoreStep {
    pub link: TapePath,
    pub remove_link: bool,
    pub restore_from: Option<TapePath>,
}

/// The entry at the link place is a symbolic link into the tape in
/// `tape_dir`: one that inserting the tape made.
pub open spec fn own_link(p: RestoreProbe, tape_dir: PathModel) -> bool {
    p.link_target matches Some(t) && spec_strip_prefix(t@, tape_dir) is Some
}

/// After the tape's own link is removed, nothing stands at the link place.
pub open spec fn slot_free(p: RestoreProbe, tape_dir: PathModel) -> bool {
    own_link(p, tape_dir) || !p.link_present
}

/// `step` is what ejecting does at the target probed as `p`: it removes
/// the entry at the link place only when that is the tape's own link, and
/// moves the backup back only when there is one and the link place is then
/// free, so that nothing else is removed or overwritten.
pub open spec fn restore_matches(step: RestoreStep, p: RestoreProbe, tape_dir: PathModel) -> bool {
    &&& step.link@ == p.link@
    &&& step.remove_link == own_link(p, tape_dir)
    &&& (p.backup_present && slot_free(p, tape_dir)) ==> (step.restore_from matches Some(b) && b@
        == p.backup@)
    &&& !(p.backup_present && slot_free(p, tape_dir)) ==> step.restore_from is None
}

/// What ejecting the tape in `tape_dir` does at each probed target, in
/// order.
pub fn plan_eject(tape_dir: &TapePath, probes: &Vec<RestoreProbe>) -> (res: Vec<RestoreStep>)
    ensures
        res@.len() == probes@.len(),
        forall|i: int|
            0 <= i < res@.len() ==> restore_matches(#[trigger] res@[i], probes@[i], tape_dir@),
{
    let mut res: Vec<RestoreStep> = Vec::new();
    for i in 0..probes.len()
        invariant
            res@.len() == i,
            forall|k: int|
                0 <= k < i ==> restore_matches(#[trigger] res@[k], probes@[k], tape_dir@),
    {
        let p = &probes[i];
        let own = match &p.link_target {
            Some(t) => t.strip_prefix(tape_dir).is_some(),
            None => false,
        };
        let free = own || !p.link_present;
        let restore_from = if p.backup_present && free {
            Some(p.backup.duplicate())
        } else {
            None
        };
        res.push(RestoreStep { link: p.link.duplicate(), remove_link: own, restore_from });
    }
    res
}

/// The links that inserting makes for a tape point into the tape: both the
/// `.config` entry and the direct entry of a relative target lie under the
/// tape directory, so ejecting recognises them as the tape's own.
pub proof fn lemma_inserted_links_are_own(tape_dir: PathModel, target: PathModel)
    requires
        path_wf(tape_dir),
        !target.0,
    ensures
        spec_strip_prefix(spec_join(spec_join(tape_dir, spec_parse(".config"@)), target), tape_dir)
            is Some,
        spec_strip_prefix(spec_join(tape_dir, target), tape_dir) is Some,
{
    reveal_strlit(".config");
    let c = ".config"@;
    assert(c =~= seq!['.', 'c', 'o', 'n', 'f', 'i', 'g']);
    assert(!c.contains('/'));
    lemma_parse_component(c);
    let inner = spec_join(tape_dir, spec_parse(c));
    assert(inner == (tape_dir.0, tape_dir.1 + seq![c]));
    let a = spec_join(inner, target);
    let b = spec_join(tape_dir, target);
    if !(!tape_dir.0 && tape_dir.1.len() == 0) {
        assert(a.0 == tape_dir.0);
        assert(tape_dir.1.is_prefix_of(a.1)) by {
            assert forall|i: int| 0 <= i < tape_dir.1.len() implies tape_dir.1[i] == a.1[i] by {
                assert(a.1[i] == inner.1[i]);
            }
        }
        assert(b.0 == tape_dir.0);
        assert(tape_dir.1.is_prefix_of(b.1));
    }
}

/// Ejecting undoes inserting: when each target's link place holds the link
/// that inserting made (pointing at the target's entry in the tape) and its
/// backup place holds exactly the backup that inserting moved aside, the
/// eject plan removes every one of those links and moves every one of
/// those backups back to where it came from, and does nothing else.
pub proof fn lemma_eject_undoes_insert(
    tape_dir: PathModel,
    config_dir: PathModel,
    targets: Seq<PathModel>,
    from_config: Seq<bool>,
    steps: Seq<LinkStep>,
    probes: Seq<RestoreProbe>,
    restores: Seq<RestoreStep>,
)
    requires
        path_wf(tape_dir),
        steps.len() == targets.len(),
        from_config.len() == targets.len(),
        probes.len() == targets.len(),
        restores.len() == targets.len(),
        forall|i: int| 0 <= i < targets.len() ==> !(#[trigger] targets[i]).0,
        forall|i: int|
            0 <= i < targets.len() ==> {
                &&& (#[trigger] steps[i]).dest@ == spec_join(config_dir, targets[i])
                &&& steps[i].source@ == if from_config[i] {
                    spec_join(spec_join(tape_dir, spec_parse(".config"@)), targets[i])
                } else {
                    spec_join(tape_dir, targets[i])
                }
                &&& steps[i].backup matches Some(b) ==> b@ == spec_backup_path(steps[i].dest@)
            },
        forall|i: int|
            0 <= i < targets.len() ==> {
                &&& (#[trigger] probes[i]).link@ == steps[i].dest@
                &&& probes[i].backup@ == spec_backup_path(steps[i].dest@)
                &&& probes[i].link_target matches Some(t) && t@ == steps[i].source@
                &&& probes[i].link_present
                &&& probes[i].backup_present == steps[i].backup is Some
            },
        forall|i: int|
            0 <= i < targets.len() ==> restore_matches(#[trigger] restores[i], probes[i], tape_dir),
    ensures
        forall|i: int|
            0 <= i < targets.len() ==> {
                &&& (#[trigger] restores[i]).link@ == steps[i].dest@
                &&& restores[i].remove_link
                &&& match steps[i].backup {
                    Some(b) => restores[i].restore_from matches Some(r) && r@ == b@,
                    None => restores[i].restore_from is None,
                }
            },
{
    assert forall|i: int| 0 <= i < targets.len() implies {
        &&& (#[trigger] restores[i]).link@ == steps[i].dest@
        &&& restores[i].remove_link
        &&& match steps[i].backup {
            Some(b) => restores[i].restore_from matches Some(r) && r@ == b@,
            None => restores[i].restore_from is None,
        }
    } by {
        lemma_inserted_links_are_own(tape_dir, targets[i]);
        assert(steps[i].dest@ == spec_join(config_dir, targets[i]));
        assert(probes[i].link@ == steps[i].dest@);
        assert(restore_matches(restores[i], probes[i], tape_dir));
        assert(own_link(probes[i], tape_dir));
    }
}

} // verus!
