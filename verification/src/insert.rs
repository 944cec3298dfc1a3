//! Inserting a tape: where it is, what it links, where the replaced
//! configuration is backed up, and what is recorded afterwards.
use vstd::prelude::*;
use vstd::string::*;
use crate::eject::{get_lastest_backup, lemma_backup_is_sibling, spec_backup_name, spec_backup_path};
use crate::error::TapeError;
use crate::manifest::{check_dependencies, spec_required_binaries, TapeManifest};
use crate::path::{
    is_dot, is_dot_text, path_wf, spec_file_name, spec_join, spec_parse, spec_render,
    spec_strip_prefix, PathModel, TapePath,
};
use crate::state::APP_NAME;
use crate::text::text_equals;

verus! {

/// The text of an optional argument.
pub open spec fn opt_view(o: Option<String>) -> Option<Seq<char>> {
    match o {
        Some(t) => Some(t@),
        None => None,
    }
}

/// The tape library inside the local data directory `data_local`.
pub open spec fn spec_library(data_local: PathModel) -> PathModel {
    spec_join(data_local, spec_parse(APP_NAME@))
}

/// The tape is chosen by its name in the library: a name is given, no path
/// is, and the name is not `.`, which stands for the current directory.
pub open spec fn by_name(name: Option<Seq<char>>, path: Option<Seq<char>>) -> bool {
    path is None && name is Some && !is_dot(name->0)
}

/// Where the tape to insert is: the given path if there is one; else the
/// current directory for the name `.`, or the named tape in the library;
/// `None` when neither is given.
pub open spec fn spec_source_path(
    name: Option<Seq<char>>,
    path: Option<Seq<char>>,
    library: PathModel,
) -> Option<PathModel> {
    match (name, path) {
        (_, Some(p)) => Some(spec_parse(p)),
        (Some(n), None) => if is_dot(n) {
            Some(spec_parse(n))
        } else {
            Some(spec_join(library, spec_parse(n)))
        },
        (None, None) => None,
    }
}

/// How the tape to insert is named in messages: by its name if it was
/// named, else by the path it was given as.
pub open spec fn spec_identifier(name: Option<Seq<char>>, path: Option<Seq<char>>) -> Seq<char> {
    match name {
        Some(n) => n,
        None => match path {
            Some(p) => p,
            None => Seq::empty(),
        },
    }
}

/// How the inserted tape is recorded in the state file: by its name when
/// it was chosen by name, else by the full path `tape_dir` of its
/// directory, so that ejecting finds it from anywhere.
pub open spec fn spec_recorded_location(
    name: Option<Seq<char>>,
    path: Option<Seq<char>>,
    tape_dir: PathModel,
) -> Seq<char> {
    if by_name(name, path) {
        name->0
    } else {
        spec_render(tape_dir)
    }
}

/// `n` is one of the entries of a tape that are not configuration: its
/// manifest, its git directory and its readme.
pub open spec fn is_tape_furniture(n: Seq<char>) -> bool {
    n == "tape.toml"@ || n == ".git"@ || n == "README.md"@
}

/// The targets of a tape whose scanned directory holds the entries `names`,
/// in order.
pub open spec fn spec_targets(names: Seq<Seq<char>>) -> Seq<PathModel>
    decreases names.len(),
{
    if names.len() == 0 {
        Seq::empty()
    } else {
        let prev = spec_targets(names.drop_last());
        if is_tape_furniture(names.last()) {
            prev
        } else {
            prev.push(spec_parse(names.last()))
        }
    }
}

/// The tape library in the local data directory, as far as that directory is
/// known.
pub fn locate_local_dir(data_local: &Option<TapePath>) -> (res: Result<TapePath, TapeError>)
    ensures
        data_local is None ==> res matches Err(TapeError::NoLocalDir),
        data_local matches Some(d) ==> res matches Ok(l) && l@ == spec_library(d@),
{
    match data_local {
        Some(d) => Ok(d.join(&TapePath::parse(APP_NAME))),
        None => Err(TapeError::NoLocalDir),
    }
}

/// Where the tape to insert is: `path` if given, else the current directory
/// for the name `.`, else the tape called `name` in the library.
pub fn get_source_path(
    name: &Option<String>,
    path: &Option<String>,
    data_local: &Option<TapePath>,
) -> (res: Result<TapePath, TapeError>)
    ensures
        path matches Some(p) ==> res matches Ok(s) && s@ == spec_parse(p@),
        path is None && name is None ==> res matches Err(TapeError::NoTapeGiven),
        data_local is Some && (name is Some || path is Some) ==> (res matches Ok(s) && Some(s@)
            == spec_source_path(opt_view(*name), opt_view(*path), spec_library(data_local->0@))),
        path is None && name is Some && is_dot(name->0@) ==> (res matches Ok(s) && s@
            == spec_parse(name->0@)),
        path is None && name is Some && !is_dot(name->0@) && data_local is None ==> res matches Err(
            TapeError::NoLocalDir,
        ),
        path is None && name is Some && !is_dot(name->0@) && data_local is Some ==> (res matches Ok(
            s,
        ) && s@ == spec_join(spec_library(data_local->0@), spec_parse(name->0@))),
{
    match (name, path) {
        (_, Some(p)) => Ok(TapePath::parse(p.as_str())),
        (Some(n), None) => {
            if is_dot_text(n.as_str()) {
                return Ok(TapePath::parse(n.as_str()));
            }
            let library = locate_local_dir(data_local)?;
            Ok(library.join(&TapePath::parse(n.as_str())))
        },
        (None, None) => Err(TapeError::NoTapeGiven),
    }
}

/// How the tape to insert is named in messages: its name if it was named,
/// else the path it was given as.
pub fn tape_identifier(name: &Option<String>, path: &Option<String>) -> (res: String)
    requires
        name is Some || path is Some,
    ensures
        res@ == spec_identifier(opt_view(*name), opt_view(*path)),
{
    match name {
        Some(n) => n.clone(),
        None => match path {
            Some(p) => p.clone(),
            None => String::new(),
        },
    }
}

/// How the inserted tape is recorded in the state file: its name when it
/// was chosen by name, else the full path of its directory `tape_dir`.
pub fn recorded_location(name: &Option<String>, path: &Option<String>, tape_dir: &TapePath) -> (res:
    String)
    ensures
        res@ == spec_recorded_location(opt_view(*name), opt_view(*path), tape_dir@),
{
    match (name, path) {
        (Some(n), None) => {
            if is_dot_text(n.as_str()) {
                tape_dir.render()
            } else {
                n.clone()
            }
        },
        _ => tape_dir.render(),
    }
}

/// Refuses a tape source that does not exist or that is the tape library
/// itself.
pub fn check_insert_source(
    identifier: &str,
    source: &TapePath,
    library: &TapePath,
    source_exists: bool,
) -> (res: Result<(), TapeError>)
    ensures
        res is Ok <==> source_exists && source@ != library@,
        res matches Err(e) ==> e matches TapeError::TapeNotFound { identifier: i, source: s } && i@
            == identifier@ && s@ == source@,
{
    if !source_exists || source.same_as(library) {
        Err(TapeError::TapeNotFound { identifier: identifier.to_owned(), source: source.duplicate() })
    } else {
        Ok(())
    }
}

/// The binaries to look for before inserting, given the tape's manifest if
/// it has one that loads: none without a manifest.
pub fn check_dependecies(manifest: &Option<TapeManifest>) -> (res: Vec<String>)
    ensures
        manifest is None ==> res@.len() == 0,
        manifest matches Some(t) ==> res@ == spec_required_binaries(*t),
{
    match manifest {
        Some(t) => check_dependencies(t),
        None => Vec::new(),
    }
}

/// The directory whose entries are a tape's targets: its `.config`
/// directory when it has one, else the tape directory itself.
pub fn target_scan_dir(tape_dir: &TapePath, has_config_dir: bool) -> (res: TapePath)
    ensures
        has_config_dir ==> res@ == spec_join(tape_dir@, spec_parse(".config"@)),
        !has_config_dir ==> res@ == tape_dir@,
{
    if has_config_dir {
        tape_dir.join(&TapePath::parse(".config"))
    } else {
        tape_dir.duplicate()
    }
}

/// A tape's targets: the entries of its scanned directory except its
/// manifest, git directory and readme, in order.
pub fn resolve_targets(entry_names: &Vec<String>) -> (res: Vec<TapePath>)
    ensures
        res@.map_values(|t: TapePath| t@) == spec_targets(entry_names@.map_values(|n: String| n@)),
{
    let ghost names = entry_names@.map_values(|n: String| n@);
    let mut res: Vec<TapePath> = Vec::new();
    proof {
        assert(names.take(0) =~= Seq::<Seq<char>>::empty());
    }
    for i in 0..entry_names.len()
        invariant
            names == entry_names@.map_values(|n: String| n@),
            res@.map_values(|t: TapePath| t@) =~= spec_targets(names.take(i as int)),
    {
        let name = entry_names[i].as_str();
        proof {
            assert(names.take(i + 1).drop_last() =~= names.take(i as int));
            assert(names.take(i + 1).last() == name@);
            reveal_strlit("tape.toml");
            reveal_strlit(".git");
            reveal_strlit("README.md");
        }
        let furniture = text_equals(name, "tape.toml") || text_equals(name, ".git")
            || text_equals(name, "README.md");
        if !furniture {
            let ghost before = res@.map_values(|t: TapePath| t@);
            let t = TapePath::parse(name);
            res.push(t);
            proof {
                assert(res@.map_values(|t: TapePath| t@) =~= before.push(spec_parse(name@)));
            }
        }
    }
    proof {
        assert(names.take(entry_names@.len() as int) =~= names);
    }
    res
}

/// The paths that inserting one target involves: the target inside the
/// tape's `.config` directory and directly in the tape, the link to create
/// in the configuration directory, and the backup of what the link
/// replaces.
pub struct LinkPaths {
    pub in_config: TapePath,
    pub direct: TapePath,
    pub dest: TapePath,
    pub backup: TapePath,
}

/// One link that inserting creates: `dest` will point at `source`, after
/// whatever stood at `dest` has moved to `backup`, if anything did.
pub struct LinkStep {
    pub source: TapePath,
    pub dest: TapePath,
    pub backup: Option<TapePath>,
}

/// The paths that inserting `target` of the tape in `tape_dir` into the
/// configuration directory `config_dir` involves.
pub fn link_paths(tape_dir: &TapePath, config_dir: &TapePath, target: &TapePath) -> (res: LinkPaths)
    ensures
        res.in_config@ == spec_join(spec_join(tape_dir@, spec_parse(".config"@)), target@),
        res.direct@ == spec_join(tape_dir@, target@),
        res.dest@ == spec_join(config_dir@, target@),
        res.backup@ == spec_backup_path(spec_join(config_dir@, target@)),
{
    let in_config = tape_dir.join(&TapePath::parse(".config")).join(target);
    let direct = tape_dir.join(target);
    let dest = config_dir.join(target);
    let backup = get_lastest_backup(&dest);
    LinkPaths { in_config, direct, dest, backup }
}

/// The backup path for `target_path`, unless that slot is already taken.
pub fn get_available_backup_path_local(target_path: &TapePath, backup_taken: bool) -> (res: Result<
    TapePath,
    TapeError,
>)
    ensures
        backup_taken ==> res matches Err(TapeError::BackupExists),
        !backup_taken ==> (res matches Ok(b) && b@ == spec_backup_path(target_path@)),
{
    if backup_taken {
        Err(TapeError::BackupExists)
    } else {
        Ok(get_lastest_backup(target_path))
    }
}

/// What inserting does for one target, given which of its paths exist:
/// nothing when the tape holds the target neither in `.config` nor directly;
/// else a link to the `.config` entry (or, failing that, the direct one),
/// with a backup of the link's place when something is there.  Fails when
/// that backup's slot is taken.
pub fn plan_link(
    paths: &LinkPaths,
    in_config_exists: bool,
    direct_exists: bool,
    dest_exists: bool,
    backup_taken: bool,
) -> (res: Result<Option<LinkStep>, TapeError>)
    ensures
        !in_config_exists && !direct_exists ==> res matches Ok(None),
        (in_config_exists || direct_exists) && dest_exists && backup_taken ==> res matches Err(
            TapeError::BackupExists,
        ),
        (in_config_exists || direct_exists) && !(dest_exists && backup_taken) ==> (res matches Ok(
            Some(step),
        ) && step_matches(step, *paths, in_config_exists, dest_exists)),
        (in_config_exists || direct_exists) && !(dest_exists && backup_taken) ==> (res matches Ok(
            Some(step),
        ) && step.dest@ == paths.dest@ && step.source@ == (if in_config_exists {
            paths.in_config@
        } else {
            paths.direct@
        }) && (dest_exists <==> step.backup is Some)),
{
    if !in_config_exists && !direct_exists {
        return Ok(None);
    }
    paths.dest.invariant_holds();
    proof {
        lemma_backup_is_sibling(paths.dest@);
    }
    let source = if in_config_exists {
        paths.in_config.duplicate()
    } else {
        paths.direct.duplicate()
    };
    let backup = if dest_exists {
        match get_available_backup_path_local(&paths.dest, backup_taken) {
            Ok(b) => Some(b),
            Err(e) => {
                return Err(e);
            },
        }
    } else {
        None
    };
    Ok(Some(LinkStep { source, dest: paths.dest.duplicate(), backup }))
}

/// `step` is the link made for a target with the paths `paths`: from the
/// `.config` entry when there is one, else from the direct entry, with a
/// backup exactly when something stands in the link's place.
pub open spec fn step_matches(
    step: LinkStep,
    paths: LinkPaths,
    in_config_exists: bool,
    dest_exists: bool,
) -> bool {
    &&& step.source@ == (if in_config_exists {
        paths.in_config@
    } else {
        paths.direct@
    })
    &&& step.dest@ == paths.dest@
    &&& dest_exists ==> (step.backup matches Some(b) && b@ == spec_backup_path(paths.dest@) && b@
        != paths.dest@)
    &&& !dest_exists ==> step.backup is None
}

/// What is known of one target of a tape before it is inserted: its paths
/// and which of them exist.
pub struct TargetProbe {
    pub paths: LinkPaths,
    pub in_config_exists: bool,
    pub direct_exists: bool,
    pub dest_exists: bool,
    /// Whether something already occupies the backup slot.
    pub backup_taken: bool,
}

/// The target is one the tape holds.
pub open spec fn probe_present(p: TargetProbe) -> bool {
    p.in_config_exists || p.direct_exists
}

/// The target cannot be linked: its backup slot is taken.
pub open spec fn probe_blocked(p: TargetProbe) -> bool {
    probe_present(p) && p.dest_exists && p.backup_taken
}

/// The links made for the probed targets, in order, skipping targets the
/// tape does not hold.
pub open spec fn spec_planned(probes: Seq<TargetProbe>, steps: Seq<LinkStep>) -> bool
    decreases probes.len(),
{
    if probes.len() == 0 {
        steps.len() == 0
    } else {
        let p = probes.last();
        if probe_present(p) {
            steps.len() > 0 && step_matches(steps.last(), p.paths, p.in_config_exists, p.dest_exists)
                && spec_planned(probes.drop_last(), steps.drop_last())
        } else {
            spec_planned(probes.drop_last(), steps)
        }
    }
}

/// The whole set of links that inserting makes, decided before anything is
/// moved: it fails, with nothing planned, when any target's backup slot is
/// taken, so that the user's configuration is never left half replaced.
pub fn plan_insert(probes: &Vec<TargetProbe>) -> (res: Result<Vec<LinkStep>, TapeError>)
    ensures
        res is Err <==> exists|i: int| 0 <= i < probes@.len() && probe_blocked(#[trigger] probes@[i]),
        res is Err ==> res matches Err(TapeError::BackupExists),
        res matches Ok(steps) ==> spec_planned(probes@, steps@),
        res matches Ok(steps) ==> ({
            let held = probes@.filter(|p: TargetProbe| p.in_config_exists || p.direct_exists);
            &&& steps@.len() == held.len()
            &&& forall|i: int|
                0 <= i < steps@.len() ==> {
                    &&& (#[trigger] steps@[i]).dest@ == held[i].paths.dest@
                    &&& steps@[i].source@ == if held[i].in_config_exists {
                        held[i].paths.in_config@
                    } else {
                        held[i].paths.direct@
                    }
                    &&& held[i].dest_exists ==> (steps@[i].backup matches Some(b) && b@
                        == spec_backup_path(held[i].paths.dest@))
                    &&& !held[i].dest_exists ==> steps@[i].backup is None
                }
        }),
{
    let mut steps: Vec<LinkStep> = Vec::new();
    for i in 0..probes.len()
        invariant
            forall|k: int| 0 <= k < i ==> !probe_blocked(#[trigger] probes@[k]),
            spec_planned(probes@.take(i as int), steps@),
    {
        let p = &probes[i];
        proof {
            assert(probes@.take(i + 1).drop_last() =~= probes@.take(i as int));
            assert(probes@.take(i + 1).last() == probes@[i as int]);
        }
        let planned = plan_link(
            &p.paths,
            p.in_config_exists,
            p.direct_exists,
            p.dest_exists,
            p.backup_taken,
        );
        match planned {
            Err(e) => {
                proof {
                    assert(probe_blocked(probes@[i as int]));
                }
                return Err(e);
            },
            Ok(None) => {},
            Ok(Some(step)) => {
                let ghost before = steps@;
                steps.push(step);
                proof {
                    assert(steps@.drop_last() =~= before);
                }
            },
        }
    }
    proof {
        assert(probes@.take(probes@.len() as int) =~= probes@);
        lemma_plan_links_every_held_target(probes@, steps@);
    }
    Ok(steps)
}

/// How to put things back after inserting stopped part way: one entry per
/// target that was touched, latest first.  `remove_link` says whether the
/// link was made; `restore_from` is the backup to move back to `link`.
pub struct UndoStep {
    pub link: TapePath,
    pub remove_link: bool,
    pub restore_from: Option<TapePath>,
}

/// `u` undoes `step`, whose link was made when `linked` holds.
pub open spec fn undo_matches(u: UndoStep, step: LinkStep, linked: bool) -> bool {
    &&& u.link@ == step.dest@
    &&& u.remove_link == linked
    &&& match step.backup {
        Some(b) => u.restore_from matches Some(r) && r@ == b@,
        None => u.restore_from is None,
    }
}

/// How to undo an insert that failed after completing the first `done`
/// planned links, with the backup of the next one already moved aside when
/// `partial` holds: the partial target first, then the completed ones in
/// reverse order.
pub fn undo_insert(steps: &Vec<LinkStep>, done: usize, partial: bool) -> (res: Vec<UndoStep>)
    requires
        done <= steps@.len(),
        partial ==> done < steps@.len(),
    ensures
        res@.len() == (if partial {
            done + 1
        } else {
            done as int
        }),
        partial ==> undo_matches(res@[0], steps@[done as int], false),
        partial ==> forall|j: int|
            1 <= j <= done ==> undo_matches(#[trigger] res@[j], steps@[done - j], true),
        !partial ==> forall|j: int|
            0 <= j < done ==> undo_matches(#[trigger] res@[j], steps@[done - 1 - j], true),
{
    let mut res: Vec<UndoStep> = Vec::new();
    if partial {
        res.push(undo_one(&steps[done], false));
    }
    let ghost off: int = if partial {
        1
    } else {
        0
    };
    let mut k: usize = 0;
    while k < done
        invariant
            done <= steps@.len(),
            k <= done,
            off == (if partial {
                1int
            } else {
                0int
            }),
            res@.len() == k + off,
            partial ==> undo_matches(res@[0], steps@[done as int], false),
            forall|j: int|
                off <= j < k + off ==> undo_matches(
                    #[trigger] res@[j],
                    steps@[done - 1 - (j - off)],
                    true,
                ),
        decreases done - k,
    {
        res.push(undo_one(&steps[done - 1 - k], true));
        k = k + 1;
    }
    res
}

/// How far an insert got before it failed at the planned link `index`:
/// the number of links made in full (this one too when its link was made)
/// and whether this one stands half done, its backup moved aside but its
/// link not made.
pub fn undo_progress(index: usize, backed_up: bool, linked: bool) -> (res: (usize, bool))
    requires
        index < usize::MAX,
    ensures
        linked ==> res.0 == index + 1 && !res.1,
        !linked ==> res.0 == index && res.1 == backed_up,
{
    if linked {
        (index + 1, false)
    } else {
        (index, backed_up)
    }
}

/// The undoing of one planned link.
fn undo_one(step: &LinkStep, linked: bool) -> (res: UndoStep)
    ensures
        undo_matches(res, *step, linked),
{
    let restore_from = match &step.backup {
        Some(b) => Some(b.duplicate()),
        None => None,
    };
    UndoStep { link: step.dest.duplicate(), remove_link: linked, restore_from }
}

/// The manifest to insert with: none when the tape has no `tape.toml`, the
/// parsed one when it has, and a refusal when its `tape.toml` does not
/// parse.
pub fn check_manifest(present: bool, parsed: Option<TapeManifest>) -> (res: Result<
    Option<TapeManifest>,
    TapeError,
>)
    ensures
        !present ==> res matches Ok(None),
        present && parsed is None ==> res matches Err(TapeError::InvalidManifest),
        present && parsed is Some ==> res == Ok::<Option<TapeManifest>, TapeError>(parsed),
{
    if !present {
        Ok(None)
    } else {
        match parsed {
            Some(m) => Ok(Some(m)),
            None => Err(TapeError::InvalidManifest),
        }
    }
}

/// The name the state file shows for the inserted tape: the manifest's
/// name, or how the tape was given when it has no manifest.
pub fn recorded_display_name(manifest: &Option<TapeManifest>, identifier: &str) -> (res: String)
    ensures
        manifest matches Some(m) ==> res@ == m.tape.name@,
        manifest is None ==> res@ == identifier@,
{
    match manifest {
        Some(m) => m.tape.name.clone(),
        None => identifier.to_owned(),
    }
}

proof fn lemma_outside_tape(tape: Seq<Seq<char>>, config: Seq<Seq<char>>, x: Seq<Seq<char>>)
    requires
        !tape.is_prefix_of(config),
        !config.is_prefix_of(tape),
        config.is_prefix_of(x),
    ensures
        !tape.is_prefix_of(x),
{
    if tape.is_prefix_of(x) {
        if tape.len() <= config.len() {
            assert(tape.is_prefix_of(config)) by {
                assert forall|i: int| 0 <= i < tape.len() implies tape[i] == config[i] by {
                    assert(tape[i] == x[i]);
                }
            }
        } else {
            assert(config.is_prefix_of(tape)) by {
                assert forall|i: int| 0 <= i < config.len() implies config[i] == tape[i] by {
                    assert(config[i] == x[i]);
                }
            }
        }
    }
}

/// Inserting never writes inside the tape ("immutable by default"): when
/// the tape directory and the configuration directory are rooted and
/// neither lies within the other, neither the link that inserting makes
/// for a target nor the backup it moves aside lies in the tape directory;
/// the tape itself is only ever the target of links.
pub proof fn lemma_insert_never_writes_in_tape(
    tape_dir: PathModel,
    config_dir: PathModel,
    target: PathModel,
)
    requires
        path_wf(tape_dir),
        path_wf(config_dir),
        path_wf(target),
        tape_dir.0,
        config_dir.0,
        !tape_dir.1.is_prefix_of(config_dir.1),
        !config_dir.1.is_prefix_of(tape_dir.1),
        !target.0,
        target.1.len() >= 1,
        !is_dot(target.1[0]),
    ensures
        spec_strip_prefix(spec_join(config_dir, target), tape_dir) is None,
        spec_strip_prefix(spec_backup_path(spec_join(config_dir, target)), tape_dir) is None,
{
    let dest = spec_join(config_dir, target);
    assert(dest == (true, config_dir.1 + target.1));
    assert(config_dir.1.is_prefix_of(dest.1));
    lemma_outside_tape(tape_dir.1, config_dir.1, dest.1);
    reveal_strlit(".bak");
    let name = spec_backup_name(dest);
    assert(name[0] == '.');
    let named = spec_parse(name);
    assert(!named.0);
    let base = if spec_file_name(dest) is Some {
        (dest.0, dest.1.drop_last())
    } else {
        dest
    };
    assert(config_dir.1.is_prefix_of(base.1)) by {
        if spec_file_name(dest) is Some {
            assert forall|i: int| 0 <= i < config_dir.1.len() implies config_dir.1[i] == base.1[i] by {
                assert(base.1[i] == dest.1[i]);
            }
        }
    }
    let b = spec_backup_path(dest);
    assert(b == spec_join(base, named));
    assert(b.0);
    assert(config_dir.1.is_prefix_of(b.1)) by {
        assert forall|i: int| 0 <= i < config_dir.1.len() implies config_dir.1[i] == b.1[i] by {
            assert(b.1[i] == base.1[i]);
        }
    }
    lemma_outside_tape(tape_dir.1, config_dir.1, b.1);
}

/// An insert plan links every target the tape holds, whether in its
/// `.config` directory or directly, exactly once and in order: one step per
/// such probe, from the `.config` entry when there is one and else from the
/// direct entry, to the target's place, with a backup exactly when
/// something stands there.
pub proof fn lemma_plan_links_every_held_target(probes: Seq<TargetProbe>, steps: Seq<LinkStep>)
    requires
        spec_planned(probes, steps),
    ensures
        ({
            let held = probes.filter(|p: TargetProbe| p.in_config_exists || p.direct_exists);
            &&& steps.len() == held.len()
            &&& forall|i: int|
                0 <= i < steps.len() ==> {
                    &&& (#[trigger] steps[i]).dest@ == held[i].paths.dest@
                    &&& steps[i].source@ == if held[i].in_config_exists {
                        held[i].paths.in_config@
                    } else {
                        held[i].paths.direct@
                    }
                    &&& held[i].dest_exists ==> (steps[i].backup matches Some(b) && b@
                        == spec_backup_path(held[i].paths.dest@))
                    &&& !held[i].dest_exists ==> steps[i].backup is None
                }
        }),
    decreases probes.len(),
{
    reveal(Seq::filter);
    let pred = |p: TargetProbe| p.in_config_exists || p.direct_exists;
    if probes.len() > 0 {
        let p = probes.last();
        let rest = probes.drop_last();
        if pred(p) {
            lemma_plan_links_every_held_target(rest, steps.drop_last());
            let held = probes.filter(pred);
            assert(held == rest.filter(pred).push(p));
            assert forall|i: int| 0 <= i < steps.len() implies {
                &&& (#[trigger] steps[i]).dest@ == held[i].paths.dest@
                &&& steps[i].source@ == if held[i].in_config_exists {
                    held[i].paths.in_config@
                } else {
                    held[i].paths.direct@
                }
                &&& held[i].dest_exists ==> (steps[i].backup matches Some(b) && b@
                    == spec_backup_path(held[i].paths.dest@))
                &&& !held[i].dest_exists ==> steps[i].backup is None
            } by {
                if i < steps.len() - 1 {
                    assert(steps[i] == steps.drop_last()[i]);
                    assert(held[i] == rest.filter(pred)[i]);
                }
            }
        } else {
            lemma_plan_links_every_held_target(rest, steps);
        }
    }
}

/// Every target comes from an entry of the scanned directory that is not
/// the manifest, the git directory or the readme, and every such entry
/// gives a target.
pub proof fn lemma_targets_are_config_entries(names: Seq<Seq<char>>)
    ensures
        forall|k: int|
            0 <= k < spec_targets(names).len() ==> exists|j: int|
                0 <= j < names.len() && !is_tape_furniture(names[j]) && #[trigger] spec_targets(
                    names,
                )[k] == spec_parse(names[j]),
        forall|j: int|
            0 <= j < names.len() && !is_tape_furniture(#[trigger] names[j]) ==> spec_targets(
                names,
            ).contains(spec_parse(names[j])),
    decreases names.len(),
{
    if names.len() > 0 {
        let t = names.drop_last();
        lemma_targets_are_config_entries(t);
        let prev = spec_targets(t);
        let res = spec_targets(names);
        assert forall|k: int| 0 <= k < res.len() implies exists|j: int|
            0 <= j < names.len() && !is_tape_furniture(names[j]) && #[trigger] res[k] == spec_parse(
                names[j],
            ) by {
            if k < prev.len() {
                assert(res[k] == prev[k]);
                let j = choose|j: int|
                    0 <= j < t.len() && !is_tape_furniture(t[j]) && #[trigger] prev[k]
                        == spec_parse(t[j]);
                assert(names[j] == t[j]);
            } else {
                assert(names[names.len() - 1] == names.last());
            }
        }
        assert forall|j: int|
            0 <= j < names.len() && !is_tape_furniture(#[trigger] names[j]) implies res.contains(
            spec_parse(names[j]),
        ) by {
            if j < t.len() {
                assert(names[j] == t[j]);
                let k = choose|k: int| 0 <= k < prev.len() && prev[k] == spec_parse(t[j]);
                assert(res[k] == prev[k]);
            } else {
                assert(res[res.len() - 1] == spec_parse(names[j]));
            }
        }
    }
}

} // verus!
