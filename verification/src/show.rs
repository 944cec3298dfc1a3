//! What `tape show` reports about tapes.
use vstd::prelude::*;
use vstd::string::*;
use crate::error::TapeError;
use crate::manifest::{copy_texts, Hooks, TapeManifest};
use crate::path::{spec_join, spec_parent, spec_parse, spec_strip_prefix, PathModel, TapePath};

verus! {

/// The properties of a tape as `tape show` lists them.
pub struct TapeProperties {
    pub name: String,
    pub version: String,
    pub desc: String,
    /// Where the tape is, relative to the home directory when it lies there.
    pub location: TapePath,
    /// The binaries the tape requires, when its manifest lists them.
    pub dependencies: Option<Vec<String>>,
    pub hooks: Option<Hooks>,
    /// The tape's top-level entries that are not plain files, relative to
    /// the tape.
    pub entries: Vec<TapePath>,
}

/// How the path `p` is shown: relative to the home directory when it lies
/// there, else as it is.
pub open spec fn spec_display_path(p: PathModel, home: Option<PathModel>) -> PathModel {
    match home {
        Some(h) => match spec_strip_prefix(p, h) {
            Some(r) => r,
            None => p,
        },
        None => p,
    }
}

/// The entries listed for the tape at `tape`, given its top-level entries
/// and whether each is a plain file: the others, relative to the tape.
pub open spec fn spec_listed(tape: PathModel, entries: Seq<(PathModel, bool)>) -> Seq<PathModel>
    decreases entries.len(),
{
    if entries.len() == 0 {
        Seq::empty()
    } else {
        let prev = spec_listed(tape, entries.drop_last());
        let e = entries.last();
        if !e.1 && spec_strip_prefix(e.0, tape) is Some {
            prev.push(spec_strip_prefix(e.0, tape)->0)
        } else {
            prev
        }
    }
}

/// The files that `tape show` lists are exactly the given entries that are
/// not plain files and lie under the tape, each relative to the tape, all
/// of them and in their order.
pub proof fn lemma_listed_are_non_files_under_tape(tape: PathModel, entries: Seq<(PathModel, bool)>)
    ensures
        spec_listed(tape, entries) == entries.filter(
            |e: (PathModel, bool)| !e.1 && spec_strip_prefix(e.0, tape) is Some,
        ).map_values(|e: (PathModel, bool)| spec_strip_prefix(e.0, tape)->0),
    decreases entries.len(),
{
    reveal(Seq::filter);
    let pred = |e: (PathModel, bool)| !e.1 && spec_strip_prefix(e.0, tape) is Some;
    let f = |e: (PathModel, bool)| spec_strip_prefix(e.0, tape)->0;
    if entries.len() > 0 {
        lemma_listed_are_non_files_under_tape(tape, entries.drop_last());
        let sub = entries.drop_last().filter(pred);
        if pred(entries.last()) {
            assert(sub.push(entries.last()).map_values(f) =~= sub.map_values(f).push(
                f(entries.last()),
            ));
        }
    } else {
        assert(entries.filter(pred).map_values(f) =~= Seq::<PathModel>::empty());
    }
}

/// How `tape_path` is shown: relative to `home` when it lies there.
pub fn display_path(tape_path: &TapePath, home: &Option<TapePath>) -> (res: TapePath)
    ensures
        res@ == spec_display_path(
            tape_path@,
            match home {
                Some(h) => Some(h@),
                None => None,
            },
        ),
{
    match home {
        Some(h) => match tape_path.strip_prefix(h) {
            Some(r) => r,
            None => tape_path.duplicate(),
        },
        None => tape_path.duplicate(),
    }
}

/// The entries listed for the tape at `tape_path`: those of `entries`
/// (each with whether it is a plain file) that are not plain files,
/// relative to the tape.
pub fn listed_entries(tape_path: &TapePath, entries: &Vec<(TapePath, bool)>) -> (res: Vec<
    TapePath,
>)
    ensures
        res@.map_values(|t: TapePath| t@) == spec_listed(
            tape_path@,
            entries@.map_values(|e: (TapePath, bool)| (e.0@, e.1)),
        ),
        res@.map_values(|t: TapePath| t@) == entries@.map_values(
            |e: (TapePath, bool)| (e.0@, e.1),
        ).filter(|e: (PathModel, bool)| !e.1 && spec_strip_prefix(e.0, tape_path@) is Some).map_values(
            |e: (PathModel, bool)| spec_strip_prefix(e.0, tape_path@)->0,
        ),
{
    let ghost es = entries@.map_values(|e: (TapePath, bool)| (e.0@, e.1));
    proof {
        lemma_listed_are_non_files_under_tape(tape_path@, es);
    }
    let mut res: Vec<TapePath> = Vec::new();
    proof {
        assert(es.take(0) =~= Seq::<(PathModel, bool)>::empty());
    }
    for i in 0..entries.len()
        invariant
            es == entries@.map_values(|e: (TapePath, bool)| (e.0@, e.1)),
            res@.map_values(|t: TapePath| t@) =~= spec_listed(tape_path@, es.take(i as int)),
    {
        proof {
            assert(es.take(i + 1).drop_last() =~= es.take(i as int));
            assert(es.take(i + 1).last() == es[i as int]);
        }
        let (entry, is_file) = (&entries[i].0, entries[i].1);
        if !is_file {
            match entry.strip_prefix(tape_path) {
                Some(rel) => {
                    let ghost before = res@.map_values(|t: TapePath| t@);
                    res.push(rel);
                    proof {
                        assert(res@.map_values(|t: TapePath| t@) =~= before.push(
                            spec_strip_prefix(es[i as int].0, tape_path@)->0,
                        ));
                    }
                },
                None => {},
            }
        }
    }
    proof {
        assert(es.take(entries@.len() as int) =~= es);
    }
    res
}

/// The model of an optional path.
pub open spec fn opt_path_view(o: Option<TapePath>) -> Option<PathModel> {
    match o {
        Some(p) => Some(p@),
        None => None,
    }
}

/// `props` are what `tape show` lists for `tape`, found at `tape_path`:
/// its name, version and description, where it is (relative to `home` when
/// it lies there), the binaries it requires and its hooks as its manifest
/// gives them, and its top-level entries that are not plain files.
pub open spec fn spec_properties(
    props: TapeProperties,
    tape: TapeManifest,
    tape_path: PathModel,
    home: Option<PathModel>,
    entries: Seq<(PathModel, bool)>,
) -> bool {
    &&& props.name@ == tape.tape.name@
    &&& props.version@ == tape.tape.version@
    &&& props.desc@ == tape.tape.desc@
    &&& props.location@ == spec_display_path(tape_path, home)
    &&& match tape.dependencies {
        Some(d) => match d.binaries {
            Some(b) => props.dependencies matches Some(r) && r@ == b@,
            None => props.dependencies is None,
        },
        None => props.dependencies is None,
    }
    &&& match tape.hooks {
        Some(h) => props.hooks matches Some(r) && r.insert@ == h.insert@ && r.eject@ == h.eject@,
        None => props.hooks is None,
    }
    &&& props.entries@.map_values(|t: TapePath| t@) == spec_listed(tape_path, entries)
}

/// The properties `tape show` lists for `tape`, found at `tape_path`, given
/// the home directory and the tape's top-level entries (each with whether
/// it is a plain file).
pub fn tape_properties(
    tape: &TapeManifest,
    tape_path: &TapePath,
    home: &Option<TapePath>,
    entries: &Vec<(TapePath, bool)>,
) -> (res: TapeProperties)
    ensures
        spec_properties(res, *tape, tape_path@, opt_path_view(*home), entries@.map_values(
            |e: (TapePath, bool)| (e.0@, e.1),
        )),
{
    let dependencies = match &tape.dependencies {
        Some(d) => match &d.binaries {
            Some(b) => Some(copy_texts(b)),
            None => None,
        },
        None => None,
    };
    let hooks = match &tape.hooks {
        Some(h) => Some(Hooks { insert: copy_texts(&h.insert), eject: copy_texts(&h.eject) }),
        None => None,
    };
    TapeProperties {
        name: tape.tape.name.clone(),
        version: tape.tape.version.clone(),
        desc: tape.tape.desc.clone(),
        location: display_path(tape_path, home),
        dependencies,
        hooks,
        entries: listed_entries(tape_path, entries),
    }
}

/// What `tape show` lists for every found tape, in order: the properties
/// of each tape in `tapes`, taken from its own directory, given the entries
/// of that directory in `entries` at the same position.
pub fn show_all_tapes(
    tapes: &Vec<(TapeManifest, TapePath)>,
    home: &Option<TapePath>,
    entries: &Vec<Vec<(TapePath, bool)>>,
) -> (res: Vec<TapeProperties>)
    requires
        entries@.len() == tapes@.len(),
    ensures
        res@.len() == tapes@.len(),
        forall|i: int|
            0 <= i < res@.len() ==> spec_properties(
                #[trigger] res@[i],
                tapes@[i].0,
                tapes@[i].1@,
                opt_path_view(*home),
                entries@[i]@.map_values(|e: (TapePath, bool)| (e.0@, e.1)),
            ),
{
    let mut res: Vec<TapeProperties> = Vec::new();
    for i in 0..tapes.len()
        invariant
            entries@.len() == tapes@.len(),
            res@.len() == i,
            forall|k: int|
                0 <= k < i ==> spec_properties(
                    #[trigger] res@[k],
                    tapes@[k].0,
                    tapes@[k].1@,
                    opt_path_view(*home),
                    entries@[k]@.map_values(|e: (TapePath, bool)| (e.0@, e.1)),
                ),
    {
        let (tape, dir) = (&tapes[i].0, &tapes[i].1);
        res.push(tape_properties(tape, dir, home, &entries[i]));
    }
    res
}

/// Where the tape called `name` would be in the tape library `library`.
pub fn specific_tape_path(name: &str, library: &TapePath) -> (res: TapePath)
    ensures
        res@ == spec_join(library@, spec_parse(name@)),
{
    library.join(&TapePath::parse(name))
}

/// The directory of the tape called `name` that `tape show` describes, given
/// whether that path exists (`found`); fails when it does not exist or is the library
/// itself, with where it was looked for relative to the home directory.
pub fn show_specific_tape(
    name: &str,
    library: &TapePath,
    found: bool,
    home: &Option<TapePath>,
) -> (res: Result<TapePath, TapeError>)
    requires
        !((!found || spec_join(library@, spec_parse(name@)) == library@) && home is Some && (
        spec_strip_prefix(spec_join(library@, spec_parse(name@)), home->0@) matches Some(r)
            && spec_parent(r) is None)),
    ensures
        ({
            let wanted = spec_join(library@, spec_parse(name@));
            if found && wanted != library@ {
                res matches Ok(p) && p@ == wanted
            } else {
                match home {
                    None => res matches Err(TapeError::NoHomeDir),
                    Some(h) => match spec_strip_prefix(wanted, h@) {
                        None => res matches Err(TapeError::NotUnderHome),
                        Some(r) => res matches Err(TapeError::TapeNotFoundAt { name: n, location: l })
                            && n@ == name@ && Some(l@) == spec_parent(r),
                    },
                }
            }
        }),
{
    let wanted = specific_tape_path(name, library);
    let same = wanted.same_as(library);
    if found && !same {
        Ok(wanted)
    } else {
        match home {
            None => Err(TapeError::NoHomeDir),
            Some(h) => match wanted.strip_prefix(h) {
                None => Err(TapeError::NotUnderHome),
                Some(r) => match r.parent() {
                    Some(location) => Err(
                        TapeError::TapeNotFoundAt { name: name.to_owned(), location },
                    ),
                    None => Err(TapeError::NotUnderHome),
                },
            },
        }
    }
}

} // verus!
