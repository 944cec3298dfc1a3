//! The tape manifest (`tape.toml`) and what the library reads from it.
use vstd::prelude::*;
use vstd::string::*;
use crate::error::TapeError;
use std::collections::HashMap;

verus! {

/// The `[tape]` table: the tape's identity.
#[derive(Debug)]
pub struct TapeInfo {
    pub name: String,
    pub version: String,
    pub desc: String,
}

/// The `[dependencies]` table.
#[derive(Debug)]
pub struct Dependecies {
    /// Programs that must be installed for the tape to work.
    pub binaries: Option<Vec<String>>,
}

/// The `[hooks]` table: shell commands run around insert and eject.
#[derive(Debug)]
pub struct Hooks {
    pub insert: Vec<String>,
    pub eject: Vec<String>,
}

impl Default for Hooks {
    fn default() -> (res: Hooks)
        ensures
            res.insert@.len() == 0,
            res.eject@.len() == 0,
    {
        Hooks { insert: Vec::new(), eject: Vec::new() }
    }
}

/// A whole `tape.toml`.
#[derive(Debug)]
pub struct TapeManifest {
    pub tape: TapeInfo,
    pub dependencies: Option<Dependecies>,
    pub targets: Option<HashMap<String, String>>,
    pub hooks: Option<Hooks>,
}

/// The commands that inserting `tape` runs, in order.
pub open spec fn spec_insert_hooks(tape: TapeManifest) -> Seq<String> {
    match tape.hooks {
        Some(h) => h.insert@,
        None => Seq::empty(),
    }
}

/// The commands that ejecting `tape` runs, in order.
pub open spec fn spec_eject_hooks(tape: TapeManifest) -> Seq<String> {
    match tape.hooks {
        Some(h) => h.eject@,
        None => Seq::empty(),
    }
}

/// The binaries that `tape` requires: its `dependencies.binaries` list, and
/// none when the manifest has no such list (both are optional).
pub open spec fn spec_required_binaries(tape: TapeManifest) -> Seq<String> {
    match tape.dependencies {
        Some(d) => match d.binaries {
            Some(b) => b@,
            None => Seq::empty(),
        },
        None => Seq::empty(),
    }
}

/// The shell command that tells whether `bin` is installed.
pub open spec fn spec_probe_command(bin: Seq<char>) -> Seq<char> {
    "command -v "@ + bin
}

/// Inserting runs every insert hook of the manifest and ejecting every
/// eject hook, each list whole and in its order, and neither runs anything
/// when the manifest has no `[hooks]` table.
pub proof fn lemma_hooks_are_manifest_lists(tape: TapeManifest)
    ensures
        tape.hooks is None ==> spec_insert_hooks(tape).len() == 0 && spec_eject_hooks(tape).len()
            == 0,
        tape.hooks matches Some(h) ==> {
            &&& spec_insert_hooks(tape).len() == h.insert@.len()
            &&& forall|i: int|
                0 <= i < h.insert@.len() ==> #[trigger] spec_insert_hooks(tape)[i] == h.insert@[i]
            &&& spec_eject_hooks(tape).len() == h.eject@.len()
            &&& forall|i: int|
                0 <= i < h.eject@.len() ==> #[trigger] spec_eject_hooks(tape)[i] == h.eject@[i]
        },
{
}

/// The binaries checked before inserting are the manifest's
/// `dependencies.binaries` list, whole and in order, whatever else the
/// manifest holds: two manifests with the same `[dependencies]` table are
/// checked alike, and only a manifest without that list checks nothing.
pub proof fn lemma_binaries_are_dependency_list(tape: TapeManifest)
    ensures
        (tape.dependencies matches Some(d) && d.binaries is Some) ==> {
            let b = tape.dependencies->0.binaries->0@;
            &&& spec_required_binaries(tape).len() == b.len()
            &&& forall|i: int| 0 <= i < b.len() ==> #[trigger] spec_required_binaries(tape)[i] == b[i]
        },
        !(tape.dependencies matches Some(d) && d.binaries is Some) ==> spec_required_binaries(
            tape,
        ).len() == 0,
        forall|other: TapeManifest|
            other.dependencies == tape.dependencies ==> #[trigger] spec_required_binaries(other)
                == spec_required_binaries(tape),
{
}

/// A copy of a list of texts.
pub fn copy_texts(v: &Vec<String>) -> (res: Vec<String>)
    ensures
        res@ == v@,
{
    let mut res: Vec<String> = Vec::new();
    for i in 0..v.len()
        invariant
            res@ =~= v@.take(i as int),
    {
        res.push(v[i].clone());
        proof {
            assert(v@.take(i + 1) =~= v@.take(i as int).push(v@[i as int]));
        }
    }
    proof {
        assert(v@.take(v@.len() as int) =~= v@);
    }
    res
}

/// The insert hooks of `tape`, in the order they run.
pub fn insert_hook_commands(tape: &TapeManifest) -> (res: Vec<String>)
    ensures
        res@ == spec_insert_hooks(*tape),
        tape.hooks is None ==> res@.len() == 0,
        tape.hooks matches Some(h) ==> res@.len() == h.insert@.len() && forall|i: int|
            0 <= i < res@.len() ==> #[trigger] res@[i] == h.insert@[i],
{
    proof {
        lemma_hooks_are_manifest_lists(*tape);
    }
    match &tape.hooks {
        Some(h) => copy_texts(&h.insert),
        None => Vec::new(),
    }
}

/// The eject hooks of `tape`, in the order they run.
pub fn eject_hook_commands(tape: &TapeManifest) -> (res: Vec<String>)
    ensures
        res@ == spec_eject_hooks(*tape),
        tape.hooks is None ==> res@.len() == 0,
        tape.hooks matches Some(h) ==> res@.len() == h.eject@.len() && forall|i: int|
            0 <= i < res@.len() ==> #[trigger] res@[i] == h.eject@[i],
{
    proof {
        lemma_hooks_are_manifest_lists(*tape);
    }
    match &tape.hooks {
        Some(h) => copy_texts(&h.eject),
        None => Vec::new(),
    }
}

/// The binaries to look for before inserting `tape`.
pub fn check_dependencies(tape: &TapeManifest) -> (res: Vec<String>)
    ensures
        res@ == spec_required_binaries(*tape),
        (tape.dependencies matches Some(d) && d.binaries is Some) ==> res@.len()
            == tape.dependencies->0.binaries->0@.len() && forall|i: int|
            0 <= i < res@.len() ==> #[trigger] res@[i] == tape.dependencies->0.binaries->0@[i],
        !(tape.dependencies matches Some(d) && d.binaries is Some) ==> res@.len() == 0,
{
    proof {
        lemma_binaries_are_dependency_list(*tape);
    }
    match &tape.dependencies {
        Some(d) => match &d.binaries {
            Some(b) => copy_texts(b),
            None => Vec::new(),
        },
        None => Vec::new(),
    }
}

/// The shell command whose output is empty exactly when `bin` is not
/// installed.
pub fn dependency_probe(bin: &str) -> (res: String)
    ensures
        res@ == spec_probe_command(bin@),
{
    let mut res = String::from_str("command -v ");
    res.append(bin);
    res
}

/// The verdict on `bin` from the output of its probe command: missing when
/// the probe printed nothing.
pub fn probe_verdict(bin: &str, stdout: &Vec<u8>) -> (res: Result<(), TapeError>)
    ensures
        res is Ok <==> stdout@.len() > 0,
        res matches Err(e) ==> e matches TapeError::MissingDependency(name) && name@ == bin@,
{
    if stdout.len() > 0 {
        Ok(())
    } else {
        Err(TapeError::MissingDependency(bin.to_owned()))
    }
}

/// The name, the version with a `v` before it, and the description: the
/// fields of a tape's line in the list of known tapes.
pub fn known_tape_entry(tape: &TapeManifest) -> (res: (String, String, String))
    ensures
        res.0@ == tape.tape.name@,
        res.1@ == seq!['v'] + tape.tape.version@,
        res.2@ == tape.tape.desc@,
{
    proof {
        reveal_strlit("v");
    }
    let mut version = String::from_str("v");
    version.append(tape.tape.version.as_str());
    (tape.tape.name.clone(), version, tape.tape.desc.clone())
}

} // verus!
