//! Decisions around running shell commands and the `~/.tapes` shortcut.
use vstd::prelude::*;
use vstd::string::*;
use crate::error::TapeError;
use crate::insert::spec_library;
use crate::path::{join_slash, lemma_parse_component, path_wf, spec_join, spec_parse, spec_render, TapePath};
use crate::text::{contains_text, has_infix, spec_trim, trim};

verus! {

/// Whether the command line `line` is run at all: blank lines are skipped.
pub fn should_run_command(line: &str) -> (res: bool)
    ensures
        res == (spec_trim(line@).len() > 0),
{
    let t = trim(line);
    t.as_str().unicode_len() > 0
}

/// The exit code reported for a failed command: its code, or -1 when it
/// was ended by a signal and has none.
pub fn command_exit_code(code: Option<i32>) -> (res: i32)
    ensures
        res == match code {
            Some(c) => c,
            None => -1i32,
        },
{
    match code {
        Some(c) => c,
        None => -1,
    }
}

/// The path of the `~/.tapes` shortcut to the tape library.
pub fn tapes_link_path(home: &Option<TapePath>) -> (res: Result<TapePath, TapeError>)
    ensures
        home is None ==> res matches Err(TapeError::NoHomeDir),
        home matches Some(h) ==> (res matches Ok(p) && p@ == spec_join(h@, spec_parse(".tapes"@))),
{
    match home {
        Some(h) => Ok(h.join(&TapePath::parse(".tapes"))),
        None => Err(TapeError::NoHomeDir),
    }
}

/// Whether an existing `~/.tapes` link, pointing at `target`, already leads
/// to the tape library, so that it is left alone.
pub fn link_points_to_library(target: &str) -> (res: bool)
    ensures
        res == has_infix(target@, ".local/share/tapes"@),
{
    contains_text(target, ".local/share/tapes")
}

/// A `~/.tapes` link made to the tape library in the usual local data
/// directory (one ending in `.local/share`) is recognised on the next run
/// and left alone.
pub proof fn lemma_library_link_recognised(data_local: (bool, Seq<Seq<char>>))
    requires
        path_wf(data_local),
        data_local.1.len() >= 2,
        data_local.1[data_local.1.len() - 2] == ".local"@,
        data_local.1[data_local.1.len() - 1] == "share"@,
    ensures
        has_infix(spec_render(spec_library(data_local)), ".local/share/tapes"@),
{
    reveal_strlit("tapes");
    reveal_strlit(".local");
    reveal_strlit("share");
    reveal_strlit(".local/share/tapes");
    let t = "tapes"@;
    assert(t =~= seq!['t', 'a', 'p', 'e', 's']);
    assert(!t.contains('/'));
    lemma_parse_component(t);
    let lib = spec_library(data_local);
    let ps = data_local.1.push(t);
    assert(lib == (data_local.0, ps));
    let n = ps.len();
    let p1 = ps.drop_last();
    let p2 = p1.drop_last();
    assert(p1 =~= ps.take(n - 1));
    assert(join_slash(ps) == join_slash(p1) + seq!['/'] + t);
    assert(join_slash(p1) == join_slash(p2) + seq!['/'] + ps[n - 2]);
    let y: Seq<char> = if p2.len() == 1 {
        Seq::empty()
    } else {
        join_slash(p2.drop_last()) + seq!['/']
    };
    assert(join_slash(p2) == y + ps[n - 3]) by {
        if p2.len() == 1 {
            assert(y + ps[n - 3] =~= ps[n - 3]);
        } else {
            assert(join_slash(p2) == join_slash(p2.drop_last()) + seq!['/'] + p2.last());
        }
    }
    let lead: Seq<char> = if data_local.0 {
        seq!['/']
    } else {
        Seq::empty()
    };
    let needle = ".local/share/tapes"@;
    assert(needle =~= ps[n - 3] + seq!['/'] + ps[n - 2] + seq!['/'] + t);
    let r = spec_render(lib);
    assert(r =~= lead + y + needle);
    let i: int = (lead.len() + y.len()) as int;
    assert(r.subrange(i, i + needle.len()) =~= needle);
}

} // verus!
