//! The state file that records which tape is inserted.
use vstd::prelude::*;
use vstd::string::*;
use vstd::utf8::*;
use crate::path::{spec_join, spec_parse, TapePath};
use crate::text::{lemma_split_at_sep, lemma_split_plain, lemma_split_shape, spec_trim, split_on, trim, starts_with};

verus! {

/// The name of the tape library directory inside the local data directory.
pub const APP_NAME: &'static str = "tapes";

/// The name of the state file inside the tape library.
pub const STATE_FILE: &'static str = "current-tape";

/// The key of the line that names the inserted tape's display name.
pub const RICE_KEY: &'static str = "CURRENT-RICE: ";

/// The key of the line that names where the inserted tape was found.
pub const FILE_KEY: &'static str = "FILENAME: ";

/// The note that closes every state file.
pub const STATE_NOTE: &'static str = "         // If your IQ is not too high, Do not edit this file
         // If anything breaks, Do not blame me
         ";

/// The text of the state file for a tape displayed as `name` and found as
/// `filename`.
pub open spec fn spec_record(name: Seq<char>, filename: Seq<char>) -> Seq<char> {
    RICE_KEY@ + name + seq!['\n'] + FILE_KEY@ + filename + seq!['\n'] + STATE_NOTE@
}

/// The rest of the first line of `lines` that begins with `key`.
pub open spec fn first_field(lines: Seq<Seq<char>>, key: Seq<char>) -> Option<Seq<char>>
    decreases lines.len(),
{
    if lines.len() == 0 {
        None
    } else if key.is_prefix_of(lines[0]) {
        Some(lines[0].skip(key.len() as int))
    } else {
        first_field(lines.drop_first(), key)
    }
}

/// Where the state text `content` says the inserted tape was found: the
/// trimmed rest of its first `FILENAME: ` line.
pub open spec fn spec_recorded_tape(content: Seq<char>) -> Option<Seq<char>> {
    match first_field(split_on(content, '\n'), FILE_KEY@) {
        Some(v) => Some(spec_trim(v)),
        None => None,
    }
}

proof fn lemma_first_field_concat(a: Seq<Seq<char>>, b: Seq<Seq<char>>, key: Seq<char>)
    ensures
        first_field(a + b, key) == if first_field(a, key) is Some {
            first_field(a, key)
        } else {
            first_field(b, key)
        },
    decreases a.len(),
{
    if a.len() == 0 {
        assert(a + b =~= b);
    } else {
        assert((a + b)[0] == a[0]);
        assert((a + b).drop_first() =~= a.drop_first() + b);
        lemma_first_field_concat(a.drop_first(), b, key);
    }
}

/// The path of the state file in the tape library `library`.
pub fn state_file_path(library: &TapePath) -> (res: TapePath)
    ensures
        res@ == spec_join(library@, spec_parse(STATE_FILE@)),
{
    library.join(&TapePath::parse(STATE_FILE))
}

/// The text of the state file for a tape displayed as `name` and found as
/// `filename`.
pub fn current_tape_record(name: &str, filename: &str) -> (res: String)
    ensures
        res@ == spec_record(name@, filename@),
{
    proof {
        reveal_strlit("\n");
    }
    let mut res = String::from_str(RICE_KEY);
    res.append(name);
    res.append("\n");
    res.append(FILE_KEY);
    res.append(filename);
    res.append("\n");
    res.append(STATE_NOTE);
    res
}

/// Where the state text `content` says the inserted tape was found: the
/// trimmed rest of its first line that begins with `FILENAME: `.
pub fn recorded_tape(content: &str) -> (res: Option<String>)
    ensures
        res matches Some(v) ==> spec_recorded_tape(content@) == Some(v@),
        res is None ==> spec_recorded_tape(content@) is None,
{
    let ghost s = content@;
    let ghost key = FILE_KEY@;
    let n = content.unicode_len();
    let mut start: usize = 0;
    let mut i: usize = 0;
    proof {
        assert(s.take(0) =~= Seq::<char>::empty());
        lemma_split_shape(s.take(0), '\n');
    }
    while i < n
        invariant
            n == s.len(),
            s == content@,
            key == FILE_KEY@,
            start <= i <= n,
            split_on(s.take(i as int), '\n').len() >= 1,
            split_on(s.take(i as int), '\n').last() =~= s.subrange(start as int, i as int),
            first_field(split_on(s.take(i as int), '\n').drop_last(), key) is None,
        decreases n - i,
    {
        let ghost prev = split_on(s.take(i as int), '\n');
        proof {
            assert(s.take(i + 1).drop_last() =~= s.take(i as int));
            assert(s.take(i + 1).last() == s[i as int]);
        }
        if content.get_char(i) == '\n' {
            let line = content.substring_char(start, i);
            let found = starts_with(line, FILE_KEY);
            proof {
                assert(prev.drop_last() + seq![prev.last()] =~= prev);
                lemma_first_field_concat(prev.drop_last(), seq![prev.last()], key);
                assert(seq![prev.last()].drop_first() =~= Seq::<Seq<char>>::empty());
                assert(first_field(Seq::<Seq<char>>::empty(), key) is None);
                assert(line@ == prev.last());
                assert(first_field(prev, key) == first_field(seq![prev.last()], key));
            }
            if found {
                let rest = line.substring_char(FILE_KEY.unicode_len(), line.unicode_len());
                proof {
                    // The state text splits at this line's end.
                    let x = s.take(i as int);
                    let y = s.skip(i + 1);
                    assert(x + seq!['\n'] + y =~= s);
                    lemma_split_at_sep(x, y, '\n');
                    lemma_first_field_concat(prev, split_on(y, '\n'), key);
                    assert(rest@ =~= line@.skip(key.len() as int));
                }
                return Some(trim(rest));
            }
            proof {
                let next = split_on(s.take(i + 1), '\n');
                assert(next =~= prev.push(Seq::empty()));
                assert(next.drop_last() =~= prev);
                lemma_split_shape(s.take(i + 1), '\n');
            }
            start = i + 1;
        } else {
            proof {
                let next = split_on(s.take(i + 1), '\n');
                assert(next.drop_last() =~= prev.drop_last());
                lemma_split_shape(s.take(i + 1), '\n');
            }
        }
        i = i + 1;
    }
    proof {
        assert(s.take(n as int) =~= s);
    }
    let ghost all = split_on(s, '\n');
    let line = content.substring_char(start, n);
    let found = starts_with(line, FILE_KEY);
    proof {
        assert(all.drop_last() + seq![all.last()] =~= all);
        lemma_first_field_concat(all.drop_last(), seq![all.last()], key);
        assert(seq![all.last()].drop_first() =~= Seq::<Seq<char>>::empty());
        assert(first_field(Seq::<Seq<char>>::empty(), key) is None);
        assert(line@ == all.last());
        assert(first_field(all, key) == first_field(seq![all.last()], key));
    }
    if found {
        let rest = line.substring_char(FILE_KEY.unicode_len(), line.unicode_len());
        proof {
            assert(rest@ =~= line@.skip(key.len() as int));
        }
        Some(trim(rest))
    } else {
        None
    }
}

/// The state file records where a tape was found in a form that reads back:
/// reading the record of `filename` gives `filename` without its surrounding
/// whitespace, whatever the display name, provided neither holds a line
/// break.
pub proof fn lemma_record_reads_back(name: Seq<char>, filename: Seq<char>)
    requires
        !name.contains('\n'),
        !filename.contains('\n'),
    ensures
        spec_recorded_tape(spec_record(name, filename)) == Some(spec_trim(filename)),
{
    reveal_strlit("CURRENT-RICE: ");
    reveal_strlit("FILENAME: ");
    assert(FILE_KEY@ == "FILENAME: "@);
    assert(RICE_KEY@ == "CURRENT-RICE: "@);
    assert(FILE_KEY@.len() == 10);
    assert(RICE_KEY@.len() == 14);
    let first = RICE_KEY@ + name;
    let second = FILE_KEY@ + filename;
    let note = STATE_NOTE@;
    assert(!first.contains('\n')) by {
        if first.contains('\n') {
            let k = choose|k: int| 0 <= k < first.len() && first[k] == '\n';
            if k >= 14 {
                assert(name[k - 14] == '\n');
            }
        }
    }
    assert(!second.contains('\n')) by {
        if second.contains('\n') {
            let k = choose|k: int| 0 <= k < second.len() && second[k] == '\n';
            if k >= 10 {
                assert(filename[k - 10] == '\n');
            }
        }
    }
    let tail = second + seq!['\n'] + note;
    assert(spec_record(name, filename) =~= first + seq!['\n'] + tail);
    lemma_split_at_sep(first, tail, '\n');
    lemma_split_at_sep(second, note, '\n');
    lemma_split_plain(first, '\n');
    lemma_split_plain(second, '\n');
    let rest = split_on(note, '\n');
    let lines = seq![first] + (seq![second] + rest);
    assert(split_on(spec_record(name, filename), '\n') == lines);
    assert(!FILE_KEY@.is_prefix_of(first)) by {
        assert(first[0] == 'C');
        assert(FILE_KEY@[0] == 'F');
    }
    assert(first_field(lines, FILE_KEY@) == first_field(lines.drop_first(), FILE_KEY@));
    assert(FILE_KEY@.is_prefix_of(second));
    assert(lines.drop_first() =~= seq![second] + rest);
    assert(second.skip(10) =~= filename);
}

/// The two parts of the state text that `tape current` shows: its first 14
/// bytes (the `CURRENT-RICE: ` label) and the rest.  `None` when byte 14 is
/// not a character boundary, where the split cannot be made.
pub fn current_tape_display(content: &str) -> (res: Option<(String, String)>)
    ensures
        res is None <==> !is_char_boundary(content.spec_bytes(), 14),
        res matches Some(parts) ==> {
            &&& encode_utf8(parts.0@) == content.spec_bytes().subrange(0, 14)
            &&& encode_utf8(parts.1@) == content.spec_bytes().subrange(
                14,
                content.spec_bytes().len() as int,
            )
        },
{
    if !content.is_char_boundary(14) {
        return None;
    }
    let (title, name) = content.split_at(14);
    Some((title.to_owned(), name.to_owned()))
}

} // verus!
