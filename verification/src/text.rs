//! Text helpers with the meaning that `str`'s own methods give them:
//! splitting at a separator, Unicode whitespace trimming, prefix and
//! substring tests.
use vstd::prelude::*;
use vstd::string::*;

verus! {

/// The pieces of `s` between occurrences of `sep`, empty pieces included;
/// there is always one more piece than there are separators.
pub open spec fn split_on(s: Seq<char>, sep: char) -> Seq<Seq<char>>
    decreases s.len(),
{
    if s.len() == 0 {
        seq![Seq::empty()]
    } else {
        let prev = split_on(s.drop_last(), sep);
        if s.last() == sep {
            prev.push(Seq::empty())
        } else {
            prev.update(prev.len() - 1, prev.last().push(s.last()))
        }
    }
}

/// The pieces of a split text: at least one, none holding the separator,
/// and an empty first piece when the text starts with the separator.
pub proof fn lemma_split_shape(s: Seq<char>, sep: char)
    ensures
        split_on(s, sep).len() >= 1,
        forall|j: int| 0 <= j < split_on(s, sep).len() ==> !(#[trigger] split_on(s, sep)[j]).contains(sep),
        s.len() > 0 && s[0] == sep ==> split_on(s, sep).len() >= 2 && split_on(s, sep)[0].len() == 0,
    decreases s.len(),
{
    if s.len() > 0 {
        let t = s.drop_last();
        lemma_split_shape(t, sep);
        let prev = split_on(t, sep);
        if s.last() != sep {
            let last = prev.last().push(s.last());
            assert forall|j: int| 0 <= j < split_on(s, sep).len() implies !(#[trigger] split_on(s, sep)[j]).contains(sep) by {
                if j == prev.len() - 1 {
                    if last.contains(sep) {
                        let k = choose|k: int| 0 <= k < last.len() && last[k] == sep;
                        assert(prev.last()[k] == sep);
                    }
                } else {
                    assert(split_on(s, sep)[j] == prev[j]);
                }
            }
        }
        if s[0] == sep && t.len() == 0 {
            assert(s.last() == sep);
        }
        if s[0] == sep && t.len() > 0 {
            assert(t[0] == sep);
        }
    }
}

/// Splitting text joined at a separator splits both sides.
pub proof fn lemma_split_at_sep(x: Seq<char>, y: Seq<char>, sep: char)
    ensures
        split_on(x + seq![sep] + y, sep) == split_on(x, sep) + split_on(y, sep),
    decreases y.len(),
{
    let z = x + seq![sep] + y;
    lemma_split_shape(x, sep);
    if y.len() == 0 {
        assert(z.drop_last() =~= x);
        assert(split_on(z, sep) =~= split_on(x, sep) + split_on(y, sep));
    } else {
        assert(z.drop_last() =~= x + seq![sep] + y.drop_last());
        lemma_split_at_sep(x, y.drop_last(), sep);
        lemma_split_shape(y.drop_last(), sep);
        let a = split_on(x, sep);
        let b = split_on(y.drop_last(), sep);
        if y.last() == sep {
            assert(split_on(z, sep) =~= a + split_on(y, sep));
        } else {
            assert((a + b).update((a + b).len() - 1, (a + b).last().push(y.last())) =~= a + b.update(
                b.len() - 1,
                b.last().push(y.last()),
            ));
            assert(split_on(z, sep) =~= a + split_on(y, sep));
        }
    }
}

/// Text without the separator is a single piece.
pub proof fn lemma_split_plain(x: Seq<char>, sep: char)
    requires
        !x.contains(sep),
    ensures
        split_on(x, sep) == seq![x],
    decreases x.len(),
{
    if x.len() > 0 {
        let t = x.drop_last();
        assert(!t.contains(sep)) by {
            if t.contains(sep) {
                let k = choose|k: int| 0 <= k < t.len() && t[k] == sep;
                assert(x[k] == sep);
            }
        }
        lemma_split_plain(t, sep);
        assert(x.last() != sep) by {
            assert(x[x.len() - 1] == x.last());
        }
        assert(t.push(x.last()) =~= x);
        assert(split_on(x, sep) =~= seq![x]);
    } else {
        assert(x =~= Seq::<char>::empty());
    }
}

/// `c` has the Unicode `White_Space` property, which is what
/// `char::is_whitespace` tests.
pub open spec fn is_white(c: char) -> bool {
    let u = c as u32;
    ||| 9 <= u <= 13
    ||| u == 32
    ||| u == 0x85
    ||| u == 0xA0
    ||| u == 0x1680
    ||| 0x2000 <= u <= 0x200A
    ||| u == 0x2028
    ||| u == 0x2029
    ||| u == 0x202F
    ||| u == 0x205F
    ||| u == 0x3000
}

/// `s` without its leading whitespace.
pub open spec fn trim_start(s: Seq<char>) -> Seq<char>
    decreases s.len(),
{
    if s.len() > 0 && is_white(s[0]) {
        trim_start(s.drop_first())
    } else {
        s
    }
}

/// `s` without its trailing whitespace.
pub open spec fn trim_end(s: Seq<char>) -> Seq<char>
    decreases s.len(),
{
    if s.len() > 0 && is_white(s.last()) {
        trim_end(s.drop_last())
    } else {
        s
    }
}

/// `s` without leading and trailing whitespace, as `str::trim` gives it.
pub open spec fn spec_trim(s: Seq<char>) -> Seq<char> {
    trim_end(trim_start(s))
}

/// `needle` occurs in `hay` at some position.
pub open spec fn has_infix(hay: Seq<char>, needle: Seq<char>) -> bool {
    exists|i: int| 0 <= i <= hay.len() - needle.len() && #[trigger] hay.subrange(i, i + needle.len()) == needle
}

/// Whether `c` is whitespace, as `char::is_whitespace`.
pub fn is_white_char(c: char) -> (res: bool)
    ensures
        res == is_white(c),
{
    let u = c as u32;
    (9 <= u && u <= 13) || u == 32 || u == 0x85 || u == 0xA0 || u == 0x1680 || (0x2000 <= u && u
        <= 0x200A) || u == 0x2028 || u == 0x2029 || u == 0x202F || u == 0x205F || u == 0x3000
}

proof fn lemma_trim_start_at(s: Seq<char>, i: int)
    requires
        0 <= i <= s.len(),
        forall|k: int| 0 <= k < i ==> is_white(#[trigger] s[k]),
        i == s.len() || !is_white(s[i]),
    ensures
        trim_start(s) == s.skip(i),
    decreases i,
{
    if i == 0 {
        assert(s.skip(0) =~= s);
    } else {
        let t = s.drop_first();
        assert forall|k: int| 0 <= k < i - 1 implies is_white(#[trigger] t[k]) by {
            assert(t[k] == s[k + 1]);
        }
        if i - 1 < t.len() {
            assert(t[i - 1] == s[i]);
        }
        lemma_trim_start_at(t, i - 1);
        assert(t.skip(i - 1) =~= s.skip(i));
        assert(is_white(s[0]));
    }
}

proof fn lemma_trim_end_at(s: Seq<char>, j: int)
    requires
        0 <= j <= s.len(),
        forall|k: int| j <= k < s.len() ==> is_white(#[trigger] s[k]),
        j == 0 || !is_white(s[j - 1]),
    ensures
        trim_end(s) == s.take(j),
    decreases s.len() - j,
{
    if j == s.len() {
        assert(s.take(j) =~= s);
    } else {
        let t = s.drop_last();
        assert forall|k: int| j <= k < t.len() implies is_white(#[trigger] t[k]) by {
            assert(t[k] == s[k]);
        }
        if j > 0 {
            assert(t[j - 1] == s[j - 1]);
        }
        lemma_trim_end_at(t, j);
        assert(t.take(j) =~= s.take(j));
        assert(is_white(s[s.len() - 1]));
    }
}

/// `s` without leading and trailing whitespace, as `str::trim`.
pub fn trim(s: &str) -> (res: String)
    ensures
        res@ == spec_trim(s@),
{
    let n = s.unicode_len();
    let mut i: usize = 0;
    while i < n && is_white_char(s.get_char(i))
        invariant
            n == s@.len(),
            i <= n,
            forall|k: int| 0 <= k < i ==> is_white(#[trigger] s@[k]),
        decreases n - i,
    {
        i = i + 1;
    }
    proof {
        lemma_trim_start_at(s@, i as int);
    }
    let ghost rest = s@.skip(i as int);
    let mut j: usize = n;
    while j > i && is_white_char(s.get_char(j - 1))
        invariant
            n == s@.len(),
            i <= j <= n,
            rest == s@.skip(i as int),
            forall|k: int| j <= k < n ==> is_white(#[trigger] s@[k]),
        decreases j,
    {
        j = j - 1;
    }
    proof {
        assert forall|k: int| j - i <= k < rest.len() implies is_white(#[trigger] rest[k]) by {
            assert(rest[k] == s@[k + i]);
        }
        if j > i {
            assert(rest[j - i - 1] == s@[j - 1]);
        }
        lemma_trim_end_at(rest, j - i);
        assert(rest.take(j - i) =~= s@.subrange(i as int, j as int));
    }
    s.substring_char(i, j).to_owned()
}

/// Whether `a` and `b` are the same text.
pub fn text_equals(a: &str, b: &str) -> (res: bool)
    ensures
        res == (a@ == b@),
{
    let n = a.unicode_len();
    if n != b.unicode_len() {
        return false;
    }
    for k in 0..n
        invariant
            n == a@.len(),
            n == b@.len(),
            forall|q: int| 0 <= q < k ==> a@[q] == b@[q],
    {
        if a.get_char(k) != b.get_char(k) {
            return false;
        }
    }
    proof {
        assert(a@ =~= b@);
    }
    true
}

/// Whether `prefix` begins `s`, as `str::starts_with`.
pub fn starts_with(s: &str, prefix: &str) -> (res: bool)
    ensures
        res == prefix@.is_prefix_of(s@),
{
    let n = s.unicode_len();
    let m = prefix.unicode_len();
    if m > n {
        return false;
    }
    for k in 0..m
        invariant
            n == s@.len(),
            m == prefix@.len(),
            m <= n,
            forall|q: int| 0 <= q < k ==> prefix@[q] == s@[q],
    {
        if s.get_char(k) != prefix.get_char(k) {
            return false;
        }
    }
    true
}

/// Whether `needle` occurs in `hay`, as `str::contains` with a text pattern.
pub fn contains_text(hay: &str, needle: &str) -> (res: bool)
    ensures
        res == has_infix(hay@, needle@),
{
    let n = hay.unicode_len();
    let m = needle.unicode_len();
    if m > n {
        return false;
    }
    let mut i: usize = 0;
    while i <= n - m
        invariant
            n == hay@.len(),
            m == needle@.len(),
            m <= n,
            i <= n - m + 1,
            forall|p: int| 0 <= p < i ==> #[trigger] hay@.subrange(p, p + needle@.len()) != needle@,
        decreases n - m + 1 - i,
    {
        let window = hay.substring_char(i, i + m);
        if starts_with(window, needle) {
            proof {
                assert(window@ =~= needle@);
                assert(hay@.subrange(i as int, i + needle@.len()) == needle@);
            }
            return true;
        }
        proof {
            if hay@.subrange(i as int, i + needle@.len()) == needle@ {
                assert(needle@.is_prefix_of(window@));
            }
        }
        i = i + 1;
    }
    proof {
        assert forall|p: int| 0 <= p <= hay@.len() - needle@.len() implies #[trigger] hay@.subrange(
            p,
            p + needle@.len(),
        ) != needle@ by {}
    }
    false
}

} // verus!
