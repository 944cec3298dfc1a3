//! A model of filesystem paths as a root flag plus a list of components,
//! with the component rules of Unix paths: separators are `/`, empty
//! components vanish, and `.` survives only as the first component of a
//! relative path.
use vstd::prelude::*;
use vstd::string::*;
use crate::text::{lemma_split_at_sep, lemma_split_plain, lemma_split_shape, split_on};

verus! {

/// The mathematical value of a path: whether it starts at the root, and its
/// components in order.
pub type PathModel = (bool, Seq<Seq<char>>);

/// `c` is the one-character text `.`.
pub open spec fn is_dot(c: Seq<char>) -> bool {
    c.len() == 1 && c[0] == '.'
}

/// `c` is the two-character text `..`.
pub open spec fn is_dot_dot(c: Seq<char>) -> bool {
    c.len() == 2 && c[0] == '.' && c[1] == '.'
}

/// A single path component: non-empty and free of separators.
pub open spec fn is_component(c: Seq<char>) -> bool {
    c.len() > 0 && !c.contains('/')
}

/// The invariant of a path value: every part is a component, and `.` can
/// only be the first part of a relative path.
pub open spec fn path_wf(p: PathModel) -> bool {
    forall|i: int|
        0 <= i < p.1.len() ==> {
            &&& is_component(#[trigger] p.1[i])
            &&& is_dot(p.1[i]) ==> (i == 0 && !p.0)
        }
}

/// The pieces of `s` between separators, empty pieces included.
pub open spec fn segments(s: Seq<char>) -> Seq<Seq<char>> {
    split_on(s, '/')
}

/// Whether the piece at position `i` of a split text survives as a
/// component.
pub open spec fn keeps(c: Seq<char>, i: int) -> bool {
    c.len() > 0 && !(is_dot(c) && i > 0)
}

/// The pieces of a split text that survive as components, in order.
pub open spec fn keep_parts(segs: Seq<Seq<char>>) -> Seq<Seq<char>>
    decreases segs.len(),
{
    if segs.len() == 0 {
        Seq::empty()
    } else {
        let prev = keep_parts(segs.drop_last());
        if keeps(segs.last(), segs.len() - 1) {
            prev.push(segs.last())
        } else {
            prev
        }
    }
}

/// The path that the text `s` denotes.
pub open spec fn spec_parse(s: Seq<char>) -> PathModel {
    (s.len() > 0 && s[0] == '/', keep_parts(segments(s)))
}

/// The pieces of a split text: at least one, none holding a separator,
/// and an empty first piece for a rooted text.
proof fn lemma_segments_shape(s: Seq<char>)
    ensures
        segments(s).len() >= 1,
        forall|j: int| 0 <= j < segments(s).len() ==> !(#[trigger] segments(s)[j]).contains('/'),
        s.len() > 0 && s[0] == '/' ==> segments(s).len() >= 2 && segments(s)[0].len() == 0,
{
    lemma_split_shape(s, '/');
}

/// What is known of the components kept from a split text.
proof fn lemma_keep_parts_shape(segs: Seq<Seq<char>>)
    requires
        forall|j: int| 0 <= j < segs.len() ==> !(#[trigger] segs[j]).contains('/'),
    ensures
        forall|k: int|
            0 <= k < keep_parts(segs).len() ==> {
                &&& is_component(#[trigger] keep_parts(segs)[k])
                &&& is_dot(keep_parts(segs)[k]) ==> (k == 0 && segs.len() > 0 && is_dot(segs[0]))
            },
    decreases segs.len(),
{
    if segs.len() > 0 {
        let t = segs.drop_last();
        assert forall|j: int| 0 <= j < t.len() implies !(#[trigger] t[j]).contains('/') by {
            assert(t[j] == segs[j]);
        }
        lemma_keep_parts_shape(t);
        let prev = keep_parts(t);
        let res = keep_parts(segs);
        assert forall|k: int| 0 <= k < res.len() implies {
            &&& is_component(#[trigger] res[k])
            &&& is_dot(res[k]) ==> (k == 0 && segs.len() > 0 && is_dot(segs[0]))
        } by {
            if k < prev.len() {
                assert(res[k] == prev[k]);
                if t.len() > 0 {
                    assert(t[0] == segs[0]);
                }
            } else {
                assert(res[k] == segs.last());
                assert(!segs[segs.len() - 1].contains('/'));
                if segs.len() == 1 {
                    assert(prev.len() == 0);
                }
            }
        }
    }
}

/// A parsed path always satisfies the path invariant.
pub proof fn lemma_parse_wf(s: Seq<char>)
    ensures
        path_wf(spec_parse(s)),
{
    lemma_segments_shape(s);
    lemma_keep_parts_shape(segments(s));
}

/// The components joined by single separators.
pub open spec fn join_slash(ps: Seq<Seq<char>>) -> Seq<char>
    decreases ps.len(),
{
    if ps.len() == 0 {
        Seq::empty()
    } else if ps.len() == 1 {
        ps[0]
    } else {
        join_slash(ps.drop_last()) + seq!['/'] + ps.last()
    }
}

/// The text of a path: a leading separator for a rooted path, then the
/// components joined by separators.
pub open spec fn spec_render(p: PathModel) -> Seq<char> {
    if p.0 {
        seq!['/'] + join_slash(p.1)
    } else {
        join_slash(p.1)
    }
}

proof fn lemma_segments_sep(x: Seq<char>, y: Seq<char>)
    ensures
        segments(x + seq!['/'] + y) == segments(x) + segments(y),
{
    lemma_split_at_sep(x, y, '/');
}

proof fn lemma_segments_plain(x: Seq<char>)
    requires
        !x.contains('/'),
    ensures
        segments(x) == seq![x],
{
    lemma_split_plain(x, '/');
}

proof fn lemma_segments_join(ps: Seq<Seq<char>>)
    requires
        ps.len() >= 1,
        forall|i: int| 0 <= i < ps.len() ==> !(#[trigger] ps[i]).contains('/'),
    ensures
        segments(join_slash(ps)) == ps,
    decreases ps.len(),
{
    if ps.len() == 1 {
        lemma_segments_plain(ps[0]);
        assert(seq![ps[0]] =~= ps);
    } else {
        let t = ps.drop_last();
        assert forall|i: int| 0 <= i < t.len() implies !(#[trigger] t[i]).contains('/') by {
            assert(t[i] == ps[i]);
        }
        lemma_segments_join(t);
        lemma_segments_sep(join_slash(t), ps.last());
        lemma_segments_plain(ps.last());
        assert(t + seq![ps.last()] =~= ps);
    }
}

proof fn lemma_keep_parts_all(segs: Seq<Seq<char>>)
    requires
        forall|i: int| 0 <= i < segs.len() ==> keeps(#[trigger] segs[i], i),
    ensures
        keep_parts(segs) == segs,
    decreases segs.len(),
{
    if segs.len() > 0 {
        let t = segs.drop_last();
        assert forall|i: int| 0 <= i < t.len() implies keeps(#[trigger] t[i], i) by {
            assert(t[i] == segs[i]);
        }
        lemma_keep_parts_all(t);
        assert(keeps(segs[segs.len() - 1], segs.len() - 1));
        assert(t.push(segs.last()) =~= segs);
    }
}

proof fn lemma_keep_parts_blank(segs: Seq<Seq<char>>)
    requires
        forall|i: int| 0 <= i < segs.len() ==> (#[trigger] segs[i]).len() == 0,
    ensures
        keep_parts(segs) =~= Seq::<Seq<char>>::empty(),
    decreases segs.len(),
{
    if segs.len() > 0 {
        let t = segs.drop_last();
        assert forall|i: int| 0 <= i < t.len() implies (#[trigger] t[i]).len() == 0 by {
            assert(t[i] == segs[i]);
        }
        lemma_keep_parts_blank(t);
        assert(segs[segs.len() - 1].len() == 0);
    }
}

proof fn lemma_keep_parts_rooted(ps: Seq<Seq<char>>)
    requires
        forall|i: int| 0 <= i < ps.len() ==> (#[trigger] ps[i]).len() > 0 && !is_dot(ps[i]),
    ensures
        keep_parts(seq![Seq::<char>::empty()] + ps) == ps,
    decreases ps.len(),
{
    let segs = seq![Seq::<char>::empty()] + ps;
    if ps.len() == 0 {
        lemma_keep_parts_blank(segs);
    } else {
        let t = ps.drop_last();
        assert forall|i: int| 0 <= i < t.len() implies (#[trigger] t[i]).len() > 0 && !is_dot(t[i]) by {
            assert(t[i] == ps[i]);
        }
        lemma_keep_parts_rooted(t);
        assert(segs.drop_last() =~= seq![Seq::<char>::empty()] + t);
        assert(segs.last() == ps[ps.len() - 1]);
        assert(t.push(ps.last()) =~= ps);
    }
}

proof fn lemma_join_first(ps: Seq<Seq<char>>)
    requires
        ps.len() >= 1,
        ps[0].len() > 0,
    ensures
        join_slash(ps).len() > 0,
        join_slash(ps)[0] == ps[0][0],
    decreases ps.len(),
{
    if ps.len() > 1 {
        let t = ps.drop_last();
        assert(t[0] == ps[0]);
        lemma_join_first(t);
    }
}

/// Reading back the text of a path gives the same path.
pub proof fn lemma_parse_render(p: PathModel)
    requires
        path_wf(p),
    ensures
        spec_parse(spec_render(p)) == p,
{
    let ps = p.1;
    assert forall|i: int| 0 <= i < ps.len() implies !(#[trigger] ps[i]).contains('/') by {
        assert(is_component(ps[i]));
    }
    if p.0 {
        let r = seq!['/'] + join_slash(ps);
        assert(r =~= Seq::<char>::empty() + seq!['/'] + join_slash(ps));
        lemma_segments_sep(Seq::<char>::empty(), join_slash(ps));
        assert(segments(Seq::<char>::empty()) =~= seq![Seq::<char>::empty()]);
        assert forall|i: int| 0 <= i < ps.len() implies (#[trigger] ps[i]).len() > 0 && !is_dot(ps[i]) by {
            assert(is_component(ps[i]));
        }
        if ps.len() == 0 {
            assert(join_slash(ps) =~= Seq::<char>::empty());
            assert(segments(join_slash(ps)) =~= seq![Seq::<char>::empty()]);
            assert(segments(r) =~= seq![Seq::<char>::empty()] + ps.push(Seq::<char>::empty()));
            lemma_keep_parts_blank(segments(r));
        } else {
            lemma_segments_join(ps);
            lemma_keep_parts_rooted(ps);
        }
        assert(r[0] == '/');
    } else {
        if ps.len() == 0 {
            assert(join_slash(ps) =~= Seq::<char>::empty());
            lemma_keep_parts_blank(seq![Seq::<char>::empty()]);
        } else {
            lemma_segments_join(ps);
            assert forall|i: int| 0 <= i < ps.len() implies keeps(#[trigger] ps[i], i) by {
                assert(is_component(ps[i]));
            }
            lemma_keep_parts_all(ps);
            assert(is_component(ps[0]));
            lemma_join_first(ps);
            assert(!ps[0].contains('/'));
            assert(ps[0][0] != '/');
        }
    }
}

/// `base` followed by `more`, as `Path::join` combines them: a rooted
/// `more` replaces `base`, and a leading `.` of `more` is dropped when it is
/// no longer in first place.
pub open spec fn spec_join(base: PathModel, more: PathModel) -> PathModel {
    if more.0 {
        more
    } else if more.1.len() > 0 && is_dot(more.1[0]) && (base.0 || base.1.len() > 0) {
        (base.0, base.1 + more.1.skip(1))
    } else {
        (base.0, base.1 + more.1)
    }
}

/// The path without its last component, as `Path::parent` gives it; `None`
/// for the root and for the empty path.
pub open spec fn spec_parent(p: PathModel) -> Option<PathModel> {
    if p.1.len() > 0 {
        Some((p.0, p.1.drop_last()))
    } else {
        None
    }
}

/// The last component, unless the path ends in `.` or `..` or has no
/// component, as `Path::file_name` gives it.
pub open spec fn spec_file_name(p: PathModel) -> Option<Seq<char>> {
    if p.1.len() > 0 && !is_dot(p.1.last()) && !is_dot_dot(p.1.last()) {
        Some(p.1.last())
    } else {
        None
    }
}

/// The path with its file name replaced by `name` (or `name` appended when
/// there is no file name), as `Path::with_file_name` builds it.
pub open spec fn spec_with_file_name(p: PathModel, name: Seq<char>) -> PathModel {
    let base = if spec_file_name(p) is Some {
        (p.0, p.1.drop_last())
    } else {
        p
    };
    spec_join(base, spec_parse(name))
}

/// The rest of `p` after the components of `base`, as `Path::strip_prefix`
/// gives it: the root counts as a component, so a rooted `p` only loses its
/// root to a rooted `base`, and the empty path is a prefix of every path.
pub open spec fn spec_strip_prefix(p: PathModel, base: PathModel) -> Option<PathModel> {
    if !base.0 && base.1.len() == 0 {
        Some(p)
    } else if p.0 == base.0 && base.1.is_prefix_of(p.1) {
        Some((false, p.1.skip(base.1.len() as int)))
    } else {
        None
    }
}

/// A single component that is not `.` reads as a one-component relative
/// path.
pub proof fn lemma_parse_component(c: Seq<char>)
    requires
        is_component(c),
        !is_dot(c),
    ensures
        spec_parse(c) == (false, seq![c]),
{
    lemma_segments_plain(c);
    assert(seq![c].drop_last() =~= Seq::<Seq<char>>::empty());
    assert(keep_parts(Seq::<Seq<char>>::empty()) =~= Seq::<Seq<char>>::empty());
    assert(keeps(seq![c].last(), 0));
    assert(Seq::<Seq<char>>::empty().push(c) =~= seq![c]);
    assert(c[0] != '/');
}

/// Stripping the base off a joined path gives back the added part, when
/// that part is relative and does not start with `.`.
pub proof fn lemma_strip_join(base: PathModel, more: PathModel)
    requires
        path_wf(more),
        !more.0,
        more.1.len() == 0 || !is_dot(more.1[0]),
    ensures
        spec_strip_prefix(spec_join(base, more), base) == Some(more),
{
    let j = spec_join(base, more);
    assert(j == (base.0, base.1 + more.1));
    if !base.0 && base.1.len() == 0 {
        assert(base.1 + more.1 =~= more.1);
    } else {
        assert(base.1.is_prefix_of(j.1));
        assert(j.1.skip(base.1.len() as int) =~= more.1);
    }
}

/// A filesystem path: a root flag and a list of components.
#[derive(Debug)]
pub struct TapePath {
    absolute: bool,
    parts: Vec<String>,
}

impl TapePath {
    #[verifier::type_invariant]
    spec fn inv(self) -> bool {
        path_wf(self@)
    }

    /// Makes the path invariant known of `self` to the caller; does nothing
    /// at run time.
    pub fn invariant_holds(&self)
        ensures
            path_wf(self@),
    {
        proof {
            use_type_invariant(self);
        }
    }

    /// The path that the text `s` denotes, as `std::path::Path::new(s)`
    /// splits it into components.
    pub fn parse(s: &str) -> (res: TapePath)
        ensures
            res@ == spec_parse(s@),
    {
        let n = s.unicode_len();
        let mut parts: Vec<String> = Vec::new();
        let mut start: usize = 0;
        let mut idx: usize = 0;
        let mut i: usize = 0;
        proof {
            assert(s@.take(0) =~= Seq::<char>::empty());
        }
        while i < n
            invariant
                n == s@.len(),
                start <= i <= n,
                idx <= i,
                segments(s@.take(i as int)).len() == idx + 1,
                segments(s@.take(i as int)).last() =~= s@.subrange(start as int, i as int),
                parts@.map_values(|p: String| p@) =~= keep_parts(
                    segments(s@.take(i as int)).drop_last(),
                ),
            decreases n - i,
        {
            let ghost prev = segments(s@.take(i as int));
            proof {
                assert(s@.take(i + 1).drop_last() =~= s@.take(i as int));
                assert(s@.take(i + 1).last() == s@[i as int]);
            }
            let c = s.get_char(i);
            if c == '/' {
                let seg = s.substring_char(start, i);
                let keep = Self::keeps_piece(seg, idx);
                if keep {
                    parts.push(seg.to_owned());
                }
                proof {
                    let next = segments(s@.take(i + 1));
                    assert(next =~= prev.push(Seq::empty()));
                    assert(next.drop_last() =~= prev);
                    assert(prev.drop_last().push(prev.last()) =~= prev);
                }
                idx = idx + 1;
                start = i + 1;
            } else {
                proof {
                    let next = segments(s@.take(i + 1));
                    assert(next.drop_last() =~= prev.drop_last());
                }
            }
            i = i + 1;
        }
        proof {
            assert(s@.take(n as int) =~= s@);
        }
        let ghost all = segments(s@);
        let ghost before = parts@.map_values(|p: String| p@);
        let seg = s.substring_char(start, n);
        let keep = Self::keeps_piece(seg, idx);
        if keep {
            parts.push(seg.to_owned());
            proof {
                assert(parts@.map_values(|p: String| p@) =~= before.push(seg@));
            }
        }
        proof {
            assert(keep_parts(all) == if keeps(all.last(), all.len() - 1) {
                keep_parts(all.drop_last()).push(all.last())
            } else {
                keep_parts(all.drop_last())
            });
            lemma_parse_wf(s@);
        }
        let absolute = n > 0 && s.get_char(0) == '/';
        TapePath { absolute, parts }
    }

    /// Whether `piece`, found at position `idx` of a split text, survives as
    /// a component.
    fn keeps_piece(piece: &str, idx: usize) -> (res: bool)
        ensures
            res == keeps(piece@, idx as int),
    {
        let len = piece.unicode_len();
        if len == 0 {
            false
        } else if len == 1 && idx > 0 {
            piece.get_char(0) != '.'
        } else {
            true
        }
    }

    /// Whether the path starts at the root.
    pub fn is_absolute(&self) -> (res: bool)
        ensures
            res == self@.0,
    {
        self.absolute
    }

    /// The number of components.
    pub fn len(&self) -> (res: usize)
        ensures
            res == self@.1.len(),
    {
        self.parts.len()
    }

    /// The component at position `i`.
    pub fn component(&self, i: usize) -> (res: String)
        requires
            i < self@.1.len(),
        ensures
            res@ == self@.1[i as int],
    {
        self.parts[i].clone()
    }

    /// The text of the path.
    pub fn render(&self) -> (res: String)
        ensures
            res@ == spec_render(self@),
    {
        let ghost ps = self@.1;
        proof {
            reveal_strlit("/");
        }
        let mut res = if self.absolute {
            String::from_str("/")
        } else {
            String::new()
        };
        let ghost lead = res@;
        let n = self.parts.len();
        proof {
            assert(ps.take(0) =~= Seq::<Seq<char>>::empty());
        }
        for i in 0..n
            invariant
                n == ps.len(),
                ps == self@.1,
                lead == (if self@.0 { seq!['/'] } else { Seq::<char>::empty() }),
                res@ == lead + join_slash(ps.take(i as int)),
        {
            proof {
                assert(ps.take(i + 1).drop_last() =~= ps.take(i as int));
                assert(ps.take(i + 1).last() == ps[i as int]);
            }
            let ghost before = res@;
            if i > 0 {
                res.append("/");
            }
            res.append(self.parts[i].as_str());
            proof {
                if i == 0 {
                    assert(ps.take(1) =~= seq![ps[0]]);
                    assert(join_slash(ps.take(0)) =~= Seq::<char>::empty());
                    assert(res@ =~= lead + join_slash(ps.take(i + 1)));
                } else {
                    reveal_strlit("/");
                    assert(ps.take(i + 1).len() == i + 1);
                    assert(join_slash(ps.take(i + 1)) == join_slash(ps.take(i as int)) + seq!['/']
                        + ps[i as int]);
                    assert(res@ =~= lead + join_slash(ps.take(i + 1)));
                }
            }
        }
        proof {
            assert(ps.take(n as int) =~= ps);
        }
        res
    }

    /// Whether both paths have the same root flag and components, which is
    /// when `PathBuf`'s `==` holds of them.
    pub fn same_as(&self, other: &TapePath) -> (res: bool)
        ensures
            res == (self@ == other@),
    {
        if self.absolute != other.absolute || self.parts.len() != other.parts.len() {
            proof {
                if self@ == other@ {
                    assert(self@.1.len() == other@.1.len());
                }
            }
            return false;
        }
        let n = self.parts.len();
        for i in 0..n
            invariant
                n == self@.1.len(),
                n == other@.1.len(),
                forall|j: int| 0 <= j < i ==> self@.1[j] == other@.1[j],
        {
            if self.parts[i] != other.parts[i] {
                proof {
                    assert(self@.1[i as int] != other@.1[i as int]);
                }
                return false;
            }
        }
        proof {
            assert(self@.1 =~= other@.1);
        }
        true
    }

    /// A copy of the path.
    pub fn duplicate(&self) -> (res: TapePath)
        ensures
            res@ == self@,
    {
        proof {
            use_type_invariant(self);
        }
        let n = self.parts.len();
        let mut parts: Vec<String> = Vec::new();
        for i in 0..n
            invariant
                n == self@.1.len(),
                parts@.map_values(|p: String| p@) =~= self@.1.take(i as int),
        {
            parts.push(self.parts[i].clone());
            proof {
                assert(self@.1.take(i + 1) =~= self@.1.take(i as int).push(self@.1[i as int]));
            }
        }
        proof {
            assert(self@.1.take(n as int) =~= self@.1);
        }
        TapePath { absolute: self.absolute, parts }
    }

    /// `self` followed by `more`, as `Path::join`.
    pub fn join(&self, more: &TapePath) -> (res: TapePath)
        ensures
            res@ == spec_join(self@, more@),
    {
        proof {
            use_type_invariant(self);
            use_type_invariant(more);
        }
        if more.absolute {
            return more.duplicate();
        }
        let skip_first = more.parts.len() > 0 && is_dot_text(more.parts[0].as_str()) && (
        self.absolute || self.parts.len() > 0);
        let start: usize = if skip_first {
            1
        } else {
            0
        };
        let ghost a = self@.1;
        let ghost b = more@.1;
        let mut parts: Vec<String> = Vec::new();
        let n = self.parts.len();
        for i in 0..n
            invariant
                n == a.len(),
                a == self@.1,
                parts@.map_values(|p: String| p@) =~= a.take(i as int),
        {
            parts.push(self.parts[i].clone());
            proof {
                assert(a.take(i + 1) =~= a.take(i as int).push(a[i as int]));
            }
        }
        proof {
            assert(a.take(n as int) =~= a);
        }
        let m = more.parts.len();
        for j in start..m
            invariant
                m == b.len(),
                b == more@.1,
                start <= m || m == 0,
                parts@.map_values(|p: String| p@) =~= a + b.subrange(start as int, j as int),
        {
            parts.push(more.parts[j].clone());
            proof {
                assert(a + b.subrange(start as int, j + 1) =~= (a + b.subrange(
                    start as int,
                    j as int,
                )).push(b[j as int]));
            }
        }
        let res = TapePath { absolute: self.absolute, parts };
        proof {
            if start <= m {
                assert(b.subrange(start as int, m as int) =~= b.skip(start as int));
            }
            assert(b.skip(0) =~= b);
        }
        res
    }

    /// The path without its last component, as `Path::parent`.
    pub fn parent(&self) -> (res: Option<TapePath>)
        ensures
            res matches Some(q) ==> spec_parent(self@) == Some(q@),
            res is None ==> spec_parent(self@) is None,
    {
        proof {
            use_type_invariant(self);
        }
        let n = self.parts.len();
        if n == 0 {
            return None;
        }
        let mut parts: Vec<String> = Vec::new();
        for i in 0..n - 1
            invariant
                n == self@.1.len(),
                n > 0,
                parts@.map_values(|p: String| p@) =~= self@.1.take(i as int),
        {
            parts.push(self.parts[i].clone());
            proof {
                assert(self@.1.take(i + 1) =~= self@.1.take(i as int).push(self@.1[i as int]));
            }
        }
        proof {
            assert(self@.1.take(n - 1) =~= self@.1.drop_last());
        }
        Some(TapePath { absolute: self.absolute, parts })
    }

    /// The last component, as `Path::file_name`.
    pub fn file_name(&self) -> (res: Option<String>)
        ensures
            res matches Some(name) ==> spec_file_name(self@) == Some(name@),
            res is None ==> spec_file_name(self@) is None,
    {
        let n = self.parts.len();
        if n == 0 {
            return None;
        }
        let last = self.parts[n - 1].as_str();
        if is_dot_text(last) || is_dot_dot_text(last) {
            None
        } else {
            Some(self.parts[n - 1].clone())
        }
    }

    /// The path with its file name replaced by `name`, as
    /// `Path::with_file_name`.
    pub fn with_file_name(&self, name: &str) -> (res: TapePath)
        ensures
            res@ == spec_with_file_name(self@, name@),
    {
        let named = TapePath::parse(name);
        let has_name = self.file_name().is_some();
        if has_name {
            let up = self.parent();
            match up {
                Some(base) => base.join(&named),
                None => self.join(&named),
            }
        } else {
            self.join(&named)
        }
    }

    /// The rest of the path after `base`, as `Path::strip_prefix`.
    pub fn strip_prefix(&self, base: &TapePath) -> (res: Option<TapePath>)
        ensures
            res matches Some(q) ==> spec_strip_prefix(self@, base@) == Some(q@),
            res is None ==> spec_strip_prefix(self@, base@) is None,
    {
        proof {
            use_type_invariant(self);
            use_type_invariant(base);
        }
        if !base.absolute && base.parts.len() == 0 {
            return Some(self.duplicate());
        }
        let k = base.parts.len();
        let n = self.parts.len();
        if self.absolute != base.absolute || k > n {
            return None;
        }
        let ghost a = self@.1;
        let ghost b = base@.1;
        for i in 0..k
            invariant
                k == b.len(),
                n == a.len(),
                k <= n,
                a == self@.1,
                b == base@.1,
                forall|j: int| 0 <= j < i ==> b[j] == a[j],
        {
            if self.parts[i] != base.parts[i] {
                proof {
                    assert(!b.is_prefix_of(a)) by {
                        assert(b[i as int] != a[i as int]);
                    }
                }
                return None;
            }
        }
        proof {
            assert(b.is_prefix_of(a));
        }
        let mut parts: Vec<String> = Vec::new();
        for i in k..n
            invariant
                k <= n,
                n == a.len(),
                a == self@.1,
                parts@.map_values(|p: String| p@) =~= a.subrange(k as int, i as int),
        {
            parts.push(self.parts[i].clone());
            proof {
                assert(a.subrange(k as int, i + 1) =~= a.subrange(k as int, i as int).push(a[i as int]));
            }
        }
        proof {
            assert(a.subrange(k as int, n as int) =~= a.skip(k as int));
            assert forall|i: int| 0 <= i < a.skip(k as int).len() implies is_component(
                #[trigger] a.skip(k as int)[i],
            ) && !is_dot(a.skip(k as int)[i]) by {
                assert(a.skip(k as int)[i] == a[i + k]);
            }
        }
        Some(TapePath { absolute: false, parts })
    }
}

/// `t` is the text `.`.
pub fn is_dot_text(t: &str) -> (res: bool)
    ensures
        res == is_dot(t@),
{
    t.unicode_len() == 1 && t.get_char(0) == '.'
}

/// `t` is the text `..`.
pub fn is_dot_dot_text(t: &str) -> (res: bool)
    ensures
        res == is_dot_dot(t@),
{
    t.unicode_len() == 2 && t.get_char(0) == '.' && t.get_char(1) == '.'
}

impl View for TapePath {
    type V = PathModel;

    closed spec fn view(&self) -> PathModel {
        (self.absolute, self.parts@.map_values(|p: String| p@))
    }
}

} // verus!
