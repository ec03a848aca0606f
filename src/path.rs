use vstd::prelude::*;
use crate::text::{is_sep, copy_text};

verus! {

/// The platform root of a Windows path.
#[derive(Debug, PartialEq, Eq)]
pub enum Prefix {
    /// `C:`
    Disk(char),
    /// `\\?\C:`
    VerbatimDisk(char),
    /// `\\server\share`
    UNC(String, String),
    /// `\\?\UNC\server\share`
    VerbatimUNC(String, String),
    /// `\\?\text`
    Verbatim(String),
    /// `\\.\device`
    DeviceNS(String),
}

/// A component of a path after its prefix and root.
#[derive(Debug, PartialEq, Eq)]
pub enum Part {
    CurDir,
    ParentDir,
    Normal(String),
}

/// A path decomposed into an optional prefix, an optional root and its parts.
#[derive(Debug, PartialEq, Eq)]
pub struct DirPath {
    pub prefix: Option<Prefix>,
    pub has_root: bool,
    pub parts: Vec<Part>,
}

/// The mathematical value of a `Prefix`.
pub ghost enum PrefixView {
    Disk(char),
    VerbatimDisk(char),
    UNC(Seq<char>, Seq<char>),
    VerbatimUNC(Seq<char>, Seq<char>),
    Verbatim(Seq<char>),
    DeviceNS(Seq<char>),
}

/// The mathematical value of a `Part`.
pub ghost enum PartView {
    CurDir,
    ParentDir,
    Normal(Seq<char>),
}

/// The mathematical value of a `DirPath`.
pub ghost struct PathView {
    pub prefix: Option<PrefixView>,
    pub has_root: bool,
    pub parts: Seq<PartView>,
}

impl View for Prefix {
    type V = PrefixView;

    open spec fn view(&self) -> PrefixView {
        match self {
            Prefix::Disk(d) => PrefixView::Disk(*d),
            Prefix::VerbatimDisk(d) => PrefixView::VerbatimDisk(*d),
            Prefix::UNC(a, b) => PrefixView::UNC(a@, b@),
            Prefix::VerbatimUNC(a, b) => PrefixView::VerbatimUNC(a@, b@),
            Prefix::Verbatim(t) => PrefixView::Verbatim(t@),
            Prefix::DeviceNS(t) => PrefixView::DeviceNS(t@),
        }
    }
}

impl View for Part {
    type V = PartView;

    open spec fn view(&self) -> PartView {
        match self {
            Part::CurDir => PartView::CurDir,
            Part::ParentDir => PartView::ParentDir,
            Part::Normal(t) => PartView::Normal(t@),
        }
    }
}

pub open spec fn prefix_view(p: Option<Prefix>) -> Option<PrefixView> {
    match p {
        Some(x) => Some(x@),
        None => None,
    }
}

impl View for DirPath {
    type V = PathView;

    open spec fn view(&self) -> PathView {
        PathView {
            prefix: prefix_view(self.prefix),
            has_root: self.has_root,
            parts: self.parts@.map_values(|p: Part| p@),
        }
    }
}

/// The texts between separators, in order; empty texts included.
pub open spec fn pieces(s: Seq<char>) -> Seq<Seq<char>>
    decreases s.len(),
{
    if s.len() == 0 {
        seq![Seq::empty()]
    } else {
        let p = pieces(s.drop_last());
        if is_sep(s.last()) {
            p.push(Seq::empty())
        } else {
            p.update(p.len() - 1, p.last().push(s.last()))
        }
    }
}

/// Every text, even the empty one, has at least one piece.
pub proof fn lemma_pieces_nonempty(s: Seq<char>)
    ensures
        pieces(s).len() >= 1,
    decreases s.len(),
{
    if s.len() > 0 {
        lemma_pieces_nonempty(s.drop_last());
    }
}

/// The parts named by a sequence of texts: empty texts and `.` name none,
/// `..` names the parent.
pub open spec fn body_parts(ps: Seq<Seq<char>>) -> Seq<PartView>
    decreases ps.len(),
{
    if ps.len() == 0 {
        Seq::empty()
    } else {
        let r = body_parts(ps.drop_last());
        let l = ps.last();
        if l.len() == 0 || l == seq!['.'] {
            r
        } else if l == seq!['.', '.'] {
            r.push(PartView::ParentDir)
        } else {
            r.push(PartView::Normal(l))
        }
    }
}

pub open spec fn is_ascii_alpha(c: char) -> bool {
    ('a' <= c && c <= 'z') || ('A' <= c && c <= 'Z')
}

pub open spec fn is_drive(p: Seq<char>) -> bool {
    p.len() == 2 && is_ascii_alpha(p[0]) && p[1] == ':'
}

/// A prefix, whether a root follows it, and the index of the first piece of
/// the body, read from the pieces of a path that begins with two separators.
pub open spec fn double_sep_prefix(ps: Seq<Seq<char>>) -> Option<(PrefixView, bool, int)> {
    if ps.len() >= 4 && ps[0].len() == 0 && ps[1].len() == 0 && ps[3].len() > 0 {
        if ps[2] == seq!['?'] {
            if ps[3] == seq!['U', 'N', 'C'] && ps.len() >= 6 && ps[4].len() > 0 && ps[5].len() > 0 {
                Some((PrefixView::VerbatimUNC(ps[4], ps[5]), ps.len() > 6, 6))
            } else if is_drive(ps[3]) {
                Some((PrefixView::VerbatimDisk(ps[3][0]), ps.len() > 4, 4))
            } else {
                Some((PrefixView::Verbatim(ps[3]), ps.len() > 4, 4))
            }
        } else if ps[2] == seq!['.'] {
            Some((PrefixView::DeviceNS(ps[3]), ps.len() > 4, 4))
        } else if ps[2].len() > 0 {
            Some((PrefixView::UNC(ps[2], ps[3]), ps.len() > 4, 4))
        } else {
            None
        }
    } else {
        None
    }
}

/// The decomposition of a path string. Both `/` and `\` separate; empty
/// components and `.` are dropped.
pub open spec fn decompose(s: Seq<char>) -> PathView {
    let ps = pieces(s);
    match double_sep_prefix(ps) {
        Some((p, root, k)) => PathView { prefix: Some(p), has_root: root, parts: body_parts(ps.skip(k)) },
        None => if ps.len() >= 2 && ps[0].len() == 0 {
            PathView { prefix: None, has_root: true, parts: body_parts(ps.skip(1)) }
        } else if is_drive(ps[0]) {
            PathView { prefix: Some(PrefixView::Disk(ps[0][0])), has_root: ps.len() > 1, parts: body_parts(ps.skip(1)) }
        } else {
            PathView { prefix: None, has_root: false, parts: body_parts(ps) }
        },
    }
}

pub open spec fn texts(v: Seq<String>) -> Seq<Seq<char>> {
    v.map_values(|t: String| t@)
}

/// Splits a string at every separator.
pub fn split_pieces(s: &str) -> (r: Vec<String>)
    ensures
        texts(r@) == pieces(s@),
{
    let n = s.unicode_len();
    let mut out: Vec<String> = Vec::new();
    let mut st: usize = 0;
    let mut i: usize = 0;
    assert(s@.take(0) =~= Seq::<char>::empty());
    assert(texts(out@).push(s@.subrange(0, 0)) =~= seq![Seq::<char>::empty()]);
    while i < n
        invariant
            n == s@.len(),
            st <= i <= n,
            texts(out@).push(s@.subrange(st as int, i as int)) == pieces(s@.take(i as int)),
        decreases n - i,
    {
        let c = s.get_char(i);
        let ghost prev = s@.take(i as int);
        assert(s@.take(i + 1).drop_last() =~= prev);
        assert(s@.take(i + 1).last() == c);
        if c == '/' || c == '\\' {
            let piece = String::from_str(s.substring_char(st, i));
            out.push(piece);
            st = i + 1;
            assert(texts(out@) =~= texts(out@.drop_last()).push(piece@));
            assert(s@.subrange(st as int, i + 1) =~= Seq::<char>::empty());
        } else {
            assert(s@.subrange(st as int, i + 1) =~= s@.subrange(st as int, i as int).push(c));
        }
        i = i + 1;
    }
    let last = String::from_str(s.substring_char(st, n));
    out.push(last);
    assert(s@.take(n as int) =~= s@);
    assert(texts(out@) =~= texts(out@.drop_last()).push(last@));
    out
}

fn is_char_text(s: &String, c: char) -> (r: bool)
    ensures
        r == (s@ == seq![c]),
{
    let n = s.unicode_len();
    if n != 1 {
        return false;
    }
    let r = s.get_char(0) == c;
    if r {
        assert(s@ =~= seq![c]);
    }
    r
}

fn is_dot_dot(s: &String) -> (r: bool)
    ensures
        r == (s@ == seq!['.', '.']),
{
    let n = s.unicode_len();
    if n != 2 {
        return false;
    }
    let r = s.get_char(0) == '.' && s.get_char(1) == '.';
    if r {
        assert(s@ =~= seq!['.', '.']);
    }
    r
}

fn is_unc_marker(s: &String) -> (r: bool)
    ensures
        r == (s@ == seq!['U', 'N', 'C']),
{
    let n = s.unicode_len();
    if n != 3 {
        return false;
    }
    let r = s.get_char(0) == 'U' && s.get_char(1) == 'N' && s.get_char(2) == 'C';
    if r {
        assert(s@ =~= seq!['U', 'N', 'C']);
    }
    r
}

fn drive_letter(s: &String) -> (r: Option<char>)
    ensures
        is_drive(s@) <==> r is Some,
        r is Some ==> r->0 == s@[0],
{
    let n = s.unicode_len();
    if n != 2 {
        return None;
    }
    let d = s.get_char(0);
    if (('a' <= d && d <= 'z') || ('A' <= d && d <= 'Z')) && s.get_char(1) == ':' {
        Some(d)
    } else {
        None
    }
}

/// The parts named by the pieces from index `k` on.
fn parts_from(ps: &Vec<String>, k: usize) -> (r: Vec<Part>)
    requires
        k <= ps@.len(),
    ensures
        r@.map_values(|p: Part| p@) == body_parts(texts(ps@).skip(k as int)),
{
    let mut out: Vec<Part> = Vec::new();
    let mut i: usize = k;
    assert(texts(ps@).subrange(k as int, k as int) =~= Seq::<Seq<char>>::empty());
    assert(out@.map_values(|p: Part| p@) =~= Seq::<PartView>::empty());
    while i < ps.len()
        invariant
            k <= i <= ps@.len(),
            out@.map_values(|p: Part| p@) == body_parts(texts(ps@).subrange(k as int, i as int)),
        decreases ps@.len() - i,
    {
        let t = &ps[i];
        assert(texts(ps@).subrange(k as int, i + 1).drop_last() =~= texts(ps@).subrange(k as int, i as int));
        assert(texts(ps@).subrange(k as int, i + 1).last() == t@);
        let ghost before = out@;
        if t.unicode_len() == 0 || is_char_text(t, '.') {
        } else if is_dot_dot(t) {
            out.push(Part::ParentDir);
            assert(out@.map_values(|p: Part| p@) =~= before.map_values(|p: Part| p@).push(PartView::ParentDir));
        } else {
            out.push(Part::Normal(copy_text(t)));
            assert(out@.map_values(|p: Part| p@) =~= before.map_values(|p: Part| p@).push(PartView::Normal(t@)));
        }
        i = i + 1;
    }
    assert(texts(ps@).subrange(k as int, ps@.len() as int) =~= texts(ps@).skip(k as int));
    out
}

/// Decomposes a path string into its prefix, root and parts. The paths
/// rendered are absolute; a relative one, such as a contracted `~/src`,
/// comes back with neither prefix nor root.
pub fn parse_path(s: &str) -> (r: DirPath)
    ensures
        r@ == decompose(s@),
{
    let ps = split_pieces(s);
    proof {
        lemma_pieces_nonempty(s@);
    }
    let ghost t = texts(ps@);
    assert(forall|j: int| 0 <= j < ps@.len() ==> #[trigger] t[j] == ps@[j]@);
    let n = ps.len();
    if n >= 4 && ps[0].unicode_len() == 0 && ps[1].unicode_len() == 0 && ps[3].unicode_len() > 0 {
        if is_char_text(&ps[2], '?') {
            if is_unc_marker(&ps[3]) && n >= 6 && ps[4].unicode_len() > 0 && ps[5].unicode_len() > 0 {
                let p = Prefix::VerbatimUNC(copy_text(&ps[4]), copy_text(&ps[5]));
                return DirPath { prefix: Some(p), has_root: n > 6, parts: parts_from(&ps, 6) };
            }
            match drive_letter(&ps[3]) {
                Some(d) => {
                    return DirPath { prefix: Some(Prefix::VerbatimDisk(d)), has_root: n > 4, parts: parts_from(&ps, 4) };
                },
                None => {
                    let p = Prefix::Verbatim(copy_text(&ps[3]));
                    return DirPath { prefix: Some(p), has_root: n > 4, parts: parts_from(&ps, 4) };
                },
            }
        } else if is_char_text(&ps[2], '.') {
            let p = Prefix::DeviceNS(copy_text(&ps[3]));
            return DirPath { prefix: Some(p), has_root: n > 4, parts: parts_from(&ps, 4) };
        } else if ps[2].unicode_len() > 0 {
            let p = Prefix::UNC(copy_text(&ps[2]), copy_text(&ps[3]));
            return DirPath { prefix: Some(p), has_root: n > 4, parts: parts_from(&ps, 4) };
        }
    }
    if n >= 2 && ps[0].unicode_len() == 0 {
        DirPath { prefix: None, has_root: true, parts: parts_from(&ps, 1) }
    } else {
        match drive_letter(&ps[0]) {
            Some(d) => DirPath { prefix: Some(Prefix::Disk(d)), has_root: n > 1, parts: parts_from(&ps, 1) },
            None => {
                let parts = parts_from(&ps, 0);
                assert(t.skip(0) =~= t);
                DirPath { prefix: None, has_root: false, parts }
            },
        }
    }
}

} // verus!
