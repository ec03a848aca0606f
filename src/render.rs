use vstd::prelude::*;
use crate::path::{DirPath, Part, PartView, PathView, Prefix, PrefixView, texts};
use crate::contract::{contract_directory, contracted_directory, copy_part};
use crate::fish::{abbreviate, abbreviation};
use crate::text::same_text;

verus! {

/// The ASCII lower case of a letter; other characters unchanged.
pub open spec fn ascii_lower(c: char) -> char {
    if 'A' <= c && c <= 'Z' {
        ((c as u32) + 32) as char
    } else {
        c
    }
}

/// Relies on char::to_ascii_lowercase: `A` to `Z` become `a` to `z`, every
/// other character stays as it is.
#[verifier::external_body]
fn lower_letter(c: char) -> (r: char)
    ensures
        r == ascii_lower(c),
{
    c.to_ascii_lowercase()
}

/// Relies on char::to_string: the text of the one character `c`.
#[verifier::external_body]
fn char_text(c: char) -> (r: String)
    ensures
        r@ == seq![c],
{
    c.to_string()
}

/// The rendering of a platform prefix with separator `sep`: a drive as `/c`
/// where `sep` begins with `/` and as `c:` otherwise, a share as
/// `sep sep server sep share`, verbatim and device text as it stands.
pub open spec fn prefix_text(p: PrefixView, sep: Seq<char>) -> Seq<char> {
    match p {
        PrefixView::Disk(d) | PrefixView::VerbatimDisk(d) => if sep.len() > 0 && sep[0] == '/' {
            seq!['/', ascii_lower(d)]
        } else {
            seq![ascii_lower(d), ':']
        },
        PrefixView::UNC(a, b) | PrefixView::VerbatimUNC(a, b) => sep + sep + a + sep + b,
        PrefixView::Verbatim(t) | PrefixView::DeviceNS(t) => t,
    }
}

/// Renders a platform prefix with the given separator.
pub fn get_windows_prefix(prefix: &Prefix, separator: &str) -> (r: String)
    ensures
        r@ == prefix_text(prefix@, separator@),
{
    match prefix {
        Prefix::Disk(d) | Prefix::VerbatimDisk(d) => {
            let l = lower_letter(*d);
            if separator.unicode_len() > 0 && separator.get_char(0) == '/' {
                let mut buf = char_text('/');
                buf.append(char_text(l).as_str());
                assert(buf@ =~= seq!['/', l]);
                buf
            } else {
                let mut buf = char_text(l);
                buf.append(char_text(':').as_str());
                assert(buf@ =~= seq![l, ':']);
                buf
            }
        },
        Prefix::UNC(server, share) | Prefix::VerbatimUNC(server, share) => {
            let mut buf = String::new();
            buf.append(separator);
            buf.append(separator);
            buf.append(server.as_str());
            buf.append(separator);
            buf.append(share.as_str());
            assert(buf@ =~= separator@ + separator@ + server@ + separator@ + share@);
            buf
        },
        Prefix::Verbatim(t) | Prefix::DeviceNS(t) => String::from_str(t.as_str()),
    }
}

/// The texts of `ts` with `sep` between each two.
pub open spec fn join(ts: Seq<Seq<char>>, sep: Seq<char>) -> Seq<char>
    decreases ts.len(),
{
    if ts.len() == 0 {
        Seq::empty()
    } else if ts.len() == 1 {
        ts[0]
    } else {
        join(ts.drop_last(), sep) + sep + ts.last()
    }
}

/// Joins texts with a separator.
pub fn join_texts(ts: &Vec<String>, sep: &str) -> (r: String)
    ensures
        r@ == join(texts(ts@), sep@),
{
    let ghost t = texts(ts@);
    let mut r = String::new();
    let mut i: usize = 0;
    assert(t.take(0) =~= Seq::<Seq<char>>::empty());
    while i < ts.len()
        invariant
            t == texts(ts@),
            i <= ts@.len(),
            r@ == join(t.take(i as int), sep@),
        decreases ts@.len() - i,
    {
        assert(t.take(i + 1).drop_last() =~= t.take(i as int));
        assert(t.take(i + 1).last() == ts@[i as int]@);
        if i > 0 {
            r.append(sep);
        } else {
            assert(r@ + ts@[0]@ =~= ts@[0]@);
        }
        r.append(ts[i].as_str());
        i = i + 1;
    }
    assert(t.take(ts@.len() as int) =~= t);
    r
}

/// The text of a part: `.`, `..` or its name.
pub open spec fn part_text(p: PartView) -> Seq<char> {
    match p {
        PartView::CurDir => seq!['.'],
        PartView::ParentDir => seq!['.', '.'],
        PartView::Normal(t) => t,
    }
}

/// The text of an elided part in fish style: a name abbreviated to `n`
/// clusters, `.` and `..` as they are.
pub open spec fn fish_text(p: PartView, n: nat) -> Seq<char> {
    match p {
        PartView::Normal(t) => abbreviation(t, n),
        _ => part_text(p),
    }
}

fn part_string(p: &Part) -> (r: String)
    ensures
        r@ == part_text(p@),
{
    match p {
        Part::CurDir => {
            let r = char_text('.');
            r
        },
        Part::ParentDir => {
            let mut r = char_text('.');
            r.append(char_text('.').as_str());
            assert(r@ =~= seq!['.', '.']);
            r
        },
        Part::Normal(t) => String::from_str(t.as_str()),
    }
}

fn fish_string(p: &Part, n: usize) -> (r: String)
    ensures
        r@ == fish_text(p@, n as nat),
{
    match p {
        Part::Normal(t) => abbreviate(t.as_str(), n),
        _ => part_string(p),
    }
}

/// The texts of the parts `from..to`, abbreviated to `fish` clusters where
/// `fish > 0`.
fn part_strings(parts: &Vec<Part>, from: usize, to: usize, fish: usize) -> (r: Vec<String>)
    requires
        from <= to <= parts@.len(),
    ensures
        fish == 0 ==> texts(r@) == parts@.subrange(from as int, to as int).map_values(|q: Part| part_text(q@)),
        fish > 0 ==> texts(r@) == parts@.subrange(from as int, to as int).map_values(|q: Part| fish_text(q@, fish as nat)),
{
    let mut out: Vec<String> = Vec::new();
    let mut i: usize = from;
    assert(texts(out@) =~= parts@.subrange(from as int, from as int).map_values(|q: Part| part_text(q@)));
    assert(texts(out@) =~= parts@.subrange(from as int, from as int).map_values(|q: Part| fish_text(q@, fish as nat)));
    while i < to
        invariant
            from <= i <= to <= parts@.len(),
            fish == 0 ==> texts(out@) == parts@.subrange(from as int, i as int).map_values(|q: Part| part_text(q@)),
            fish > 0 ==> texts(out@) == parts@.subrange(from as int, i as int).map_values(|q: Part| fish_text(q@, fish as nat)),
        decreases to - i,
    {
        let t = if fish > 0 {
            fish_string(&parts[i], fish)
        } else {
            part_string(&parts[i])
        };
        let ghost before = out@;
        out.push(t);
        assert(texts(out@) =~= texts(before).push(t@));
        assert(parts@.subrange(from as int, i + 1) =~= parts@.subrange(from as int, i as int).push(parts@[i as int]));
        assert(parts@.subrange(from as int, i + 1).map_values(|q: Part| part_text(q@)) =~= parts@.subrange(from as int, i as int).map_values(|q: Part| part_text(q@)).push(part_text(parts@[i as int]@)));
        assert(parts@.subrange(from as int, i + 1).map_values(|q: Part| fish_text(q@, fish as nat)) =~= parts@.subrange(from as int, i as int).map_values(|q: Part| fish_text(q@, fish as nat)).push(fish_text(parts@[i as int]@, fish as nat)));
        i = i + 1;
    }
    out
}

/// The number of leading parts that truncation to `length` parts elides:
/// none where `length` is 0 or at least `count`.
pub open spec fn split_index(count: nat, length: nat) -> nat {
    if length == 0 || length >= count {
        0
    } else {
        (count - length) as nat
    }
}

fn truncation_split(count: usize, length: usize) -> (r: usize)
    ensures
        r == split_index(count as nat, length as nat),
{
    if length == 0 || length >= count {
        0
    } else {
        count - length
    }
}

/// Splits parts into the elided head and the shown tail, which together are
/// the parts in their order. With `length > 0` the tail holds the last
/// `min(length, count)` parts; with `length == 0` nothing is elided.
pub fn truncate(parts: &Vec<Part>, length: usize) -> (r: (Vec<Part>, Vec<Part>))
    ensures
        r.0@.map_values(|q: Part| q@) + r.1@.map_values(|q: Part| q@) == parts@.map_values(|q: Part| q@),
        length > 0 ==> r.1@.len() == if length < parts@.len() { length as nat } else { parts@.len() },
        length == 0 ==> r.0@.len() == 0,
        r.0@.len() == split_index(parts@.len(), length as nat),
{
    let k = truncation_split(parts.len(), length);
    let mut head: Vec<Part> = Vec::new();
    let mut tail: Vec<Part> = Vec::new();
    let ghost pv = parts@.map_values(|q: Part| q@);
    let mut i: usize = 0;
    while i < parts.len()
        invariant
            k <= parts@.len(),
            i <= parts@.len(),
            pv == parts@.map_values(|q: Part| q@),
            head@.len() == if i < k { i } else { k },
            tail@.len() == if i < k { 0 } else { i - k },
            head@.map_values(|q: Part| q@) + tail@.map_values(|q: Part| q@) == pv.take(i as int),
        decreases parts@.len() - i,
    {
        let c = copy_part(&parts[i]);
        let ghost h = head@;
        let ghost t = tail@;
        if i < k {
            head.push(c);
            assert(head@.map_values(|q: Part| q@) =~= h.map_values(|q: Part| q@).push(c@));
            assert(tail@ == t);
        } else {
            tail.push(c);
            assert(tail@.map_values(|q: Part| q@) =~= t.map_values(|q: Part| q@).push(c@));
        }
        assert(pv.take(i + 1) =~= pv.take(i as int).push(pv[i as int]));
        assert(head@.map_values(|q: Part| q@) + tail@.map_values(|q: Part| q@) =~= pv.take(i + 1));
        i = i + 1;
    }
    assert(pv.take(parts@.len() as int) =~= pv);
    (head, tail)
}

/// The ellipsis that stands for elided parts.
pub open spec fn ellipsis() -> Seq<char> {
    seq!['\u{2026}']
}

/// The text before the parts: the prefix, joined to the parts by the
/// separator, or the separator alone for a root without prefix.
pub open spec fn lead(p: PathView, sep: Seq<char>) -> Seq<char> {
    match p.prefix {
        Some(x) => if p.parts.len() == 0 {
            prefix_text(x, sep)
        } else {
            prefix_text(x, sep) + sep
        },
        None => if p.has_root {
            sep
        } else {
            Seq::empty()
        },
    }
}

/// The rendering of the elided head: nothing where it is empty; else its
/// parts abbreviated to `fish` clusters where `fish > 0`, or an ellipsis,
/// followed by the separator.
pub open spec fn head_text(head: Seq<PartView>, fish: nat, sep: Seq<char>) -> Seq<char> {
    if head.len() == 0 {
        Seq::empty()
    } else if fish > 0 {
        join(head.map_values(|q: PartView| fish_text(q, fish)), sep) + sep
    } else {
        ellipsis() + sep
    }
}

/// A path rendered with truncation to `length` shown parts and fish-style
/// abbreviation to `fish` clusters.
pub open spec fn formatted(p: PathView, length: nat, fish: nat, sep: Seq<char>) -> Seq<char> {
    let k = split_index(p.parts.len(), length);
    lead(p, sep) + head_text(p.parts.take(k as int), fish, sep) + join(p.parts.skip(k as int).map_values(|q: PartView| part_text(q)), sep)
}

/// Renders the text in front of the shown parts: the prefix or root, then
/// the elided head, whose parts are abbreviated to `pwd_dir_length`
/// clusters each (an ellipsis where it is 0) and followed by the separator.
pub fn to_fish_style(path: &DirPath, truncation_length: usize, pwd_dir_length: usize, separator: &str) -> (r: String)
    ensures
        r@ == lead(path@, separator@) + head_text(
            path@.parts.take(split_index(path@.parts.len(), truncation_length as nat) as int),
            pwd_dir_length as nat,
            separator@,
        ),
{
    let ghost pv = path@.parts;
    let n = path.parts.len();
    let k = truncation_split(n, truncation_length);
    let mut r = String::new();
    match &path.prefix {
        Some(x) => {
            let t = get_windows_prefix(x, separator);
            r.append(t.as_str());
            if n > 0 {
                r.append(separator);
            }
        },
        None => {
            if path.has_root {
                r.append(separator);
            }
        },
    }
    assert(r@ =~= lead(path@, separator@));
    let ghost l = r@;
    if k > 0 {
        if pwd_dir_length > 0 {
            let hs = part_strings(&path.parts, 0, k, pwd_dir_length);
            assert(path.parts@.subrange(0, k as int).map_values(|q: Part| fish_text(q@, pwd_dir_length as nat)) =~= pv.take(k as int).map_values(|q: PartView| fish_text(q, pwd_dir_length as nat)));
            let h = join_texts(&hs, separator);
            r.append(h.as_str());
        } else {
            r.append("\u{2026}");
            proof {
                reveal_strlit("\u{2026}");
            }
            assert("\u{2026}"@ =~= ellipsis());
        }
        r.append(separator);
    }
    assert(r@ =~= l + head_text(pv.take(k as int), pwd_dir_length as nat, separator@));
    r
}

/// Renders a path, showing its last `truncation_length` parts (all where 0)
/// and rendering the elided ones in fish style to `fish_style_length`
/// clusters each, or as an ellipsis where `fish_style_length` is 0.
pub fn format_path(path: &DirPath, truncation_length: usize, fish_style_length: usize, separator: &str) -> (r: String)
    ensures
        r@ == formatted(path@, truncation_length as nat, fish_style_length as nat, separator@),
{
    let ghost pv = path@.parts;
    let n = path.parts.len();
    let k = truncation_split(n, truncation_length);
    let mut r = to_fish_style(path, truncation_length, fish_style_length, separator);
    let ts = part_strings(&path.parts, k, n, 0);
    assert(path.parts@.subrange(k as int, n as int).map_values(|q: Part| part_text(q@)) =~= pv.skip(k as int).map_values(|q: PartView| part_text(q)));
    let tail = join_texts(&ts, separator);
    r.append(tail.as_str());
    r
}

/// With truncation length 0 the whole path is shown: nothing is elided, so
/// neither an ellipsis nor an abbreviation appears.
pub proof fn lemma_no_truncation(p: PathView, fish: nat, sep: Seq<char>)
    ensures
        formatted(p, 0, fish, sep) == lead(p, sep) + join(p.parts.map_values(|q: PartView| part_text(q)), sep),
{
    assert(p.parts.take(0).len() == 0);
    assert(p.parts.skip(0) =~= p.parts);
    assert(head_text(p.parts.take(0), fish, sep) =~= Seq::<char>::empty());
    assert(lead(p, sep) + Seq::<char>::empty() =~= lead(p, sep));
}

/// Renders the current directory: contracted as `contract_directory` does,
/// then truncated and abbreviated as `format_path` does.
pub fn format_directory(
    current_dir: &DirPath,
    home_dir: &DirPath,
    repo_root: Option<&DirPath>,
    truncate_to_repo: bool,
    truncation_length: usize,
    fish_style_length: usize,
    separator: &str,
) -> (r: String)
    ensures
        r@ == formatted(
            contracted_directory(current_dir@, home_dir@, match repo_root {
                Some(x) => Some(x@),
                None => None,
            }, truncate_to_repo),
            truncation_length as nat,
            fish_style_length as nat,
            separator@,
        ),
{
    let c = contract_directory(current_dir, home_dir, repo_root, truncate_to_repo);
    format_path(&c, truncation_length, fish_style_length, separator)
}

/// Whether a shell renders paths with `/` whatever the host.
pub open spec fn is_posix_shell(shell: Seq<char>) -> bool {
    shell == seq!['b', 'a', 's', 'h'] || shell == seq!['z', 's', 'h'] || shell == seq!['f', 'i', 's', 'h']
}

/// The separator to render with: `/` in bash, zsh and fish; else `\` where
/// the host's own separator is `\`, and `/` otherwise.
pub fn separator_for(shell: &str, native_backslash: bool) -> (r: &'static str)
    ensures
        r@ == if is_posix_shell(shell@) || !native_backslash { seq!['/'] } else { seq!['\\'] },
{
    proof {
        reveal_strlit("bash");
        reveal_strlit("zsh");
        reveal_strlit("fish");
        reveal_strlit("/");
        reveal_strlit("\\");
    }
    assert("bash"@ =~= seq!['b', 'a', 's', 'h']);
    assert("zsh"@ =~= seq!['z', 's', 'h']);
    assert("fish"@ =~= seq!['f', 'i', 's', 'h']);
    assert("/"@ =~= seq!['/']);
    assert("\\"@ =~= seq!['\\']);
    if same_text(shell, "bash") || same_text(shell, "zsh") || same_text(shell, "fish") || !native_backslash {
        "/"
    } else {
        "\\"
    }
}

} // verus!
