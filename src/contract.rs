use vstd::prelude::*;
use crate::path::{DirPath, Part, PartView, PathView, Prefix, prefix_view};
use crate::text::{copy_text, same_text};

verus! {

/// `full` is `top` or lies below it: same prefix, same root, and the parts of
/// `top` begin the parts of `full`.
pub open spec fn within(full: PathView, top: PathView) -> bool {
    &&& full.prefix == top.prefix
    &&& full.has_root == top.has_root
    &&& top.parts.len() <= full.parts.len()
    &&& full.parts.take(top.parts.len() as int) == top.parts
}

/// `full` with `top` replaced by the single component `token`, or `full`
/// itself where it does not lie within `top`.
pub open spec fn contracted(full: PathView, top: PathView, token: Seq<char>) -> PathView {
    if within(full, top) {
        PathView {
            prefix: None,
            has_root: false,
            parts: seq![PartView::Normal(token)] + full.parts.skip(top.parts.len() as int),
        }
    } else {
        full
    }
}

/// A path that names its root, by a prefix or a root separator.
pub open spec fn is_rooted(p: PathView) -> bool {
    p.prefix is Some || p.has_root
}

fn same_prefix(a: &Option<Prefix>, b: &Option<Prefix>) -> (r: bool)
    ensures
        r == (prefix_view(*a) == prefix_view(*b)),
{
    match (a, b) {
        (None, None) => true,
        (Some(x), Some(y)) => match (x, y) {
            (Prefix::Disk(c), Prefix::Disk(d)) => *c == *d,
            (Prefix::VerbatimDisk(c), Prefix::VerbatimDisk(d)) => *c == *d,
            (Prefix::UNC(s1, t1), Prefix::UNC(s2, t2)) => same_text(s1, s2) && same_text(t1, t2),
            (Prefix::VerbatimUNC(s1, t1), Prefix::VerbatimUNC(s2, t2)) => same_text(s1, s2) && same_text(t1, t2),
            (Prefix::Verbatim(s1), Prefix::Verbatim(s2)) => same_text(s1, s2),
            (Prefix::DeviceNS(s1), Prefix::DeviceNS(s2)) => same_text(s1, s2),
            _ => false,
        },
        _ => false,
    }
}

fn same_part(a: &Part, b: &Part) -> (r: bool)
    ensures
        r == (a@ == b@),
{
    match (a, b) {
        (Part::CurDir, Part::CurDir) => true,
        (Part::ParentDir, Part::ParentDir) => true,
        (Part::Normal(s), Part::Normal(t)) => same_text(s, t),
        _ => false,
    }
}

/// Copies a part, keeping its view.
pub fn copy_part(p: &Part) -> (r: Part)
    ensures
        r@ == p@,
{
    match p {
        Part::CurDir => Part::CurDir,
        Part::ParentDir => Part::ParentDir,
        Part::Normal(t) => Part::Normal(copy_text(t)),
    }
}

fn copy_prefix(p: &Option<Prefix>) -> (r: Option<Prefix>)
    ensures
        prefix_view(r) == prefix_view(*p),
{
    match p {
        None => None,
        Some(Prefix::Disk(c)) => Some(Prefix::Disk(*c)),
        Some(Prefix::VerbatimDisk(c)) => Some(Prefix::VerbatimDisk(*c)),
        Some(Prefix::UNC(s, t)) => Some(Prefix::UNC(copy_text(s), copy_text(t))),
        Some(Prefix::VerbatimUNC(s, t)) => Some(Prefix::VerbatimUNC(copy_text(s), copy_text(t))),
        Some(Prefix::Verbatim(s)) => Some(Prefix::Verbatim(copy_text(s))),
        Some(Prefix::DeviceNS(s)) => Some(Prefix::DeviceNS(copy_text(s))),
    }
}

/// The parts of `v` from index `k` on, appended to `out`.
fn append_parts(out: &mut Vec<Part>, v: &Vec<Part>, k: usize)
    requires
        k <= v@.len(),
    ensures
        final(out)@.map_values(|p: Part| p@) == old(out)@.map_values(|p: Part| p@) + v@.map_values(|p: Part| p@).skip(k as int),
{
    let ghost start = out@.map_values(|p: Part| p@);
    let ghost vv = v@.map_values(|p: Part| p@);
    let mut i: usize = k;
    assert(start + vv.subrange(k as int, k as int) =~= start);
    while i < v.len()
        invariant
            k <= i <= v@.len(),
            vv == v@.map_values(|p: Part| p@),
            out@.map_values(|p: Part| p@) == start + vv.subrange(k as int, i as int),
        decreases v@.len() - i,
    {
        let c = copy_part(&v[i]);
        let ghost before = out@;
        out.push(c);
        assert(out@.map_values(|p: Part| p@) =~= before.map_values(|p: Part| p@).push(c@));
        assert(start + vv.subrange(k as int, i + 1) =~= (start + vv.subrange(k as int, i as int)).push(vv[i as int]));
        i = i + 1;
    }
    assert(vv.subrange(k as int, v@.len() as int) =~= vv.skip(k as int));
}

/// Copies a path, keeping its view.
pub fn copy_path(p: &DirPath) -> (r: DirPath)
    ensures
        r@ == p@,
{
    let mut parts: Vec<Part> = Vec::new();
    append_parts(&mut parts, &p.parts, 0);
    assert(parts@.map_values(|q: Part| q@) =~= p@.parts);
    DirPath { prefix: copy_prefix(&p.prefix), has_root: p.has_root, parts }
}

fn path_within(full: &DirPath, top: &DirPath) -> (r: bool)
    ensures
        r == within(full@, top@),
{
    if !same_prefix(&full.prefix, &top.prefix) || full.has_root != top.has_root || top.parts.len() > full.parts.len() {
        return false;
    }
    let n = top.parts.len();
    let mut i: usize = 0;
    while i < n
        invariant
            n == top@.parts.len(),
            n <= full@.parts.len(),
            i <= n,
            forall|j: int| 0 <= j < i ==> full@.parts[j] == top@.parts[j],
        decreases n - i,
    {
        if !same_part(&full.parts[i], &top.parts[i]) {
            assert(full@.parts.take(n as int)[i as int] != top@.parts[i as int]);
            return false;
        }
        i = i + 1;
    }
    assert(full@.parts.take(n as int) =~= top@.parts);
    true
}

/// Replaces `top_level_path` at the head of `full_path` with the single
/// component `top_level_replacement`. The match is made component by
/// component, so `/home/bob2` does not lie within `/home/bob`. A path that does
/// not lie within `top_level_path` comes back unchanged.
pub fn contract_path(full_path: &DirPath, top_level_path: &DirPath, top_level_replacement: &str) -> (r: DirPath)
    ensures
        r@ == contracted(full_path@, top_level_path@, top_level_replacement@),
{
    if path_within(full_path, top_level_path) {
        let mut parts: Vec<Part> = Vec::new();
        parts.push(Part::Normal(String::from_str(top_level_replacement)));
        append_parts(&mut parts, &full_path.parts, top_level_path.parts.len());
        let r = DirPath { prefix: None, has_root: false, parts };
        assert(r@.parts =~= seq![PartView::Normal(top_level_replacement@)] + full_path@.parts.skip(top_level_path@.parts.len() as int));
        r
    } else {
        copy_path(full_path)
    }
}

fn same_path(a: &DirPath, b: &DirPath) -> (r: bool)
    ensures
        r == (a@ == b@),
{
    assert(a@.parts.take(a@.parts.len() as int) =~= a@.parts);
    a.parts.len() == b.parts.len() && path_within(a, b)
}

/// The name of the last part of a path, where it has one.
pub open spec fn last_name(p: PathView) -> Option<Seq<char>> {
    if p.parts.len() > 0 && p.parts.last() is Normal {
        Some(p.parts.last()->Normal_0)
    } else {
        None
    }
}

/// The symbol that stands for the home directory.
pub open spec fn home_symbol() -> Seq<char> {
    seq!['~']
}

/// Whether the current directory is contracted to the repository root:
/// asked for, the root is known, differs from the home directory, has a
/// name, and holds the current directory.
pub open spec fn uses_repo_root(current: PathView, home: PathView, repo_root: Option<PathView>, truncate_to_repo: bool) -> bool {
    truncate_to_repo && repo_root is Some && repo_root->0 != home && last_name(repo_root->0) is Some
        && within(current, repo_root->0)
}

/// The current directory contracted to the repository root's name, where
/// `uses_repo_root` holds, and else to `~` against the home directory.
pub open spec fn contracted_directory(current: PathView, home: PathView, repo_root: Option<PathView>, truncate_to_repo: bool) -> PathView {
    if uses_repo_root(current, home, repo_root, truncate_to_repo) {
        contracted(current, repo_root->0, last_name(repo_root->0)->0)
    } else {
        contracted(current, home, home_symbol())
    }
}

/// Contracts the current directory: to the repository root's name where the
/// repository root is asked for, known, not the home directory, and holds
/// the current directory; else to `~` against the home directory.
pub fn contract_directory(current_dir: &DirPath, home_dir: &DirPath, repo_root: Option<&DirPath>, truncate_to_repo: bool) -> (r: DirPath)
    ensures
        r@ == contracted_directory(current_dir@, home_dir@, match repo_root {
            Some(x) => Some(x@),
            None => None,
        }, truncate_to_repo),
{
    if truncate_to_repo {
        if let Some(root) = repo_root {
            let n = root.parts.len();
            if n > 0 && !same_path(root, home_dir) && path_within(current_dir, root) {
                if let Part::Normal(name) = &root.parts[n - 1] {
                    return contract_path(current_dir, root, name.as_str());
                }
            }
        }
    }
    proof {
        reveal_strlit("~");
    }
    assert("~"@ =~= home_symbol());
    contract_path(current_dir, home_dir, "~")
}

/// Contracting twice against the same top-level path gives what contracting
/// once gives, where the top-level path does not itself begin with the
/// token: a rooted one, or a relative one whose first part is not the token.
pub proof fn lemma_contract_idempotent(p: PathView, top: PathView, token: Seq<char>)
    requires
        is_rooted(top) || (top.parts.len() > 0 && top.parts[0] != PartView::Normal(token)),
    ensures
        contracted(contracted(p, top, token), top, token) == contracted(p, top, token),
{
    let c = contracted(p, top, token);
    if within(p, top) && within(c, top) && !is_rooted(top) {
        assert(c.parts.take(top.parts.len() as int)[0] == c.parts[0]);
    }
}

/// A path whose parts differ from those of `top` at some place that `top`
/// has is not contracted, even where the texts share a string prefix.
pub proof fn lemma_contract_component_exact(p: PathView, top: PathView, token: Seq<char>, i: int)
    requires
        0 <= i < top.parts.len(),
        i < p.parts.len() ==> p.parts[i] != top.parts[i],
    ensures
        contracted(p, top, token) == p,
{
    if within(p, top) {
        assert(p.parts.take(top.parts.len() as int)[i] == p.parts[i]);
    }
}

} // verus!
