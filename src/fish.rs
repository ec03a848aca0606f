use unicode_segmentation::UnicodeSegmentation;
use vstd::prelude::*;
use crate::path::texts;

verus! {

/// The extended grapheme clusters of a text, as Unicode segmentation gives them.
pub uninterp spec fn graphemes_of(s: Seq<char>) -> Seq<Seq<char>>;

/// The texts of `g` written one after the other.
pub open spec fn concat_all(g: Seq<Seq<char>>) -> Seq<char>
    decreases g.len(),
{
    if g.len() == 0 {
        Seq::empty()
    } else {
        concat_all(g.drop_last()) + g.last()
    }
}

/// Relies on unicode_segmentation's `graphemes(s, true)`: the extended
/// grapheme clusters of `s`, in order; they are consecutive slices of `s`,
/// so together they spell `s`.
#[verifier::external_body]
fn graphemes(s: &str) -> (r: Vec<String>)
    ensures
        texts(r@) == graphemes_of(s@),
        concat_all(texts(r@)) == s@,
{
    s.graphemes(true).map(|g| g.to_string()).collect()
}

/// How many leading clusters of `t` an abbreviation to `n` clusters keeps:
/// all where there are no more than `n`, else `n`, and one more where `t`
/// begins with a `.`.
pub open spec fn kept_clusters(t: Seq<char>, n: nat) -> nat {
    let c = graphemes_of(t).len();
    if c <= n {
        c
    } else if t.len() > 0 && t[0] == '.' {
        n + 1
    } else {
        n
    }
}

/// The abbreviation of `t` to `n` grapheme clusters.
pub open spec fn abbreviation(t: Seq<char>, n: nat) -> Seq<char> {
    concat_all(graphemes_of(t).take(kept_clusters(t, n) as int))
}

/// Abbreviates a path component to its first `n` grapheme clusters (one
/// more for a hidden `.` component). A component of at most `n` clusters
/// is kept whole.
pub fn abbreviate(text: &str, n: usize) -> (r: String)
    ensures
        r@ == abbreviation(text@, n as nat),
        graphemes_of(text@).len() <= n ==> r@ == text@,
{
    let g = graphemes(text);
    let c = g.len();
    let k: usize = if c <= n {
        c
    } else if text.unicode_len() > 0 && text.get_char(0) == '.' {
        n + 1
    } else {
        n
    };
    let ghost gt = texts(g@);
    let mut r = String::new();
    let mut i: usize = 0;
    assert(gt.take(0) =~= Seq::<Seq<char>>::empty());
    while i < k
        invariant
            k <= c == g@.len(),
            gt == texts(g@),
            i <= k,
            r@ == concat_all(gt.take(i as int)),
        decreases k - i,
    {
        assert(gt.take(i + 1).drop_last() =~= gt.take(i as int));
        assert(gt.take(i + 1).last() == g@[i as int]@);
        r.append(g[i].as_str());
        i = i + 1;
    }
    assert(gt.take(c as int) =~= gt);
    r
}

/// An abbreviation keeps at most `n` clusters, or `n + 1` for a component
/// that begins with `.`, never more clusters than the component has, and
/// they are its leading clusters.
pub proof fn lemma_abbreviation_bound(t: Seq<char>, n: nat)
    ensures
        kept_clusters(t, n) <= if t.len() > 0 && t[0] == '.' { n + 1 } else { n },
        kept_clusters(t, n) <= graphemes_of(t).len(),
        abbreviation(t, n) == concat_all(graphemes_of(t).take(kept_clusters(t, n) as int)),
{
}

} // verus!
