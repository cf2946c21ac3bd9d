//! Rendering of long sequences for diagnostics: the items joined by commas,
//! with the middle left out where there are more than ten.

use vstd::prelude::*;
use vstd::string::StringExecFns;

verus! {

/// The texts of a sequence of strings.
pub open spec fn views(parts: Seq<String>) -> Seq<Seq<char>> {
    Seq::new(parts.len(), |i: int| parts[i]@)
}

/// The texts joined by a comma and a space.
pub open spec fn joined(parts: Seq<Seq<char>>) -> Seq<char>
    decreases parts.len(),
{
    if parts.len() == 0 {
        Seq::empty()
    } else if parts.len() == 1 {
        parts[0]
    } else {
        joined(parts.drop_last()) + ", "@ + parts.last()
    }
}

/// The texts joined by commas; of more than ten texts only the first five
/// and the last five, with an ellipsis between them.
pub open spec fn elided_text(parts: Seq<Seq<char>>) -> Seq<char> {
    if parts.len() > 10 {
        joined(parts.take(5)) + ", ... "@ + joined(parts.skip(parts.len() - 5))
    } else {
        joined(parts)
    }
}

/// The positions that the elided rendering of `n` items shows: all of
/// them, or the first five and the last five of more than ten.
pub open spec fn shown(n: nat) -> Seq<int> {
    if n > 10 {
        Seq::new(
            10,
            |k: int|
                if k < 5 {
                    k
                } else {
                    n - 10 + k
                },
        )
    } else {
        Seq::new(n, |k: int| k)
    }
}

/// The items of `parts` at the positions that the elided rendering shows.
pub open spec fn shown_of<A>(parts: Seq<A>) -> Seq<A> {
    Seq::new(shown(parts.len()).len(), |k: int| parts[shown(parts.len())[k]])
}

/// The elided rendering of `n` items, made from the texts of those that
/// it shows.
pub open spec fn elided_shown(texts: Seq<Seq<char>>, n: nat) -> Seq<char> {
    if n > 10 {
        joined(texts.take(5)) + ", ... "@ + joined(texts.skip(5))
    } else {
        joined(texts)
    }
}

/// The elided rendering needs the texts of the shown items only.
pub proof fn lemma_elided_shown(parts: Seq<Seq<char>>)
    ensures
        elided_text(parts) == elided_shown(shown_of(parts), parts.len()),
{
    let picked = shown_of(parts);
    if parts.len() > 10 {
        assert(picked.take(5) =~= parts.take(5));
        assert(picked.skip(5) =~= parts.skip(parts.len() - 5));
    } else {
        assert(picked =~= parts);
    }
}

/// Joins the strings from position `from` up to position `to` by commas.
fn join(parts: &Vec<String>, from: usize, to: usize) -> (r: String)
    requires
        from <= to <= parts@.len(),
    ensures
        r@ == joined(views(parts@).subrange(from as int, to as int)),
{
    let mut out = String::new();
    let mut i: usize = from;
    let ghost texts = views(parts@);
    while i < to
        invariant
            from <= i <= to,
            to <= parts@.len(),
            texts == views(parts@),
            out@ == joined(texts.subrange(from as int, i as int)),
        decreases to - i,
    {
        let ghost before = texts.subrange(from as int, i as int);
        let ghost after = texts.subrange(from as int, i + 1);
        assert(after.drop_last() =~= before);
        if i > from {
            out.append(", ");
        }
        out.append(parts[i].as_str());
        i = i + 1;
    }
    out
}

/// Renders the strings joined by commas; of more than ten strings only the
/// first five and the last five, with an ellipsis between them.
pub fn elided(parts: &Vec<String>) -> (r: String)
    ensures
        r@ == elided_text(views(parts@)),
{
    let len = parts.len();
    let ghost texts = views(parts@);
    if len > 10 {
        let mut out = join(parts, 0, 5);
        out.append(", ... ");
        let rest = join(parts, len - 5, len);
        out.append(rest.as_str());
        out
    } else {
        assert(texts.subrange(0, len as int) =~= texts);
        join(parts, 0, len)
    }
}

/// The positions that the elided rendering of `n` items shows.
pub fn shown_positions(n: usize) -> (r: Vec<usize>)
    ensures
        r@.len() == shown(n as nat).len(),
        forall|k: int| 0 <= k < r@.len() ==> #[trigger] r@[k] == shown(n as nat)[k],
        forall|k: int| 0 <= k < r@.len() ==> #[trigger] r@[k] < n,
{
    let mut out: Vec<usize> = Vec::new();
    if n > 10 {
        let mut k: usize = 0;
        while k < 10
            invariant
                k <= 10,
                n > 10,
                out@.len() == k,
                forall|j: int| 0 <= j < k ==> #[trigger] out@[j] == shown(n as nat)[j],
            decreases 10 - k,
        {
            if k < 5 {
                out.push(k);
            } else {
                out.push(n - 10 + k);
            }
            k = k + 1;
        }
    } else {
        let mut k: usize = 0;
        while k < n
            invariant
                k <= n,
                n <= 10,
                out@.len() == k,
                forall|j: int| 0 <= j < k ==> #[trigger] out@[j] == shown(n as nat)[j],
            decreases n - k,
        {
            out.push(k);
            k = k + 1;
        }
    }
    out
}

/// Renders `n` items elided, from the strings of those that are shown.
pub fn elide_shown(texts: &Vec<String>, n: usize) -> (r: String)
    requires
        texts@.len() == shown(n as nat).len(),
    ensures
        r@ == elided_shown(views(texts@), n as nat),
{
    let ghost all = views(texts@);
    if n > 10 {
        let mut out = join(texts, 0, 5);
        out.append(", ... ");
        let rest = join(texts, 5, 10);
        out.append(rest.as_str());
        out
    } else {
        assert(all.subrange(0, n as int) =~= all);
        join(texts, 0, n)
    }
}

} // verus!
