use vstd::prelude::*;

use crate::batch::{spec_batch, spec_batch_count};

verus! {

/// The destination playlist is modelled as the ordered sequence of track
/// URIs the remote service holds. A reset replaces the contents with the
/// empty sequence, whatever stood there before.
pub open spec fn spec_reset(dest: Seq<Seq<char>>) -> Seq<Seq<char>> {
    Seq::empty()
}

/// An append adds the batch's URIs at the end, in order.
pub open spec fn spec_append(dest: Seq<Seq<char>>, batch: Seq<Seq<char>>) -> Seq<Seq<char>> {
    dest + batch
}

/// Resetting is idempotent: a second reset leaves exactly the state the
/// first produced — the empty playlist — whatever the contents were, the
/// already-empty playlist included.
pub proof fn lemma_reset_idempotent(dest: Seq<Seq<char>>)
    ensures
        spec_reset(spec_reset(dest)) == spec_reset(dest),
        spec_reset(dest) == Seq::<Seq<char>>::empty(),
{
}

/// The batches of `s`, in order.
pub open spec fn spec_batches(s: Seq<Seq<char>>) -> Seq<Seq<Seq<char>>> {
    Seq::new(spec_batch_count(s.len()) as nat, |i: int| spec_batch(s, i))
}

/// The destination after appending each batch, first to last.
pub open spec fn apply_batches(dest: Seq<Seq<char>>, batches: Seq<Seq<Seq<char>>>) -> Seq<
    Seq<char>,
>
    decreases batches.len(),
{
    if batches.len() == 0 {
        dest
    } else {
        apply_batches(spec_append(dest, batches[0]), batches.skip(1))
    }
}

proof fn lemma_apply_from(s: Seq<Seq<char>>, dest: Seq<Seq<char>>, i: int)
    requires
        0 <= i <= spec_batch_count(s.len()),
    ensures
        apply_batches(dest, spec_batches(s).skip(i)) == dest + s.skip(
            if 2 * i <= s.len() {
                2 * i
            } else {
                s.len() as int
            },
        ),
    decreases spec_batch_count(s.len()) - i,
{
    let bs = spec_batches(s);
    if i == spec_batch_count(s.len()) {
        assert(bs.skip(i).len() == 0);
        let hi = if 2 * i <= s.len() {
            2 * i
        } else {
            s.len() as int
        };
        assert(s.skip(hi).len() == 0);
        assert(dest + s.skip(hi) =~= dest);
    } else {
        assert(2 * i <= s.len());
        assert(bs.skip(i)[0] == spec_batch(s, i));
        assert(bs.skip(i).skip(1) =~= bs.skip(i + 1));
        lemma_apply_from(s, dest + spec_batch(s, i), i + 1);
        let hi = if 2 * (i + 1) <= s.len() {
            2 * (i + 1)
        } else {
            s.len() as int
        };
        assert((dest + spec_batch(s, i)) + s.skip(hi) =~= dest + s.skip(2 * i));
    }
}

/// After a reset followed by the batched appends of `s`, first batch to
/// last, the destination holds exactly `s`: the call order is the final
/// playlist order.
pub proof fn lemma_write_rebuilds(dest0: Seq<Seq<char>>, s: Seq<Seq<char>>)
    ensures
        apply_batches(spec_reset(dest0), spec_batches(s)) == s,
{
    lemma_apply_from(s, Seq::empty(), 0);
    assert(spec_batches(s).skip(0) =~= spec_batches(s));
    assert(s.skip(0) =~= s);
    assert(Seq::<Seq<char>>::empty() + s =~= s);
}

} // verus!
