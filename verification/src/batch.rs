use vstd::prelude::*;

use crate::model::strings;

verus! {

/// Batch `i` of the URI sequence `s`: the slice of at most two URIs
/// beginning at `2 i`.
pub open spec fn spec_batch(s: Seq<Seq<char>>, i: int) -> Seq<Seq<char>> {
    s.subrange(
        2 * i,
        if 2 * i + 2 <= s.len() {
            2 * i + 2
        } else {
            s.len() as int
        },
    )
}

/// How many batches a sequence of `n` URIs yields: two URIs per batch,
/// with a final batch of one if `n` is odd.
pub open spec fn spec_batch_count(n: nat) -> int {
    ((n + 1) / 2) as int
}

/// Splits the ordered URI sequence into batches of at most two, keeping
/// the order: batch `i` holds the URIs at positions `2 i` and, when
/// present, `2 i + 1`. Appending the batches in index order therefore
/// reproduces the input sequence exactly.
pub fn split_batches(uris: Vec<String>) -> (r: Vec<Vec<String>>)
    ensures
        r@.len() == spec_batch_count(uris@.len()),
        forall|i: int|
            0 <= i < r@.len() ==> strings((#[trigger] r@[i])@) == spec_batch(
                strings(uris@),
                i,
            ),
        forall|i: int| 0 <= i < r@.len() ==> 1 <= (#[trigger] r@[i])@.len() <= 2,
{
    let ghost orig = uris@;
    let ghost ss = strings(uris@);
    let mut rest = uris;
    let mut out: Vec<Vec<String>> = Vec::new();
    proof {
        assert(rest@ =~= orig.skip(0));
    }
    while rest.len() > 0
        invariant
            ss == strings(orig),
            out@.len() * 2 <= orig.len() + 1,
            rest@.len() == 0 || (2 * out@.len() <= orig.len() && rest@ == orig.skip(
                2 * (out@.len() as int),
            )),
            rest@.len() == 0 ==> orig.len() <= 2 * out@.len() && 2 * out@.len() <= orig.len() + 1,
            forall|i: int|
                0 <= i < out@.len() ==> strings((#[trigger] out@[i])@) == spec_batch(ss, i),
            forall|i: int| 0 <= i < out@.len() ==> 1 <= (#[trigger] out@[i])@.len() <= 2,
        decreases rest@.len(),
    {
        let ghost m = out@.len() as int;
        let ghost r0 = rest@;
        proof {
            assert(2 * m <= orig.len());
            assert(r0 == orig.skip(2 * m));
            assert(r0.len() == orig.len() - 2 * m);
        }
        let mut b: Vec<String> = Vec::new();
        let first = rest.remove(0);
        b.push(first);
        proof {
            assert(first == r0[0]);
            assert(orig.skip(2 * m)[0] == orig[2 * m]);
            assert(rest@ =~= r0.skip(1));
            assert(rest@ =~= orig.skip(2 * m + 1));
        }
        if rest.len() > 0 {
            let ghost r1 = rest@;
            let second = rest.remove(0);
            b.push(second);
            proof {
                assert(second == r1[0]);
                assert(orig.skip(2 * m + 1)[0] == orig[2 * m + 1]);
                assert(rest@ =~= r1.skip(1));
                assert(rest@ =~= orig.skip(2 * (m + 1)));
                assert(b@ =~= seq![orig[2 * m], orig[2 * m + 1]]);
                assert(strings(b@) =~= spec_batch(ss, m));
            }
        } else {
            proof {
                assert(r0.len() == 1);
                assert(2 * m + 1 == orig.len());
                assert(b@ =~= seq![orig[2 * m]]);
                assert(strings(b@) =~= spec_batch(ss, m));
            }
        }
        out.push(b);
    }
    proof {
        if orig.len() == 0 {
            assert(out@.len() == 0);
        }
        assert(out@.len() == spec_batch_count(orig.len()));
    }
    out
}

} // verus!
