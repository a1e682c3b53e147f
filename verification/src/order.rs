use vstd::prelude::*;

use crate::model::{ItemView, PlaylistItem, views};

verus! {

use vstd::seq_lib::lemma_multiset_commutative;

/// Lexicographic order on character sequences, by code point. For the
/// fixed-width, zero-padded timestamps this library compares, it is
/// chronological order.
pub open spec fn lex_le(a: Seq<char>, b: Seq<char>) -> bool
    decreases a.len(),
{
    if a.len() == 0 {
        true
    } else if b.len() == 0 {
        false
    } else if a[0] == b[0] {
        lex_le(a.skip(1), b.skip(1))
    } else {
        (a[0] as u32) < (b[0] as u32)
    }
}

/// The order is total: of any two sequences, one is below the other.
pub proof fn lemma_lex_total(a: Seq<char>, b: Seq<char>)
    ensures
        lex_le(a, b) || lex_le(b, a),
    decreases a.len(),
{
    if a.len() != 0 && b.len() != 0 {
        if a[0] == b[0] {
            lemma_lex_total(a.skip(1), b.skip(1));
        } else {
            vstd::utf8::char_u32_cast(a[0], a[0] as u32);
            vstd::utf8::char_u32_cast(b[0], b[0] as u32);
            assert((a[0] as u32) != (b[0] as u32));
        }
    }
}

/// The order is transitive.
pub proof fn lemma_lex_trans(a: Seq<char>, b: Seq<char>, c: Seq<char>)
    requires
        lex_le(a, b),
        lex_le(b, c),
    ensures
        lex_le(a, c),
    decreases a.len(),
{
    if a.len() != 0 && b.len() != 0 && c.len() != 0 {
        if a[0] == b[0] && b[0] == c[0] {
            lemma_lex_trans(a.skip(1), b.skip(1), c.skip(1));
        }
    }
}

/// The order is reflexive.
pub proof fn lemma_lex_refl(a: Seq<char>)
    ensures
        lex_le(a, a),
    decreases a.len(),
{
    if a.len() != 0 {
        lemma_lex_refl(a.skip(1));
    }
}

/// Compares two strings in the lexicographic order of their characters.
pub fn str_le(a: &str, b: &str) -> (r: bool)
    ensures
        r == lex_le(a@, b@),
{
    let alen = a.unicode_len();
    let blen = b.unicode_len();
    let mut i: usize = 0;
    proof {
        assert(a@.skip(0) =~= a@);
        assert(b@.skip(0) =~= b@);
    }
    loop
        invariant
            alen == a@.len(),
            blen == b@.len(),
            i <= alen,
            i <= blen,
            lex_le(a@, b@) == lex_le(a@.skip(i as int), b@.skip(i as int)),
        decreases alen - i,
    {
        if i >= alen {
            assert(a@.skip(i as int).len() == 0);
            return true;
        }
        if i >= blen {
            assert(b@.skip(i as int).len() == 0);
            assert(a@.skip(i as int).len() != 0);
            return false;
        }
        let ca = a.get_char(i);
        let cb = b.get_char(i);
        proof {
            assert(a@.skip(i as int)[0] == a@[i as int]);
            assert(b@.skip(i as int)[0] == b@[i as int]);
        }
        if ca == cb {
            proof {
                assert(a@.skip(i as int).skip(1) =~= a@.skip(i + 1));
                assert(b@.skip(i as int).skip(1) =~= b@.skip(i + 1));
            }
            i = i + 1;
        } else {
            return (ca as u32) < (cb as u32);
        }
    }
}

/// `a` was added strictly earlier than `b`.
pub open spec fn lt_key(a: ItemView, b: ItemView) -> bool {
    !lex_le(b.added_at, a.added_at)
}

/// `a` was added at or before `b`: ascending timestamp order.
pub open spec fn le_key(a: ItemView, b: ItemView) -> bool {
    lex_le(a.added_at, b.added_at)
}

/// Inserts `x` into `s` behind every element that was added strictly
/// earlier, and in front of the first element that was not — so an
/// element with an equal timestamp that is already in `s` stays behind
/// `x`, which is what makes the sort below stable.
pub open spec fn insert_item(x: ItemView, s: Seq<ItemView>) -> Seq<ItemView>
    decreases s.len(),
{
    if s.len() == 0 {
        seq![x]
    } else if lt_key(s[0], x) {
        seq![s[0]] + insert_item(x, s.skip(1))
    } else {
        seq![x] + s
    }
}

/// Stable ascending insertion sort by `added_at`.
pub open spec fn sort_items(s: Seq<ItemView>) -> Seq<ItemView>
    decreases s.len(),
{
    if s.len() == 0 {
        Seq::empty()
    } else {
        insert_item(s[0], sort_items(s.skip(1)))
    }
}

/// The sequence is in ascending timestamp order.
pub open spec fn sorted_asc(s: Seq<ItemView>) -> bool {
    forall|i: int, j: int| 0 <= i < j < s.len() ==> le_key(s[i], s[j])
}

/// The items of `s` that carry exactly the timestamp `k`, in order.
pub open spec fn with_key(s: Seq<ItemView>, k: Seq<char>) -> Seq<ItemView> {
    s.filter(|x: ItemView| x.added_at == k)
}

/// The items of `s` that are not local files, in order.
pub open spec fn non_local(s: Seq<ItemView>) -> Seq<ItemView> {
    s.filter(|x: ItemView| !x.is_local)
}

proof fn lemma_filter_empty(p: spec_fn(ItemView) -> bool)
    ensures
        Seq::<ItemView>::empty().filter(p) =~= Seq::<ItemView>::empty(),
{
    Seq::<ItemView>::empty().lemma_filter_len(p);
}

proof fn lemma_filter_singleton(x: ItemView, p: spec_fn(ItemView) -> bool)
    ensures
        seq![x].filter(p) == (if p(x) {
            seq![x]
        } else {
            Seq::<ItemView>::empty()
        }),
{
    lemma_filter_empty(p);
    Seq::<ItemView>::empty().lemma_filter_prepend(x, p);
    assert(seq![x] + Seq::<ItemView>::empty() =~= seq![x]);
    if p(x) {
        assert(seq![x].filter(p) =~= seq![x]);
    } else {
        assert(seq![x].filter(p) =~= Seq::<ItemView>::empty());
    }
}

/// Inserting adds exactly the inserted element to the multiset of the
/// sequence.
proof fn lemma_insert_item_multiset(x: ItemView, s: Seq<ItemView>)
    ensures
        insert_item(x, s).to_multiset() =~= s.to_multiset().insert(x),
        insert_item(x, s).len() == s.len() + 1,
    decreases s.len(),
{
    broadcast use vstd::seq_lib::group_to_multiset_ensures;
    broadcast use vstd::multiset::group_multiset_axioms;

    if s.len() == 0 {
        assert(seq![x] =~= Seq::<ItemView>::empty().push(x));
    } else if lt_key(s[0], x) {
        lemma_insert_item_multiset(x, s.skip(1));
        lemma_multiset_commutative(seq![s[0]], insert_item(x, s.skip(1)));
        lemma_multiset_commutative(seq![s[0]], s.skip(1));
        assert(s =~= seq![s[0]] + s.skip(1));
    } else {
        lemma_multiset_commutative(seq![x], s);
        assert(seq![x] =~= Seq::<ItemView>::empty().push(x));
    }
}

/// Every element of the inserted sequence is the inserted element or an
/// element of the original.
proof fn lemma_insert_item_contains(x: ItemView, s: Seq<ItemView>, e: ItemView)
    requires
        insert_item(x, s).contains(e),
    ensures
        e == x || s.contains(e),
{
    broadcast use vstd::seq_lib::group_to_multiset_ensures;
    broadcast use vstd::multiset::group_multiset_axioms;

    lemma_insert_item_multiset(x, s);
    insert_item(x, s).to_multiset_ensures();
    s.to_multiset_ensures();
    if e != x {
        assert(insert_item(x, s).to_multiset().count(e) > 0);
        assert(s.to_multiset().count(e) > 0);
    }
}

/// Inserting into an ascending sequence keeps it ascending.
proof fn lemma_insert_item_sorted(x: ItemView, s: Seq<ItemView>)
    requires
        sorted_asc(s),
    ensures
        sorted_asc(insert_item(x, s)),
    decreases s.len(),
{
    let r = insert_item(x, s);
    if s.len() == 0 {
    } else if lt_key(s[0], x) {
        assert(sorted_asc(s.skip(1))) by {
            assert forall|i: int, j: int| 0 <= i < j < s.skip(1).len() implies le_key(
                s.skip(1)[i],
                s.skip(1)[j],
            ) by {
                assert(s.skip(1)[i] == s[i + 1]);
                assert(s.skip(1)[j] == s[j + 1]);
            }
        }
        lemma_insert_item_sorted(x, s.skip(1));
        let t = insert_item(x, s.skip(1));
        assert forall|i: int, j: int| 0 <= i < j < r.len() implies le_key(r[i], r[j]) by {
            if i == 0 {
                assert(r[j] == t[j - 1]);
                assert(t.contains(t[j - 1]));
                lemma_insert_item_contains(x, s.skip(1), t[j - 1]);
                if t[j - 1] == x {
                    lemma_lex_total(s[0].added_at, x.added_at);
                } else {
                    let w = choose|w: int|
                        0 <= w < s.skip(1).len() && s.skip(1)[w] == t[j - 1];
                    assert(s[w + 1] == t[j - 1]);
                    assert(le_key(s[0], s[w + 1]));
                }
            } else {
                assert(r[i] == t[i - 1] && r[j] == t[j - 1]);
            }
        }
    } else {
        lemma_lex_total(x.added_at, s[0].added_at);
        assert(le_key(x, s[0]));
        assert forall|i: int, j: int| 0 <= i < j < r.len() implies le_key(r[i], r[j]) by {
            if i == 0 {
                assert(r[j] == s[j - 1]);
                if j - 1 > 0 {
                    assert(le_key(s[0], s[j - 1]));
                    lemma_lex_trans(x.added_at, s[0].added_at, s[j - 1].added_at);
                }
            } else {
                assert(r[i] == s[i - 1] && r[j] == s[j - 1]);
            }
        }
    }
}

/// Inserting keeps the relative order of the items carrying any one
/// timestamp: the inserted element goes in front of its equals, and the
/// rest stay as they were.
proof fn lemma_insert_item_stable(x: ItemView, s: Seq<ItemView>, k: Seq<char>)
    ensures
        x.added_at == k ==> with_key(insert_item(x, s), k) == seq![x] + with_key(s, k),
        x.added_at != k ==> with_key(insert_item(x, s), k) == with_key(s, k),
    decreases s.len(),
{
    let p = |it: ItemView| it.added_at == k;
    if s.len() == 0 {
        lemma_filter_singleton(x, p);
        lemma_filter_empty(p);
        if x.added_at == k {
            assert(seq![x] + Seq::<ItemView>::empty() =~= seq![x]);
        }
    } else if lt_key(s[0], x) {
        lemma_insert_item_stable(x, s.skip(1), k);
        let t = insert_item(x, s.skip(1));
        t.lemma_filter_prepend(s[0], p);
        assert(seq![s[0]] + t == insert_item(x, s));
        s.skip(1).lemma_filter_prepend(s[0], p);
        assert(s =~= seq![s[0]] + s.skip(1));
        if x.added_at == k && s[0].added_at == k {
            // then s[0] and x carry equal timestamps, contradicting that
            // s[0] is strictly earlier
            lemma_lex_refl(k);
            assert(false);
        }
        if x.added_at == k {
            assert(with_key(insert_item(x, s), k) =~= seq![x] + with_key(s, k));
        } else {
            assert(with_key(insert_item(x, s), k) =~= with_key(s, k));
        }
    } else {
        s.lemma_filter_prepend(x, p);
        if x.added_at == k {
            assert(with_key(insert_item(x, s), k) =~= seq![x] + with_key(s, k));
        } else {
            assert(Seq::<ItemView>::empty() + s.filter(p) =~= s.filter(p));
        }
    }
}

/// The sort returns the same items (as a multiset), in ascending
/// timestamp order.
pub proof fn lemma_sort_items_ensures(s: Seq<ItemView>)
    ensures
        sort_items(s).to_multiset() =~= s.to_multiset(),
        sort_items(s).len() == s.len(),
        sorted_asc(sort_items(s)),
    decreases s.len(),
{
    broadcast use vstd::seq_lib::group_to_multiset_ensures;
    broadcast use vstd::multiset::group_multiset_axioms;

    if s.len() == 0 {
    } else {
        lemma_sort_items_ensures(s.skip(1));
        lemma_insert_item_multiset(s[0], sort_items(s.skip(1)));
        lemma_insert_item_sorted(s[0], sort_items(s.skip(1)));
        lemma_multiset_commutative(seq![s[0]], s.skip(1));
        assert(s =~= seq![s[0]] + s.skip(1));
        assert(seq![s[0]] =~= Seq::<ItemView>::empty().push(s[0]));
    }
}

/// The sort is stable: for every timestamp, the items carrying that
/// timestamp come out exactly as they went in.
pub proof fn lemma_sort_items_stable(s: Seq<ItemView>, k: Seq<char>)
    ensures
        with_key(sort_items(s), k) == with_key(s, k),
    decreases s.len(),
{
    let p = |it: ItemView| it.added_at == k;
    if s.len() == 0 {
    } else {
        lemma_sort_items_stable(s.skip(1), k);
        lemma_insert_item_stable(s[0], sort_items(s.skip(1)), k);
        s.skip(1).lemma_filter_prepend(s[0], p);
        assert(s =~= seq![s[0]] + s.skip(1));
        if s[0].added_at == k {
            assert(with_key(s, k) =~= seq![s[0]] + with_key(s.skip(1), k));
        } else {
            assert(with_key(s, k) =~= with_key(s.skip(1), k));
        }
    }
}

/// What `compute_order` yields: drop local items, sort the rest by
/// ascending `added_at` (stably), reverse to newest-first, and keep the
/// bare URIs.
pub open spec fn spec_compute_order(s: Seq<ItemView>) -> Seq<Seq<char>> {
    sort_items(non_local(s)).reverse().map_values(|x: ItemView| x.uri)
}

/// The URI `u` belongs to some non-local item of `s`.
pub open spec fn uri_from_non_local(s: Seq<ItemView>, u: Seq<char>) -> bool {
    exists|j: int| 0 <= j < s.len() && !(#[trigger] s[j]).is_local && s[j].uri == u
}

/// Every URI the ordering produces belongs to some non-local input item;
/// in particular no local item ever reaches the output, whatever its
/// timestamp. Moreover the output is a permutation of the non-local
/// items' URIs.
pub proof fn lemma_compute_order_excludes_local(s: Seq<ItemView>)
    ensures
        spec_compute_order(s).len() == non_local(s).len(),
        forall|i: int|
            0 <= i < spec_compute_order(s).len() ==> uri_from_non_local(
                s,
                #[trigger] spec_compute_order(s)[i],
            ),
{
    broadcast use vstd::seq_lib::group_to_multiset_ensures;
    broadcast use vstd::multiset::group_multiset_axioms;

    let f = non_local(s);
    let t = sort_items(f);
    lemma_sort_items_ensures(f);
    t.to_multiset_ensures();
    f.to_multiset_ensures();
    assert forall|i: int| 0 <= i < spec_compute_order(s).len() implies uri_from_non_local(
        s,
        #[trigger] spec_compute_order(s)[i],
    ) by {
        let e = t.reverse()[i];
        assert(t.reverse()[i] == t[t.len() - 1 - i]);
        assert(t.contains(e));
        assert(t.to_multiset().count(e) > 0);
        assert(f.to_multiset().count(e) > 0);
        assert(f.contains(e));
        let w = choose|w: int| 0 <= w < f.len() && f[w] == e;
        s.lemma_filter_contains_rev(|x: ItemView| !x.is_local, e);
        let j = choose|j: int| 0 <= j < s.len() && s[j] == e;
        s.lemma_filter_pred(|x: ItemView| !x.is_local, w);
        assert(!s[j].is_local);
        assert(spec_compute_order(s)[i] == e.uri);
        assert(0 <= j < s.len() && !s[j].is_local && s[j].uri == spec_compute_order(s)[i]);
        assert(uri_from_non_local(s, spec_compute_order(s)[i]));
    }
}

proof fn lemma_insert_item_at(x: ItemView, s: Seq<ItemView>, j: int)
    requires
        0 <= j <= s.len(),
        forall|k: int| 0 <= k < j ==> lt_key(#[trigger] s[k], x),
        j < s.len() ==> !lt_key(s[j], x),
    ensures
        insert_item(x, s) == s.insert(j, x),
    decreases j,
{
    if j == 0 {
        if s.len() == 0 {
            assert(s.insert(0, x) =~= seq![x]);
        } else {
            assert(s.insert(0, x) =~= seq![x] + s);
        }
    } else {
        assert(lt_key(s[0], x));
        assert forall|k: int| 0 <= k < j - 1 implies lt_key(#[trigger] s.skip(1)[k], x) by {
            assert(s.skip(1)[k] == s[k + 1]);
        }
        assert(j - 1 < s.skip(1).len() ==> !lt_key(s.skip(1)[j - 1], x));
        lemma_insert_item_at(x, s.skip(1), j - 1);
        assert(insert_item(x, s) == seq![s[0]] + s.skip(1).insert(j - 1, x));
        assert(s.insert(j, x) =~= seq![s[0]] + s.skip(1).insert(j - 1, x));
    }
}

/// Inserts `x` into the ascending vector `v`, behind every element that
/// was added strictly earlier and in front of the rest.
fn insert_sorted(v: &mut Vec<PlaylistItem>, x: PlaylistItem)
    ensures
        views(final(v)@) == insert_item(x@, views(old(v)@)),
{
    let mut j: usize = 0;
    while j < v.len() && !str_le(x.added_at.as_str(), v[j].added_at.as_str())
        invariant
            j <= v@.len(),
            v@ == old(v)@,
            forall|k: int| 0 <= k < j ==> lt_key(#[trigger] views(v@)[k], x@),
        decreases v@.len() - j,
    {
        assert(views(v@)[j as int] == v@[j as int]@);
        j = j + 1;
    }
    proof {
        assert(j < v@.len() ==> !lt_key(views(v@)[j as int], x@));
        lemma_insert_item_at(x@, views(v@), j as int);
    }
    let ghost before = v@;
    v.insert(j, x);
    proof {
        assert(views(v@) =~= views(before).insert(j as int, x@));
    }
}

/// Sorts the items by ascending `added_at`. The sort is stable: items
/// with equal timestamps keep their input order.
pub fn sort_by_added_at(items: Vec<PlaylistItem>) -> (r: Vec<PlaylistItem>)
    ensures
        views(r@) == sort_items(views(items@)),
{
    let ghost orig = items@;
    let mut rest = items;
    let mut r: Vec<PlaylistItem> = Vec::new();
    proof {
        assert(rest@ =~= orig.take(rest@.len() as int));
        assert(views(orig.skip(orig.len() as int)) =~= Seq::<ItemView>::empty());
        assert(views(r@) =~= Seq::<ItemView>::empty());
    }
    while rest.len() > 0
        invariant
            rest@.len() <= orig.len(),
            rest@ == orig.take(rest@.len() as int),
            views(r@) == sort_items(views(orig.skip(rest@.len() as int))),
        decreases rest@.len(),
    {
        let ghost n = rest@.len() as int;
        let x = match rest.pop() {
            Some(x) => x,
            None => vstd::pervasive::unreached(),
        };
        proof {
            assert(x == orig.take(n)[n - 1]);
            assert(orig.take(n)[n - 1] == orig[n - 1]);
            assert(rest@ =~= orig.take(n - 1));
        }
        insert_sorted(&mut r, x);
        proof {
            let t = views(orig.skip(n - 1));
            assert(orig.skip(n - 1)[0] == orig[n - 1]);
            assert(t[0] == x@);
            assert(t.skip(1) =~= views(orig.skip(n)));
            assert(views(r@) == insert_item(t[0], sort_items(t.skip(1))));
            assert(views(r@) == sort_items(t));
        }
    }
    proof {
        assert(orig.skip(0) =~= orig);
    }
    r
}

/// Drops every local item, stably sorts the rest by ascending
/// `added_at`, reverses to newest-first order, and keeps the bare URIs.
pub fn compute_order(items: Vec<PlaylistItem>) -> (r: Vec<String>)
    ensures
        r@.map_values(|u: String| u@) == spec_compute_order(views(items@)),
{
    let ghost orig = views(items@);
    let mut rest = items;
    let mut kept: Vec<PlaylistItem> = Vec::new();
    proof {
        assert(views(rest@) =~= orig.skip(0));
        assert(orig.take(0) =~= Seq::<ItemView>::empty());
        lemma_filter_empty(|x: ItemView| !x.is_local);
        assert(views(kept@) =~= Seq::<ItemView>::empty());
    }
    while rest.len() > 0
        invariant
            rest@.len() <= orig.len(),
            views(rest@) == orig.skip(orig.len() - rest@.len()),
            views(kept@) == non_local(orig.take(orig.len() - rest@.len())),
        decreases rest@.len(),
    {
        let ghost k = orig.len() - rest@.len();
        let ghost r0 = rest@;
        let x = rest.remove(0);
        proof {
            assert(x == r0[0]);
            assert(views(r0)[0] == orig.skip(k)[0]);
            assert(x@ == orig[k]);
            assert(rest@ =~= r0.skip(1));
        }
        if !x.is_local {
            kept.push(x);
        }
        proof {
            assert(views(rest@) =~= views(r0.skip(1)));
            assert(views(r0.skip(1)) =~= views(r0).skip(1));
            assert(views(rest@) =~= orig.skip(k + 1));
            orig.lemma_take_succ_push(k);
            assert(orig.take(k).push(orig[k]) =~= orig.take(k) + seq![orig[k]]);
            Seq::filter_distributes_over_add(
                orig.take(k),
                seq![orig[k]],
                |x: ItemView| !x.is_local,
            );
            lemma_filter_singleton(orig[k], |x: ItemView| !x.is_local);
            if !x.is_local {
                assert(views(kept@) =~= non_local(orig.take(k)) + seq![orig[k]]);
            } else {
                assert(non_local(orig.take(k + 1)) =~= non_local(orig.take(k)));
            }
            assert(views(kept@) == non_local(orig.take(k + 1)));
        }
    }
    proof {
        orig.lemma_take_len();
        assert(views(kept@) == non_local(orig));
    }
    let sorted = sort_by_added_at(kept);
    let ghost t = sort_items(non_local(orig));
    let mut out: Vec<String> = Vec::new();
    let mut i: usize = sorted.len();
    while i > 0
        invariant
            i <= sorted@.len(),
            views(sorted@) == t,
            out@.len() == sorted@.len() - i,
            forall|k: int|
                0 <= k < out@.len() ==> (#[trigger] out@[k])@ == t[t.len() - 1 - k].uri,
        decreases i,
    {
        i = i - 1;
        let u = sorted[i].track.uri.clone();
        out.push(u);
    }
    proof {
        assert(out@.map_values(|u: String| u@) =~= spec_compute_order(orig));
    }
    out
}

} // verus!
