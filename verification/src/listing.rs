//! Ordering of directory listings: directories first, then lexicographic by
//! raw name. The order is total, so a listing of given entries has exactly
//! one sorted arrangement — re-listing an unchanged directory is
//! deterministic however the raw entries arrive.

use vstd::prelude::*;
use vstd::relations::total_ordering;
use vstd::seq_lib::lemma_multiset_commutative;
use vstd::seq_lib::lemma_sorted_unique;
use vstd::relations::sorted_by;

use crate::bytes::bytes_le;
use crate::bytes::lemma_lex_le_antisym;
use crate::bytes::lemma_lex_le_total;
use crate::bytes::lemma_lex_le_trans;
use crate::bytes::lex_le;
use crate::entry::Entry;
use crate::entry::EntryView;

verus! {

/// Listing order: directories before files, same kinds lexicographically by
/// raw name.
pub open spec fn entry_le(a: EntryView, b: EntryView) -> bool {
    if a.kind == b.kind {
        lex_le(a.name, b.name)
    } else {
        a.kind is Directory
    }
}

/// The listing order as a first-class relation.
pub open spec fn entry_leq() -> spec_fn(EntryView, EntryView) -> bool {
    |a: EntryView, b: EntryView| entry_le(a, b)
}

/// The listing order is a total ordering.
pub proof fn lemma_entry_order_total()
    ensures
        total_ordering(entry_leq()),
{
    let leq = entry_leq();
    assert forall|x: EntryView| #[trigger] leq(x, x) by {
        lemma_lex_le_total(x.name, x.name);
    }
    assert forall|x: EntryView, y: EntryView| #[trigger] leq(x, y) && #[trigger] leq(y, x)
        implies x == y by {
        assert(x.kind == y.kind);
        lemma_lex_le_antisym(x.name, y.name);
        assert(x =~= y);
    }
    assert forall|x: EntryView, y: EntryView, z: EntryView|
        #[trigger] leq(x, y) && #[trigger] leq(y, z) implies leq(x, z) by {
        if x.kind == y.kind && y.kind == z.kind {
            lemma_lex_le_trans(x.name, y.name, z.name);
        }
    }
    assert forall|x: EntryView, y: EntryView| #[trigger] leq(x, y) || #[trigger] leq(y, x) by {
        if x.kind == y.kind {
            lemma_lex_le_total(x.name, y.name);
        }
    }
}

/// The views of a sequence of entries.
pub open spec fn views(s: Seq<Entry>) -> Seq<EntryView> {
    s.map_values(|e: Entry| e@)
}

/// A listing in listing order.
pub open spec fn sorted_listing(s: Seq<EntryView>) -> bool {
    sorted_by(s, entry_leq())
}

/// The one sorted arrangement of the given entries.
pub open spec fn sort_spec(s: Seq<EntryView>) -> Seq<EntryView> {
    s.sort_by(entry_leq())
}

/// What `sort_spec` yields: a sorted rearrangement of its input.
pub proof fn lemma_sort_spec_ensures(s: Seq<EntryView>)
    ensures
        sorted_listing(sort_spec(s)),
        sort_spec(s).to_multiset() == s.to_multiset(),
        sort_spec(s).len() == s.len(),
    {
    lemma_entry_order_total();
    s.lemma_sort_by_ensures(entry_leq());
    s.to_multiset_ensures();
    sort_spec(s).to_multiset_ensures();
    assert(sort_spec(s).to_multiset().len() == s.to_multiset().len());
}

/// Two sorted listings of the same entries are the same sequence, however
/// the raw entries arrived: listing a directory is deterministic.
pub proof fn lemma_listing_deterministic(a: Seq<EntryView>, b: Seq<EntryView>)
    requires
        sorted_listing(a),
        sorted_listing(b),
        a.to_multiset() == b.to_multiset(),
    ensures
        a == b,
{
    lemma_entry_order_total();
    lemma_sorted_unique(a, b, entry_leq());
    assert(a =~= b);
}

/// A sorted rearrangement is exactly `sort_spec` of the input.
pub proof fn lemma_sorted_is_sort_spec(raw: Seq<EntryView>, s: Seq<EntryView>)
    requires
        sorted_listing(s),
        s.to_multiset() == raw.to_multiset(),
    ensures
        s == sort_spec(raw),
{
    lemma_sort_spec_ensures(raw);
    lemma_listing_deterministic(s, sort_spec(raw));
}

/// Decides the listing order on two entries.
pub fn entry_le_exec(a: &Entry, b: &Entry) -> (r: bool)
    ensures
        r == entry_le(a@, b@),
{
    let a_dir = a.is_dir();
    let b_dir = b.is_dir();
    if a_dir == b_dir {
        bytes_le(&a.name, &b.name)
    } else {
        a_dir
    }
}

/// Sorts raw directory entries into listing order.
pub fn sort_entries(v: Vec<Entry>) -> (r: Vec<Entry>)
    ensures
        views(r@) == sort_spec(views(v@)),
        sorted_listing(views(r@)),
        views(r@).to_multiset() == views(v@).to_multiset(),
{
    let n: usize = v.len();
    let mut out: Vec<Entry> = Vec::new();
    let mut i: usize = 0;
    proof {
        views(v@).take(0).to_multiset_ensures();
        assert(views(v@).take(0) =~= Seq::<EntryView>::empty());
        assert(views(out@) =~= Seq::<EntryView>::empty());
        views(out@).to_multiset_ensures();
        assert(views(out@).to_multiset() =~= views(v@).take(0).to_multiset());
    }
    while i < n
        invariant
            n == v@.len(),
            i <= n,
            sorted_listing(views(out@)),
            views(out@).to_multiset() == views(v@).take(i as int).to_multiset(),
        decreases n - i,
    {
        let e = v[i].clone();
        assert(e@ == views(v@)[i as int]);
        insert_entry(&mut out, e);
        proof {
            let t = views(v@).take(i as int);
            t.to_multiset_ensures();
            assert(views(v@).take(i + 1) =~= t.push(views(v@)[i as int]));
        }
        i = i + 1;
    }
    proof {
        assert(views(v@).take(n as int) =~= views(v@));
        lemma_sorted_is_sort_spec(views(v@), views(out@));
    }
    out
}

/// Inserts one entry into a listing already in listing order, keeping it
/// sorted.
fn insert_entry(out: &mut Vec<Entry>, e: Entry)
    requires
        sorted_listing(views(old(out)@)),
    ensures
        sorted_listing(views(final(out)@)),
        views(final(out)@).to_multiset() == views(old(out)@).to_multiset().insert(e@),
{
    let len: usize = out.len();
    let mut p: usize = 0;
    while p < len && !entry_le_exec(&e, &out[p])
        invariant
            len == out@.len(),
            p <= len,
            forall|k: int| 0 <= k < p ==> !entry_le(e@, #[trigger] views(out@)[k]),
        decreases len - p,
    {
        p = p + 1;
    }
    let ghost pre = views(out@);
    out.insert(p, e);
    proof {
        lemma_entry_order_total();
        let leq = entry_leq();
        let now = views(out@);
        assert(now =~= pre.take(p as int) + seq![e@] + pre.skip(p as int));
        // Sortedness of the spliced sequence.
        assert forall|x: int, y: int| 0 <= x < y < now.len() implies leq(now[x], now[y]) by {
            let pi = p as int;
            if x < pi {
                assert(now[x] == pre[x]);
                assert(!leq(e@, pre[x]));
                assert(leq(pre[x], e@) || leq(e@, pre[x]));
            }
            if y > pi {
                assert(now[y] == pre[y - 1]);
            }
            if x == pi && y > pi {
                assert(leq(e@, pre[pi]));
                if y - 1 > pi {
                    assert(leq(pre[pi], pre[y - 1]));
                }
            }
            if x < pi && y > pi {
                assert(leq(pre[x], pre[y - 1]));
            }
        }
        // The contents grew by exactly the new element.
        let a = pre.take(p as int);
        let b = pre.skip(p as int);
        lemma_multiset_commutative(a + seq![e@], b);
        lemma_multiset_commutative(a, seq![e@]);
        lemma_multiset_commutative(a, b);
        assert(a + b =~= pre);
        seq![e@].to_multiset_ensures();
        assert(seq![e@] =~= Seq::<EntryView>::empty().push(e@));
        Seq::<EntryView>::empty().to_multiset_ensures();
        assert(now.to_multiset() =~= pre.to_multiset().insert(e@));
    }
}

} // verus!
