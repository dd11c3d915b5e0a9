//! Sorting of the snapshot list. The list is always kept sorted by one of
//! five keys, ascending or descending, with a *stable* order: records that
//! compare equal on the key keep their previous relative order, in both
//! directions. The executable sort is specified exactly by `sort_ordered`,
//! an insertion sort at the specification level, and the stability and
//! double-toggle laws are proved of that specification.

use vstd::prelude::*;
use crate::snapshot::Snapshot;
use crate::text::{lex_leq, lemma_lex_total, lemma_lex_trans};
use vstd::slice::slice_index_get;

verus! {

/// The field the snapshot list is ordered by.
#[derive(Clone, Copy, PartialEq, Eq, Structural, Debug)]
pub enum SortKey {
    Number,
    Type,
    Date,
    User,
    UsedSpace,
}

/// The used-space byte count a record is ordered by: an absent count is
/// treated as zero.
pub open spec fn space_or_zero(s: Snapshot) -> u64 {
    match s.used_space {
        Some(b) => b,
        None => 0u64,
    }
}

/// `a` is less than or equal to `b` on the chosen key.
pub open spec fn key_leq(a: Snapshot, b: Snapshot, k: SortKey) -> bool {
    match k {
        SortKey::Number => a.number <= b.number,
        SortKey::Type => lex_leq(a.snapshot_type@, b.snapshot_type@),
        SortKey::Date => lex_leq(a.date@, b.date@),
        SortKey::User => lex_leq(a.user@, b.user@),
        SortKey::UsedSpace => space_or_zero(a) <= space_or_zero(b),
    }
}

/// `a` sorts no later than `b` under key `k` in the given direction.
pub open spec fn snap_leq(a: Snapshot, b: Snapshot, k: SortKey, asc: bool) -> bool {
    if asc {
        key_leq(a, b, k)
    } else {
        key_leq(b, a, k)
    }
}

/// `a` and `b` compare equal on the key (in either direction).
pub open spec fn key_equiv(a: Snapshot, b: Snapshot, k: SortKey) -> bool {
    key_leq(a, b, k) && key_leq(b, a, k)
}

/// The class of records comparing equal to `p` on key `k`; stability is
/// stated as preservation of the subsequence of each such class.
pub open spec fn key_class(p: Snapshot, k: SortKey) -> spec_fn(Snapshot) -> bool {
    |e: Snapshot| key_equiv(e, p, k)
}

/// The key order is total.
pub proof fn lemma_key_total(a: Snapshot, b: Snapshot, k: SortKey)
    ensures
        key_leq(a, b, k) || key_leq(b, a, k),
{
    match k {
        SortKey::Type => lemma_lex_total(a.snapshot_type@, b.snapshot_type@),
        SortKey::Date => lemma_lex_total(a.date@, b.date@),
        SortKey::User => lemma_lex_total(a.user@, b.user@),
        _ => (),
    }
}

/// The key order is transitive.
pub proof fn lemma_key_trans(a: Snapshot, b: Snapshot, c: Snapshot, k: SortKey)
    requires
        key_leq(a, b, k),
        key_leq(b, c, k),
    ensures
        key_leq(a, c, k),
{
    match k {
        SortKey::Type => lemma_lex_trans(a.snapshot_type@, b.snapshot_type@, c.snapshot_type@),
        SortKey::Date => lemma_lex_trans(a.date@, b.date@, c.date@),
        SortKey::User => lemma_lex_trans(a.user@, b.user@, c.user@),
        _ => (),
    }
}

proof fn lemma_snap_total(a: Snapshot, b: Snapshot, k: SortKey, asc: bool)
    ensures
        snap_leq(a, b, k, asc) || snap_leq(b, a, k, asc),
{
    lemma_key_total(a, b, k);
}

proof fn lemma_snap_trans(a: Snapshot, b: Snapshot, c: Snapshot, k: SortKey, asc: bool)
    requires
        snap_leq(a, b, k, asc),
        snap_leq(b, c, k, asc),
    ensures
        snap_leq(a, c, k, asc),
{
    if asc {
        lemma_key_trans(a, b, c, k);
    } else {
        lemma_key_trans(c, b, a, k);
    }
}

/// The sequence is ordered by key `k` in the given direction.
pub open spec fn sorted_by_key(s: Seq<Snapshot>, k: SortKey, asc: bool) -> bool {
    forall|i: int, j: int| 0 <= i < j < s.len() ==> snap_leq(#[trigger] s[i], #[trigger] s[j], k, asc)
}

/// `x` placed into `s` before the first element that sorts strictly after
/// it: the position a stable insertion sort gives it, behind every element
/// it compares equal to.
pub open spec fn insert_ordered(s: Seq<Snapshot>, x: Snapshot, k: SortKey, asc: bool) -> Seq<
    Snapshot,
>
    decreases s.len(),
{
    if s.len() == 0 {
        seq![x]
    } else if !snap_leq(s[0], x, k, asc) {
        seq![x] + s
    } else {
        seq![s[0]] + insert_ordered(s.drop_first(), x, k, asc)
    }
}

/// The stable sort of `s` by key `k` in the given direction, as an
/// insertion sort over the elements from first to last.
pub open spec fn sort_ordered(s: Seq<Snapshot>, k: SortKey, asc: bool) -> Seq<Snapshot>
    decreases s.len(),
{
    if s.len() == 0 {
        s
    } else {
        insert_ordered(sort_ordered(s.drop_last(), k, asc), s.last(), k, asc)
    }
}

proof fn lemma_insert_len(s: Seq<Snapshot>, x: Snapshot, k: SortKey, asc: bool)
    ensures
        insert_ordered(s, x, k, asc).len() == s.len() + 1,
    decreases s.len(),
{
    if s.len() == 0 {
    } else if !snap_leq(s[0], x, k, asc) {
    } else {
        lemma_insert_len(s.drop_first(), x, k, asc);
    }
}

pub proof fn lemma_sort_len(s: Seq<Snapshot>, k: SortKey, asc: bool)
    ensures
        sort_ordered(s, k, asc).len() == s.len(),
    decreases s.len(),
{
    if s.len() > 0 {
        lemma_sort_len(s.drop_last(), k, asc);
        lemma_insert_len(sort_ordered(s.drop_last(), k, asc), s.last(), k, asc);
    }
}

/// Every element of the insertion result is `x` or an element of `s`.
proof fn lemma_insert_elems(s: Seq<Snapshot>, x: Snapshot, k: SortKey, asc: bool)
    ensures
        forall|j: int|
            0 <= j < insert_ordered(s, x, k, asc).len() ==> (#[trigger] insert_ordered(
                s,
                x,
                k,
                asc,
            )[j] == x || s.contains(insert_ordered(s, x, k, asc)[j])),
    decreases s.len(),
{
    let out = insert_ordered(s, x, k, asc);
    if s.len() == 0 {
    } else if !snap_leq(s[0], x, k, asc) {
        assert forall|j: int| 0 <= j < out.len() implies (out[j] == x || s.contains(out[j])) by {
            if j > 0 {
                assert(out[j] == s[j - 1]);
            }
        }
    } else {
        lemma_insert_elems(s.drop_first(), x, k, asc);
        let rest = insert_ordered(s.drop_first(), x, k, asc);
        assert forall|j: int| 0 <= j < out.len() implies (out[j] == x || s.contains(out[j])) by {
            if j > 0 {
                assert(out[j] == rest[j - 1]);
                if rest[j - 1] != x {
                    let m = choose|m: int|
                        0 <= m < s.drop_first().len() && s.drop_first()[m] == rest[j - 1];
                    assert(s[m + 1] == rest[j - 1]);
                }
            } else {
                assert(out[0] == s[0]);
            }
        }
    }
}

/// Inserting into an ordered sequence keeps it ordered.
proof fn lemma_insert_sorted(s: Seq<Snapshot>, x: Snapshot, k: SortKey, asc: bool)
    requires
        sorted_by_key(s, k, asc),
    ensures
        sorted_by_key(insert_ordered(s, x, k, asc), k, asc),
    decreases s.len(),
{
    let out = insert_ordered(s, x, k, asc);
    if s.len() == 0 {
    } else if !snap_leq(s[0], x, k, asc) {
        lemma_snap_total(s[0], x, k, asc);
        assert forall|i: int, j: int| 0 <= i < j < out.len() implies snap_leq(
            out[i],
            out[j],
            k,
            asc,
        ) by {
            if i == 0 {
                assert(out[j] == s[j - 1]);
                if j - 1 > 0 {
                    lemma_snap_trans(x, s[0], s[j - 1], k, asc);
                }
            } else {
                assert(out[i] == s[i - 1] && out[j] == s[j - 1]);
            }
        }
    } else {
        let rest = s.drop_first();
        assert(sorted_by_key(rest, k, asc)) by {
            assert forall|i: int, j: int| 0 <= i < j < rest.len() implies snap_leq(
                rest[i],
                rest[j],
                k,
                asc,
            ) by {
                assert(rest[i] == s[i + 1] && rest[j] == s[j + 1]);
            }
        }
        lemma_insert_sorted(rest, x, k, asc);
        lemma_insert_elems(rest, x, k, asc);
        let inner = insert_ordered(rest, x, k, asc);
        assert forall|i: int, j: int| 0 <= i < j < out.len() implies snap_leq(
            out[i],
            out[j],
            k,
            asc,
        ) by {
            if i == 0 {
                assert(out[j] == inner[j - 1]);
                if inner[j - 1] == x {
                } else {
                    let m = choose|m: int| 0 <= m < rest.len() && rest[m] == inner[j - 1];
                    assert(rest[m] == s[m + 1]);
                    assert(snap_leq(s[0], s[m + 1], k, asc));
                }
            } else {
                assert(out[i] == inner[i - 1] && out[j] == inner[j - 1]);
            }
        }
    }
}

/// The sort produces an ordered sequence.
pub proof fn lemma_sort_sorted(s: Seq<Snapshot>, k: SortKey, asc: bool)
    ensures
        sorted_by_key(sort_ordered(s, k, asc), k, asc),
    decreases s.len(),
{
    if s.len() > 0 {
        lemma_sort_sorted(s.drop_last(), k, asc);
        lemma_insert_sorted(sort_ordered(s.drop_last(), k, asc), s.last(), k, asc);
    }
}

/// Where the first `j` elements of `s` sort no later than `x` and the
/// element at `j` (if any) sorts strictly after it, the insertion puts `x`
/// exactly at position `j`.
proof fn lemma_insert_at(s: Seq<Snapshot>, x: Snapshot, k: SortKey, asc: bool, j: int)
    requires
        0 <= j <= s.len(),
        forall|m: int| 0 <= m < j ==> snap_leq(#[trigger] s[m], x, k, asc),
        j < s.len() ==> !snap_leq(s[j], x, k, asc),
    ensures
        insert_ordered(s, x, k, asc) == s.take(j) + seq![x] + s.skip(j),
    decreases s.len(),
{
    if s.len() == 0 {
        assert(insert_ordered(s, x, k, asc) =~= s.take(0) + seq![x] + s.skip(0));
    } else if j == 0 {
        assert(!snap_leq(s[0], x, k, asc));
        assert(insert_ordered(s, x, k, asc) =~= s.take(0) + seq![x] + s.skip(0));
    } else {
        assert(snap_leq(s[0], x, k, asc));
        let rest = s.drop_first();
        assert(forall|m: int| 0 <= m < j - 1 ==> snap_leq(#[trigger] rest[m], x, k, asc)) by {
            assert forall|m: int| 0 <= m < j - 1 implies snap_leq(#[trigger] rest[m], x, k, asc) by {
                assert(rest[m] == s[m + 1]);
            }
        }
        assert(j - 1 < rest.len() ==> !snap_leq(rest[j - 1], x, k, asc));
        lemma_insert_at(rest, x, k, asc, j - 1);
        assert(insert_ordered(s, x, k, asc) =~= s.take(j) + seq![x] + s.skip(j));
    }
}

proof fn lemma_filter_single(x: Snapshot, pred: spec_fn(Snapshot) -> bool)
    ensures
        seq![x].filter(pred) == if pred(x) {
            seq![x]
        } else {
            Seq::<Snapshot>::empty()
        },
{
    reveal(Seq::filter);
    let e = Seq::<Snapshot>::empty();
    assert(e.filter(pred) == e);
    assert(seq![x].drop_last() =~= e);
    assert(seq![x].last() == x);
    if pred(x) {
        assert(seq![x].filter(pred) =~= seq![x]);
    } else {
        assert(seq![x].filter(pred) =~= e);
    }
}

/// Head decomposition of `filter` (which vstd defines from the last
/// element down).
proof fn lemma_filter_head(s: Seq<Snapshot>, pred: spec_fn(Snapshot) -> bool)
    requires
        s.len() > 0,
    ensures
        s.filter(pred) == if pred(s[0]) {
            seq![s[0]] + s.drop_first().filter(pred)
        } else {
            s.drop_first().filter(pred)
        },
{
    assert(s =~= seq![s[0]] + s.drop_first());
    Seq::filter_distributes_over_add(seq![s[0]], s.drop_first(), pred);
    lemma_filter_single(s[0], pred);
    if !pred(s[0]) {
        assert(Seq::<Snapshot>::empty() + s.drop_first().filter(pred) =~= s.drop_first().filter(
            pred,
        ));
    }
}

/// Elements of a filtered sequence come from the sequence.
proof fn lemma_filter_subset(s: Seq<Snapshot>, pred: spec_fn(Snapshot) -> bool)
    ensures
        forall|i: int| 0 <= i < s.filter(pred).len() ==> s.contains(#[trigger] s.filter(pred)[i]),
    decreases s.len(),
{
    reveal(Seq::filter);
    if s.len() > 0 {
        lemma_filter_subset(s.drop_last(), pred);
        let out = s.filter(pred);
        assert forall|i: int| 0 <= i < out.len() implies s.contains(#[trigger] out[i]) by {
            if pred(s.last()) && i == out.len() - 1 {
                assert(s[s.len() - 1] == out[i]);
            } else {
                assert(out[i] == s.drop_last().filter(pred)[i]);
                let m = choose|m: int|
                    0 <= m < s.drop_last().len() && s.drop_last()[m] == out[i];
                assert(s[m] == out[i]);
            }
        }
    }
}

proof fn lemma_sorted_drop_first(s: Seq<Snapshot>, k: SortKey, asc: bool)
    requires
        sorted_by_key(s, k, asc),
        s.len() > 0,
    ensures
        sorted_by_key(s.drop_first(), k, asc),
{
    let rest = s.drop_first();
    assert forall|i: int, j: int| 0 <= i < j < rest.len() implies snap_leq(
        rest[i],
        rest[j],
        k,
        asc,
    ) by {
        assert(rest[i] == s[i + 1] && rest[j] == s[j + 1]);
    }
}

/// Inserting `x` into an ordered sequence appends it to the subsequence of
/// its own key class and leaves every other class untouched.
proof fn lemma_insert_filter(s: Seq<Snapshot>, x: Snapshot, k: SortKey, asc: bool, p: Snapshot)
    requires
        sorted_by_key(s, k, asc),
    ensures
        insert_ordered(s, x, k, asc).filter(key_class(p, k)) == if key_equiv(x, p, k) {
            s.filter(key_class(p, k)).push(x)
        } else {
            s.filter(key_class(p, k))
        },
    decreases s.len(),
{
    let cls = key_class(p, k);
    let out = insert_ordered(s, x, k, asc);
    if s.len() == 0 {
        lemma_filter_single(x, cls);
        reveal(Seq::filter);
        if key_equiv(x, p, k) {
            assert(out.filter(cls) =~= s.filter(cls).push(x));
        }
    } else if !snap_leq(s[0], x, k, asc) {
        assert(out == seq![x] + s);
        Seq::filter_distributes_over_add(seq![x], s, cls);
        lemma_filter_single(x, cls);
        if key_equiv(x, p, k) {
            // no element of s shares x's class: each would sort both before
            // and after the head
            assert forall|m: int| 0 <= m < s.len() implies !cls(s[m]) by {
                if cls(s[m]) {
                    lemma_key_trans(s[m], p, x, k);
                    lemma_key_trans(x, p, s[m], k);
                    if m > 0 {
                        assert(snap_leq(s[0], s[m], k, asc));
                        lemma_snap_trans(s[0], s[m], x, k, asc);
                    } else {
                        lemma_snap_total(s[0], x, k, asc);
                    }
                }
            }
            assert(s.filter(cls) =~= Seq::<Snapshot>::empty()) by {
                if s.filter(cls).len() > 0 {
                    broadcast use vstd::seq_lib::group_filter_ensures;

                    lemma_filter_subset(s, cls);
                    let e = s.filter(cls)[0];
                    let m = choose|m: int| 0 <= m < s.len() && s[m] == e;
                    assert(cls(s[m]));
                }
            }
            assert(out.filter(cls) =~= s.filter(cls).push(x));
        } else {
            assert(out.filter(cls) =~= s.filter(cls));
        }
    } else {
        let rest = s.drop_first();
        lemma_sorted_drop_first(s, k, asc);
        lemma_insert_filter(rest, x, k, asc, p);
        let inner = insert_ordered(rest, x, k, asc);
        assert(out == seq![s[0]] + inner);
        Seq::filter_distributes_over_add(seq![s[0]], inner, cls);
        lemma_filter_single(s[0], cls);
        lemma_filter_head(s, cls);
        if key_equiv(x, p, k) {
            if cls(s[0]) {
                assert(out.filter(cls) =~= (seq![s[0]] + rest.filter(cls)).push(x));
                assert(s.filter(cls) =~= seq![s[0]] + rest.filter(cls));
            } else {
                assert(out.filter(cls) =~= rest.filter(cls).push(x));
            }
        } else {
            if cls(s[0]) {
                assert(out.filter(cls) =~= seq![s[0]] + rest.filter(cls));
            } else {
                assert(out.filter(cls) =~= rest.filter(cls));
            }
        }
    }
}

/// Sorting is stable: it preserves, for every key value, the subsequence
/// of records comparing equal to it, so records tied on the key keep
/// their previous relative order — in either direction.
pub proof fn lemma_sort_stable(s: Seq<Snapshot>, k: SortKey, asc: bool, p: Snapshot)
    ensures
        sort_ordered(s, k, asc).filter(key_class(p, k)) == s.filter(key_class(p, k)),
    decreases s.len(),
{
    let cls = key_class(p, k);
    if s.len() > 0 {
        let pre = sort_ordered(s.drop_last(), k, asc);
        lemma_sort_stable(s.drop_last(), k, asc, p);
        lemma_sort_sorted(s.drop_last(), k, asc);
        lemma_insert_filter(pre, s.last(), k, asc, p);
        reveal(Seq::filter);
        if cls(s.last()) {
            assert(s.filter(cls) == s.drop_last().filter(cls).push(s.last()));
        } else {
            assert(s.filter(cls) == s.drop_last().filter(cls));
        }
    }
}

proof fn lemma_insert_append(s: Seq<Snapshot>, x: Snapshot, k: SortKey, asc: bool)
    requires
        forall|m: int| 0 <= m < s.len() ==> snap_leq(#[trigger] s[m], x, k, asc),
    ensures
        insert_ordered(s, x, k, asc) == s.push(x),
{
    lemma_insert_at(s, x, k, asc, s.len() as int);
    assert(s.take(s.len() as int) + seq![x] + s.skip(s.len() as int) =~= s.push(x));
}

/// Sorting an already ordered sequence leaves it exactly as it is.
pub proof fn lemma_sorted_sort_id(s: Seq<Snapshot>, k: SortKey, asc: bool)
    requires
        sorted_by_key(s, k, asc),
    ensures
        sort_ordered(s, k, asc) == s,
    decreases s.len(),
{
    if s.len() > 0 {
        let pre = s.drop_last();
        assert(sorted_by_key(pre, k, asc)) by {
            assert forall|i: int, j: int| 0 <= i < j < pre.len() implies snap_leq(
                pre[i],
                pre[j],
                k,
                asc,
            ) by {
                assert(pre[i] == s[i] && pre[j] == s[j]);
            }
        }
        lemma_sorted_sort_id(pre, k, asc);
        assert(forall|m: int| 0 <= m < pre.len() ==> snap_leq(#[trigger] pre[m], s.last(), k, asc))
            by {
            assert forall|m: int| 0 <= m < pre.len() implies snap_leq(
                pre[m],
                s.last(),
                k,
                asc,
            ) by {
                assert(pre[m] == s[m] && s.last() == s[s.len() - 1]);
            }
        }
        lemma_insert_append(pre, s.last(), k, asc);
        assert(pre.push(s.last()) =~= s);
    }
}

/// Of two ordered sequences with the same subsequence for every key class,
/// the first being non-empty, the second is non-empty too and their heads
/// are equal.
proof fn lemma_unique_heads(u: Seq<Snapshot>, w: Seq<Snapshot>, k: SortKey, asc: bool)
    requires
        sorted_by_key(u, k, asc),
        sorted_by_key(w, k, asc),
        u.len() > 0,
        forall|p: Snapshot| #[trigger] u.filter(key_class(p, k)) == w.filter(key_class(p, k)),
    ensures
        w.len() > 0,
        u[0] == w[0],
{
    let u0 = u[0];
    let cls0 = key_class(u0, k);
    lemma_key_total(u0, u0, k);
    assert(cls0(u0));
    lemma_filter_head(u, cls0);
    assert(u.filter(cls0).len() > 0);
    assert(u.filter(cls0)[0] == u0);
    assert(u.filter(cls0) == w.filter(cls0));
    if w.len() == 0 {
        assert(w.filter(cls0) == w) by {
            reveal(Seq::filter);
        }
        assert(false);
    }
    let w0 = w[0];
    let clsw = key_class(w0, k);
    lemma_key_total(w0, w0, k);
    assert(clsw(w0));
    lemma_filter_head(w, clsw);
    assert(w.filter(clsw).len() > 0);
    assert(w.filter(clsw)[0] == w0);
    assert(u.filter(clsw) == w.filter(clsw));
    // u0 occurs in w, so the head of w sorts no later than it, and
    // symmetrically: the two heads share a key class
    lemma_filter_subset(w, cls0);
    assert(w.contains(w.filter(cls0)[0]));
    assert(w.filter(cls0)[0] == u0);
    let mu = choose|m: int| 0 <= m < w.len() && w[m] == u0;
    assert(snap_leq(w0, u0, k, asc)) by {
        if mu > 0 {
            assert(snap_leq(w[0], w[mu], k, asc));
        } else {
            lemma_snap_total(w0, u0, k, asc);
        }
    }
    lemma_filter_subset(u, clsw);
    assert(u.contains(u.filter(clsw)[0]));
    assert(u.filter(clsw)[0] == w0);
    let mw = choose|m: int| 0 <= m < u.len() && u[m] == w0;
    assert(snap_leq(u0, w0, k, asc)) by {
        if mw > 0 {
            assert(snap_leq(u[0], u[mw], k, asc));
        } else {
            lemma_snap_total(u0, w0, k, asc);
        }
    }
    assert(key_equiv(u0, w0, k));
    assert(cls0(w0));
    // w0 is then the first element of w's subsequence for u0's class,
    // which is u0 itself
    lemma_filter_head(w, cls0);
    assert(w.filter(cls0)[0] == w0);
}

/// Two ordered sequences with the same subsequence for every key class are
/// equal: an ordered arrangement with given per-class subsequences is
/// unique.
proof fn lemma_sorted_unique(u: Seq<Snapshot>, w: Seq<Snapshot>, k: SortKey, asc: bool)
    requires
        sorted_by_key(u, k, asc),
        sorted_by_key(w, k, asc),
        forall|p: Snapshot| #[trigger] u.filter(key_class(p, k)) == w.filter(key_class(p, k)),
    ensures
        u == w,
    decreases u.len(),
{
    if u.len() == 0 && w.len() == 0 {
        assert(u =~= w);
    } else if u.len() == 0 {
        lemma_unique_heads(w, u, k, asc);
    } else if w.len() == 0 {
        lemma_unique_heads(u, w, k, asc);
    } else {
        lemma_unique_heads(u, w, k, asc);
        let u0 = u[0];
        let w0 = w[0];
        // the tails agree on every class once the equal heads are cancelled
        let ut = u.drop_first();
        let wt = w.drop_first();
        lemma_sorted_drop_first(u, k, asc);
        lemma_sorted_drop_first(w, k, asc);
        assert forall|p: Snapshot| #[trigger] ut.filter(key_class(p, k)) == wt.filter(
            key_class(p, k),
        ) by {
            let cls = key_class(p, k);
            lemma_filter_head(u, cls);
            lemma_filter_head(w, cls);
            if cls(u0) {
                let a = ut.filter(cls);
                let b = wt.filter(cls);
                assert(seq![u0] + a == seq![u0] + b);
                assert(a =~= b) by {
                    assert(forall|i: int|
                        0 <= i < a.len() ==> #[trigger] a[i] == (seq![u0] + a)[i + 1]);
                    assert(forall|i: int|
                        0 <= i < b.len() ==> #[trigger] b[i] == (seq![u0] + b)[i + 1]);
                }
            }
        }
        lemma_sorted_unique(ut, wt, k, asc);
        assert(u =~= seq![u0] + ut);
        assert(w =~= seq![w0] + wt);
    }
}

/// Adopting the same key twice in a row restores the order: re-sorting an
/// ordered list with the direction flipped and then flipped back returns
/// it to exactly its original order.
pub proof fn lemma_sort_toggle_restores(s: Seq<Snapshot>, k: SortKey, asc: bool)
    requires
        sorted_by_key(s, k, asc),
    ensures
        sort_ordered(sort_ordered(s, k, !asc), k, asc) == s,
{
    let s1 = sort_ordered(s, k, !asc);
    let s2 = sort_ordered(s1, k, asc);
    lemma_sort_sorted(s1, k, asc);
    assert forall|p: Snapshot| #[trigger] s2.filter(key_class(p, k)) == s.filter(
        key_class(p, k),
    ) by {
        lemma_sort_stable(s1, k, asc, p);
        lemma_sort_stable(s, k, !asc, p);
    }
    lemma_sorted_unique(s2, s, k, asc);
}

/// Decides `snap_leq` on two records.
pub fn snap_leq_exec(a: &Snapshot, b: &Snapshot, k: SortKey, asc: bool) -> (r: bool)
    ensures
        r == snap_leq(*a, *b, k, asc),
{
    if asc {
        key_leq_exec(a, b, k)
    } else {
        key_leq_exec(b, a, k)
    }
}

fn key_leq_exec(a: &Snapshot, b: &Snapshot, k: SortKey) -> (r: bool)
    ensures
        r == key_leq(*a, *b, k),
{
    match k {
        SortKey::Number => a.number <= b.number,
        SortKey::Type => crate::text::str_lex_leq(a.snapshot_type.as_str(), b.snapshot_type.as_str()),
        SortKey::Date => crate::text::str_lex_leq(a.date.as_str(), b.date.as_str()),
        SortKey::User => crate::text::str_lex_leq(a.user.as_str(), b.user.as_str()),
        SortKey::UsedSpace => {
            let sa = match a.used_space {
                Some(v) => v,
                None => 0,
            };
            let sb = match b.used_space {
                Some(v) => v,
                None => 0,
            };
            sa <= sb
        },
    }
}

/// Stable in-place sort of the snapshot list: the result is exactly the
/// stable insertion sort of the previous contents.
pub fn sort_vec_by(v: &mut Vec<Snapshot>, k: SortKey, asc: bool)
    ensures
        final(v)@ == sort_ordered(old(v)@, k, asc),
{
    let ghost orig = old(v)@;
    let mut i: usize = 0;
    while i < v.len()
        invariant
            0 <= i <= orig.len(),
            v@.len() == orig.len(),
            v@ == sort_ordered(orig.take(i as int), k, asc) + orig.skip(i as int),
        decreases orig.len() - i,
    {
        proof {
            lemma_sort_len(orig.take(i as int), k, asc);
        }
        let x = v.remove(i);
        proof {
            assert(x == orig[i as int]);
            assert(v@ =~= sort_ordered(orig.take(i as int), k, asc) + orig.skip(i as int + 1));
            assert(forall|m: int|
                0 <= m < i ==> v@[m] == sort_ordered(orig.take(i as int), k, asc)[m]);
        }
        let ghost pre = sort_ordered(orig.take(i as int), k, asc);
        let mut j: usize = 0;
        while j < i && snap_leq_exec(slice_index_get(v.as_slice(), j), &x, k, asc)
            invariant
                0 <= j <= i,
                i <= v@.len(),
                v@ == pre + orig.skip(i as int + 1),
                pre.len() == i,
                x == orig[i as int],
                forall|m: int| 0 <= m < j ==> snap_leq(#[trigger] pre[m], x, k, asc),
            decreases i - j,
        {
            j = j + 1;
        }
        proof {
            assert(j < i ==> !snap_leq(pre[j as int], x, k, asc));
            lemma_insert_at(pre, x, k, asc, j as int);
        }
        v.insert(j, x);
        proof {
            assert(orig.take(i as int + 1).drop_last() =~= orig.take(i as int));
            assert(orig.take(i as int + 1).last() == orig[i as int]);
            assert(sort_ordered(orig.take(i as int + 1), k, asc) == insert_ordered(
                pre,
                x,
                k,
                asc,
            ));
            assert(v@ =~= (pre.take(j as int) + seq![x] + pre.skip(j as int)) + orig.skip(
                i as int + 1,
            ));
            lemma_insert_len(pre, x, k, asc);
            assert(v@ =~= sort_ordered(orig.take(i as int + 1), k, asc) + orig.skip(i as int + 1));
        }
        i = i + 1;
    }
    proof {
        assert(orig.take(orig.len() as int) =~= orig);
        assert(orig.skip(orig.len() as int) =~= Seq::<Snapshot>::empty());
        assert(v@ =~= sort_ordered(orig, k, asc));
    }
}

} // verus!
