use vstd::prelude::*;

use crate::types::OutMsg;

verus! {

/// The batch-position key under which an outbound call is dispatched.
pub open spec fn out_order(m: OutMsg) -> u64 {
    match m {
        OutMsg::Transfer { .. } => 0u64,
        OutMsg::ExecutePollMsgs { .. } => 0u64,
        OutMsg::Execute { order, .. } => order,
        OutMsg::Migrate { order, .. } => order,
    }
}

/// Non-decreasing by batch-position key.
pub open spec fn sorted_by_order(s: Seq<OutMsg>) -> bool {
    forall|i: int, j: int| 0 <= i < j < s.len() ==> out_order(s[i]) <= out_order(s[j])
}

/// Inserts behind every element with the same or a smaller key, so equal
/// keys keep their insertion order.
pub open spec fn stable_insert_by_order(t: Seq<OutMsg>, x: OutMsg) -> Seq<OutMsg>
    decreases t.len(),
{
    if t.len() == 0 {
        seq![x]
    } else if out_order(t.last()) <= out_order(x) {
        t.push(x)
    } else {
        stable_insert_by_order(t.drop_last(), x).push(t.last())
    }
}

/// Insertion sort by batch-position key: ties stay in their original
/// relative order.
pub open spec fn stable_sort_by_order(s: Seq<OutMsg>) -> Seq<OutMsg>
    decreases s.len(),
{
    if s.len() == 0 {
        Seq::empty()
    } else {
        stable_insert_by_order(stable_sort_by_order(s.drop_last()), s.last())
    }
}

pub proof fn lemma_stable_insert_len(t: Seq<OutMsg>, x: OutMsg)
    ensures
        stable_insert_by_order(t, x).len() == t.len() + 1,
    decreases t.len(),
{
    if t.len() > 0 && !(out_order(t.last()) <= out_order(x)) {
        lemma_stable_insert_len(t.drop_last(), x);
    }
}

/// A stable insertion at the position an ordered scan from the back finds.
pub proof fn lemma_stable_insert_at(t: Seq<OutMsg>, x: OutMsg, p: int)
    requires
        sorted_by_order(t),
        0 <= p <= t.len(),
        forall|j: int| 0 <= j < p ==> out_order(t[j]) <= out_order(x),
        forall|j: int| p <= j < t.len() ==> out_order(t[j]) > out_order(x),
    ensures
        stable_insert_by_order(t, x) == t.insert(p, x),
        sorted_by_order(t.insert(p, x)),
    decreases t.len(),
{
    let r = t.insert(p, x);
    assert forall|i: int, j: int| 0 <= i < j < r.len() implies out_order(r[i]) <= out_order(
        r[j],
    ) by {
        if i < p && j < p {
            assert(r[i] == t[i] && r[j] == t[j]);
        } else if i < p && j == p {
            assert(r[i] == t[i] && r[j] == x);
        } else if i < p && j > p {
            assert(r[i] == t[i] && r[j] == t[j - 1]);
        } else if i == p && j > p {
            assert(r[i] == x && r[j] == t[j - 1]);
        } else if i > p && j > p {
            assert(r[i] == t[i - 1] && r[j] == t[j - 1]);
        }
    }
    if t.len() == 0 {
        assert(stable_insert_by_order(t, x) =~= t.insert(0, x));
    } else if out_order(t.last()) <= out_order(x) {
        assert(p == t.len());
        assert(t.push(x) =~= t.insert(p, x));
    } else {
        assert(p < t.len());
        assert forall|j: int| 0 <= j < p implies out_order(t.drop_last()[j]) <= out_order(x) by {
            assert(t.drop_last()[j] == t[j]);
        }
        assert forall|j: int| p <= j < t.drop_last().len() implies out_order(t.drop_last()[j])
            > out_order(x) by {
            assert(t.drop_last()[j] == t[j]);
        }
        lemma_stable_insert_at(t.drop_last(), x, p);
        assert(stable_insert_by_order(t, x) == t.drop_last().insert(p, x).push(t.last()));
        assert(t.drop_last().insert(p, x).push(t.last()) =~= t.insert(p, x));
    }
}

/// Reads the batch-position key.
pub fn out_order_exec(m: &OutMsg) -> (r: u64)
    ensures
        r == out_order(*m),
{
    match m {
        OutMsg::Transfer { .. } => 0u64,
        OutMsg::ExecutePollMsgs { .. } => 0u64,
        OutMsg::Execute { order, .. } => *order,
        OutMsg::Migrate { order, .. } => *order,
    }
}

fn stable_insert_exec(t: &mut Vec<OutMsg>, x: OutMsg)
    requires
        sorted_by_order(old(t)@),
    ensures
        final(t)@ == stable_insert_by_order(old(t)@, x),
        sorted_by_order(final(t)@),
{
    let ghost t0 = t@;
    let xo = out_order_exec(&x);
    let mut p: usize = t.len();
    while p > 0 && out_order_exec(&t[p - 1]) > xo
        invariant
            t@ == t0,
            sorted_by_order(t0),
            xo == out_order(x),
            p <= t0.len(),
            forall|j: int| p <= j < t0.len() ==> out_order(t0[j]) > out_order(x),
        decreases p,
    {
        p = p - 1;
    }
    proof {
        assert forall|j: int| 0 <= j < p implies out_order(t0[j]) <= out_order(x) by {
            assert(out_order(t0[j]) <= out_order(t0[p - 1]));
        }
        lemma_stable_insert_at(t0, x, p as int);
    }
    t.insert(p, x);
}

/// Sorts a batch by its position keys; equal keys keep the order in which
/// the batch listed them.
pub fn sort_batch(input: Vec<OutMsg>) -> (r: Vec<OutMsg>)
    ensures
        r@ == stable_sort_by_order(input@),
        sorted_by_order(r@),
{
    let ghost orig = input@;
    let mut src = input;
    let mut r: Vec<OutMsg> = Vec::new();
    proof {
        assert(orig.take(0) =~= Seq::<OutMsg>::empty());
        assert(orig.skip(0) =~= orig);
    }
    while src.len() > 0
        invariant
            src@ == orig.skip(orig.len() - src@.len()),
            src@.len() <= orig.len(),
            r@ == stable_sort_by_order(orig.take(orig.len() - src@.len())),
            sorted_by_order(r@),
        decreases src@.len(),
    {
        let ghost i = orig.len() - src@.len();
        let x = src.remove(0);
        proof {
            assert(x == orig[i]);
            assert(src@ =~= orig.skip(i + 1));
            assert(orig.take(i + 1).drop_last() =~= orig.take(i));
            assert(orig.take(i + 1).last() == orig[i]);
        }
        stable_insert_exec(&mut r, x);
    }
    proof {
        assert(orig.take(orig.len() as int) =~= orig);
    }
    r
}

/// The sorted output of a stable sort is non-decreasing by key, whatever
/// the insertion sequence was.
pub proof fn lemma_stable_sort_sorted(s: Seq<OutMsg>)
    ensures
        sorted_by_order(stable_sort_by_order(s)),
        stable_sort_by_order(s).len() == s.len(),
    decreases s.len(),
{
    if s.len() > 0 {
        lemma_stable_sort_sorted(s.drop_last());
        let t = stable_sort_by_order(s.drop_last());
        let x = s.last();
        lemma_stable_insert_len(t, x);
        lemma_stable_insert_sorted(t, x);
    }
}

proof fn lemma_stable_insert_sorted(t: Seq<OutMsg>, x: OutMsg)
    requires
        sorted_by_order(t),
    ensures
        sorted_by_order(stable_insert_by_order(t, x)),
    decreases t.len(),
{
    if t.len() == 0 {
    } else if out_order(t.last()) <= out_order(x) {
        let r = t.push(x);
        assert forall|i: int, j: int| 0 <= i < j < r.len() implies out_order(r[i]) <= out_order(
            r[j],
        ) by {
            if j < t.len() {
                assert(r[i] == t[i] && r[j] == t[j]);
            } else {
                assert(r[j] == x);
                if i < t.len() - 1 {
                    assert(out_order(t[i]) <= out_order(t[t.len() - 1]));
                }
            }
        }
    } else {
        let dl = t.drop_last();
        lemma_stable_insert_sorted(dl, x);
        lemma_stable_insert_len(dl, x);
        let q = stable_insert_by_order(dl, x);
        let r = q.push(t.last());
        // everything in the inserted front is at most the old last element
        assert forall|i: int, j: int| 0 <= i < j < r.len() implies out_order(r[i]) <= out_order(
            r[j],
        ) by {
            if j == r.len() - 1 {
                assert(r[j] == t.last());
                assert(r[i] == q[i]);
                lemma_stable_insert_members(dl, x, i);
            } else {
                assert(r[i] == q[i] && r[j] == q[j]);
            }
        }
    }
}

/// Every element of a stable insertion is the inserted element or one of
/// the old ones.
proof fn lemma_stable_insert_members(t: Seq<OutMsg>, x: OutMsg, i: int)
    requires
        0 <= i < stable_insert_by_order(t, x).len(),
    ensures
        stable_insert_by_order(t, x)[i] == x || t.contains(stable_insert_by_order(t, x)[i]),
    decreases t.len(),
{
    lemma_stable_insert_len(t, x);
    if t.len() == 0 {
    } else if out_order(t.last()) <= out_order(x) {
        if i < t.len() {
            assert(t[i] == stable_insert_by_order(t, x)[i]);
        }
    } else {
        let q = stable_insert_by_order(t.drop_last(), x);
        lemma_stable_insert_len(t.drop_last(), x);
        if i < q.len() {
            lemma_stable_insert_members(t.drop_last(), x, i);
            if t.drop_last().contains(q[i]) {
                let w = choose|w: int| 0 <= w < t.drop_last().len() && t.drop_last()[w] == q[i];
                assert(t[w] == q[i]);
            }
        } else {
            assert(stable_insert_by_order(t, x)[i] == t.last());
            assert(t[t.len() - 1] == t.last());
        }
    }
}

/// Every element of the sorted batch is an element of the input.
pub proof fn lemma_stable_sort_members(s: Seq<OutMsg>)
    ensures
        forall|i: int|
            0 <= i < stable_sort_by_order(s).len() ==> s.contains(
                #[trigger] stable_sort_by_order(s)[i],
            ),
    decreases s.len(),
{
    if s.len() > 0 {
        lemma_stable_sort_members(s.drop_last());
        let t = stable_sort_by_order(s.drop_last());
        let x = s.last();
        assert forall|i: int|
            0 <= i < stable_sort_by_order(s).len() implies s.contains(
            #[trigger] stable_sort_by_order(s)[i],
        ) by {
            lemma_stable_insert_members(t, x, i);
            let e = stable_sort_by_order(s)[i];
            if e == x {
                assert(s[s.len() - 1] == e);
            } else {
                assert(t.contains(e));
                let w = choose|w: int| 0 <= w < t.len() && t[w] == e;
                assert(s.drop_last().contains(t[w]));
                let v = choose|v: int| 0 <= v < s.drop_last().len() && s.drop_last()[v] == e;
                assert(s[v] == e);
            }
        }
    }
}

// ---------------------------------------------------------------------------
// Batch items at the level of their views, to pin the dispatched batch
// down exactly: (position key, target, payload, upgrade code id).
// ---------------------------------------------------------------------------
/// An outbound call reduced to plain values.
pub open spec fn out_key(m: OutMsg) -> (u64, Seq<char>, Seq<u8>, Option<u64>) {
    match m {
        OutMsg::Transfer { token, recipient, amount } => (
            0u64,
            recipient@,
            Seq::empty(),
            None::<u64>,
        ),
        OutMsg::ExecutePollMsgs { poll_id } => (0u64, Seq::empty(), Seq::empty(), None::<u64>),
        OutMsg::Execute { order, contract, msg } => (order, contract@, msg@, None::<u64>),
        OutMsg::Migrate { order, contract, new_code_id, msg } => (
            order,
            contract@,
            msg@,
            Some(new_code_id),
        ),
    }
}

/// The whole batch reduced to plain values.
pub open spec fn out_keys(s: Seq<OutMsg>) -> Seq<(u64, Seq<char>, Seq<u8>, Option<u64>)>
    decreases s.len(),
{
    if s.len() == 0 {
        Seq::empty()
    } else {
        out_keys(s.drop_last()).push(out_key(s.last()))
    }
}

pub open spec fn stable_insert_keys(
    t: Seq<(u64, Seq<char>, Seq<u8>, Option<u64>)>,
    x: (u64, Seq<char>, Seq<u8>, Option<u64>),
) -> Seq<(u64, Seq<char>, Seq<u8>, Option<u64>)>
    decreases t.len(),
{
    if t.len() == 0 {
        seq![x]
    } else if t.last().0 <= x.0 {
        t.push(x)
    } else {
        stable_insert_keys(t.drop_last(), x).push(t.last())
    }
}

/// The stable sort, over reduced batch items.
pub open spec fn stable_sort_keys(s: Seq<(u64, Seq<char>, Seq<u8>, Option<u64>)>) -> Seq<
    (u64, Seq<char>, Seq<u8>, Option<u64>),
>
    decreases s.len(),
{
    if s.len() == 0 {
        Seq::empty()
    } else {
        stable_insert_keys(stable_sort_keys(s.drop_last()), s.last())
    }
}

pub proof fn lemma_out_keys_index(s: Seq<OutMsg>)
    ensures
        out_keys(s).len() == s.len(),
        forall|i: int| 0 <= i < s.len() ==> out_keys(s)[i] == out_key(s[i]),
    decreases s.len(),
{
    if s.len() > 0 {
        lemma_out_keys_index(s.drop_last());
        assert forall|i: int| 0 <= i < s.len() implies out_keys(s)[i] == out_key(s[i]) by {
            if i < s.len() - 1 {
                assert(out_keys(s)[i] == out_keys(s.drop_last())[i]);
                assert(s.drop_last()[i] == s[i]);
            }
        }
    }
}

proof fn lemma_out_keys_insert(t: Seq<OutMsg>, x: OutMsg)
    ensures
        out_keys(stable_insert_by_order(t, x)) == stable_insert_keys(out_keys(t), out_key(x)),
    decreases t.len(),
{
    lemma_out_keys_index(t);
    if t.len() == 0 {
        assert(stable_insert_by_order(t, x) =~= seq![x]);
        assert(seq![x].drop_last() =~= Seq::<OutMsg>::empty());
        assert(seq![x].last() == x);
        assert(out_keys(Seq::<OutMsg>::empty()) == Seq::<(u64, Seq<char>, Seq<u8>, Option<u64>)>::empty());
        assert(out_keys(seq![x]) == out_keys(seq![x].drop_last()).push(out_key(seq![x].last())));
        assert(out_keys(seq![x]) =~= seq![out_key(x)]);
        assert(out_keys(t) =~= Seq::<(u64, Seq<char>, Seq<u8>, Option<u64>)>::empty());
        assert(stable_insert_keys(out_keys(t), out_key(x)) =~= seq![out_key(x)]);
    } else {
        assert(out_keys(t).last() == out_key(t.last()));
        assert(out_key(t.last()).0 == out_order(t.last()) && out_key(x).0 == out_order(x));
        if out_order(t.last()) <= out_order(x) {
            assert(t.push(x).drop_last() =~= t);
            assert(out_keys(t.push(x)) == out_keys(t).push(out_key(x)));
        } else {
            lemma_out_keys_insert(t.drop_last(), x);
            lemma_out_keys_index(t.drop_last());
            assert(out_keys(t).drop_last() =~= out_keys(t.drop_last()));
            let q = stable_insert_by_order(t.drop_last(), x);
            assert(q.push(t.last()).drop_last() =~= q);
            assert(out_keys(q.push(t.last())) == out_keys(q).push(out_key(t.last())));
        }
    }
}

/// Reducing a batch to plain values commutes with sorting it.
pub proof fn lemma_out_keys_sort(s: Seq<OutMsg>)
    ensures
        out_keys(stable_sort_by_order(s)) == stable_sort_keys(out_keys(s)),
    decreases s.len(),
{
    if s.len() == 0 {
        assert(out_keys(stable_sort_by_order(s)) =~= stable_sort_keys(out_keys(s)));
    } else {
        lemma_out_keys_sort(s.drop_last());
        lemma_out_keys_index(s);
        lemma_out_keys_index(s.drop_last());
        assert(out_keys(s).drop_last() =~= out_keys(s.drop_last()));
        assert(out_keys(s).last() == out_key(s.last()));
        lemma_out_keys_insert(stable_sort_by_order(s.drop_last()), s.last());
    }
}

} // verus!
