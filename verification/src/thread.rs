//! Thread reconstruction: the descendant closure of a message.
//!
//! The subtree of a root message is the root row plus every row whose
//! parent references chain back to the root — the transitive closure of the
//! is-child-of relation. Under the store invariant a parent always carries a
//! smaller id than its child and rows sit in increasing id order, so the
//! closure can be both defined and computed in one left-to-right pass: a row
//! belongs exactly when it is the root or its parent already belongs.

use vstd::prelude::*;

use crate::message::MessageModel;
use crate::message::MessageModelResponse;
use crate::store::has_msg_id;
use crate::store::msgs_wf;
use crate::store::Store;

verus! {

/// The position of the row carrying `id`, or -1 when there is none (under
/// `msgs_wf` ids are distinct, so the position is unique).
pub open spec fn idx_of(msgs: Seq<MessageModel>, id: i32) -> int
    decreases msgs.len(),
{
    if msgs.len() == 0 {
        -1
    } else if msgs.last().id == id {
        msgs.len() - 1
    } else {
        idx_of(msgs.drop_last(), id)
    }
}

/// Whether the row at position `k` belongs to the closure rooted at the
/// message with id `root`: it is the root itself, or its parent reference
/// names a row at an earlier position that belongs. Recursion descends to
/// strictly earlier positions, so the definition is well founded however the
/// rows point at each other.
pub open spec fn in_closure_idx(msgs: Seq<MessageModel>, root: i32, k: int) -> bool
    decreases k + 1,
{
    if !(0 <= k < msgs.len()) {
        false
    } else if msgs[k].id == root {
        true
    } else {
        msgs[k].parent_id matches Some(p) && ({
            let j = idx_of(msgs, p);
            0 <= j < k && in_closure_idx(msgs, root, j)
        })
    }
}

/// Whether the message carrying `id` belongs to the closure rooted at the
/// message carrying `root`.
pub open spec fn in_closure(msgs: Seq<MessageModel>, root: i32, id: i32) -> bool {
    let k = idx_of(msgs, id);
    0 <= k && in_closure_idx(msgs, root, k)
}

/// The closure members among the first `n` rows, in store order.
pub open spec fn subtree_rows_upto(msgs: Seq<MessageModel>, root: i32, n: int) -> Seq<
    MessageModel,
>
    decreases n,
{
    if n <= 0 {
        Seq::empty()
    } else {
        let rest = subtree_rows_upto(msgs, root, n - 1);
        if in_closure_idx(msgs, root, n - 1) {
            rest.push(msgs[n - 1])
        } else {
            rest
        }
    }
}

/// The full subtree of the message carrying `root`: every closure member,
/// in store order.
pub open spec fn subtree_rows(msgs: Seq<MessageModel>, root: i32) -> Seq<MessageModel> {
    subtree_rows_upto(msgs, root, msgs.len() as int)
}

/// Some response row carries the id `id`.
pub open spec fn has_resp_id(rs: Seq<MessageModelResponse>, id: i32) -> bool {
    exists|k: int| 0 <= k < rs.len() && (#[trigger] rs[k]).id == id
}

/// Looks an id up among response rows.
pub fn contains_resp_id(rows: &Vec<MessageModelResponse>, id: i32) -> (r: bool)
    ensures
        r == has_resp_id(rows@, id),
{
    let n = rows.len();
    for k in 0..n
        invariant
            n == rows@.len(),
            forall|j: int| 0 <= j < k ==> (#[trigger] rows@[j]).id != id,
    {
        if rows[k].id == id {
            return true;
        }
    }
    false
}

/// `idx_of` finds exactly the present ids: -1 for an absent id, and for a
/// present one a valid position carrying it.
pub proof fn lemma_idx_of(msgs: Seq<MessageModel>, id: i32)
    ensures
        idx_of(msgs, id) == -1 <==> !has_msg_id(msgs, id),
        has_msg_id(msgs, id) ==> 0 <= idx_of(msgs, id) < msgs.len() && msgs[idx_of(msgs, id)].id
            == id,
    decreases msgs.len(),
{
    if msgs.len() > 0 && msgs.last().id != id {
        lemma_idx_of(msgs.drop_last(), id);
        if has_msg_id(msgs, id) {
            let k = choose|k: int| 0 <= k < msgs.len() && (#[trigger] msgs[k]).id == id;
            assert(k < msgs.len() - 1);
            assert(msgs.drop_last()[k] == msgs[k]);
            assert(has_msg_id(msgs.drop_last(), id));
        }
        if has_msg_id(msgs.drop_last(), id) {
            let k = choose|k: int|
                0 <= k < msgs.drop_last().len() && (#[trigger] msgs.drop_last()[k]).id == id;
            assert(msgs[k] == msgs.drop_last()[k]);
            assert(has_msg_id(msgs, id));
        }
    } else if msgs.len() > 0 {
        assert(msgs[msgs.len() - 1].id == id);
    }
}

/// Under the store invariant the position found by `idx_of` is the only one
/// carrying its id.
pub proof fn lemma_idx_of_unique(msgs: Seq<MessageModel>, id: i32, j: int)
    requires
        msgs_wf(msgs),
        0 <= j < msgs.len(),
        msgs[j].id == id,
    ensures
        idx_of(msgs, id) == j,
{
    lemma_idx_of(msgs, id);
    assert(has_msg_id(msgs, id));
    let k = idx_of(msgs, id);
    if k < j {
        assert(msgs[k].id < msgs[j].id);
    } else if k > j {
        assert(msgs[j].id < msgs[k].id);
    }
}

/// The ids collected up to position `n` are exactly the ids of the closure
/// members among the first `n` rows.
pub proof fn lemma_upto_ids(msgs: Seq<MessageModel>, root: i32, n: int, x: i32)
    requires
        0 <= n <= msgs.len(),
    ensures
        has_msg_id(subtree_rows_upto(msgs, root, n), x) <==> (exists|j: int|
            0 <= j < n && (#[trigger] msgs[j]).id == x && in_closure_idx(msgs, root, j)),
    decreases n,
{
    if n > 0 {
        lemma_upto_ids(msgs, root, n - 1, x);
        let prev = subtree_rows_upto(msgs, root, n - 1);
        let cur = subtree_rows_upto(msgs, root, n);
        if in_closure_idx(msgs, root, n - 1) {
            assert(cur == prev.push(msgs[n - 1]));
            if has_msg_id(cur, x) {
                let k = choose|k: int| 0 <= k < cur.len() && (#[trigger] cur[k]).id == x;
                if k < prev.len() {
                    assert(prev[k] == cur[k]);
                    assert(has_msg_id(prev, x));
                } else {
                    assert(cur[k] == msgs[n - 1]);
                }
            }
            if exists|j: int|
                0 <= j < n && (#[trigger] msgs[j]).id == x && in_closure_idx(msgs, root, j) {
                let j = choose|j: int|
                    0 <= j < n && (#[trigger] msgs[j]).id == x && in_closure_idx(msgs, root, j);
                if j < n - 1 {
                    assert(has_msg_id(prev, x));
                    let k = choose|k: int| 0 <= k < prev.len() && (#[trigger] prev[k]).id == x;
                    assert(cur[k] == prev[k]);
                    assert(has_msg_id(cur, x));
                } else {
                    assert(cur[prev.len() as int] == msgs[n - 1]);
                    assert(has_msg_id(cur, x));
                }
            }
        } else {
            assert(cur == prev);
            if exists|j: int|
                0 <= j < n && (#[trigger] msgs[j]).id == x && in_closure_idx(msgs, root, j) {
                let j = choose|j: int|
                    0 <= j < n && (#[trigger] msgs[j]).id == x && in_closure_idx(msgs, root, j);
                assert(j < n - 1);
            }
        }
    }
}

/// Membership in the reconstructed subtree is exactly membership in the
/// transitive closure of the is-child-of relation rooted at `root`: the
/// subtree holds the row carrying `x` if and only if `x` is the root or
/// chains back to it through parent references.
pub proof fn lemma_subtree_rows_ids(msgs: Seq<MessageModel>, root: i32, x: i32)
    requires
        msgs_wf(msgs),
    ensures
        has_msg_id(subtree_rows(msgs, root), x) <==> in_closure(msgs, root, x),
{
    lemma_upto_ids(msgs, root, msgs.len() as int, x);
    lemma_idx_of(msgs, x);
    if has_msg_id(subtree_rows(msgs, root), x) {
        let j = choose|j: int|
            0 <= j < msgs.len() && (#[trigger] msgs[j]).id == x && in_closure_idx(msgs, root, j);
        lemma_idx_of_unique(msgs, x, j);
    }
    if in_closure(msgs, root, x) {
        let k = idx_of(msgs, x);
        assert(has_msg_id(msgs, x));
        assert(0 <= k < msgs.len() && msgs[k].id == x && in_closure_idx(msgs, root, k));
    }
}

/// Helper for `lemma_subtree_rows_distinct`: every row collected among the
/// first `n` positions is one of those positions' rows, and the collected
/// ids strictly increase.
proof fn lemma_upto_sorted(msgs: Seq<MessageModel>, root: i32, n: int)
    requires
        msgs_wf(msgs),
        0 <= n <= msgs.len(),
    ensures
        forall|a: int|
            0 <= a < subtree_rows_upto(msgs, root, n).len() ==> (exists|j: int|
                0 <= j < n && #[trigger] subtree_rows_upto(msgs, root, n)[a] == msgs[j]),
        forall|a: int, b: int|
            0 <= a < b < subtree_rows_upto(msgs, root, n).len()
                ==> (#[trigger] subtree_rows_upto(msgs, root, n)[a]).id < (
            #[trigger] subtree_rows_upto(msgs, root, n)[b]).id,
    decreases n,
{
    if n > 0 {
        lemma_upto_sorted(msgs, root, n - 1);
        let prev = subtree_rows_upto(msgs, root, n - 1);
        let cur = subtree_rows_upto(msgs, root, n);
        if in_closure_idx(msgs, root, n - 1) {
            assert(cur == prev.push(msgs[n - 1]));
            assert forall|a: int| 0 <= a < cur.len() implies (exists|j: int|
                0 <= j < n && #[trigger] cur[a] == msgs[j]) by {
                if a < prev.len() {
                    let j = choose|j: int| 0 <= j < n - 1 && #[trigger] prev[a] == msgs[j];
                    assert(cur[a] == msgs[j]);
                } else {
                    assert(cur[a] == msgs[n - 1]);
                }
            }
            assert forall|a: int, b: int|
                0 <= a < b < cur.len() implies (#[trigger] cur[a]).id < (
            #[trigger] cur[b]).id by {
                if b < prev.len() {
                    assert(prev[a].id < prev[b].id);
                } else {
                    let j = choose|j: int| 0 <= j < n - 1 && #[trigger] prev[a] == msgs[j];
                    assert(msgs[j].id < msgs[n - 1].id);
                }
            }
        } else {
            assert(cur == prev);
            assert forall|a: int| 0 <= a < cur.len() implies (exists|j: int|
                0 <= j < n && #[trigger] cur[a] == msgs[j]) by {
                let j = choose|j: int| 0 <= j < n - 1 && #[trigger] prev[a] == msgs[j];
                assert(cur[a] == msgs[j]);
            }
        }
    }
}

/// The reconstructed subtree never holds a row twice: each row of it is a
/// stored row, and the ids strictly increase along it. Duplicates are
/// impossible by construction — every message has exactly one parent, so
/// the closure is a tree, and each store position is considered once.
pub proof fn lemma_subtree_rows_distinct(msgs: Seq<MessageModel>, root: i32)
    requires
        msgs_wf(msgs),
    ensures
        forall|a: int|
            0 <= a < subtree_rows(msgs, root).len() ==> (exists|j: int|
                0 <= j < msgs.len() && #[trigger] subtree_rows(msgs, root)[a] == msgs[j]),
        forall|a: int, b: int|
            0 <= a < b < subtree_rows(msgs, root).len() ==> (#[trigger] subtree_rows(
                msgs,
                root,
            )[a]).id < (#[trigger] subtree_rows(msgs, root)[b]).id,
{
    lemma_upto_sorted(msgs, root, msgs.len() as int);
}

/// Helper: when the row at `k` carries the largest id in the store, no other
/// position belongs to the closure rooted at it — a child would need a
/// larger id than its parent.
proof fn lemma_closure_only_newest(msgs: Seq<MessageModel>, k: int, j: int)
    requires
        msgs_wf(msgs),
        0 <= k < msgs.len(),
        forall|i: int| 0 <= i < msgs.len() ==> (#[trigger] msgs[i]).id <= msgs[k].id,
        in_closure_idx(msgs, msgs[k].id, j),
    ensures
        j == k,
    decreases j,
{
    if msgs[j].id == msgs[k].id {
        if j < k {
            assert(msgs[j].id < msgs[k].id);
        } else if j > k {
            assert(msgs[k].id < msgs[j].id);
        }
    } else {
        let p = msgs[j].parent_id->0;
        let jp = idx_of(msgs, p);
        lemma_closure_only_newest(msgs, k, jp);
        lemma_idx_of(msgs, p);
        assert(has_msg_id(msgs, p)) by {
            assert(jp != -1);
        }
        assert(msgs[k].id == p);
        assert(p < msgs[j].id);
    }
}

/// Helper: with the closure rooted at the newest row reduced to that one
/// position, the collected members up to `n` are nothing before it and
/// exactly the one row after it.
proof fn lemma_upto_newest(msgs: Seq<MessageModel>, k: int, n: int)
    requires
        msgs_wf(msgs),
        0 <= k < msgs.len(),
        forall|i: int| 0 <= i < msgs.len() ==> (#[trigger] msgs[i]).id <= msgs[k].id,
        0 <= n <= msgs.len(),
    ensures
        n <= k ==> subtree_rows_upto(msgs, msgs[k].id, n) == Seq::<MessageModel>::empty(),
        n > k ==> subtree_rows_upto(msgs, msgs[k].id, n) == seq![msgs[k]],
    decreases n,
{
    if n > 0 {
        lemma_upto_newest(msgs, k, n - 1);
        if in_closure_idx(msgs, msgs[k].id, n - 1) {
            lemma_closure_only_newest(msgs, k, n - 1);
            assert(n - 1 == k);
            assert(subtree_rows_upto(msgs, msgs[k].id, n) =~= seq![msgs[k]]);
        }
    }
}

/// A message that no other row outranks — it carries the largest id in the
/// store, as a row just created does — has no descendants yet: its reply
/// subtree is exactly the one row itself.
pub proof fn lemma_subtree_of_newest(msgs: Seq<MessageModel>, k: int)
    requires
        msgs_wf(msgs),
        0 <= k < msgs.len(),
        forall|i: int| 0 <= i < msgs.len() ==> (#[trigger] msgs[i]).id <= msgs[k].id,
    ensures
        subtree_rows(msgs, msgs[k].id) == seq![msgs[k]],
{
    lemma_upto_newest(msgs, k, msgs.len() as int);
}

/// Creation followed by reconstruction: in any well-formed store whose last
/// row is the one just appended (as `create_post` leaves it), the subtree of
/// the new id is exactly the new row.
pub proof fn lemma_subtree_after_create(s: Store, id: i32)
    requires
        s.wf(),
        s.messages@.len() > 0,
        s.messages@.last().id == id,
    ensures
        subtree_rows(s.messages@, id) == seq![s.messages@.last()],
{
    let msgs = s.messages@;
    let n = msgs.len() as int;
    assert forall|i: int| 0 <= i < n implies (#[trigger] msgs[i]).id <= msgs[n - 1].id by {
        if i < n - 1 {
            assert(msgs[i].id < msgs[n - 1].id);
        }
    }
    lemma_subtree_of_newest(msgs, n - 1);
}

/// Helper: in a thread of three — root at `a`, its reply at `b`, a reply to
/// that at `c` — with no other replies to any of the three, no further
/// position belongs to the closure rooted at `a`.
proof fn lemma_closure_only_three(msgs: Seq<MessageModel>, a: int, b: int, c: int, j: int)
    requires
        msgs_wf(msgs),
        0 <= a < msgs.len(),
        0 <= b < msgs.len(),
        0 <= c < msgs.len(),
        msgs[b].parent_id == Some(msgs[a].id),
        msgs[c].parent_id == Some(msgs[b].id),
        forall|i: int|
            0 <= i < msgs.len() && ((#[trigger] msgs[i]).parent_id == Some(msgs[a].id)
                || msgs[i].parent_id == Some(msgs[b].id) || msgs[i].parent_id == Some(
                msgs[c].id,
            )) ==> i == b || i == c,
        in_closure_idx(msgs, msgs[a].id, j),
    ensures
        j == a || j == b || j == c,
    decreases j,
{
    if msgs[j].id == msgs[a].id {
        if j < a {
            assert(msgs[j].id < msgs[a].id);
        } else if j > a {
            assert(msgs[a].id < msgs[j].id);
        }
    } else {
        let p = msgs[j].parent_id->0;
        let jp = idx_of(msgs, p);
        lemma_closure_only_three(msgs, a, b, c, jp);
        lemma_idx_of(msgs, p);
        assert(has_msg_id(msgs, p)) by {
            assert(jp != -1);
        }
        assert(msgs[jp].id == p);
        assert(msgs[j].parent_id == Some(msgs[a].id) || msgs[j].parent_id == Some(msgs[b].id)
            || msgs[j].parent_id == Some(msgs[c].id));
    }
}

/// A message `m` with a reply `d1` and a reply `d2` to `d1` — and no other
/// replies to any of the three anywhere in the store — has subtree exactly
/// {m, d1, d2}, wherever the three rows sit in store order.
pub proof fn lemma_subtree_of_three(msgs: Seq<MessageModel>, a: int, b: int, c: int)
    requires
        msgs_wf(msgs),
        0 <= a < msgs.len(),
        0 <= b < msgs.len(),
        0 <= c < msgs.len(),
        msgs[b].parent_id == Some(msgs[a].id),
        msgs[c].parent_id == Some(msgs[b].id),
        forall|i: int|
            0 <= i < msgs.len() && ((#[trigger] msgs[i]).parent_id == Some(msgs[a].id)
                || msgs[i].parent_id == Some(msgs[b].id) || msgs[i].parent_id == Some(
                msgs[c].id,
            )) ==> i == b || i == c,
    ensures
        forall|x: i32|
            #[trigger] in_closure(msgs, msgs[a].id, x) <==> (x == msgs[a].id || x == msgs[b].id
                || x == msgs[c].id),
{
    let root = msgs[a].id;
    assert(in_closure_idx(msgs, root, a));
    assert(a < b) by {
        assert(msgs[a].id < msgs[b].id);
        if b <= a {
            if b < a {
                assert(msgs[b].id < msgs[a].id);
            }
        }
    }
    assert(b < c) by {
        assert(msgs[b].id < msgs[c].id);
        if c <= b {
            if c < b {
                assert(msgs[c].id < msgs[b].id);
            }
        }
    }
    lemma_idx_of_unique(msgs, msgs[a].id, a);
    lemma_idx_of_unique(msgs, msgs[b].id, b);
    lemma_idx_of_unique(msgs, msgs[c].id, c);
    assert(in_closure_idx(msgs, root, b));
    assert(in_closure_idx(msgs, root, c));
    assert forall|x: i32|
        #[trigger] in_closure(msgs, root, x) <==> (x == msgs[a].id || x == msgs[b].id || x
            == msgs[c].id) by {
        lemma_idx_of(msgs, x);
        if in_closure(msgs, root, x) {
            let k = idx_of(msgs, x);
            lemma_closure_only_three(msgs, a, b, c, k);
            assert(msgs[k].id == x);
        }
        if x == msgs[a].id {
            lemma_idx_of_unique(msgs, x, a);
        } else if x == msgs[b].id {
            lemma_idx_of_unique(msgs, x, b);
        } else if x == msgs[c].id {
            lemma_idx_of_unique(msgs, x, c);
        }
    }
}

} // verus!
