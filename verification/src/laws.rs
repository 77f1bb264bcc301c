//! Laws of the ephemeral note store, stated over its mathematical
//! model.
//!
//! Store operations are linearizable — the lock gives them a total
//! order — so any concurrent history is equivalent to some sequence
//! of operations on the model map. These lemmas therefore speak about
//! arbitrary operation sequences.

use vstd::prelude::*;
use crate::temp_note::TempNoteView;

verus! {

/// One store operation, at the level of the model: an insert, a
/// removal by id, or a removal of everything.
pub ghost enum StoreOp {
    Put(TempNoteView),
    Remove(Seq<char>),
    Clear,
}

/// The effect of one operation on the model map, exactly as the
/// store's operations state it in their contracts.
pub open spec fn apply_op(m: Map<Seq<char>, TempNoteView>, op: StoreOp) -> Map<
    Seq<char>,
    TempNoteView,
> {
    match op {
        StoreOp::Put(n) => m.insert(n.id, n),
        StoreOp::Remove(k) => m.remove(k),
        StoreOp::Clear => Map::empty(),
    }
}

/// The effect of a sequence of operations, applied in order.
pub open spec fn apply_ops(m: Map<Seq<char>, TempNoteView>, ops: Seq<StoreOp>) -> Map<
    Seq<char>,
    TempNoteView,
>
    decreases ops.len(),
{
    if ops.len() == 0 {
        m
    } else {
        apply_ops(apply_op(m, ops[0]), ops.drop_first())
    }
}

/// The operation leaves whatever is bound to `k` untouched: it is
/// neither a put under `k`, nor a remove of `k`, nor a clear.
pub open spec fn preserves_id(op: StoreOp, k: Seq<char>) -> bool {
    match op {
        StoreOp::Put(n) => n.id != k,
        StoreOp::Remove(k2) => k2 != k,
        StoreOp::Clear => false,
    }
}

/// The operation binds `k`.
pub open spec fn puts_id(op: StoreOp, k: Seq<char>) -> bool {
    op matches StoreOp::Put(n) && n.id == k
}

/// The puts of the given records, in order.
pub open spec fn puts_of(notes: Seq<TempNoteView>) -> Seq<StoreOp> {
    notes.map_values(|n: TempNoteView| StoreOp::Put(n))
}

/// Applying a concatenation is applying the parts in turn.
pub proof fn lemma_apply_ops_append(
    m: Map<Seq<char>, TempNoteView>,
    a: Seq<StoreOp>,
    b: Seq<StoreOp>,
)
    ensures
        apply_ops(m, a + b) == apply_ops(apply_ops(m, a), b),
    decreases a.len(),
{
    if a.len() == 0 {
        assert(a + b =~= b);
    } else {
        assert((a + b)[0] == a[0]);
        assert((a + b).drop_first() =~= a.drop_first() + b);
        lemma_apply_ops_append(apply_op(m, a[0]), a.drop_first(), b);
    }
}

/// A fetch after a put returns exactly the record that was put, as
/// long as no later operation touches its id: no remove of the id, no
/// clear, no overwriting put. (Value equality on all fields: the
/// record's whole view survives.)
pub proof fn lemma_put_survives(
    m: Map<Seq<char>, TempNoteView>,
    n: TempNoteView,
    ops: Seq<StoreOp>,
)
    requires
        forall|i: int| 0 <= i < ops.len() ==> preserves_id(#[trigger] ops[i], n.id),
    ensures
        apply_ops(m.insert(n.id, n), ops).contains_key(n.id),
        apply_ops(m.insert(n.id, n), ops)[n.id] == n,
    decreases ops.len(),
{
    if ops.len() > 0 {
        let rest = ops.drop_first();
        assert forall|i: int| 0 <= i < rest.len() implies preserves_id(
            #[trigger] rest[i],
            n.id,
        ) by {
            assert(rest[i] == ops[i + 1]);
        }
        assert(preserves_id(ops[0], n.id));
        match ops[0] {
            StoreOp::Put(n2) => {
                assert(m.insert(n.id, n).insert(n2.id, n2) =~= m.insert(n2.id, n2).insert(
                    n.id,
                    n,
                ));
                lemma_put_survives(m.insert(n2.id, n2), n, rest);
            },
            StoreOp::Remove(k2) => {
                assert(m.insert(n.id, n).remove(k2) =~= m.remove(k2).insert(n.id, n));
                lemma_put_survives(m.remove(k2), n, rest);
            },
            StoreOp::Clear => {
                assert(false);
            },
        }
    }
}

/// An id that is absent and never put stays absent: a fetch of an id
/// never inserted, or removed, or cleared away, reports absence.
pub proof fn lemma_absent_stays_absent(
    m: Map<Seq<char>, TempNoteView>,
    k: Seq<char>,
    ops: Seq<StoreOp>,
)
    requires
        !m.contains_key(k),
        forall|i: int| 0 <= i < ops.len() ==> !puts_id(#[trigger] ops[i], k),
    ensures
        !apply_ops(m, ops).contains_key(k),
    decreases ops.len(),
{
    if ops.len() > 0 {
        let rest = ops.drop_first();
        assert forall|i: int| 0 <= i < rest.len() implies !puts_id(#[trigger] rest[i], k) by {
            assert(rest[i] == ops[i + 1]);
        }
        assert(!puts_id(ops[0], k));
        lemma_absent_stays_absent(apply_op(m, ops[0]), k, rest);
    }
}

/// A put under an already-bound id replaces the stored value
/// entirely: the map afterwards is the same as if the first record
/// had never been put, and nothing of the old value is merged
/// forward.
pub proof fn lemma_put_replaces(
    m: Map<Seq<char>, TempNoteView>,
    n1: TempNoteView,
    n2: TempNoteView,
)
    requires
        n1.id == n2.id,
    ensures
        m.insert(n1.id, n1).insert(n2.id, n2) == m.insert(n2.id, n2),
        m.insert(n1.id, n1).insert(n2.id, n2)[n2.id] == n2,
        m.insert(n1.id, n1).insert(n2.id, n2).dom() == m.dom().insert(n2.id),
{
    assert(m.insert(n1.id, n1).insert(n2.id, n2) =~= m.insert(n2.id, n2));
    assert(m.insert(n1.id, n1).insert(n2.id, n2).dom() =~= m.dom().insert(n2.id));
}

/// Removing an absent id changes nothing: it is a silent no-op.
pub proof fn lemma_remove_absent(m: Map<Seq<char>, TempNoteView>, k: Seq<char>)
    requires
        !m.contains_key(k),
    ensures
        m.remove(k) == m,
{
    assert(m.remove(k) =~= m);
}

/// Puts with pairwise distinct ids are all visible afterwards, in
/// whatever order the lock serialized them: no update is lost.
pub proof fn lemma_distinct_puts_all_visible(
    m: Map<Seq<char>, TempNoteView>,
    notes: Seq<TempNoteView>,
    i: int,
)
    requires
        forall|a: int, b: int| 0 <= a < b < notes.len() ==> notes[a].id != notes[b].id,
        0 <= i < notes.len(),
    ensures
        apply_ops(m, puts_of(notes)).contains_key(notes[i].id),
        apply_ops(m, puts_of(notes))[notes[i].id] == notes[i],
{
    let ops = puts_of(notes);
    assert(ops.len() == notes.len());
    let a = ops.take(i + 1);
    let b = ops.skip(i + 1);
    assert(ops =~= a + b);
    lemma_apply_ops_append(m, a, b);
    let a0 = ops.take(i);
    let put_i = seq![StoreOp::Put(notes[i])];
    assert(a =~= a0 + put_i);
    lemma_apply_ops_append(m, a0, put_i);
    let m0 = apply_ops(m, a0);
    assert(apply_ops(m0, put_i) == m0.insert(notes[i].id, notes[i])) by {
        assert(put_i[0] == StoreOp::Put(notes[i]));
        let m1 = apply_op(m0, put_i[0]);
        assert(apply_ops(m0, put_i) == apply_ops(m1, put_i.drop_first()));
        assert(put_i.drop_first() =~= Seq::<StoreOp>::empty());
        assert(apply_ops(m1, put_i.drop_first()) == m1);
    }
    assert forall|j: int| 0 <= j < b.len() implies preserves_id(#[trigger] b[j], notes[i].id) by {
        assert(b[j] == ops[i + 1 + j]);
        assert(ops[i + 1 + j] == StoreOp::Put(notes[i + 1 + j]));
        assert(notes[i].id != notes[i + 1 + j].id);
    }
    lemma_put_survives(m0, notes[i], b);
    assert(apply_ops(m, ops) == apply_ops(m0.insert(notes[i].id, notes[i]), b));
}

} // verus!
