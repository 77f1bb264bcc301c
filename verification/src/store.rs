//! The ephemeral note store: a single mapping from note id to
//! `TempNote`, the only shared mutable state of the backend.
//!
//! The store is an explicitly constructed object; the layer that
//! exposes it to concurrent callers guards it with one exclusive lock
//! per operation, so each operation here sees the store alone. Its
//! mathematical model is a `Map` from the id's character sequence to
//! the record's view: an insert with an existing id replaces the old
//! record entirely, a remove of an absent id is a no-op, and a fetch
//! hands back an independent copy.

use vstd::prelude::*;
use crate::error::StoreError;
use crate::temp_note::TempNote;
use crate::temp_note::TempNoteView;

verus! {

/// Some record in `s` carries the id `k`.
pub open spec fn has_id(s: Seq<TempNote>, k: Seq<char>) -> bool {
    exists|i: int| 0 <= i < s.len() && s[i]@.id == k
}

/// The index of the record carrying id `k` (unique when ids are
/// unique; arbitrary otherwise).
pub open spec fn index_of_id(s: Seq<TempNote>, k: Seq<char>) -> int {
    choose|i: int| 0 <= i < s.len() && s[i]@.id == k
}

/// No two records carry the same id.
pub open spec fn ids_unique(s: Seq<TempNote>) -> bool {
    forall|i: int, j: int| 0 <= i < j < s.len() ==> s[i]@.id != s[j]@.id
}

/// The mapping the records represent: each id present in `s` is bound
/// to the view of its record.
pub open spec fn map_of(s: Seq<TempNote>) -> Map<Seq<char>, TempNoteView> {
    Map::new(|k: Seq<char>| has_id(s, k), |k: Seq<char>| s[index_of_id(s, k)]@)
}

/// `v` is a faithful snapshot of the mapping `m`: as many records as
/// `m` has bindings, each record bound in `m` to exactly its value,
/// no id twice, and every bound id present. Only the order of the
/// records is left open.
pub open spec fn snapshot_of(v: Seq<TempNote>, m: Map<Seq<char>, TempNoteView>) -> bool {
    &&& v.len() == m.dom().len()
    &&& (forall|i: int|
        0 <= i < v.len() ==> m.contains_key(#[trigger] v[i]@.id) && m[v[i]@.id] == v[i]@)
    &&& (forall|i: int, j: int| 0 <= i < j < v.len() ==> v[i]@.id != v[j]@.id)
    &&& (forall|k: Seq<char>| #[trigger] m.contains_key(k) ==> has_id(v, k))
}

/// A snapshot of the empty mapping holds no records: after a clear,
/// a fetch-all returns the empty sequence.
pub proof fn lemma_empty_snapshot(v: Seq<TempNote>)
    requires
        snapshot_of(v, Map::<Seq<char>, TempNoteView>::empty()),
    ensures
        v.len() == 0,
{
    assert(Map::<Seq<char>, TempNoteView>::empty().dom() =~= Set::<Seq<char>>::empty());
}

/// The ephemeral note store. At most one record exists per id at any
/// instant; the store owns the canonical copy of every record.
pub struct NoteStore {
    notes: Vec<TempNote>,
}

impl View for NoteStore {
    type V = Map<Seq<char>, TempNoteView>;

    closed spec fn view(&self) -> Map<Seq<char>, TempNoteView> {
        map_of(self.notes@)
    }
}

/// When `s[i]` carries id `k` and ids are unique, `k` is bound in
/// `map_of(s)` to exactly that record's view.
proof fn lemma_unique_index(s: Seq<TempNote>, i: int, k: Seq<char>)
    requires
        ids_unique(s),
        0 <= i < s.len(),
        s[i]@.id == k,
    ensures
        has_id(s, k),
        index_of_id(s, k) == i,
        map_of(s).contains_key(k),
        map_of(s)[k] == s[i]@,
{
    assert(has_id(s, k));
    let j = index_of_id(s, k);
    assert(0 <= j < s.len() && s[j]@.id == k);
    if i < j {
        assert(s[i]@.id != s[j]@.id);
    } else if j < i {
        assert(s[j]@.id != s[i]@.id);
    }
}

/// Replacing the record at `i` by one with the same id turns the
/// mapping into an insert of the new record.
proof fn lemma_replace(pre: Seq<TempNote>, i: int, note: TempNote)
    requires
        ids_unique(pre),
        0 <= i < pre.len(),
        pre[i]@.id == note@.id,
    ensures
        ids_unique(pre.update(i, note)),
        map_of(pre.update(i, note)) == map_of(pre).insert(note@.id, note@),
{
    let post = pre.update(i, note);
    assert forall|a: int, b: int| 0 <= a < b < post.len() implies post[a]@.id != post[b]@.id by {
        assert(post[a]@.id == pre[a]@.id);
        assert(post[b]@.id == pre[b]@.id);
    }
    let nid = note@.id;
    assert forall|k: Seq<char>| #[trigger] has_id(post, k) implies has_id(pre, k) by {
        let w = choose|w: int| 0 <= w < post.len() && post[w]@.id == k;
        assert(pre[w]@.id == post[w]@.id);
        assert(has_id(pre, k));
    }
    assert forall|k: Seq<char>| #[trigger] has_id(pre, k) implies has_id(post, k) by {
        let w = choose|w: int| 0 <= w < pre.len() && pre[w]@.id == k;
        assert(post[w]@.id == pre[w]@.id);
        assert(has_id(post, k));
    }
    assert forall|k: Seq<char>| has_id(post, k) implies #[trigger] map_of(post)[k] == map_of(
        pre,
    ).insert(nid, note@)[k] by {
        if k == nid {
            lemma_unique_index(post, i, k);
        } else {
            let w = index_of_id(post, k);
            assert(0 <= w < post.len() && post[w]@.id == k);
            assert(w != i);
            assert(post[w] == pre[w]);
            lemma_unique_index(post, w, k);
            lemma_unique_index(pre, w, k);
        }
    }
    lemma_unique_index(pre, i, nid);
    assert(map_of(post) =~= map_of(pre).insert(nid, note@));
}

/// Appending a record whose id is absent turns the mapping into an
/// insert of that record.
proof fn lemma_append(pre: Seq<TempNote>, note: TempNote)
    requires
        ids_unique(pre),
        !has_id(pre, note@.id),
    ensures
        ids_unique(pre.push(note)),
        map_of(pre.push(note)) == map_of(pre).insert(note@.id, note@),
{
    let post = pre.push(note);
    let nid = note@.id;
    let n = pre.len() as int;
    assert forall|a: int, b: int| 0 <= a < b < post.len() implies post[a]@.id != post[b]@.id by {
        if b < n {
            assert(post[a]@.id == pre[a]@.id);
            assert(post[b]@.id == pre[b]@.id);
        } else {
            assert(post[b]@.id == nid);
            assert(post[a]@.id == pre[a]@.id);
            if pre[a]@.id == nid {
                assert(has_id(pre, nid));
            }
        }
    }
    assert forall|k: Seq<char>| has_id(post, k) <==> (has_id(pre, k) || k == nid) by {
        if has_id(post, k) {
            let w = choose|w: int| 0 <= w < post.len() && post[w]@.id == k;
            if w < n {
                assert(pre[w]@.id == k);
                assert(has_id(pre, k));
            } else {
                assert(k == nid);
            }
        }
        if has_id(pre, k) {
            let w = choose|w: int| 0 <= w < pre.len() && pre[w]@.id == k;
            assert(post[w]@.id == k);
            assert(has_id(post, k));
        }
        if k == nid {
            assert(post[n]@.id == k);
            assert(has_id(post, k));
        }
    }
    assert forall|k: Seq<char>| has_id(post, k) implies #[trigger] map_of(post)[k] == map_of(
        pre,
    ).insert(nid, note@)[k] by {
        if k == nid {
            lemma_unique_index(post, n, k);
        } else {
            let w = index_of_id(post, k);
            assert(0 <= w < post.len() && post[w]@.id == k);
            assert(w != n);
            assert(post[w] == pre[w]);
            lemma_unique_index(post, w, k);
            lemma_unique_index(pre, w, k);
        }
    }
    assert(map_of(post) =~= map_of(pre).insert(nid, note@));
}

/// Removing the record at `i` turns the mapping into a remove of its
/// id.
proof fn lemma_remove_at(pre: Seq<TempNote>, i: int)
    requires
        ids_unique(pre),
        0 <= i < pre.len(),
    ensures
        ids_unique(pre.remove(i)),
        map_of(pre.remove(i)) == map_of(pre).remove(pre[i]@.id),
{
    let post = pre.remove(i);
    let kid = pre[i]@.id;
    assert forall|a: int, b: int| 0 <= a < b < post.len() implies post[a]@.id != post[b]@.id by {
        let a0: int = if a < i { a } else { a + 1 };
        let b0: int = if b < i { b } else { b + 1 };
        assert(post[a]@.id == pre[a0]@.id);
        assert(post[b]@.id == pre[b0]@.id);
        assert(pre[a0]@.id != pre[b0]@.id);
    }
    assert forall|k: Seq<char>| has_id(post, k) <==> (has_id(pre, k) && k != kid) by {
        if has_id(post, k) {
            let w = choose|w: int| 0 <= w < post.len() && post[w]@.id == k;
            let w0: int = if w < i { w } else { w + 1 };
            assert(pre[w0]@.id == k);
            assert(has_id(pre, k));
            if k == kid {
                assert(pre[w0]@.id == pre[i]@.id && w0 != i);
                if w0 < i {
                    assert(pre[w0]@.id != pre[i]@.id);
                } else {
                    assert(pre[i]@.id != pre[w0]@.id);
                }
            }
        }
        if has_id(pre, k) && k != kid {
            let w = choose|w: int| 0 <= w < pre.len() && pre[w]@.id == k;
            assert(w != i);
            let w1: int = if w < i { w } else { w - 1 };
            assert(post[w1]@.id == pre[w]@.id);
            assert(has_id(post, k));
        }
    }
    assert forall|k: Seq<char>| has_id(post, k) implies #[trigger] map_of(post)[k] == map_of(
        pre,
    ).remove(kid)[k] by {
        let w = index_of_id(post, k);
        assert(0 <= w < post.len() && post[w]@.id == k);
        let w0: int = if w < i { w } else { w + 1 };
        assert(post[w] == pre[w0]);
        lemma_unique_index(post, w, k);
        lemma_unique_index(pre, w0, k);
    }
    assert(map_of(post) =~= map_of(pre).remove(kid));
}

/// With unique ids, the mapping binds exactly as many ids as there
/// are records.
proof fn lemma_dom_len(s: Seq<TempNote>)
    requires
        ids_unique(s),
    ensures
        map_of(s).dom().finite(),
        map_of(s).dom().len() == s.len(),
    decreases s.len(),
{
    if s.len() == 0 {
        assert(map_of(s).dom() =~= Set::<Seq<char>>::empty());
    } else {
        let pre = s.drop_last();
        let n = pre.len() as int;
        let last_id = s.last()@.id;
        assert forall|a: int, b: int| 0 <= a < b < pre.len() implies pre[a]@.id != pre[b]@.id by {
            assert(pre[a]@.id == s[a]@.id);
            assert(pre[b]@.id == s[b]@.id);
        }
        lemma_dom_len(pre);
        assert(!has_id(pre, last_id)) by {
            if has_id(pre, last_id) {
                let w = choose|w: int| 0 <= w < pre.len() && pre[w]@.id == last_id;
                assert(s[w]@.id == last_id);
                assert(s[w]@.id != s[n]@.id);
            }
        }
        assert forall|k: Seq<char>| has_id(s, k) <==> (has_id(pre, k) || k == last_id) by {
            if has_id(s, k) {
                let w = choose|w: int| 0 <= w < s.len() && s[w]@.id == k;
                if w < n {
                    assert(pre[w]@.id == k);
                    assert(has_id(pre, k));
                } else {
                    assert(k == last_id);
                }
            }
            if has_id(pre, k) {
                let w = choose|w: int| 0 <= w < pre.len() && pre[w]@.id == k;
                assert(s[w]@.id == k);
                assert(has_id(s, k));
            }
            if k == last_id {
                assert(s[n]@.id == k);
                assert(has_id(s, k));
            }
        }
        assert(map_of(s).dom() =~= map_of(pre).dom().insert(last_id));
        assert(!map_of(pre).dom().contains(last_id));
    }
}

impl NoteStore {
    /// Well-formedness: at most one record per id. Established by the
    /// constructor and preserved by every operation.
    pub closed spec fn wf(self) -> bool {
        ids_unique(self.notes@)
    }

    /// An empty store.
    pub fn new() -> (s: Self)
        ensures
            s.wf(),
            s@ == Map::<Seq<char>, TempNoteView>::empty(),
    {
        let s = NoteStore { notes: Vec::new() };
        proof {
            assert(s@ =~= Map::<Seq<char>, TempNoteView>::empty());
        }
        s
    }

    /// Inserts the record under its own id, replacing any record the
    /// id was bound to: the old value is discarded entirely, never
    /// merged. Always succeeds.
    pub fn store_temp_note(&mut self, note: TempNote) -> (r: Result<(), StoreError>)
        requires
            old(self).wf(),
        ensures
            final(self).wf(),
            r is Ok,
            final(self)@ == old(self)@.insert(note@.id, note@),
    {
        let ghost pre = self.notes@;
        let n = self.notes.len();
        let mut i: usize = 0;
        while i < n
            invariant
                i <= n,
                n == self.notes@.len(),
                self.notes@ == pre,
                pre == old(self).notes@,
                ids_unique(pre),
                forall|j: int| 0 <= j < i ==> pre[j]@.id != note@.id,
            decreases n - i,
        {
            if self.notes[i].id == note.id {
                proof {
                    lemma_replace(pre, i as int, note);
                }
                self.notes.set(i, note);
                return Ok(());
            }
            i = i + 1;
        }
        proof {
            assert(!has_id(pre, note@.id));
            lemma_append(pre, note);
        }
        self.notes.push(note);
        Ok(())
    }

    /// Fetches a copy of the record bound to `id`, or reports absence
    /// as a normal outcome. Never errs; the stored record is not
    /// touched.
    pub fn get_temp_note(&self, id: String) -> (r: Result<Option<TempNote>, StoreError>)
        requires
            self.wf(),
        ensures
            r is Ok,
            self@.contains_key(id@) ==> (r matches Ok(o) && o matches Some(n) && n@ == self@[id@]),
            !self@.contains_key(id@) ==> (r matches Ok(o) && o is None),
    {
        let ghost s = self.notes@;
        let n = self.notes.len();
        let mut i: usize = 0;
        while i < n
            invariant
                i <= n,
                n == s.len(),
                self.notes@ == s,
                ids_unique(s),
                forall|j: int| 0 <= j < i ==> s[j]@.id != id@,
            decreases n - i,
        {
            if self.notes[i].id == id {
                proof {
                    lemma_unique_index(s, i as int, id@);
                }
                return Ok(Some(self.notes[i].clone()));
            }
            i = i + 1;
        }
        proof {
            assert(!has_id(s, id@));
        }
        Ok(None)
    }

    /// Removes the record bound to `id` if one exists; removing an
    /// absent id is a silent no-op, not an error.
    pub fn remove_temp_note(&mut self, id: String) -> (r: Result<(), StoreError>)
        requires
            old(self).wf(),
        ensures
            final(self).wf(),
            r is Ok,
            final(self)@ == old(self)@.remove(id@),
    {
        let ghost pre = self.notes@;
        let n = self.notes.len();
        let mut i: usize = 0;
        while i < n
            invariant
                i <= n,
                n == self.notes@.len(),
                self.notes@ == pre,
                pre == old(self).notes@,
                ids_unique(pre),
                forall|j: int| 0 <= j < i ==> pre[j]@.id != id@,
            decreases n - i,
        {
            if self.notes[i].id == id {
                proof {
                    lemma_remove_at(pre, i as int);
                }
                self.notes.remove(i);
                return Ok(());
            }
            i = i + 1;
        }
        proof {
            assert(!has_id(pre, id@));
            assert(map_of(pre).remove(id@) =~= map_of(pre));
        }
        Ok(())
    }

    /// Hands back a copy of every current record. The order of the
    /// snapshot is unspecified; callers must not depend on it.
    pub fn get_all_temp_notes(&self) -> (r: Result<Vec<TempNote>, StoreError>)
        requires
            self.wf(),
        ensures
            r is Ok,
            r matches Ok(v) && snapshot_of(v@, self@),
    {
        let ghost s = self.notes@;
        let mut v: Vec<TempNote> = Vec::new();
        let n = self.notes.len();
        let mut i: usize = 0;
        while i < n
            invariant
                i <= n,
                n == s.len(),
                self.notes@ == s,
                v@.len() == i,
                forall|j: int| 0 <= j < i ==> v@[j]@ == s[j]@,
            decreases n - i,
        {
            v.push(self.notes[i].clone());
            i = i + 1;
        }
        proof {
            lemma_dom_len(s);
            assert forall|j: int| 0 <= j < v@.len() implies self@.contains_key(#[trigger] v@[j]@.id)
                && self@[v@[j]@.id] == v@[j]@ by {
                assert(v@[j]@ == s[j]@);
                lemma_unique_index(s, j, s[j]@.id);
            }
            assert forall|k: Seq<char>| #[trigger] self@.contains_key(k) implies has_id(v@, k) by {
                let w = index_of_id(s, k);
                assert(0 <= w < s.len() && s[w]@.id == k);
                assert(v@[w]@.id == k);
            }
            assert forall|a: int, b: int| 0 <= a < b < v@.len() implies v@[a]@.id != v@[b]@.id by {
                assert(v@[a]@ == s[a]@);
                assert(v@[b]@ == s[b]@);
            }
        }
        Ok(v)
    }

    /// Removes every record. Always succeeds.
    pub fn clear_temp_notes(&mut self) -> (r: Result<(), StoreError>)
        ensures
            final(self).wf(),
            r is Ok,
            final(self)@ == Map::<Seq<char>, TempNoteView>::empty(),
    {
        self.notes.clear();
        proof {
            assert(self@ =~= Map::<Seq<char>, TempNoteView>::empty());
        }
        Ok(())
    }
}

} // verus!
