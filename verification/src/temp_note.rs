//! The ephemeral handoff record passed between windows through the
//! note store, together with its mathematical view.

use vstd::prelude::*;

verus! {

/// A transient note record. The creator assigns `id`, which keys the
/// store; `time` is an opaque timestamp representation that the core
/// neither parses nor validates. For `favorite` and `pinned`, absence
/// means the caller expressed no opinion, which is distinct from
/// `false`.
#[derive(Debug, PartialEq, Eq)]
pub struct TempNote {
    pub id: String,
    pub text: String,
    pub title: String,
    pub time: String,
    pub tags: Vec<String>,
    pub favorite: Option<bool>,
    pub pinned: Option<bool>,
}

/// The mathematical value of a `TempNote`: every field as a plain
/// mathematical object, so contracts can state value equality on all
/// fields at once.
pub ghost struct TempNoteView {
    pub id: Seq<char>,
    pub text: Seq<char>,
    pub title: Seq<char>,
    pub time: Seq<char>,
    pub tags: Seq<Seq<char>>,
    pub favorite: Option<bool>,
    pub pinned: Option<bool>,
}

impl View for TempNote {
    type V = TempNoteView;

    open spec fn view(&self) -> TempNoteView {
        TempNoteView {
            id: self.id@,
            text: self.text@,
            title: self.title@,
            time: self.time@,
            tags: self.tags.deep_view(),
            favorite: self.favorite,
            pinned: self.pinned,
        }
    }
}

impl Clone for TempNote {
    /// A clone carries the same value in every field: the copy a
    /// fetch hands out is indistinguishable from the stored record.
    fn clone(&self) -> (res: Self)
        ensures
            res@ == self@,
    {
        let res = TempNote {
            id: self.id.clone(),
            text: self.text.clone(),
            title: self.title.clone(),
            time: self.time.clone(),
            tags: clone_tags(&self.tags),
            favorite: self.favorite,
            pinned: self.pinned,
        };
        res
    }
}

/// Clones a tag list element by element, keeping the sequence of
/// character sequences exactly.
fn clone_tags(tags: &Vec<String>) -> (res: Vec<String>)
    ensures
        res.deep_view() == tags.deep_view(),
{
    let mut res: Vec<String> = Vec::new();
    let n = tags.len();
    let mut i: usize = 0;
    while i < n
        invariant
            i <= n,
            n == tags@.len(),
            res@.len() == i,
            forall|j: int| 0 <= j < i ==> res@[j]@ == tags@[j]@,
        decreases n - i,
    {
        res.push(tags[i].clone());
        i = i + 1;
    }
    proof {
        assert(res.deep_view() =~= tags.deep_view());
    }
    res
}

} // verus!
