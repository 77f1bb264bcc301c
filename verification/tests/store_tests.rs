use quicknote::store::NoteStore;
use quicknote::temp_note::TempNote;

fn note(id: &str, text: &str) -> TempNote {
    TempNote {
        id: id.to_string(),
        text: text.to_string(),
        title: String::new(),
        time: "t0".to_string(),
        tags: Vec::new(),
        favorite: None,
        pinned: None,
    }
}

#[test]
fn put_then_get_returns_exact_record() {
    let mut st = NoteStore::new();
    let n = TempNote {
        id: "a".to_string(),
        text: "body".to_string(),
        title: "a title".to_string(),
        time: "2024-01-01T00:00:00Z".to_string(),
        tags: vec!["one".to_string(), "two".to_string()],
        favorite: Some(true),
        pinned: Some(false),
    };
    st.store_temp_note(n.clone()).unwrap();
    let got = st.get_temp_note("a".to_string()).unwrap().unwrap();
    assert_eq!(got, n);
}

#[test]
fn get_survives_unrelated_operations() {
    let mut st = NoteStore::new();
    st.store_temp_note(note("a", "hello")).unwrap();
    st.store_temp_note(note("b", "other")).unwrap();
    st.remove_temp_note("b".to_string()).unwrap();
    st.store_temp_note(note("c", "third")).unwrap();
    let got = st.get_temp_note("a".to_string()).unwrap().unwrap();
    assert_eq!(got, note("a", "hello"));
}

#[test]
fn get_never_inserted_is_absent_not_error() {
    let st = NoteStore::new();
    let got = st.get_temp_note("ghost".to_string()).unwrap();
    assert!(got.is_none());
}

#[test]
fn get_after_remove_is_absent() {
    let mut st = NoteStore::new();
    st.store_temp_note(note("a", "hello")).unwrap();
    st.remove_temp_note("a".to_string()).unwrap();
    assert!(st.get_temp_note("a".to_string()).unwrap().is_none());
}

#[test]
fn get_after_clear_is_absent() {
    let mut st = NoteStore::new();
    st.store_temp_note(note("a", "hello")).unwrap();
    st.clear_temp_notes().unwrap();
    assert!(st.get_temp_note("a".to_string()).unwrap().is_none());
}

#[test]
fn put_replaces_entirely() {
    let mut st = NoteStore::new();
    let mut first = note("a", "old body");
    first.title = "old title".to_string();
    first.favorite = Some(true);
    st.store_temp_note(first).unwrap();
    // The replacement leaves title and favorite unset: nothing of the
    // old record may be merged forward.
    let second = note("a", "new body");
    st.store_temp_note(second.clone()).unwrap();
    st.store_temp_note(note("b", "other")).unwrap();
    let got = st.get_temp_note("a".to_string()).unwrap().unwrap();
    assert_eq!(got, second);
    assert_eq!(got.title, "");
    assert_eq!(got.favorite, None);
    let all = st.get_all_temp_notes().unwrap();
    assert_eq!(all.len(), 2);
}

#[test]
fn remove_absent_id_is_silent_noop() {
    let mut st = NoteStore::new();
    st.store_temp_note(note("a", "hello")).unwrap();
    assert!(st.remove_temp_note("missing".to_string()).is_ok());
    assert_eq!(st.get_all_temp_notes().unwrap().len(), 1);
}

#[test]
fn clear_then_get_all_is_empty() {
    let mut st = NoteStore::new();
    st.store_temp_note(note("a", "one")).unwrap();
    st.store_temp_note(note("b", "two")).unwrap();
    st.clear_temp_notes().unwrap();
    let all = st.get_all_temp_notes().unwrap();
    assert!(all.is_empty());
}

#[test]
fn distinct_puts_are_all_visible() {
    let mut st = NoteStore::new();
    let ids = ["n1", "n2", "n3", "n4", "n5", "n6", "n7", "n8"];
    for id in ids {
        st.store_temp_note(note(id, "body")).unwrap();
    }
    let all = st.get_all_temp_notes().unwrap();
    assert_eq!(all.len(), ids.len());
    for id in ids {
        assert!(all.iter().any(|n| n.id == id));
        assert!(st.get_temp_note(id.to_string()).unwrap().is_some());
    }
}

#[test]
fn get_all_snapshot_is_independent_copy() {
    let mut st = NoteStore::new();
    st.store_temp_note(note("a", "hello")).unwrap();
    let mut all = st.get_all_temp_notes().unwrap();
    all[0].text = "mutated by caller".to_string();
    let stored = st.get_temp_note("a".to_string()).unwrap().unwrap();
    assert_eq!(stored.text, "hello");
}

#[test]
fn handoff_scenario() {
    let mut st = NoteStore::new();
    let n = TempNote {
        id: "a".to_string(),
        text: "hello".to_string(),
        title: String::new(),
        time: "t0".to_string(),
        tags: Vec::new(),
        favorite: None,
        pinned: None,
    };
    st.store_temp_note(n.clone()).unwrap();
    let got = st.get_temp_note("a".to_string()).unwrap().unwrap();
    assert_eq!(got, n);
    st.remove_temp_note("a".to_string()).unwrap();
    assert!(st.get_temp_note("a".to_string()).unwrap().is_none());
    let all = st.get_all_temp_notes().unwrap();
    assert!(all.is_empty());
}
