use note_app::note::Note;
use note_app::store::NoteApp;
use note_app::text::contains_text;

fn note(id: usize, title: &str, content: &str, created_at: &str) -> Note {
    Note {
        id,
        title: title.to_string(),
        content: content.to_string(),
        created_at: created_at.to_string(),
    }
}

fn store_of(notes: Vec<Note>) -> NoteApp {
    NoteApp::from_loaded(Some(notes))
}

fn three_notes() -> NoteApp {
    store_of(vec![
        note(0, "first", "one", "2024-01-01 10:00"),
        note(1, "second", "two", "2024-01-02 11:00"),
        note(2, "third", "three", "2024-01-03 12:00"),
    ])
}

fn ids(app: &NoteApp) -> Vec<usize> {
    app.notes.iter().map(|n| n.id).collect()
}

#[test]
fn missing_file_gives_empty_store() {
    let app = NoteApp::from_loaded(None);
    assert!(app.notes.is_empty());
    assert_eq!(app.selected_note, None);
    assert!(app.new_note_title.is_empty());
    assert!(app.new_note_content.is_empty());
    assert!(app.search_query.is_empty());
}

#[test]
fn loaded_notes_are_kept_as_read() {
    let app = store_of(vec![note(7, "t", "c", "d"), note(3, "u", "v", "w")]);
    assert_eq!(app.notes, vec![note(7, "t", "c", "d"), note(3, "u", "v", "w")]);
    assert_eq!(app.selected_note, None);
}

#[test]
fn create_on_empty_store() {
    let mut app = NoteApp::from_loaded(None);
    app.new_note_title = "A".to_string();
    app.new_note_content = "x".to_string();
    let r = app.create_note_at("2024-05-06 07:08".to_string());
    assert_eq!(r, Some(0));
    assert_eq!(app.notes, vec![note(0, "A", "x", "2024-05-06 07:08")]);
    assert_eq!(app.selected_note, Some(0));
    assert!(app.new_note_title.is_empty());
    assert!(app.new_note_content.is_empty());
}

#[test]
fn create_appends_with_next_id() {
    let mut app = three_notes();
    app.new_note_title = "fourth".to_string();
    app.new_note_content = "four".to_string();
    let r = app.create_note_at("2024-01-04 13:00".to_string());
    assert_eq!(r, Some(3));
    assert_eq!(ids(&app), vec![0, 1, 2, 3]);
    assert_eq!(app.notes[3], note(3, "fourth", "four", "2024-01-04 13:00"));
}

#[test]
fn create_with_empty_title_changes_nothing() {
    let mut app = three_notes();
    app.new_note_content = "x".to_string();
    app.selected_note = Some(1);
    let r = app.create_note_at("2024-05-06 07:08".to_string());
    assert_eq!(r, None);
    assert_eq!(app.notes, three_notes().notes);
    assert_eq!(app.selected_note, Some(1));
    assert_eq!(app.new_note_content, "x");
}

#[test]
fn create_with_clock_stamps_the_note() {
    let mut app = NoteApp::from_loaded(None);
    app.new_note_title = "A".to_string();
    app.new_note_content = "x".to_string();
    let r = app.create_note();
    assert_eq!(r, Some(0));
    assert_eq!(app.notes.len(), 1);
    let stamp = app.notes[0].created_at.clone();
    let chars: Vec<char> = stamp.chars().collect();
    assert_eq!(chars.len(), 16);
    assert_eq!(chars[4], '-');
    assert_eq!(chars[7], '-');
    assert_eq!(chars[10], ' ');
    assert_eq!(chars[13], ':');
    assert_eq!(app.notes[0].title, "A");
}

#[test]
fn create_with_clock_and_empty_title_changes_nothing() {
    let mut app = NoteApp::from_loaded(None);
    app.new_note_content = "x".to_string();
    assert_eq!(app.create_note(), None);
    assert!(app.notes.is_empty());
}

#[test]
fn delete_middle_renumbers() {
    let mut app = three_notes();
    app.delete_note(1);
    assert_eq!(
        app.notes,
        vec![
            note(0, "first", "one", "2024-01-01 10:00"),
            note(1, "third", "three", "2024-01-03 12:00"),
        ]
    );
}

#[test]
fn delete_first_renumbers_all() {
    let mut app = three_notes();
    app.delete_note(0);
    assert_eq!(ids(&app), vec![0, 1]);
    assert_eq!(app.notes[0].title, "second");
    assert_eq!(app.notes[1].title, "third");
}

#[test]
fn delete_missing_id_keeps_notes() {
    let mut app = three_notes();
    app.delete_note(9);
    assert_eq!(app.notes, three_notes().notes);
}

#[test]
fn delete_removes_every_note_with_the_id() {
    let mut app = store_of(vec![
        note(4, "a", "", ""),
        note(2, "b", "", ""),
        note(4, "c", "", ""),
    ]);
    app.delete_note(4);
    assert_eq!(app.notes, vec![note(0, "b", "", "")]);
}

#[test]
fn delete_renumbers_loaded_ids() {
    let mut app = store_of(vec![note(5, "a", "", ""), note(8, "b", "", "")]);
    app.delete_note(1);
    assert_eq!(ids(&app), vec![0, 1]);
}

#[test]
fn delete_selected_clears_selection() {
    let mut app = three_notes();
    app.selected_note = Some(1);
    app.delete_note(1);
    assert_eq!(app.selected_note, None);
}

#[test]
fn delete_other_keeps_selection() {
    let mut app = three_notes();
    app.selected_note = Some(2);
    app.delete_note(0);
    assert_eq!(app.selected_note, Some(2));
}

#[test]
fn update_changes_content_only() {
    let mut app = three_notes();
    assert!(app.update_note(1, "new content".to_string()));
    assert_eq!(app.notes[1], note(1, "second", "new content", "2024-01-02 11:00"));
    assert_eq!(app.notes[0], three_notes().notes[0]);
    assert_eq!(app.notes[2], three_notes().notes[2]);
}

#[test]
fn update_missing_id_is_a_no_op() {
    let mut app = three_notes();
    assert!(!app.update_note(3, "new content".to_string()));
    assert_eq!(app.notes, three_notes().notes);
}

#[test]
fn update_changes_first_match_only() {
    let mut app = store_of(vec![note(1, "a", "x", ""), note(1, "b", "y", "")]);
    assert!(app.update_note(1, "z".to_string()));
    assert_eq!(app.notes, vec![note(1, "a", "z", ""), note(1, "b", "y", "")]);
}

fn hello_and_other() -> NoteApp {
    store_of(vec![
        note(0, "Hello world", "body", "2024-01-01 10:00"),
        note(1, "other", "text", "2024-01-02 11:00"),
    ])
}

#[test]
fn filter_matches_title_ignoring_case() {
    let mut app = hello_and_other();
    app.search_query = "hello".to_string();
    let shown: Vec<usize> = app.filtered_notes().iter().map(|n| n.id).collect();
    assert_eq!(shown, vec![0]);
}

#[test]
fn filter_folds_the_query_too() {
    let mut app = hello_and_other();
    app.search_query = "WORLD".to_string();
    let shown: Vec<usize> = app.filtered_notes().iter().map(|n| n.id).collect();
    assert_eq!(shown, vec![0]);
}

#[test]
fn filter_empty_query_shows_all_in_order() {
    let app = hello_and_other();
    let shown: Vec<&str> = app.filtered_notes().iter().map(|n| n.title.as_str()).collect();
    assert_eq!(shown, vec!["Hello world", "other"]);
}

#[test]
fn filter_matches_content() {
    let mut app = hello_and_other();
    app.search_query = "EX".to_string();
    let shown: Vec<usize> = app.filtered_notes().iter().map(|n| n.id).collect();
    assert_eq!(shown, vec![1]);
}

#[test]
fn filter_without_match_is_empty() {
    let mut app = hello_and_other();
    app.search_query = "absent".to_string();
    assert!(app.filtered_notes().is_empty());
}

#[test]
fn filter_keeps_order_of_matches() {
    let mut app = store_of(vec![
        note(0, "Rust notes", "", ""),
        note(1, "shopping", "", ""),
        note(2, "more", "TRUSTED", ""),
    ]);
    app.search_query = "rust".to_string();
    let shown: Vec<usize> = app.filtered_notes().iter().map(|n| n.id).collect();
    assert_eq!(shown, vec![0, 2]);
}

#[test]
fn filter_folds_non_ascii_letters() {
    let mut app = store_of(vec![note(0, "ÉTÉ", "", ""), note(1, "hiver", "", "")]);
    app.search_query = "été".to_string();
    let shown: Vec<usize> = app.filtered_notes().iter().map(|n| n.id).collect();
    assert_eq!(shown, vec![0]);
}

#[test]
fn contains_text_finds_runs() {
    assert!(contains_text("hello world", "lo w"));
    assert!(contains_text("hello", "hello"));
    assert!(contains_text("hello", "o"));
    assert!(!contains_text("hello", "hellos"));
    assert!(!contains_text("hello", "lh"));
    assert!(!contains_text("Hello", "hello"));
}

#[test]
fn contains_text_empty_needle() {
    assert!(contains_text("abc", ""));
    assert!(contains_text("", ""));
    assert!(!contains_text("", "a"));
}

#[test]
fn contains_text_non_ascii() {
    assert!(contains_text("naïve café", "ïve c"));
    assert!(!contains_text("naïve", "nai"));
}
