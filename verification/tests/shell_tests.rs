use editor_core::error::EditorError;
use editor_core::position::Position;
use editor_core::session::Action;
use editor_core::shell::{default_file, Command, Event, LoadedFile, Shell};

fn letters(s: &str) -> Vec<char> {
    s.chars().collect()
}

fn opened(path: &str, text: &str) -> Event {
    Event::FileOpened(Ok(LoadedFile { path: String::from(path), text: letters(text) }))
}

#[test]
fn default_file_lies_below_the_manifest_directory() {
    assert_eq!(default_file("/home/me/editor"), "/home/me/editor/src/main.rs");
    assert_eq!(default_file(""), "/src/main.rs");
}

#[test]
fn shell_starts_unsaved_and_asks_for_the_first_file() {
    let (shell, command) = Shell::new(500, String::from("/tmp/a.rs"));
    assert_eq!(command, Command::Load(String::from("/tmp/a.rs")));
    assert!(shell.can_save());
    assert_eq!(shell.file_path(), &None);
    assert_eq!(shell.last_error(), &None);
    assert_eq!(shell.document().snapshot().text, letters(""));
}

#[test]
fn opened_file_becomes_the_document() {
    let (mut shell, _) = Shell::new(500, String::from("/tmp/a.rs"));
    assert_eq!(shell.update(Event::Open), Command::PickAndLoad);
    assert_eq!(shell.update(opened("/tmp/b.txt", "one\ntwo")), Command::Nothing);
    assert_eq!(shell.file_path(), &Some(String::from("/tmp/b.txt")));
    assert!(!shell.can_save());
    assert_eq!(shell.document().snapshot().text, letters("one\ntwo"));
    assert_eq!(shell.document().snapshot().cursor, Position::new(0, 0));
}

#[test]
fn edits_make_the_document_dirty_and_saving_cleans_it() {
    let (mut shell, _) = Shell::new(500, String::from("/tmp/a.rs"));
    shell.update(opened("/tmp/b.txt", "ab"));
    assert_eq!(shell.update(Event::Edit(Action::Insert('x'), 0)), Command::Nothing);
    assert!(shell.can_save());
    assert_eq!(
        shell.update(Event::Save),
        Command::Save { path: Some(String::from("/tmp/b.txt")), text: letters("xab") }
    );
    assert!(shell.can_save());
    assert_eq!(shell.update(Event::FileSaved(Ok(String::from("/tmp/c.txt")))), Command::Nothing);
    assert!(!shell.can_save());
    assert_eq!(shell.file_path(), &Some(String::from("/tmp/c.txt")));
    assert_eq!(shell.document().snapshot().text, letters("xab"));
}

#[test]
fn saving_without_a_path_asks_for_one() {
    let (mut shell, _) = Shell::new(500, String::from("/tmp/a.rs"));
    shell.update(Event::Edit(Action::Paste(letters("hi")), 0));
    assert_eq!(shell.update(Event::Save), Command::Save { path: None, text: letters("hi") });
}

#[test]
fn cancelled_dialogs_touch_nothing_but_the_error() {
    let (mut shell, _) = Shell::new(500, String::from("/tmp/a.rs"));
    shell.update(opened("/tmp/b.txt", "ab"));
    assert_eq!(shell.update(Event::FileOpened(Err(EditorError::Cancelled))), Command::Nothing);
    assert!(!shell.can_save());
    assert_eq!(shell.last_error(), &Some(EditorError::Cancelled));
    assert_eq!(shell.file_path(), &Some(String::from("/tmp/b.txt")));
    shell.update(Event::Edit(Action::Insert('x'), 0));
    assert_eq!(shell.last_error(), &None);
    assert_eq!(shell.update(Event::FileSaved(Err(EditorError::Cancelled))), Command::Nothing);
    assert!(shell.can_save());
    assert_eq!(shell.document().snapshot().text, letters("xab"));
    assert_eq!(shell.last_error(), &Some(EditorError::Cancelled));
}

#[test]
fn failed_io_is_noted_with_its_kind() {
    let (mut shell, _) = Shell::new(500, String::from("/tmp/a.rs"));
    let failure = EditorError::IoError { kind: String::from("permission denied") };
    shell.update(Event::FileSaved(Err(failure.clone())));
    assert_eq!(shell.last_error(), &Some(failure));
    assert!(shell.can_save());
    let missing = EditorError::IoError { kind: String::from("entity not found") };
    shell.update(Event::FileOpened(Err(missing.clone())));
    assert_eq!(shell.last_error(), &Some(missing));
    assert_eq!(shell.document().snapshot().text, letters(""));
}

#[test]
fn a_new_document_is_empty_unsaved_and_without_a_path() {
    let (mut shell, _) = Shell::new(500, String::from("/tmp/a.rs"));
    shell.update(opened("/tmp/b.txt", "ab"));
    assert_eq!(shell.update(Event::New), Command::Nothing);
    assert_eq!(shell.file_path(), &None);
    assert!(shell.can_save());
    assert_eq!(shell.document().snapshot().text, letters(""));
    assert_eq!(shell.document().undo_depth(), 0);
}
