//! The decisions of the editor window: what each event does to the open
//! document, and which outside work it asks for.

use crate::error::EditorError;
use crate::session::{fresh, loaded, stepped, Action, EditorSession};
use vstd::prelude::*;
use vstd::string::*;

verus! {

/// The path of the file that is opened at start: `src/main.rs` below
/// `manifest_dir`.
pub fn default_file(manifest_dir: &str) -> (path: String)
    ensures
        path@ == manifest_dir@ + "/src/main.rs"@,
{
    let mut path = manifest_dir.to_owned();
    path.append("/src/main.rs");
    path
}

/// A file that was read: where it is kept and what it holds.
#[derive(Debug)]
pub struct LoadedFile {
    pub path: String,
    pub text: Vec<char>,
}

/// What happened: a press of a button, an edit, or the end of outside work.
#[derive(Debug)]
pub enum Event {
    /// A new, empty document was asked for.
    New,
    /// The user acted on the text at the given time.
    Edit(Action, u64),
    /// Opening a file was asked for.
    Open,
    /// A file was read, with its path and text, or was not.
    FileOpened(Result<LoadedFile, EditorError>),
    /// Saving was asked for.
    Save,
    /// The text was written to the given path, or was not.
    FileSaved(Result<String, EditorError>),
}

/// The outside work that an event asks for.
#[derive(Clone, Debug, PartialEq, Eq)]
pub enum Command {
    /// Nothing.
    Nothing,
    /// Read the file at this path.
    Load(String),
    /// Let the user pick a file, and read it.
    PickAndLoad,
    /// Write `text` to `path`, or to a path that the user picks if there is
    /// none.
    Save { path: Option<String>, text: Vec<char> },
}

/// The window's state: the open document, where it is kept, and the last
/// failure of outside work.
pub struct Shell {
    session: EditorSession,
    path: Option<String>,
    error: Option<EditorError>,
    window: u64,
}

impl Shell {
    /// The open document.
    pub closed spec fn session(&self) -> EditorSession {
        self.session
    }

    /// The path of the open document, if it has one.
    pub closed spec fn path(&self) -> Option<String> {
        self.path
    }

    /// The last failure of outside work that no later edit has cleared.
    pub closed spec fn error(&self) -> Option<EditorError> {
        self.error
    }

    /// The pause within which typed characters are undone together.
    pub closed spec fn window(&self) -> u64 {
        self.window
    }

    /// The open document is well formed and gathers typed characters as the
    /// window says.
    pub open spec fn wf(&self) -> bool {
        &&& self.session().wf()
        &&& self.session().history().window() == self.window()
    }

    /// The state at start: an empty, unsaved document without a path, and the
    /// request to read the file at `first_file`.
    pub fn new(window: u64, first_file: String) -> (start: (Shell, Command))
        ensures
            start.0.wf(),
            start.0.window() == window,
            start.0.path() is None,
            start.0.error() is None,
            fresh(start.0.session(), window),
            start.1 == Command::Load(first_file),
    {
        let shell = Shell { session: EditorSession::new(window), path: None, error: None, window };
        (shell, Command::Load(first_file))
    }

    /// The open document, to read.
    pub fn document(&self) -> (session: &EditorSession)
        ensures
            *session == self.session(),
    {
        &self.session
    }

    /// The path of the open document, if it has one.
    pub fn file_path(&self) -> (path: &Option<String>)
        ensures
            *path == self.path(),
    {
        &self.path
    }

    /// The last failure of outside work, if no edit has cleared it.
    pub fn last_error(&self) -> (error: &Option<EditorError>)
        ensures
            *error == self.error(),
    {
        &self.error
    }

    /// Whether there is anything to save: the document is dirty.
    pub fn can_save(&self) -> (yes: bool)
        ensures
            yes == self.session().is_dirty(),
    {
        self.session.snapshot().dirty
    }

    /// Takes in `event` and returns the outside work that it asks for.
    ///
    /// A new document replaces the open one and counts as unsaved. An edit
    /// goes to the document and clears the last failure. A file that was read
    /// becomes the document, clean; a file that was written leaves the
    /// document clean. Outside work that failed or was cancelled is noted and
    /// touches neither the document nor its path.
    pub fn update(&mut self, event: Event) -> (command: Command)
        requires
            old(self).wf(),
        ensures
            final(self).wf(),
            final(self).window() == old(self).window(),
            event is New ==> {
                &&& command is Nothing
                &&& final(self).path() is None
                &&& final(self).error() == old(self).error()
                &&& fresh(final(self).session(), old(self).window())
            },
            event matches Event::Edit(action, now) ==> {
                &&& command is Nothing
                &&& final(self).path() == old(self).path()
                &&& final(self).error() is None
                &&& stepped(old(self).session(), action, now, final(self).session())
            },
            event is Open ==> {
                &&& command is PickAndLoad
                &&& final(self).session() == old(self).session()
                &&& final(self).path() == old(self).path()
                &&& final(self).error() == old(self).error()
            },
            event is Save ==> {
                &&& command matches Command::Save { path, text }
                &&& path is Some == old(self).path() is Some
                &&& path is Some ==> path->Some_0@ == old(self).path()->Some_0@
                &&& text@ == old(self).session().text()
                &&& final(self).session() == old(self).session()
                &&& final(self).path() == old(self).path()
                &&& final(self).error() == old(self).error()
            },
            event matches Event::FileOpened(Ok(file)) ==> {
                &&& command is Nothing
                &&& final(self).path() == Some(file.path)
                &&& final(self).error() == old(self).error()
                &&& loaded(
                    old(self).session(),
                    file.text@,
                    final(self).session(),
                )
            },
            event matches Event::FileSaved(Ok(path)) ==> {
                &&& command is Nothing
                &&& final(self).path() == Some(path)
                &&& final(self).error() == old(self).error()
                &&& !final(self).session().is_dirty()
                &&& final(self).session().text() == old(self).session().text()
                &&& final(self).session().cursor() == old(self).session().cursor()
                &&& final(self).session().history() == old(self).session().history()
            },
            event matches Event::FileOpened(Err(failure)) ==> {
                &&& command is Nothing
                &&& final(self).error() == Some(failure)
                &&& final(self).session() == old(self).session()
                &&& final(self).path() == old(self).path()
            },
            event matches Event::FileSaved(Err(failure)) ==> {
                &&& command is Nothing
                &&& final(self).error() == Some(failure)
                &&& final(self).session() == old(self).session()
                &&& final(self).path() == old(self).path()
            },
    {
        match event {
            Event::New => {
                self.path = None;
                self.session = EditorSession::new(self.window);
                Command::Nothing
            },
            Event::Edit(action, now) => {
                self.error = None;
                let _ = self.session.apply_action(action, now);
                Command::Nothing
            },
            Event::Open => Command::PickAndLoad,
            Event::FileOpened(Ok(file)) => {
                self.path = Some(file.path);
                self.session.load(file.text);
                Command::Nothing
            },
            Event::FileOpened(Err(failure)) => {
                self.error = Some(failure);
                Command::Nothing
            },
            Event::Save => {
                let path = match &self.path {
                    Some(path) => Some(path.clone()),
                    None => None,
                };
                Command::Save { path, text: self.session.snapshot().text }
            },
            Event::FileSaved(Ok(path)) => {
                self.path = Some(path);
                self.session.mark_persisted();
                Command::Nothing
            },
            Event::FileSaved(Err(failure)) => {
                self.error = Some(failure);
                Command::Nothing
            },
        }
    }
}

} // verus!
