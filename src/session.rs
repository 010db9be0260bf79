//! An editing session as a state machine: each key either edits the buffer,
//! drives a modal text prompt, or asks the caller for file work.

use vstd::prelude::*;
use vstd::string::StringExecFns;
use crate::buffer::{BufferState, loaded};
use crate::editor::Editor;
use crate::llm::{LlamaModel, processed};
use crate::text::string_of;

verus! {

/// A key event, already sorted into the commands of the editor.
#[derive(Clone, Copy, Debug, PartialEq, Eq, Structural)]
pub enum Key {
    Quit,
    Save,
    Open,
    Transform,
    ToEnd,
    ToStart,
    Char(char),
    Enter,
    Backspace,
    Left,
    Right,
    Up,
    Down,
    Esc,
    Other,
}

/// What a modal prompt collects text for.
#[derive(Clone, Copy, Debug, PartialEq, Eq, Structural)]
pub enum PromptKind {
    Filename,
    Instruction,
}

/// A modal prompt and the text typed into it so far.
pub struct Prompt {
    pub kind: PromptKind,
    pub input: Vec<char>,
}

/// What the caller has to do after a key.
pub enum Action {
    /// Nothing but a redraw.
    Nothing,
    /// Leave the session.
    Quit,
    /// Write `content` to the file `name`, then call `saved`.
    Save { name: String, content: String },
    /// Read the file `name` if it exists, then call `open_file`.
    Open { name: String },
}

pub open spec fn no_filename_message() -> Seq<char> {
    "No filename set. Use Ctrl-O to set filename."@
}

pub open spec fn saved_message(name: Seq<char>) -> Seq<char> {
    "Saved file: "@ + name
}

pub open spec fn loaded_message(name: Seq<char>) -> Seq<char> {
    "Loaded file: "@ + name
}

pub open spec fn new_file_message() -> Seq<char> {
    "New file. Use Ctrl-S to save."@
}

/// The action asks to save `content` under `name`.
pub open spec fn is_save_of(a: Action, name: Seq<char>, content: Seq<char>) -> bool {
    match a {
        Action::Save { name: n, content: c } => n@ == name && c@ == content,
        _ => false,
    }
}

/// The action asks to open the file `name`.
pub open spec fn is_open_of(a: Action, name: Seq<char>) -> bool {
    match a {
        Action::Open { name: n } => n@ == name,
        _ => false,
    }
}

/// What a key does to the buffer while no prompt is open.
pub open spec fn edit_step(b: BufferState, key: Key) -> BufferState {
    match key {
        Key::Char(c) => if c == '\n' { b.insert_newline() } else { b.insert_char(c) },
        Key::Enter => b.insert_newline(),
        Key::Backspace => b.delete_char(),
        Key::Left => b.move_left(),
        Key::Right => b.move_right(),
        Key::Up => b.move_up(),
        Key::Down => b.move_down(),
        Key::ToEnd => b.move_to_end(),
        Key::ToStart => b.move_to_start(),
        _ => b,
    }
}

/// What a key does to the text of an open prompt.
pub open spec fn prompt_step(input: Seq<char>, key: Key) -> Seq<char> {
    match key {
        Key::Char(c) => input.push(c),
        Key::Backspace => if input.len() > 0 { input.drop_last() } else { input },
        _ => input,
    }
}

/// An editing session: the editor, the transform, an open prompt if any, and
/// whether the session has ended.
pub struct UI {
    pub editor: Editor,
    pub llm: LlamaModel,
    pub prompt: Option<Prompt>,
    pub quit: bool,
}

impl UI {
    pub open spec fn wf(&self) -> bool {
        self.editor.wf()
    }

    pub open spec fn buffer(&self) -> BufferState {
        self.editor@
    }

    pub open spec fn filename(&self) -> Option<Seq<char>> {
        match self.editor.filename {
            Some(f) => Some(f@),
            None => None,
        }
    }

    pub open spec fn status(&self) -> Seq<char> {
        self.editor.status_message@
    }

    pub open spec fn prompt_view(&self) -> Option<(PromptKind, Seq<char>)> {
        match self.prompt {
            Some(p) => Some((p.kind, p.input@)),
            None => None,
        }
    }

    /// A session on an empty buffer, with no prompt open.
    pub fn new() -> (r: UI)
        ensures
            r.wf(),
            r.buffer() == crate::buffer::empty_buffer(),
            r.filename().is_none(),
            r.status().len() == 0,
            r.prompt_view().is_none(),
            !r.quit,
    {
        UI { editor: Editor::new(), llm: LlamaModel::new(), prompt: None, quit: false }
    }

    /// Buffer, file name and status are those of `other`.
    pub open spec fn same_editor(&self, other: &UI) -> bool {
        &&& self.buffer() == other.buffer()
        &&& self.filename() == other.filename()
        &&& self.status() == other.status()
    }

    /// Handles one key. An ended session ignores every key. With no prompt
    /// open, a key edits the buffer, opens a prompt, ends the session, or asks
    /// for the buffer to be saved. With a prompt open, a key edits its text,
    /// cancels it, or commits it: a file name is handed back to be opened, an
    /// instruction is run through the transform, whose answer becomes the
    /// status.
    pub fn handle_key(&mut self, key: Key) -> (r: Action)
        requires
            old(self).wf(),
        ensures
            final(self).wf(),
            old(self).quit ==> {
                &&& final(self).same_editor(old(self))
                &&& final(self).prompt_view() == old(self).prompt_view()
                &&& final(self).quit
                &&& r is Nothing
            },
            !old(self).quit && old(self).prompt_view().is_none() ==> {
                &&& final(self).quit == (key == Key::Quit)
                &&& final(self).filename() == old(self).filename()
                &&& (key == Key::Quit ==> final(self).same_editor(old(self)) && r is Quit
                    && final(self).prompt_view().is_none())
                &&& (key == Key::Save ==> {
                    &&& final(self).buffer() == old(self).buffer()
                    &&& final(self).prompt_view().is_none()
                    &&& (old(self).filename() is Some ==> is_save_of(
                        r,
                        old(self).filename()->0,
                        old(self).buffer().content(),
                    ) && final(self).status() == old(self).status())
                    &&& (old(self).filename() is None ==> r is Nothing && final(self).status()
                        == no_filename_message())
                })
                &&& (key == Key::Open ==> final(self).same_editor(old(self)) && r is Nothing
                    && final(self).prompt_view() == Some((PromptKind::Filename, Seq::<char>::empty())))
                &&& (key == Key::Transform ==> final(self).same_editor(old(self)) && r is Nothing
                    && final(self).prompt_view() == Some((PromptKind::Instruction, Seq::<char>::empty())))
                &&& (key != Key::Quit && key != Key::Save && key != Key::Open && key != Key::Transform
                    ==> {
                    &&& final(self).buffer() == edit_step(old(self).buffer(), key)
                    &&& final(self).status() == old(self).status()
                    &&& final(self).prompt_view().is_none()
                    &&& r is Nothing
                })
            },
            !old(self).quit && old(self).prompt_view() is Some ==> {
                let kind = old(self).prompt->0.kind;
                let input = old(self).prompt->0.input@;
                &&& !final(self).quit
                &&& final(self).buffer() == old(self).buffer()
                &&& final(self).filename() == old(self).filename()
                &&& (key == Key::Esc ==> final(self).status() == old(self).status() && r is Nothing
                    && final(self).prompt_view().is_none())
                &&& (key == Key::Enter && kind == PromptKind::Filename ==> {
                    &&& final(self).status() == old(self).status()
                    &&& final(self).prompt_view().is_none()
                    &&& (input.len() == 0 ==> r is Nothing)
                    &&& (input.len() > 0 ==> is_open_of(r, input))
                })
                &&& (key == Key::Enter && kind == PromptKind::Instruction ==> {
                    &&& final(self).status() == processed(input, old(self).buffer().content())
                    &&& final(self).prompt_view().is_none()
                    &&& r is Nothing
                })
                &&& (key != Key::Esc && key != Key::Enter ==> {
                    &&& final(self).status() == old(self).status()
                    &&& final(self).prompt_view() == Some((kind, prompt_step(input, key)))
                    &&& r is Nothing
                })
            },
    {
        if self.quit {
            return Action::Nothing;
        }
        let p = self.prompt.take();
        match p {
            None => self.editing_key(key),
            Some(p) => self.prompt_key(p, key),
        }
    }

    /// A key with no prompt open.
    fn editing_key(&mut self, key: Key) -> (r: Action)
        requires
            old(self).wf(),
            old(self).prompt.is_none(),
            !old(self).quit,
        ensures
            final(self).wf(),
            final(self).quit == (key == Key::Quit),
            final(self).filename() == old(self).filename(),
            key == Key::Quit ==> final(self).same_editor(old(self)) && r is Quit
                && final(self).prompt_view().is_none(),
            key == Key::Save ==> {
                &&& final(self).buffer() == old(self).buffer()
                &&& final(self).prompt_view().is_none()
                &&& (old(self).filename() is Some ==> is_save_of(
                    r,
                    old(self).filename()->0,
                    old(self).buffer().content(),
                ) && final(self).status() == old(self).status())
                &&& (old(self).filename() is None ==> r is Nothing && final(self).status()
                    == no_filename_message())
            },
            key == Key::Open ==> final(self).same_editor(old(self)) && r is Nothing
                && final(self).prompt_view() == Some((PromptKind::Filename, Seq::<char>::empty())),
            key == Key::Transform ==> final(self).same_editor(old(self)) && r is Nothing
                && final(self).prompt_view() == Some((PromptKind::Instruction, Seq::<char>::empty())),
            key != Key::Quit && key != Key::Save && key != Key::Open && key != Key::Transform ==> {
                &&& final(self).buffer() == edit_step(old(self).buffer(), key)
                &&& final(self).status() == old(self).status()
                &&& final(self).prompt_view().is_none()
                &&& r is Nothing
            },
    {
        match key {
            Key::Quit => {
                self.quit = true;
                Action::Quit
            },
            Key::Save => {
                match &self.editor.filename {
                    Some(f) => {
                        let name = f.clone();
                        Action::Save { name, content: self.editor.get_content() }
                    },
                    None => {
                        self.editor.status_message = String::from_str(
                            "No filename set. Use Ctrl-O to set filename.",
                        );
                        Action::Nothing
                    },
                }
            },
            Key::Open => {
                self.prompt = Some(Prompt { kind: PromptKind::Filename, input: Vec::new() });
                assert(self.prompt->0.input@ =~= Seq::<char>::empty());
                Action::Nothing
            },
            Key::Transform => {
                self.prompt = Some(Prompt { kind: PromptKind::Instruction, input: Vec::new() });
                assert(self.prompt->0.input@ =~= Seq::<char>::empty());
                Action::Nothing
            },
            Key::Char(c) => {
                if c == '\n' {
                    self.editor.insert_newline();
                } else {
                    self.editor.insert_char(c);
                }
                Action::Nothing
            },
            Key::Enter => {
                self.editor.insert_newline();
                Action::Nothing
            },
            Key::Backspace => {
                self.editor.delete_char();
                Action::Nothing
            },
            Key::Left => {
                self.editor.move_cursor_left();
                Action::Nothing
            },
            Key::Right => {
                self.editor.move_cursor_right();
                Action::Nothing
            },
            Key::Up => {
                self.editor.move_cursor_up();
                Action::Nothing
            },
            Key::Down => {
                self.editor.move_cursor_down();
                Action::Nothing
            },
            Key::ToEnd => {
                self.editor.move_cursor_to_end();
                Action::Nothing
            },
            Key::ToStart => {
                self.editor.move_cursor_to_start();
                Action::Nothing
            },
            Key::Esc | Key::Other => Action::Nothing,
        }
    }

    /// A key while the prompt `p`, just taken out of the session, is open.
    fn prompt_key(&mut self, p: Prompt, key: Key) -> (r: Action)
        requires
            old(self).wf(),
            old(self).prompt.is_none(),
            !old(self).quit,
        ensures
            final(self).wf(),
            !final(self).quit,
            final(self).buffer() == old(self).buffer(),
            final(self).filename() == old(self).filename(),
            key == Key::Esc ==> final(self).status() == old(self).status() && r is Nothing
                && final(self).prompt_view().is_none(),
            key == Key::Enter && p.kind == PromptKind::Filename ==> {
                &&& final(self).status() == old(self).status()
                &&& final(self).prompt_view().is_none()
                &&& (p.input@.len() == 0 ==> r is Nothing)
                &&& (p.input@.len() > 0 ==> is_open_of(r, p.input@))
            },
            key == Key::Enter && p.kind == PromptKind::Instruction ==> {
                &&& final(self).status() == processed(p.input@, old(self).buffer().content())
                &&& final(self).prompt_view().is_none()
                &&& r is Nothing
            },
            key != Key::Esc && key != Key::Enter ==> {
                &&& final(self).status() == old(self).status()
                &&& final(self).prompt_view() == Some((p.kind, prompt_step(p.input@, key)))
                &&& r is Nothing
            },
    {
        let mut p = p;
        match key {
            Key::Esc => Action::Nothing,
            Key::Enter => {
                let text = string_of(&p.input);
                match p.kind {
                    PromptKind::Filename => {
                        if p.input.len() == 0 {
                            Action::Nothing
                        } else {
                            Action::Open { name: text }
                        }
                    },
                    PromptKind::Instruction => {
                        let content = self.editor.get_content();
                        self.editor.status_message = self.llm.process(text.as_str(), content);
                        Action::Nothing
                    },
                }
            },
            Key::Char(c) => {
                p.input.push(c);
                self.prompt = Some(p);
                Action::Nothing
            },
            Key::Backspace => {
                if p.input.len() > 0 {
                    p.input.pop();
                }
                self.prompt = Some(p);
                Action::Nothing
            },
            _ => {
                self.prompt = Some(p);
                Action::Nothing
            },
        }
    }

    /// The buffer was written to the session's file: says so in the status.
    /// Without a file name nothing changes.
    pub fn saved(&mut self)
        requires
            old(self).wf(),
        ensures
            final(self).wf(),
            final(self).buffer() == old(self).buffer(),
            final(self).filename() == old(self).filename(),
            final(self).prompt_view() == old(self).prompt_view(),
            final(self).quit == old(self).quit,
            old(self).filename() is Some ==> final(self).status() == saved_message(
                old(self).filename()->0,
            ),
            old(self).filename() is None ==> final(self).status() == old(self).status(),
    {
        match &self.editor.filename {
            Some(f) => {
                let mut msg = String::from_str("Saved file: ");
                msg.append(f.as_str());
                self.editor.status_message = msg;
            },
            None => {},
        }
    }

    /// The file `name` was asked for: `text` is what it holds when it exists.
    /// An existing file is loaded into the buffer; either way `name` becomes
    /// the session's file.
    pub fn open_file(&mut self, name: String, text: Option<&str>)
        requires
            old(self).wf(),
        ensures
            final(self).wf(),
            final(self).filename() == Some(name@),
            final(self).prompt_view() == old(self).prompt_view(),
            final(self).quit == old(self).quit,
            text is Some ==> final(self).buffer() == loaded(text->0@) && final(self).status()
                == loaded_message(name@),
            text is None ==> final(self).buffer() == old(self).buffer() && final(self).status()
                == new_file_message(),
    {
        match text {
            Some(t) => {
                self.editor.load(t);
                let mut msg = String::from_str("Loaded file: ");
                msg.append(name.as_str());
                self.editor.status_message = msg;
            },
            None => {
                self.editor.status_message = String::from_str("New file. Use Ctrl-S to save.");
            },
        }
        self.editor.filename = Some(name);
    }
}

} // verus!
