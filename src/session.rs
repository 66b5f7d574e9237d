use vstd::prelude::*;
use std::time::Instant;
use crate::interop::{Endpoint, RRequest, RustideMessage, RustideState};
use crate::ui::{InputState, Key, Modifiers};

verus! {

#[verifier::external_type_specification]
#[verifier::external_body]
pub struct ExInstant(Instant);

/// Relies on std::time::Instant::now: the current time; nothing is promised of it.
#[verifier::external_body]
fn now() -> (r: Instant) {
    Instant::now()
}

/// A list of file names to show.
pub struct FileList<'a> {
    list: &'a [String],
}

impl<'a> FileList<'a> {
    pub closed spec fn entries(&self) -> Seq<String> {
        self.list@
    }

    pub fn new(list: &'a [String]) -> (r: FileList<'a>)
        ensures
            r.entries() == list@,
    {
        FileList { list }
    }

    pub fn entry_names(&self) -> (r: &'a [String])
        ensures
            r@ == self.entries(),
    {
        self.list
    }
}

/// The front end's state.
pub struct Rustide {
    pub link: Endpoint,
    pub debug_strs: Vec<String>,
    pub state: RustideState,
    pub curr: Instant,
    pub show_explorer: bool,
}

/// The explorer toggles on command+shift+E with alt released; ctrl is free.
pub open spec fn explorer_chord(input: &InputState) -> bool {
    &&& input.pressed@.contains(Key { symbol: 'E' })
    &&& !input.modifiers.alt
    &&& input.modifiers.command
    &&& input.modifiers.shift
}

impl Rustide {
    pub fn new(link: Endpoint) -> (r: Rustide)
        ensures
            r.link == link,
            r.debug_strs@ == Seq::<String>::empty(),
            r.state.name@ == "Arthur"@,
            r.state.age == 42,
            r.state.files@ == Seq::<String>::empty(),
            r.state.selection == 0,
            r.show_explorer,
    {
        proof {
            reveal_strlit("Arthur");
        }
        Rustide {
            link,
            debug_strs: Vec::new(),
            curr: now(),
            state: RustideState {
                name: "Arthur".to_owned(),
                age: 42,
                files: Vec::new(),
                selection: 0,
            },
            show_explorer: true,
        }
    }

    /// Applies one message from the backend: a debug string is recorded, a new
    /// state replaces the current one, and anything else changes nothing.
    pub fn handle_message(&mut self, msg: RustideMessage)
        ensures
            match msg {
                RustideMessage::Request(RRequest::Debug(s)) => {
                    &&& final(self).debug_strs@ == old(self).debug_strs@.push(s)
                    &&& final(self).state == old(self).state
                },
                RustideMessage::Request(RRequest::State(st)) => {
                    &&& final(self).state == st
                    &&& final(self).debug_strs == old(self).debug_strs
                },
                _ => {
                    &&& final(self).state == old(self).state
                    &&& final(self).debug_strs == old(self).debug_strs
                },
            },
            final(self).link == old(self).link,
            final(self).curr == old(self).curr,
            final(self).show_explorer == old(self).show_explorer,
    {
        match msg {
            RustideMessage::Request(RRequest::Debug(string)) => {
                self.debug_strs.push(string);
            },
            RustideMessage::Request(RRequest::State(state)) => {
                self.state = state;
            },
            _ => {},
        }
    }

    /// Takes the next waiting message from the link, if any, and applies it.
    pub fn listen(&mut self)
        ensures
            final(self).link == old(self).link,
            final(self).show_explorer == old(self).show_explorer,
    {
        if let Some(msg) = crate::interop::try_receive(&self.link.1) {
            self.handle_message(msg);
        }
    }

    /// Toggles the explorer when the frame's input holds its chord.
    pub fn handle_input(&mut self, input: &InputState)
        ensures
            final(self).show_explorer == (old(self).show_explorer != explorer_chord(input)),
            final(self).link == old(self).link,
            final(self).curr == old(self).curr,
            final(self).state == old(self).state,
            final(self).debug_strs == old(self).debug_strs,
    {
        let m: Modifiers = input.modifiers;
        if input.key_pressed(Key { symbol: 'E' }) && !m.alt && m.command && m.shift {
            self.show_explorer = !self.show_explorer;
        }
    }
}

} // verus!
