use vstd::prelude::*;

verus! {

/// A key, named by the character printed on it.
#[derive(Clone, Copy, Debug, PartialEq, Eq, Structural)]
pub struct Key {
    pub symbol: char,
}

/// The modifier keys held down.
#[derive(Clone, Copy, Debug, PartialEq, Eq, Structural)]
pub struct Modifiers {
    pub ctrl: bool,
    pub command: bool,
    pub shift: bool,
    pub alt: bool,
}

/// The keyboard input of one frame.
pub struct InputState {
    /// Keys pressed during the frame.
    pub pressed: Vec<Key>,
    pub modifiers: Modifiers,
}

impl InputState {
    pub fn key_pressed(&self, key: Key) -> (r: bool)
        ensures
            r == self.pressed@.contains(key),
    {
        let mut i: usize = 0;
        while i < self.pressed.len()
            invariant
                i <= self.pressed.len(),
                forall|k: int| 0 <= k < i ==> self.pressed@[k] != key,
            decreases self.pressed.len() - i,
        {
            if self.pressed[i] == key {
                assert(self.pressed@[i as int] == key);
                return true;
            }
            i += 1;
        }
        false
    }
}

/// A keyboard shortcut test on an input state.
pub trait Chords {
    /// `desired_key` was pressed while exactly `modifiers` were held.
    spec fn chord_spec(&self, desired_key: Key, modifiers: Modifiers) -> bool;

    fn chord_pressed(&self, desired_key: Key, modifiers: Modifiers) -> (r: bool)
        ensures
            r == self.chord_spec(desired_key, modifiers),
    ;
}

impl Chords for InputState {
    /// Every modifier must match, unlike the unset requirements of a `Chord`.
    open spec fn chord_spec(&self, desired_key: Key, modifiers: Modifiers) -> bool {
        self.pressed@.contains(desired_key) && modifiers == self.modifiers
    }

    fn chord_pressed(&self, desired_key: Key, modifiers: Modifiers) -> (r: bool) {
        self.key_pressed(desired_key) && modifiers == self.modifiers
    }
}

/// A key with a requirement on each modifier: held, or (when unset) either way.
pub struct Chord {
    key: Option<Key>,
    ctrl: Option<bool>,
    command: Option<bool>,
    shift: Option<bool>,
    alt: Option<bool>,
}

/// An unset requirement accepts either state of the modifier.
pub open spec fn accepts(want: Option<bool>, held: bool) -> bool {
    want matches Some(w) ==> w == held
}

fn accepts_exec(want: Option<bool>, held: bool) -> (r: bool)
    ensures
        r == accepts(want, held),
{
    match want {
        Some(w) => w == held,
        None => true,
    }
}

impl Chord {
    pub closed spec fn key_spec(&self) -> Option<Key> {
        self.key
    }

    /// The requirements on ctrl, command, shift and alt, in that order.
    pub closed spec fn wants(&self) -> (Option<bool>, Option<bool>, Option<bool>, Option<bool>) {
        (self.ctrl, self.command, self.shift, self.alt)
    }

    /// The chord is triggered by `input`: it has a key, that key was pressed, and
    /// every modifier requirement is met.
    pub open spec fn triggered_by(&self, input: &InputState) -> bool {
        &&& self.key_spec() matches Some(k)
        &&& input.pressed@.contains(k)
        &&& accepts(self.wants().0, input.modifiers.ctrl)
        &&& accepts(self.wants().1, input.modifiers.command)
        &&& accepts(self.wants().2, input.modifiers.shift)
        &&& accepts(self.wants().3, input.modifiers.alt)
    }

    /// A chord with no key and no modifier requirement.
    pub fn new() -> (r: Chord)
        ensures
            r.key_spec() is None,
            r.wants() == (None::<bool>, None::<bool>, None::<bool>, None::<bool>),
    {
        Chord { key: None, ctrl: None, command: None, shift: None, alt: None }
    }

    pub fn matches(self, input_state: &InputState) -> (r: bool)
        ensures
            r == self.triggered_by(input_state),
    {
        if let Some(key) = self.key {
            input_state.key_pressed(key) && accepts_exec(self.ctrl, input_state.modifiers.ctrl)
                && accepts_exec(self.command, input_state.modifiers.command) && accepts_exec(
                self.shift,
                input_state.modifiers.shift,
            ) && accepts_exec(self.alt, input_state.modifiers.alt)
        } else {
            false
        }
    }

    pub fn key(self, key: Key) -> (r: Chord)
        ensures
            r.key_spec() == Some(key),
            r.wants() == self.wants(),
    {
        Chord { key: Some(key), ..self }
    }

    /// Requires ctrl to be held.
    pub fn ctrl(self) -> (r: Chord)
        ensures
            r.key_spec() == self.key_spec(),
            r.wants() == (Some(true), self.wants().1, self.wants().2, self.wants().3),
    {
        Chord { ctrl: Some(true), ..self }
    }

    /// Requires command to be held.
    pub fn command(self) -> (r: Chord)
        ensures
            r.key_spec() == self.key_spec(),
            r.wants() == (self.wants().0, Some(true), self.wants().2, self.wants().3),
    {
        Chord { command: Some(true), ..self }
    }

    /// Requires shift to be held.
    pub fn shift(self) -> (r: Chord)
        ensures
            r.key_spec() == self.key_spec(),
            r.wants() == (self.wants().0, self.wants().1, Some(true), self.wants().3),
    {
        Chord { shift: Some(true), ..self }
    }

    /// Requires alt to be held.
    pub fn alt(self) -> (r: Chord)
        ensures
            r.key_spec() == self.key_spec(),
            r.wants() == (self.wants().0, self.wants().1, self.wants().2, Some(true)),
    {
        Chord { alt: Some(true), ..self }
    }
}

} // verus!
