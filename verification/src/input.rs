//! The masked input session's decision logic: how each key event changes
//! the accumulated password and what, if anything, is echoed. The
//! surrounding program owns the blocking key reads and the terminal; it
//! feeds every event through `on_key` and performs the returned echo.

use vstd::prelude::*;

verus! {

/// A key event of the capture loop, reduced to what the session decides
/// on.
pub enum PasswordKey {
    /// The Enter key: finishes the capture if anything was entered.
    Enter,
    /// A printable character.
    Glyph(char),
    /// The backspace key.
    Backspace,
    /// Any other key: ignored.
    Other,
}

/// What the terminal should echo for one handled key event.
pub enum PasswordEcho {
    /// Nothing.
    Silent,
    /// One masking glyph.
    Mask,
    /// Erase the masking glyph last echoed.
    Erase,
}

/// The accumulated state of one masked capture session.
pub struct PasswordState {
    pub entered: Vec<char>,
}

impl PasswordState {
    /// Starts a session with nothing entered.
    pub fn new() -> (s: PasswordState)
        ensures
            s.entered@ == Seq::<char>::empty(),
    {
        PasswordState { entered: Vec::new() }
    }

    /// Handles one key event against a visible-masking budget of
    /// `max_show_length` and returns what to echo and whether the capture
    /// is finished. A character is always accepted but echoed as a mask
    /// only while the entered length stays within the budget; backspace
    /// erases the last character and its echoed mask only if one was
    /// echoed; Enter finishes only a non-empty capture.
    pub fn on_key(&mut self, key: PasswordKey, max_show_length: usize) -> (r: (PasswordEcho, bool))
        ensures
            match key {
                PasswordKey::Enter => {
                    &&& final(self).entered@ == old(self).entered@
                    &&& r.0 is Silent
                    &&& r.1 == (old(self).entered@.len() > 0)
                },
                PasswordKey::Glyph(c) => {
                    &&& final(self).entered@ == old(self).entered@.push(c)
                    &&& r.0 is Mask == (old(self).entered@.len() + 1 <= max_show_length)
                    &&& (r.0 is Mask || r.0 is Silent)
                    &&& r.1 == false
                },
                PasswordKey::Backspace => {
                    &&& old(self).entered@.len() == 0 ==> final(self).entered@ == old(
                        self,
                    ).entered@ && r.0 is Silent
                    &&& old(self).entered@.len() > 0 ==> final(self).entered@ == old(
                        self,
                    ).entered@.drop_last() && (r.0 is Erase == (old(self).entered@.len() - 1
                        < max_show_length)) && (r.0 is Erase || r.0 is Silent)
                    &&& r.1 == false
                },
                PasswordKey::Other => {
                    &&& final(self).entered@ == old(self).entered@
                    &&& r.0 is Silent
                    &&& r.1 == false
                },
            },
    {
        match key {
            PasswordKey::Enter => (PasswordEcho::Silent, self.entered.len() > 0),
            PasswordKey::Glyph(c) => {
                self.entered.push(c);
                if self.entered.len() <= max_show_length {
                    (PasswordEcho::Mask, false)
                } else {
                    (PasswordEcho::Silent, false)
                }
            },
            PasswordKey::Backspace => {
                if self.entered.len() > 0 {
                    self.entered.pop();
                    if self.entered.len() < max_show_length {
                        (PasswordEcho::Erase, false)
                    } else {
                        (PasswordEcho::Silent, false)
                    }
                } else {
                    (PasswordEcho::Silent, false)
                }
            },
            PasswordKey::Other => (PasswordEcho::Silent, false),
        }
    }
}

} // verus!
