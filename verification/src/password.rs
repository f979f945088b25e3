//! A prompt that masks the input.

use vstd::prelude::*;
use vstd::string::StringExecFns;

use crate::cursor::StringCursor;
use crate::interaction::{edit_cursor, edited_pos, edited_text, Event, Key, PromptInteraction, State};
use crate::select::spec_theme_state;
use crate::theme::{
    lemma_theme_same_state, same_theme_state, spec_footer, spec_header, spec_input_line,
    ClackTheme, ThemeState,
};
use crate::validate::{Unvalidated, Validate};

verus! {

/// A prompt that masks the input: the buffer is only ever rendered through
/// the masked path, and word-level editing is disallowed so keystrokes leak
/// no word structure.
pub struct Password<V> {
    prompt: String,
    mask: char,
    input: StringCursor,
    validate: Option<V>,
}

impl<V> Password<V> {
    /// The prompt text.
    pub closed spec fn spec_prompt(&self) -> Seq<char> {
        self.prompt@
    }

    /// The mask glyph.
    pub closed spec fn spec_mask(&self) -> char {
        self.mask
    }

    /// The secret buffer.
    pub closed spec fn spec_input(&self) -> Seq<char> {
        self.input.text()
    }

    /// The cursor offset inside the secret buffer.
    pub closed spec fn spec_pos(&self) -> int {
        self.input.pos()
    }

    /// Whether a validator was set.
    pub closed spec fn spec_validated(&self) -> bool {
        self.validate is Some
    }

    /// The cursor stays inside the buffer.
    pub open spec fn wf(&self) -> bool {
        0 <= self.spec_pos() <= self.spec_input().len()
    }

    /// Sets the mask glyph.
    pub fn mask(self, mask: char) -> (r: Password<V>)
        ensures
            r.spec_mask() == mask,
            r.spec_prompt() == self.spec_prompt(),
            r.spec_input() == self.spec_input(),
            r.spec_pos() == self.spec_pos(),
            r.spec_validated() == self.spec_validated(),
    {
        let mut s = self;
        s.mask = mask;
        s
    }

    /// Sets the validation callback run when the user submits.
    pub fn validate<W>(self, validator: W) -> (r: Password<W>)
        ensures
            r.spec_validated(),
            r.spec_prompt() == self.spec_prompt(),
            r.spec_mask() == self.spec_mask(),
            r.spec_input() == self.spec_input(),
            r.spec_pos() == self.spec_pos(),
    {
        Password {
            prompt: self.prompt,
            mask: self.mask,
            input: self.input,
            validate: Some(validator),
        }
    }
}

impl Password<Unvalidated> {
    /// Creates a new password prompt with the theme's mask glyph and no
    /// validator.
    pub fn new(prompt: &str) -> (r: Password<Unvalidated>)
        ensures
            r.spec_prompt() == prompt@,
            r.spec_mask() == '\u{25aa}',
            r.spec_input() == Seq::<char>::empty(),
            r.spec_pos() == 0,
            !r.spec_validated(),
            r.wf(),
    {
        let theme = ClackTheme;
        Password {
            prompt: prompt.to_owned(),
            mask: theme.password_mask(),
            input: StringCursor::new(),
            validate: None,
        }
    }
}

impl<V: Validate<String, Err = String>> Password<V> {
    /// Computes the next state from one keypress: Enter submits the buffer,
    /// demanding a non-empty one and the validator's consent; every other
    /// key leaves the prompt active.
    pub fn on_key(&mut self, key: &Key) -> (r: State<String>)
        requires
            old(self).wf(),
        ensures
            final(self).wf(),
            final(self).spec_prompt() == old(self).spec_prompt(),
            final(self).spec_mask() == old(self).spec_mask(),
            final(self).spec_input() == old(self).spec_input(),
            final(self).spec_pos() == old(self).spec_pos(),
            match *key {
                Key::Enter => if old(self).spec_input().len() == 0 {
                    r matches State::Error(m) && m@ == "Input required"@
                } else if !old(self).spec_validated() {
                    r matches State::Submit(v) && v@ == old(self).spec_input()
                } else {
                    // the validator decides; a submitted value is the buffer
                    (r is Submit || r is Error) && (r matches State::Submit(v) ==> v@ == old(self).spec_input())
                },
                _ => r is Active,
            },
    {
        match *key {
            Key::Enter => {
                if self.input.is_empty() {
                    return State::Error("Input required".to_owned());
                }
                let text = self.input.to_string();
                match &self.validate {
                    Some(validator) => {
                        match validator.validate(&text) {
                            Ok(_) => State::Submit(text),
                            Err(e) => State::Error(e),
                        }
                    },
                    None => State::Submit(text),
                }
            },
            _ => State::Active,
        }
    }

    /// Overwrites and empties the secret buffer. The host calls this once the
    /// interaction is over; the buffer does not erase itself on destruction.
    pub fn wipe(&mut self)
        ensures
            final(self).spec_input() == Seq::<char>::empty(),
            final(self).spec_pos() == 0,
            final(self).wf(),
            final(self).spec_prompt() == old(self).spec_prompt(),
            final(self).spec_mask() == old(self).spec_mask(),
    {
        self.input.wipe();
    }

    /// Applies one keypress to the secret buffer, with word-level editing
    /// disallowed so as not to reveal the password's structure.
    pub fn edit_key(&mut self, key: &Key)
        requires
            old(self).wf(),
        ensures
            final(self).wf(),
            final(self).spec_prompt() == old(self).spec_prompt(),
            final(self).spec_mask() == old(self).spec_mask(),
            final(self).spec_input() == edited_text(
                old(self).spec_input(),
                old(self).spec_pos(),
                *key,
                false,
            ),
            final(self).spec_pos() == edited_pos(
                old(self).spec_input(),
                old(self).spec_pos(),
                *key,
                false,
            ),
    {
        edit_cursor(&mut self.input, key, false);
    }

    /// Renders the complete frame. The input line shows one mask glyph per
    /// buffered character — never the characters themselves.
    pub fn draw(&self, state: &State<String>) -> (r: String)
        requires
            self.wf(),
        ensures
            ({
                let ts = spec_theme_state(state);
                r@ == spec_header(&ts, self.spec_prompt()) + spec_input_line(
                    &ts,
                    Seq::new(self.spec_input().len(), |i: int| self.spec_mask()),
                    self.spec_pos(),
                ) + spec_footer(&ts)
            }),
    {
        let ghost ts_spec = spec_theme_state(state);
        let theme = ClackTheme;
        let ts = ThemeState::of_state(state);
        proof {
            assert(same_theme_state(&ts, &ts_spec));
            lemma_theme_same_state(&ts, &ts_spec);
        }
        let masked = self.input.masked(self.mask);
        let mut r = theme.format_header(&ts, self.prompt.as_str());
        let line = theme.format_input(&ts, &masked);
        r.append(line.as_str());
        let footer = theme.format_footer(&ts);
        r.append(footer.as_str());
        r
    }
}

impl<V: Validate<String, Err = String>> PromptInteraction<String> for Password<V> {
    open spec fn inv(&self) -> bool {
        self.wf()
    }

    fn render(&self, state: &State<String>) -> String {
        self.draw(state)
    }

    fn on(&mut self, event: &Event) -> (next: State<String>) {
        let Event::Key(key) = event;
        self.on_key(key)
    }

    fn edit(&mut self, key: &Key) {
        self.edit_key(key);
    }
}

} // verus!
