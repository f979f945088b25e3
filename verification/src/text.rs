//! A prompt that accepts a single line of free text.

use vstd::prelude::*;
use vstd::string::StringExecFns;

use crate::cursor::StringCursor;
use crate::interaction::{
    edit_cursor, edited_pos, edited_text, Event, Key, PromptInteraction, State,
};
use crate::select::spec_theme_state;
use crate::theme::{
    lemma_theme_same_state, same_theme_state, spec_footer, spec_header, spec_input_line,
    spec_placeholder_line, ClackTheme, ThemeState,
};
use crate::validate::{Unvalidated, Validate};

verus! {

/// A prompt that accepts a single line of free text and submits it verbatim.
pub struct Text<V> {
    prompt: String,
    placeholder: StringCursor,
    input: StringCursor,
    validate: Option<V>,
}

impl<V> Text<V> {
    /// The prompt text.
    pub closed spec fn spec_prompt(&self) -> Seq<char> {
        self.prompt@
    }

    /// The placeholder shown while the buffer is empty.
    pub closed spec fn spec_placeholder(&self) -> Seq<char> {
        self.placeholder.text()
    }

    /// The placeholder's own cursor offset (it stays at the start).
    pub closed spec fn spec_placeholder_pos(&self) -> int {
        self.placeholder.pos()
    }

    /// The edited buffer.
    pub closed spec fn spec_input(&self) -> Seq<char> {
        self.input.text()
    }

    /// The cursor offset inside the buffer.
    pub closed spec fn spec_pos(&self) -> int {
        self.input.pos()
    }

    /// Whether a validator was set.
    pub closed spec fn spec_validated(&self) -> bool {
        self.validate is Some
    }

    /// The cursors stay inside their buffers.
    pub open spec fn wf(&self) -> bool {
        0 <= self.spec_pos() <= self.spec_input().len() && 0 <= self.spec_placeholder_pos()
            <= self.spec_placeholder().len()
    }

    /// Sets the placeholder (hint) text shown while nothing is typed.
    pub fn placeholder(self, placeholder: &str) -> (r: Text<V>)
        ensures
            r.spec_placeholder() == self.spec_placeholder() + placeholder@,
            r.spec_placeholder_pos() == self.spec_placeholder_pos(),
            r.spec_prompt() == self.spec_prompt(),
            r.spec_input() == self.spec_input(),
            r.spec_pos() == self.spec_pos(),
            r.spec_validated() == self.spec_validated(),
    {
        let mut s = self;
        s.placeholder.extend(placeholder);
        s
    }

    /// Sets the validation callback run when the user submits.
    pub fn validate<W>(self, validator: W) -> (r: Text<W>)
        ensures
            r.spec_validated(),
            r.spec_prompt() == self.spec_prompt(),
            r.spec_placeholder() == self.spec_placeholder(),
            r.spec_placeholder_pos() == self.spec_placeholder_pos(),
            r.spec_input() == self.spec_input(),
            r.spec_pos() == self.spec_pos(),
    {
        Text {
            prompt: self.prompt,
            placeholder: self.placeholder,
            input: self.input,
            validate: Some(validator),
        }
    }
}

impl Text<Unvalidated> {
    /// Creates a new free-text prompt with no validator.
    pub fn new(prompt: &str) -> (r: Text<Unvalidated>)
        ensures
            r.spec_prompt() == prompt@,
            r.spec_placeholder() == Seq::<char>::empty(),
            r.spec_placeholder_pos() == 0,
            r.spec_input() == Seq::<char>::empty(),
            r.spec_pos() == 0,
            !r.spec_validated(),
            r.wf(),
    {
        Text {
            prompt: prompt.to_owned(),
            placeholder: StringCursor::new(),
            input: StringCursor::new(),
            validate: None,
        }
    }
}

impl<V: Validate<String, Err = String>> Text<V> {
    /// Computes the next state from one keypress: Enter submits the buffer
    /// verbatim once the validator consents; every other key leaves the
    /// prompt active.
    pub fn on_key(&mut self, key: &Key) -> (r: State<String>)
        requires
            old(self).wf(),
        ensures
            final(self).wf(),
            final(self).spec_prompt() == old(self).spec_prompt(),
            final(self).spec_input() == old(self).spec_input(),
            final(self).spec_pos() == old(self).spec_pos(),
            match *key {
                Key::Enter => if !old(self).spec_validated() {
                    r matches State::Submit(v) && v@ == old(self).spec_input()
                } else {
                    // the validator decides; a submitted value is the buffer
                    (r is Submit || r is Error) && (r matches State::Submit(v) ==> v@ == old(
                        self,
                    ).spec_input())
                },
                _ => r is Active,
            },
    {
        match *key {
            Key::Enter => {
                let text = self.input.to_string();
                match &self.validate {
                    Some(validator) => {
                        match validator.validate(&text) {
                            Ok(_) => State::Submit(text),
                            Err(e) => State::Error(e),
                        }
                    },
                    None => State::Submit(text),
                }
            },
            _ => State::Active,
        }
    }

    /// Applies one keypress to the text buffer.
    pub fn edit_key(&mut self, key: &Key)
        requires
            old(self).wf(),
        ensures
            final(self).wf(),
            final(self).spec_prompt() == old(self).spec_prompt(),
            final(self).spec_input() == edited_text(
                old(self).spec_input(),
                old(self).spec_pos(),
                *key,
                true,
            ),
            final(self).spec_pos() == edited_pos(
                old(self).spec_input(),
                old(self).spec_pos(),
                *key,
                true,
            ),
    {
        edit_cursor(&mut self.input, key, true);
    }

    /// Renders the complete frame: header, the buffer (or the placeholder
    /// while it is empty), and the footer.
    pub fn draw(&self, state: &State<String>) -> (r: String)
        requires
            self.wf(),
        ensures
            ({
                let ts = spec_theme_state(state);
                r@ == spec_header(&ts, self.spec_prompt()) + (if self.spec_input().len() == 0 {
                    spec_placeholder_line(&ts, self.spec_placeholder(), self.spec_placeholder_pos())
                } else {
                    spec_input_line(&ts, self.spec_input(), self.spec_pos())
                }) + spec_footer(&ts)
            }),
    {
        let ghost ts_spec = spec_theme_state(state);
        let theme = ClackTheme;
        let ts = ThemeState::of_state(state);
        proof {
            assert(same_theme_state(&ts, &ts_spec));
            lemma_theme_same_state(&ts, &ts_spec);
        }
        let mut r = theme.format_header(&ts, self.prompt.as_str());
        let line = if self.input.is_empty() {
            theme.format_placeholder(&ts, &self.placeholder)
        } else {
            theme.format_input(&ts, &self.input)
        };
        r.append(line.as_str());
        let footer = theme.format_footer(&ts);
        r.append(footer.as_str());
        r
    }
}

impl<V: Validate<String, Err = String>> PromptInteraction<String> for Text<V> {
    open spec fn inv(&self) -> bool {
        self.wf()
    }

    fn render(&self, state: &State<String>) -> String {
        self.draw(state)
    }

    fn on(&mut self, event: &Event) -> (next: State<String>) {
        let Event::Key(key) = event;
        self.on_key(key)
    }

    fn edit(&mut self, key: &Key) {
        self.edit_key(key);
    }
}

} // verus!
