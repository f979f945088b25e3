//! A yes/no confirmation prompt.

use vstd::prelude::*;

use crate::interaction::{Event, Key, PromptInteraction, State};
use crate::select::spec_theme_state;
use crate::theme::{
    lemma_theme_same_state, same_theme_state, spec_confirm_line, spec_footer, spec_header,
    ClackTheme, ThemeState,
};
use vstd::string::StringExecFns;

verus! {

/// A prompt that asks for a yes or no answer.
pub struct Confirm {
    prompt: String,
    input: bool,
    initial_value: bool,
}

impl Confirm {
    /// The prompt text.
    pub closed spec fn spec_prompt(&self) -> Seq<char> {
        self.prompt@
    }

    /// The answer currently toggled.
    pub closed spec fn spec_input(&self) -> bool {
        self.input
    }

    /// The initial answer the builder recorded.
    pub closed spec fn spec_initial(&self) -> bool {
        self.initial_value
    }

    /// Creates a new confirmation prompt, starting on "no".
    pub fn new(prompt: &str) -> (r: Confirm)
        ensures
            r.spec_prompt() == prompt@,
            !r.spec_input(),
            !r.spec_initial(),
    {
        Confirm { prompt: prompt.to_owned(), input: false, initial_value: false }
    }

    /// Records the initially toggled answer.
    pub fn initial_value(self, initial_value: bool) -> (r: Confirm)
        ensures
            r.spec_initial() == initial_value,
            r.spec_input() == initial_value,
            r.spec_prompt() == self.spec_prompt(),
    {
        let mut s = self;
        s.initial_value = initial_value;
        s.input = initial_value;
        s
    }

    /// Computes the next state from one keypress: any arrow flips the
    /// answer, `y` and `n` set it and submit immediately, Enter submits the
    /// answer as it stands, and everything else leaves the prompt active.
    pub fn on_key(&mut self, key: &Key) -> (r: State<bool>)
        ensures
            final(self).spec_prompt() == old(self).spec_prompt(),
            match *key {
                Key::ArrowUp | Key::ArrowDown | Key::ArrowLeft | Key::ArrowRight => final(self).spec_input() == !old(self).spec_input() && r is Active,
                Key::Char(c) => if c == 'y' || c == 'Y' {
                    final(self).spec_input() && r == State::<bool>::Submit(true)
                } else if c == 'n' || c == 'N' {
                    !final(self).spec_input() && r == State::<bool>::Submit(false)
                } else {
                    final(self).spec_input() == old(self).spec_input() && r is Active
                },
                Key::Enter => final(self).spec_input() == old(self).spec_input() && r
                    == State::<bool>::Submit(old(self).spec_input()),
                _ => final(self).spec_input() == old(self).spec_input() && r is Active,
            },
    {
        match *key {
            Key::ArrowDown | Key::ArrowRight | Key::ArrowUp | Key::ArrowLeft => {
                self.input = !self.input;
                State::Active
            },
            Key::Char(c) => {
                if c == 'y' || c == 'Y' {
                    self.input = true;
                    State::Submit(true)
                } else if c == 'n' || c == 'N' {
                    self.input = false;
                    State::Submit(false)
                } else {
                    State::Active
                }
            },
            Key::Enter => State::Submit(self.input),
            _ => State::Active,
        }
    }

    /// Renders the complete frame: header, the yes/no line, and the footer.
    pub fn draw(&self, state: &State<bool>) -> (r: String)
        ensures
            ({
                let ts = spec_theme_state(state);
                r@ == spec_header(&ts, self.spec_prompt()) + spec_confirm_line(
                    &ts,
                    self.spec_input(),
                ) + spec_footer(&ts)
            }),
    {
        let ghost ts_spec = spec_theme_state(state);
        let theme = ClackTheme;
        let ts = ThemeState::of_state(state);
        proof {
            assert(same_theme_state(&ts, &ts_spec));
            lemma_theme_same_state(&ts, &ts_spec);
        }
        let mut r = theme.format_header(&ts, self.prompt.as_str());
        let line = theme.format_confirm(&ts, self.input);
        r.append(line.as_str());
        let footer = theme.format_footer(&ts);
        r.append(footer.as_str());
        r
    }
}

impl PromptInteraction<bool> for Confirm {
    open spec fn inv(&self) -> bool {
        true
    }

    fn render(&self, state: &State<bool>) -> String {
        self.draw(state)
    }

    fn on(&mut self, event: &Event) -> (next: State<bool>) {
        let Event::Key(key) = event;
        self.on_key(key)
    }

    fn edit(&mut self, _key: &Key) {
        // a confirmation holds no text cursor
    }
}

} // verus!
