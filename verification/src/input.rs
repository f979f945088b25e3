//! A prompt that accepts a line of text — or several, in multiline mode —
//! and parses it into the caller's result type.

use vstd::prelude::*;
use vstd::string::StringExecFns;

use crate::cursor::StringCursor;
use crate::interaction::{
    edit_cursor, edited_pos, edited_text, Event, Key, PromptInteraction, State,
};
use crate::parse::CliFromStr;
use crate::select::spec_theme_state;
use crate::theme::{
    lemma_theme_same_state, same_theme_state, spec_footer_with_message, spec_header,
    spec_input_line, spec_placeholder_line, ClackTheme, ThemeState,
};
use crate::validate::{Unvalidated, Validate};

verus! {

/// The text a submission works on: an empty buffer is replaced by the
/// default value, where one was set.
pub open spec fn effective_buffer(buf: Seq<char>, default: Option<String>) -> Seq<char> {
    if buf.len() == 0 {
        match default {
            Some(d) => d@,
            None => buf,
        }
    } else {
        buf
    }
}

/// A prompt that accepts a line of text — or several, in multiline mode —
/// with an optional default value and optional validators, parsed on submit.
pub struct Input<V1, V2> {
    prompt: String,
    input: StringCursor,
    input_required: bool,
    default: Option<String>,
    placeholder: StringCursor,
    multiline_enabled: bool,
    multiline_editing: bool,
    validate_on_enter: Option<V1>,
    validate_interactively: Option<V2>,
}

/// What a submission leaves behind: the buffer holds the effective text, a
/// missing required input is reported, a submitted value is the parsed
/// effective text, and without validators the parse alone decides.
pub open spec fn submit_post<T: CliFromStr, V1, V2>(
    pre: Input<V1, V2>,
    post: Input<V1, V2>,
    r: State<T>,
) -> bool {
    let eff = effective_buffer(pre.spec_input(), pre.spec_default());
    if pre.spec_input().len() == 0 && pre.spec_default() is None && pre.spec_required() {
        (r matches State::Error(m) && m@ == "Input is required"@) && post.spec_input()
            == pre.spec_input()
    } else {
        &&& post.spec_input() == eff
        &&& (r is Submit || r is Error)
        &&& (r matches State::Submit(v) ==> T::spec_parses(eff) && T::spec_parse_ok(eff, v))
        &&& (!pre.spec_has_enter_validator() && !pre.spec_has_interactive_validator() ==> (if
        T::spec_parses(eff) {
            r matches State::Submit(v) && T::spec_parse_ok(eff, v)
        } else {
            r matches State::Error(m) && m@ == "Invalid value format"@
        }))
    }
}

impl<V1, V2> Input<V1, V2> {
    /// The prompt text.
    pub closed spec fn spec_prompt(&self) -> Seq<char> {
        self.prompt@
    }

    /// The edited buffer.
    pub closed spec fn spec_input(&self) -> Seq<char> {
        self.input.text()
    }

    /// The cursor offset inside the buffer.
    pub closed spec fn spec_pos(&self) -> int {
        self.input.pos()
    }

    /// Whether empty input is refused when no default exists.
    pub closed spec fn spec_required(&self) -> bool {
        self.input_required
    }

    /// The default value, if one was set.
    pub closed spec fn spec_default(&self) -> Option<String> {
        self.default
    }

    /// The placeholder shown while the buffer is empty.
    pub closed spec fn spec_placeholder(&self) -> Seq<char> {
        self.placeholder.text()
    }

    /// The placeholder's own cursor offset.
    pub closed spec fn spec_placeholder_pos(&self) -> int {
        self.placeholder.pos()
    }

    /// Whether multiline editing was enabled.
    pub closed spec fn spec_multiline(&self) -> bool {
        self.multiline_enabled
    }

    /// Whether the prompt stands in the edit mode (as opposed to the view
    /// mode of a multiline prompt).
    pub closed spec fn spec_editing(&self) -> bool {
        self.multiline_editing
    }

    /// Whether a submit validator was set.
    pub closed spec fn spec_has_enter_validator(&self) -> bool {
        self.validate_on_enter is Some
    }

    /// Whether an interactive validator was set.
    pub closed spec fn spec_has_interactive_validator(&self) -> bool {
        self.validate_interactively is Some
    }

    /// The cursors stay inside their buffers.
    pub open spec fn wf(&self) -> bool {
        0 <= self.spec_pos() <= self.spec_input().len() && 0 <= self.spec_placeholder_pos()
            <= self.spec_placeholder().len()
    }

    /// Sets the placeholder (hint) text shown while nothing is typed.
    pub fn placeholder(self, placeholder: &str) -> (r: Input<V1, V2>)
        ensures
            r.spec_placeholder() == self.spec_placeholder() + placeholder@,
            r.spec_placeholder_pos() == self.spec_placeholder_pos(),
            same_but_placeholder(self, r),
    {
        let mut s = self;
        s.placeholder.extend(placeholder);
        s
    }

    /// Sets the default value used when the buffer is submitted empty.
    pub fn default_input(self, value: &str) -> (r: Input<V1, V2>)
        ensures
            r.spec_default() matches Some(d) && d@ == value@,
            r.spec_prompt() == self.spec_prompt(),
            r.spec_input() == self.spec_input(),
            r.spec_pos() == self.spec_pos(),
            r.spec_required() == self.spec_required(),
            r.spec_placeholder() == self.spec_placeholder(),
            r.spec_placeholder_pos() == self.spec_placeholder_pos(),
            r.spec_multiline() == self.spec_multiline(),
            r.spec_editing() == self.spec_editing(),
            r.spec_has_enter_validator() == self.spec_has_enter_validator(),
            r.spec_has_interactive_validator() == self.spec_has_interactive_validator(),
    {
        let mut s = self;
        s.default = Some(value.to_owned());
        s
    }

    /// Sets whether the input is required. On by default.
    pub fn required(self, required: bool) -> (r: Input<V1, V2>)
        ensures
            r.spec_required() == required,
            r.spec_prompt() == self.spec_prompt(),
            r.spec_input() == self.spec_input(),
            r.spec_pos() == self.spec_pos(),
            r.spec_default() == self.spec_default(),
            r.spec_placeholder() == self.spec_placeholder(),
            r.spec_placeholder_pos() == self.spec_placeholder_pos(),
            r.spec_multiline() == self.spec_multiline(),
            r.spec_editing() == self.spec_editing(),
            r.spec_has_enter_validator() == self.spec_has_enter_validator(),
            r.spec_has_interactive_validator() == self.spec_has_interactive_validator(),
    {
        let mut s = self;
        s.input_required = required;
        s
    }

    /// Enables multiline input: Enter inserts a newline while editing; the
    /// Escape and Tab keys switch between the edit and view modes, and Enter
    /// submits from the view mode.
    pub fn multiline(self) -> (r: Input<V1, V2>)
        ensures
            r.spec_multiline(),
            r.spec_editing(),
            r.spec_prompt() == self.spec_prompt(),
            r.spec_input() == self.spec_input(),
            r.spec_pos() == self.spec_pos(),
            r.spec_required() == self.spec_required(),
            r.spec_default() == self.spec_default(),
            r.spec_placeholder() == self.spec_placeholder(),
            r.spec_placeholder_pos() == self.spec_placeholder_pos(),
            r.spec_has_enter_validator() == self.spec_has_enter_validator(),
            r.spec_has_interactive_validator() == self.spec_has_interactive_validator(),
    {
        let mut s = self;
        s.multiline_enabled = true;
        s.multiline_editing = true;
        s
    }

    /// Sets the validation callback run when the user submits. The same as
    /// [`Input::validate_on_enter`].
    pub fn validate<W>(self, validator: W) -> (r: Input<W, V2>)
        ensures
            r.spec_has_enter_validator(),
            r.spec_prompt() == self.spec_prompt(),
            r.spec_input() == self.spec_input(),
            r.spec_pos() == self.spec_pos(),
            r.spec_required() == self.spec_required(),
            r.spec_default() == self.spec_default(),
            r.spec_placeholder() == self.spec_placeholder(),
            r.spec_placeholder_pos() == self.spec_placeholder_pos(),
            r.spec_multiline() == self.spec_multiline(),
            r.spec_editing() == self.spec_editing(),
            r.spec_has_interactive_validator() == self.spec_has_interactive_validator(),
    {
        Input {
            prompt: self.prompt,
            input: self.input,
            input_required: self.input_required,
            default: self.default,
            placeholder: self.placeholder,
            multiline_enabled: self.multiline_enabled,
            multiline_editing: self.multiline_editing,
            validate_on_enter: Some(validator),
            validate_interactively: self.validate_interactively,
        }
    }

    /// Sets the validation callback run when the user submits.
    pub fn validate_on_enter<W>(self, validator: W) -> (r: Input<W, V2>)
        ensures
            r.spec_has_enter_validator(),
            r.spec_prompt() == self.spec_prompt(),
            r.spec_input() == self.spec_input(),
            r.spec_pos() == self.spec_pos(),
            r.spec_required() == self.spec_required(),
            r.spec_default() == self.spec_default(),
            r.spec_placeholder() == self.spec_placeholder(),
            r.spec_placeholder_pos() == self.spec_placeholder_pos(),
            r.spec_multiline() == self.spec_multiline(),
            r.spec_editing() == self.spec_editing(),
            r.spec_has_interactive_validator() == self.spec_has_interactive_validator(),
    {
        self.validate(validator)
    }

    /// Sets the validation callback run while the user is typing.
    pub fn validate_interactively<W>(self, validator: W) -> (r: Input<V1, W>)
        ensures
            r.spec_has_interactive_validator(),
            r.spec_prompt() == self.spec_prompt(),
            r.spec_input() == self.spec_input(),
            r.spec_pos() == self.spec_pos(),
            r.spec_required() == self.spec_required(),
            r.spec_default() == self.spec_default(),
            r.spec_placeholder() == self.spec_placeholder(),
            r.spec_placeholder_pos() == self.spec_placeholder_pos(),
            r.spec_multiline() == self.spec_multiline(),
            r.spec_editing() == self.spec_editing(),
            r.spec_has_enter_validator() == self.spec_has_enter_validator(),
    {
        Input {
            prompt: self.prompt,
            input: self.input,
            input_required: self.input_required,
            default: self.default,
            placeholder: self.placeholder,
            multiline_enabled: self.multiline_enabled,
            multiline_editing: self.multiline_editing,
            validate_on_enter: self.validate_on_enter,
            validate_interactively: Some(validator),
        }
    }

    /// Prepares the interaction: where no placeholder was set, the default
    /// value is shown as one, marked as the default, and a multiline prompt
    /// starts in the view mode. The host's driver loop runs the interaction
    /// itself.
    pub fn begin(&mut self)
        requires
            old(self).wf(),
        ensures
            final(self).wf(),
            final(self).spec_prompt() == old(self).spec_prompt(),
            final(self).spec_input() == old(self).spec_input(),
            final(self).spec_pos() == old(self).spec_pos(),
            final(self).spec_required() == old(self).spec_required(),
            final(self).spec_default() == old(self).spec_default(),
            final(self).spec_multiline() == old(self).spec_multiline(),
            final(self).spec_has_enter_validator() == old(self).spec_has_enter_validator(),
            final(self).spec_has_interactive_validator() == old(self).spec_has_interactive_validator(),
            ({
                let shows_default = old(self).spec_placeholder().len() == 0 && old(self).spec_default() is Some;
                if shows_default {
                    final(self).spec_placeholder() == old(self).spec_default().unwrap()@ + " (default)"@ && final(self).spec_editing() == (
                    old(self).spec_editing() && !old(self).spec_multiline())
                } else {
                    final(self).spec_placeholder() == old(self).spec_placeholder() && final(self).spec_editing() == old(self).spec_editing()
                }
            }),
    {
        if self.placeholder.is_empty() {
            let has_default = match &self.default {
                Some(_) => true,
                None => false,
            };
            if has_default {
                extend_placeholder_with_default(&mut self.placeholder, &self.default);
                if self.multiline_enabled {
                    self.multiline_editing = false;
                }
            }
        }
    }
}

/// Shows the default value in the placeholder, marked as the default.
fn extend_placeholder_with_default(placeholder: &mut StringCursor, default: &Option<String>)
    requires
        old(placeholder).wf(),
        default is Some,
    ensures
        final(placeholder).wf(),
        final(placeholder).text() == old(placeholder).text() + default.unwrap()@ + " (default)"@,
        final(placeholder).pos() == old(placeholder).pos(),
{
    match default {
        Some(d) => {
            placeholder.extend(d.as_str());
            placeholder.extend(" (default)");
        },
        None => {},
    }
}

/// Everything but the placeholder is unchanged.
pub open spec fn same_but_placeholder<V1, V2>(pre: Input<V1, V2>, post: Input<V1, V2>) -> bool {
    &&& post.spec_prompt() == pre.spec_prompt()
    &&& post.spec_input() == pre.spec_input()
    &&& post.spec_pos() == pre.spec_pos()
    &&& post.spec_required() == pre.spec_required()
    &&& post.spec_default() == pre.spec_default()
    &&& post.spec_multiline() == pre.spec_multiline()
    &&& post.spec_editing() == pre.spec_editing()
    &&& post.spec_has_enter_validator() == pre.spec_has_enter_validator()
    &&& post.spec_has_interactive_validator() == pre.spec_has_interactive_validator()
}

impl Input<Unvalidated, Unvalidated> {
    /// Creates a new input prompt; the input is required until
    /// [`Input::required`] says otherwise.
    pub fn new(prompt: &str) -> (r: Input<Unvalidated, Unvalidated>)
        ensures
            r.spec_prompt() == prompt@,
            r.spec_input() == Seq::<char>::empty(),
            r.spec_pos() == 0,
            r.spec_required(),
            r.spec_default() is None,
            r.spec_placeholder() == Seq::<char>::empty(),
            r.spec_placeholder_pos() == 0,
            !r.spec_multiline(),
            !r.spec_editing(),
            !r.spec_has_enter_validator(),
            !r.spec_has_interactive_validator(),
            r.wf(),
    {
        Input {
            prompt: prompt.to_owned(),
            input: StringCursor::new(),
            input_required: true,
            default: None,
            placeholder: StringCursor::new(),
            multiline_enabled: false,
            multiline_editing: false,
            validate_on_enter: None,
            validate_interactively: None,
        }
    }
}

impl<V1: Validate<String, Err = String>, V2: Validate<String, Err = String>> Input<V1, V2> {
    /// Validates the buffer as it stands while typing: the interactive
    /// validator first, then a parse check — both only when an interactive
    /// validator was set at all.
    fn interactively_validate<T: CliFromStr>(&self) -> (r: State<T>)
        ensures
            !self.spec_has_interactive_validator() ==> r is Active,
            r is Active || r is Error,
            self.spec_has_interactive_validator() && !T::spec_parses(self.spec_input()) ==> r
                is Error,
    {
        match &self.validate_interactively {
            Some(validator) => {
                let text = self.input.to_string();
                match validator.validate(&text) {
                    Err(e) => State::Error(e),
                    Ok(_) => {
                        match T::try_parse(text.as_str()) {
                            Err(_) => State::Error("Invalid value format".to_owned()),
                            Ok(_) => State::Active,
                        }
                    },
                }
            },
            None => State::Active,
        }
    }

    /// Switches between the edit and view modes of a multiline prompt: a
    /// buffer the interactive validation rejects stays in the edit mode. The
    /// returned state tells the Escape handling whether the switch absorbed
    /// the key (`Cancel`) or not (`Active`).
    fn switch_mode<T: CliFromStr>(&mut self) -> (r: State<T>)
        requires
            old(self).wf(),
        ensures
            final(self).wf(),
            final(self).spec_input() == old(self).spec_input(),
            final(self).spec_pos() == old(self).spec_pos(),
            same_but_placeholder(*old(self), *final(self)) || (final(self).spec_editing() != old(self).spec_editing() && final(self).spec_prompt() == old(self).spec_prompt() && final(self).spec_required() == old(self).spec_required() && final(self).spec_default() == old(self).spec_default() && final(self).spec_multiline() == old(self).spec_multiline() && final(self).spec_has_enter_validator() == old(self).spec_has_enter_validator() && final(self).spec_has_interactive_validator() == old(self).spec_has_interactive_validator()),
            final(self).spec_placeholder() == old(self).spec_placeholder(),
            final(self).spec_placeholder_pos() == old(self).spec_placeholder_pos(),
            !old(self).spec_editing() ==> final(self).spec_editing() && r is Active,
            old(self).spec_editing() ==> (final(self).spec_editing() == old(self).spec_editing()
                && r is Active) || (!final(self).spec_editing() && r is Cancel),
            old(self).spec_editing() && !old(self).spec_has_interactive_validator() ==> !final(self).spec_editing() && r is Cancel,
    {
        if self.multiline_editing {
            let check: State<T> = self.interactively_validate();
            match check {
                State::Error(_) => {
                    return State::Active;
                },
                _ => {},
            }
        }
        self.multiline_editing = !self.multiline_editing;
        if self.multiline_editing {
            State::Active
        } else {
            State::Cancel
        }
    }

    /// Submits the buffer: an empty buffer takes the default value or is
    /// refused when required; the validators run; the effective text is
    /// parsed into the result, and a text that fails to parse reports a
    /// format error and switches the editing mode.
    fn submit_validate<T: CliFromStr>(&mut self) -> (r: State<T>)
        requires
            old(self).wf(),
        ensures
            final(self).wf(),
            final(self).spec_prompt() == old(self).spec_prompt(),
            final(self).spec_placeholder() == old(self).spec_placeholder(),
            final(self).spec_placeholder_pos() == old(self).spec_placeholder_pos(),
            final(self).spec_required() == old(self).spec_required(),
            final(self).spec_default() == old(self).spec_default(),
            final(self).spec_multiline() == old(self).spec_multiline(),
            final(self).spec_has_enter_validator() == old(self).spec_has_enter_validator(),
            final(self).spec_has_interactive_validator() == old(self).spec_has_interactive_validator(),
            submit_post(*old(self), *final(self), r),
    {
        if self.input.is_empty() {
            let has_default = match &self.default {
                Some(_) => true,
                None => false,
            };
            if has_default {
                extend_input_with_default(&mut self.input, &self.default);
            } else if self.input_required {
                return State::Error("Input is required".to_owned());
            }
        }
        if !self.multiline_editing {
            let check: State<T> = self.interactively_validate();
            match check {
                State::Active => {},
                state => {
                    return state;
                },
            }
        }
        let has_enter_validator = match &self.validate_on_enter {
            Some(_) => true,
            None => false,
        };
        if has_enter_validator {
            let text = self.input.to_string();
            let verdict = run_enter_validator(&self.validate_on_enter, &text);
            match verdict {
                Err(e) => {
                    let switched: State<T> = self.switch_mode();
                    return State::Error(e);
                },
                Ok(_) => {},
            }
        }
        let text = self.input.to_string();
        match T::try_parse(text.as_str()) {
            Ok(res) => State::Submit(res),
            Err(_) => {
                let switched: State<T> = self.switch_mode();
                State::Error("Invalid value format".to_owned())
            },
        }
    }

    /// Computes the next state from one keypress. On a multiline prompt,
    /// Escape and Tab both toggle the edit/view switch, Enter inserts a
    /// newline while editing and submits from the view mode, and ordinary
    /// typing in the view mode first switches back to editing; on a
    /// single-line prompt Tab indents and Enter submits.
    pub fn on_key<T: CliFromStr>(&mut self, key: &Key) -> (r: State<T>)
        requires
            old(self).wf(),
        ensures
            final(self).wf(),
            final(self).spec_prompt() == old(self).spec_prompt(),
            final(self).spec_required() == old(self).spec_required(),
            final(self).spec_default() == old(self).spec_default(),
            final(self).spec_multiline() == old(self).spec_multiline(),
            final(self).spec_has_enter_validator() == old(self).spec_has_enter_validator(),
            final(self).spec_has_interactive_validator() == old(self).spec_has_interactive_validator(),
            match *key {
                Key::Enter => if old(self).spec_multiline() && old(self).spec_editing() {
                    final(self).spec_input() == old(self).spec_input().insert(
                        old(self).spec_pos(),
                        '\n',
                    ) && final(self).spec_pos() == old(self).spec_pos() + 1 && r is Active
                } else {
                    submit_post(*old(self), *final(self), r)
                },
                Key::Escape => if !old(self).spec_multiline() || !old(self).spec_editing() {
                    r is Active && final(self).spec_input() == old(self).spec_input()
                } else {
                    r is Active || r is Cancel
                },
                Key::Tab => r is Active && (if !old(self).spec_multiline() {
                    final(self).spec_input() == old(self).spec_input().insert(
                        old(self).spec_pos(),
                        ' ',
                    ).insert(old(self).spec_pos() + 1, ' ').insert(
                        old(self).spec_pos() + 2,
                        ' ',
                    ).insert(old(self).spec_pos() + 3, ' ') && final(self).spec_pos() == old(self).spec_pos() + 4 && final(self).spec_editing() == old(self).spec_editing()
                } else {
                    // Tab toggles the edit/view mode of a multiline prompt
                    final(self).spec_input() == old(self).spec_input() && final(self).spec_pos()
                        == old(self).spec_pos() && (!old(self).spec_editing() ==> final(self).spec_editing()) && (old(self).spec_editing() && !old(self).spec_has_interactive_validator() ==> !final(self).spec_editing())
                }),
                Key::Char(c) => (r is Active || r is Error) && (!old(self).spec_multiline()
                    ==> final(self).spec_input() == old(self).spec_input()),
                Key::Backspace => (r is Active || r is Error) && (!old(self).spec_multiline()
                    ==> final(self).spec_input() == old(self).spec_input()),
                _ => r is Active && final(self).spec_input() == old(self).spec_input(),
            },
    {
        match *key {
            Key::Escape => {
                if !self.multiline_enabled || !self.multiline_editing {
                    // the driver resolves this into a cancellation
                    State::Active
                } else {
                    self.switch_mode()
                }
            },
            Key::Tab => {
                if !self.multiline_enabled {
                    self.input.insert(' ');
                    self.input.insert(' ');
                    self.input.insert(' ');
                    self.input.insert(' ');
                } else {
                    let switched: State<T> = self.switch_mode();
                }
                State::Active
            },
            Key::Enter => {
                if self.multiline_enabled && self.multiline_editing {
                    self.input.insert('\n');
                    return State::Active;
                }
                self.submit_validate()
            },
            Key::Char(c) => {
                if !crate::interaction::is_ascii_control_char(c) {
                    if !self.multiline_editing && self.multiline_enabled {
                        let switched: State<T> = self.switch_mode();
                        self.input.insert(c);
                    }
                }
                self.interactively_validate()
            },
            Key::Backspace => {
                if !self.multiline_editing && self.multiline_enabled {
                    let switched: State<T> = self.switch_mode();
                    self.input.delete_left();
                }
                self.interactively_validate()
            },
            _ => State::Active,
        }
    }

    /// Applies one keypress to the text buffer — unless a multiline prompt
    /// stands in the view mode, where the buffer is read-only.
    pub fn edit_key(&mut self, key: &Key)
        requires
            old(self).wf(),
        ensures
            final(self).wf(),
            same_but_placeholder(*old(self), *final(self)) || (old(self).spec_editing() || !old(self).spec_multiline()),
            final(self).spec_prompt() == old(self).spec_prompt(),
            final(self).spec_placeholder() == old(self).spec_placeholder(),
            final(self).spec_placeholder_pos() == old(self).spec_placeholder_pos(),
            final(self).spec_editing() == old(self).spec_editing(),
            if old(self).spec_multiline() && !old(self).spec_editing() {
                final(self).spec_input() == old(self).spec_input() && final(self).spec_pos() == old(self).spec_pos()
            } else {
                final(self).spec_input() == edited_text(
                    old(self).spec_input(),
                    old(self).spec_pos(),
                    *key,
                    true,
                ) && final(self).spec_pos() == edited_pos(
                    old(self).spec_input(),
                    old(self).spec_pos(),
                    *key,
                    true,
                )
            },
    {
        if self.multiline_enabled && !self.multiline_editing {
            // view mode: the buffer is read-only until a key switches back
            return ;
        }
        edit_cursor(&mut self.input, key, true);
    }

    /// Renders the complete frame: header, the buffer (or the placeholder
    /// while it is empty), and a footer hinting at the multiline mode switch.
    pub fn draw<T>(&self, state: &State<T>) -> (r: String)
        requires
            self.wf(),
        ensures
            ({
                let ts = spec_theme_state(state);
                let hint = if self.spec_multiline() && self.spec_editing() {
                    "[ESC] => View"@
                } else if self.spec_multiline() {
                    "[Enter] => Submit"@
                } else {
                    Seq::<char>::empty()
                };
                r@ == spec_header(&ts, self.spec_prompt()) + (if self.spec_input().len() == 0 {
                    spec_placeholder_line(
                        &ts,
                        self.spec_placeholder(),
                        self.spec_placeholder_pos(),
                    )
                } else {
                    spec_input_line(&ts, self.spec_input(), self.spec_pos())
                }) + spec_footer_with_message(&ts, hint)
            }),
    {
        let ghost ts_spec = spec_theme_state(state);
        let theme = ClackTheme;
        let ts = ThemeState::of_state(state);
        proof {
            assert(same_theme_state(&ts, &ts_spec));
            lemma_theme_same_state(&ts, &ts_spec);
        }
        let mut r = theme.format_header(&ts, self.prompt.as_str());
        let line = if self.input.is_empty() {
            theme.format_placeholder(&ts, &self.placeholder)
        } else {
            theme.format_input(&ts, &self.input)
        };
        r.append(line.as_str());
        let hint = if self.multiline_enabled && self.multiline_editing {
            "[ESC] => View"
        } else if self.multiline_enabled {
            "[Enter] => Submit"
        } else {
            ""
        };
        proof {
            reveal_strlit("");
            reveal_strlit("[ESC] => View");
            reveal_strlit("[Enter] => Submit");
        }
        let footer = theme.format_footer_with_message(&ts, hint);
        r.append(footer.as_str());
        r
    }
}

/// Fills an empty buffer with the default value.
fn extend_input_with_default(input: &mut StringCursor, default: &Option<String>)
    requires
        old(input).wf(),
        old(input).text().len() == 0,
        default is Some,
    ensures
        final(input).wf(),
        final(input).text() == default.unwrap()@,
        final(input).pos() == old(input).pos(),
{
    match default {
        Some(d) => {
            input.extend(d.as_str());
            proof {
                assert(old(input).text() + d@ =~= d@);
            }
        },
        None => {},
    }
}

/// Runs the submit validator on the candidate text.
fn run_enter_validator<V: Validate<String, Err = String>>(
    validator: &Option<V>,
    text: &String,
) -> (r: Result<(), String>)
    requires
        validator is Some,
{
    match validator {
        Some(v) => v.validate(text),
        None => Ok(()),
    }
}

impl<T: CliFromStr, V1: Validate<String, Err = String>, V2: Validate<String, Err = String>>
    PromptInteraction<T> for Input<V1, V2> {
    open spec fn inv(&self) -> bool {
        self.wf()
    }

    fn render(&self, state: &State<T>) -> String {
        self.draw(state)
    }

    fn on(&mut self, event: &Event) -> (next: State<T>) {
        let Event::Key(key) = event;
        self.on_key(key)
    }

    fn edit(&mut self, key: &Key) {
        self.edit_key(key);
    }
}

} // verus!
