//! Interactive terminal prompt engine: editable text buffers with cursors,
//! fuzzy-filtered choice lists, and per-key state machines for text, password,
//! confirmation and selection prompts.
//!
//! The crate holds the pure logic of the prompts: what a keypress does to the
//! state, what a frame looks like, and when a prompt submits, cancels or
//! reports an error. The blocking terminal I/O that drives the loop lives
//! outside, behind the [`interaction::PromptInteraction`] contract.

use vstd::prelude::*;

mod confirm;
mod cursor;
mod error;
mod filter;
mod input;
mod interaction;
mod multiselect;
mod option;
mod parse;
mod password;
mod progressbar;
mod select;
mod term;
mod text;
mod theme;
mod validate;
mod view;

pub use confirm::Confirm;
pub use cursor::StringCursor;
pub use error::CliError;
pub use filter::FilteredView;
pub use input::Input;
pub use interaction::{edit_cursor, frame_height, resolve_escape, Event, Key, PromptInteraction, State};
pub use multiselect::{Checkbox, MultiSelect};
pub use option::{is_option, IsOptionMarker};
pub use parse::CliFromStr;
pub use password::Password;
pub use progressbar::{MultiLineProgressState, ProgressBarKind};
pub use select::{RadioButton, Select};
pub use term::TermSize;
pub use text::Text;
pub use theme::{ClackTheme, ThemeState};
pub use validate::{Unvalidated, Validate};
pub use view::ListView;

verus! {

/// The scale by which fuzzy-match scores are held as fixed-point integers:
/// a similarity of 1.0 is `SCORE_SCALE`.
pub const SCORE_SCALE: u64 = 1_000_000;

/// Candidates whose fixed-point score does not exceed this threshold are
/// dropped from a filtered view (six tenths of [`SCORE_SCALE`]).
pub const SCORE_THRESHOLD: u64 = 600_000;

/// Creates a new input prompt.
pub fn input(prompt: &str) -> (r: Input<Unvalidated, Unvalidated>)
    ensures
        r.spec_prompt() == prompt@,
        r.spec_input() == Seq::<char>::empty(),
        r.spec_required(),
        r.wf(),
{
    Input::new(prompt)
}

/// Creates a new password prompt.
pub fn password(prompt: &str) -> (r: Password<Unvalidated>)
    ensures
        r.spec_prompt() == prompt@,
        r.spec_input() == Seq::<char>::empty(),
        r.wf(),
{
    Password::new(prompt)
}

/// Creates a new selection prompt.
pub fn select<T>(prompt: &str) -> (r: Select<T>)
    ensures
        r.spec_prompt() == prompt@,
        r.spec_items().len() == 0,
{
    Select::new(prompt)
}

/// Creates a new multi-select prompt.
pub fn multiselect<T>(prompt: &str) -> (r: MultiSelect<T>)
    ensures
        r.spec_prompt() == prompt@,
        r.spec_items().len() == 0,
        r.spec_required(),
{
    MultiSelect::new(prompt)
}

/// Creates a new confirmation prompt.
pub fn confirm(prompt: &str) -> (r: Confirm)
    ensures
        r.spec_prompt() == prompt@,
        !r.spec_input(),
{
    Confirm::new(prompt)
}

} // verus!
