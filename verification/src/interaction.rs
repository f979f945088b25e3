//! The render/event contract that every prompt implements, and the per-key
//! decisions of the driver loop.
//!
//! The blocking loop itself (reading keys, clearing and rewriting terminal
//! lines) lives outside the library; everything it decides — how a key edits
//! a text cursor, what Escape does, how many terminal rows a frame occupies —
//! is here, with contracts.

use vstd::prelude::*;

use crate::cursor::{down_pos, line_end, line_home, prev_word_boundary, up_pos, StringCursor};

verus! {

/// One logical keypress.
#[derive(Clone, Copy, Debug)]
pub enum Key {
    Char(char),
    Enter,
    Escape,
    Backspace,
    Del,
    ArrowUp,
    ArrowDown,
    ArrowLeft,
    ArrowRight,
    Home,
    End,
    Tab,
    Unknown,
}

/// One event handed to a prompt. Only keypresses exist today.
#[derive(Clone, Copy, Debug)]
pub enum Event {
    Key(Key),
}

/// The interaction state a prompt computes after each event. `Active` and
/// `Error` are transient — shown for one frame and recomputed from the next
/// key; `Submit` and `Cancel` are terminal.
#[derive(Debug)]
pub enum State<T> {
    Active,
    Submit(T),
    Cancel,
    Error(String),
}

/// Whether `c` is an ASCII control character, as `char::is_ascii_control`
/// decides it.
pub open spec fn is_control(c: char) -> bool {
    (c as u32) < 0x20 || c as u32 == 0x7F
}

/// Executable mirror of [`is_control`].
pub fn is_ascii_control_char(c: char) -> (r: bool)
    ensures
        r == is_control(c),
{
    let u = c as u32;
    u < 0x20 || u == 0x7F
}

/// The character deleting one word back (Ctrl-W on a terminal).
pub open spec fn word_erase_char() -> char {
    '\u{17}'
}

/// The buffer text after one keypress is offered to the cursor, as
/// [`edit_cursor`] applies it.
pub open spec fn edited_text(s: Seq<char>, p: int, key: Key, word_editing: bool) -> Seq<char> {
    match key {
        Key::Char(c) => if !is_control(c) {
            s.insert(p, c)
        } else if c == word_erase_char() && word_editing && p > 0 {
            s.subrange(0, prev_word_boundary(s, p)) + s.subrange(p, s.len() as int)
        } else {
            s
        },
        Key::Backspace => if p > 0 {
            s.remove(p - 1)
        } else {
            s
        },
        Key::Del => if p < s.len() {
            s.remove(p)
        } else {
            s
        },
        _ => s,
    }
}

/// The cursor position after one keypress is offered to the cursor, as
/// [`edit_cursor`] applies it.
pub open spec fn edited_pos(s: Seq<char>, p: int, key: Key, word_editing: bool) -> int {
    match key {
        Key::Char(c) => if !is_control(c) {
            p + 1
        } else if c == word_erase_char() && word_editing && p > 0 {
            prev_word_boundary(s, p)
        } else {
            p
        },
        Key::Backspace => if p > 0 {
            p - 1
        } else {
            p
        },
        Key::ArrowLeft => if p > 0 {
            p - 1
        } else {
            p
        },
        Key::ArrowRight => if p < s.len() {
            p + 1
        } else {
            p
        },
        Key::ArrowUp => if s.len() < usize::MAX {
            up_pos(s, p)
        } else {
            p
        },
        Key::ArrowDown => if s.len() < usize::MAX {
            down_pos(s, p)
        } else {
            p
        },
        Key::Home => if s.len() < usize::MAX {
            line_home(s, p)
        } else {
            p
        },
        Key::End => if s.len() < usize::MAX {
            line_end(s, p)
        } else {
            p
        },
        _ => p,
    }
}

/// Applies one keypress to an editable text cursor, exactly as the driver
/// offers keys to a prompt's cursor before the prompt itself sees the event:
/// printable characters are inserted, Backspace and Del delete, the arrows,
/// Home and End navigate, and the word-erase control character deletes the
/// word left of the cursor when `word_editing` allows it.
pub fn edit_cursor(cursor: &mut StringCursor, key: &Key, word_editing: bool)
    requires
        old(cursor).wf(),
    ensures
        final(cursor).wf(),
        final(cursor).text() == edited_text(
            old(cursor).text(),
            old(cursor).pos(),
            *key,
            word_editing,
        ),
        final(cursor).pos() == edited_pos(
            old(cursor).text(),
            old(cursor).pos(),
            *key,
            word_editing,
        ),
{
    match *key {
        Key::Char(c) => {
            if !is_ascii_control_char(c) {
                cursor.insert(c);
            } else if c == '\u{17}' && word_editing {
                cursor.delete_word_to_the_left();
            }
        },
        Key::Backspace => cursor.delete_left(),
        Key::Del => cursor.delete_right(),
        Key::ArrowLeft => cursor.move_left(),
        Key::ArrowRight => cursor.move_right(),
        Key::ArrowUp => cursor.move_up(),
        Key::ArrowDown => cursor.move_down(),
        Key::Home => cursor.move_home(),
        Key::End => cursor.move_end(),
        _ => {},
    }
}

/// The driver's Escape rule. The prompt sees Escape first; a prompt that
/// stays `Active` did not consume it and is cancelled, one that answers
/// `Cancel` absorbed it (it switched its editing mode instead), and `Submit`
/// or `Error` pass through unchanged.
pub fn resolve_escape<T>(state: State<T>) -> (r: State<T>)
    ensures
        state is Active ==> r is Cancel,
        state is Cancel ==> r is Active,
        state is Submit || state is Error ==> r == state,
{
    match state {
        State::Active => State::Cancel,
        State::Cancel => State::Active,
        other => other,
    }
}

/// A prompt: it renders a frame for each interaction state and computes the
/// next state from each event. The driver owns the only blocking I/O; it
/// renders, diffs, lets the key edit the prompt's cursor, and then hands the
/// key to [`PromptInteraction::on`], with Escape resolved by
/// [`resolve_escape`].
pub trait PromptInteraction<T>: Sized {
    /// The prompt's internal consistency condition; every event handler
    /// preserves it.
    spec fn inv(&self) -> bool;

    /// Renders the complete frame for the given state.
    fn render(&self, state: &State<T>) -> String
        requires
            self.inv(),
    ;

    /// Computes the next state from one event.
    fn on(&mut self, event: &Event) -> (next: State<T>)
        requires
            old(self).inv(),
        ensures
            final(self).inv(),
    ;

    /// Offers one keypress to the prompt's own text cursor, if it exposes
    /// one, before [`PromptInteraction::on`] runs.
    fn edit(&mut self, key: &Key)
        requires
            old(self).inv(),
        ensures
            final(self).inv(),
    ;
}

/// Rows taken by one logical line of `len` characters on a terminal `width`
/// columns wide: one row per `width` characters begun, and one row for an
/// empty line.
pub open spec fn rows_of_line(len: nat, width: nat) -> nat {
    if len == 0 {
        1nat
    } else {
        len / width + (if len % width == 0 {
            0nat
        } else {
            1nat
        })
    }
}

/// Rows taken by the frame `s` when `partial` characters of the current line
/// have already been seen: lines are cut at newlines, a trailing line without
/// a newline still takes its rows, and an empty frame takes none.
pub open spec fn frame_rows_from(s: Seq<char>, width: nat, partial: nat) -> nat
    decreases s.len(),
{
    if s.len() == 0 {
        if partial > 0 {
            rows_of_line(partial, width)
        } else {
            0
        }
    } else if s[0] == '\n' {
        rows_of_line(partial, width) + frame_rows_from(s.drop_first(), width, 0)
    } else {
        frame_rows_from(s.drop_first(), width, partial + 1)
    }
}

/// How many terminal rows the frame `s` occupies after the terminal's soft
/// wrap at `width` columns.
pub open spec fn frame_rows(s: Seq<char>, width: nat) -> nat {
    frame_rows_from(s, width, 0)
}

/// The row count never exceeds the character count plus the partial line's
/// rows.
proof fn lemma_frame_rows_le(s: Seq<char>, width: nat, partial: nat)
    requires
        width >= 1,
    ensures
        frame_rows_from(s, width, partial) <= s.len() + partial + 1,
    decreases s.len(),
{
    vstd::arithmetic::div_mod::lemma_div_basics_5(partial as int, width as int);
    if s.len() == 0 {
    } else if s[0] == '\n' {
        lemma_frame_rows_le(s.drop_first(), width, 0);
    } else {
        lemma_frame_rows_le(s.drop_first(), width, partial + 1);
    }
}

/// How many terminal rows `frame` occupies after the terminal's soft wrap at
/// `width` columns: the number of lines the driver must clear to erase it.
pub fn frame_height(frame: &str, width: usize) -> (r: usize)
    requires
        width >= 1,
        frame@.len() + 1 < usize::MAX,
    ensures
        r as nat == frame_rows(frame@, width as nat),
{
    let v = crate::cursor::chars_vec(frame);
    let ghost s = v@;
    let n = v.len();
    let mut rows: usize = 0;
    let mut line_len: usize = 0;
    let mut i: usize = 0;
    proof {
        assert(s.skip(0) == s);
    }
    while i < n
        invariant
            width >= 1,
            n == s.len(),
            v@ == s,
            s.len() + 1 < usize::MAX,
            i <= n,
            line_len <= i,
            rows + frame_rows_from(s.skip(i as int), width as nat, line_len as nat) == frame_rows(
                s,
                width as nat,
            ),
            rows + line_len <= i + 1,
        decreases n - i,
    {
        proof {
            assert(s.skip(i as int).drop_first() == s.skip(i + 1));
            lemma_frame_rows_le(s.skip(i + 1), width as nat, 0);
            vstd::arithmetic::div_mod::lemma_div_basics_5(line_len as int, width as int);
        }
        if v[i] == '\n' {
            let add = if line_len == 0 {
                1
            } else {
                line_len / width + if line_len % width == 0 {
                    0
                } else {
                    1
                }
            };
            rows = rows + add;
            line_len = 0;
        } else {
            line_len = line_len + 1;
        }
        i = i + 1;
    }
    proof {
        assert(s.skip(n as int) =~= Seq::<char>::empty());
        vstd::arithmetic::div_mod::lemma_div_basics_5(line_len as int, width as int);
    }
    if line_len > 0 {
        rows + (line_len / width + if line_len % width == 0 {
            0
        } else {
            1
        })
    } else {
        rows
    }
}

} // verus!
