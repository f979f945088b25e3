//! Plain-text rendering of prompt frames.
//!
//! The theme turns an interaction state and raw content into the exact
//! printable lines of a frame: header, input line, list items, footer.
//! Colors and terminal styling are a host concern and are applied outside the
//! library; the contracts here pin down every character of the plain frame.

use vstd::prelude::*;
use vstd::string::StringExecFns;

use crate::cursor::{chars_vec, lemma_line_end, line_end, push_char, string_of_range, StringCursor};
use crate::filter::strs_views;
use crate::interaction::State;

verus! {

/// The interaction state as the theme sees it: the submitted value is gone,
/// only the kind of state (and an error message) is left.
pub enum ThemeState {
    Active,
    Cancel,
    Submit,
    Error(String),
}

impl ThemeState {
    /// Derives the theme state from an interaction state.
    pub fn of_state<T>(state: &State<T>) -> (r: ThemeState)
        ensures
            match state {
                State::Active => r is Active,
                State::Cancel => r is Cancel,
                State::Submit(_) => r is Submit,
                State::Error(e) => r matches ThemeState::Error(m) && m@ == e@,
            },
    {
        match state {
            State::Active => ThemeState::Active,
            State::Cancel => ThemeState::Cancel,
            State::Submit(_) => ThemeState::Submit,
            State::Error(e) => ThemeState::Error(e.clone()),
        }
    }
}

/// The state symbol drawn at the head of a frame.
pub open spec fn spec_state_symbol(state: &ThemeState) -> Seq<char> {
    match state {
        ThemeState::Active => "◆"@,
        ThemeState::Cancel => "■"@,
        ThemeState::Submit => "◇"@,
        ThemeState::Error(_) => "▲"@,
    }
}

/// The radio mark of one select item.
pub open spec fn spec_radio_symbol(state: &ThemeState, selected: bool) -> Seq<char> {
    match state {
        ThemeState::Active => if selected {
            "●"@
        } else {
            "○"@
        },
        _ => ""@,
    }
}

/// The checkbox mark of one multi-select item.
pub open spec fn spec_checkbox_symbol(state: &ThemeState, selected: bool) -> Seq<char> {
    match state {
        ThemeState::Active | ThemeState::Error(_) => if selected {
            "◼"@
        } else {
            "◻"@
        },
        _ => ""@,
    }
}

/// The text of a frame's header line.
pub open spec fn spec_header(state: &ThemeState, prompt: Seq<char>) -> Seq<char> {
    spec_state_symbol(state) + "  "@ + prompt + "\n"@
}

/// The text of a frame's footer line.
pub open spec fn spec_footer(state: &ThemeState) -> Seq<char> {
    match state {
        ThemeState::Active => "└\n"@,
        ThemeState::Cancel => "└  Operation cancelled.\n"@,
        ThemeState::Submit => "│\n"@,
        ThemeState::Error(e) => "└  "@ + e@ + "\n"@,
    }
}

/// The text of a frame's footer line carrying an extra hint while active.
pub open spec fn spec_footer_with_message(state: &ThemeState, msg: Seq<char>) -> Seq<char> {
    match state {
        ThemeState::Active => if msg.len() == 0 {
            "└\n"@
        } else {
            "└  "@ + msg + "\n"@
        },
        _ => spec_footer(state),
    }
}

/// The buffer as drawn with a caret: a space is drawn where the cursor sits
/// at the end of the buffer or on a newline; elsewhere the caret covers the
/// character itself.
pub open spec fn spec_caret_view(s: Seq<char>, p: int) -> Seq<char> {
    if p == s.len() || s[p] == '\n' {
        s.insert(p, ' ')
    } else {
        s
    }
}

/// The text of an editable input line.
pub open spec fn spec_input_line(state: &ThemeState, s: Seq<char>, p: int) -> Seq<char> {
    match state {
        ThemeState::Active | ThemeState::Error(_) => "│  "@ + spec_caret_view(s, p) + "\n"@,
        _ => "│  "@ + s + "\n"@,
    }
}

/// The text of the placeholder line shown while the input is empty.
pub open spec fn spec_placeholder_line(state: &ThemeState, s: Seq<char>, p: int) -> Seq<char> {
    match state {
        ThemeState::Active | ThemeState::Error(_) => "│  "@ + spec_caret_view(s, p) + "\n"@,
        ThemeState::Cancel => "│  \n"@,
        _ => "│  "@ + s + "\n"@,
    }
}

/// One select item, without its line decoration: mark, label and the hint of
/// the item under the cursor, separated by single spaces.
pub open spec fn spec_radio_item(
    state: &ThemeState,
    selected: bool,
    label: Seq<char>,
    hint: Seq<char>,
) -> Seq<char> {
    if (state is Cancel || state is Submit) && !selected {
        Seq::<char>::empty()
    } else {
        let mark = spec_radio_symbol(state, selected);
        let shown_hint = if (state is Active || state is Error) && hint.len() > 0 && selected {
            "("@ + hint + ")"@
        } else {
            Seq::<char>::empty()
        };
        (if mark.len() == 0 {
            mark
        } else {
            mark + " "@
        }) + (if label.len() == 0 {
            label
        } else {
            label + " "@
        }) + shown_hint
    }
}

/// One multi-select item, without its line decoration.
pub open spec fn spec_checkbox_item(
    state: &ThemeState,
    selected: bool,
    active: bool,
    label: Seq<char>,
    hint: Seq<char>,
) -> Seq<char> {
    if (state is Cancel || state is Submit) && !selected {
        Seq::<char>::empty()
    } else {
        let mark = spec_checkbox_symbol(state, selected);
        let shown_hint = if (state is Active || state is Error) && hint.len() > 0 && active {
            "("@ + hint + ")"@
        } else {
            Seq::<char>::empty()
        };
        (if mark.len() == 0 {
            mark
        } else {
            mark + " "@
        }) + (if label.len() == 0 {
            label
        } else {
            label + " "@
        }) + shown_hint
    }
}

/// One full select item line, or nothing for items hidden after the
/// interaction ends.
pub open spec fn spec_select_item_line(
    state: &ThemeState,
    selected: bool,
    label: Seq<char>,
    hint: Seq<char>,
) -> Seq<char> {
    if (state is Cancel || state is Submit) && !selected {
        Seq::<char>::empty()
    } else {
        "│  "@ + spec_radio_item(state, selected, label, hint) + "\n"@
    }
}

/// One full multi-select item line, or nothing for items hidden after the
/// interaction ends.
pub open spec fn spec_multiselect_item_line(
    state: &ThemeState,
    selected: bool,
    active: bool,
    label: Seq<char>,
    hint: Seq<char>,
) -> Seq<char> {
    if (state is Cancel || state is Submit) && !selected {
        Seq::<char>::empty()
    } else {
        "│  "@ + spec_checkbox_item(state, selected, active, label, hint) + "\n"@
    }
}

/// The yes/no line of a confirmation prompt.
pub open spec fn spec_confirm_line(state: &ThemeState, confirm: bool) -> Seq<char> {
    let divider = if state is Active {
        " / "@
    } else {
        ""@
    };
    "│  "@ + spec_radio_item(state, confirm, "Yes"@, ""@) + divider + spec_radio_item(
        state,
        !confirm,
        "No"@,
        ""@,
    ) + "\n"@
}


/// Two theme states that agree on their variant and error text render every
/// line identically.
pub open spec fn same_theme_state(a: &ThemeState, b: &ThemeState) -> bool {
    match (a, b) {
        (ThemeState::Active, ThemeState::Active) => true,
        (ThemeState::Cancel, ThemeState::Cancel) => true,
        (ThemeState::Submit, ThemeState::Submit) => true,
        (ThemeState::Error(x), ThemeState::Error(y)) => x@ == y@,
        _ => false,
    }
}

/// Law: rendering depends only on the kind of state and the error text,
/// never on the identity of the strings holding them.
pub proof fn lemma_theme_same_state(a: &ThemeState, b: &ThemeState)
    requires
        same_theme_state(a, b),
    ensures
        spec_state_symbol(a) == spec_state_symbol(b),
        spec_footer(a) == spec_footer(b),
        forall|p: Seq<char>| spec_header(a, p) == spec_header(b, p),
        forall|m: Seq<char>| spec_footer_with_message(a, m) == spec_footer_with_message(b, m),
        forall|s: Seq<char>, p: int| spec_input_line(a, s, p) == spec_input_line(b, s, p),
        forall|s: Seq<char>, p: int| spec_placeholder_line(a, s, p) == spec_placeholder_line(
            b,
            s,
            p,
        ),
        forall|sel: bool, l: Seq<char>, h: Seq<char>|
            spec_radio_item(a, sel, l, h) == spec_radio_item(b, sel, l, h),
        forall|sel: bool, l: Seq<char>, h: Seq<char>|
            spec_select_item_line(a, sel, l, h) == spec_select_item_line(b, sel, l, h),
        forall|sel: bool, act: bool, l: Seq<char>, h: Seq<char>|
            spec_checkbox_item(a, sel, act, l, h) == spec_checkbox_item(b, sel, act, l, h),
        forall|sel: bool, act: bool, l: Seq<char>, h: Seq<char>|
            spec_multiselect_item_line(a, sel, act, l, h) == spec_multiselect_item_line(
                b,
                sel,
                act,
                l,
                h,
            ),
        forall|c: bool| spec_confirm_line(a, c) == spec_confirm_line(b, c),
{
    assert forall|sel: bool, l: Seq<char>, h: Seq<char>|
        spec_radio_item(a, sel, l, h) == spec_radio_item(b, sel, l, h) by {
        assert(spec_radio_symbol(a, sel) == spec_radio_symbol(b, sel));
    }
    assert forall|sel: bool, l: Seq<char>, h: Seq<char>|
        spec_select_item_line(a, sel, l, h) == spec_select_item_line(b, sel, l, h) by {
        assert(spec_radio_item(a, sel, l, h) == spec_radio_item(b, sel, l, h));
    }
    assert forall|sel: bool, act: bool, l: Seq<char>, h: Seq<char>|
        spec_checkbox_item(a, sel, act, l, h) == spec_checkbox_item(b, sel, act, l, h) by {
        assert(spec_checkbox_symbol(a, sel) == spec_checkbox_symbol(b, sel));
    }
    assert forall|sel: bool, act: bool, l: Seq<char>, h: Seq<char>|
        spec_multiselect_item_line(a, sel, act, l, h) == spec_multiselect_item_line(
            b,
            sel,
            act,
            l,
            h,
        ) by {
        assert(spec_checkbox_item(a, sel, act, l, h) == spec_checkbox_item(b, sel, act, l, h));
    }
    assert forall|c: bool| spec_confirm_line(a, c) == spec_confirm_line(b, c) by {
        assert(spec_radio_item(a, c, "Yes"@, ""@) == spec_radio_item(b, c, "Yes"@, ""@));
        assert(spec_radio_item(a, !c, "No"@, ""@) == spec_radio_item(b, !c, "No"@, ""@));
    }
}


/// The lines of a text, split on newlines; a trailing newline yields a final
/// empty line, and an empty text is one empty line.
pub open spec fn split_lines(s: Seq<char>) -> Seq<Seq<char>>
    decreases s.len(),
    via split_lines_dec
{
    let e = line_end(s, 0);
    if e >= s.len() {
        seq![s]
    } else {
        seq![s.subrange(0, e)] + split_lines(s.subrange(e + 1, s.len() as int))
    }
}

#[via_fn]
proof fn split_lines_dec(s: Seq<char>) {
    lemma_line_end(s, 0);
}

/// Splits the characters `v[i..]` into their lines.
fn split_lines_from(v: &Vec<char>, i: usize) -> (r: Vec<String>)
    requires
        i <= v@.len(),
    ensures
        strs_views(r@) == split_lines(v@.subrange(i as int, v@.len() as int)),
        r@.len() >= 1,
    decreases v@.len() - i,
{
    let ghost tail = v@.subrange(i as int, v@.len() as int);
    let n = v.len();
    let mut j: usize = i;
    while j < n && v[j] != '\n'
        invariant
            i <= j <= n == v@.len(),
            forall|q: int| i <= q < j ==> v@[q] != '\n',
        decreases n - j,
    {
        j = j + 1;
    }
    proof {
        lemma_line_end(tail, 0);
        let le = line_end(tail, 0);
        if le < j - i {
            assert(tail[le] == v@[i + le]);
            assert(false);
        }
        if le > j - i {
            assert(j < n);
            assert(tail[j - i] == v@[j as int]);
            assert(false);
        }
        assert(le == j - i);
    }
    let line = string_of_range(v, i, j);
    if j < n {
        let mut rest = split_lines_from(v, j + 1);
        let ghost rest_snap = rest@;
        let mut r: Vec<String> = Vec::new();
        r.push(line);
        r.append(&mut rest);
        proof {
            assert(r@ =~= seq![line].add(rest_snap));
            assert(v@.subrange(j + 1, n as int) =~= tail.subrange(j - i + 1, tail.len() as int));
            assert(tail.subrange(0, j - i) =~= v@.subrange(i as int, j as int));
            assert forall|k: int| 0 <= k < r@.len() implies #[trigger] strs_views(r@)[k]
                == split_lines(tail)[k] by {
                if k >= 1 {
                    assert(strs_views(r@)[k] == rest_snap[k - 1]@);
                    assert(strs_views(rest_snap)[k - 1] == rest_snap[k - 1]@);
                }
            }
            assert(strs_views(r@) =~= split_lines(tail));
        }
        r
    } else {
        let mut r: Vec<String> = Vec::new();
        r.push(line);
        proof {
            assert(tail =~= v@.subrange(i as int, j as int));
            assert(strs_views(r@) =~= seq![tail]);
        }
        r
    }
}

/// `n` copies of one character.
pub open spec fn spec_repeat(c: char, n: int) -> Seq<char> {
    Seq::new(
        if n >= 0 {
            n as nat
        } else {
            0
        },
        |i: int| c,
    )
}

/// Renders `n` copies of one character.
fn repeat_char(c: char, n: usize) -> (r: String)
    ensures
        r@ == spec_repeat(c, n as int),
{
    let mut r = String::new();
    let mut i: usize = 0;
    proof {
        assert(r@ =~= spec_repeat(c, 0));
    }
    while i < n
        invariant
            i <= n,
            r@ == spec_repeat(c, i as int),
        decreases n - i,
    {
        push_char(&mut r, c);
        proof {
            assert(r@ =~= spec_repeat(c, i + 1));
        }
        i = i + 1;
    }
    r
}

/// The length of the longest line.
pub open spec fn max_line_len(lines: Seq<Seq<char>>) -> int
    decreases lines.len(),
{
    if lines.len() == 0 {
        0
    } else {
        let rest = max_line_len(lines.drop_first());
        if lines[0].len() >= rest {
            lines[0].len() as int
        } else {
            rest
        }
    }
}

/// No line is longer than the longest.
proof fn lemma_max_line_len_ge(lines: Seq<Seq<char>>, k: int)
    requires
        0 <= k < lines.len(),
    ensures
        lines[k].len() <= max_line_len(lines),
    decreases lines.len(),
{
    if k > 0 {
        lemma_max_line_len_ge(lines.drop_first(), k - 1);
        assert(lines.drop_first()[k - 1] == lines[k]);
    }
}

/// The longest line of a split is no longer than the text itself.
proof fn lemma_split_lines_bound(s: Seq<char>)
    ensures
        0 <= max_line_len(split_lines(s)) <= s.len(),
    decreases s.len(),
{
    lemma_line_end(s, 0);
    let e = line_end(s, 0);
    assert(max_line_len(Seq::<Seq<char>>::empty()) == 0);
    if e >= s.len() {
        assert(split_lines(s) == seq![s]);
        assert(split_lines(s).drop_first() =~= Seq::<Seq<char>>::empty());
        assert(split_lines(s)[0] == s);
    } else {
        lemma_split_lines_bound(s.subrange(e + 1, s.len() as int));
        assert(split_lines(s).drop_first() =~= split_lines(s.subrange(e + 1, s.len() as int)));
        assert(split_lines(s)[0] == s.subrange(0, e));
        assert(split_lines(s)[0].len() == e);
    }
}

/// The width of the longest of the given lines.
fn max_line_width(lines: &Vec<String>) -> (r: usize)
    ensures
        r as int == max_line_len(strs_views(lines@)),
{
    let ghost views = strs_views(lines@);
    let n = lines.len();
    let mut best: usize = 0;
    let mut k: usize = n;
    proof {
        assert(views.skip(n as int) =~= Seq::<Seq<char>>::empty());
    }
    while k > 0
        invariant
            k <= n == lines@.len(),
            views == strs_views(lines@),
            best as int == max_line_len(views.skip(k as int)),
        decreases k,
    {
        k = k - 1;
        proof {
            assert(views.skip(k as int).drop_first() =~= views.skip(k as int + 1));
            assert(views.skip(k as int)[0] == lines@[k as int]@);
        }
        let l = lines[k].as_str().unicode_len();
        if l > best {
            best = l;
        }
    }
    proof {
        assert(views.skip(0) =~= views);
    }
    best
}


/// One body row of a framed note: bar, the line, padding out to the frame's
/// width, bar.
pub open spec fn spec_note_row(line: Seq<char>, width: int) -> Seq<char> {
    "│  "@ + line + spec_repeat(' ', width - line.len() + 1) + "│\n"@
}

/// The body rows of a framed note.
pub open spec fn spec_note_body(lines: Seq<Seq<char>>, width: int) -> Seq<char>
    decreases lines.len(),
{
    if lines.len() == 0 {
        Seq::<char>::empty()
    } else {
        spec_note_row(lines[0], width) + spec_note_body(lines.drop_first(), width)
    }
}

/// Appending the next body row extends the body by one.
proof fn lemma_note_body_snoc(lines: Seq<Seq<char>>, width: int, m: int)
    requires
        0 <= m < lines.len(),
    ensures
        spec_note_body(lines.take(m + 1), width) == spec_note_body(lines.take(m), width)
            + spec_note_row(lines[m], width),
    decreases m,
{
    if m == 0 {
        assert(lines.take(1).drop_first() =~= Seq::<Seq<char>>::empty());
        assert(lines.take(0) =~= Seq::<Seq<char>>::empty());
        assert(lines.take(1)[0] == lines[0]);
        assert(spec_note_body(lines.take(1), width) =~= spec_note_body(lines.take(0), width)
            + spec_note_row(lines[0], width));
    } else {
        lemma_note_body_snoc(lines.drop_first(), width, m - 1);
        assert(lines.take(m + 1).drop_first() =~= lines.drop_first().take(m));
        assert(lines.take(m).drop_first() =~= lines.drop_first().take(m - 1));
        assert(lines.take(m + 1)[0] == lines[0]);
        assert(lines.take(m)[0] == lines[0]);
        assert(lines.drop_first()[m - 1] == lines[m]);
        assert(spec_note_body(lines.take(m + 1), width) =~= spec_note_body(lines.take(m), width)
            + spec_note_row(lines[m], width));
    }
}

/// A framed note: the message, wrapped in blank lines, boxed beside the
/// prompt; the frame is as wide as the longest line or the prompt.
pub open spec fn spec_note(prompt: Seq<char>, message: Seq<char>) -> Seq<char> {
    let framed = seq!['\n'] + message + seq!['\n'];
    let lines = split_lines(framed);
    let width = 2 + vstd::math::max(max_line_len(lines), prompt.len() as int);
    "◇  "@ + prompt + " "@ + spec_repeat('─', width - prompt.len()) + "╮\n"@ + spec_note_body(
        lines.drop_last(),
        width,
    ) + "├"@ + spec_repeat('─', width + 3) + "╯\n"@
}

/// The lines a log message shows: its split lines, without the empty line a
/// trailing newline (or an empty message) would add.
pub open spec fn spec_log_shown(text: Seq<char>) -> Seq<Seq<char>> {
    let ls = split_lines(text);
    if text.len() == 0 || text.last() == '\n' {
        ls.drop_last()
    } else {
        ls
    }
}

/// The continuation rows of a log message, each on its own bar-prefixed
/// line.
pub open spec fn spec_log_rows(lines: Seq<Seq<char>>) -> Seq<char>
    decreases lines.len(),
{
    if lines.len() == 0 {
        Seq::<char>::empty()
    } else {
        "\n│  "@ + lines[0] + spec_log_rows(lines.drop_first())
    }
}

/// Appending the next continuation row extends the rows by one.
proof fn lemma_log_rows_snoc(lines: Seq<Seq<char>>, m: int)
    requires
        0 <= m < lines.len(),
    ensures
        spec_log_rows(lines.take(m + 1)) == spec_log_rows(lines.take(m)) + "\n│  "@ + lines[m],
    decreases m,
{
    if m == 0 {
        assert(lines.take(1).drop_first() =~= Seq::<Seq<char>>::empty());
        assert(lines.take(0) =~= Seq::<Seq<char>>::empty());
        assert(lines.take(1)[0] == lines[0]);
        assert(spec_log_rows(lines.take(1)) =~= spec_log_rows(lines.take(0)) + "\n│  "@
            + lines[0]);
    } else {
        lemma_log_rows_snoc(lines.drop_first(), m - 1);
        assert(lines.take(m + 1).drop_first() =~= lines.drop_first().take(m));
        assert(lines.take(m).drop_first() =~= lines.drop_first().take(m - 1));
        assert(lines.take(m + 1)[0] == lines[0]);
        assert(lines.take(m)[0] == lines[0]);
        assert(lines.drop_first()[m - 1] == lines[m]);
        assert(spec_log_rows(lines.take(m + 1)) =~= spec_log_rows(lines.take(m)) + "\n│  "@
            + lines[m]);
    }
}

/// A log message: the symbol and the first line, the further lines behind
/// bars, and one closing bar line.
pub open spec fn spec_log(text: Seq<char>, symbol: Seq<char>) -> Seq<char> {
    let all = spec_log_shown(text).push(Seq::<char>::empty());
    symbol + "  "@ + all[0] + spec_log_rows(all.drop_first()) + "\n"@
}

/// The plain-text theme: it maps interaction state and raw content to the
/// exact printable frame lines of the prompts.
pub struct ClackTheme;

impl ClackTheme {
    /// The state symbol drawn at the head of a frame.
    pub fn state_symbol(&self, state: &ThemeState) -> (r: String)
        ensures
            r@ == spec_state_symbol(state),
    {
        match state {
            ThemeState::Active => "◆".to_owned(),
            ThemeState::Cancel => "■".to_owned(),
            ThemeState::Submit => "◇".to_owned(),
            ThemeState::Error(_) => "▲".to_owned(),
        }
    }

    /// The radio mark of one select item.
    pub fn radio_symbol(&self, state: &ThemeState, selected: bool) -> (r: String)
        ensures
            r@ == spec_radio_symbol(state, selected),
    {
        match state {
            ThemeState::Active => if selected {
                "●".to_owned()
            } else {
                "○".to_owned()
            },
            _ => "".to_owned(),
        }
    }

    /// The checkbox mark of one multi-select item.
    pub fn checkbox_symbol(&self, state: &ThemeState, selected: bool, _active: bool) -> (r: String)
        ensures
            r@ == spec_checkbox_symbol(state, selected),
    {
        match state {
            ThemeState::Active | ThemeState::Error(_) => if selected {
                "◼".to_owned()
            } else {
                "◻".to_owned()
            },
            _ => "".to_owned(),
        }
    }

    /// The symbol of a running remark outside any prompt.
    pub fn remark_symbol(&self) -> (r: String)
        ensures
            r@ == "├"@,
    {
        "├".to_owned()
    }

    /// The symbol of an informational log line.
    pub fn info_symbol(&self) -> (r: String)
        ensures
            r@ == "●"@,
    {
        "●".to_owned()
    }

    /// The symbol of a warning log line.
    pub fn warning_symbol(&self) -> (r: String)
        ensures
            r@ == "▲"@,
    {
        "▲".to_owned()
    }

    /// The symbol of an error log line.
    pub fn error_symbol(&self) -> (r: String)
        ensures
            r@ == "■"@,
    {
        "■".to_owned()
    }

    /// The symbol of an active step log line.
    pub fn active_symbol(&self) -> (r: String)
        ensures
            r@ == "◆"@,
    {
        "◆".to_owned()
    }

    /// The symbol of a submitted step log line.
    pub fn submit_symbol(&self) -> (r: String)
        ensures
            r@ == "◇"@,
    {
        "◇".to_owned()
    }

    /// The default password mask glyph.
    pub fn password_mask(&self) -> (r: char)
        ensures
            r == '▪',
    {
        '▪'
    }

    /// The first lines of a prompt sequence.
    pub fn format_intro(&self, title: &str) -> (r: String)
        ensures
            r@ == "┌  "@ + title@ + "\n│\n"@,
    {
        let mut r = "┌  ".to_owned();
        r.append(title);
        r.append("\n│\n");
        r
    }

    /// The last lines of a prompt sequence.
    pub fn format_outro(&self, message: &str) -> (r: String)
        ensures
            r@ == "│\n└  "@ + message@ + "\n"@,
    {
        let mut r = "│\n└  ".to_owned();
        r.append(message);
        r.append("\n");
        r
    }

    /// The last line of a cancelled prompt sequence.
    pub fn format_cancel(&self, message: &str) -> (r: String)
        ensures
            r@ == "└  "@ + message@ + "\n"@,
    {
        let mut r = "└  ".to_owned();
        r.append(message);
        r.append("\n");
        r
    }

    /// The header line of a frame.
    pub fn format_header(&self, state: &ThemeState, prompt: &str) -> (r: String)
        ensures
            r@ == spec_header(state, prompt@),
    {
        let mut r = self.state_symbol(state);
        r.append("  ");
        r.append(prompt);
        r.append("\n");
        r
    }

    /// The footer line of a frame.
    pub fn format_footer(&self, state: &ThemeState) -> (r: String)
        ensures
            r@ == spec_footer(state),
    {
        match state {
            ThemeState::Active => "└\n".to_owned(),
            ThemeState::Cancel => "└  Operation cancelled.\n".to_owned(),
            ThemeState::Submit => "│\n".to_owned(),
            ThemeState::Error(e) => {
                let mut r = "└  ".to_owned();
                r.append(e.as_str());
                r.append("\n");
                r
            },
        }
    }

    /// The footer line of a frame, with an extra hint while the prompt is
    /// active.
    pub fn format_footer_with_message(&self, state: &ThemeState, msg: &str) -> (r: String)
        ensures
            r@ == spec_footer_with_message(state, msg@),
    {
        match state {
            ThemeState::Active => {
                if msg.unicode_len() == 0 {
                    "└\n".to_owned()
                } else {
                    let mut r = "└  ".to_owned();
                    r.append(msg);
                    r.append("\n");
                    r
                }
            },
            _ => self.format_footer(state),
        }
    }

    /// The editable input line of a frame, with the caret drawn while the
    /// prompt is active or showing an error.
    pub fn format_input(&self, state: &ThemeState, cursor: &StringCursor) -> (r: String)
        requires
            cursor.wf(),
        ensures
            r@ == spec_input_line(state, cursor.text(), cursor.pos()),
    {
        let mut r = "│  ".to_owned();
        match state {
            ThemeState::Active | ThemeState::Error(_) => {
                let (left, caret, right) = cursor.split();
                r.append(left.as_str());
                r.append(caret.as_str());
                r.append(right.as_str());
                proof {
                    assert(r@ =~= "│  "@ + spec_caret_view(cursor.text(), cursor.pos()));
                }
            },
            _ => {
                let text = cursor.to_string();
                r.append(text.as_str());
            },
        }
        r.append("\n");
        r
    }

    /// The placeholder line shown while the input is empty.
    pub fn format_placeholder(&self, state: &ThemeState, cursor: &StringCursor) -> (r: String)
        requires
            cursor.wf(),
        ensures
            r@ == spec_placeholder_line(state, cursor.text(), cursor.pos()),
    {
        match state {
            ThemeState::Cancel => "│  \n".to_owned(),
            _ => self.format_input(state, cursor),
        }
    }

    /// One select item, without its line decoration.
    pub fn radio_item(
        &self,
        state: &ThemeState,
        selected: bool,
        label: &str,
        hint: &str,
    ) -> (r: String)
        ensures
            r@ == spec_radio_item(state, selected, label@, hint@),
    {
        let hidden = match state {
            ThemeState::Cancel | ThemeState::Submit => !selected,
            _ => false,
        };
        if hidden {
            proof {
                reveal_strlit("");
                assert(""@ =~= Seq::<char>::empty());
            }
            return "".to_owned();
        }
        proof {
            reveal_strlit("");
            reveal_strlit("\u{25cf}");
            reveal_strlit("\u{25cb}");
        }
        let mark = self.radio_symbol(state, selected);
        let mut r = String::new();
        if mark.unicode_len() > 0 {
            r.append(mark.as_str());
            r.append(" ");
        }
        if label.unicode_len() > 0 {
            r.append(label);
            r.append(" ");
        }
        let show_hint = match state {
            ThemeState::Active | ThemeState::Error(_) => hint.unicode_len() > 0 && selected,
            _ => false,
        };
        if show_hint {
            r.append("(");
            r.append(hint);
            r.append(")");
        }
        proof {
            assert(r@ =~= spec_radio_item(state, selected, label@, hint@));
        }
        r
    }

    /// One multi-select item, without its line decoration.
    pub fn checkbox_item(
        &self,
        state: &ThemeState,
        selected: bool,
        active: bool,
        label: &str,
        hint: &str,
    ) -> (r: String)
        ensures
            r@ == spec_checkbox_item(state, selected, active, label@, hint@),
    {
        let hidden = match state {
            ThemeState::Cancel | ThemeState::Submit => !selected,
            _ => false,
        };
        if hidden {
            proof {
                reveal_strlit("");
                assert(""@ =~= Seq::<char>::empty());
            }
            return "".to_owned();
        }
        proof {
            reveal_strlit("");
            reveal_strlit("\u{25fc}");
            reveal_strlit("\u{25fb}");
        }
        let mark = self.checkbox_symbol(state, selected, active);
        let mut r = String::new();
        if mark.unicode_len() > 0 {
            r.append(mark.as_str());
            r.append(" ");
        }
        if label.unicode_len() > 0 {
            r.append(label);
            r.append(" ");
        }
        let show_hint = match state {
            ThemeState::Active | ThemeState::Error(_) => hint.unicode_len() > 0 && active,
            _ => false,
        };
        if show_hint {
            r.append("(");
            r.append(hint);
            r.append(")");
        }
        proof {
            assert(r@ =~= spec_checkbox_item(state, selected, active, label@, hint@));
        }
        r
    }

    /// One full select item line.
    pub fn format_select_item(
        &self,
        state: &ThemeState,
        selected: bool,
        label: &str,
        hint: &str,
    ) -> (r: String)
        ensures
            r@ == spec_select_item_line(state, selected, label@, hint@),
    {
        let hidden = match state {
            ThemeState::Cancel | ThemeState::Submit => !selected,
            _ => false,
        };
        if hidden {
            proof {
                reveal_strlit("");
                assert(""@ =~= Seq::<char>::empty());
            }
            return "".to_owned();
        }
        let mut r = "│  ".to_owned();
        let item = self.radio_item(state, selected, label, hint);
        r.append(item.as_str());
        r.append("\n");
        r
    }

    /// One full multi-select item line.
    pub fn format_multiselect_item(
        &self,
        state: &ThemeState,
        selected: bool,
        active: bool,
        label: &str,
        hint: &str,
    ) -> (r: String)
        ensures
            r@ == spec_multiselect_item_line(state, selected, active, label@, hint@),
    {
        let hidden = match state {
            ThemeState::Cancel | ThemeState::Submit => !selected,
            _ => false,
        };
        if hidden {
            proof {
                reveal_strlit("");
                assert(""@ =~= Seq::<char>::empty());
            }
            return "".to_owned();
        }
        let mut r = "│  ".to_owned();
        let item = self.checkbox_item(state, selected, active, label, hint);
        r.append(item.as_str());
        r.append("\n");
        r
    }

    /// The yes/no line of a confirmation prompt.
    pub fn format_confirm(&self, state: &ThemeState, confirm: bool) -> (r: String)
        ensures
            r@ == spec_confirm_line(state, confirm),
    {
        let yes = self.radio_item(state, confirm, "Yes", "");
        let no = self.radio_item(state, !confirm, "No", "");
        let mut r = "│  ".to_owned();
        r.append(yes.as_str());
        match state {
            ThemeState::Active => {
                r.append(" / ");
            },
            _ => {},
        }
        r.append(no.as_str());
        r.append("\n");
        proof {
            reveal_strlit("");
            assert(r@ =~= spec_confirm_line(state, confirm));
        }
        r
    }

    /// Renders a framed note: the prompt in the frame's top bar, the message
    /// boxed under it, the frame as wide as the longest line or the prompt.
    pub fn format_note(&self, prompt: &str, message: &str) -> (r: String)
        requires
            prompt@.len() + message@.len() + 16 < usize::MAX,
        ensures
            r@ == spec_note(prompt@, message@),
    {
        // wrap the message in blank lines and split it
        let mut framed_text = String::new();
        push_char(&mut framed_text, '\n');
        framed_text.append(message);
        push_char(&mut framed_text, '\n');
        let framed = chars_vec(framed_text.as_str());
        proof {
            assert(framed@ =~= seq!['\n'] + message@ + seq!['\n']);
        }
        let lines = split_lines_from(&framed, 0);
        proof {
            assert(framed@.subrange(0, framed@.len() as int) =~= framed@);
        }
        let ghost lviews = split_lines(framed@);
        // the frame is as wide as the longest line or the prompt
        let maxw = max_line_width(&lines);
        let plen = prompt.unicode_len();
        proof {
            lemma_split_lines_bound(framed@);
        }
        let content = if maxw >= plen {
            maxw
        } else {
            plen
        };
        let width = 2 + content;
        let mut r = "◇  ".to_owned();
        r.append(prompt);
        r.append(" ");
        let header_bar = repeat_char('─', width - plen);
        r.append(header_bar.as_str());
        r.append("╮\n");
        proof {
            assert(width as int == 2 + vstd::math::max(max_line_len(lviews), prompt@.len() as int));
            assert(r@ =~= "◇  "@ + prompt@ + " "@ + spec_repeat('─', width - plen) + "╮\n"@);
        }
        // body rows: every split line but the trailing empty one
        let bn = lines.len() - 1;
        let ghost body = lviews.drop_last();
        let ghost head = r@;
        let mut k: usize = 0;
        proof {
            assert(body.take(0) =~= Seq::<Seq<char>>::empty());
        }
        while k < bn
            invariant
                bn == lines@.len() - 1,
                strs_views(lines@) == lviews,
                body == lviews.drop_last(),
                2 + vstd::math::max(max_line_len(lviews), 0) <= width,
                width < usize::MAX,
                width as int == 2 + vstd::math::max(
                    max_line_len(lviews),
                    prompt@.len() as int,
                ),
                k <= bn,
                r@ == head + spec_note_body(body.take(k as int), width as int),
            decreases bn - k,
        {
            proof {
                lemma_note_body_snoc(body, width as int, k as int);
                lemma_max_line_len_ge(lviews, k as int);
                assert(body[k as int] == lviews[k as int]);
                assert(lines@[k as int]@ == lviews[k as int]);
            }
            let l = lines[k].as_str().unicode_len();
            proof {
                assert(l as int == lviews[k as int].len());
                assert(l + 2 <= width);
            }
            let row_pad = repeat_char(' ', width - l + 1);
            r.append("│  ");
            r.append(lines[k].as_str());
            r.append(row_pad.as_str());
            r.append("│\n");
            proof {
                assert(r@ =~= head + spec_note_body(body.take(k as int), width as int)
                    + spec_note_row(body[k as int], width as int));
            }
            k = k + 1;
        }
        r.append("├");
        let footer_bar = repeat_char('─', width + 3);
        r.append(footer_bar.as_str());
        r.append("╯\n");
        proof {
            assert(body.take(bn as int) =~= body);
            assert(r@ =~= spec_note(prompt@, message@));
        }
        r
    }

    /// Renders a log message: the symbol and the first line, the further
    /// lines behind bars, and one closing bar line.
    pub fn format_log(&self, text: &str, symbol: &str) -> (r: String)
        ensures
            r@ == spec_log(text@, symbol@),
    {
        let chars = chars_vec(text);
        let mut all_lines = split_lines_from(&chars, 0);
        proof {
            assert(chars@.subrange(0, chars@.len() as int) =~= chars@);
        }
        let ghost ls = split_lines(text@);
        // drop the empty line a trailing newline (or an empty text) adds
        let n = chars.len();
        if n == 0 || all_lines.len() > 0 && chars[n - 1] == '\n' {
            let ghost before = all_lines@;
            let _ = all_lines.pop();
            proof {
                assert(strs_views(all_lines@) =~= strs_views(before).drop_last());
            }
        }
        proof {
            assert(strs_views(all_lines@) =~= spec_log_shown(text@));
        }
        // the chained trailing empty line of the original formatting
        all_lines.push(String::new());
        let ghost all = spec_log_shown(text@).push(Seq::<char>::empty());
        proof {
            assert(strs_views(all_lines@) =~= all);
        }
        let mut r = symbol.to_owned();
        r.append("  ");
        r.append(all_lines[0].as_str());
        proof {
            assert(all_lines@[0]@ == all[0]);
        }
        let ghost head = r@;
        let an = all_lines.len();
        let mut k: usize = 1;
        proof {
            assert(all.drop_first().take(0) =~= Seq::<Seq<char>>::empty());
        }
        while k < an
            invariant
                1 <= k <= an == all_lines@.len(),
                strs_views(all_lines@) == all,
                r@ == head + spec_log_rows(all.drop_first().take(k - 1)),
            decreases an - k,
        {
            proof {
                lemma_log_rows_snoc(all.drop_first(), k - 1);
                assert(all.drop_first()[k - 1] == all[k as int]);
                assert(all_lines@[k as int]@ == all[k as int]);
            }
            r.append("\n│  ");
            r.append(all_lines[k].as_str());
            k = k + 1;
        }
        r.append("\n");
        proof {
            assert(all.drop_first().take(an - 1) =~= all.drop_first());
            assert(r@ =~= spec_log(text@, symbol@));
        }
        r
    }
}

} // verus!
