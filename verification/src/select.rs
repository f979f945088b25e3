//! A prompt that asks for one selection from a list of options.

use vstd::pervasive::cloned;
use vstd::prelude::*;
use vstd::std_specs::cmp::PartialEqSpec;
use vstd::string::StringExecFns;

use crate::error::CliError;
use crate::filter::{is_ranked, labels_of, FilteredView, LabeledItem};
use crate::interaction::{Event, Key, PromptInteraction, State};
use crate::theme::{
    lemma_theme_same_state, same_theme_state, spec_footer, spec_header, spec_input_line,
    spec_select_item_line, ClackTheme, ThemeState,
};

verus! {

/// One selectable option: an opaque value returned verbatim on submit, the
/// label the list shows and matches on, and a hint shown under the cursor.
pub struct RadioButton<T> {
    pub value: T,
    pub label: String,
    pub hint: String,
}

impl<T> LabeledItem for RadioButton<T> {
    open spec fn label_spec(&self) -> Seq<char> {
        self.label@
    }

    fn label(&self) -> (r: &str) {
        self.label.as_str()
    }
}

/// The theme state a frame is rendered for.
pub open spec fn spec_theme_state<T>(state: &State<T>) -> ThemeState {
    match state {
        State::Active => ThemeState::Active,
        State::Cancel => ThemeState::Cancel,
        State::Submit(_) => ThemeState::Submit,
        State::Error(e) => ThemeState::Error(*e),
    }
}

/// Where the list cursor stands after the owning prompt fixes it against a
/// new view: reset to the top whenever it fell off the view.
pub open spec fn fixed_cursor(visible: Seq<usize>, cursor: int) -> int {
    if visible.len() == 0 || cursor > visible.len() - 1 {
        0
    } else {
        cursor
    }
}

/// The window start after scrolling down just enough to keep the cursor
/// inside a window of `size` rows: never re-centred, moved only when the
/// cursor left the window's bottom.
pub open spec fn window_after(pos: int, size: int, cursor: int) -> int {
    if pos + size <= usize::MAX as int && cursor >= pos + size {
        cursor - size + 1
    } else {
        pos
    }
}

/// The item lines of a select frame for the visible window `[i, end)`.
pub open spec fn spec_select_lines<T>(
    ts: &ThemeState,
    items: Seq<RadioButton<T>>,
    visible: Seq<usize>,
    cursor: int,
    i: int,
    end: int,
) -> Seq<char>
    decreases end - i,
{
    if i >= end || i >= visible.len() {
        Seq::<char>::empty()
    } else {
        spec_select_item_line(
            ts,
            cursor == i,
            items[visible[i] as int].label@,
            items[visible[i] as int].hint@,
        ) + spec_select_lines(ts, items, visible, cursor, i + 1, end)
    }
}

/// Appending the next window row extends the lines by one item line.
proof fn lemma_select_lines_snoc<T>(
    ts: &ThemeState,
    items: Seq<RadioButton<T>>,
    visible: Seq<usize>,
    cursor: int,
    i: int,
    m: int,
)
    requires
        i <= m < visible.len(),
    ensures
        spec_select_lines(ts, items, visible, cursor, i, m + 1) == spec_select_lines(
            ts,
            items,
            visible,
            cursor,
            i,
            m,
        ) + spec_select_item_line(
            ts,
            cursor == m,
            items[visible[m] as int].label@,
            items[visible[m] as int].hint@,
        ),
    decreases m - i,
{
    if i == m {
        assert(spec_select_lines(ts, items, visible, cursor, m + 1, m + 1) =~= Seq::<
            char,
        >::empty());
        assert(spec_select_lines(ts, items, visible, cursor, i, m) =~= Seq::<char>::empty());
        assert(spec_select_lines(ts, items, visible, cursor, i, m + 1) =~= spec_select_lines(
            ts,
            items,
            visible,
            cursor,
            i,
            m,
        ) + spec_select_item_line(
            ts,
            cursor == m,
            items[visible[m] as int].label@,
            items[visible[m] as int].hint@,
        ));
    } else {
        lemma_select_lines_snoc(ts, items, visible, cursor, i + 1, m);
        assert(spec_select_lines(ts, items, visible, cursor, i, m + 1) =~= spec_select_lines(
            ts,
            items,
            visible,
            cursor,
            i,
            m,
        ) + spec_select_item_line(
            ts,
            cursor == m,
            items[visible[m] as int].label@,
            items[visible[m] as int].hint@,
        ));
    }
}

/// The query line of a select frame: drawn while filtering, except on the
/// final frame.
pub open spec fn spec_select_filter_line<T>(sel: &Select<T>, state: &State<T>) -> Seq<char> {
    if sel.spec_filtering() && !(state is Submit) && !(state is Cancel) {
        spec_input_line(&spec_theme_state(state), sel.spec_query(), sel.filter_query_pos())
    } else {
        Seq::<char>::empty()
    }
}

/// The full select frame: header, query line, window of items, footer.
pub open spec fn spec_select_frame<T>(sel: &Select<T>, state: &State<T>) -> Seq<char> {
    let ts = spec_theme_state(state);
    let end = if sel.spec_window_pos() + sel.spec_window_size() <= sel.spec_visible().len() {
        sel.spec_window_pos() + sel.spec_window_size()
    } else {
        sel.spec_visible().len() as int
    };
    spec_header(&ts, sel.spec_prompt()) + spec_select_filter_line(sel, state) + spec_select_lines(
        &ts,
        sel.spec_items(),
        sel.spec_visible(),
        sel.spec_cursor(),
        sel.spec_window_pos(),
        end,
    ) + spec_footer(&ts)
}

/// The cursor moved one step towards the top and the window followed.
pub open spec fn nav_up_post<T>(pre: Select<T>, post: Select<T>) -> bool {
    let c = if pre.spec_cursor() > 0 {
        pre.spec_cursor() - 1
    } else {
        0
    };
    &&& post.spec_cursor() == c
    &&& post.spec_window_pos() == (if c < pre.spec_window_pos() {
        c
    } else {
        pre.spec_window_pos()
    })
    &&& post.spec_visible() == pre.spec_visible()
    &&& post.spec_query() == pre.spec_query()
}

/// The cursor moved one step towards the bottom and the window followed.
pub open spec fn nav_down_post<T>(pre: Select<T>, post: Select<T>) -> bool {
    let c = if pre.spec_visible().len() > 0 && pre.spec_cursor() < pre.spec_visible().len() - 1 {
        pre.spec_cursor() + 1
    } else {
        pre.spec_cursor()
    };
    &&& post.spec_cursor() == c
    &&& post.spec_window_pos() == window_after(pre.spec_window_pos(), pre.spec_window_size(), c)
    &&& post.spec_visible() == pre.spec_visible()
    &&& post.spec_query() == pre.spec_query()
}

/// The view was recomputed against the canonical items: ranked under a
/// non-empty query, the whole list otherwise.
pub open spec fn refreshed_view<T>(pre: Select<T>, post: Select<T>) -> bool {
    if pre.spec_query().len() > 0 {
        is_ranked(labels_of(pre.spec_items()), pre.spec_query(), post.spec_visible())
    } else {
        post.spec_visible().len() == pre.spec_items().len() && (forall|k: int|
            0 <= k < pre.spec_items().len() ==> post.spec_visible()[k] == k)
    }
}

/// The filter re-ranked the view and the cursor was reset when it fell off.
pub open spec fn refreshed_post<T>(pre: Select<T>, post: Select<T>) -> bool {
    &&& refreshed_view(pre, post)
    &&& post.spec_cursor() == fixed_cursor(post.spec_visible(), pre.spec_cursor())
    &&& post.spec_query() == pre.spec_query()
}

/// Nothing about the view, cursor or query changed.
pub open spec fn unchanged_view<T>(pre: Select<T>, post: Select<T>) -> bool {
    &&& post.spec_visible() == pre.spec_visible()
    &&& post.spec_cursor() == pre.spec_cursor()
    &&& post.spec_query() == pre.spec_query()
    &&& post.filter_query_pos() == pre.filter_query_pos()
    &&& post.spec_window_pos() == pre.spec_window_pos()
}

/// The filter removed the query character the driver just inserted for the
/// space key; nothing else moved.
pub open spec fn space_query_post<T>(pre: Select<T>, post: Select<T>) -> bool {
    &&& post.spec_visible() == pre.spec_visible()
    &&& post.spec_cursor() == pre.spec_cursor()
    &&& post.spec_window_pos() == pre.spec_window_pos()
    &&& post.spec_query() == (if pre.filter_query_pos() > 0 {
        pre.spec_query().remove(pre.filter_query_pos() - 1)
    } else {
        pre.spec_query()
    })
    &&& post.filter_query_pos() == (if pre.filter_query_pos() > 0 {
        pre.filter_query_pos() - 1
    } else {
        pre.filter_query_pos()
    })
}

/// Some item's value equals `v` under the documented equality.
pub open spec fn has_eq_match<T: PartialEq>(items: Seq<RadioButton<T>>, v: T) -> bool {
    exists|k: int| 0 <= k < items.len() && (#[trigger] items[k]).value.eq_spec(&v)
}

/// `c` is the first index whose value equals `v` under the documented
/// equality.
pub open spec fn first_eq_match<T: PartialEq>(items: Seq<RadioButton<T>>, v: T, c: int) -> bool {
    &&& 0 <= c < items.len()
    &&& items[c].value.eq_spec(&v)
    &&& forall|j: int| 0 <= j < c ==> !(#[trigger] items[j]).value.eq_spec(&v)
}

/// Finds the first item whose value equals `v` under the documented
/// equality; without a documented equality the result is some index of the
/// list, or nothing.
fn find_first_eq<T: PartialEq>(items: &Vec<RadioButton<T>>, v: &T) -> (r: Option<usize>)
    ensures
        match r {
            Some(k) => (k as int) < items@.len() && (T::obeys_eq_spec() ==> first_eq_match(
                items@,
                *v,
                k as int,
            )),
            None => T::obeys_eq_spec() ==> !has_eq_match(items@, *v),
        },
{
    let n = items.len();
    let mut k: usize = 0;
    while k < n
        invariant
            n == items@.len(),
            k <= n,
            T::obeys_eq_spec() ==> forall|j: int|
                0 <= j < k ==> !(#[trigger] items@[j]).value.eq_spec(v),
        decreases n - k,
    {
        if items[k].value == *v {
            return Some(k);
        }
        k = k + 1;
    }
    proof {
        if T::obeys_eq_spec() {
            assert(!has_eq_match(items@, *v)) by {
                if has_eq_match(items@, *v) {
                    let k0 = choose|k0: int|
                        0 <= k0 < items@.len() && (#[trigger] items@[k0]).value.eq_spec(&*v);
                    assert(!items@[k0].value.eq_spec(v));
                }
            }
        }
    }
    None
}

/// A prompt that asks for one selection from a list of options.
pub struct Select<T> {
    prompt: String,
    items: Vec<RadioButton<T>>,
    cursor: usize,
    initial_value: Option<T>,
    filter: FilteredView,
    window_size: usize,
    window_pos: usize,
    term_rows: Option<u16>,
}

impl<T> Select<T> {
    /// The canonical option list.
    pub closed spec fn spec_items(&self) -> Seq<RadioButton<T>> {
        self.items@
    }

    /// The navigation index into the visible set.
    pub closed spec fn spec_cursor(&self) -> int {
        self.cursor as int
    }

    /// The indices of the currently visible items.
    pub closed spec fn spec_visible(&self) -> Seq<usize> {
        self.filter.view_indices()
    }

    /// The filter's query text.
    pub closed spec fn spec_query(&self) -> Seq<char> {
        self.filter.query()
    }

    /// The filter's query cursor offset.
    pub closed spec fn filter_query_pos(&self) -> int {
        self.filter.query_pos()
    }

    /// Whether filtering is switched on.
    pub closed spec fn spec_filtering(&self) -> bool {
        self.filter.filtering()
    }

    /// The prompt text.
    pub closed spec fn spec_prompt(&self) -> Seq<char> {
        self.prompt@
    }

    /// The window start.
    pub closed spec fn spec_window_pos(&self) -> int {
        self.window_pos as int
    }

    /// The window size.
    pub closed spec fn spec_window_size(&self) -> int {
        self.window_size as int
    }

    /// The initially selected value, if one was set.
    pub closed spec fn spec_initial(&self) -> Option<T> {
        self.initial_value
    }

    /// Internal consistency: the query cursor is in bounds, every visible
    /// index points into the list, the navigation cursor sits inside the
    /// visible set, and without filtering the whole non-empty list stays
    /// visible.
    pub open spec fn wf(&self) -> bool {
        &&& 0 <= self.filter_query_pos() <= self.spec_query().len()
        &&& forall|k: int|
            0 <= k < self.spec_visible().len() ==> (#[trigger] self.spec_visible()[k] as int)
                < self.spec_items().len()
        &&& (self.spec_visible().len() > 0 ==> self.spec_cursor() < self.spec_visible().len())
        &&& (self.spec_visible().len() == 0 ==> self.spec_cursor() == 0)
        &&& (!self.spec_filtering() ==> self.spec_visible().len() > 0)
    }

    /// Creates a new selection prompt.
    pub fn new(prompt: &str) -> (r: Select<T>)
        ensures
            r.spec_prompt() == prompt@,
            r.spec_items().len() == 0,
            r.spec_cursor() == 0,
            r.spec_initial() is None,
            !r.spec_filtering(),
            r.spec_visible().len() == 0,
            r.spec_query().len() == 0,
            r.filter_query_pos() == 0,
            r.spec_window_size() == usize::MAX as int,
            r.spec_window_pos() == 0,
    {
        Select {
            prompt: prompt.to_owned(),
            items: Vec::new(),
            cursor: 0,
            initial_value: None,
            filter: FilteredView::default(),
            window_size: usize::MAX,
            window_pos: 0,
            term_rows: None,
        }
    }

    /// Adds an item to the selection prompt.
    pub fn item(self, value: T, label: &str, hint: &str) -> (r: Select<T>)
        ensures
            r.spec_items().len() == self.spec_items().len() + 1,
            r.spec_items().subrange(0, self.spec_items().len() as int) == self.spec_items(),
            r.spec_items().last().value == value,
            r.spec_items().last().label@ == label@,
            r.spec_items().last().hint@ == hint@,
            r.spec_prompt() == self.spec_prompt(),
            r.spec_cursor() == self.spec_cursor(),
            r.spec_initial() == self.spec_initial(),
            r.spec_filtering() == self.spec_filtering(),
            r.spec_visible() == self.spec_visible(),
            r.spec_query() == self.spec_query(),
            r.filter_query_pos() == self.filter_query_pos(),
            r.spec_window_size() == self.spec_window_size(),
            r.spec_window_pos() == self.spec_window_pos(),
    {
        let mut s = self;
        let ghost before = s.items@;
        s.items.push(RadioButton { value, label: label.to_owned(), hint: hint.to_owned() });
        proof {
            assert(s.items@.subrange(0, before.len() as int) =~= before);
        }
        s
    }

    /// Sets the initially selected item by value.
    pub fn initial_value(self, value: T) -> (r: Select<T>)
        ensures
            r.spec_initial() == Some(value),
            r.spec_items() == self.spec_items(),
            r.spec_prompt() == self.spec_prompt(),
            r.spec_cursor() == self.spec_cursor(),
            r.spec_filtering() == self.spec_filtering(),
            r.spec_visible() == self.spec_visible(),
            r.spec_query() == self.spec_query(),
            r.filter_query_pos() == self.filter_query_pos(),
            r.spec_window_size() == self.spec_window_size(),
            r.spec_window_pos() == self.spec_window_pos(),
    {
        let mut s = self;
        s.initial_value = Some(value);
        s
    }

    /// Enables the filter mode ("fuzzy search"): the items can be narrowed
    /// by typing.
    pub fn filter_mode(self) -> (r: Select<T>)
        ensures
            r.spec_filtering(),
            r.spec_items() == self.spec_items(),
            r.spec_prompt() == self.spec_prompt(),
            r.spec_cursor() == self.spec_cursor(),
            r.spec_initial() == self.spec_initial(),
            r.spec_visible() == self.spec_visible(),
            r.spec_query() == self.spec_query(),
            r.filter_query_pos() == self.filter_query_pos(),
            r.spec_window_size() == self.spec_window_size(),
            r.spec_window_pos() == self.spec_window_pos(),
    {
        let mut s = self;
        s.filter.enable();
        s
    }

    /// Sets the window size: the maximum number of items displayed at once,
    /// scrolling the rest.
    pub fn window_size(self, size: usize) -> (r: Select<T>)
        ensures
            r.spec_window_size() == size as int,
            r.spec_items() == self.spec_items(),
            r.spec_prompt() == self.spec_prompt(),
            r.spec_cursor() == self.spec_cursor(),
            r.spec_initial() == self.spec_initial(),
            r.spec_filtering() == self.spec_filtering(),
            r.spec_visible() == self.spec_visible(),
            r.spec_query() == self.spec_query(),
            r.filter_query_pos() == self.filter_query_pos(),
            r.spec_window_pos() == self.spec_window_pos(),
    {
        let mut s = self;
        s.window_size = size;
        s
    }

    /// Tells the prompt how many rows the terminal has, so the window can be
    /// sized to fit; measuring the terminal is a host concern.
    pub fn term_rows(self, rows: u16) -> (r: Select<T>)
        ensures
            r.spec_items() == self.spec_items(),
            r.spec_prompt() == self.spec_prompt(),
            r.spec_cursor() == self.spec_cursor(),
            r.spec_initial() == self.spec_initial(),
            r.spec_filtering() == self.spec_filtering(),
            r.spec_visible() == self.spec_visible(),
            r.spec_query() == self.spec_query(),
            r.filter_query_pos() == self.filter_query_pos(),
            r.spec_window_size() == self.spec_window_size(),
            r.spec_window_pos() == self.spec_window_pos(),
    {
        let mut s = self;
        s.term_rows = Some(rows);
        s
    }
}

impl<T: PartialEq> Select<T> {
    /// Checks the construction and prepares the interaction: an empty list is
    /// refused before any key is read; otherwise the window is sized to the
    /// terminal, every item becomes visible, and the cursor starts on the
    /// first item holding the initial value. The host's driver loop runs the
    /// interaction itself.
    pub fn begin(&mut self) -> (r: Result<(), CliError>)
        requires
            0 <= old(self).filter_query_pos() <= old(self).spec_query().len(),
        ensures
            final(self).spec_items() == old(self).spec_items(),
            final(self).spec_prompt() == old(self).spec_prompt(),
            final(self).spec_filtering() == old(self).spec_filtering(),
            old(self).spec_items().len() == 0 ==> (r matches Err(e) && (e matches CliError::Io(m)
                && m@ == "No items added to the list"@)),
            old(self).spec_items().len() > 0 ==> r is Ok && final(self).wf() && final(self).spec_visible().len() == old(self).spec_items().len() && (forall|k: int|
                0 <= k < old(self).spec_items().len() ==> final(self).spec_visible()[k] == k),
            old(self).spec_items().len() > 0 && T::obeys_eq_spec() ==> match old(self).spec_initial() {
                Some(v) => has_eq_match(old(self).spec_items(), v) ==> first_eq_match(
                    old(self).spec_items(),
                    v,
                    final(self).spec_cursor(),
                ),
                None => true,
            },
    {
        let n = self.items.len();
        if n == 0 {
            return Err(CliError::Io("No items added to the list".to_owned()));
        }
        // size the window to the terminal when it was not set by hand
        match self.term_rows {
            Some(rows) => {
                let mut max_height: usize = if rows as usize >= 3 {
                    rows as usize - 3
                } else {
                    0
                };
                if self.filter.is_enabled() && max_height >= 1 {
                    max_height = max_height - 1;
                }
                if self.window_size == usize::MAX || self.window_size > max_height {
                    self.window_size = max_height;
                }
            },
            None => {},
        }
        // start the cursor on the first item holding the initial value
        if self.cursor >= n {
            self.cursor = 0;
        }
        let hit: Option<usize> = match &self.initial_value {
            Some(v) => find_first_eq(&self.items, v),
            None => None,
        };
        match hit {
            Some(k) => {
                self.cursor = k;
            },
            None => {},
        }
        self.filter.set(&self.items);
        if self.cursor >= self.filter.items().len() {
            self.cursor = 0;
        }
        Ok(())
    }
}

impl<T: Clone> Select<T> {
    /// Computes the next state from one keypress. Up and Left move the cursor
    /// towards the top, Down and Right towards the bottom, scrolling the
    /// window just enough to keep the cursor inside; Enter submits the value
    /// under the cursor. With filtering on, the filter consumes the keys it
    /// owns first: typing re-ranks the view (resetting a cursor that fell off
    /// it), and Enter on an empty view reports that no items match.
    pub fn on_key(&mut self, key: &Key) -> (r: State<T>)
        requires
            old(self).wf(),
        ensures
            final(self).wf(),
            final(self).spec_items() == old(self).spec_items(),
            final(self).spec_prompt() == old(self).spec_prompt(),
            final(self).spec_filtering() == old(self).spec_filtering(),
            match *key {
                Key::ArrowUp => nav_up_post(*old(self), *final(self)) && r is Active,
                Key::ArrowDown => nav_down_post(*old(self), *final(self)) && r is Active,
                Key::ArrowLeft => if old(self).spec_filtering() && old(self).spec_query().len()
                    > 0 {
                    refreshed_post(*old(self), *final(self)) && r is Active
                } else {
                    nav_up_post(*old(self), *final(self)) && r is Active
                },
                Key::ArrowRight => if old(self).spec_filtering() && old(self).spec_query().len()
                    > 0 {
                    refreshed_post(*old(self), *final(self)) && r is Active
                } else {
                    nav_down_post(*old(self), *final(self)) && r is Active
                },
                Key::Enter => if old(self).spec_visible().len() > 0 {
                    unchanged_view(*old(self), *final(self)) && (r matches State::Submit(v)
                        && cloned(
                        old(self).spec_items()[old(self).spec_visible()[old(self).spec_cursor()] as int].value,
                        v,
                    ))
                } else {
                    final(self).spec_cursor() == 0 && (r matches State::Error(m) && m@
                        == "No items"@)
                },
                Key::Char(c) => r is Active && (if !old(self).spec_filtering() {
                    unchanged_view(*old(self), *final(self))
                } else if c == ' ' {
                    space_query_post(*old(self), *final(self))
                } else {
                    refreshed_post(*old(self), *final(self))
                }),
                _ => r is Active && (if old(self).spec_filtering() {
                    refreshed_post(*old(self), *final(self))
                } else {
                    unchanged_view(*old(self), *final(self))
                }),
            },
    {
        let pass: Option<State<T>> = self.filter.on(key, &self.items);
        match pass {
            Some(state) => {
                if self.filter.items().len() == 0 || self.cursor > self.filter.items().len() - 1 {
                    self.cursor = 0;
                }
                return state;
            },
            None => {},
        }
        match *key {
            Key::ArrowUp | Key::ArrowLeft => {
                if self.cursor > 0 {
                    self.cursor = self.cursor - 1;
                }
                if self.cursor < self.window_pos {
                    self.window_pos = self.cursor;
                }
            },
            Key::ArrowDown | Key::ArrowRight => {
                let visible_count = self.filter.items().len();
                if visible_count > 0 && self.cursor < visible_count - 1 {
                    self.cursor = self.cursor + 1;
                }
                if self.window_pos <= usize::MAX - self.window_size && self.cursor
                    >= self.window_pos + self.window_size {
                    self.window_pos = self.cursor - self.window_size + 1;
                }
            },
            Key::Enter => {
                let visible = self.filter.items();
                let idx = visible[self.cursor];
                return State::Submit(self.items[idx].value.clone());
            },
            _ => {},
        }
        State::Active
    }

    /// Renders the complete frame: header, the filter's query line while one
    /// is being typed, the visible window of items, and the footer.
    pub fn draw(&self, state: &State<T>) -> (r: String)
        requires
            self.wf(),
        ensures
            r@ == spec_select_frame(self, state),
    {
        let ghost ts_spec = spec_theme_state(state);
        let theme = ClackTheme;
        let ts = ThemeState::of_state(state);
        proof {
            assert(same_theme_state(&ts, &ts_spec));
            lemma_theme_same_state(&ts, &ts_spec);
        }
        let mut r = theme.format_header(&ts, self.prompt.as_str());
        match self.filter.input() {
            Some(input) => {
                match state {
                    State::Submit(_) | State::Cancel => {},
                    _ => {
                        let line = theme.format_input(&ts, input);
                        r.append(line.as_str());
                    },
                }
            },
            None => {},
        }
        proof {
            assert(r@ == spec_header(&ts_spec, self.spec_prompt()) + spec_select_filter_line(
                self,
                state,
            ));
        }
        let visible = self.filter.items();
        let vn = visible.len();
        let end = if self.window_pos <= usize::MAX - self.window_size && self.window_pos
            + self.window_size <= vn {
            self.window_pos + self.window_size
        } else {
            vn
        };
        let ghost head = r@;
        let start = if self.window_pos <= end {
            self.window_pos
        } else {
            end
        };
        proof {
            assert(spec_select_lines(
                &ts_spec,
                self.spec_items(),
                self.spec_visible(),
                self.spec_cursor(),
                start as int,
                start as int,
            ) =~= Seq::<char>::empty());
            if self.spec_window_pos() > end {
                assert(spec_select_lines(
                    &ts_spec,
                    self.spec_items(),
                    self.spec_visible(),
                    self.spec_cursor(),
                    self.spec_window_pos(),
                    end as int,
                ) =~= Seq::<char>::empty());
            }
        }
        let mut i = start;
        while i < end
            invariant
                self.wf(),
                visible@ == self.spec_visible(),
                vn == self.spec_visible().len(),
                end <= vn,
                start <= i <= end,
                same_theme_state(&ts, &ts_spec),
                r@ == head + spec_select_lines(
                    &ts_spec,
                    self.spec_items(),
                    self.spec_visible(),
                    self.spec_cursor(),
                    start as int,
                    i as int,
                ),
            decreases end - i,
        {
            proof {
                lemma_theme_same_state(&ts, &ts_spec);
                lemma_select_lines_snoc(
                    &ts_spec,
                    self.spec_items(),
                    self.spec_visible(),
                    self.spec_cursor(),
                    start as int,
                    i as int,
                );
            }
            let idx = visible[i];
            let item = &self.items[idx];
            let line = theme.format_select_item(
                &ts,
                self.cursor == i,
                item.label.as_str(),
                item.hint.as_str(),
            );
            r.append(line.as_str());
            i = i + 1;
        }
        let footer = theme.format_footer(&ts);
        r.append(footer.as_str());
        proof {
            if start as int == self.spec_window_pos() {
            } else {
                assert(r@ =~= spec_select_frame(self, state));
            }
        }
        r
    }
}

impl<T: Clone> PromptInteraction<T> for Select<T> {
    open spec fn inv(&self) -> bool {
        self.wf()
    }

    fn render(&self, state: &State<T>) -> String {
        self.draw(state)
    }

    fn on(&mut self, event: &Event) -> (next: State<T>) {
        let Event::Key(key) = event;
        self.on_key(key)
    }

    fn edit(&mut self, key: &Key) {
        self.filter.edit(key);
    }
}

} // verus!
