//! A prompt that asks for one or more selections from a list of options.

use vstd::pervasive::cloned;
use vstd::prelude::*;
use vstd::std_specs::cmp::PartialEqSpec;
use vstd::string::StringExecFns;

use crate::error::CliError;
use crate::filter::{is_ranked, labels_of, FilteredView, LabeledItem};
use crate::interaction::{Event, Key, PromptInteraction, State};
use crate::select::{fixed_cursor, spec_theme_state, window_after};
use crate::term::TermSize;
use crate::theme::{
    lemma_theme_same_state, same_theme_state, spec_footer, spec_footer_with_message, spec_header,
    spec_input_line, spec_multiselect_item_line, ClackTheme, ThemeState,
};

verus! {

/// One checkable option: an opaque value collected on submit, the label the
/// list shows and matches on, a hint shown under the cursor, and the
/// selection flag the space key toggles.
pub struct Checkbox<T> {
    pub value: T,
    pub label: String,
    pub hint: String,
    pub selected: bool,
}

impl<T> LabeledItem for Checkbox<T> {
    open spec fn label_spec(&self) -> Seq<char> {
        self.label@
    }

    fn label(&self) -> (r: &str) {
        self.label.as_str()
    }
}

/// The indices of the selected items, in original order.
pub open spec fn selected_indices<T>(items: Seq<Checkbox<T>>) -> Seq<int> {
    Seq::new(items.len(), |i: int| i).filter(|i: int| items[i].selected)
}

/// How many selected items fall outside the visible set.
pub open spec fn selected_not_visible<T>(items: Seq<Checkbox<T>>, visible: Seq<usize>) -> int {
    selected_indices(items).filter(|i: int| !visible.contains(i as usize)).len() as int
}

/// The item lines of a multi-select frame for the rows `[i, end)` of `order`.
pub open spec fn spec_multiselect_lines<T>(
    ts: &ThemeState,
    items: Seq<Checkbox<T>>,
    order: Seq<usize>,
    cursor: int,
    i: int,
    end: int,
) -> Seq<char>
    decreases end - i,
{
    if i >= end || i >= order.len() {
        Seq::<char>::empty()
    } else {
        spec_multiselect_item_line(
            ts,
            items[order[i] as int].selected,
            cursor == i,
            items[order[i] as int].label@,
            items[order[i] as int].hint@,
        ) + spec_multiselect_lines(ts, items, order, cursor, i + 1, end)
    }
}

/// Appending the next row extends the lines by one item line.
proof fn lemma_multiselect_lines_snoc<T>(
    ts: &ThemeState,
    items: Seq<Checkbox<T>>,
    order: Seq<usize>,
    cursor: int,
    i: int,
    m: int,
)
    requires
        i <= m < order.len(),
    ensures
        spec_multiselect_lines(ts, items, order, cursor, i, m + 1) == spec_multiselect_lines(
            ts,
            items,
            order,
            cursor,
            i,
            m,
        ) + spec_multiselect_item_line(
            ts,
            items[order[m] as int].selected,
            cursor == m,
            items[order[m] as int].label@,
            items[order[m] as int].hint@,
        ),
    decreases m - i,
{
    if i == m {
        assert(spec_multiselect_lines(ts, items, order, cursor, m + 1, m + 1) =~= Seq::<
            char,
        >::empty());
        assert(spec_multiselect_lines(ts, items, order, cursor, i, m) =~= Seq::<char>::empty());
        assert(spec_multiselect_lines(ts, items, order, cursor, i, m + 1) =~=
            spec_multiselect_lines(ts, items, order, cursor, i, m) + spec_multiselect_item_line(
            ts,
            items[order[m] as int].selected,
            cursor == m,
            items[order[m] as int].label@,
            items[order[m] as int].hint@,
        ));
    } else {
        lemma_multiselect_lines_snoc(ts, items, order, cursor, i + 1, m);
        assert(spec_multiselect_lines(ts, items, order, cursor, i, m + 1) =~=
            spec_multiselect_lines(ts, items, order, cursor, i, m) + spec_multiselect_item_line(
            ts,
            items[order[m] as int].selected,
            cursor == m,
            items[order[m] as int].label@,
            items[order[m] as int].hint@,
        ));
    }
}

/// The initial values hold one equal to `v` under the documented equality.
pub open spec fn initial_contains<T: PartialEq>(initial: Option<Vec<T>>, v: T) -> bool {
    initial matches Some(vs) && exists|j: int|
        0 <= j < vs@.len() && (#[trigger] vs@[j]).eq_spec(&v)
}

/// The item at `idx` had its selection flag flipped; everything else is
/// untouched.
pub open spec fn toggled_at<T>(pre: Seq<Checkbox<T>>, post: Seq<Checkbox<T>>, idx: int) -> bool {
    &&& post.len() == pre.len()
    &&& 0 <= idx < pre.len()
    &&& forall|j: int| 0 <= j < pre.len() && j != idx ==> post[j] == #[trigger] pre[j]
    &&& post[idx].value == pre[idx].value
    &&& post[idx].label == pre[idx].label
    &&& post[idx].hint == pre[idx].hint
    &&& post[idx].selected == !pre[idx].selected
}

/// The cursor moved one step towards the top and the window followed.
pub open spec fn ms_nav_up_post<T>(pre: MultiSelect<T>, post: MultiSelect<T>) -> bool {
    let c = if pre.spec_cursor() > 0 {
        pre.spec_cursor() - 1
    } else {
        0
    };
    &&& post.spec_cursor() == c
    &&& post.spec_window_pos() == (if c < pre.spec_window_pos() {
        c
    } else {
        pre.spec_window_pos()
    })
    &&& post.spec_items() == pre.spec_items()
    &&& post.spec_visible() == pre.spec_visible()
    &&& post.spec_query() == pre.spec_query()
}

/// The cursor moved one step towards the bottom and the window followed.
pub open spec fn ms_nav_down_post<T>(pre: MultiSelect<T>, post: MultiSelect<T>) -> bool {
    let c = if pre.spec_visible().len() > 0 && pre.spec_cursor() < pre.spec_visible().len() - 1 {
        pre.spec_cursor() + 1
    } else {
        pre.spec_cursor()
    };
    &&& post.spec_cursor() == c
    &&& post.spec_window_pos() == window_after(pre.spec_window_pos(), pre.spec_window_size(), c)
    &&& post.spec_items() == pre.spec_items()
    &&& post.spec_visible() == pre.spec_visible()
    &&& post.spec_query() == pre.spec_query()
}

/// Nothing about the items, view, cursor or query changed.
pub open spec fn ms_unchanged_view<T>(pre: MultiSelect<T>, post: MultiSelect<T>) -> bool {
    &&& post.spec_items() == pre.spec_items()
    &&& post.spec_visible() == pre.spec_visible()
    &&& post.spec_cursor() == pre.spec_cursor()
    &&& post.spec_query() == pre.spec_query()
    &&& post.filter_query_pos() == pre.filter_query_pos()
    &&& post.spec_window_pos() == pre.spec_window_pos()
}

/// The filter re-ranked the view against the unchanged items and the cursor
/// was reset when it fell off.
pub open spec fn ms_refreshed_post<T>(pre: MultiSelect<T>, post: MultiSelect<T>) -> bool {
    &&& post.spec_items() == pre.spec_items()
    &&& post.spec_query() == pre.spec_query()
    &&& post.filter_query_pos() == pre.filter_query_pos()
    &&& (if pre.spec_query().len() > 0 {
        is_ranked(labels_of(pre.spec_items()), pre.spec_query(), post.spec_visible())
    } else {
        post.spec_visible().len() == pre.spec_items().len() && (forall|k: int|
            0 <= k < pre.spec_items().len() ==> post.spec_visible()[k] == k)
    })
    &&& post.spec_cursor() == fixed_cursor(post.spec_visible(), pre.spec_cursor())
}

/// The filter removed the query character the driver just inserted for the
/// space key.
pub open spec fn ms_space_query_post<T>(pre: MultiSelect<T>, post: MultiSelect<T>) -> bool {
    &&& post.spec_query() == (if pre.filter_query_pos() > 0 {
        pre.spec_query().remove(pre.filter_query_pos() - 1)
    } else {
        pre.spec_query()
    })
    &&& post.filter_query_pos() == (if pre.filter_query_pos() > 0 {
        pre.filter_query_pos() - 1
    } else {
        pre.filter_query_pos()
    })
}

/// A prompt that asks for one or more selections from a list of options.
pub struct MultiSelect<T> {
    prompt: String,
    items: Vec<Checkbox<T>>,
    cursor: usize,
    initial_values: Option<Vec<T>>,
    required: bool,
    filter: FilteredView,
    term: TermSize,
}

impl<T> MultiSelect<T> {
    /// The canonical option list.
    pub closed spec fn spec_items(&self) -> Seq<Checkbox<T>> {
        self.items@
    }

    /// The navigation index into the visible set.
    pub closed spec fn spec_cursor(&self) -> int {
        self.cursor as int
    }

    /// The indices of the currently visible items.
    pub closed spec fn spec_visible(&self) -> Seq<usize> {
        self.filter.view_indices()
    }

    /// The filter's query text.
    pub closed spec fn spec_query(&self) -> Seq<char> {
        self.filter.query()
    }

    /// The filter's query cursor offset.
    pub closed spec fn filter_query_pos(&self) -> int {
        self.filter.query_pos()
    }

    /// Whether filtering is switched on.
    pub closed spec fn spec_filtering(&self) -> bool {
        self.filter.filtering()
    }

    /// The prompt text.
    pub closed spec fn spec_prompt(&self) -> Seq<char> {
        self.prompt@
    }

    /// Whether at least one selection is demanded.
    pub closed spec fn spec_required(&self) -> bool {
        self.required
    }

    /// The initially selected values, if any were set.
    pub closed spec fn spec_initial_values(&self) -> Option<Vec<T>> {
        self.initial_values
    }

    /// The window start.
    pub closed spec fn spec_window_pos(&self) -> int {
        self.term.pos()
    }

    /// The window size.
    pub closed spec fn spec_window_size(&self) -> int {
        self.term.max_rows()
    }

    /// Internal consistency, as for the single-select prompt.
    pub open spec fn wf(&self) -> bool {
        &&& 0 <= self.filter_query_pos() <= self.spec_query().len()
        &&& forall|k: int|
            0 <= k < self.spec_visible().len() ==> (#[trigger] self.spec_visible()[k] as int)
                < self.spec_items().len()
        &&& (self.spec_visible().len() > 0 ==> self.spec_cursor() < self.spec_visible().len())
        &&& (self.spec_visible().len() == 0 ==> self.spec_cursor() == 0)
        &&& (!self.spec_filtering() ==> self.spec_visible().len() > 0)
    }

    /// Creates a new multi-select prompt; at least one selection is demanded
    /// until [`MultiSelect::required`] says otherwise.
    pub fn new(prompt: &str) -> (r: MultiSelect<T>)
        ensures
            r.spec_prompt() == prompt@,
            r.spec_items().len() == 0,
            r.spec_cursor() == 0,
            r.spec_required(),
            !r.spec_filtering(),
            r.spec_visible().len() == 0,
            r.spec_query().len() == 0,
            r.filter_query_pos() == 0,
            r.spec_window_pos() == 0,
    {
        MultiSelect {
            prompt: prompt.to_owned(),
            items: Vec::new(),
            cursor: 0,
            initial_values: None,
            required: true,
            filter: FilteredView::default(),
            term: TermSize::default(),
        }
    }

    /// Adds an item to the list of options.
    pub fn item(self, value: T, label: &str, hint: &str) -> (r: MultiSelect<T>)
        ensures
            r.spec_items().len() == self.spec_items().len() + 1,
            r.spec_items().subrange(0, self.spec_items().len() as int) == self.spec_items(),
            r.spec_items().last().value == value,
            r.spec_items().last().label@ == label@,
            r.spec_items().last().hint@ == hint@,
            !r.spec_items().last().selected,
            r.spec_prompt() == self.spec_prompt(),
            r.spec_cursor() == self.spec_cursor(),
            r.spec_required() == self.spec_required(),
            r.spec_filtering() == self.spec_filtering(),
            r.spec_visible() == self.spec_visible(),
            r.spec_query() == self.spec_query(),
            r.filter_query_pos() == self.filter_query_pos(),
            r.spec_window_pos() == self.spec_window_pos(),
            r.spec_window_size() == self.spec_window_size(),
    {
        let mut s = self;
        let ghost before = s.items@;
        s.items.push(
            Checkbox { value, label: label.to_owned(), hint: hint.to_owned(), selected: false },
        );
        proof {
            assert(s.items@.subrange(0, before.len() as int) =~= before);
        }
        s
    }

    /// Adds multiple items to the list of options.
    pub fn items(self, entries: Vec<(T, String, String)>) -> (r: MultiSelect<T>)
        ensures
            r.spec_items().len() == self.spec_items().len() + entries@.len(),
            r.spec_items().subrange(0, self.spec_items().len() as int) == self.spec_items(),
            forall|k: int|
                0 <= k < entries@.len() ==> {
                    let it = #[trigger] r.spec_items()[self.spec_items().len() + k];
                    &&& it.value == entries@[k].0
                    &&& it.label@ == entries@[k].1@
                    &&& it.hint@ == entries@[k].2@
                    &&& !it.selected
                },
            r.spec_prompt() == self.spec_prompt(),
            r.spec_cursor() == self.spec_cursor(),
            r.spec_required() == self.spec_required(),
            r.spec_filtering() == self.spec_filtering(),
            r.spec_visible() == self.spec_visible(),
            r.spec_query() == self.spec_query(),
            r.filter_query_pos() == self.filter_query_pos(),
            r.spec_window_pos() == self.spec_window_pos(),
            r.spec_window_size() == self.spec_window_size(),
    {
        let ghost base = self.spec_items();
        let ghost all = entries@;
        let mut s = self;
        let mut rest = entries;
        let n = rest.len();
        let mut k: usize = 0;
        while k < n
            invariant
                n == all.len(),
                rest@ == all.skip(k as int),
                k <= n,
                s.spec_items().len() == base.len() + k,
                s.spec_items().subrange(0, base.len() as int) == base,
                forall|j: int|
                    0 <= j < k ==> {
                        let it = #[trigger] s.spec_items()[base.len() + j];
                        &&& it.value == all[j].0
                        &&& it.label@ == all[j].1@
                        &&& it.hint@ == all[j].2@
                        &&& !it.selected
                    },
                s.spec_prompt() == self.spec_prompt(),
                s.spec_cursor() == self.spec_cursor(),
                s.spec_required() == self.spec_required(),
                s.spec_filtering() == self.spec_filtering(),
                s.spec_visible() == self.spec_visible(),
                s.spec_query() == self.spec_query(),
                s.filter_query_pos() == self.filter_query_pos(),
                s.spec_window_pos() == self.spec_window_pos(),
                s.spec_window_size() == self.spec_window_size(),
            decreases n - k,
        {
            let ghost before = s.spec_items();
            proof {
                assert(all.skip(k as int)[0] == all[k as int]);
            }
            let (value, label, hint) = rest.remove(0);
            proof {
                assert(rest@ =~= all.skip(k + 1));
            }
            s = s.item(value, label.as_str(), hint.as_str());
            proof {
                assert(s.spec_items().subrange(0, before.len() as int) == before);
                assert(s.spec_items().subrange(0, base.len() as int) =~= base);
                assert(forall|j: int|
                    0 <= j < before.len() ==> #[trigger] s.spec_items()[j]
                        == s.spec_items().subrange(0, before.len() as int)[j]);
            }
            k = k + 1;
        }
        s
    }

    /// Sets whether at least one selection is demanded. On by default.
    pub fn required(self, required: bool) -> (r: MultiSelect<T>)
        ensures
            r.spec_required() == required,
            r.spec_items() == self.spec_items(),
            r.spec_prompt() == self.spec_prompt(),
            r.spec_cursor() == self.spec_cursor(),
            r.spec_filtering() == self.spec_filtering(),
            r.spec_visible() == self.spec_visible(),
            r.spec_query() == self.spec_query(),
            r.filter_query_pos() == self.filter_query_pos(),
            r.spec_window_pos() == self.spec_window_pos(),
            r.spec_window_size() == self.spec_window_size(),
    {
        let mut s = self;
        s.required = required;
        s
    }

    /// Enables the filter mode ("fuzzy search"), reserving one window row for
    /// the query line.
    pub fn filter_mode(self) -> (r: MultiSelect<T>)
        ensures
            r.spec_filtering(),
            r.spec_items() == self.spec_items(),
            r.spec_prompt() == self.spec_prompt(),
            r.spec_cursor() == self.spec_cursor(),
            r.spec_required() == self.spec_required(),
            r.spec_visible() == self.spec_visible(),
            r.spec_query() == self.spec_query(),
            r.filter_query_pos() == self.filter_query_pos(),
            r.spec_window_pos() == self.spec_window_pos(),
            r.spec_window_size() == (if self.spec_window_size() >= 1 {
                self.spec_window_size() - 1
            } else {
                self.spec_window_size()
            }),
    {
        let mut s = self;
        let rows = s.term.get_max_rows();
        if rows >= 1 {
            s.term.set_max_rows(rows - 1);
        }
        s.filter.enable();
        s
    }

    /// Sets the maximum number of item rows displayed at once, scrolling the
    /// rest.
    pub fn set_max_rows(self, size: usize) -> (r: MultiSelect<T>)
        ensures
            r.spec_window_size() == size as int,
            r.spec_items() == self.spec_items(),
            r.spec_prompt() == self.spec_prompt(),
            r.spec_cursor() == self.spec_cursor(),
            r.spec_required() == self.spec_required(),
            r.spec_filtering() == self.spec_filtering(),
            r.spec_visible() == self.spec_visible(),
            r.spec_query() == self.spec_query(),
            r.filter_query_pos() == self.filter_query_pos(),
            r.spec_window_pos() == self.spec_window_pos(),
    {
        let mut s = self;
        s.term.set_max_rows(size);
        s
    }
}

impl<T: PartialEq> MultiSelect<T> {
    /// Sets the initially selected values.
    pub fn initial_values(self, values: Vec<T>) -> (r: MultiSelect<T>)
        ensures
            r.spec_initial_values() == Some(values),
            r.spec_items() == self.spec_items(),
            r.spec_prompt() == self.spec_prompt(),
            r.spec_cursor() == self.spec_cursor(),
            r.spec_required() == self.spec_required(),
            r.spec_filtering() == self.spec_filtering(),
            r.spec_visible() == self.spec_visible(),
            r.spec_query() == self.spec_query(),
            r.filter_query_pos() == self.filter_query_pos(),
            r.spec_window_pos() == self.spec_window_pos(),
            r.spec_window_size() == self.spec_window_size(),
    {
        let mut s = self;
        s.initial_values = Some(values);
        s
    }

    /// Checks the construction and prepares the interaction: an empty list is
    /// refused before any key is read; otherwise the items holding the
    /// initial values start selected and every item becomes visible. The
    /// host's driver loop runs the interaction itself.
    pub fn begin(&mut self) -> (r: Result<(), CliError>)
        requires
            0 <= old(self).filter_query_pos() <= old(self).spec_query().len(),
        ensures
            final(self).spec_prompt() == old(self).spec_prompt(),
            final(self).spec_filtering() == old(self).spec_filtering(),
            final(self).spec_required() == old(self).spec_required(),
            final(self).spec_items().len() == old(self).spec_items().len(),
            old(self).spec_items().len() == 0 ==> (r matches Err(e) && (e matches CliError::Io(m)
                && m@ == "No items added to the list"@)),
            old(self).spec_items().len() > 0 ==> r is Ok && final(self).wf() && final(self).spec_visible().len() == old(self).spec_items().len() && (forall|k: int|
                0 <= k < old(self).spec_items().len() ==> final(self).spec_visible()[k] == k),
            forall|k: int|
                0 <= k < old(self).spec_items().len() ==> {
                    let before = #[trigger] old(self).spec_items()[k];
                    let after = final(self).spec_items()[k];
                    after.value == before.value && after.label == before.label && after.hint
                        == before.hint
                },
            old(self).spec_items().len() > 0 && T::obeys_eq_spec() ==> forall|k: int|
                0 <= k < old(self).spec_items().len() ==> final(self).spec_items()[k].selected == (
                (#[trigger] old(self).spec_items()[k]).selected || initial_contains(
                    old(self).spec_initial_values(),
                    old(self).spec_items()[k].value,
                )),
    {
        let n = self.items.len();
        if n == 0 {
            return Err(CliError::Io("No items added to the list".to_owned()));
        }
        let has_initial = match &self.initial_values {
            Some(_) => true,
            None => false,
        };
        if has_initial {
            mark_initially_selected(&mut self.items, &self.initial_values);
        } else {
            proof {
                assert(forall|k: int|
                    0 <= k < self.items@.len() ==> !initial_contains(
                        self.spec_initial_values(),
                        (#[trigger] self.items@[k]).value,
                    ));
            }
        }
        self.filter.set(&self.items);
        if self.cursor >= self.filter.items().len() {
            self.cursor = 0;
        }
        Ok(())
    }
}

/// Marks every item whose value appears among the initial values as
/// selected; flags already set stay set, everything else is untouched.
fn mark_initially_selected<T: PartialEq>(
    items: &mut Vec<Checkbox<T>>,
    initial: &Option<Vec<T>>,
)
    ensures
        final(items)@.len() == old(items)@.len(),
        forall|k: int|
            0 <= k < old(items)@.len() ==> {
                let before = #[trigger] old(items)@[k];
                let after = final(items)@[k];
                after.value == before.value && after.label == before.label && after.hint
                    == before.hint
            },
        T::obeys_eq_spec() ==> forall|k: int|
            0 <= k < old(items)@.len() ==> final(items)@[k].selected == ((#[trigger] old(
                items,
            )@[k]).selected || initial_contains(*initial, old(items)@[k].value)),
{
    match initial {
        Some(values) => {
            let n = items.len();
            let mut k: usize = 0;
            while k < n
                invariant
                    n == items@.len(),
                    items@.len() == old(items)@.len(),
                    k <= n,
                    initial matches Some(vv) && vv == values,
                    forall|j: int|
                        0 <= j < old(items)@.len() ==> {
                            let before = #[trigger] old(items)@[j];
                            let after = items@[j];
                            after.value == before.value && after.label == before.label
                                && after.hint == before.hint
                        },
                    T::obeys_eq_spec() ==> forall|j: int|
                        0 <= j < k ==> items@[j].selected == ((#[trigger] old(items)@[j]).selected
                            || initial_contains(*initial, old(items)@[j].value)),
                    forall|j: int|
                        k <= j < n ==> items@[j].selected == (#[trigger] old(items)@[j]).selected,
                decreases n - k,
            {
                if contains_value(values, &items[k].value) {
                    let ghost before_all = items@;
                    let item = &mut items[k];
                    item.selected = true;
                    proof {
                        assert(forall|j: int|
                            0 <= j < before_all.len() && j != k ==> items@[j] == #[trigger] before_all[j]);
                    }
                }
                k = k + 1;
            }
        },
        None => {
            proof {
                assert(forall|k: int|
                    0 <= k < old(items)@.len() ==> !initial_contains(
                        *initial,
                        (#[trigger] old(items)@[k]).value,
                    ));
            }
        },
    }
}

/// Whether `values` holds an element equal to `v`.
fn contains_value<T: PartialEq>(values: &Vec<T>, v: &T) -> (r: bool)
    ensures
        T::obeys_eq_spec() ==> r == exists|k: int|
            0 <= k < values@.len() && (#[trigger] values@[k]).eq_spec(v),
{
    let n = values.len();
    let mut k: usize = 0;
    while k < n
        invariant
            n == values@.len(),
            k <= n,
            T::obeys_eq_spec() ==> forall|j: int|
                0 <= j < k ==> !(#[trigger] values@[j]).eq_spec(v),
        decreases n - k,
    {
        if values[k] == *v {
            return true;
        }
        k = k + 1;
    }
    false
}

impl<T: Clone> MultiSelect<T> {
    /// Collects a clone of the value of every selected item of the whole
    /// canonical list, in original order.
    fn collect_selected(&self) -> (r: Vec<T>)
        ensures
            r@.len() == selected_indices(self.spec_items()).len(),
            forall|k: int|
                0 <= k < r@.len() ==> cloned(
                    self.spec_items()[selected_indices(self.spec_items())[k]].value,
                    #[trigger] r@[k],
                ),
    {
        let ghost items = self.spec_items();
        let n = self.items.len();
        let mut r: Vec<T> = Vec::new();
        let mut k: usize = 0;
        proof {
            assert(Seq::new(items.len(), |i: int| i).take(0).filter(|i: int| items[i].selected)
                =~= Seq::<int>::empty());
        }
        while k < n
            invariant
                n == items.len(),
                self.spec_items() == items,
                k <= n,
                r@.len() == Seq::new(items.len(), |i: int| i).take(k as int).filter(
                    |i: int| items[i].selected,
                ).len(),
                forall|m: int|
                    0 <= m < r@.len() ==> cloned(
                        items[Seq::new(items.len(), |i: int| i).take(k as int).filter(
                            |i: int| items[i].selected,
                        )[m]].value,
                        #[trigger] r@[m],
                    ),
            decreases n - k,
        {
            let ghost idx = Seq::new(items.len(), |i: int| i);
            proof {
                assert(idx.take(k + 1).drop_last() =~= idx.take(k as int));
                assert(idx.take(k + 1).last() == k as int);
                reveal_with_fuel(Seq::filter, 2);
            }
            if self.items[k].selected {
                r.push(self.items[k].value.clone());
            }
            k = k + 1;
        }
        proof {
            assert(Seq::new(items.len(), |i: int| i).take(n as int) =~= Seq::new(
                items.len(),
                |i: int| i,
            ));
        }
        r
    }

    /// Computes the next state from one keypress. The arrows move the cursor,
    /// scrolling the window just enough to keep it inside; the space key
    /// toggles the selection flag of the item under the cursor — on the item
    /// itself, so the flag survives the item being filtered out; Enter
    /// collects every selected value of the whole canonical list, demanding
    /// at least one when the prompt requires input. With filtering on, the
    /// filter consumes the keys it owns first.
    pub fn on_key(&mut self, key: &Key) -> (r: State<Vec<T>>)
        requires
            old(self).wf(),
        ensures
            final(self).wf(),
            final(self).spec_prompt() == old(self).spec_prompt(),
            final(self).spec_filtering() == old(self).spec_filtering(),
            final(self).spec_required() == old(self).spec_required(),
            match *key {
                Key::ArrowUp => ms_nav_up_post(*old(self), *final(self)) && r is Active,
                Key::ArrowDown => ms_nav_down_post(*old(self), *final(self)) && r is Active,
                Key::ArrowLeft => if old(self).spec_filtering() && old(self).spec_query().len()
                    > 0 {
                    r is Active && final(self).spec_items() == old(self).spec_items()
                } else {
                    ms_nav_up_post(*old(self), *final(self)) && r is Active
                },
                Key::ArrowRight => if old(self).spec_filtering() && old(self).spec_query().len()
                    > 0 {
                    r is Active && final(self).spec_items() == old(self).spec_items()
                } else {
                    ms_nav_down_post(*old(self), *final(self)) && r is Active
                },
                Key::Enter => {
                    &&& final(self).spec_items() == old(self).spec_items()
                    &&& final(self).spec_visible() == old(self).spec_visible()
                    &&& final(self).spec_query() == old(self).spec_query()
                    &&& if old(self).spec_filtering() && old(self).spec_visible().len() == 0 {
                        final(self).spec_cursor() == 0 && (r matches State::Error(m) && m@
                            == "No items"@)
                    } else if selected_indices(old(self).spec_items()).len() == 0 && old(self).spec_required() {
                        r matches State::Error(m) && m@ == "Input required"@
                    } else {
                        r matches State::Submit(vs) && vs@.len() == selected_indices(
                            old(self).spec_items(),
                        ).len() && (forall|k: int|
                            0 <= k < vs@.len() ==> cloned(
                                old(self).spec_items()[selected_indices(old(self).spec_items())[k]].value,
                                #[trigger] vs@[k],
                            ))
                    }
                },
                Key::Char(c) => if c == ' ' {
                    // the space key toggles the item under the cursor, on the
                    // canonical item itself
                    r is Active && final(self).spec_visible() == old(self).spec_visible()
                        && final(self).spec_cursor() == old(self).spec_cursor() && (if old(self).spec_visible().len() > 0 {
                        toggled_at(
                            old(self).spec_items(),
                            final(self).spec_items(),
                            old(self).spec_visible()[old(self).spec_cursor()] as int,
                        )
                    } else {
                        final(self).spec_items() == old(self).spec_items()
                    }) && (if old(self).spec_filtering() {
                        ms_space_query_post(*old(self), *final(self))
                    } else {
                        final(self).spec_query() == old(self).spec_query() && final(self).filter_query_pos() == old(self).filter_query_pos()
                    })
                } else {
                    r is Active && (if old(self).spec_filtering() {
                        ms_refreshed_post(*old(self), *final(self))
                    } else {
                        ms_unchanged_view(*old(self), *final(self))
                    })
                },
                _ => r is Active && (if old(self).spec_filtering() {
                    ms_refreshed_post(*old(self), *final(self))
                } else {
                    ms_unchanged_view(*old(self), *final(self))
                }),
            },
    {
        let pass: Option<State<Vec<T>>> = self.filter.on(key, &self.items);
        match pass {
            Some(state) => {
                if self.filter.items().len() == 0 || self.cursor > self.filter.items().len() - 1 {
                    self.cursor = 0;
                }
                return state;
            },
            None => {},
        }
        match *key {
            Key::ArrowLeft | Key::ArrowUp => {
                if self.cursor > 0 {
                    self.cursor = self.cursor - 1;
                }
                if self.cursor < self.term.get_pos() {
                    self.term.set_pos(self.cursor);
                }
            },
            Key::ArrowRight | Key::ArrowDown => {
                let visible_count = self.filter.items().len();
                if visible_count > 0 && self.cursor < visible_count - 1 {
                    self.cursor = self.cursor + 1;
                }
                let pos = self.term.get_pos();
                let rows = self.term.get_max_rows();
                if pos <= usize::MAX - rows && self.cursor >= pos + rows {
                    self.term.set_pos(self.cursor - rows + 1);
                }
            },
            Key::Char(c) => {
                if c == ' ' {
                    if self.cursor < self.filter.items().len() {
                        let idx = self.filter.items()[self.cursor];
                        let ghost before = self.items@;
                        let item = &mut self.items[idx];
                        item.selected = !item.selected;
                        proof {
                            assert(forall|j: int|
                                0 <= j < before.len() && j != idx ==> self.items@[j]
                                    == #[trigger] before[j]);
                        }
                    }
                }
            },
            Key::Enter => {
                let selected_values = self.collect_selected();
                if selected_values.len() == 0 && self.required {
                    return State::Error("Input required".to_owned());
                }
                return State::Submit(selected_values);
            },
            _ => {},
        }
        State::Active
    }

    /// Renders the complete frame: header, the filter's query line while one
    /// is being typed, the visible window of items (the whole list again on
    /// the final frame), and a footer reporting how many selected items are
    /// not displayed.
    pub fn draw(&self, state: &State<Vec<T>>) -> (r: String)
        requires
            self.wf(),
        ensures
            ({
                let ts = spec_theme_state(state);
                let order = if state is Submit || state is Cancel {
                    Seq::new(self.spec_items().len(), |i: int| i as usize)
                } else {
                    self.spec_visible()
                };
                let end = if self.spec_window_pos() + self.spec_window_size() <= order.len() {
                    self.spec_window_pos() + self.spec_window_size()
                } else {
                    order.len() as int
                };
                let hidden = selected_not_visible(self.spec_items(), self.spec_visible());
                r@ == spec_header(&ts, self.spec_prompt()) + (if self.spec_filtering() && !(
                state is Submit) && !(state is Cancel) {
                    spec_input_line(&ts, self.spec_query(), self.filter_query_pos())
                } else {
                    Seq::<char>::empty()
                }) + spec_multiselect_lines(
                    &ts,
                    self.spec_items(),
                    order,
                    self.spec_cursor(),
                    self.spec_window_pos(),
                    end,
                ) + (if hidden > 0 {
                    spec_footer_with_message(&ts, hidden_items_note(hidden))
                } else {
                    spec_footer(&ts)
                })
            }),
    {
        let ghost ts_spec = spec_theme_state(state);
        let theme = ClackTheme;
        let ts = ThemeState::of_state(state);
        proof {
            assert(same_theme_state(&ts, &ts_spec));
            lemma_theme_same_state(&ts, &ts_spec);
        }
        let mut r = theme.format_header(&ts, self.prompt.as_str());
        let show_all = match state {
            State::Submit(_) | State::Cancel => true,
            _ => false,
        };
        match self.filter.input() {
            Some(input) => {
                if !show_all {
                    let line = theme.format_input(&ts, input);
                    r.append(line.as_str());
                }
            },
            None => {},
        }
        let order: Vec<usize> = if show_all {
            crate::filter::identity_indices(self.items.len())
        } else {
            let mut o: Vec<usize> = Vec::new();
            let visible = self.filter.items();
            let vn = visible.len();
            let mut k: usize = 0;
            while k < vn
                invariant
                    vn == self.spec_visible().len(),
                    visible@ == self.spec_visible(),
                    k <= vn,
                    o@ == self.spec_visible().take(k as int),
                decreases vn - k,
            {
                o.push(visible[k]);
                proof {
                    assert(o@ =~= self.spec_visible().take(k + 1));
                }
                k = k + 1;
            }
            proof {
                assert(o@ =~= self.spec_visible());
            }
            o
        };
        let ghost order_spec = if state is Submit || state is Cancel {
            Seq::new(self.spec_items().len(), |i: int| i as usize)
        } else {
            self.spec_visible()
        };
        proof {
            assert(order@ =~= order_spec);
        }
        let on = order.len();
        let pos = self.term.get_pos();
        let rows = self.term.get_max_rows();
        let end = if pos <= usize::MAX - rows && pos + rows <= on {
            pos + rows
        } else {
            on
        };
        let start = if pos <= end {
            pos
        } else {
            end
        };
        let ghost head = r@;
        proof {
            assert(spec_multiselect_lines(
                &ts_spec,
                self.spec_items(),
                order_spec,
                self.spec_cursor(),
                start as int,
                start as int,
            ) =~= Seq::<char>::empty());
            if self.spec_window_pos() > end {
                assert(spec_multiselect_lines(
                    &ts_spec,
                    self.spec_items(),
                    order_spec,
                    self.spec_cursor(),
                    self.spec_window_pos(),
                    end as int,
                ) =~= Seq::<char>::empty());
            }
        }
        let mut i = start;
        while i < end
            invariant
                self.wf(),
                order@ == order_spec,
                on == order_spec.len(),
                forall|k: int|
                    0 <= k < order_spec.len() ==> (#[trigger] order_spec[k] as int)
                        < self.spec_items().len(),
                end <= on,
                start <= i <= end,
                same_theme_state(&ts, &ts_spec),
                r@ == head + spec_multiselect_lines(
                    &ts_spec,
                    self.spec_items(),
                    order_spec,
                    self.spec_cursor(),
                    start as int,
                    i as int,
                ),
            decreases end - i,
        {
            proof {
                lemma_theme_same_state(&ts, &ts_spec);
                lemma_multiselect_lines_snoc(
                    &ts_spec,
                    self.spec_items(),
                    order_spec,
                    self.spec_cursor(),
                    start as int,
                    i as int,
                );
            }
            let idx = order[i];
            let item = &self.items[idx];
            let line = theme.format_multiselect_item(
                &ts,
                item.selected,
                self.cursor == i,
                item.label.as_str(),
                item.hint.as_str(),
            );
            r.append(line.as_str());
            i = i + 1;
        }
        // footer: report the selected items that are not visible
        let hidden = self.count_selected_not_visible();
        let footer = if hidden > 0 {
            let note = hidden_note_text(hidden);
            theme.format_footer_with_message(&ts, note.as_str())
        } else {
            theme.format_footer(&ts)
        };
        r.append(footer.as_str());
        proof {
            if start as int == self.spec_window_pos() {
            } else {
                assert(r@ =~= head + spec_multiselect_lines(
                    &ts_spec,
                    self.spec_items(),
                    order_spec,
                    self.spec_cursor(),
                    self.spec_window_pos(),
                    end as int,
                ) + (if selected_not_visible(self.spec_items(), self.spec_visible()) > 0 {
                    spec_footer_with_message(
                        &ts_spec,
                        hidden_items_note(
                            selected_not_visible(self.spec_items(), self.spec_visible()),
                        ),
                    )
                } else {
                    spec_footer(&ts_spec)
                }));
            }
        }
        r
    }

    /// Counts the selected items that are not currently visible.
    fn count_selected_not_visible(&self) -> (r: usize)
        requires
            self.wf(),
        ensures
            r as int == selected_not_visible(self.spec_items(), self.spec_visible()),
    {
        let ghost items = self.spec_items();
        let ghost vis = self.spec_visible();
        let n = self.items.len();
        let visible = self.filter.items();
        let mut count: usize = 0;
        let mut k: usize = 0;
        proof {
            assert(Seq::new(items.len(), |i: int| i).take(0).filter(
                |i: int| items[i].selected,
            ).filter(|i: int| !vis.contains(i as usize)) =~= Seq::<int>::empty());
        }
        while k < n
            invariant
                n == items.len(),
                self.spec_items() == items,
                self.spec_visible() == vis,
                visible@ == vis,
                k <= n,
                count as int == Seq::new(items.len(), |i: int| i).take(k as int).filter(
                    |i: int| items[i].selected,
                ).filter(|i: int| !vis.contains(i as usize)).len(),
                count <= k,
            decreases n - k,
        {
            let ghost idx = Seq::new(items.len(), |i: int| i);
            proof {
                assert(idx.take(k + 1).drop_last() =~= idx.take(k as int));
                assert(idx.take(k + 1).last() == k as int);
                reveal_with_fuel(Seq::filter, 2);
                if items[k as int].selected {
                    assert(idx.take(k + 1).filter(|i: int| items[i].selected).drop_last()
                        =~= idx.take(k as int).filter(|i: int| items[i].selected));
                    reveal_with_fuel(Seq::filter, 2);
                }
            }
            if self.items[k].selected && !contains_index(visible, k) {
                count = count + 1;
            }
            k = k + 1;
        }
        proof {
            assert(Seq::new(items.len(), |i: int| i).take(n as int) =~= Seq::new(
                items.len(),
                |i: int| i,
            ));
        }
        count
    }
}

/// Whether the visible set holds the index.
fn contains_index(visible: &Vec<usize>, k: usize) -> (r: bool)
    ensures
        r == visible@.contains(k),
{
    let n = visible.len();
    let mut m: usize = 0;
    while m < n
        invariant
            n == visible@.len(),
            m <= n,
            forall|j: int| 0 <= j < m ==> visible@[j] != k,
        decreases n - m,
    {
        if visible[m] == k {
            return true;
        }
        m = m + 1;
    }
    proof {
        assert(!visible@.contains(k)) by {
            if visible@.contains(k) {
                let j = choose|j: int| 0 <= j < visible@.len() && visible@[j] == k;
            }
        }
    }
    false
}

/// The footer note reporting selected items outside the view: the count in
/// decimal, then the rest of the sentence, pluralised past one.
pub open spec fn hidden_items_note(hidden: int) -> Seq<char> {
    crate::parse::spec_decimal(hidden as nat) + " selected item"@ + (if hidden > 1 {
        "s"@
    } else {
        ""@
    }) + " not displayed"@
}

/// Renders the footer note for `hidden` selected items that are not
/// displayed.
fn hidden_note_text(hidden: usize) -> (r: String)
    ensures
        r@ == hidden_items_note(hidden as int),
{
    let mut r = crate::parse::decimal_string(hidden);
    r.append(" selected item");
    if hidden > 1 {
        r.append("s");
    }
    r.append(" not displayed");
    proof {
        reveal_strlit("");
        assert(r@ =~= hidden_items_note(hidden as int));
    }
    r
}

impl<T: Clone> PromptInteraction<Vec<T>> for MultiSelect<T> {
    open spec fn inv(&self) -> bool {
        self.wf()
    }

    fn render(&self, state: &State<Vec<T>>) -> String {
        self.draw(state)
    }

    fn on(&mut self, event: &Event) -> (next: State<Vec<T>>) {
        let Event::Key(key) = event;
        self.on_key(key)
    }

    fn edit(&mut self, key: &Key) {
        self.filter.edit(key);
    }
}

} // verus!
