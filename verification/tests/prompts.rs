//! The prompt state machines, driven key by key as the driver would.

use cliclack::{
    confirm, input, multiselect, resolve_escape, select, ClackTheme, CliError, Confirm, Event,
    Input, Key, MultiSelect, Password, PromptInteraction, Select, State, Text, Validate,
};

/// Feeds one key the way the driver does: first to the prompt's own cursor,
/// then to the prompt itself.
fn feed<T, P: PromptInteraction<T>>(prompt: &mut P, key: Key) -> State<T> {
    prompt.edit(&key);
    prompt.on(&Event::Key(key))
}

fn type_str<T, P: PromptInteraction<T>>(prompt: &mut P, text: &str) {
    for c in text.chars() {
        let _ = feed(prompt, Key::Char(c));
    }
}

fn type_input<V1, V2>(field: &mut Input<V1, V2>, text: &str)
where
    V1: Validate<String, Err = String>,
    V2: Validate<String, Err = String>,
{
    for c in text.chars() {
        field.edit_key(&Key::Char(c));
        let _ = field.on_key::<String>(&Key::Char(c));
    }
}

struct MinThree;

impl Validate<String> for MinThree {
    type Err = String;

    fn validate(&self, input: &String) -> Result<(), String> {
        if input.chars().count() >= 3 {
            Ok(())
        } else {
            Err("too short".to_string())
        }
    }
}

#[test]
fn multiselect_empty_list() {
    let mut select: MultiSelect<&str> = MultiSelect::new("Select an item");
    let result = select.begin();
    match result {
        Err(CliError::Io(m)) => assert_eq!("No items added to the list", m),
        _ => panic!("an empty list must be refused before any key is read"),
    }
}

#[test]
fn select_empty_list() {
    let mut select: Select<&str> = Select::new("Select an item").initial_value("");
    let result = select.begin();
    match result {
        Err(CliError::Io(m)) => assert_eq!("No items added to the list", m),
        _ => panic!("an empty list must be refused before any key is read"),
    }
}

#[test]
fn select_initial_value_starts_on_it_and_enter_submits() {
    let mut sel: Select<&str> = select("Pick a project type")
        .item("ts", "TypeScript", "")
        .item("js", "JavaScript", "")
        .initial_value("js");
    sel.begin().unwrap();
    let state = sel.on_key(&Key::Enter);
    assert!(matches!(state, State::Submit("js")));
}

#[test]
fn select_arrows_move_and_clamp() {
    let mut sel: Select<u32> = Select::new("n")
        .item(1, "one", "")
        .item(2, "two", "")
        .item(3, "three", "");
    sel.begin().unwrap();
    let _ = sel.on_key(&Key::ArrowUp);
    assert!(matches!(sel.on_key(&Key::Enter), State::Submit(1)));
    let _ = sel.on_key(&Key::ArrowDown);
    let _ = sel.on_key(&Key::ArrowDown);
    let _ = sel.on_key(&Key::ArrowDown);
    assert!(matches!(sel.on_key(&Key::Enter), State::Submit(3)));
}

#[test]
fn filter_exact_label_ranks_first() {
    // both labels lower-case to the query: the earlier item wins the tie
    let mut sel: Select<&str> = Select::new("word")
        .item("a", "ABC", "")
        .item("b", "abc", "")
        .filter_mode();
    sel.begin().unwrap();
    type_str(&mut sel, "abc");
    let state = sel.on_key(&Key::Enter);
    assert!(matches!(state, State::Submit("a")));
}

#[test]
fn filter_close_match_survives_the_threshold() {
    let mut sel: Select<&str> = Select::new("word")
        .item("hello", "hello", "")
        .item("far", "xyzzy", "")
        .filter_mode();
    sel.begin().unwrap();
    type_str(&mut sel, "helo");
    let state = sel.on_key(&Key::Enter);
    assert!(matches!(state, State::Submit("hello")));
}

#[test]
fn filter_empty_result_reports_no_items() {
    let mut sel: Select<&str> = Select::new("word")
        .item("a", "alpha", "")
        .item("b", "beta", "")
        .filter_mode();
    sel.begin().unwrap();
    type_str(&mut sel, "qqqqqq");
    match sel.on_key(&Key::Enter) {
        State::Error(m) => assert_eq!(m, "No items"),
        _ => panic!("Enter on an empty filtered result must report an error"),
    }
}

#[test]
fn filter_empty_query_keeps_original_order() {
    let mut sel: Select<&str> = Select::new("word")
        .item("a", "alpha", "")
        .item("b", "beta", "")
        .filter_mode();
    sel.begin().unwrap();
    // narrow, then erase the query: the full list comes back in order
    type_str(&mut sel, "beta");
    let _ = feed(&mut sel, Key::Backspace);
    let _ = feed(&mut sel, Key::Backspace);
    let _ = feed(&mut sel, Key::Backspace);
    let _ = feed(&mut sel, Key::Backspace);
    let state = sel.on_key(&Key::Enter);
    assert!(matches!(state, State::Submit("a")));
}

#[test]
fn multiselect_required_demands_a_selection() {
    let mut ms: MultiSelect<&str> = multiselect("tools")
        .item("p", "Prettier", "")
        .item("e", "ESLint", "");
    ms.begin().unwrap();
    match ms.on_key(&Key::Enter) {
        State::Error(m) => assert_eq!(m, "Input required"),
        _ => panic!("Enter with nothing selected must stay active with an error"),
    }
    let _ = ms.on_key(&Key::Char(' '));
    match ms.on_key(&Key::Enter) {
        State::Submit(values) => assert_eq!(values, vec!["p"]),
        _ => panic!("one selected item must submit"),
    }
}

#[test]
fn multiselect_collects_all_selected_in_order() {
    let mut ms: MultiSelect<u32> = MultiSelect::new("n")
        .items(vec![
            (1, "one".to_string(), String::new()),
            (2, "two".to_string(), String::new()),
            (3, "three".to_string(), String::new()),
        ])
        .required(false);
    ms.begin().unwrap();
    let _ = ms.on_key(&Key::Char(' '));
    let _ = ms.on_key(&Key::ArrowDown);
    let _ = ms.on_key(&Key::ArrowDown);
    let _ = ms.on_key(&Key::Char(' '));
    match ms.on_key(&Key::Enter) {
        State::Submit(values) => assert_eq!(values, vec![1, 3]),
        _ => panic!("a non-required prompt submits the selection"),
    }
}

#[test]
fn multiselect_not_required_submits_nothing() {
    let mut ms: MultiSelect<&str> = MultiSelect::new("t").item("a", "a", "").required(false);
    ms.begin().unwrap();
    match ms.on_key(&Key::Enter) {
        State::Submit(values) => assert!(values.is_empty()),
        _ => panic!("a non-required prompt submits an empty selection"),
    }
}

#[test]
fn multiselect_selection_survives_filtering() {
    let mut ms: MultiSelect<&str> = multiselect("tools")
        .item("p", "Prettier", "")
        .item("e", "ESLint", "")
        .filter_mode();
    ms.begin().unwrap();
    // select the first item, filter it out, submit: the flag is kept on the
    // canonical item
    let _ = ms.on_key(&Key::Char(' '));
    type_str(&mut ms, "eslint");
    match ms.on_key(&Key::Enter) {
        State::Submit(values) => assert_eq!(values, vec!["p"]),
        _ => panic!("selection must be collected from the whole list"),
    }
}

#[test]
fn multiselect_footer_reports_hidden_selection() {
    let mut ms: MultiSelect<&str> = multiselect("tools")
        .item("p", "Prettier", "")
        .item("e", "ESLint", "")
        .filter_mode();
    ms.begin().unwrap();
    let _ = ms.on_key(&Key::Char(' '));
    type_str(&mut ms, "eslint");
    let frame = ms.render(&State::Active);
    assert!(frame.contains("1 selected item not displayed"));
}

#[test]
fn input_default_submits_on_empty_buffer() {
    let mut field = input("Where should we create your project?")
        .default_input("./app")
        .required(true);
    field.begin();
    match field.on_key::<String>(&Key::Enter) {
        State::Submit(v) => assert_eq!(v, "./app"),
        _ => panic!("an empty buffer must take the default"),
    }
}

#[test]
fn input_required_refuses_empty_buffer() {
    let mut field = input("name");
    field.begin();
    match field.on_key::<String>(&Key::Enter) {
        State::Error(m) => assert_eq!(m, "Input is required"),
        _ => panic!("a required input refuses an empty submit"),
    }
}

#[test]
fn input_parses_the_buffer() {
    let mut field = input("n");
    field.begin();
    type_input(&mut field, "128");
    match field.on_key::<u32>(&Key::Enter) {
        State::Submit(v) => assert_eq!(v, 128),
        _ => panic!("a decimal buffer parses"),
    }
    let mut field2 = input("n");
    field2.begin();
    type_input(&mut field2, "12a");
    match field2.on_key::<u32>(&Key::Enter) {
        State::Error(m) => assert_eq!(m, "Invalid value format"),
        _ => panic!("a non-decimal buffer is a format error"),
    }
}

#[test]
fn input_validator_rejects_and_accepts() {
    let mut field = Input::new("word").validate(MinThree);
    field.begin();
    type_input(&mut field, "hi");
    match field.on_key::<String>(&Key::Enter) {
        State::Error(m) => assert_eq!(m, "too short"),
        _ => panic!("the submit validator must reject"),
    }
    type_input(&mut field, "!");
    match field.on_key::<String>(&Key::Enter) {
        State::Submit(v) => assert_eq!(v, "hi!"),
        _ => panic!("the submit validator must accept"),
    }
}

#[test]
fn input_tab_indents() {
    let mut field = input("t");
    field.begin();
    let _ = field.on_key::<String>(&Key::Tab);
    type_input(&mut field, "x");
    match field.on_key::<String>(&Key::Enter) {
        State::Submit(v) => assert_eq!(v, "    x"),
        _ => panic!("Tab inserts four spaces"),
    }
}

#[test]
fn multiline_enter_inserts_newline_and_escape_switches() {
    let mut field = input("msg").multiline();
    field.begin();
    type_input(&mut field, "ab");
    let _ = field.on_key::<String>(&Key::Enter);
    type_input(&mut field, "cd");
    // Escape switches from edit to view: the prompt absorbs it
    let absorbed = resolve_escape(field.on_key::<String>(&Key::Escape));
    assert!(matches!(absorbed, State::Active));
    // Enter in view mode submits the whole buffer
    match field.on_key::<String>(&Key::Enter) {
        State::Submit(v) => assert_eq!(v, "ab\ncd"),
        _ => panic!("Enter submits from the view mode"),
    }
}

#[test]
fn multiline_tab_toggles_modes() {
    let mut field = input("msg").multiline();
    field.begin();
    type_input(&mut field, "ab");
    // Tab switches to the view mode without touching the buffer
    let _ = field.on_key::<String>(&Key::Tab);
    match field.on_key::<String>(&Key::Enter) {
        State::Submit(v) => assert_eq!(v, "ab"),
        _ => panic!("Enter submits from the view mode after Tab"),
    }
    // and switches back to editing: Enter inserts a newline again
    let _ = field.on_key::<String>(&Key::Tab);
    let _ = field.on_key::<String>(&Key::Enter);
    type_input(&mut field, "cd");
    let _ = field.on_key::<String>(&Key::Tab);
    match field.on_key::<String>(&Key::Enter) {
        State::Submit(v) => assert_eq!(v, "ab\ncd"),
        _ => panic!("the newline was inserted in the edit mode"),
    }
}

#[test]
fn multiselect_initial_values_start_selected() {
    let mut ms: MultiSelect<&str> = multiselect("tools")
        .item("p", "Prettier", "")
        .item("e", "ESLint", "")
        .initial_values(vec!["e"]);
    ms.begin().unwrap();
    match ms.on_key(&Key::Enter) {
        State::Submit(values) => assert_eq!(values, vec!["e"]),
        _ => panic!("the initial values start selected"),
    }
}

#[test]
fn password_wipe_empties_the_buffer() {
    let mut pw = Password::new("pin");
    for c in "secret".chars() {
        pw.edit_key(&Key::Char(c));
    }
    pw.wipe();
    let frame = pw.draw(&State::Active);
    assert_eq!(frame.chars().filter(|c| *c == '\u{25aa}').count(), 0);
    match pw.on_key(&Key::Enter) {
        State::Error(m) => assert_eq!(m, "Input required"),
        _ => panic!("a wiped buffer is empty"),
    }
}

#[test]
fn escape_cancels_single_line_prompts() {
    let mut field = input("x");
    field.begin();
    let resolved = resolve_escape(field.on_key::<String>(&Key::Escape));
    assert!(matches!(resolved, State::Cancel));
}

#[test]
fn password_masks_every_character() {
    let mut pw = Password::new("pin").mask('\u{25aa}');
    for c in "secret".chars() {
        pw.edit_key(&Key::Char(c));
        let _ = pw.on_key(&Key::Char(c));
    }
    let frame = pw.draw(&State::Active);
    assert_eq!(frame.chars().filter(|c| *c == '\u{25aa}').count(), 6);
    assert!(!frame.contains("secret"));
    match pw.on_key(&Key::Enter) {
        State::Submit(v) => assert_eq!(v, "secret"),
        _ => panic!("Enter submits the secret"),
    }
}

#[test]
fn password_requires_input() {
    let mut pw = Password::new("pin");
    match pw.on_key(&Key::Enter) {
        State::Error(m) => assert_eq!(m, "Input required"),
        _ => panic!("an empty password is refused"),
    }
}

#[test]
fn text_submits_verbatim() {
    let mut t = Text::new("note").placeholder("anything");
    type_str(&mut t, "as is");
    match t.on_key(&Key::Enter) {
        State::Submit(v) => assert_eq!(v, "as is"),
        _ => panic!("text submits verbatim"),
    }
}

#[test]
fn confirm_toggles_and_submits() {
    let mut c: Confirm = confirm("Install dependencies?");
    let _ = c.on_key(&Key::ArrowLeft);
    assert!(matches!(c.on_key(&Key::Enter), State::Submit(true)));
    let mut c2 = Confirm::new("again").initial_value(true);
    assert!(matches!(c2.on_key(&Key::Char('n')), State::Submit(false)));
    assert!(matches!(c2.on_key(&Key::Char('y')), State::Submit(true)));
}

#[test]
fn confirm_frame_shows_both_answers() {
    let c = Confirm::new("ok?");
    let frame = c.draw(&State::Active);
    assert!(frame.contains("Yes"));
    assert!(frame.contains("No"));
    assert!(frame.contains("ok?"));
}

#[test]
fn format_note() {
    ClackTheme.format_note("my prompt", "my message");
}

#[test]
fn note_frames_the_message() {
    let frame = ClackTheme.format_note("hi", "yo");
    assert_eq!(frame, "◇  hi ──╮\n│       │\n│  yo   │\n├───────╯\n");
}

#[test]
fn log_bars_the_continuation_lines() {
    assert_eq!(ClackTheme.format_log("hello", "*"), "*  hello\n│  \n");
    assert_eq!(ClackTheme.format_log("a\nb", "*"), "*  a\n│  b\n│  \n");
    assert_eq!(ClackTheme.format_log("", "*"), "*  \n");
}
