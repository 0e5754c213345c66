//! The decisions of the guided workflow: which menu entry an answer or a key
//! press picks, and how a step's outcome moves the workflow on.

use vstd::prelude::*;
use crate::ansi;
use crate::cli::Encoding;
use crate::key::{
    encrypt_stem, encrypt_stem_spec, input_file_name, path_extension, path_extension_spec,
    path_with_extension, path_with_extension_spec, planned_encrypt_paths,
};
use crate::output::{
    lemma_views_push, lemma_choice_marks, choice_lines_spec, choice_row_lines, field_lines, field_lines_spec, field_pairs, header_lines_spec, progress_entries, progress_line,
    join_spec, status_text_spec, string_views, workflow_header_lines, ChoiceRow, Field, ProgressItem,
    ProgressState, WorkflowStatus, WORKFLOW_WIDTH,
};
use crate::terminal::{color, styled};
use crate::text::{
    ascii_lower_seq, char_count, is_white_space, char_string, decimal_spec, decimal_value, digit_value, is_digit, pad_left, pad_left_spec, pad_right,
    pad_right_spec, parse_usize, parse_usize_spec, str_eq, str_starts_with, str_to_ascii_lowercase,
    str_trim, string_of, trim_spec, usize_to_string,
};

verus! {

/// A key press in the interactive menus.
#[derive(Clone, Copy, Debug, PartialEq, Eq, Structural)]
pub enum KeyPress {
    Enter,
    Escape,
    CtrlC,
    Char(char),
    ArrowUp,
    ArrowDown,
    Tab,
    BackTab,
    Other,
}

/// An answer trimmed and in ASCII lowercase, as the menus compare it.
pub open spec fn normalized(answer: Seq<char>) -> Seq<char> {
    ascii_lower_seq(trim_spec(answer))
}

fn normalize(answer: &str) -> (r: String)
    ensures
        r@ == normalized(answer@),
{
    str_to_ascii_lowercase(str_trim(answer))
}

/// One entry of the main menu.
pub struct WorkflowItem {
    pub key: &'static str,
    pub title: &'static str,
    pub middle: &'static str,
    pub right: &'static str,
}

/// The number of entries of the main menu; the last one quits.
pub const WORKFLOW_COUNT: usize = 7;

/// The key of main-menu entry `i`.
pub open spec fn workflow_key_spec(i: int) -> Seq<char> {
    if i == 0 {
        "1"@
    } else if i == 1 {
        "2"@
    } else if i == 2 {
        "3"@
    } else if i == 3 {
        "4"@
    } else if i == 4 {
        "5"@
    } else if i == 5 {
        "6"@
    } else {
        "q"@
    }
}

/// The title of main-menu entry `i`.
pub open spec fn workflow_title_spec(i: int) -> Seq<char> {
    if i == 0 {
        "Encrypt"@
    } else if i == 1 {
        "Decrypt"@
    } else if i == 2 {
        "Keygen"@
    } else if i == 3 {
        "Info"@
    } else if i == 4 {
        "Wrap key"@
    } else if i == 5 {
        "Unwrap key"@
    } else {
        "Quit"@
    }
}

/// The description of main-menu entry `i`.
pub open spec fn workflow_middle_spec(i: int) -> Seq<char> {
    if i == 0 {
        "Text, stdin, or file"@
    } else if i == 1 {
        ".otp + key"@
    } else if i == 2 {
        "Generate standalone key file"@
    } else if i == 3 {
        "Inspect .otp, key, hash"@
    } else if i == 4 {
        "Password-protect a key file"@
    } else if i == 5 {
        "Restore raw key file"@
    } else {
        "Exit without changes"@
    }
}

/// What main-menu entry `i` produces, if it says.
pub open spec fn workflow_right_spec(i: int) -> Seq<char> {
    if i == 0 {
        ".otp + key"@
    } else if i == 1 {
        "plaintext"@
    } else {
        ""@
    }
}

fn workflow_item(i: usize) -> (item: WorkflowItem)
    requires
        i < WORKFLOW_COUNT,
    ensures
        item.key@ == workflow_key_spec(i as int),
        item.title@ == workflow_title_spec(i as int),
        item.middle@ == workflow_middle_spec(i as int),
        item.right@ == workflow_right_spec(i as int),
{
    if i == 0 {
        WorkflowItem { key: "1", title: "Encrypt", middle: "Text, stdin, or file", right: ".otp + key" }
    } else if i == 1 {
        WorkflowItem { key: "2", title: "Decrypt", middle: ".otp + key", right: "plaintext" }
    } else if i == 2 {
        WorkflowItem { key: "3", title: "Keygen", middle: "Generate standalone key file", right: "" }
    } else if i == 3 {
        WorkflowItem { key: "4", title: "Info", middle: "Inspect .otp, key, hash", right: "" }
    } else if i == 4 {
        WorkflowItem { key: "5", title: "Wrap key", middle: "Password-protect a key file", right: "" }
    } else if i == 5 {
        WorkflowItem { key: "6", title: "Unwrap key", middle: "Restore raw key file", right: "" }
    } else {
        WorkflowItem { key: "q", title: "Quit", middle: "Exit without changes", right: "" }
    }
}

/// The entries of the main menu, in order.
pub fn workflow_items() -> (items: Vec<WorkflowItem>)
    ensures
        items@.len() == WORKFLOW_COUNT,
        forall|i: int|
            0 <= i < WORKFLOW_COUNT ==> (#[trigger] items@[i]).key@ == workflow_key_spec(i)
                && items@[i].title@ == workflow_title_spec(i) && items@[i].middle@
                == workflow_middle_spec(i) && items@[i].right@ == workflow_right_spec(i),
{
    let mut items: Vec<WorkflowItem> = Vec::new();
    let mut i: usize = 0;
    while i < WORKFLOW_COUNT
        invariant
            i <= WORKFLOW_COUNT,
            items@.len() == i,
            forall|j: int|
                0 <= j < i ==> (#[trigger] items@[j]).key@ == workflow_key_spec(j) && items@[j].title@
                    == workflow_title_spec(j) && items@[j].middle@ == workflow_middle_spec(j)
                    && items@[j].right@ == workflow_right_spec(j),
        decreases WORKFLOW_COUNT - i,
    {
        items.push(workflow_item(i));
        i = i + 1;
    }
    items
}

/// Whether a normalized answer names main-menu entry `i`: by its title, the
/// first letter of its title, its key, or one of its aliases.
pub open spec fn workflow_entry_matches(i: int, a: Seq<char>) -> bool {
    let title = workflow_title_spec(i);
    let lower = ascii_lower_seq(title);
    ||| a == lower
    ||| (lower.len() > 0 && a == seq![lower[0]])
    ||| a == workflow_key_spec(i)
    ||| (title == "Keygen"@ && (a == "key"@ || a == "k"@))
    ||| (title == "Wrap key"@ && (a == "wrap"@ || a == "wrap-key"@ || a == "w"@))
    ||| (title == "Unwrap key"@ && (a == "unwrap"@ || a == "unwrap-key"@ || a == "u"@))
}

/// The first main-menu entry from `i` on that a normalized answer names.
pub open spec fn first_workflow_match(a: Seq<char>, i: int) -> Option<usize>
    decreases WORKFLOW_COUNT - i,
{
    if i < 0 || i >= WORKFLOW_COUNT {
        None
    } else if workflow_entry_matches(i, a) {
        Some(i as usize)
    } else {
        first_workflow_match(a, i + 1)
    }
}

/// The main-menu entry a typed answer picks: blank for the first, `q`, `quit`
/// or `exit` for the last, a number of an entry before the last, or a name.
pub open spec fn workflow_action_spec(answer: Seq<char>) -> Option<usize> {
    let a = normalized(answer);
    if a.len() == 0 {
        Some(0)
    } else if a == "q"@ || a == "quit"@ || a == "exit"@ {
        Some((WORKFLOW_COUNT - 1) as usize)
    } else if parse_usize_spec(a) is Some && 1 <= parse_usize_spec(a)->Some_0
        && parse_usize_spec(a)->Some_0 < WORKFLOW_COUNT {
        Some((parse_usize_spec(a)->Some_0 - 1) as usize)
    } else {
        first_workflow_match(a, 0)
    }
}

fn workflow_entry_matches_exec(item: &WorkflowItem, a: &str, i: Ghost<int>) -> (r: bool)
    requires
        0 <= i@ < WORKFLOW_COUNT,
        item.key@ == workflow_key_spec(i@),
        item.title@ == workflow_title_spec(i@),
    ensures
        r == workflow_entry_matches(i@, a@),
{
    let lower = str_to_ascii_lowercase(item.title);
    if str_eq(a, lower.as_str()) {
        return true;
    }
    if char_count(lower.as_str()) > 0 {
        let first = char_string(lower.as_str().get_char(0));
        if str_eq(a, first.as_str()) {
            return true;
        }
    }
    if str_eq(item.key, a) {
        return true;
    }
    if str_eq(item.title, "Keygen") && (str_eq(a, "key") || str_eq(a, "k")) {
        return true;
    }
    if str_eq(item.title, "Wrap key") && (str_eq(a, "wrap") || str_eq(a, "wrap-key") || str_eq(a, "w")) {
        return true;
    }
    if str_eq(item.title, "Unwrap key") && (str_eq(a, "unwrap") || str_eq(a, "unwrap-key") || str_eq(
        a,
        "u",
    )) {
        return true;
    }
    proof {
        let lower_spec = ascii_lower_seq(workflow_title_spec(i@));
        if lower_spec.len() > 0 {
            assert(lower_spec[0] == lower@[0]);
        }
    }
    false
}

/// The main-menu entry a typed answer picks, if any.
pub fn workflow_action_for_answer(answer: &str) -> (r: Option<usize>)
    ensures
        r == workflow_action_spec(answer@),
{
    let a = normalize(answer);
    if char_count(a.as_str()) == 0 {
        return Some(0);
    }
    if str_eq(a.as_str(), "q") || str_eq(a.as_str(), "quit") || str_eq(a.as_str(), "exit") {
        return Some(WORKFLOW_COUNT - 1);
    }
    match parse_usize(a.as_str()) {
        Some(n) => {
            if 1 <= n && n < WORKFLOW_COUNT {
                return Some(n - 1);
            }
        },
        None => {},
    }
    let items = workflow_items();
    assert(workflow_action_spec(answer@) == first_workflow_match(a@, 0));
    let mut i: usize = 0;
    while i < WORKFLOW_COUNT
        invariant
            i <= WORKFLOW_COUNT,
            items@.len() == WORKFLOW_COUNT,
            forall|j: int|
                0 <= j < WORKFLOW_COUNT ==> (#[trigger] items@[j]).key@ == workflow_key_spec(j)
                    && items@[j].title@ == workflow_title_spec(j),
            workflow_action_spec(answer@) == first_workflow_match(a@, i as int),
        decreases WORKFLOW_COUNT - i,
    {
        if workflow_entry_matches_exec(&items[i], a.as_str(), Ghost(i as int)) {
            return Some(i);
        }
        i = i + 1;
    }
    None
}

/// The main-menu entry a key press picks: Enter the highlighted one, Escape
/// or Ctrl-C the last, a character as a typed answer.
pub open spec fn workflow_key_spec_action(key: KeyPress, selected: usize) -> Option<usize> {
    match key {
        KeyPress::Enter => Some(selected),
        KeyPress::Escape | KeyPress::CtrlC => Some((WORKFLOW_COUNT - 1) as usize),
        KeyPress::Char(c) => workflow_action_spec(seq![c]),
        _ => None,
    }
}

/// The main-menu entry a key press picks, if any.
pub fn workflow_action_for_key(key: KeyPress, selected: usize) -> (r: Option<usize>)
    ensures
        r == workflow_key_spec_action(key, selected),
{
    match key {
        KeyPress::Enter => Some(selected),
        KeyPress::Escape | KeyPress::CtrlC => Some(WORKFLOW_COUNT - 1),
        KeyPress::Char(c) => {
            let s = char_string(c);
            workflow_action_for_answer(s.as_str())
        },
        _ => None,
    }
}

/// The main-menu words as character sequences.
proof fn lemma_workflow_words()
    ensures
        "Encrypt"@ == seq!['E', 'n', 'c', 'r', 'y', 'p', 't'],
        "Decrypt"@ == seq!['D', 'e', 'c', 'r', 'y', 'p', 't'],
        "Keygen"@ == seq!['K', 'e', 'y', 'g', 'e', 'n'],
        "Info"@ == seq!['I', 'n', 'f', 'o'],
        "Wrap key"@ == seq!['W', 'r', 'a', 'p', ' ', 'k', 'e', 'y'],
        "Unwrap key"@ == seq!['U', 'n', 'w', 'r', 'a', 'p', ' ', 'k', 'e', 'y'],
        "Quit"@ == seq!['Q', 'u', 'i', 't'],
        "1"@ == seq!['1'],
        "2"@ == seq!['2'],
        "3"@ == seq!['3'],
        "4"@ == seq!['4'],
        "5"@ == seq!['5'],
        "6"@ == seq!['6'],
        "exit"@ == seq!['e', 'x', 'i', 't'],
        "key"@ == seq!['k', 'e', 'y'],
        "k"@ == seq!['k'],
        "wrap"@ == seq!['w', 'r', 'a', 'p'],
        "wrap-key"@ == seq!['w', 'r', 'a', 'p', '-', 'k', 'e', 'y'],
        "w"@ == seq!['w'],
        "unwrap"@ == seq!['u', 'n', 'w', 'r', 'a', 'p'],
        "unwrap-key"@ == seq!['u', 'n', 'w', 'r', 'a', 'p', '-', 'k', 'e', 'y'],
        "u"@ == seq!['u'],
{
    reveal_strlit("Encrypt");
    reveal_strlit("Decrypt");
    reveal_strlit("Keygen");
    reveal_strlit("Info");
    reveal_strlit("Wrap key");
    reveal_strlit("Unwrap key");
    reveal_strlit("Quit");
    reveal_strlit("1");
    reveal_strlit("2");
    reveal_strlit("3");
    reveal_strlit("4");
    reveal_strlit("5");
    reveal_strlit("6");
    reveal_strlit("exit");
    reveal_strlit("key");
    reveal_strlit("k");
    reveal_strlit("wrap");
    reveal_strlit("wrap-key");
    reveal_strlit("w");
    reveal_strlit("unwrap");
    reveal_strlit("unwrap-key");
    reveal_strlit("u");
    assert("Encrypt"@ =~= seq!['E', 'n', 'c', 'r', 'y', 'p', 't']);
    assert("Decrypt"@ =~= seq!['D', 'e', 'c', 'r', 'y', 'p', 't']);
    assert("Keygen"@ =~= seq!['K', 'e', 'y', 'g', 'e', 'n']);
    assert("Info"@ =~= seq!['I', 'n', 'f', 'o']);
    assert("Wrap key"@ =~= seq!['W', 'r', 'a', 'p', ' ', 'k', 'e', 'y']);
    assert("Unwrap key"@ =~= seq!['U', 'n', 'w', 'r', 'a', 'p', ' ', 'k', 'e', 'y']);
    assert("Quit"@ =~= seq!['Q', 'u', 'i', 't']);
    assert("1"@ =~= seq!['1']);
    assert("2"@ =~= seq!['2']);
    assert("3"@ =~= seq!['3']);
    assert("4"@ =~= seq!['4']);
    assert("5"@ =~= seq!['5']);
    assert("6"@ =~= seq!['6']);
    assert("exit"@ =~= seq!['e', 'x', 'i', 't']);
    assert("key"@ =~= seq!['k', 'e', 'y']);
    assert("k"@ =~= seq!['k']);
    assert("wrap"@ =~= seq!['w', 'r', 'a', 'p']);
    assert("wrap-key"@ =~= seq!['w', 'r', 'a', 'p', '-', 'k', 'e', 'y']);
    assert("w"@ =~= seq!['w']);
    assert("unwrap"@ =~= seq!['u', 'n', 'w', 'r', 'a', 'p']);
    assert("unwrap-key"@ =~= seq!['u', 'n', 'w', 'r', 'a', 'p', '-', 'k', 'e', 'y']);
    assert("u"@ =~= seq!['u']);
}

/// The lower-case title of main-menu entry `i`.
pub open spec fn workflow_lower_title(i: int) -> Seq<char> {
    ascii_lower_seq(workflow_title_spec(i))
}

proof fn lemma_workflow_lower_titles()
    ensures
        workflow_lower_title(0) == seq!['e', 'n', 'c', 'r', 'y', 'p', 't'],
        workflow_lower_title(1) == seq!['d', 'e', 'c', 'r', 'y', 'p', 't'],
        workflow_lower_title(2) == seq!['k', 'e', 'y', 'g', 'e', 'n'],
        workflow_lower_title(3) == seq!['i', 'n', 'f', 'o'],
        workflow_lower_title(4) == seq!['w', 'r', 'a', 'p', ' ', 'k', 'e', 'y'],
        workflow_lower_title(5) == seq!['u', 'n', 'w', 'r', 'a', 'p', ' ', 'k', 'e', 'y'],
        workflow_lower_title(6) == seq!['q', 'u', 'i', 't'],
{
    lemma_workflow_words();
    assert(workflow_lower_title(0) =~= seq!['e', 'n', 'c', 'r', 'y', 'p', 't']);
    assert(workflow_lower_title(1) =~= seq!['d', 'e', 'c', 'r', 'y', 'p', 't']);
    assert(workflow_lower_title(2) =~= seq!['k', 'e', 'y', 'g', 'e', 'n']);
    assert(workflow_lower_title(3) =~= seq!['i', 'n', 'f', 'o']);
    assert(workflow_lower_title(4) =~= seq!['w', 'r', 'a', 'p', ' ', 'k', 'e', 'y']);
    assert(workflow_lower_title(5) =~= seq!['u', 'n', 'w', 'r', 'a', 'p', ' ', 'k', 'e', 'y']);
    assert(workflow_lower_title(6) =~= seq!['q', 'u', 'i', 't']);
}

/// Every main-menu entry is reached by typing its key, its title or the
/// first letter of its title, in any case and with surrounding white space:
/// `1` to `6` pick the first six entries in order and `q` quits. A blank
/// answer picks the first entry, `quit` and `exit` the last, and whatever is
/// picked is an entry of the menu.
pub proof fn lemma_workflow_answers(answer: Seq<char>, i: int)
    requires
        0 <= i < WORKFLOW_COUNT,
    ensures
        (normalized(answer) == workflow_key_spec(i) || normalized(answer) == workflow_lower_title(i)
            || normalized(answer) == seq![workflow_lower_title(i)[0]]) ==> workflow_action_spec(
            answer,
        ) == Some(i as usize),
        normalized(answer).len() == 0 ==> workflow_action_spec(answer) == Some(0usize),
        (normalized(answer) == "quit"@ || normalized(answer) == "exit"@)
            ==> workflow_action_spec(answer) == Some((WORKFLOW_COUNT - 1) as usize),
        workflow_action_spec(answer) matches Some(j) ==> j < WORKFLOW_COUNT,
{
    lemma_workflow_words();
    lemma_workflow_lower_titles();
    crate::prompt::lemma_answer_words();
    let a = normalized(answer);
    lemma_first_workflow_match_range(a, 0);
    if a == workflow_key_spec(i) || a == workflow_lower_title(i) || a == seq![
        workflow_lower_title(i)[0],
    ] {
        assert(workflow_entry_matches(i, a));
        assert(a.len() > 0);
        assert forall|j: int| 0 <= j < i implies !workflow_entry_matches(j, a) by {
            if workflow_entry_matches(j, a) {
                lemma_workflow_entry_start(j, a);
            }
        }
        lemma_first_workflow_match_at(a, i, 0);
        if i < 6 && a == workflow_key_spec(i) {
            lemma_parse_one_digit(a[0]);
        } else if i < 6 {
            assert(!is_digit(a[0]) && a[0] != '+');
        }
    }
}

/// Keys in the main menu: Enter picks the highlighted entry, Escape and
/// Ctrl-C quit, an entry's key or the first letter of its title picks that
/// entry, and the arrow and Tab keys pick nothing (they move the highlight).
pub proof fn lemma_workflow_keys(c: char, selected: usize, i: int)
    requires
        0 <= i < WORKFLOW_COUNT,
    ensures
        workflow_key_spec_action(KeyPress::Enter, selected) == Some(selected),
        workflow_key_spec_action(KeyPress::Escape, selected) == Some(
            (WORKFLOW_COUNT - 1) as usize,
        ),
        workflow_key_spec_action(KeyPress::CtrlC, selected) == Some((WORKFLOW_COUNT - 1) as usize),
        (seq![c] == workflow_key_spec(i) || c == workflow_lower_title(i)[0])
            ==> workflow_key_spec_action(KeyPress::Char(c), selected) == Some(i as usize),
        workflow_key_spec_action(KeyPress::ArrowUp, selected) is None,
        workflow_key_spec_action(KeyPress::ArrowDown, selected) is None,
        workflow_key_spec_action(KeyPress::Tab, selected) is None,
        workflow_key_spec_action(KeyPress::BackTab, selected) is None,
        workflow_key_spec_action(KeyPress::Other, selected) is None,
{
    lemma_workflow_words();
    lemma_workflow_lower_titles();
    crate::prompt::lemma_answer_words();
    if seq![c] == workflow_key_spec(i) || c == workflow_lower_title(i)[0] {
        if seq![c] == workflow_key_spec(i) {
            assert(c == seq![c][0]);
        }
        lemma_normalized_letter(c);
        lemma_workflow_answers(seq![c], i);
    }
}

/// Each word that names main-menu entry `j` starts with the first letter of
/// its title or with its key.
proof fn lemma_workflow_entry_start(j: int, a: Seq<char>)
    requires
        0 <= j < WORKFLOW_COUNT,
        workflow_entry_matches(j, a),
    ensures
        a.len() > 0,
        a[0] == workflow_lower_title(j)[0] || a[0] == workflow_key_spec(j)[0],
{
    lemma_workflow_words();
    lemma_workflow_lower_titles();
    crate::prompt::lemma_answer_words();
    assert("Keygen"@[0] == 'K' && "Wrap key"@[0] == 'W' && "Unwrap key"@[0] == 'U');
    let t = workflow_title_spec(j);
    if j == 0 {
        assert(t[0] == 'E');
    } else if j == 1 {
        assert(t[0] == 'D');
    } else if j == 2 {
        assert(t[0] == 'K');
    } else if j == 3 {
        assert(t[0] == 'I');
    } else if j == 4 {
        assert(t[0] == 'W');
    } else if j == 5 {
        assert(t[0] == 'U');
    } else {
        assert(t[0] == 'Q');
    }
}

/// The first entry from `k` on that names `a` is `i` when `i` names it and
/// no entry between does.
proof fn lemma_first_workflow_match_at(a: Seq<char>, i: int, k: int)
    requires
        0 <= k <= i < WORKFLOW_COUNT,
        workflow_entry_matches(i, a),
        forall|j: int| 0 <= j < i ==> !workflow_entry_matches(j, a),
    ensures
        first_workflow_match(a, k) == Some(i as usize),
    decreases i - k,
{
    if k < i {
        lemma_first_workflow_match_at(a, i, k + 1);
    }
}

proof fn lemma_first_workflow_match_range(a: Seq<char>, k: int)
    requires
        0 <= k,
    ensures
        first_workflow_match(a, k) matches Some(j) ==> k <= j < WORKFLOW_COUNT,
    decreases WORKFLOW_COUNT - k,
{
    if k < WORKFLOW_COUNT {
        lemma_first_workflow_match_range(a, k + 1);
    }
}

/// A single decimal digit parses as its value.
proof fn lemma_parse_one_digit(c: char)
    requires
        is_digit(c),
    ensures
        parse_usize_spec(seq![c]) == Some(digit_value(c) as usize),
{
    assert(seq![c].drop_last() =~= Seq::<char>::empty());
    assert(decimal_value(Seq::<char>::empty()) == 0);
    assert(decimal_value(seq![c]) == digit_value(c));
}

/// One entry of a step menu.
pub struct StepMenuItem<'a> {
    pub key: &'a str,
    pub title: &'a str,
    pub description: &'a str,
    pub aliases: &'a [&'a str],
}

/// What a step menu answer asks for.
#[derive(Clone, Copy, Debug, PartialEq, Eq, Structural)]
pub enum StepAction {
    Select(usize),
    Back,
    Cancel,
}

/// The outcome of a step that asks for a value.
#[derive(Clone, Copy, Debug, PartialEq, Eq, Structural)]
pub enum StepValue<T> {
    Value(T),
    Back,
    Cancel,
}

/// How a workflow ends.
#[derive(Clone, Copy, Debug, PartialEq, Eq, Structural)]
pub enum FlowExit {
    Done,
    BackToMenu,
    Cancel,
}

/// Whether one of `aliases` is `a`.
pub open spec fn alias_named(aliases: Seq<&str>, a: Seq<char>) -> bool {
    exists|j: int| 0 <= j < aliases.len() && (#[trigger] aliases[j])@ == a
}

/// Whether `a` is the key or an alias of a step menu entry.
pub open spec fn step_item_named(item: StepMenuItem, a: Seq<char>) -> bool {
    a == item.key@ || alias_named(item.aliases@, a)
}

/// The first entry from `i` on that `a` names.
pub open spec fn first_step_match(items: Seq<StepMenuItem>, a: Seq<char>, i: int) -> Option<usize>
    decreases items.len() - i,
{
    if i < 0 || i >= items.len() {
        None
    } else if step_item_named(items[i], a) {
        Some(i as usize)
    } else {
        first_step_match(items, a, i + 1)
    }
}

/// What a typed answer to a step menu asks for: `b` or `back` where going back
/// is offered, `q`, `quit` or `cancel`, an entry's number, key or alias.
pub open spec fn step_answer_spec(answer: Seq<char>, items: Seq<StepMenuItem>, back: bool) -> Option<
    StepAction,
> {
    let a = normalized(answer);
    if back && (a == "b"@ || a == "back"@) {
        Some(StepAction::Back)
    } else if a == "q"@ || a == "quit"@ || a == "cancel"@ {
        Some(StepAction::Cancel)
    } else if parse_usize_spec(a) is Some && 1 <= parse_usize_spec(a)->Some_0 <= items.len() {
        Some(StepAction::Select((parse_usize_spec(a)->Some_0 - 1) as usize))
    } else {
        match first_step_match(items, a, 0) {
            Some(i) => Some(StepAction::Select(i)),
            None => None,
        }
    }
}

proof fn lemma_first_step_match(items: Seq<StepMenuItem>, a: Seq<char>, i: int)
    requires
        0 <= i,
        items.len() <= usize::MAX,
    ensures
        first_step_match(items, a, i) matches Some(j) ==> i <= j < items.len(),
    decreases items.len() - i,
{
    if i < items.len() {
        lemma_first_step_match(items, a, i + 1);
    }
}

/// A typed control word in a step menu: `q`, `quit` or `cancel` cancels
/// whether or not going back is offered, and only `b` or `back`, where it is
/// offered, goes back. Any entry picked is one of the menu's entries.
pub proof fn lemma_step_answer_controls(answer: Seq<char>, items: Seq<StepMenuItem>, back: bool)
    ensures
        (normalized(answer) == "q"@ || normalized(answer) == "quit"@ || normalized(answer)
            == "cancel"@) ==> step_answer_spec(answer, items, back) == Some(StepAction::Cancel),
        step_answer_spec(answer, items, back) == Some(StepAction::Back) <==> back && (normalized(
            answer,
        ) == "b"@ || normalized(answer) == "back"@),
        items.len() <= usize::MAX ==> (step_answer_spec(answer, items, back) matches Some(
            StepAction::Select(i),
        ) ==> i < items.len()),
{
    crate::prompt::lemma_answer_words();
    if items.len() <= usize::MAX {
        lemma_first_step_match(items, normalized(answer), 0);
    }
    let a = normalized(answer);
    assert(("q"@)[0] == 'q' && ("quit"@)[0] == 'q' && ("cancel"@)[0] == 'c' && ("b"@)[0] == 'b'
        && ("back"@)[0] == 'b');
    if a == "q"@ || a == "quit"@ || a == "cancel"@ {
        assert(a[0] == 'q' || a[0] == 'c');
    }
}

proof fn lemma_first_step_found(items: Seq<StepMenuItem>, a: Seq<char>, k: int, i: int)
    requires
        0 <= k <= i < items.len(),
        items.len() <= usize::MAX,
        step_item_named(items[i], a),
        forall|j: int| k <= j < i ==> !step_item_named(#[trigger] items[j], a),
    ensures
        first_step_match(items, a, k) == Some(i as usize),
    decreases i - k,
{
    if k < i {
        lemma_first_step_found(items, a, k + 1, i);
    }
}

/// In a step menu, typing the number `n` of an entry picks entry `n`,
/// counted from one; an answer that is no control word and no such number
/// and is the key or an alias of exactly one entry picks that entry.
pub proof fn lemma_step_answer_entries(
    answer: Seq<char>,
    items: Seq<StepMenuItem>,
    back: bool,
    n: nat,
    i: int,
)
    requires
        items.len() <= usize::MAX,
    ensures
        1 <= n <= items.len() && normalized(answer) == decimal_spec(n) ==> step_answer_spec(
            answer,
            items,
            back,
        ) == Some(StepAction::Select((n - 1) as usize)),
        0 <= i < items.len() && !(back && (normalized(answer) == "b"@ || normalized(answer)
            == "back"@)) && normalized(answer) != "q"@ && normalized(answer) != "quit"@
            && normalized(answer) != "cancel"@ && !(parse_usize_spec(normalized(answer)) matches Some(
            m,
        ) && 1 <= m <= items.len()) && step_item_named(items[i], normalized(answer)) && (forall|
            j: int,
        |
            0 <= j < items.len() && j != i ==> !step_item_named(
                #[trigger] items[j],
                normalized(answer),
            )) ==> step_answer_spec(answer, items, back) == Some(StepAction::Select(i as usize)),
{
    let a = normalized(answer);
    crate::prompt::lemma_answer_words();
    if 1 <= n <= items.len() && a == decimal_spec(n) {
        crate::text::lemma_parse_decimal(n);
        assert(!is_digit('b') && !is_digit('q') && !is_digit('c'));
        assert(a[0] != 'b' && a[0] != 'q' && a[0] != 'c');
    }
    if 0 <= i < items.len() && step_item_named(items[i], a) && (forall|j: int|
        0 <= j < items.len() && j != i ==> !step_item_named(#[trigger] items[j], a)) {
        lemma_first_step_found(items, a, 0, i);
    }
}

/// The normalized form of a typed letter that is no white space and no
/// upper-case ASCII letter is the letter itself.
proof fn lemma_normalized_letter(c: char)
    requires
        !is_white_space(c),
        !('A' <= c <= 'Z'),
    ensures
        normalized(seq![c]) == seq![c],
{
    crate::text::lemma_trim_no_white_space_ends(seq![c]);
    assert(ascii_lower_seq(seq![c]) =~= seq![c]);
}

/// Keys in a step menu: `q`, Escape and Ctrl-C cancel, `b` goes back where
/// that is offered, and Enter picks the highlighted entry.
pub proof fn lemma_step_keys(selected: usize, items: Seq<StepMenuItem>, back: bool)
    ensures
        step_key_spec(KeyPress::Char('q'), selected, items, back) == Some(StepAction::Cancel),
        step_key_spec(KeyPress::Escape, selected, items, back) == Some(StepAction::Cancel),
        step_key_spec(KeyPress::CtrlC, selected, items, back) == Some(StepAction::Cancel),
        back ==> step_key_spec(KeyPress::Char('b'), selected, items, back) == Some(
            StepAction::Back,
        ),
        selected < items.len() ==> step_key_spec(KeyPress::Enter, selected, items, back) == Some(
            StepAction::Select(selected),
        ),
{
    lemma_normalized_letter('q');
    lemma_normalized_letter('b');
    lemma_step_answer_controls(seq!['q'], items, back);
    lemma_step_answer_controls(seq!['b'], items, back);
    crate::prompt::lemma_answer_words();
}

fn alias_named_exec(aliases: &[&str], a: &str) -> (r: bool)
    ensures
        r == alias_named(aliases@, a@),
{
    let mut j: usize = 0;
    while j < aliases.len()
        invariant
            j <= aliases@.len(),
            forall|k: int| 0 <= k < j ==> (#[trigger] aliases@[k])@ != a@,
        decreases aliases@.len() - j,
    {
        if str_eq(aliases[j], a) {
            return true;
        }
        j = j + 1;
    }
    false
}

fn first_step_match_exec(items: &[StepMenuItem], a: &str) -> (r: Option<usize>)
    ensures
        r == first_step_match(items@, a@, 0),
{
    let mut i: usize = 0;
    while i < items.len()
        invariant
            i <= items@.len(),
            first_step_match(items@, a@, 0) == first_step_match(items@, a@, i as int),
        decreases items@.len() - i,
    {
        if str_eq(a, items[i].key) || alias_named_exec(items[i].aliases, a) {
            return Some(i);
        }
        i = i + 1;
    }
    None
}

/// What a typed answer to a step menu asks for, if anything.
pub fn step_action_for_answer(answer: &str, items: &[StepMenuItem], back: bool) -> (r: Option<StepAction>)
    ensures
        r == step_answer_spec(answer@, items@, back),
{
    let a = normalize(answer);
    if back && (str_eq(a.as_str(), "b") || str_eq(a.as_str(), "back")) {
        return Some(StepAction::Back);
    }
    if str_eq(a.as_str(), "q") || str_eq(a.as_str(), "quit") || str_eq(a.as_str(), "cancel") {
        return Some(StepAction::Cancel);
    }
    match parse_usize(a.as_str()) {
        Some(n) => {
            if 1 <= n && n <= items.len() {
                return Some(StepAction::Select(n - 1));
            }
        },
        None => {},
    }
    match first_step_match_exec(items, a.as_str()) {
        Some(i) => Some(StepAction::Select(i)),
        None => None,
    }
}

/// Whether some alias of the entry starts with `a`.
pub open spec fn alias_prefixed(aliases: Seq<&str>, a: Seq<char>) -> bool {
    exists|j: int| 0 <= j < aliases.len() && a.is_prefix_of((#[trigger] aliases[j])@)
}

/// The first entry from `i` on with an alias that starts with `a`.
pub open spec fn first_prefix_match(items: Seq<StepMenuItem>, a: Seq<char>, i: int) -> Option<usize>
    decreases items.len() - i,
{
    if i < 0 || i >= items.len() {
        None
    } else if alias_prefixed(items[i].aliases@, a) {
        Some(i as usize)
    } else {
        first_prefix_match(items, a, i + 1)
    }
}

/// What a single typed character asks for: as a typed answer, else the one
/// entry with an alias that starts with it, where only one has.
pub open spec fn step_key_text_spec(answer: Seq<char>, items: Seq<StepMenuItem>, back: bool) -> Option<
    StepAction,
> {
    match step_answer_spec(answer, items, back) {
        Some(action) => Some(action),
        None => {
            let a = normalized(answer);
            if a.len() != 1 {
                None
            } else {
                match first_prefix_match(items, a, 0) {
                    None => None,
                    Some(i) => if first_prefix_match(items, a, i + 1) is None {
                        Some(StepAction::Select(i))
                    } else {
                        None
                    },
                }
            }
        },
    }
}

fn alias_prefixed_exec(aliases: &[&str], a: &str) -> (r: bool)
    ensures
        r == alias_prefixed(aliases@, a@),
{
    let mut j: usize = 0;
    while j < aliases.len()
        invariant
            j <= aliases@.len(),
            forall|k: int| 0 <= k < j ==> !a@.is_prefix_of((#[trigger] aliases@[k])@),
        decreases aliases@.len() - j,
    {
        if str_starts_with(aliases[j], a) {
            return true;
        }
        j = j + 1;
    }
    false
}

fn first_prefix_match_exec(items: &[StepMenuItem], a: &str, start: usize) -> (r: Option<usize>)
    requires
        start <= items@.len(),
    ensures
        r == first_prefix_match(items@, a@, start as int),
{
    let mut i: usize = start;
    while i < items.len()
        invariant
            start <= i <= items@.len(),
            first_prefix_match(items@, a@, start as int) == first_prefix_match(items@, a@, i as int),
        decreases items@.len() - i,
    {
        if alias_prefixed_exec(items[i].aliases, a) {
            return Some(i);
        }
        i = i + 1;
    }
    None
}

/// What a single typed character asks for in a step menu, if anything.
pub fn step_action_for_key_text(answer: &str, items: &[StepMenuItem], back: bool) -> (r: Option<
    StepAction,
>)
    ensures
        r == step_key_text_spec(answer@, items@, back),
{
    match step_action_for_answer(answer, items, back) {
        Some(action) => Some(action),
        None => {
            let a = normalize(answer);
            if char_count(a.as_str()) != 1 {
                return None;
            }
            let n = items.len();
            match first_prefix_match_exec(items, a.as_str(), 0) {
                None => None,
                Some(i) => {
                    proof {
                        assert(i < items@.len()) by {
                            lemma_first_prefix_in_range(items@, a@, 0);
                        }
                    }
                    match first_prefix_match_exec(items, a.as_str(), i + 1) {
                        None => Some(StepAction::Select(i)),
                        Some(_) => None,
                    }
                },
            }
        },
    }
}

proof fn lemma_first_prefix_in_range(items: Seq<StepMenuItem>, a: Seq<char>, i: int)
    requires
        0 <= i,
        items.len() <= usize::MAX,
    ensures
        first_prefix_match(items, a, i) matches Some(k) ==> i <= k < items.len(),
    decreases items.len() - i,
{
    if i < items.len() && !alias_prefixed(items[i].aliases@, a) {
        lemma_first_prefix_in_range(items, a, i + 1);
    }
}

proof fn lemma_first_prefix_finds(items: Seq<StepMenuItem>, a: Seq<char>, k: int, j: int)
    requires
        0 <= k <= j < items.len(),
        items.len() <= usize::MAX,
        alias_prefixed(items[j].aliases@, a),
    ensures
        first_prefix_match(items, a, k) matches Some(m) && k <= m <= j && alias_prefixed(
            items[m as int].aliases@,
            a,
        ),
    decreases j - k,
{
    if k < j && !alias_prefixed(items[k].aliases@, a) {
        lemma_first_prefix_finds(items, a, k + 1, j);
    }
}

proof fn lemma_first_prefix_none(items: Seq<StepMenuItem>, a: Seq<char>, k: int)
    requires
        0 <= k,
        forall|j: int| k <= j < items.len() ==> !alias_prefixed(#[trigger] items[j].aliases@, a),
    ensures
        first_prefix_match(items, a, k) is None,
    decreases items.len() - k,
{
    if k < items.len() {
        lemma_first_prefix_none(items, a, k + 1);
    }
}

/// A single typed character in a step menu means what it means as a typed
/// answer, where it means anything; otherwise it picks the one entry with an
/// alias that starts with it, and nothing where aliases of two entries
/// start with it. What it picks is an entry of the menu.
pub proof fn lemma_key_text_prefix(
    answer: Seq<char>,
    items: Seq<StepMenuItem>,
    back: bool,
    i: int,
    j: int,
)
    requires
        0 <= i < items.len(),
        0 <= j < items.len(),
        items.len() <= usize::MAX,
    ensures
        step_answer_spec(answer, items, back) is Some ==> step_key_text_spec(answer, items, back)
            == step_answer_spec(answer, items, back),
        step_answer_spec(answer, items, back) is None && normalized(answer).len() == 1
            && alias_prefixed(items[i].aliases@, normalized(answer)) && (forall|k: int|
            0 <= k < items.len() && k != i ==> !alias_prefixed(
                #[trigger] items[k].aliases@,
                normalized(answer),
            )) ==> step_key_text_spec(answer, items, back) == Some(StepAction::Select(i as usize)),
        step_answer_spec(answer, items, back) is None && i != j && alias_prefixed(
            items[i].aliases@,
            normalized(answer),
        ) && alias_prefixed(items[j].aliases@, normalized(answer)) ==> step_key_text_spec(
            answer,
            items,
            back,
        ) is None,
        step_key_text_spec(answer, items, back) matches Some(StepAction::Select(k)) ==> k
            < items.len(),
{
    let a = normalized(answer);
    lemma_step_answer_controls(answer, items, back);
    lemma_first_prefix_in_range(items, a, 0);
    if step_answer_spec(answer, items, back) is None {
        if alias_prefixed(items[i].aliases@, a) {
            lemma_first_prefix_finds(items, a, 0, i);
            let m = first_prefix_match(items, a, 0)->Some_0 as int;
            if forall|k: int| 0 <= k < items.len() && k != i ==> !alias_prefixed(
                #[trigger] items[k].aliases@,
                a,
            ) {
                assert(m == i);
                lemma_first_prefix_none(items, a, i + 1);
            }
            if i != j && alias_prefixed(items[j].aliases@, a) {
                lemma_first_prefix_finds(items, a, 0, j);
                let q = if i < j {
                    j
                } else {
                    i
                };
                assert(m < q);
                lemma_first_prefix_finds(items, a, m + 1, q);
            }
        }
        if let Some(m) = first_prefix_match(items, a, 0) {
            lemma_first_prefix_in_range(items, a, m + 1);
        }
    }
}

/// What the highlighted row of a step menu stands for: an entry, then Back
/// where offered, then Cancel.
pub open spec fn step_selected_spec(selected: usize, count: nat, back: bool) -> StepAction {
    if selected < count {
        StepAction::Select(selected)
    } else if back && selected == count {
        StepAction::Back
    } else {
        StepAction::Cancel
    }
}

/// What the highlighted row of a step menu stands for.
pub fn step_action_for_selected(selected: usize, items: &[StepMenuItem], back: bool) -> (r: StepAction)
    ensures
        r == step_selected_spec(selected, items@.len(), back),
{
    if selected < items.len() {
        return StepAction::Select(selected);
    }
    if back && selected == items.len() {
        return StepAction::Back;
    }
    StepAction::Cancel
}

/// The rows of a step menu stand for its entries in order, then Back where
/// going back is offered, then Cancel on the last row; Back stands on no
/// other row.
pub proof fn lemma_step_rows(selected: usize, count: nat, back: bool)
    ensures
        selected < count ==> step_selected_spec(selected, count, back) == StepAction::Select(
            selected,
        ),
        step_selected_spec(selected, count, back) == StepAction::Back <==> back && selected
            == count,
        selected == count + (if back {
            1int
        } else {
            0int
        }) ==> step_selected_spec(selected, count, back) == StepAction::Cancel,
        step_selected_spec(selected, count, back) matches StepAction::Select(k) ==> k == selected
            && k < count,
{
}

/// What a key press in a step menu asks for: Enter the highlighted row,
/// Escape or Ctrl-C cancel, a character as typed text.
pub open spec fn step_key_spec(key: KeyPress, selected: usize, items: Seq<StepMenuItem>, back: bool) -> Option<
    StepAction,
> {
    match key {
        KeyPress::Enter => Some(step_selected_spec(selected, items.len(), back)),
        KeyPress::Escape | KeyPress::CtrlC => Some(StepAction::Cancel),
        KeyPress::Char(c) => step_key_text_spec(seq![c], items, back),
        _ => None,
    }
}

/// What a key press in a step menu asks for, if anything.
pub fn step_action_for_key(key: KeyPress, selected: usize, items: &[StepMenuItem], back: bool) -> (r: Option<
    StepAction,
>)
    ensures
        r == step_key_spec(key, selected, items@, back),
{
    match key {
        KeyPress::Enter => Some(step_action_for_selected(selected, items, back)),
        KeyPress::Escape | KeyPress::CtrlC => Some(StepAction::Cancel),
        KeyPress::Char(c) => {
            let s = char_string(c);
            step_action_for_key_text(s.as_str(), items, back)
        },
        _ => None,
    }
}

/// The number of rows of a step menu: the entries, Back where offered, and
/// Cancel.
pub fn step_choice_count(items: &[StepMenuItem], back: bool) -> (n: usize)
    requires
        items@.len() + 2 <= usize::MAX,
    ensures
        n == items@.len() + (if back {
            1int
        } else {
            0int
        }) + 1,
{
    items.len() + (if back {
        1
    } else {
        0
    }) + 1
}

/// The value of a step, or how the workflow ends instead.
pub fn step_value_or_flow<T>(value: StepValue<T>) -> (r: Result<T, FlowExit>)
    ensures
        match value {
            StepValue::Value(v) => r == Ok::<T, FlowExit>(v),
            StepValue::Back => r == Err::<T, FlowExit>(FlowExit::BackToMenu),
            StepValue::Cancel => r == Err::<T, FlowExit>(FlowExit::Cancel),
        },
{
    match value {
        StepValue::Value(v) => Ok(v),
        StepValue::Back => Err(FlowExit::BackToMenu),
        StepValue::Cancel => Err(FlowExit::Cancel),
    }
}

/// The control words of free-text wizard answers: `:back` and `:cancel`.
pub open spec fn wizard_control_spec(answer: Seq<char>) -> Option<StepAction> {
    let a = normalized(answer);
    if a == ":back"@ {
        Some(StepAction::Back)
    } else if a == ":cancel"@ {
        Some(StepAction::Cancel)
    } else {
        None
    }
}

/// The control word in a free-text wizard answer, if it is one.
pub fn wizard_text_control<T>(answer: &str) -> (r: Option<StepValue<T>>)
    ensures
        match wizard_control_spec(answer@) {
            Some(StepAction::Back) => r == Some(StepValue::<T>::Back),
            Some(StepAction::Cancel) => r == Some(StepValue::<T>::Cancel),
            _ => r == None::<StepValue<T>>,
        },
{
    let a = normalize(answer);
    if str_eq(a.as_str(), ":back") {
        Some(StepValue::Back)
    } else if str_eq(a.as_str(), ":cancel") {
        Some(StepValue::Cancel)
    } else {
        None
    }
}

/// In free-text wizard answers only `:back` goes back and only `:cancel`
/// cancels (trimmed, in any ASCII case); an answer that does not start with
/// a colon is never taken for either, so any such text or path is kept as
/// the answer.
pub proof fn lemma_wizard_controls(answer: Seq<char>)
    ensures
        wizard_control_spec(answer) == Some(StepAction::Back) <==> normalized(answer)
            == ":back"@,
        wizard_control_spec(answer) == Some(StepAction::Cancel) <==> normalized(answer)
            == ":cancel"@,
        normalized(answer).len() == 0 || normalized(answer)[0] != ':' ==> wizard_control_spec(
            answer,
        ) is None,
        !(wizard_control_spec(answer) matches Some(StepAction::Select(_))),
{
    crate::prompt::lemma_answer_words();
    let a = normalized(answer);
    assert((":back"@)[1] == 'b' && (":cancel"@)[1] == 'c');
    if a == ":back"@ {
        assert(a[1] == 'b');
    }
}

/// Where a menu highlight moves on a key press: down (or Tab) to the next row
/// and up (or Shift-Tab) to the previous, both wrapping around.
pub open spec fn navigate_spec(key: KeyPress, selected: usize, count: usize) -> Option<usize> {
    match key {
        KeyPress::ArrowDown | KeyPress::Tab => Some(((selected + 1) % (count as int)) as usize),
        KeyPress::ArrowUp | KeyPress::BackTab => Some(
            ((selected + count - 1) % (count as int)) as usize,
        ),
        _ => None,
    }
}

/// Where a menu highlight moves on a key press, if the key moves it.
pub fn navigate(key: KeyPress, selected: usize, count: usize) -> (r: Option<usize>)
    requires
        0 < count,
        selected < count,
        selected + count <= usize::MAX,
    ensures
        r == navigate_spec(key, selected, count),
        r matches Some(s) ==> s < count,
{
    match key {
        KeyPress::ArrowDown | KeyPress::Tab => Some((selected + 1) % count),
        KeyPress::ArrowUp | KeyPress::BackTab => Some((selected + count - 1) % count),
        _ => None,
    }
}

/// Arrow keys move the highlight by one row: Up (like Shift-Tab) to the row
/// above, from the first row round to the last; Down (like Tab) to the row
/// below, from the last row round to the first. Up undoes Down and Down undoes
/// Up. No other key moves it.
pub proof fn lemma_navigate_moves_by_one(key: KeyPress, selected: usize, count: usize)
    requires
        0 < count,
        selected < count,
    ensures
        navigate_spec(KeyPress::ArrowUp, selected, count) == Some(
            if selected == 0 {
                (count - 1) as usize
            } else {
                (selected - 1) as usize
            },
        ),
        navigate_spec(KeyPress::ArrowDown, selected, count) == Some(
            if selected + 1 == count {
                0usize
            } else {
                (selected + 1) as usize
            },
        ),
        navigate_spec(KeyPress::BackTab, selected, count) == navigate_spec(
            KeyPress::ArrowUp,
            selected,
            count,
        ),
        navigate_spec(KeyPress::Tab, selected, count) == navigate_spec(
            KeyPress::ArrowDown,
            selected,
            count,
        ),
        navigate_spec(KeyPress::ArrowUp, selected, count) matches Some(up) ==> navigate_spec(
            KeyPress::ArrowDown,
            up,
            count,
        ) == Some(selected),
        navigate_spec(KeyPress::ArrowDown, selected, count) matches Some(down) ==> navigate_spec(
            KeyPress::ArrowUp,
            down,
            count,
        ) == Some(selected),
        key != KeyPress::ArrowUp && key != KeyPress::ArrowDown && key != KeyPress::Tab && key
            != KeyPress::BackTab ==> navigate_spec(key, selected, count) is None,
{
    let c = count as int;
    let s = selected as int;
    if s == 0 {
        vstd::arithmetic::div_mod::lemma_small_mod((c - 1) as nat, c as nat);
    } else {
        vstd::arithmetic::div_mod::lemma_mod_add_multiples_vanish(s - 1, c);
        vstd::arithmetic::div_mod::lemma_small_mod((s - 1) as nat, c as nat);
    }
    if s + 1 == c {
        vstd::arithmetic::div_mod::lemma_mod_self_0(c);
    } else {
        vstd::arithmetic::div_mod::lemma_small_mod((s + 1) as nat, c as nat);
    }
    let up: int = if s == 0 {
        c - 1
    } else {
        s - 1
    };
    let down: int = if s + 1 == c {
        0
    } else {
        s + 1
    };
    if up + 1 == c {
        vstd::arithmetic::div_mod::lemma_mod_self_0(c);
    } else {
        vstd::arithmetic::div_mod::lemma_small_mod((up + 1) as nat, c as nat);
    }
    if down == 0 {
        vstd::arithmetic::div_mod::lemma_small_mod((c - 1) as nat, c as nat);
    } else {
        vstd::arithmetic::div_mod::lemma_mod_add_multiples_vanish(down - 1, c);
        vstd::arithmetic::div_mod::lemma_small_mod((down - 1) as nat, c as nat);
    }
}

/// The row highlighted first: the wanted one, or the last row if the wanted
/// one is past the end.
pub fn initial_selection(wanted: usize, count: usize) -> (r: usize)
    requires
        0 < count,
    ensures
        r == (if wanted < count {
            wanted
        } else {
            (count - 1) as usize
        }),
{
    if wanted < count {
        wanted
    } else {
        count - 1
    }
}

/// The prompt of the wizard's output step.
pub const ENCRYPT_CIPHERTEXT_PROMPT: &'static str = "Ciphertext file";

/// Where the plaintext of the encryption wizard comes from.
#[derive(Clone, Copy, Debug, PartialEq, Eq, Structural)]
pub enum EncryptSource {
    Text,
    File,
    Stdin,
}

/// The input chosen in the encryption wizard. `file` is the path typed in.
pub struct EncryptWizardInput {
    pub source: EncryptSource,
    pub text: Option<String>,
    pub file: Option<String>,
    pub size: usize,
}

/// How an input source is described.
pub open spec fn source_description_spec(source: EncryptSource) -> Seq<char> {
    match source {
        EncryptSource::Text => "Text input"@,
        EncryptSource::File => "File input"@,
        EncryptSource::Stdin => "Stdin input"@,
    }
}

/// How an input source is described.
pub fn source_description(source: EncryptSource) -> (r: &'static str)
    ensures
        r@ == source_description_spec(source),
{
    match source {
        EncryptSource::Text => "Text input",
        EncryptSource::File => "File input",
        EncryptSource::Stdin => "Stdin input",
    }
}

/// A size in bytes, as the screens show it.
pub open spec fn format_bytes_spec(bytes: usize) -> Seq<char> {
    decimal_spec(bytes as nat) + " bytes"@
}

/// A size in bytes, as the screens show it.
pub fn format_bytes(bytes: usize) -> (r: String)
    ensures
        r@ == format_bytes_spec(bytes),
{
    let mut r = usize_to_string(bytes);
    r.append(" bytes");
    r
}

/// The output stem a ciphertext answer names: blank for the default, a path
/// ending in `.otp` (in any case) without that extension, else the answer.
pub open spec fn output_stem_answer_spec(answer: Seq<char>) -> Option<Seq<char>> {
    let a = trim_spec(answer);
    if a.len() == 0 {
        None
    } else if path_extension_spec(a) matches Some(e) && ascii_lower_seq(e) == "otp"@ {
        Some(path_with_extension_spec(a, ""@))
    } else {
        Some(a)
    }
}

/// The output stem a ciphertext answer names, if any.
pub fn encrypt_output_stem_from_ciphertext_answer(answer: &str) -> (r: Option<String>)
    ensures
        match output_stem_answer_spec(answer@) {
            Some(stem) => r matches Some(got) && got@ == stem,
            None => r is None,
        },
{
    let a = str_trim(answer);
    if char_count(a) == 0 {
        return None;
    }
    match path_extension(a) {
        Some(e) => {
            let lower = str_to_ascii_lowercase(e.as_str());
            if str_eq(lower.as_str(), "otp") {
                proof {
                    reveal_strlit("");
                }
                return Some(path_with_extension(a, ""));
            }
        },
        None => {},
    }
    Some(string_of(a))
}

/// The view of an optional string slice.
pub open spec fn opt_view(s: Option<&str>) -> Option<Seq<char>> {
    match s {
        Some(t) => Some(t@),
        None => None,
    }
}

/// The view of an optional string.
pub open spec fn opt_string_view(s: Option<String>) -> Option<Seq<char>> {
    match s {
        Some(t) => Some(t@),
        None => None,
    }
}

/// The ciphertext path the wizard names is the first file the encryption
/// plans to write for the same input and output stem, and the key file it
/// names in its output step is the second.
pub proof fn lemma_ciphertext_path_planned(
    file: Option<Seq<char>>,
    output_stem: Option<Seq<char>>,
    hash: bool,
)
    ensures
        ciphertext_path_spec(file, output_stem) == crate::key::planned_paths_spec(
            encrypt_stem_spec(input_file_name(file), output_stem),
            hash,
        )[0],
        encrypt_stem_spec(input_file_name(file), None) + ".otp.key"@
            == crate::key::planned_paths_spec(encrypt_stem_spec(input_file_name(file), None), hash)[1],
{
}

/// The ciphertext path an encryption of `file` with the output stem writes.
pub open spec fn ciphertext_path_spec(file: Option<Seq<char>>, output_stem: Option<Seq<char>>) -> Seq<
    char,
> {
    encrypt_stem_spec(input_file_name(file), output_stem) + ".otp"@
}

/// The ciphertext path an encryption of `file` with the output stem writes.
pub fn encrypt_ciphertext_path(file: Option<&str>, output_stem: Option<&str>) -> (r: String)
    ensures
        r@ == ciphertext_path_spec(opt_view(file), opt_view(output_stem)),
{
    let stem = encrypt_stem(file, output_stem);
    let paths = planned_encrypt_paths(stem.as_str(), false);
    let r = paths[0].clone();
    r
}

/// The lines of the wizard's output step.
pub open spec fn encrypt_output_prompt_spec(
    source: EncryptSource,
    size: usize,
    file: Option<Seq<char>>,
    plain: bool,
) -> Seq<Seq<char>> {
    let stem = encrypt_stem_spec(input_file_name(file), None);
    let cipher = stem + ".otp"@;
    let key = stem + ".otp.key"@;
    seq![styled(ansi::BOLD@, "Choose output"@, plain), Seq::empty()] + field_lines_spec(
        seq![
            ("Input"@, source_description_spec(source)),
            ("Size"@, format_bytes_spec(size)),
            ("Ciphertext"@, cipher),
            ("Key file"@, key),
        ],
        plain,
    ) + seq![
        Seq::empty(),
        styled(
            ansi::DIM_WHITE@,
            "Leave blank for "@ + cipher + ". Type :back to go back, or :cancel to cancel."@,
            plain,
        ),
        Seq::empty(),
    ]
}

/// The lines of the wizard's output step: the input, its size and the files
/// that will be written by default.
pub fn encrypt_output_prompt_lines(input: &EncryptWizardInput, plain: bool) -> (lines: Vec<String>)
    ensures
        string_views(lines@) == encrypt_output_prompt_spec(
            input.source,
            input.size,
            opt_string_view(input.file),
            plain,
        ),
{
    let file: Option<&str> = match &input.file {
        Some(f) => Some(f.as_str()),
        None => None,
    };
    let stem = encrypt_stem(file, None);
    let paths = planned_encrypt_paths(stem.as_str(), false);
    let default_ciphertext = paths[0].clone();
    let default_key = paths[1].clone();
    let mut lines: Vec<String> = Vec::new();
    lines.push(color(ansi::BOLD, "Choose output", plain));
    lines.push(String::new());
    let fields = vec![
        Field { label: "Input", value: string_of(source_description(input.source)) },
        Field { label: "Size", value: format_bytes(input.size) },
        Field { label: "Ciphertext", value: default_ciphertext.clone() },
        Field { label: "Key file", value: default_key },
    ];
    let mut body = field_lines(fields.as_slice(), plain);
    proof {
        assert(field_pairs(fields@) =~= seq![
            ("Input"@, source_description_spec(input.source)),
            ("Size"@, format_bytes_spec(input.size)),
            ("Ciphertext"@, default_ciphertext@),
            ("Key file"@, default_key@),
        ]);
    }
    let ghost head = lines@;
    lines.append(&mut body);
    let mut hint = string_of("Leave blank for ");
    hint.append(default_ciphertext.as_str());
    hint.append(". Type :back to go back, or :cancel to cancel.");
    let ghost middle = lines@;
    lines.push(String::new());
    lines.push(color(ansi::DIM_WHITE, hint.as_str(), plain));
    lines.push(String::new());
    proof {
        assert(string_views(middle) =~= string_views(head) + string_views(middle.subrange(
            head.len() as int,
            middle.len() as int,
        )));
        assert(string_views(lines@) =~= encrypt_output_prompt_spec(
            input.source,
            input.size,
            opt_string_view(input.file),
            plain,
        ));
    }
    lines
}

/// The header of the encryption wizard at `step` of four.
pub open spec fn encrypt_header_spec(step: usize, plain: bool) -> Seq<Seq<char>> {
    header_lines_spec(
        "coldpad secure / encrypt"@,
        status_text_spec(WorkflowStatus::Step(step, 4)),
        WORKFLOW_WIDTH as nat,
        plain,
    )
}

/// The header of the encryption wizard at `step` of four.
pub fn encrypt_header_lines(step: usize, plain: bool) -> (lines: Vec<String>)
    ensures
        string_views(lines@) == encrypt_header_spec(step, plain),
{
    workflow_header_lines("coldpad secure / encrypt", WorkflowStatus::Step(step, 4), WORKFLOW_WIDTH, plain)
}

/// The label of the input step: what the input is once its source is chosen.
pub open spec fn input_label_spec(step: usize, source: Option<EncryptSource>) -> Seq<char> {
    if step == 2 && source == Some(EncryptSource::Text) {
        "Plaintext"@
    } else if step == 2 && source == Some(EncryptSource::File) {
        "File"@
    } else if step == 2 && source == Some(EncryptSource::Stdin) {
        "Stdin"@
    } else {
        "Input"@
    }
}

/// The state of progress entry `i` at wizard step `step`.
pub open spec fn progress_state_spec(step: usize, i: int) -> ProgressState {
    if i == 0 {
        if step == 1 {
            ProgressState::Active
        } else {
            ProgressState::Done
        }
    } else if i == 1 {
        if step == 1 {
            ProgressState::Pending
        } else if step == 2 {
            ProgressState::Active
        } else {
            ProgressState::Done
        }
    } else if i == 2 {
        if step == 1 || step == 2 {
            ProgressState::Pending
        } else if step == 3 {
            ProgressState::Active
        } else {
            ProgressState::Done
        }
    } else {
        if step == 4 {
            ProgressState::Active
        } else {
            ProgressState::Pending
        }
    }
}

/// At each of the wizard's four steps the progress line shows the steps
/// before it as done, the step itself as active and the steps after it as
/// pending.
pub proof fn lemma_progress_states(step: usize, i: int)
    requires
        1 <= step <= 4,
        0 <= i < 4,
    ensures
        progress_state_spec(step, i) == ProgressState::Done <==> i + 1 < step,
        progress_state_spec(step, i) == ProgressState::Active <==> i + 1 == step,
        progress_state_spec(step, i) == ProgressState::Pending <==> i + 1 > step,
{
}

/// The label of progress entry `i`.
pub open spec fn progress_label_spec(step: usize, source: Option<EncryptSource>, i: int) -> Seq<char> {
    if i == 0 {
        "Source"@
    } else if i == 1 {
        input_label_spec(step, source)
    } else if i == 2 {
        "Output"@
    } else {
        "Confirm"@
    }
}

/// The four steps of the encryption wizard as progress entries.
pub fn encrypt_progress_items(step: usize, source: Option<EncryptSource>) -> (items: [ProgressItem<
    'static,
>; 4])
    ensures
        forall|i: int|
            0 <= i < 4 ==> (#[trigger] items@[i]).label@ == progress_label_spec(step, source, i)
                && items@[i].state == progress_state_spec(step, i),
{
    let input_label = if step == 2 {
        match source {
            Some(EncryptSource::Text) => "Plaintext",
            Some(EncryptSource::File) => "File",
            Some(EncryptSource::Stdin) => "Stdin",
            None => "Input",
        }
    } else {
        "Input"
    };
    let first = if step == 1 {
        ProgressState::Active
    } else {
        ProgressState::Done
    };
    let second = if step == 1 {
        ProgressState::Pending
    } else if step == 2 {
        ProgressState::Active
    } else {
        ProgressState::Done
    };
    let third = if step == 1 || step == 2 {
        ProgressState::Pending
    } else if step == 3 {
        ProgressState::Active
    } else {
        ProgressState::Done
    };
    let fourth = if step == 4 {
        ProgressState::Active
    } else {
        ProgressState::Pending
    };
    let items = [
        ProgressItem { label: "Source", state: first },
        ProgressItem { label: input_label, state: second },
        ProgressItem { label: "Output", state: third },
        ProgressItem { label: "Confirm", state: fourth },
    ];
    assert(items@[0].label@ == progress_label_spec(step, source, 0));
    assert(items@[1].label@ == progress_label_spec(step, source, 1));
    assert(items@[2].label@ == progress_label_spec(step, source, 2));
    assert(items@[3].label@ == progress_label_spec(step, source, 3));
    items
}

/// The progress line of the encryption wizard and a blank line.
pub fn encrypt_progress_lines(step: usize, source: Option<EncryptSource>, plain: bool) -> (lines: Vec<
    String,
>)
    ensures
        lines@.len() == 2,
        lines@[1]@ == Seq::<char>::empty(),
        exists|items: Seq<ProgressItem>|
            items.len() == 4 && (forall|i: int|
                0 <= i < 4 ==> (#[trigger] items[i]).label@ == progress_label_spec(step, source, i)
                    && items[i].state == progress_state_spec(step, i)) && lines@[0]@ == join_spec(
                progress_entries(items, plain),
                "   "@,
            ),
{
    let items = encrypt_progress_items(step, source);
    let line = progress_line(&items, plain);
    let mut lines: Vec<String> = Vec::new();
    lines.push(line);
    lines.push(String::new());
    lines
}

/// The header of step `step` of `total` of a guided workflow.
pub open spec fn step_header_spec(workflow: Seq<char>, step: usize, total: usize, width: usize, plain: bool) -> Seq<
    Seq<char>,
> {
    header_lines_spec(
        "coldpad secure / "@ + workflow,
        status_text_spec(WorkflowStatus::Step(step, total)),
        width as nat,
        plain,
    )
}

/// The header of step `step` of `total` of a guided workflow.
pub fn step_header_lines(workflow: &str, step: usize, total: usize, width: usize, plain: bool) -> (lines:
    Vec<String>)
    ensures
        string_views(lines@) == step_header_spec(workflow@, step, total, width, plain),
{
    let mut path = string_of("coldpad secure / ");
    path.append(workflow);
    workflow_header_lines(path.as_str(), WorkflowStatus::Step(step, total), width, plain)
}

/// The start of a menu row: the highlight marker, the key right-aligned to
/// two characters and the title left-aligned to eighteen.
pub open spec fn menu_row_head(selected: bool, key: Seq<char>, title: Seq<char>, plain: bool) -> Seq<char> {
    let marker = if selected {
        styled(ansi::BOLD_GREEN@, ">"@, plain)
    } else {
        " "@
    };
    "  "@ + marker + "  "@ + styled(ansi::BOLD_YELLOW@, pad_left_spec(key, 2), plain) + "   "@ + styled(
        ansi::BOLD@,
        pad_right_spec(title, 18),
        plain,
    ) + " "@
}

fn menu_row_start(selected: bool, key: &str, title: &str, plain: bool) -> (r: String)
    ensures
        r@ == menu_row_head(selected, key@, title@, plain),
{
    let marker = if selected {
        color(ansi::BOLD_GREEN, ">", plain)
    } else {
        string_of(" ")
    };
    let k = pad_left(key, 2);
    let ks = color(ansi::BOLD_YELLOW, k.as_str(), plain);
    let t = pad_right(title, 18);
    let ts = color(ansi::BOLD, t.as_str(), plain);
    let mut r = string_of("  ");
    r.append(marker.as_str());
    r.append("  ");
    r.append(ks.as_str());
    r.append("   ");
    r.append(ts.as_str());
    r.append(" ");
    r
}

/// A row of a step menu.
pub open spec fn step_row_spec(
    selected: bool,
    key: Seq<char>,
    title: Seq<char>,
    description: Seq<char>,
    plain: bool,
) -> Seq<char> {
    menu_row_head(selected, key, title, plain) + styled(ansi::DIM_WHITE@, description, plain)
}

/// A row of a step menu.
pub fn step_menu_row(selected: bool, key: &str, title: &str, description: &str, plain: bool) -> (r: String)
    ensures
        r@ == step_row_spec(selected, key@, title@, description@, plain),
{
    let mut r = menu_row_start(selected, key, title, plain);
    let d = color(ansi::DIM_WHITE, description, plain);
    r.append(d.as_str());
    r
}

/// A row of the main menu: the description padded to twenty-eight and, where
/// the entry says what it produces, an arrow and that.
pub open spec fn item_row_spec(
    selected: bool,
    key: Seq<char>,
    title: Seq<char>,
    middle: Seq<char>,
    right: Seq<char>,
    plain: bool,
) -> Seq<char> {
    let head = menu_row_head(selected, key, title, plain) + styled(
        ansi::DIM_WHITE@,
        pad_right_spec(middle, 28),
        plain,
    );
    if right.len() == 0 {
        head
    } else {
        head + " "@ + styled(ansi::DIM_WHITE@, "\u{2192}"@, plain) + "   "@ + styled(
            ansi::DIM_WHITE@,
            right,
            plain,
        )
    }
}

/// The row of the main menu's entry `i`.
pub open spec fn workflow_row_spec(selected: bool, i: int, plain: bool) -> Seq<char> {
    item_row_spec(
        selected,
        workflow_key_spec(i),
        workflow_title_spec(i),
        workflow_middle_spec(i),
        workflow_right_spec(i),
        plain,
    )
}

/// A row of the main menu.
pub fn workflow_menu_row(selected: bool, item: &WorkflowItem, plain: bool) -> (r: String)
    ensures
        r@ == item_row_spec(selected, item.key@, item.title@, item.middle@, item.right@, plain),
{
    let mut r = menu_row_start(selected, item.key, item.title, plain);
    let m = pad_right(item.middle, 28);
    let ms = color(ansi::DIM_WHITE, m.as_str(), plain);
    r.append(ms.as_str());
    if char_count(item.right) != 0 {
        let arrow = color(ansi::DIM_WHITE, "\u{2192}", plain);
        let right = color(ansi::DIM_WHITE, item.right, plain);
        r.append(" ");
        r.append(arrow.as_str());
        r.append("   ");
        r.append(right.as_str());
    }
    r
}

/// The rows of the main menu up to entry `n`, with blank lines before the
/// fourth entry and before the last.
pub open spec fn workflow_menu_body(selected: usize, plain: bool, n: nat) -> Seq<Seq<char>>
    decreases n,
{
    if n == 0 {
        Seq::empty()
    } else {
        let i = n - 1;
        workflow_menu_body(selected, plain, (n - 1) as nat) + (if i == 3 || i == 6 {
            seq![Seq::<char>::empty()]
        } else {
            Seq::<Seq<char>>::empty()
        }) + seq![workflow_row_spec(i == selected, i, plain)]
    }
}

/// The main menu of the guided mode: a header with the version, then the
/// entries with the highlighted one marked.
pub open spec fn workflow_menu_spec(selected: usize, width: usize, version: Seq<char>, plain: bool) -> Seq<
    Seq<char>,
> {
    header_lines_spec("coldpad secure"@, "v"@ + version, width as nat, plain) + workflow_menu_body(
        selected,
        plain,
        WORKFLOW_COUNT as nat,
    )
}

/// Whether a menu row carries the highlight marker `>` in its marker column.
pub open spec fn menu_marked(row: Seq<char>) -> bool {
    row.len() > 2 && row[2] == '>'
}

/// Without colour, a menu row carries the highlight marker exactly when it
/// is highlighted, in the main menu and in the step menus alike.
pub proof fn lemma_menu_marker(
    selected: bool,
    key: Seq<char>,
    title: Seq<char>,
    middle: Seq<char>,
    right: Seq<char>,
    description: Seq<char>,
)
    ensures
        menu_marked(item_row_spec(selected, key, title, middle, right, true)) <==> selected,
        menu_marked(step_row_spec(selected, key, title, description, true)) <==> selected,
{
    reveal_strlit("  ");
    reveal_strlit(">");
    reveal_strlit(" ");
    let head = menu_row_head(selected, key, title, true);
    let marker: Seq<char> = if selected {
        ">"@
    } else {
        " "@
    };
    assert(("  "@).len() == 2 && (">"@)[0] == '>' && (" "@)[0] == ' ');
    assert(head[2] == marker[0]);
    let row = item_row_spec(selected, key, title, middle, right, true);
    assert(row[2] == head[2]);
    let srow = step_row_spec(selected, key, title, description, true);
    assert(srow[2] == head[2]);
}

/// Where the row of main-menu entry `i` stands in the menu's body: blank
/// lines come before the fourth and the seventh entry.
pub open spec fn workflow_row_index(i: int) -> int {
    i + (if i >= 3 {
        1int
    } else {
        0int
    }) + (if i >= 6 {
        1int
    } else {
        0int
    })
}

proof fn lemma_workflow_menu_body(selected: usize, plain: bool, n: nat, i: int)
    requires
        0 <= i < n <= WORKFLOW_COUNT,
    ensures
        workflow_menu_body(selected, plain, n).len() == workflow_row_index(n - 1) + 1,
        workflow_menu_body(selected, plain, n)[workflow_row_index(i)] == workflow_row_spec(
            i == selected,
            i,
            plain,
        ),
    decreases n,
{
    if i < n - 1 {
        lemma_workflow_menu_body(selected, plain, (n - 1) as nat, i);
    } else if n > 1 {
        lemma_workflow_menu_body(selected, plain, (n - 1) as nat, 0);
    } else {
        assert(workflow_menu_body(selected, plain, 0).len() == 0);
    }
}

/// The main menu lists its entries in order, each in its own row, and
/// without colour exactly the highlighted entry's row carries the marker.
pub proof fn lemma_workflow_menu_marks(selected: usize, i: int)
    requires
        0 <= i < WORKFLOW_COUNT,
    ensures
        workflow_menu_body(selected, true, WORKFLOW_COUNT as nat)[workflow_row_index(i)]
            == workflow_row_spec(i == selected, i, true),
        menu_marked(workflow_menu_body(selected, true, WORKFLOW_COUNT as nat)[workflow_row_index(i)])
            <==> i == selected,
{
    lemma_workflow_menu_body(selected, true, WORKFLOW_COUNT as nat, i);
    lemma_menu_marker(
        i == selected,
        workflow_key_spec(i),
        workflow_title_spec(i),
        workflow_middle_spec(i),
        workflow_right_spec(i),
        Seq::empty(),
    );
}

/// The main menu of the guided mode. `version` is the tool's version.
pub fn workflow_menu_lines(selected: usize, width: usize, version: &str, plain: bool) -> (lines: Vec<String>)
    ensures
        string_views(lines@) == workflow_menu_spec(selected, width, version@, plain),
{
    let mut label = string_of("v");
    label.append(version);
    let mut lines = workflow_header_lines("coldpad secure", WorkflowStatus::Label(label.as_str()), width, plain);
    let ghost header = string_views(lines@);
    let items = workflow_items();
    let mut i: usize = 0;
    while i < WORKFLOW_COUNT
        invariant
            i <= WORKFLOW_COUNT,
            items@.len() == WORKFLOW_COUNT,
            forall|j: int|
                0 <= j < WORKFLOW_COUNT ==> (#[trigger] items@[j]).key@ == workflow_key_spec(j)
                    && items@[j].title@ == workflow_title_spec(j) && items@[j].middle@
                    == workflow_middle_spec(j) && items@[j].right@ == workflow_right_spec(j),
            string_views(lines@) =~= header + workflow_menu_body(selected, plain, i as nat),
        decreases WORKFLOW_COUNT - i,
    {
        let ghost before = lines@;
        if i == 3 || i == 6 {
            let blank = String::new();
            proof {
                lemma_views_push(before, blank);
            }
            lines.push(blank);
        }
        let ghost mid = lines@;
        let row = workflow_menu_row(i == selected, &items[i], plain);
        let ghost row_view = row@;
        lines.push(row);
        proof {
            lemma_views_push(mid, row);
            assert(string_views(mid) =~= string_views(before) + (if i == 3 || i == 6 {
                seq![Seq::<char>::empty()]
            } else {
                Seq::<Seq<char>>::empty()
            }));
            assert(string_views(lines@) =~= header + workflow_menu_body(selected, plain, (i + 1) as nat));
        }
        i = i + 1;
    }
    lines
}

/// What a step menu shows.
pub struct StepMenuView<'a> {
    pub workflow: &'a str,
    pub step: usize,
    pub total: usize,
    pub heading: &'a str,
    pub items: &'a [StepMenuItem<'a>],
    pub back: bool,
}

/// The entry rows of a step menu.
pub open spec fn step_rows_spec(items: Seq<StepMenuItem>, selected: usize, plain: bool) -> Seq<Seq<char>> {
    Seq::new(
        items.len(),
        |i: int| step_row_spec(i == selected, items[i].key@, items[i].title@, items[i].description@, plain),
    )
}

/// A step menu: the header, the heading, the entries, then Back where
/// offered and Cancel.
pub open spec fn step_menu_spec(
    workflow: Seq<char>,
    step: usize,
    total: usize,
    heading: Seq<char>,
    items: Seq<StepMenuItem>,
    back: bool,
    selected: usize,
    width: usize,
    plain: bool,
) -> Seq<Seq<char>> {
    let control = items.len() + (if back {
        1int
    } else {
        0int
    });
    step_header_spec(workflow, step, total, width, plain) + seq![styled(ansi::BOLD@, heading, plain), Seq::empty()]
        + step_rows_spec(items, selected, plain) + seq![Seq::<char>::empty()] + (if back {
        seq![step_row_spec(selected == items.len(), "b"@, "Back"@, "Return to main menu"@, plain)]
    } else {
        Seq::<Seq<char>>::empty()
    }) + seq![step_row_spec(selected == control, "q"@, "Cancel"@, "Exit without changes"@, plain)]
}

/// Without colour, a step menu marks exactly the highlighted row: entry `i`
/// when `i` is highlighted, and the Cancel row, the last line, when the row
/// after the entries and Back is; that is the row on which Enter cancels.
pub proof fn lemma_step_menu_marks(
    workflow: Seq<char>,
    step: usize,
    total: usize,
    heading: Seq<char>,
    items: Seq<StepMenuItem>,
    back: bool,
    selected: usize,
    width: usize,
    i: int,
)
    ensures
        0 <= i < items.len() ==> (menu_marked(step_rows_spec(items, selected, true)[i]) <==> i
            == selected),
        menu_marked(
            step_menu_spec(workflow, step, total, heading, items, back, selected, width, true).last(),
        ) <==> selected == items.len() + (if back {
            1int
        } else {
            0int
        }),
        menu_marked(
            step_menu_spec(workflow, step, total, heading, items, back, selected, width, true).last(),
        ) ==> step_selected_spec(selected, items.len(), back) == StepAction::Cancel,
{
    if 0 <= i < items.len() {
        lemma_menu_marker(
            i == selected,
            items[i].key@,
            items[i].title@,
            Seq::empty(),
            Seq::empty(),
            items[i].description@,
        );
    }
    let control = items.len() + (if back {
        1int
    } else {
        0int
    });
    lemma_menu_marker(
        selected == control,
        "q"@,
        "Cancel"@,
        Seq::empty(),
        Seq::empty(),
        "Exit without changes"@,
    );
}

/// A step menu with the row `selected` highlighted.
pub fn step_menu_lines(view: &StepMenuView, selected: usize, width: usize, plain: bool) -> (lines: Vec<String>)
    requires
        view.items@.len() + 1 <= usize::MAX,
    ensures
        string_views(lines@) == step_menu_spec(
            view.workflow@,
            view.step,
            view.total,
            view.heading@,
            view.items@,
            view.back,
            selected,
            width,
            plain,
        ),
{
    let mut lines = step_header_lines(view.workflow, view.step, view.total, width, plain);
    lines.push(color(ansi::BOLD, view.heading, plain));
    lines.push(String::new());
    let ghost head = string_views(lines@);
    let items = view.items;
    let mut i: usize = 0;
    while i < items.len()
        invariant
            i <= items@.len(),
            items == view.items,
            string_views(lines@) =~= head + step_rows_spec(items@, selected, plain).take(i as int),
        decreases items@.len() - i,
    {
        let row = step_menu_row(i == selected, items[i].key, items[i].title, items[i].description, plain);
        let ghost before = lines@;
        lines.push(row);
        proof {
            lemma_views_push(before, row);
            assert(step_rows_spec(items@, selected, plain).take(i + 1) =~= step_rows_spec(
                items@,
                selected,
                plain,
            ).take(i as int).push(row@));
        }
        i = i + 1;
    }
    assert(step_rows_spec(items@, selected, plain).take(items@.len() as int) =~= step_rows_spec(
        items@,
        selected,
        plain,
    ));
    broadcast use lemma_views_push;

    lines.push(String::new());
    let mut control = items.len();
    if view.back {
        lines.push(step_menu_row(selected == control, "b", "Back", "Return to main menu", plain));
        control = control + 1;
    }
    lines.push(step_menu_row(selected == control, "q", "Cancel", "Exit without changes", plain));
    assert(string_views(lines@) =~= step_menu_spec(
        view.workflow@,
        view.step,
        view.total,
        view.heading@,
        view.items@,
        view.back,
        selected,
        width,
        plain,
    ));
    lines
}

/// The entries of a step menu as choice rows.
pub open spec fn step_choice_rows(items: Seq<StepMenuItem>, selected: usize) -> Seq<ChoiceRow> {
    Seq::new(
        items.len(),
        |i: int|
            ChoiceRow {
                selected: i == selected,
                key: items[i].key,
                label: items[i].title,
                description: items[i].description,
            },
    )
}

/// The control rows under a step menu's entries: Back where offered, and
/// Cancel.
pub open spec fn control_choice_rows(count: nat, selected: usize, back: bool, back_description: &str) -> Seq<
    ChoiceRow,
> {
    let control = count + (if back {
        1int
    } else {
        0int
    });
    (if back {
        seq![
            ChoiceRow {
                selected: selected == count,
                key: "b",
                label: "Back",
                description: back_description,
            },
        ]
    } else {
        Seq::empty()
    }) + seq![
        ChoiceRow {
            selected: selected == control,
            key: "q",
            label: "Cancel",
            description: "Exit without changes",
        },
    ]
}

/// The lines of a step menu's choices: the entries, a blank line, the
/// controls and a blank line.
pub open spec fn step_choice_spec(
    items: Seq<StepMenuItem>,
    selected: usize,
    back: bool,
    back_description: &str,
    plain: bool,
) -> Seq<Seq<char>> {
    choice_lines_spec(step_choice_rows(items, selected), plain) + seq![Seq::<char>::empty()]
        + choice_lines_spec(control_choice_rows(items.len(), selected, back, back_description), plain)
        + seq![Seq::<char>::empty()]
}

/// The choice list of a step menu marks, without colour, the row of entry
/// `i` exactly when `i` is the selected row, the row Enter picks.
pub proof fn lemma_step_choice_marks(
    items: Seq<StepMenuItem>,
    selected: usize,
    back: bool,
    back_description: &str,
    i: int,
)
    requires
        0 <= i < items.len(),
    ensures
        step_choice_spec(items, selected, back, back_description, true)[i].len() > 2,
        step_choice_spec(items, selected, back, back_description, true)[i][2] == '>' <==> i
            == selected,
        i == selected ==> step_selected_spec(selected, items.len(), back) == StepAction::Select(
            i as usize,
        ),
{
    let rows = step_choice_rows(items, selected);
    lemma_choice_marks(rows, i);
    assert(step_choice_spec(items, selected, back, back_description, true)[i] == choice_lines_spec(
        rows,
        true,
    )[i]);
}

/// The lines of a step menu's choices with the row `selected` highlighted.
pub fn step_choice_lines(
    items: &[StepMenuItem],
    selected: usize,
    back: bool,
    back_description: &'static str,
    plain: bool,
) -> (lines: Vec<String>)
    requires
        items@.len() + 1 <= usize::MAX,
    ensures
        string_views(lines@) == step_choice_spec(items@, selected, back, back_description, plain),
{
    let mut rows: Vec<ChoiceRow> = Vec::new();
    let mut i: usize = 0;
    while i < items.len()
        invariant
            i <= items@.len(),
            rows@ =~= step_choice_rows(items@, selected).take(i as int),
        decreases items@.len() - i,
    {
        rows.push(
            ChoiceRow {
                selected: i == selected,
                key: items[i].key,
                label: items[i].title,
                description: items[i].description,
            },
        );
        i = i + 1;
    }
    assert(step_choice_rows(items@, selected).take(items@.len() as int) =~= step_choice_rows(
        items@,
        selected,
    ));
    let mut lines = choice_row_lines(rows.as_slice(), plain);
    lines.push(String::new());
    let mut controls: Vec<ChoiceRow> = Vec::new();
    let mut control = items.len();
    if back {
        controls.push(
            ChoiceRow { selected: selected == control, key: "b", label: "Back", description: back_description },
        );
        control = control + 1;
    }
    controls.push(
        ChoiceRow {
            selected: selected == control,
            key: "q",
            label: "Cancel",
            description: "Exit without changes",
        },
    );
    assert(controls@ =~= control_choice_rows(items@.len(), selected, back, back_description));
    let ghost before = string_views(lines@);
    let mut tail = choice_row_lines(controls.as_slice(), plain);
    lines.append(&mut tail);
    lines.push(String::new());
    assert(string_views(lines@) =~= step_choice_spec(items@, selected, back, back_description, plain));
    lines
}

/// What the encryption wizard does after a step.
#[derive(Clone, Copy, Debug, PartialEq, Eq, Structural)]
pub enum WizardNext {
    /// Show this step.
    Step(usize),
    /// Write the files.
    Write,
    /// Leave the wizard.
    Exit(FlowExit),
}

/// The encryption wizard's moves: an answer moves one step on, Back one
/// step back (out to the main menu from the first), Cancel leaves, and at
/// the last step the files are written only if the answer is yes. The value
/// of an answer matters only at the last step.
pub open spec fn encrypt_wizard_next_spec(step: usize, outcome: StepValue<bool>) -> WizardNext {
    match outcome {
        StepValue::Cancel => WizardNext::Exit(FlowExit::Cancel),
        StepValue::Back => if step <= 1 {
            WizardNext::Exit(FlowExit::BackToMenu)
        } else if step >= 4 {
            WizardNext::Step(3)
        } else {
            WizardNext::Step((step - 1) as usize)
        },
        StepValue::Value(yes) => if step < 4 {
            WizardNext::Step((step + 1) as usize)
        } else if yes {
            WizardNext::Write
        } else {
            WizardNext::Exit(FlowExit::Cancel)
        },
    }
}

/// Where the encryption wizard goes from `step` after the step's outcome.
/// The steps are the source, the input, the output and the confirmation.
pub fn encrypt_wizard_next(step: usize, outcome: StepValue<bool>) -> (r: WizardNext)
    ensures
        r == encrypt_wizard_next_spec(step, outcome),
{
    match outcome {
        StepValue::Cancel => WizardNext::Exit(FlowExit::Cancel),
        StepValue::Back => {
            if step <= 1 {
                WizardNext::Exit(FlowExit::BackToMenu)
            } else if step >= 4 {
                WizardNext::Step(3)
            } else {
                WizardNext::Step(step - 1)
            }
        },
        StepValue::Value(yes) => {
            if step < 4 {
                WizardNext::Step(step + 1)
            } else if yes {
                WizardNext::Write
            } else {
                WizardNext::Exit(FlowExit::Cancel)
            }
        },
    }
}

/// From any of its four steps the encryption wizard moves to a neighbouring
/// step or leaves: it never skips a step, Cancel always leaves without
/// writing, and files are written only from the confirmation step after a
/// yes.
pub proof fn lemma_wizard_moves_by_one(step: usize, outcome: StepValue<bool>)
    requires
        1 <= step <= 4,
    ensures
        encrypt_wizard_next_spec(step, outcome) matches WizardNext::Step(s) ==> 1 <= s <= 4 && (s
            == step + 1 || s + 1 == step),
        outcome == StepValue::<bool>::Cancel ==> encrypt_wizard_next_spec(step, outcome)
            == WizardNext::Exit(FlowExit::Cancel),
        encrypt_wizard_next_spec(step, outcome) == WizardNext::Write <==> (step == 4 && outcome
            == StepValue::Value(true)),
{
}

/// Whether the main menu is shown again after a workflow ends: only where
/// the workflow went back to it.
pub fn shows_menu_again(exit: FlowExit) -> (r: bool)
    ensures
        r == (exit == FlowExit::BackToMenu),
{
    match exit {
        FlowExit::BackToMenu => true,
        FlowExit::Done | FlowExit::Cancel => false,
    }
}

/// How a confirmation before writing ends: yes goes on, no cancels, and
/// Back and Cancel leave as elsewhere.
pub fn confirmation_flow(value: StepValue<bool>) -> (r: Result<(), FlowExit>)
    ensures
        match value {
            StepValue::Value(true) => r == Ok::<(), FlowExit>(()),
            StepValue::Value(false) => r == Err::<(), FlowExit>(FlowExit::Cancel),
            StepValue::Back => r == Err::<(), FlowExit>(FlowExit::BackToMenu),
            StepValue::Cancel => r == Err::<(), FlowExit>(FlowExit::Cancel),
        },
{
    match value {
        StepValue::Value(true) => Ok(()),
        StepValue::Value(false) => Err(FlowExit::Cancel),
        StepValue::Back => Err(FlowExit::BackToMenu),
        StepValue::Cancel => Err(FlowExit::Cancel),
    }
}

/// The answer of a yes/no step menu: the first entry is yes.
pub fn yes_no_for_action(action: StepAction) -> (r: StepValue<bool>)
    ensures
        r == match action {
            StepAction::Select(i) => StepValue::Value(i == 0),
            StepAction::Back => StepValue::<bool>::Back,
            StepAction::Cancel => StepValue::<bool>::Cancel,
        },
{
    match action {
        StepAction::Select(i) => StepValue::Value(i == 0),
        StepAction::Back => StepValue::Back,
        StepAction::Cancel => StepValue::Cancel,
    }
}

/// What an answer of an encoding step menu stands for.
pub open spec fn encoding_action_spec(action: StepAction) -> StepValue<Encoding> {
    match action {
        StepAction::Select(i) => StepValue::Value(crate::prompt::encoding_row(i)),
        StepAction::Back => StepValue::<Encoding>::Back,
        StepAction::Cancel => StepValue::<Encoding>::Cancel,
    }
}

/// The encoding menus offer raw, Base64 and hex in that order, and the
/// guided step menu reads each row as the numbered list reads the same row;
/// Back and Cancel keep their meaning.
pub proof fn lemma_encoding_choices(i: usize)
    ensures
        crate::prompt::encoding_row(0) == Encoding::Raw,
        crate::prompt::encoding_row(1) == Encoding::Base64,
        crate::prompt::encoding_row(2) == Encoding::Hex,
        encoding_action_spec(StepAction::Select(i)) == StepValue::Value(
            crate::prompt::encoding_row(i),
        ),
        encoding_action_spec(StepAction::Back) == StepValue::<Encoding>::Back,
        encoding_action_spec(StepAction::Cancel) == StepValue::<Encoding>::Cancel,
{
}

/// The answer of an encoding step menu, whose entries are raw, Base64 and hex;
/// a row past them reads as hex.
pub fn encoding_for_action(action: StepAction) -> (r: StepValue<Encoding>)
    ensures
        r == encoding_action_spec(action),
{
    match action {
        StepAction::Select(i) => StepValue::Value(
            if i == 0 {
                Encoding::Raw
            } else if i == 1 {
                Encoding::Base64
            } else {
                Encoding::Hex
            },
        ),
        StepAction::Back => StepValue::Back,
        StepAction::Cancel => StepValue::Cancel,
    }
}

/// The input source an entry of the source menu picks: text, file, or
/// standard input for any later row.
pub fn source_for_selection(selected: usize) -> (r: EncryptSource)
    ensures
        r == (if selected == 0 {
            EncryptSource::Text
        } else if selected == 1 {
            EncryptSource::File
        } else {
            EncryptSource::Stdin
        }),
{
    if selected == 0 {
        EncryptSource::Text
    } else if selected == 1 {
        EncryptSource::File
    } else {
        EncryptSource::Stdin
    }
}

/// The heading of the scripted encryption's encoding step: the key is
/// written in the encoding too unless it is wrapped.
pub fn scripted_encoding_heading(wrap_key: bool) -> (r: &'static str)
    ensures
        r@ == (if wrap_key {
            "Choose ciphertext encoding"@
        } else {
            "Choose ciphertext and key encoding"@
        }),
{
    proof {
        reveal_strlit("Choose ciphertext encoding");
        reveal_strlit("Choose ciphertext and key encoding");
    }
    if wrap_key {
        "Choose ciphertext encoding"
    } else {
        "Choose ciphertext and key encoding"
    }
}

} // verus!
