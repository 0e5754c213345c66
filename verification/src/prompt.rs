//! How the line-by-line prompts read their answers.

use vstd::prelude::*;
use crate::cli::Encoding;
use crate::secure::{StepAction, StepMenuItem, StepValue, alias_named, first_step_match, normalized};
use crate::text::{
    ascii_lower_seq, char_count, decimal_spec, parse_usize, parse_usize_spec, str_eq, str_to_ascii_lowercase,
    str_trim, str_trim_end_char, string_of, trim_end_char_spec, trim_spec,
};

verus! {

/// The label a prompt shows in a dialog: the prompt trimmed, without trailing
/// colons, trimmed again.
pub open spec fn prompt_label_spec(prompt: Seq<char>) -> Seq<char> {
    trim_spec(trim_end_char_spec(trim_spec(prompt), ':'))
}

/// The label a prompt shows in a dialog.
pub fn prompt_label(prompt: &str) -> (r: String)
    ensures
        r@ == prompt_label_spec(prompt@),
{
    string_of(str_trim(str_trim_end_char(str_trim(prompt), ':')))
}

/// What an answer to a yes-or-no prompt means: blank for the default, `y` or
/// `yes`, `n` or `no` in any case; anything else asks again.
pub open spec fn yes_no_spec(answer: Seq<char>, default: bool) -> Option<bool> {
    let a = ascii_lower_seq(answer);
    if answer.len() == 0 {
        Some(default)
    } else if a == "y"@ || a == "yes"@ {
        Some(true)
    } else if a == "n"@ || a == "no"@ {
        Some(false)
    } else {
        None
    }
}

/// What an answer to a yes-or-no prompt means, or `None` to ask again.
pub fn yes_no_answer(answer: &str, default: bool) -> (r: Option<bool>)
    ensures
        r == yes_no_spec(answer@, default),
{
    if char_count(answer) == 0 {
        return Some(default);
    }
    let a = str_to_ascii_lowercase(answer);
    if str_eq(a.as_str(), "y") || str_eq(a.as_str(), "yes") {
        Some(true)
    } else if str_eq(a.as_str(), "n") || str_eq(a.as_str(), "no") {
        Some(false)
    } else {
        None
    }
}

/// The first option from `i` on that lists `a` among its aliases.
pub open spec fn first_alias_list_match(aliases: Seq<&[&str]>, a: Seq<char>, i: int) -> Option<usize>
    decreases aliases.len() - i,
{
    if i < 0 || i >= aliases.len() {
        None
    } else if alias_named(aliases[i]@, a) {
        Some(i as usize)
    } else {
        first_alias_list_match(aliases, a, i + 1)
    }
}

/// The option an answer to a numbered list picks: its number, or one of its
/// aliases, in any case.
pub open spec fn select_spec(answer: Seq<char>, count: nat, aliases: Seq<&[&str]>) -> Option<usize> {
    let a = ascii_lower_seq(answer);
    if parse_usize_spec(a) is Some && 1 <= parse_usize_spec(a)->Some_0 <= count {
        Some((parse_usize_spec(a)->Some_0 - 1) as usize)
    } else {
        first_alias_list_match(aliases, a, 0)
    }
}

fn alias_listed(list: &[&str], a: &str) -> (r: bool)
    ensures
        r == alias_named(list@, a@),
{
    let mut j: usize = 0;
    while j < list.len()
        invariant
            j <= list@.len(),
            forall|k: int| 0 <= k < j ==> (#[trigger] list@[k])@ != a@,
        decreases list@.len() - j,
    {
        if str_eq(list[j], a) {
            return true;
        }
        j = j + 1;
    }
    false
}

/// The option an answer to a numbered list picks, or `None` to ask again.
pub fn select_answer(answer: &str, count: usize, aliases: &[&[&str]]) -> (r: Option<usize>)
    ensures
        r == select_spec(answer@, count as nat, aliases@),
{
    let a = str_to_ascii_lowercase(answer);
    match parse_usize(a.as_str()) {
        Some(n) => {
            if 1 <= n && n <= count {
                return Some(n - 1);
            }
        },
        None => {},
    }
    let mut i: usize = 0;
    assert(select_spec(answer@, count as nat, aliases@) == first_alias_list_match(aliases@, a@, 0));
    while i < aliases.len()
        invariant
            i <= aliases@.len(),
            select_spec(answer@, count as nat, aliases@) == first_alias_list_match(aliases@, a@, 0),
            first_alias_list_match(aliases@, a@, 0) == first_alias_list_match(aliases@, a@, i as int),
        decreases aliases@.len() - i,
    {
        if alias_listed(aliases[i], a.as_str()) {
            return Some(i);
        }
        i = i + 1;
    }
    None
}

proof fn lemma_first_alias_list_match(aliases: Seq<&[&str]>, a: Seq<char>, k: int)
    requires
        0 <= k,
        aliases.len() <= usize::MAX,
    ensures
        first_alias_list_match(aliases, a, k) matches Some(m) ==> k <= m < aliases.len()
            && alias_named(aliases[m as int]@, a),
        (forall|j: int| k <= j < aliases.len() ==> !alias_named(#[trigger] aliases[j]@, a))
            ==> first_alias_list_match(aliases, a, k) is None,
    decreases aliases.len() - k,
{
    if k < aliases.len() {
        lemma_first_alias_list_match(aliases, a, k + 1);
    }
}

/// In a numbered list, typing the number `n` of one of the options picks
/// option `n`, counted from one; an answer that is no such number and is an
/// alias of exactly one option picks that option. What is picked is always
/// one of the options, or one that has aliases.
pub proof fn lemma_select_answers(
    answer: Seq<char>,
    count: nat,
    aliases: Seq<&[&str]>,
    n: nat,
    i: int,
)
    requires
        count <= usize::MAX,
        aliases.len() <= usize::MAX,
    ensures
        1 <= n <= count && ascii_lower_seq(answer) == decimal_spec(n) ==> select_spec(
            answer,
            count,
            aliases,
        ) == Some((n - 1) as usize),
        select_spec(answer, count, aliases) matches Some(k) ==> k < count || k < aliases.len(),
        0 <= i < aliases.len() && !(parse_usize_spec(ascii_lower_seq(answer)) matches Some(m) && 1
            <= m <= count) && alias_named(aliases[i]@, ascii_lower_seq(answer)) && (forall|j: int|
            0 <= j < aliases.len() && j != i ==> !alias_named(
                #[trigger] aliases[j]@,
                ascii_lower_seq(answer),
            )) ==> select_spec(answer, count, aliases) == Some(i as usize),
{
    let a = ascii_lower_seq(answer);
    lemma_first_alias_list_match(aliases, a, 0);
    if 1 <= n <= count && a == decimal_spec(n) {
        crate::text::lemma_parse_decimal(n);
    }
    if 0 <= i < aliases.len() && alias_named(aliases[i]@, a) && (forall|j: int|
        0 <= j < aliases.len() && j != i ==> !alias_named(#[trigger] aliases[j]@, a)) {
        lemma_first_alias_list_match(aliases, a, i + 1);
        lemma_first_alias_found(aliases, a, 0, i);
    }
}

proof fn lemma_first_alias_found(aliases: Seq<&[&str]>, a: Seq<char>, k: int, i: int)
    requires
        0 <= k <= i < aliases.len(),
        aliases.len() <= usize::MAX,
        alias_named(aliases[i]@, a),
        forall|j: int| k <= j < i ==> !alias_named(#[trigger] aliases[j]@, a),
    ensures
        first_alias_list_match(aliases, a, k) == Some(i as usize),
    decreases i - k,
{
    if k < i {
        lemma_first_alias_found(aliases, a, k + 1, i);
    }
}

/// The encoding that row `i` of an encoding list stands for: raw, Base64,
/// then hex for any later row.
pub open spec fn encoding_row(i: usize) -> Encoding {
    if i == 0 {
        Encoding::Raw
    } else if i == 1 {
        Encoding::Base64
    } else {
        Encoding::Hex
    }
}

/// The encoding the numbered encoding list picks.
pub fn encoding_for_selection(selected: usize) -> (e: Encoding)
    ensures
        e == encoding_row(selected),
{
    if selected == 0 {
        Encoding::Raw
    } else if selected == 1 {
        Encoding::Base64
    } else {
        Encoding::Hex
    }
}

/// What an answer to a step menu without arrow keys asks for: `b` or `back`
/// where offered, `q`, `quit` or `cancel`, or an entry's key or alias, in any
/// case.
pub open spec fn fallback_step_spec(answer: Seq<char>, items: Seq<StepMenuItem>, back: bool) -> Option<
    StepAction,
> {
    let a = ascii_lower_seq(answer);
    if back && (a == "b"@ || a == "back"@) {
        Some(StepAction::Back)
    } else if a == "q"@ || a == "quit"@ || a == "cancel"@ {
        Some(StepAction::Cancel)
    } else {
        match first_step_match(items, a, 0) {
            Some(i) => Some(StepAction::Select(i)),
            None => None,
        }
    }
}

/// What an answer to a step menu without arrow keys asks for, or `None` to
/// ask again.
pub fn fallback_step_answer(answer: &str, items: &[StepMenuItem], back: bool) -> (r: Option<StepAction>)
    ensures
        r == fallback_step_spec(answer@, items@, back),
{
    let a = str_to_ascii_lowercase(answer);
    if back && (str_eq(a.as_str(), "b") || str_eq(a.as_str(), "back")) {
        return Some(StepAction::Back);
    }
    if str_eq(a.as_str(), "q") || str_eq(a.as_str(), "quit") || str_eq(a.as_str(), "cancel") {
        return Some(StepAction::Cancel);
    }
    let mut i: usize = 0;
    while i < items.len()
        invariant
            i <= items@.len(),
            a@ == ascii_lower_seq(answer@),
            !(back && (a@ == "b"@ || a@ == "back"@)),
            !(a@ == "q"@ || a@ == "quit"@ || a@ == "cancel"@),
            first_step_match(items@, a@, 0) == first_step_match(items@, a@, i as int),
        decreases items@.len() - i,
    {
        if str_eq(a.as_str(), items[i].key) || alias_listed(items[i].aliases, a.as_str()) {
            return Some(StepAction::Select(i));
        }
        i = i + 1;
    }
    None
}

/// What an answer to the final confirmation of the encryption wizard means:
/// blank, `n` or `no` abort, `y` or `yes` proceed, `:back` and `:cancel` as
/// elsewhere; anything else asks again.
pub open spec fn confirm_spec(answer: Seq<char>) -> Option<StepValue<bool>> {
    let a = normalized(answer);
    if a.len() == 0 || a == "n"@ || a == "no"@ {
        Some(StepValue::Value(false))
    } else if a == "y"@ || a == "yes"@ {
        Some(StepValue::Value(true))
    } else if a == ":back"@ {
        Some(StepValue::Back)
    } else if a == ":cancel"@ {
        Some(StepValue::Cancel)
    } else {
        None
    }
}

/// What an answer to the final confirmation means, or `None` to ask again.
pub fn confirm_answer(answer: &str) -> (r: Option<StepValue<bool>>)
    ensures
        r == confirm_spec(answer@),
{
    let a = str_to_ascii_lowercase(str_trim(answer));
    if char_count(a.as_str()) == 0 || str_eq(a.as_str(), "n") || str_eq(a.as_str(), "no") {
        Some(StepValue::Value(false))
    } else if str_eq(a.as_str(), "y") || str_eq(a.as_str(), "yes") {
        Some(StepValue::Value(true))
    } else if str_eq(a.as_str(), ":back") {
        Some(StepValue::Back)
    } else if str_eq(a.as_str(), ":cancel") {
        Some(StepValue::Cancel)
    } else {
        None
    }
}

/// Takes a password only when its confirmation is the same text.
pub fn confirm_password(password: String, confirm: &str) -> (r: Result<String, String>)
    ensures
        password@ == confirm@ ==> r == Ok::<String, String>(password),
        password@ != confirm@ ==> (r matches Err(m) && m@ == "passwords do not match"@),
{
    if str_eq(password.as_str(), confirm) {
        Ok(password)
    } else {
        proof {
            reveal_strlit("passwords do not match");
        }
        Err(string_of("passwords do not match"))
    }
}

/// A selection prompt needs at least one choice and one alias list per choice.
pub fn check_select_options(items: usize, aliases: usize) -> (r: Result<(), String>)
    ensures
        (items > 0 && items == aliases) ==> r is Ok,
        !(items > 0 && items == aliases) ==> (r matches Err(m) && m@ == "invalid prompt options"@),
{
    if items == 0 || items != aliases {
        proof {
            reveal_strlit("invalid prompt options");
        }
        Err(string_of("invalid prompt options"))
    } else {
        Ok(())
    }
}

/// The answer words as character sequences.
pub proof fn lemma_answer_words()
    ensures
        "y"@ == seq!['y'],
        "yes"@ == seq!['y', 'e', 's'],
        "n"@ == seq!['n'],
        "no"@ == seq!['n', 'o'],
        ":back"@ == seq![':', 'b', 'a', 'c', 'k'],
        ":cancel"@ == seq![':', 'c', 'a', 'n', 'c', 'e', 'l'],
        "b"@ == seq!['b'],
        "back"@ == seq!['b', 'a', 'c', 'k'],
        "q"@ == seq!['q'],
        "quit"@ == seq!['q', 'u', 'i', 't'],
        "cancel"@ == seq!['c', 'a', 'n', 'c', 'e', 'l'],
{
    reveal_strlit("y");
    reveal_strlit("yes");
    reveal_strlit("n");
    reveal_strlit("no");
    reveal_strlit(":back");
    reveal_strlit(":cancel");
    reveal_strlit("b");
    reveal_strlit("back");
    reveal_strlit("q");
    reveal_strlit("quit");
    reveal_strlit("cancel");
    assert("y"@ =~= seq!['y']);
    assert("yes"@ =~= seq!['y', 'e', 's']);
    assert("n"@ =~= seq!['n']);
    assert("no"@ =~= seq!['n', 'o']);
    assert(":back"@ =~= seq![':', 'b', 'a', 'c', 'k']);
    assert(":cancel"@ =~= seq![':', 'c', 'a', 'n', 'c', 'e', 'l']);
    assert("b"@ =~= seq!['b']);
    assert("back"@ =~= seq!['b', 'a', 'c', 'k']);
    assert("q"@ =~= seq!['q']);
    assert("quit"@ =~= seq!['q', 'u', 'i', 't']);
    assert("cancel"@ =~= seq!['c', 'a', 'n', 'c', 'e', 'l']);
}

/// A yes/no answer: `y` or `yes` in any ASCII case is yes and `n` or `no` is
/// no; a blank answer takes the default; anything else is asked again. So a
/// `no` is never taken as yes, nor a `yes` as no.
pub proof fn lemma_yes_no_answers(answer: Seq<char>, default: bool)
    ensures
        answer.len() == 0 ==> yes_no_spec(answer, default) == Some(default),
        (ascii_lower_seq(answer) == "y"@ || ascii_lower_seq(answer) == "yes"@) ==> yes_no_spec(
            answer,
            default,
        ) == Some(true),
        (ascii_lower_seq(answer) == "n"@ || ascii_lower_seq(answer) == "no"@) ==> yes_no_spec(
            answer,
            default,
        ) == Some(false),
        yes_no_spec(answer, default) == Some(true) ==> (answer.len() == 0 && default)
            || ascii_lower_seq(answer) == "y"@ || ascii_lower_seq(answer) == "yes"@,
        yes_no_spec(answer, default) == Some(false) ==> (answer.len() == 0 && !default)
            || ascii_lower_seq(answer) == "n"@ || ascii_lower_seq(answer) == "no"@,
{
    lemma_answer_words();
    let a = ascii_lower_seq(answer);
    assert(a.len() == answer.len());
    if a == "n"@ || a == "no"@ {
        assert(a[0] == 'n');
        assert(a != "y"@ && a != "yes"@) by {
            assert("y"@[0] == 'y');
            assert("yes"@[0] == 'y');
        }
    }
}

/// The final confirmation of the encryption wizard: `y` or `yes` (trimmed, in
/// any ASCII case) writes the files, and only those do; a blank answer, `n`
/// or `no` aborts, and only those do; `:back` goes back and `:cancel`
/// cancels; anything else is asked again.
pub proof fn lemma_confirm_answers(answer: Seq<char>)
    ensures
        confirm_spec(answer) == Some(StepValue::Value(true)) <==> (normalized(answer) == "y"@
            || normalized(answer) == "yes"@),
        confirm_spec(answer) == Some(StepValue::Value(false)) <==> (normalized(answer).len() == 0
            || normalized(answer) == "n"@ || normalized(answer) == "no"@),
        confirm_spec(answer) == Some(StepValue::<bool>::Back) <==> normalized(answer) == ":back"@,
        confirm_spec(answer) == Some(StepValue::<bool>::Cancel) <==> normalized(answer)
            == ":cancel"@,
{
    lemma_answer_words();
    let a = normalized(answer);
    if a.len() > 0 {
        let c = a[0];
        assert(("y"@)[0] == 'y' && ("yes"@)[0] == 'y' && ("n"@)[0] == 'n' && ("no"@)[0] == 'n'
            && (":back"@)[0] == ':' && (":cancel"@)[0] == ':');
        assert((":back"@)[1] == 'b' && (":cancel"@)[1] == 'c');
        if a == ":back"@ {
            assert(a[1] == 'b');
        }
        if a == ":cancel"@ {
            assert(a[1] == 'c');
        }
    }
}

/// In a scripted step menu, `q`, `quit` or `cancel` cancels whether or not
/// going back is offered, and only `b` or `back`, where it is offered, goes
/// back.
pub proof fn lemma_fallback_controls(answer: Seq<char>, items: Seq<StepMenuItem>, back: bool)
    ensures
        (ascii_lower_seq(answer) == "q"@ || ascii_lower_seq(answer) == "quit"@ || ascii_lower_seq(
            answer,
        ) == "cancel"@) ==> fallback_step_spec(answer, items, back) == Some(StepAction::Cancel),
        fallback_step_spec(answer, items, back) == Some(StepAction::Back) <==> back && (
        ascii_lower_seq(answer) == "b"@ || ascii_lower_seq(answer) == "back"@),
{
    lemma_answer_words();
    let a = ascii_lower_seq(answer);
    assert(("q"@)[0] == 'q' && ("quit"@)[0] == 'q' && ("cancel"@)[0] == 'c' && ("b"@)[0] == 'b'
        && ("back"@)[0] == 'b');
    if a == "q"@ || a == "quit"@ || a == "cancel"@ {
        assert(a[0] == 'q' || a[0] == 'c');
    }
}

} // verus!
