//! The text of the tool's terminal screens: headers, progress lines, choice
//! rows and labelled fields.

use vstd::prelude::*;
use vstd::utf8::encode_utf8;
use crate::ansi;
use crate::terminal::{color, styled};
use crate::text::{
    decimal_spec, pad_left, pad_left_spec, pad_right, pad_right_spec, push_repeated, repeat_spec,
    string_of, usize_to_string,
};

verus! {

/// The width of the guided workflow screens.
pub const WORKFLOW_WIDTH: usize = 72;

/// What the top right of a workflow header says.
pub enum WorkflowStatus<'a> {
    Step(usize, usize),
    Complete,
    Label(&'a str),
}

/// The state of one step in a progress line.
#[derive(Clone, Copy, Debug, PartialEq, Eq, Structural)]
pub enum ProgressState {
    Done,
    Active,
    Pending,
}

/// One step of a progress line.
pub struct ProgressItem<'a> {
    pub label: &'a str,
    pub state: ProgressState,
}

/// One row of a choice list.
pub struct ChoiceRow<'a> {
    pub selected: bool,
    pub key: &'a str,
    pub label: &'a str,
    pub description: &'a str,
}

/// A labelled value.
pub struct Field<'a> {
    pub label: &'a str,
    pub value: String,
}

/// The characters of each string.
pub open spec fn string_views(v: Seq<String>) -> Seq<Seq<char>> {
    v.map_values(|s: String| s@)
}

/// Adding a string adds its characters to the views.
pub broadcast proof fn lemma_views_push(v: Seq<String>, s: String)
    ensures
        #[trigger] string_views(v.push(s)) == string_views(v).push(s@),
{
    assert(string_views(v.push(s)) =~= string_views(v).push(s@));
}

/// The parts joined with `sep` between each two.
pub open spec fn join_spec(parts: Seq<Seq<char>>, sep: Seq<char>) -> Seq<char>
    decreases parts.len(),
{
    if parts.len() == 0 {
        Seq::empty()
    } else if parts.len() == 1 {
        parts[0]
    } else {
        join_spec(parts.drop_last(), sep) + sep + parts.last()
    }
}

/// The number of bytes of the UTF-8 form of `s`, as `str::len` reports it.
pub open spec fn byte_len(s: Seq<char>) -> nat {
    (encode_utf8(s).len() as usize) as nat
}

/// The text of a workflow status.
pub open spec fn status_text_spec(status: WorkflowStatus) -> Seq<char> {
    match status {
        WorkflowStatus::Step(step, total) => "step "@ + decimal_spec(step as nat) + " of "@ + decimal_spec(
            total as nat,
        ),
        WorkflowStatus::Complete => "complete"@,
        WorkflowStatus::Label(label) => label@,
    }
}

/// The spaces between the path and the status: what is left of `width`, at
/// least one.
pub open spec fn header_gap(used: nat, width: nat) -> nat {
    if width > used {
        (width - used) as nat
    } else {
        1
    }
}

/// A horizontal rule of `width` box-drawing characters.
pub open spec fn divider_spec(width: nat) -> Seq<char> {
    repeat_spec("\u{2500}"@, width)
}

/// The four lines of a workflow header.
pub open spec fn header_lines_spec(path: Seq<char>, status: Seq<char>, width: nat, plain: bool) -> Seq<
    Seq<char>,
> {
    seq![
        styled(ansi::BOLD_GREEN@, path, plain) + repeat_spec(
            " "@,
            header_gap(byte_len(path) + byte_len(status), width),
        ) + styled(ansi::DIM_WHITE@, status, plain),
        styled(ansi::DIM_WHITE@, "guided one-time-pad workflow"@, plain),
        styled(ansi::DIM_WHITE@, divider_spec(width), plain),
        Seq::empty(),
    ]
}

/// A horizontal rule of `width` characters.
pub fn divider(width: usize) -> (r: String)
    ensures
        r@ == divider_spec(width as nat),
{
    let mut r = String::new();
    push_repeated(&mut r, "\u{2500}", width);
    assert(r@ =~= divider_spec(width as nat));
    r
}

fn status_text(status: &WorkflowStatus) -> (r: String)
    ensures
        r@ == status_text_spec(*status),
{
    match status {
        WorkflowStatus::Step(step, total) => {
            let mut r = string_of("step ");
            let s = usize_to_string(*step);
            r.append(s.as_str());
            r.append(" of ");
            let t = usize_to_string(*total);
            r.append(t.as_str());
            r
        },
        WorkflowStatus::Complete => string_of("complete"),
        WorkflowStatus::Label(label) => string_of(label),
    }
}

/// The lines of a workflow header: the path and the status on one line, a
/// subtitle, a rule and a blank line.
pub fn workflow_header_lines(path: &str, status: WorkflowStatus, width: usize, plain: bool) -> (lines: Vec<
    String,
>)
    ensures
        string_views(lines@) == header_lines_spec(path@, status_text_spec(status), width as nat, plain),
{
    let text = status_text(&status);
    let used = path.len().saturating_add(text.as_str().len());
    let gap = if width > used {
        width - used
    } else {
        1
    };
    let mut first = color(ansi::BOLD_GREEN, path, plain);
    push_repeated(&mut first, " ", gap);
    let status_styled = color(ansi::DIM_WHITE, text.as_str(), plain);
    first.append(status_styled.as_str());
    let second = color(ansi::DIM_WHITE, "guided one-time-pad workflow", plain);
    let rule = divider(width);
    let third = color(ansi::DIM_WHITE, rule.as_str(), plain);
    let mut lines: Vec<String> = Vec::new();
    lines.push(first);
    lines.push(second);
    lines.push(third);
    lines.push(String::new());
    assert(string_views(lines@) =~= header_lines_spec(
        path@,
        status_text_spec(status),
        width as nat,
        plain,
    ));
    lines
}

/// The marker and label of one progress step.
pub open spec fn progress_entry_spec(label: Seq<char>, state: ProgressState, plain: bool) -> Seq<char> {
    let marker = match state {
        ProgressState::Done => styled(ansi::GREEN@, "\u{2713}"@, plain),
        ProgressState::Active => styled(ansi::BOLD_GREEN@, ">"@, plain),
        ProgressState::Pending => " "@,
    };
    let shown = match state {
        ProgressState::Active => styled(ansi::BOLD@, label, plain),
        _ => label,
    };
    "["@ + marker + "] "@ + shown
}

/// The entries of a progress line.
pub open spec fn progress_entries(items: Seq<ProgressItem>, plain: bool) -> Seq<Seq<char>> {
    items.map_values(|item: ProgressItem| progress_entry_spec(item.label@, item.state, plain))
}

fn progress_entry(item: &ProgressItem, plain: bool) -> (r: String)
    ensures
        r@ == progress_entry_spec(item.label@, item.state, plain),
{
    let marker = match item.state {
        ProgressState::Done => color(ansi::GREEN, "\u{2713}", plain),
        ProgressState::Active => color(ansi::BOLD_GREEN, ">", plain),
        ProgressState::Pending => string_of(" "),
    };
    let shown = match item.state {
        ProgressState::Active => color(ansi::BOLD, item.label, plain),
        _ => string_of(item.label),
    };
    let mut r = string_of("[");
    r.append(marker.as_str());
    r.append("] ");
    r.append(shown.as_str());
    r
}

proof fn lemma_join_step(parts: Seq<Seq<char>>, sep: Seq<char>, i: int)
    requires
        0 <= i < parts.len(),
    ensures
        join_spec(parts.take(i + 1), sep) == (if i == 0 {
            parts[0]
        } else {
            join_spec(parts.take(i), sep) + sep + parts[i]
        }),
{
    assert(parts.take(i + 1).drop_last() =~= parts.take(i));
}

/// The steps of a workflow, each marked done, active or pending.
pub fn progress_line(items: &[ProgressItem], plain: bool) -> (r: String)
    ensures
        r@ == join_spec(progress_entries(items@, plain), "   "@),
{
    let ghost entries = progress_entries(items@, plain);
    let mut r = String::new();
    let mut i: usize = 0;
    while i < items.len()
        invariant
            i <= items@.len(),
            entries == progress_entries(items@, plain),
            r@ == join_spec(entries.take(i as int), "   "@),
        decreases items@.len() - i,
    {
        let e = progress_entry(&items[i], plain);
        proof {
            lemma_join_step(entries, "   "@, i as int);
        }
        if i > 0 {
            r.append("   ");
        } else {
            assert(r@ =~= Seq::<char>::empty());
        }
        r.append(e.as_str());
        i = i + 1;
    }
    assert(entries.take(items@.len() as int) =~= entries);
    r
}

/// The largest number of bytes among the keys of the rows.
pub open spec fn max_key_len(rows: Seq<ChoiceRow>) -> nat
    decreases rows.len(),
{
    if rows.len() == 0 {
        0
    } else {
        let m = max_key_len(rows.drop_last());
        let k = byte_len(rows.last().key@);
        if k > m {
            k
        } else {
            m
        }
    }
}

/// The largest number of bytes among the labels of the rows.
pub open spec fn max_label_len(rows: Seq<ChoiceRow>) -> nat
    decreases rows.len(),
{
    if rows.len() == 0 {
        0
    } else {
        let m = max_label_len(rows.drop_last());
        let k = byte_len(rows.last().label@);
        if k > m {
            k
        } else {
            m
        }
    }
}

/// The larger of two numbers.
pub open spec fn max_nat(a: nat, b: nat) -> nat {
    if a >= b {
        a
    } else {
        b
    }
}

/// One choice row with the key and label columns padded to the given widths.
pub open spec fn choice_row_spec(
    selected: bool,
    key: Seq<char>,
    label: Seq<char>,
    description: Seq<char>,
    key_width: nat,
    label_width: nat,
    plain: bool,
) -> Seq<char> {
    let marker = if selected {
        styled(ansi::BOLD_GREEN@, ">"@, plain)
    } else {
        " "@
    };
    "  "@ + marker + "  "@ + styled(ansi::BOLD_YELLOW@, pad_left_spec(key, key_width), plain) + "   "@
        + styled(ansi::BOLD@, pad_right_spec(label, label_width), plain) + " "@ + styled(
        ansi::DIM_WHITE@,
        description,
        plain,
    )
}

/// The lines of a choice list: keys right-aligned to at least two
/// characters, labels left-aligned to at least eight.
pub open spec fn choice_lines_spec(rows: Seq<ChoiceRow>, plain: bool) -> Seq<Seq<char>> {
    let kw = max_nat(max_key_len(rows), 2);
    let lw = max_nat(max_label_len(rows), 8);
    rows.map_values(
        |row: ChoiceRow|
            choice_row_spec(row.selected, row.key@, row.label@, row.description@, kw, lw, plain),
    )
}

/// A choice list has one line per row, in order, and without colour a line
/// carries the highlight marker `>` in its marker column exactly when its
/// row is the selected one.
pub proof fn lemma_choice_marks(rows: Seq<ChoiceRow>, i: int)
    ensures
        choice_lines_spec(rows, true).len() == rows.len(),
        0 <= i < rows.len() ==> choice_lines_spec(rows, true)[i].len() > 2 && (choice_lines_spec(
            rows,
            true,
        )[i][2] == '>' <==> rows[i].selected),
{
    reveal_strlit("  ");
    reveal_strlit(">");
    reveal_strlit(" ");
    assert(("  "@).len() == 2 && (">"@)[0] == '>' && (" "@)[0] == ' ');
    if 0 <= i < rows.len() {
        let kw = max_nat(max_key_len(rows), 2);
        let lw = max_nat(max_label_len(rows), 8);
        let row = rows[i];
        let line = choice_row_spec(row.selected, row.key@, row.label@, row.description@, kw, lw, true);
        assert(choice_lines_spec(rows, true)[i] == line);
        let marker: Seq<char> = if row.selected {
            ">"@
        } else {
            " "@
        };
        assert(line[2] == marker[0]);
    }
}

fn column_widths(rows: &[ChoiceRow]) -> (r: (usize, usize))
    ensures
        r.0 == max_nat(max_key_len(rows@), 2),
        r.1 == max_nat(max_label_len(rows@), 8),
{
    let mut kw: usize = 0;
    let mut lw: usize = 0;
    let mut i: usize = 0;
    while i < rows.len()
        invariant
            i <= rows@.len(),
            kw == max_key_len(rows@.take(i as int)),
            lw == max_label_len(rows@.take(i as int)),
        decreases rows@.len() - i,
    {
        proof {
            assert(rows@.take(i + 1).drop_last() =~= rows@.take(i as int));
            assert(rows@.take(i + 1).last() == rows@[i as int]);
        }
        let k = rows[i].key.len();
        let l = rows[i].label.len();
        assert(k == byte_len(rows@[i as int].key@));
        assert(l == byte_len(rows@[i as int].label@));
        if k > kw {
            kw = k;
        }
        if l > lw {
            lw = l;
        }
        i = i + 1;
    }
    assert(rows@.take(rows@.len() as int) =~= rows@);
    (if kw >= 2 {
        kw
    } else {
        2
    }, if lw >= 8 {
        lw
    } else {
        8
    })
}

fn choice_row(row: &ChoiceRow, key_width: usize, label_width: usize, plain: bool) -> (r: String)
    ensures
        r@ == choice_row_spec(
            row.selected,
            row.key@,
            row.label@,
            row.description@,
            key_width as nat,
            label_width as nat,
            plain,
        ),
{
    let marker = if row.selected {
        color(ansi::BOLD_GREEN, ">", plain)
    } else {
        string_of(" ")
    };
    let key = pad_left(row.key, key_width);
    let key_styled = color(ansi::BOLD_YELLOW, key.as_str(), plain);
    let label = pad_right(row.label, label_width);
    let label_styled = color(ansi::BOLD, label.as_str(), plain);
    let description = color(ansi::DIM_WHITE, row.description, plain);
    let mut r = string_of("  ");
    r.append(marker.as_str());
    r.append("  ");
    r.append(key_styled.as_str());
    r.append("   ");
    r.append(label_styled.as_str());
    r.append(" ");
    r.append(description.as_str());
    r
}

/// The lines of a choice list.
pub fn choice_row_lines(rows: &[ChoiceRow], plain: bool) -> (lines: Vec<String>)
    ensures
        string_views(lines@) == choice_lines_spec(rows@, plain),
{
    let (kw, lw) = column_widths(rows);
    let mut lines: Vec<String> = Vec::new();
    let mut i: usize = 0;
    while i < rows.len()
        invariant
            i <= rows@.len(),
            kw == max_nat(max_key_len(rows@), 2),
            lw == max_nat(max_label_len(rows@), 8),
            string_views(lines@) =~= choice_lines_spec(rows@, plain).take(i as int),
        decreases rows@.len() - i,
    {
        let line = choice_row(&rows[i], kw, lw, plain);
        let ghost before = lines@;
        lines.push(line);
        proof {
            assert(string_views(lines@) =~= string_views(before).push(line@));
            assert(choice_lines_spec(rows@, plain).take(i + 1) =~= choice_lines_spec(rows@, plain).take(
                i as int,
            ).push(choice_lines_spec(rows@, plain)[i as int]));
        }
        i = i + 1;
    }
    lines
}

/// The label and value of each field.
pub open spec fn field_pairs(fields: Seq<Field>) -> Seq<(Seq<char>, Seq<char>)> {
    fields.map_values(|f: Field| (f.label@, f.value@))
}

/// The largest number of bytes among the labels.
pub open spec fn max_field_label_len(fields: Seq<(Seq<char>, Seq<char>)>) -> nat
    decreases fields.len(),
{
    if fields.len() == 0 {
        0
    } else {
        let m = max_field_label_len(fields.drop_last());
        let k = byte_len(fields.last().0);
        if k > m {
            k
        } else {
            m
        }
    }
}

/// A labelled value with the label padded to `width`.
pub open spec fn field_line_spec(label: Seq<char>, value: Seq<char>, width: nat, plain: bool) -> Seq<
    char,
> {
    "  "@ + styled(ansi::DIM_WHITE@, pad_right_spec(label, width), plain) + "  "@ + value
}

/// The lines of labelled values, labels left-aligned to at least eight.
pub open spec fn field_lines_spec(fields: Seq<(Seq<char>, Seq<char>)>, plain: bool) -> Seq<Seq<char>> {
    let w = max_nat(max_field_label_len(fields), 8);
    fields.map_values(|f: (Seq<char>, Seq<char>)| field_line_spec(f.0, f.1, w, plain))
}

fn field_line(label: &str, value: &str, label_width: usize, plain: bool) -> (r: String)
    ensures
        r@ == field_line_spec(label@, value@, label_width as nat, plain),
{
    let padded = pad_right(label, label_width);
    let styled_label = color(ansi::DIM_WHITE, padded.as_str(), plain);
    let mut r = string_of("  ");
    r.append(styled_label.as_str());
    r.append("  ");
    r.append(value);
    r
}

/// The lines of labelled values.
pub fn field_lines(fields: &[Field], plain: bool) -> (lines: Vec<String>)
    ensures
        string_views(lines@) == field_lines_spec(field_pairs(fields@), plain),
{
    let ghost pairs = field_pairs(fields@);
    let mut w: usize = 0;
    let mut i: usize = 0;
    while i < fields.len()
        invariant
            i <= fields@.len(),
            pairs == field_pairs(fields@),
            w == max_field_label_len(pairs.take(i as int)),
        decreases fields@.len() - i,
    {
        proof {
            assert(pairs.take(i + 1).drop_last() =~= pairs.take(i as int));
            assert(pairs.take(i + 1).last() == pairs[i as int]);
        }
        let l = fields[i].label.len();
        assert(l == byte_len(pairs[i as int].0));
        if l > w {
            w = l;
        }
        i = i + 1;
    }
    assert(pairs.take(fields@.len() as int) =~= pairs);
    if w < 8 {
        w = 8;
    }
    let mut lines: Vec<String> = Vec::new();
    let mut j: usize = 0;
    while j < fields.len()
        invariant
            j <= fields@.len(),
            pairs == field_pairs(fields@),
            w == max_nat(max_field_label_len(pairs), 8),
            string_views(lines@) =~= field_lines_spec(pairs, plain).take(j as int),
        decreases fields@.len() - j,
    {
        let line = field_line(fields[j].label, fields[j].value.as_str(), w, plain);
        let ghost before = lines@;
        lines.push(line);
        proof {
            assert(string_views(lines@) =~= string_views(before).push(line@));
            assert(field_lines_spec(pairs, plain).take(j + 1) =~= field_lines_spec(pairs, plain).take(
                j as int,
            ).push(field_lines_spec(pairs, plain)[j as int]));
        }
        j = j + 1;
    }
    lines
}

/// The prompt text of a choice: the label and a small arrow.
pub open spec fn prompt_choice_spec(label: Seq<char>) -> Seq<char> {
    label + " \u{203a} "@
}

/// The prompt text of a choice.
pub fn prompt_choice(label: &str) -> (r: String)
    ensures
        r@ == prompt_choice_spec(label@),
{
    let mut r = string_of(label);
    r.append(" \u{203a} ");
    r
}

/// The prompt text of a free-text answer, which looks like a choice prompt.
pub fn prompt_text(label: &str) -> (r: String)
    ensures
        r@ == prompt_choice_spec(label@),
{
    prompt_choice(label)
}

/// How a planned file is described: `exists` or `new`.
pub fn status_new_or_exists(exists: bool) -> (r: &'static str)
    ensures
        r@ == (if exists {
            "exists"@
        } else {
            "new"@
        }),
{
    if exists {
        "exists"
    } else {
        "new"
    }
}

} // verus!
