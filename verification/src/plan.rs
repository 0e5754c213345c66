//! What the guided workflows show of the files they are about to write, and
//! the report after an encryption.

use vstd::prelude::*;
use crate::ansi;
use crate::commands::EncryptResult;
use crate::output::{
    header_lines_spec, lemma_views_push, status_new_or_exists, status_text_spec, string_views,
    workflow_header_lines, WorkflowStatus, WORKFLOW_WIDTH,
};
use crate::terminal::{color, styled};
use crate::text::{decimal_spec, pad_right, pad_right_spec, string_of, u128_to_string, usize_to_string};

verus! {

broadcast use lemma_views_push;

/// A row of a file list: the label and the path in padded columns, then the
/// rest of the row.
pub open spec fn plan_row_spec(label: Seq<char>, path: Seq<char>, rest: Seq<char>) -> Seq<char> {
    "  "@ + pad_right_spec(label, 12) + " "@ + pad_right_spec(path, 24) + " "@ + rest
}

/// A row of a file list.
pub fn plan_row(label: &str, path: &str, rest: &str) -> (r: String)
    ensures
        r@ == plan_row_spec(label@, path@, rest@),
{
    let mut r = string_of("  ");
    let l = pad_right(label, 12);
    r.append(l.as_str());
    r.append(" ");
    let p = pad_right(path, 24);
    r.append(p.as_str());
    r.append(" ");
    r.append(rest);
    r
}

/// How a planned file is described.
pub open spec fn status_spec(exists: bool) -> Seq<char> {
    if exists {
        "exists"@
    } else {
        "new"@
    }
}

/// How a key file is written.
pub open spec fn key_note_spec(wrapped: bool) -> Seq<char> {
    if wrapped {
        "mode 0600 wrapped"@
    } else {
        "mode 0600"@
    }
}

/// How a key file is written: owner-only, and wrapped where a password was set.
pub fn key_note(wrapped: bool) -> (r: &'static str)
    ensures
        r@ == key_note_spec(wrapped),
{
    proof {
        reveal_strlit("mode 0600 wrapped");
        reveal_strlit("mode 0600");
    }
    if wrapped {
        "mode 0600 wrapped"
    } else {
        "mode 0600"
    }
}

/// The rows of an encryption's write plan: the ciphertext, the key and, if
/// asked for, the integrity file.
pub open spec fn write_plan_spec(paths: Seq<Seq<char>>, exists: Seq<bool>, hash: bool, wrap_key: bool) -> Seq<
    Seq<char>,
> {
    let rows = seq![
        plan_row_spec("ciphertext"@, paths[0], status_spec(exists[0])),
        plan_row_spec(
            "key"@,
            paths[1],
            pad_right_spec(status_spec(exists[1]), 8) + " "@ + key_note_spec(wrap_key),
        ),
    ];
    if hash {
        rows.push(plan_row_spec("hash"@, paths[2], status_spec(exists[2])))
    } else {
        rows
    }
}

/// The write plan of an encryption; `paths` are the planned paths in order and
/// `exists[i]` tells whether `paths[i]` exists.
pub fn write_plan_lines(paths: &[String], exists: &[bool], hash: bool, wrap_key: bool) -> (lines: Vec<
    String,
>)
    requires
        paths@.len() == exists@.len(),
        paths@.len() >= (if hash {
            3int
        } else {
            2int
        }),
    ensures
        string_views(lines@) == write_plan_spec(string_views(paths@), exists@, hash, wrap_key),
{
    let mut lines: Vec<String> = Vec::new();
    lines.push(plan_row("ciphertext", paths[0].as_str(), status_new_or_exists(exists[0])));
    let mut rest = pad_right(status_new_or_exists(exists[1]), 8);
    rest.append(" ");
    rest.append(key_note(wrap_key));
    lines.push(plan_row("key", paths[1].as_str(), rest.as_str()));
    if hash {
        lines.push(plan_row("hash", paths[2].as_str(), status_new_or_exists(exists[2])));
    }
    proof {
        reveal_strlit("ciphertext");
        reveal_strlit("key");
        reveal_strlit("hash");
        reveal_strlit(" ");
        assert(string_views(lines@) =~= write_plan_spec(string_views(paths@), exists@, hash, wrap_key));
    }
    lines
}

/// The rows that list files for review before they are written.
pub open spec fn review_rows_spec(paths: Seq<Seq<char>>, exists: Seq<bool>) -> Seq<Seq<char>> {
    Seq::new(paths.len(), |i: int| plan_row_spec("file"@, paths[i], status_spec(exists[i])))
}

/// One row per planned file, with whether it exists.
pub fn review_file_lines(paths: &[String], exists: &[bool]) -> (lines: Vec<String>)
    requires
        paths@.len() == exists@.len(),
    ensures
        string_views(lines@) == review_rows_spec(string_views(paths@), exists@),
{
    let mut lines: Vec<String> = Vec::new();
    let mut i: usize = 0;
    while i < paths.len()
        invariant
            i <= paths@.len(),
            paths@.len() == exists@.len(),
            string_views(lines@) == review_rows_spec(string_views(paths@), exists@).take(i as int),
        decreases paths@.len() - i,
    {
        let row = plan_row("file", paths[i].as_str(), status_new_or_exists(exists[i]));
        proof {
            reveal_strlit("file");
        }
        lines.push(row);
        i = i + 1;
        proof {
            assert(string_views(lines@) =~= review_rows_spec(string_views(paths@), exists@).take(
                i as int,
            ));
        }
    }
    proof {
        assert(review_rows_spec(string_views(paths@), exists@).take(i as int) =~= review_rows_spec(
            string_views(paths@),
            exists@,
        ));
    }
    lines
}

/// The number of `true` entries.
pub open spec fn count_true(s: Seq<bool>) -> nat
    decreases s.len(),
{
    if s.len() == 0 {
        0
    } else {
        count_true(s.drop_last()) + if s.last() {
            1nat
        } else {
            0nat
        }
    }
}

/// How many of the planned files exist already.
pub fn existing_count(exists: &[bool]) -> (n: usize)
    ensures
        n as nat == count_true(exists@),
{
    let mut n: usize = 0;
    let mut i: usize = 0;
    while i < exists.len()
        invariant
            i <= exists@.len(),
            n <= i,
            n as nat == count_true(exists@.take(i as int)),
        decreases exists@.len() - i,
    {
        proof {
            assert(exists@.take(i as int + 1).drop_last() =~= exists@.take(i as int));
        }
        if exists[i] {
            n = n + 1;
        }
        i = i + 1;
    }
    proof {
        assert(exists@.take(i as int) =~= exists@);
    }
    n
}

/// The count of existing planned files is at most the number of files, and
/// it is zero exactly when none of them exists.
pub proof fn lemma_existing_count(exists: Seq<bool>)
    ensures
        count_true(exists) <= exists.len(),
        count_true(exists) == 0 <==> forall|i: int| 0 <= i < exists.len() ==> !exists[i],
    decreases exists.len(),
{
    if exists.len() > 0 {
        let init = exists.drop_last();
        lemma_existing_count(init);
        if forall|i: int| 0 <= i < exists.len() ==> !exists[i] {
            assert forall|i: int| 0 <= i < init.len() implies !init[i] by {
                assert(init[i] == exists[i]);
            }
        }
        if count_true(exists) == 0 {
            assert forall|i: int| 0 <= i < exists.len() implies !exists[i] by {
                if i < init.len() {
                    assert(init[i] == exists[i]);
                }
            }
        }
    }
}

/// The question asked before files are written.
pub open spec fn write_question_spec(existing: nat) -> Seq<char> {
    if existing > 0 {
        "Proceed and overwrite existing files?"@
    } else {
        "Create these files now?"@
    }
}

/// The question asked before files are written: it mentions overwriting
/// where some of them exist.
pub fn write_question(existing: usize) -> (r: &'static str)
    ensures
        r@ == write_question_spec(existing as nat),
{
    proof {
        reveal_strlit("Proceed and overwrite existing files?");
        reveal_strlit("Create these files now?");
    }
    if existing > 0 {
        "Proceed and overwrite existing files?"
    } else {
        "Create these files now?"
    }
}

/// The description of the proceed entry of the review menu.
pub open spec fn proceed_description_spec(existing: nat) -> Seq<char> {
    if existing > 0 {
        "Proceed and overwrite existing files"@
    } else {
        "Create these files now"@
    }
}

/// The description of the proceed entry of the review menu.
pub fn proceed_description(existing: usize) -> (r: &'static str)
    ensures
        r@ == proceed_description_spec(existing as nat),
{
    proof {
        reveal_strlit("Proceed and overwrite existing files");
        reveal_strlit("Create these files now");
    }
    if existing > 0 {
        "Proceed and overwrite existing files"
    } else {
        "Create these files now"
    }
}

/// Before files are written, the question and the proceed entry speak of
/// overwriting exactly when one of the planned files exists already.
pub proof fn lemma_overwrite_wording(exists: Seq<bool>)
    ensures
        write_question_spec(count_true(exists)) == "Proceed and overwrite existing files?"@
            <==> exists|i: int| 0 <= i < exists.len() && exists[i],
        proceed_description_spec(count_true(exists)) == "Proceed and overwrite existing files"@
            <==> exists|i: int| 0 <= i < exists.len() && exists[i],
{
    lemma_existing_count(exists);
    reveal_strlit("Proceed and overwrite existing files?");
    reveal_strlit("Create these files now?");
    reveal_strlit("Proceed and overwrite existing files");
    reveal_strlit("Create these files now");
    assert("Proceed and overwrite existing files?"@[0] != "Create these files now?"@[0]);
    assert("Proceed and overwrite existing files"@[0] != "Create these files now"@[0]);
}

/// The warning that some planned files exist.
pub open spec fn existing_warning_spec(existing: nat) -> Seq<char> {
    decimal_spec(existing) + " planned output file(s) already exist"@
}

/// The warning that `existing` planned files exist.
pub fn existing_warning(existing: usize) -> (r: String)
    ensures
        r@ == existing_warning_spec(existing as nat),
{
    let mut r = usize_to_string(existing);
    r.append(" planned output file(s) already exist");
    r
}

/// A planned file and whether it exists, as the scripted review lists it.
pub open spec fn planned_file_spec(path: Seq<char>, exists: bool) -> Seq<char> {
    path + "  ("@ + status_spec(exists) + ")"@
}

/// A planned file and whether it exists.
pub fn planned_file(path: &str, exists: bool) -> (r: String)
    ensures
        r@ == planned_file_spec(path@, exists),
{
    let mut r = string_of(path);
    r.append("  (");
    r.append(status_new_or_exists(exists));
    r.append(")");
    r
}

/// A label in its column, then a value.
pub open spec fn labelled_spec(label: Seq<char>, value: Seq<char>) -> Seq<char> {
    "  "@ + pad_right_spec(label, 12) + " "@ + value
}

fn labelled(label: &str, value: &str) -> (r: String)
    ensures
        r@ == labelled_spec(label@, value@),
{
    let mut r = string_of("  ");
    let l = pad_right(label, 12);
    r.append(l.as_str());
    r.append(" ");
    r.append(value);
    r
}

/// The command that decrypts what was written.
pub open spec fn next_command_spec(cipher: Seq<char>, wrapped: bool) -> Seq<char> {
    "  coldpad decrypt "@ + cipher + if wrapped {
        " --password <password>"@
    } else {
        Seq::empty()
    }
}

/// The report of the guided encryption.
pub open spec fn encrypt_success_spec(
    ciphertext_bytes: usize,
    cipher: Seq<char>,
    key: Seq<char>,
    hash: Option<Seq<char>>,
    wrapped: bool,
    plain: bool,
) -> Seq<Seq<char>> {
    header_lines_spec(
        "coldpad secure / encrypt"@,
        status_text_spec(WorkflowStatus::Complete),
        WORKFLOW_WIDTH as nat,
        plain,
    ) + seq![
        "  "@ + styled(ansi::GREEN@, "\u{2714}"@, plain) + " Encrypted "@ + decimal_spec(
            ciphertext_bytes as nat,
        ) + " bytes"@,
        Seq::empty(),
        labelled_spec("ciphertext"@, cipher),
        plan_row_spec("key"@, key, key_note_spec(wrapped)),
    ] + match hash {
        Some(h) => seq![labelled_spec("hash"@, h)],
        None => Seq::empty(),
    } + seq![
        Seq::empty(),
        styled(ansi::BOLD@, "Next command"@, plain),
        Seq::empty(),
        next_command_spec(cipher, wrapped),
        Seq::empty(),
        "Done."@,
    ]
}

/// The report of the guided encryption: what was written, and how to decrypt
/// it.
pub fn encrypt_success_lines(result: &EncryptResult, plain: bool) -> (lines: Vec<String>)
    ensures
        string_views(lines@) == encrypt_success_spec(
            result.ciphertext_bytes,
            result.cipher_path@,
            result.key_path@,
            match result.hash_path {
                Some(h) => Some(h@),
                None => None,
            },
            result.key_wrapped,
            plain,
        ),
{
    let mut lines = workflow_header_lines(
        "coldpad secure / encrypt",
        WorkflowStatus::Complete,
        WORKFLOW_WIDTH,
        plain,
    );
    let ghost head = lines@;
    let mut done = string_of("  ");
    let check = color(ansi::GREEN, "\u{2714}", plain);
    done.append(check.as_str());
    done.append(" Encrypted ");
    let n = usize_to_string(result.ciphertext_bytes);
    done.append(n.as_str());
    done.append(" bytes");
    lines.push(done);
    lines.push(String::new());
    lines.push(labelled("ciphertext", result.cipher_path.as_str()));
    lines.push(plan_row("key", result.key_path.as_str(), key_note(result.key_wrapped)));
    match &result.hash_path {
        Some(h) => {
            lines.push(labelled("hash", h.as_str()));
        },
        None => {},
    }
    lines.push(String::new());
    lines.push(color(ansi::BOLD, "Next command", plain));
    lines.push(String::new());
    let mut next = string_of("  coldpad decrypt ");
    next.append(result.cipher_path.as_str());
    if result.key_wrapped {
        next.append(" --password <password>");
    }
    lines.push(next);
    lines.push(String::new());
    lines.push(string_of("Done."));
    proof {
        reveal_strlit("ciphertext");
        reveal_strlit("key");
        reveal_strlit("hash");
        reveal_strlit("Done.");
        assert(string_views(lines@) =~= encrypt_success_spec(
            result.ciphertext_bytes,
            result.cipher_path@,
            result.key_path@,
            match result.hash_path {
                Some(h) => Some(h@),
                None => None,
            },
            result.key_wrapped,
            plain,
        ));
    }
    lines
}

/// The name of a hidden file beside `name` in which a write is staged or an
/// old file is kept: the process and a counter keep such names apart.
pub open spec fn temp_file_name_spec(name: Seq<char>, kind: Seq<char>, pid: nat, id: nat) -> Seq<char> {
    "."@ + name + ".coldpad-"@ + kind + "-"@ + decimal_spec(pid) + "-"@ + decimal_spec(id)
}

/// The name of a hidden staging or backup file beside the file `name`.
pub fn temp_file_name(name: &str, kind: &str, pid: u32, id: u64) -> (r: String)
    ensures
        r@ == temp_file_name_spec(name@, kind@, pid as nat, id as nat),
{
    let mut r = string_of(".");
    r.append(name);
    r.append(".coldpad-");
    r.append(kind);
    r.append("-");
    let p = u128_to_string(pid as u128);
    r.append(p.as_str());
    r.append("-");
    let i = u128_to_string(id as u128);
    r.append(i.as_str());
    r
}

} // verus!
