//! Command-line choices that the library's logic depends on.

use vstd::prelude::*;
use crate::text::str_eq;

verus! {

/// How ciphertext and raw key files are written.
#[derive(Clone, Copy, Debug, PartialEq, Eq, Structural)]
pub enum Encoding {
    /// The bytes themselves.
    Raw,
    /// Standard Base64 text with padding.
    Base64,
    /// Lowercase hexadecimal text.
    Hex,
}

impl Default for Encoding {
    fn default() -> (e: Self)
        ensures
            e == Encoding::Raw,
    {
        Encoding::Raw
    }
}

/// Whether `word` is one of the arguments.
pub open spec fn has_arg(args: Seq<String>, word: Seq<char>) -> bool {
    exists|i: int| 0 <= i < args.len() && (#[trigger] args[i])@ == word
}

/// The message for command-line forms that were removed, if the arguments
/// (without the program name) use one.
pub open spec fn removed_cli_form_spec(args: Seq<String>) -> Option<Seq<char>> {
    if args.len() == 0 {
        None
    } else if has_arg(args, "--base64"@) || has_arg(args, "--hex"@) {
        Some("error: --base64 and --hex were removed; use --encoding base64 or --encoding hex"@)
    } else if args[0]@ == "keygen"@ || args[0]@ == "k"@ {
        Some("error: coldpad keygen was removed; use coldpad key generate"@)
    } else if args[0]@ == "wrap-key"@ {
        Some("error: coldpad wrap-key was removed; use coldpad key wrap"@)
    } else if args[0]@ == "unwrap-key"@ {
        Some("error: coldpad unwrap-key was removed; use coldpad key unwrap"@)
    } else if (args[0]@ == "decrypt"@ || args[0]@ == "d"@ || args[0]@ == "info"@ || args[0]@ == "i"@)
        && has_arg(args, "--file"@) {
        Some("error: --file was removed here; pass the .otp path as an argument"@)
    } else {
        None
    }
}

fn has_arg_exec(args: &[String], word: &str) -> (r: bool)
    ensures
        r == has_arg(args@, word@),
{
    let mut i: usize = 0;
    while i < args.len()
        invariant
            i <= args@.len(),
            forall|j: int| 0 <= j < i ==> (#[trigger] args@[j])@ != word@,
        decreases args@.len() - i,
    {
        if str_eq(args[i].as_str(), word) {
            return true;
        }
        i = i + 1;
    }
    false
}

/// The message for a removed command-line form, if the arguments (without
/// the program name) use one.
pub fn removed_cli_form(args: &[String]) -> (r: Option<&'static str>)
    ensures
        match removed_cli_form_spec(args@) {
            Some(m) => r matches Some(got) && got@ == m,
            None => r is None,
        },
{
    if args.len() == 0 {
        return None;
    }
    if has_arg_exec(args, "--base64") || has_arg_exec(args, "--hex") {
        return Some("error: --base64 and --hex were removed; use --encoding base64 or --encoding hex");
    }
    let first = args[0].as_str();
    if str_eq(first, "keygen") || str_eq(first, "k") {
        return Some("error: coldpad keygen was removed; use coldpad key generate");
    }
    if str_eq(first, "wrap-key") {
        return Some("error: coldpad wrap-key was removed; use coldpad key wrap");
    }
    if str_eq(first, "unwrap-key") {
        return Some("error: coldpad unwrap-key was removed; use coldpad key unwrap");
    }
    if (str_eq(first, "decrypt") || str_eq(first, "d") || str_eq(first, "info") || str_eq(first, "i"))
        && has_arg_exec(args, "--file") {
        return Some("error: --file was removed here; pass the .otp path as an argument");
    }
    None
}

proof fn lemma_cli_words()
    ensures
        "keygen"@ != "decrypt"@, "keygen"@ != "d"@, "keygen"@ != "info"@, "keygen"@ != "i"@,
        "k"@ != "decrypt"@, "k"@ != "d"@, "k"@ != "info"@, "k"@ != "i"@,
        "wrap-key"@ != "decrypt"@, "wrap-key"@ != "d"@, "wrap-key"@ != "info"@, "wrap-key"@ != "i"@,
        "unwrap-key"@ != "decrypt"@, "unwrap-key"@ != "d"@, "unwrap-key"@ != "info"@,
        "unwrap-key"@ != "i"@, "wrap-key"@ != "keygen"@, "wrap-key"@ != "k"@,
        "unwrap-key"@ != "keygen"@, "unwrap-key"@ != "k"@, "unwrap-key"@ != "wrap-key"@,
{
    reveal_strlit("keygen");
    reveal_strlit("k");
    reveal_strlit("wrap-key");
    reveal_strlit("unwrap-key");
    reveal_strlit("decrypt");
    reveal_strlit("d");
    reveal_strlit("info");
    reveal_strlit("i");
    assert("keygen"@.len() == 6);
    assert("decrypt"@.len() == 7);
    assert("info"@.len() == 4);
    assert("d"@.len() == 1);
    assert("i"@.len() == 1);
    assert("wrap-key"@.len() == 8);
    assert("unwrap-key"@.len() == 10);
    assert("k"@[0] != "d"@[0]);
    assert("k"@[0] != "i"@[0]);
}

/// Only the removed forms are refused. Arguments that hold none of `--file`,
/// `--base64` and `--hex`, and whose first word is not one of the removed
/// commands `keygen`, `k`, `wrap-key` and `unwrap-key`, pass: among them every
/// `decrypt <file>` and `info <file>`. `--file` is refused only after
/// `decrypt`, `d`, `info` or `i`, and there always; other commands pass
/// with it. `--base64` and `--hex` are refused after any command, and the
/// removed commands each get their own message.
pub proof fn lemma_only_removed_forms_refused(args: Seq<String>)
    ensures
        !has_arg(args, "--file"@) && !has_arg(args, "--base64"@) && !has_arg(args, "--hex"@) && (
        args.len() > 0 ==> args[0]@ != "keygen"@ && args[0]@ != "k"@ && args[0]@ != "wrap-key"@
            && args[0]@ != "unwrap-key"@) ==> removed_cli_form_spec(args) is None,
        args.len() > 0 && (args[0]@ == "decrypt"@ || args[0]@ == "d"@ || args[0]@ == "info"@
            || args[0]@ == "i"@) && !has_arg(args, "--base64"@) && !has_arg(args, "--hex"@) ==> (
        removed_cli_form_spec(args) is Some <==> has_arg(args, "--file"@)),
        args.len() > 0 && (args[0]@ == "decrypt"@ || args[0]@ == "d"@ || args[0]@ == "info"@
            || args[0]@ == "i"@) && !has_arg(args, "--base64"@) && !has_arg(args, "--hex"@)
            && has_arg(args, "--file"@) ==> removed_cli_form_spec(args) == Some(
            "error: --file was removed here; pass the .otp path as an argument"@,
        ),
        args.len() > 0 && (has_arg(args, "--base64"@) || has_arg(args, "--hex"@))
            ==> removed_cli_form_spec(args) == Some(
            "error: --base64 and --hex were removed; use --encoding base64 or --encoding hex"@,
        ),
        args.len() > 0 && !has_arg(args, "--base64"@) && !has_arg(args, "--hex"@) && (args[0]@
            == "keygen"@ || args[0]@ == "k"@) ==> removed_cli_form_spec(args) == Some(
            "error: coldpad keygen was removed; use coldpad key generate"@,
        ),
        args.len() > 0 && !has_arg(args, "--base64"@) && !has_arg(args, "--hex"@) && args[0]@
            == "wrap-key"@ ==> removed_cli_form_spec(args) == Some(
            "error: coldpad wrap-key was removed; use coldpad key wrap"@,
        ),
        args.len() > 0 && !has_arg(args, "--base64"@) && !has_arg(args, "--hex"@) && args[0]@
            == "unwrap-key"@ ==> removed_cli_form_spec(args) == Some(
            "error: coldpad unwrap-key was removed; use coldpad key unwrap"@,
        ),
        args.len() > 0 && !has_arg(args, "--base64"@) && !has_arg(args, "--hex"@) && args[0]@
            != "decrypt"@ && args[0]@ != "d"@ && args[0]@ != "info"@ && args[0]@ != "i"@
            && args[0]@ != "keygen"@ && args[0]@ != "k"@ && args[0]@ != "wrap-key"@ && args[0]@
            != "unwrap-key"@ ==> removed_cli_form_spec(args) is None,
        args.len() == 0 ==> removed_cli_form_spec(args) is None,
{
    lemma_cli_words();
}

} // verus!
