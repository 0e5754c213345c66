use coldpad::cli::{removed_cli_form, Encoding};
use coldpad::commands::{
    decrypt_verified,
    looks_binary, needs_trailing_newline,
    decrypt_contents, encrypt_contents, info_check, preflight_output_paths, unwrap_key_file,
    EncryptResult,
};
use coldpad::encoding::{decode_if_armored, encode_armored};
use coldpad::hash::{compute, verify};
use coldpad::key::{
    decode_key_file, encrypt_stem, key_matches_status, keygen_name, planned_encrypt_paths,
    size_mismatch, verify_decryption, IntegrityCheck,
};
use coldpad::output::{
    choice_row_lines, divider, field_lines, progress_line, workflow_header_lines, ChoiceRow, Field,
    WorkflowStatus, WORKFLOW_WIDTH,
};
use coldpad::plan::{
    encrypt_success_lines, existing_count, existing_warning, planned_file, proceed_description,
    review_file_lines, write_plan_lines, write_question,
};
use coldpad::prompt::{
    confirm_answer, encoding_for_selection, fallback_step_answer, prompt_label, select_answer,
    yes_no_answer,
};
use coldpad::secure::{
    encrypt_progress_items, format_bytes, initial_selection, navigate, source_description,
    step_action_for_answer, step_action_for_key, step_action_for_key_text, step_choice_count,
    step_menu_lines, step_menu_row, step_value_or_flow, wizard_text_control,
    workflow_action_for_answer, workflow_menu_lines, EncryptSource, FlowExit, KeyPress,
    StepAction, StepMenuItem, StepMenuView, StepValue, WizardNext,
};
use coldpad::secure::{
    encrypt_header_lines, encrypt_progress_lines, step_choice_lines,
};
use coldpad::output::prompt_text;
use coldpad::secure::{
    confirmation_flow, encoding_for_action, encrypt_wizard_next, scripted_encoding_heading,
    shows_menu_again, source_for_selection, yes_no_for_action,
};
use coldpad::key::{password_source, PasswordSource};
use coldpad::commit::{commit_start, commit_step, CommitError, CommitState, FsAction, FsEvent};
use coldpad::commands::required;
use coldpad::prompt::{check_select_options, confirm_password};
use coldpad::plan::temp_file_name;
use coldpad::terminal::color;
use coldpad::text::first_line;
use coldpad::wrap::{format_wrapped_key, parse_wrapped_key, wrap_key, WrapError};
use coldpad::{decrypt, encrypt, generate_key};

fn strings(v: &[&str]) -> Vec<String> {
    v.iter().map(|s| s.to_string()).collect()
}

fn encoding_items() -> [StepMenuItem<'static>; 3] {
    [
        StepMenuItem {
            key: "1",
            title: "Raw",
            description: "Store raw bytes",
            aliases: &["raw"],
        },
        StepMenuItem {
            key: "2",
            title: "Base64",
            description: "Store printable Base64 text",
            aliases: &["base64", "b64"],
        },
        StepMenuItem {
            key: "3",
            title: "Hex",
            description: "Store printable hexadecimal text",
            aliases: &["hex"],
        },
    ]
}

#[test]
fn sha256_of_hello_is_known_digest() {
    assert_eq!(
        compute(b"hello"),
        "2cf24dba5fb0a30e26e83b2ac5b9e29e1b161e5c1fa7425e73043362938b9824"
    );
    assert!(verify(
        b"hello",
        "2cf24dba5fb0a30e26e83b2ac5b9e29e1b161e5c1fa7425e73043362938b9824"
    ));
    assert!(!verify(b"hello", "2CF24DBA"));
}

#[test]
fn xor_pad_on_known_bytes() {
    let ciphertext = encrypt(&[0x0f, 0xf0, 0xaa], &[0xff, 0xff, 0x0f]);
    assert_eq!(ciphertext, vec![0xf0, 0x0f, 0xa5]);
    assert_eq!(decrypt(&ciphertext, &[0xff, 0xff, 0x0f]), vec![0x0f, 0xf0, 0xaa]);
}

#[test]
fn armor_writes_known_text() {
    assert_eq!(encode_armored(b"hello", Encoding::Base64), b"aGVsbG8=".to_vec());
    assert_eq!(encode_armored(b"hi", Encoding::Base64), b"aGk=".to_vec());
    assert_eq!(encode_armored(&[0xfb, 0xff], Encoding::Base64), b"+/8=".to_vec());
    assert_eq!(encode_armored(b"", Encoding::Base64), Vec::<u8>::new());
    assert_eq!(encode_armored(&[0x01, 0xab, 0xff], Encoding::Hex), b"01abff".to_vec());
    assert_eq!(encode_armored(&[0x00, 0x10], Encoding::Raw), vec![0x00, 0x10]);
}

#[test]
fn armor_roundtrips_in_every_encoding() {
    let data = generate_key(97);
    for encoding in [Encoding::Raw, Encoding::Base64, Encoding::Hex] {
        let armored = encode_armored(&data, encoding);
        assert_eq!(decode_if_armored(armored, encoding, "key").unwrap(), data);
    }
}

#[test]
fn armored_text_is_read_with_surrounding_white_space() {
    assert_eq!(
        decode_if_armored(b"  aGVsbG8=\n".to_vec(), Encoding::Base64, "ciphertext").unwrap(),
        b"hello".to_vec()
    );
    assert_eq!(
        decode_if_armored(b"\t01ab\r\n".to_vec(), Encoding::Hex, "ciphertext").unwrap(),
        vec![0x01, 0xab]
    );
}

#[test]
fn armored_text_errors_name_the_file() {
    assert_eq!(
        decode_if_armored(vec![0xff, 0xfe], Encoding::Hex, "key").unwrap_err(),
        "key is not valid UTF-8 (required for hex)"
    );
    assert_eq!(
        decode_if_armored(vec![0xff], Encoding::Base64, "ciphertext").unwrap_err(),
        "ciphertext is not valid UTF-8 (required for base64)"
    );
    assert!(decode_if_armored(b"zz".to_vec(), Encoding::Hex, "ciphertext")
        .unwrap_err()
        .starts_with("ciphertext is not valid hex: "));
    assert!(decode_if_armored(b"a!b".to_vec(), Encoding::Base64, "key")
        .unwrap_err()
        .starts_with("key is not valid base64: "));
}

#[test]
fn encrypted_files_decrypt_in_every_encoding() {
    for encoding in [Encoding::Raw, Encoding::Base64, Encoding::Hex] {
        let files = encrypt_contents(b"secret", encoding, None, true);
        assert_eq!(files.key_bytes, 6);
        assert_eq!(files.ciphertext_bytes, 6);
        assert_eq!(
            files.hash_file.clone().unwrap(),
            compute(b"secret").into_bytes()
        );
        let decrypted = decrypt_contents(files.ciphertext_file, files.key_file, encoding, None)
            .unwrap();
        assert_eq!(decrypted.plaintext, b"secret".to_vec());
    }
}

#[test]
fn encrypted_files_with_password_decrypt_with_it() {
    for encoding in [Encoding::Raw, Encoding::Base64] {
        let files = encrypt_contents(b"secret", encoding, Some("pw"), false);
        assert!(files.hash_file.is_none());
        assert!(coldpad::wrap::is_wrapped_key(&files.key_file));
        let decrypted = decrypt_contents(
            files.ciphertext_file,
            files.key_file,
            encoding,
            Some("pw".to_string()),
        )
        .unwrap();
        assert_eq!(decrypted.plaintext, b"secret".to_vec());
    }
}

#[test]
fn wrapped_key_with_wrong_password_is_refused() {
    let files = encrypt_contents(b"secret", Encoding::Raw, Some("pw"), false);
    let result = decrypt_contents(
        files.ciphertext_file,
        files.key_file,
        Encoding::Raw,
        Some("wrong".to_string()),
    );
    assert_eq!(
        result.err().unwrap(),
        "failed to unwrap key: wrong password or tampered wrapped key"
    );
}

#[test]
fn wrapped_key_without_password_is_refused() {
    let wrapped = wrap_key(b"key", "pw");
    assert_eq!(
        decode_key_file(wrapped, Encoding::Raw, None).unwrap_err(),
        "password required for wrapped key"
    );
}

#[test]
fn key_of_other_length_is_a_size_mismatch() {
    let result = decrypt_contents(b"hello".to_vec(), b"abc".to_vec(), Encoding::Raw, None);
    assert_eq!(
        result.err().unwrap(),
        "key size mismatch: 3 bytes for 5 bytes of ciphertext"
    );
    assert_eq!(
        size_mismatch(12, 3),
        "key size mismatch: 12 bytes for 3 bytes of ciphertext"
    );
}

#[test]
fn integrity_checks_after_decryption() {
    let hash = compute(b"hello");
    assert_eq!(
        verify_decryption(b"12345", b"abcde", b"hello", Some(&hash)),
        Ok(IntegrityCheck::HashVerified)
    );
    assert_eq!(
        verify_decryption(b"12345", b"abcde", b"jello", Some(&hash)),
        Err("ciphertext has been tampered with or wrong key".to_string())
    );
    assert_eq!(
        verify_decryption(b"12345", b"abcde", b"hello", None),
        Ok(IntegrityCheck::KeyLengthMatches)
    );
    assert_eq!(
        verify_decryption(b"12345", b"abc", b"hello", None),
        Err("key size mismatch: 3 bytes for 5 bytes of ciphertext".to_string())
    );
}

#[test]
fn info_checks_length_then_hash() {
    let key = generate_key(6);
    let ciphertext = encrypt(b"secret", &key);
    let hash = compute(b"secret");
    assert_eq!(info_check(&ciphertext, &key, Some(&hash)), Ok(true));
    assert_eq!(info_check(&ciphertext, &key, None), Ok(false));
    assert_eq!(
        info_check(&ciphertext, &key[..5], Some(&hash)),
        Err("key size does not match ciphertext".to_string())
    );
    assert_eq!(
        info_check(&ciphertext, &key, Some(&compute(b"other"))),
        Err("ciphertext has been tampered with or wrong key".to_string())
    );
}

#[test]
fn key_unwrap_refuses_plain_keys() {
    assert_eq!(
        unwrap_key_file(b"plain key", "pw"),
        Err("key file is not password-protected".to_string())
    );
    let wrapped = wrap_key(b"plain key", "pw");
    assert_eq!(unwrap_key_file(&wrapped, "pw"), Ok(b"plain key".to_vec()));
    assert_eq!(
        unwrap_key_file(&wrapped, "other"),
        Err("failed to unwrap key: wrong password or tampered wrapped key".to_string())
    );
}

#[test]
fn wrapped_key_file_layout_roundtrips() {
    let salt = [7u8; 16];
    let nonce = [9u8; 12];
    let text = format_wrapped_key(&salt, &nonce, &[0xde, 0xad]);
    let expected = format!(
        "coldpad-wrapped-key-v1\nsalt:{}\nnonce:{}\nciphertext:dead\n",
        "07".repeat(16),
        "09".repeat(12)
    );
    assert_eq!(String::from_utf8(text.clone()).unwrap(), expected);
    let fields = parse_wrapped_key(&text).unwrap();
    assert_eq!(fields.salt, salt.to_vec());
    assert_eq!(fields.nonce, nonce.to_vec());
    assert_eq!(fields.ciphertext, vec![0xde, 0xad]);
    assert_eq!(
        parse_wrapped_key(b"coldpad-wrapped-key-v1\nsalt:zz\n").err(),
        Some(WrapError::InvalidFormat)
    );
}

#[test]
fn wrap_error_messages() {
    assert_eq!(WrapError::InvalidFormat.message(), "invalid wrapped key format");
    assert_eq!(
        WrapError::AuthenticationFailed.message(),
        "wrong password or tampered wrapped key"
    );
}

#[test]
fn planned_paths_and_names() {
    assert_eq!(
        planned_encrypt_paths("x", true),
        strings(&["x.otp", "x.otp.key", "x.otp.sha256"])
    );
    assert_eq!(planned_encrypt_paths("x", false), strings(&["x.otp", "x.otp.key"]));
    assert_eq!(encrypt_stem(None, None), "output");
    assert_eq!(encrypt_stem(Some("dir/plain.txt"), None), "plain.txt");
    assert_eq!(encrypt_stem(Some("dir/plain.txt"), Some("out")), "out");
    assert_eq!(keygen_name(123), "key_123.key");
    let name = coldpad::key::default_keygen_name();
    assert!(name.starts_with("key_") && name.ends_with(".key"));
}

#[test]
fn existing_outputs_stop_without_force() {
    let paths = strings(&["a.otp", "a.otp.key"]);
    assert_eq!(
        preflight_output_paths(&paths, &[false, true], false),
        Err("'a.otp.key' already exists (use --force to overwrite)".to_string())
    );
    assert_eq!(preflight_output_paths(&paths, &[true, true], true), Ok(()));
    assert_eq!(preflight_output_paths(&paths, &[false, false], false), Ok(()));
}

#[test]
fn removed_command_line_forms_are_named() {
    assert!(removed_cli_form(&strings(&["encrypt", "--base64", "secret"]))
        .unwrap()
        .contains("--encoding base64"));
    assert!(removed_cli_form(&strings(&["info", "--file", "output.otp"]))
        .unwrap()
        .contains("--file was removed"));
    assert!(removed_cli_form(&strings(&["keygen"]))
        .unwrap()
        .contains("coldpad key generate"));
    assert!(removed_cli_form(&strings(&["wrap-key"]))
        .unwrap()
        .contains("coldpad key wrap"));
    assert!(removed_cli_form(&strings(&["unwrap-key"]))
        .unwrap()
        .contains("coldpad key unwrap"));
    assert_eq!(removed_cli_form(&strings(&["encrypt", "--file", "a"])), None);
    assert_eq!(removed_cli_form(&[]), None);
}

#[test]
fn colour_codes_wrap_text() {
    assert_eq!(color("31", "x", false), "\u{1b}[31mx\u{1b}[0m");
    assert_eq!(color("31", "x", true), "x");
    assert_eq!(key_matches_status("a.otp.sha256", true), "a.otp.sha256  (missing)  key matches");
}

#[test]
fn workflow_header_fills_the_width() {
    let lines = workflow_header_lines(
        "coldpad secure / encrypt",
        WorkflowStatus::Step(2, 4),
        WORKFLOW_WIDTH,
        true,
    );
    assert_eq!(
        lines,
        strings(&[
            "coldpad secure / encrypt                                     step 2 of 4",
            "guided one-time-pad workflow",
            &divider(72),
            "",
        ])
    );
    assert_eq!(divider(3), "\u{2500}\u{2500}\u{2500}");
}

#[test]
fn progress_choice_and_field_lines() {
    let items = encrypt_progress_items(2, Some(EncryptSource::Text));
    assert_eq!(
        progress_line(&items, true),
        "[\u{2713}] Source   [>] Plaintext   [ ] Output   [ ] Confirm"
    );
    let rows = [
        ChoiceRow {
            selected: true,
            key: "1",
            label: "Raw",
            description: "Store raw bytes",
        },
        ChoiceRow {
            selected: false,
            key: "b",
            label: "Back",
            description: "Return to main menu",
        },
    ];
    assert_eq!(
        choice_row_lines(&rows, true),
        strings(&[
            "  >   1   Raw      Store raw bytes",
            "      b   Back     Return to main menu"
        ])
    );
    let fields = [
        Field {
            label: "Input",
            value: "Text input".to_string(),
        },
        Field {
            label: "Size",
            value: "6 bytes".to_string(),
        },
    ];
    assert_eq!(
        field_lines(&fields, true),
        strings(&["  Input     Text input", "  Size      6 bytes"])
    );
}

#[test]
fn main_menu_lines() {
    let lines = workflow_menu_lines(1, WORKFLOW_WIDTH, "0.3.0", true);
    assert_eq!(
        lines,
        strings(&[
            "coldpad secure                                                    v0.3.0",
            "guided one-time-pad workflow",
            &divider(72),
            "",
            "      1   Encrypt            Text, stdin, or file         \u{2192}   .otp + key",
            "  >   2   Decrypt            .otp + key                   \u{2192}   plaintext",
            "      3   Keygen             Generate standalone key file",
            "",
            "      4   Info               Inspect .otp, key, hash     ",
            "      5   Wrap key           Password-protect a key file ",
            "      6   Unwrap key         Restore raw key file        ",
            "",
            "      q   Quit               Exit without changes        ",
        ])
    );
}

#[test]
fn step_menu_lines_with_controls() {
    let items = encoding_items();
    let view = StepMenuView {
        workflow: "keygen",
        step: 3,
        total: 4,
        heading: "Choose key encoding",
        items: &items,
        back: true,
    };
    assert_eq!(
        step_menu_lines(&view, 4, WORKFLOW_WIDTH, true),
        strings(&[
            "coldpad secure / keygen                                      step 3 of 4",
            "guided one-time-pad workflow",
            &divider(72),
            "",
            "Choose key encoding",
            "",
            "      1   Raw                Store raw bytes",
            "      2   Base64             Store printable Base64 text",
            "      3   Hex                Store printable hexadecimal text",
            "",
            "      b   Back               Return to main menu",
            "  >   q   Cancel             Exit without changes",
        ])
    );
    assert_eq!(
        step_menu_row(true, "y", "Yes", "Create integrity file", true),
        "  >   y   Yes                Create integrity file"
    );
}

#[test]
fn main_menu_answers() {
    assert_eq!(workflow_action_for_answer(""), Some(0));
    assert_eq!(workflow_action_for_answer(" Wrap "), Some(4));
    assert_eq!(workflow_action_for_answer("unwrap-key"), Some(5));
    assert_eq!(workflow_action_for_answer("3"), Some(2));
    assert_eq!(workflow_action_for_answer("7"), None);
    assert_eq!(workflow_action_for_answer("exit"), Some(6));
    assert_eq!(workflow_action_for_answer("i"), Some(3));
    assert_eq!(workflow_action_for_answer("x"), None);
}

#[test]
fn step_menu_answers() {
    let items = encoding_items();
    assert_eq!(step_action_for_answer("2", &items, true), Some(StepAction::Select(1)));
    assert_eq!(step_action_for_answer("4", &items, true), None);
    assert_eq!(step_action_for_answer(" B64 ", &items, true), Some(StepAction::Select(1)));
    assert_eq!(step_action_for_answer("back", &items, true), Some(StepAction::Back));
    assert_eq!(step_action_for_answer("back", &items, false), None);
    assert_eq!(step_action_for_answer("cancel", &items, false), Some(StepAction::Cancel));
    assert_eq!(step_action_for_key_text("r", &items, true), Some(StepAction::Select(0)));
    assert_eq!(step_action_for_key_text("z", &items, true), None);
    assert_eq!(step_action_for_key(KeyPress::Escape, 0, &items, true), Some(StepAction::Cancel));
    assert_eq!(step_action_for_key(KeyPress::ArrowUp, 0, &items, true), None);
    assert_eq!(step_choice_count(&items, true), 5);
    assert_eq!(step_choice_count(&items, false), 4);
}

#[test]
fn scripted_answers() {
    let items = encoding_items();
    assert_eq!(fallback_step_answer("HEX", &items, true), Some(StepAction::Select(2)));
    assert_eq!(fallback_step_answer("2", &items, true), Some(StepAction::Select(1)));
    assert_eq!(fallback_step_answer("b", &items, false), None);
    assert_eq!(fallback_step_answer("q", &items, false), Some(StepAction::Cancel));
    assert_eq!(yes_no_answer("", true), Some(true));
    assert_eq!(yes_no_answer("YES", false), Some(true));
    assert_eq!(yes_no_answer("n", true), Some(false));
    assert_eq!(yes_no_answer("maybe", true), None);
    let aliases: [&[&str]; 3] = [&["raw"], &["base64", "b64"], &["hex"]];
    assert_eq!(select_answer("3", 3, &aliases), Some(2));
    assert_eq!(select_answer("B64", 3, &aliases), Some(1));
    assert_eq!(select_answer("4", 3, &aliases), None);
    assert_eq!(encoding_for_selection(0), Encoding::Raw);
    assert_eq!(encoding_for_selection(1), Encoding::Base64);
    assert_eq!(encoding_for_selection(2), Encoding::Hex);
    assert_eq!(prompt_label("  Key password: "), "Key password");
    assert_eq!(confirm_answer(""), Some(StepValue::Value(false)));
    assert_eq!(confirm_answer(" Yes "), Some(StepValue::Value(true)));
    assert_eq!(confirm_answer(":back"), Some(StepValue::Back));
    assert_eq!(confirm_answer(":CANCEL"), Some(StepValue::Cancel));
    assert_eq!(confirm_answer("later"), None);
}

#[test]
fn wizard_controls_and_navigation() {
    assert_eq!(wizard_text_control::<bool>(" :Back "), Some(StepValue::Back));
    assert_eq!(wizard_text_control::<bool>(":cancel"), Some(StepValue::Cancel));
    assert_eq!(wizard_text_control::<bool>("back"), None);
    assert_eq!(step_value_or_flow(StepValue::Value(3)), Ok(3));
    assert_eq!(step_value_or_flow::<u8>(StepValue::Back), Err(FlowExit::BackToMenu));
    assert_eq!(step_value_or_flow::<u8>(StepValue::Cancel), Err(FlowExit::Cancel));
    assert_eq!(navigate(KeyPress::ArrowDown, 4, 5), Some(0));
    assert_eq!(navigate(KeyPress::BackTab, 0, 5), Some(4));
    assert_eq!(navigate(KeyPress::Enter, 0, 5), None);
    assert_eq!(initial_selection(1, 5), 1);
    assert_eq!(initial_selection(9, 5), 4);
    assert_eq!(source_description(EncryptSource::Stdin), "Stdin input");
    assert_eq!(format_bytes(6), "6 bytes");
}

#[test]
fn write_plan_rows() {
    let paths = strings(&["output.otp", "output.otp.key", "output.otp.sha256"]);
    assert_eq!(
        write_plan_lines(&paths, &[false, true, false], true, false),
        strings(&[
            "  ciphertext   output.otp               new",
            "  key          output.otp.key           exists   mode 0600",
            "  hash         output.otp.sha256        new",
        ])
    );
    assert_eq!(
        review_file_lines(&paths[..1], &[true]),
        strings(&["  file         output.otp               exists"])
    );
    assert_eq!(existing_count(&[true, false, true]), 2);
    assert_eq!(write_question(0), "Create these files now?");
    assert_eq!(write_question(2), "Proceed and overwrite existing files?");
    assert_eq!(proceed_description(1), "Proceed and overwrite existing files");
    assert_eq!(existing_warning(2), "2 planned output file(s) already exist");
    assert_eq!(planned_file("a.key", false), "a.key  (new)");
}

#[test]
fn encryption_report_lines() {
    let result = EncryptResult {
        key_bytes: 6,
        ciphertext_bytes: 6,
        cipher_path: "output.otp".to_string(),
        key_path: "output.otp.key".to_string(),
        hash_path: Some("output.otp.sha256".to_string()),
        key_wrapped: true,
    };
    assert_eq!(
        encrypt_success_lines(&result, true),
        strings(&[
            "coldpad secure / encrypt                                        complete",
            "guided one-time-pad workflow",
            &divider(72),
            "",
            "  \u{2714} Encrypted 6 bytes",
            "",
            "  ciphertext   output.otp",
            "  key          output.otp.key           mode 0600 wrapped",
            "  hash         output.otp.sha256",
            "",
            "Next command",
            "",
            "  coldpad decrypt output.otp --password <password>",
            "",
            "Done.",
        ])
    );
}

#[test]
fn encryption_wizard_moves() {
    assert_eq!(encrypt_wizard_next(1, StepValue::Value(true)), WizardNext::Step(2));
    assert_eq!(encrypt_wizard_next(3, StepValue::Value(false)), WizardNext::Step(4));
    assert_eq!(
        encrypt_wizard_next(1, StepValue::Back),
        WizardNext::Exit(FlowExit::BackToMenu)
    );
    assert_eq!(encrypt_wizard_next(3, StepValue::Back), WizardNext::Step(2));
    assert_eq!(encrypt_wizard_next(4, StepValue::Back), WizardNext::Step(3));
    assert_eq!(encrypt_wizard_next(4, StepValue::Value(true)), WizardNext::Write);
    assert_eq!(
        encrypt_wizard_next(4, StepValue::Value(false)),
        WizardNext::Exit(FlowExit::Cancel)
    );
    assert_eq!(
        encrypt_wizard_next(2, StepValue::Cancel),
        WizardNext::Exit(FlowExit::Cancel)
    );
}

#[test]
fn workflow_step_outcomes() {
    assert_eq!(confirmation_flow(StepValue::Value(true)), Ok(()));
    assert_eq!(confirmation_flow(StepValue::Value(false)), Err(FlowExit::Cancel));
    assert_eq!(confirmation_flow(StepValue::Back), Err(FlowExit::BackToMenu));
    assert!(shows_menu_again(FlowExit::BackToMenu));
    assert!(!shows_menu_again(FlowExit::Done));
    assert!(!shows_menu_again(FlowExit::Cancel));
    assert_eq!(yes_no_for_action(StepAction::Select(0)), StepValue::Value(true));
    assert_eq!(yes_no_for_action(StepAction::Select(1)), StepValue::Value(false));
    assert_eq!(yes_no_for_action(StepAction::Back), StepValue::Back);
    assert_eq!(
        encoding_for_action(StepAction::Select(1)),
        StepValue::Value(Encoding::Base64)
    );
    assert_eq!(
        encoding_for_action(StepAction::Select(5)),
        StepValue::Value(Encoding::Hex)
    );
    assert_eq!(encoding_for_action(StepAction::Cancel), StepValue::Cancel);
    assert_eq!(source_for_selection(0), EncryptSource::Text);
    assert_eq!(source_for_selection(1), EncryptSource::File);
    assert_eq!(source_for_selection(2), EncryptSource::Stdin);
    assert_eq!(scripted_encoding_heading(true), "Choose ciphertext encoding");
    assert_eq!(
        scripted_encoding_heading(false),
        "Choose ciphertext and key encoding"
    );
}

#[test]
fn first_line_of_password_files() {
    assert_eq!(first_line("secret\nnext\n"), "secret");
    assert_eq!(first_line("secret\r\nnext"), "secret");
    assert_eq!(first_line("secret"), "secret");
    assert_eq!(first_line("secret\r"), "secret\r");
    assert_eq!(first_line("\nsecret"), "");
    assert_eq!(first_line(""), "");
    for text in ["a\r\n", "p\u{e9}ss\nx", "\r\n", "x\ry\n"] {
        assert_eq!(first_line(text), text.lines().next().unwrap_or(""));
    }
}

#[test]
fn staging_file_names() {
    assert_eq!(
        temp_file_name("out.otp", "tmp", 42, 7),
        ".out.otp.coldpad-tmp-42-7"
    );
}

#[test]
fn encryption_wizard_screens() {
    let header = encrypt_header_lines(2, true);
    assert_eq!(
        header[0],
        "coldpad secure / encrypt                                     step 2 of 4"
    );
    assert_eq!(header.len(), 4);
    assert_eq!(
        encrypt_progress_lines(3, Some(EncryptSource::File), true),
        strings(&["[\u{2713}] Source   [\u{2713}] Input   [>] Output   [ ] Confirm", ""])
    );
    let items = [
        StepMenuItem {
            key: "y",
            title: "Proceed",
            description: "Create these files now",
            aliases: &["yes", "proceed"],
        },
        StepMenuItem {
            key: "n",
            title: "Abort",
            description: "Return without writing files",
            aliases: &["no", "abort"],
        },
    ];
    assert_eq!(
        step_choice_lines(&items, 0, true, "Return to previous step", true),
        strings(&[
            "  >   y   Proceed  Create these files now",
            "      n   Abort    Return without writing files",
            "",
            "      b   Back     Return to previous step",
            "      q   Cancel   Exit without changes",
            "",
        ])
    );
    assert_eq!(prompt_text("File path"), "File path \u{203a} ");
}

#[test]
fn password_sources_in_order() {
    assert_eq!(password_source(true, true, true, true), PasswordSource::Given);
    assert_eq!(password_source(false, true, true, true), PasswordSource::Environment);
    assert_eq!(password_source(false, false, true, true), PasswordSource::File);
    assert_eq!(password_source(false, false, false, true), PasswordSource::Prompt);
    assert_eq!(password_source(false, false, false, false), PasswordSource::Missing);
}

#[test]
fn printed_plaintext_checks() {
    assert!(looks_binary(&[0x41, 0x00, 0x42]));
    assert!(!looks_binary(b"text"));
    assert!(!looks_binary(b""));
    assert!(needs_trailing_newline(b"text"));
    assert!(needs_trailing_newline(b""));
    assert!(!needs_trailing_newline(b"text\n"));
}

fn run_commit(count: usize, force: bool, events: &[(FsAction, FsEvent)]) -> Vec<FsAction> {
    let (mut state, mut action): (CommitState, FsAction) = commit_start(count, force);
    let mut seen = vec![action];
    for (expected, event) in events {
        assert_eq!(action, *expected);
        let next = commit_step(state, *event);
        state = next.0;
        action = next.1;
        seen.push(action);
    }
    seen
}

#[test]
fn transaction_links_then_cleans_up() {
    let done = FsEvent::Done;
    let seen = run_commit(
        2,
        false,
        &[
            (FsAction::WriteTemp(0), done),
            (FsAction::WriteTemp(1), done),
            (FsAction::LinkTemp(0), done),
            (FsAction::LinkTemp(1), done),
            (FsAction::RemoveTemp(0), done),
            (FsAction::RemoveTemp(1), done),
        ],
    );
    assert_eq!(*seen.last().unwrap(), FsAction::Succeed);
    assert_eq!(commit_start(0, false).1, FsAction::Succeed);
    assert_eq!(commit_start(0, true).1, FsAction::Succeed);
}

#[test]
fn transaction_undoes_links_when_a_destination_exists() {
    let done = FsEvent::Done;
    let seen = run_commit(
        2,
        false,
        &[
            (FsAction::WriteTemp(0), done),
            (FsAction::WriteTemp(1), done),
            (FsAction::LinkTemp(0), done),
            (FsAction::LinkTemp(1), FsEvent::Failed { already_exists: true }),
            (FsAction::RemovePath(0), done),
            (FsAction::RemoveTemp(0), FsEvent::Failed { already_exists: false }),
            (FsAction::RemoveTemp(1), done),
        ],
    );
    assert_eq!(*seen.last().unwrap(), FsAction::Fail(CommitError::Exists(1)));
}

#[test]
fn forced_transaction_restores_backups_on_failure() {
    let done = FsEvent::Done;
    let seen = run_commit(
        2,
        true,
        &[
            (FsAction::WriteTemp(0), done),
            (FsAction::WriteTemp(1), done),
            (FsAction::Inspect(0), FsEvent::Found { directory: false }),
            (FsAction::BackUp(0), done),
            (FsAction::Inspect(1), FsEvent::Absent),
            (FsAction::RenameTemp(0), done),
            (FsAction::RenameTemp(1), FsEvent::Failed { already_exists: false }),
            (FsAction::RemovePath(0), done),
            (FsAction::RestoreBackup(0), done),
            (FsAction::RemoveTemp(1), done),
        ],
    );
    assert_eq!(*seen.last().unwrap(), FsAction::Fail(CommitError::Commit(1)));
}

#[test]
fn forced_transaction_removes_backups_after_success() {
    let done = FsEvent::Done;
    let seen = run_commit(
        1,
        true,
        &[
            (FsAction::WriteTemp(0), done),
            (FsAction::Inspect(0), FsEvent::Found { directory: false }),
            (FsAction::BackUp(0), done),
            (FsAction::RenameTemp(0), done),
            (FsAction::RemoveBackup(0), done),
        ],
    );
    assert_eq!(*seen.last().unwrap(), FsAction::Succeed);
}

#[test]
fn forced_transaction_refuses_directories() {
    let done = FsEvent::Done;
    let seen = run_commit(
        2,
        true,
        &[
            (FsAction::WriteTemp(0), done),
            (FsAction::WriteTemp(1), done),
            (FsAction::Inspect(0), FsEvent::Found { directory: false }),
            (FsAction::BackUp(0), done),
            (FsAction::Inspect(1), FsEvent::Found { directory: true }),
            (FsAction::RestoreBackup(0), done),
            (FsAction::RemoveTemp(0), done),
            (FsAction::RemoveTemp(1), done),
        ],
    );
    assert_eq!(*seen.last().unwrap(), FsAction::Fail(CommitError::Directory(1)));
}

#[test]
fn transaction_stops_on_a_failed_stage() {
    let seen = run_commit(
        2,
        false,
        &[
            (FsAction::WriteTemp(0), FsEvent::Done),
            (FsAction::WriteTemp(1), FsEvent::Failed { already_exists: false }),
            (FsAction::RemoveTemp(0), FsEvent::Done),
        ],
    );
    assert_eq!(*seen.last().unwrap(), FsAction::Fail(CommitError::Stage(1)));
}

#[test]
fn checked_decryption_hands_back_only_matching_plaintext() {
    let files = encrypt_contents(b"secret", Encoding::Hex, None, true);
    let hash = String::from_utf8(files.hash_file.clone().unwrap()).unwrap();
    let verified = decrypt_verified(
        files.ciphertext_file.clone(),
        files.key_file.clone(),
        Encoding::Hex,
        None,
        Some(&hash),
    )
    .ok()
    .unwrap();
    assert_eq!(verified.decrypted.plaintext, b"secret".to_vec());
    assert_eq!(verified.check, IntegrityCheck::HashVerified);
    let other = compute(b"other");
    let refused = decrypt_verified(
        files.ciphertext_file.clone(),
        files.key_file.clone(),
        Encoding::Hex,
        None,
        Some(&other),
    )
    .err()
    .unwrap();
    assert_eq!(refused.message, "ciphertext has been tampered with or wrong key");
    assert_eq!(refused.decrypted_len, Some(6));
    let unchecked = decrypt_verified(files.ciphertext_file, files.key_file, Encoding::Hex, None, None)
        .ok()
        .unwrap();
    assert_eq!(unchecked.check, IntegrityCheck::KeyLengthMatches);
    let short = decrypt_verified(b"hello".to_vec(), b"abc".to_vec(), Encoding::Raw, None, None)
        .err()
        .unwrap();
    assert_eq!(short.message, "key size mismatch: 3 bytes for 5 bytes of ciphertext");
    assert_eq!(short.decrypted_len, None);
}

#[test]
fn other_wrapped_formats_are_refused() {
    let wrapped = String::from_utf8(wrap_key(b"key", "pw")).unwrap();
    let other = wrapped.replace("v1", "v2");
    assert_eq!(
        coldpad::wrap::unwrap_key(other.as_bytes(), "pw"),
        Err(WrapError::InvalidFormat)
    );
    assert_eq!(
        coldpad::wrap::unwrap_key(b"coldpad-wrapped-key-v1\nsalt:00\n", "pw"),
        Err(WrapError::InvalidFormat)
    );
}

#[test]
fn decode_errors_carry_the_decoder_text() {
    assert_eq!(
        decode_if_armored(b"zz".to_vec(), Encoding::Hex, "ciphertext").unwrap_err(),
        "ciphertext is not valid hex: Invalid character 'z' at position 0"
    );
    assert_eq!(
        decode_if_armored(b" abc\n".to_vec(), Encoding::Hex, "key").unwrap_err(),
        "key is not valid hex: Odd number of digits"
    );
    assert_eq!(
        decode_if_armored(b"a!bc".to_vec(), Encoding::Base64, "key").unwrap_err(),
        "key is not valid base64: Invalid symbol 33, offset 1."
    );
}

#[test]
fn small_command_decisions() {
    assert_eq!(required(Some(4usize), "missing"), Ok(4));
    assert_eq!(
        required::<usize>(None, "key length required: use --length <bytes>"),
        Err("key length required: use --length <bytes>".to_string())
    );
    assert_eq!(confirm_password("pw".to_string(), "pw"), Ok("pw".to_string()));
    assert_eq!(
        confirm_password("pw".to_string(), "px"),
        Err("passwords do not match".to_string())
    );
    assert_eq!(check_select_options(3, 3), Ok(()));
    assert_eq!(check_select_options(0, 0), Err("invalid prompt options".to_string()));
    assert_eq!(check_select_options(2, 3), Err("invalid prompt options".to_string()));
}

#[test]
fn base64_reading_requires_canonical_text() {
    assert_eq!(
        decode_if_armored(b"aGk=".to_vec(), Encoding::Base64, "key").unwrap(),
        b"hi".to_vec()
    );
    assert!(decode_if_armored(b"aGk".to_vec(), Encoding::Base64, "key").is_err());
    assert!(decode_if_armored(b"aGl=".to_vec(), Encoding::Base64, "key").is_err());
    assert!(decode_if_armored(b"aGk==".to_vec(), Encoding::Base64, "key").is_err());
}
