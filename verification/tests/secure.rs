use coldpad::output;
use coldpad::secure::{
    encrypt_ciphertext_path, encrypt_output_prompt_lines, encrypt_output_stem_from_ciphertext_answer,
    step_action_for_key, workflow_action_for_key, EncryptSource, EncryptWizardInput, KeyPress,
    StepAction, StepMenuItem, ENCRYPT_CIPHERTEXT_PROMPT, WORKFLOW_COUNT,
};

#[test]
fn workflow_key_actions_support_numbers_letters_and_enter() {
    assert_eq!(workflow_action_for_key(KeyPress::Char('1'), 4), Some(0));
    assert_eq!(workflow_action_for_key(KeyPress::Char('k'), 0), Some(2));
    assert_eq!(workflow_action_for_key(KeyPress::Enter, 5), Some(5));
    assert_eq!(
        workflow_action_for_key(KeyPress::Escape, 0),
        Some(WORKFLOW_COUNT - 1)
    );
}

#[test]
fn step_key_actions_support_selected_rows_controls_and_aliases() {
    let items = [
        StepMenuItem {
            key: "1",
            title: "Raw",
            description: "Store raw bytes",
            aliases: &["raw"],
        },
        StepMenuItem {
            key: "2",
            title: "Base64",
            description: "Store printable Base64 text",
            aliases: &["base64", "b64"],
        },
        StepMenuItem {
            key: "3",
            title: "Hex",
            description: "Store printable hexadecimal text",
            aliases: &["hex"],
        },
    ];

    assert!(matches!(
        step_action_for_key(KeyPress::Enter, 1, &items, true),
        Some(StepAction::Select(1))
    ));
    assert!(matches!(
        step_action_for_key(KeyPress::Enter, 3, &items, true),
        Some(StepAction::Back)
    ));
    assert!(matches!(
        step_action_for_key(KeyPress::Enter, 4, &items, true),
        Some(StepAction::Cancel)
    ));
    assert!(matches!(
        step_action_for_key(KeyPress::Char('h'), 0, &items, true),
        Some(StepAction::Select(2))
    ));
}

#[test]
fn encrypt_output_prompt_uses_ciphertext_file_copy() {
    let input = EncryptWizardInput {
        source: EncryptSource::Text,
        text: Some("secret".to_string()),
        file: None,
        size: 6,
    };

    let lines = encrypt_output_prompt_lines(&input, true).join("\n");

    assert!(lines.contains("Choose output"));
    assert!(lines.contains("Ciphertext"));
    assert!(lines.contains("output.otp"));
    assert!(lines.contains("output.otp.key"));
    assert!(lines.contains("Type :back"));
    assert!(lines.contains(":cancel"));
    assert!(!lines.contains("Output stem"));
    assert!(!lines.contains("Back"));
    assert!(!lines.contains("Cancel"));
    assert_eq!(
        output::prompt_text(ENCRYPT_CIPHERTEXT_PROMPT),
        "Ciphertext file \u{203a} "
    );
}

#[test]
fn encrypt_output_stem_accepts_ciphertext_paths() {
    assert_eq!(
        std::path::PathBuf::from(encrypt_ciphertext_path(
            None,
            encrypt_output_stem_from_ciphertext_answer("").as_deref()
        )),
        std::path::PathBuf::from("output.otp")
    );
    assert_eq!(
        std::path::PathBuf::from(encrypt_ciphertext_path(
            Some("plain.txt"),
            encrypt_output_stem_from_ciphertext_answer("").as_deref()
        )),
        std::path::PathBuf::from("plain.txt.otp")
    );
    assert_eq!(
        std::path::PathBuf::from(encrypt_ciphertext_path(
            None,
            encrypt_output_stem_from_ciphertext_answer("secure-out").as_deref()
        )),
        std::path::PathBuf::from("secure-out.otp")
    );
    assert_eq!(
        std::path::PathBuf::from(encrypt_ciphertext_path(
            None,
            encrypt_output_stem_from_ciphertext_answer("secure-out.otp").as_deref()
        )),
        std::path::PathBuf::from("secure-out.otp")
    );
    assert_eq!(
        std::path::PathBuf::from(encrypt_ciphertext_path(
            None,
            encrypt_output_stem_from_ciphertext_answer("dir/secure-out.otp").as_deref()
        )),
        std::path::PathBuf::from("dir/secure-out.otp")
    );
}
