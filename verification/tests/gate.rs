use mcmod_run::eula::{
    accepted_content, agree_required_notice, auto_agree_hint, auto_agree_notice, content_accepts,
    declined_message, env_var_name, eula_dir_name, eula_file_name, eula_link_notice, gate_action,
    input_agrees, prompt_text, GateAction,
};

fn bytes(s: &str) -> Vec<u8> {
    s.as_bytes().to_vec()
}

#[test]
fn accepted_content_is_exact_bytes() {
    assert_eq!(accepted_content(), bytes("eula=true"));
}

#[test]
fn exact_line_accepts() {
    assert!(content_accepts(&bytes("eula=true")));
}

#[test]
fn line_with_surrounding_whitespace_accepts() {
    assert!(content_accepts(&bytes("   eula=true  \t")));
}

#[test]
fn line_with_trailing_newline_accepts() {
    assert!(content_accepts(&bytes("eula=true\n")));
}

#[test]
fn crlf_line_accepts() {
    assert!(content_accepts(&bytes("eula=true\r\n")));
}

#[test]
fn accepting_line_among_others_accepts() {
    let content = "# generated file\neula=false\n  eula=true \nsomething else\n";
    assert!(content_accepts(&bytes(content)));
}

#[test]
fn empty_content_rejects() {
    assert!(!content_accepts(&bytes("")));
}

#[test]
fn false_line_rejects() {
    assert!(!content_accepts(&bytes("eula=false\n")));
}

#[test]
fn embedded_text_rejects() {
    assert!(!content_accepts(&bytes("xeula=true\n")));
    assert!(!content_accepts(&bytes("eula=true x\n")));
    assert!(!content_accepts(&bytes("aaeula=trueaa\n")));
}

#[test]
fn inner_spaces_reject() {
    assert!(!content_accepts(&bytes("eula = true\n")));
}

#[test]
fn accepting_text_split_across_lines_rejects() {
    assert!(!content_accepts(&bytes("eula=\ntrue\n")));
}

#[test]
fn accepting_file_wins_over_everything() {
    let content = Some(bytes("eula=true\n"));
    assert_eq!(
        gate_action(&content, &None),
        GateAction::AlreadyAccepted
    );
    assert_eq!(
        gate_action(&content, &Some(bytes("true"))),
        GateAction::AlreadyAccepted
    );
}

#[test]
fn env_true_auto_accepts() {
    assert_eq!(
        gate_action(&None, &Some(bytes("true"))),
        GateAction::AutoAccept
    );
}

#[test]
fn env_one_auto_accepts() {
    assert_eq!(
        gate_action(&Some(bytes("eula=false\n")), &Some(bytes("1"))),
        GateAction::AutoAccept
    );
}

#[test]
fn env_is_matched_exactly() {
    assert_eq!(gate_action(&None, &Some(bytes("TRUE"))), GateAction::Prompt);
    assert_eq!(gate_action(&None, &Some(bytes(" true"))), GateAction::Prompt);
    assert_eq!(gate_action(&None, &Some(bytes("0"))), GateAction::Prompt);
    assert_eq!(gate_action(&None, &Some(bytes(""))), GateAction::Prompt);
}

#[test]
fn unset_env_and_missing_file_prompt() {
    assert_eq!(gate_action(&None, &None), GateAction::Prompt);
}

#[test]
fn non_accepting_file_and_unset_env_prompt() {
    assert_eq!(
        gate_action(&Some(bytes("eula=false\n")), &None),
        GateAction::Prompt
    );
}

#[test]
fn lowercase_answer_agrees() {
    assert!(input_agrees(&bytes("y\n")));
}

#[test]
fn uppercase_answer_agrees() {
    assert!(input_agrees(&bytes("Y\r\n")));
}

#[test]
fn padded_answer_agrees() {
    assert!(input_agrees(&bytes("  y  \n")));
}

#[test]
fn other_answers_decline() {
    assert!(!input_agrees(&bytes("n\n")));
    assert!(!input_agrees(&bytes("yes\n")));
    assert!(!input_agrees(&bytes("\n")));
    assert!(!input_agrees(&bytes("")));
    assert!(!input_agrees(&bytes("y y\n")));
}

#[test]
fn gate_is_idempotent_after_write() {
    // A write is asked for only when the file does not yet accept; what gets
    // written is accepted_content(). A second call then sees an accepting
    // file and performs no further write or prompt, whatever the override is.
    let first = gate_action(&None, &Some(bytes("1")));
    assert_eq!(first, GateAction::AutoAccept);
    let persisted = Some(accepted_content());
    let second = gate_action(&persisted, &Some(bytes("1")));
    assert_eq!(second, GateAction::AlreadyAccepted);
    let third = gate_action(&persisted, &None);
    assert_eq!(third, GateAction::AlreadyAccepted);
}

#[test]
fn interface_names_are_pinned() {
    assert_eq!(env_var_name(), "MCMOD_EULA_AUTO_AGREE");
    assert_eq!(eula_dir_name(), "run");
    assert_eq!(eula_file_name(), "eula.txt");
}

#[test]
fn notices_are_pinned() {
    assert_eq!(
        auto_agree_notice(),
        "Automatically agreeing to EULA to run the server (because MCMOD_EULA_AUTO_AGREE is set)"
    );
    assert_eq!(
        eula_link_notice(),
        "Please read the EULA at https://account.mojang.com/documents/minecraft_eula"
    );
    assert_eq!(
        agree_required_notice(),
        "Agreeing to the EULA is required to launch the server"
    );
    assert_eq!(
        auto_agree_hint(),
        "You can set MCMOD_EULA_AUTO_AGREE=true to automatically agree to the EULA"
    );
    assert_eq!(prompt_text(), "Do you want to agree to the EULA? (y/N) ");
    assert_eq!(declined_message(), "EULA not agreed");
}
