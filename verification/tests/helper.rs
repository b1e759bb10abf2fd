use cce_display_manager::helper::{
    info_line, password_attempt_event, verdict_exit_code, verdict_line, AuthEvent, HelperReader,
    Verdict,
};
use cce_display_manager::pam::{
    c_string_text, call_label, conversation_reply, end_calls, find_env, get_env, PamCall, PamNext,
    PamRun, PromptReply, PromptStyle,
};

fn failure(id: u64, msg: &str) -> AuthEvent {
    AuthEvent::Failure { request_id: id, err_msg: msg.to_string() }
}

#[test]
fn a_helper_reports_messages_and_one_outcome() {
    let mut r = HelperReader::new(7, "lucas");
    assert_eq!(
        r.feed(&info_line("Place your\nfinger")),
        Some(AuthEvent::Info { request_id: 7, msg: "Place your finger".to_string() })
    );
    assert_eq!(r.feed("noise"), None);
    assert_eq!(r.feed("OK "), None);
    assert_eq!(r.finish(), Some(failure(7, "Fingerprint helper exited")));
    assert_eq!(
        r.feed(&verdict_line(&Verdict::Verified)),
        Some(AuthEvent::Success { request_id: 7, username: "lucas".to_string() })
    );
    assert_eq!(r.finish(), None);
}

#[test]
fn a_failed_helper_says_why() {
    let mut r = HelperReader::new(1, "lucas");
    let refused = Verdict::Refused("MAXTRIES".to_string());
    assert_eq!(verdict_line(&refused), "FAIL|MAXTRIES");
    assert_eq!(r.feed(&verdict_line(&refused)), Some(failure(1, "MAXTRIES")));
    assert_eq!(r.finish(), None);
    assert_eq!(verdict_line(&Verdict::Panicked), "FAIL|fingerprint worker panicked");
    assert_eq!(verdict_exit_code(&Verdict::Verified), 0);
    assert_eq!(verdict_exit_code(&refused), 1);
    assert_eq!(verdict_exit_code(&Verdict::Panicked), 1);
}

#[test]
fn a_password_attempt_reports_its_outcome() {
    assert_eq!(
        password_attempt_event(3, "lucas", Ok(())),
        AuthEvent::Success { request_id: 3, username: "lucas".to_string() }
    );
    assert_eq!(
        password_attempt_event(3, "lucas", Err("AUTH_ERR".to_string())),
        failure(3, "AUTH_ERR")
    );
    assert_eq!(failure(3, "x").request_id(), 3);
}

#[test]
fn pam_is_answered_by_the_kind_of_its_question() {
    let reply = |style| conversation_reply(style, Some("Swipe"), "lucas", "p w");
    assert_eq!(reply(PromptStyle::EchoOn), PromptReply::Answer("lucas".to_string()));
    assert_eq!(reply(PromptStyle::EchoOff), PromptReply::Answer("p w".to_string()));
    assert_eq!(reply(PromptStyle::TextInfo), PromptReply::Show("Swipe".to_string()));
    assert_eq!(reply(PromptStyle::ErrorMsg), PromptReply::Show("Swipe".to_string()));
    assert_eq!(reply(PromptStyle::Other), PromptReply::Silence);
    assert_eq!(conversation_reply(PromptStyle::TextInfo, None, "u", "p"), PromptReply::Silence);
    assert_eq!(c_string_text("a\0b"), "");
    assert_eq!(c_string_text("ab"), "ab");
}

#[test]
fn a_check_makes_both_calls() {
    let mut run = PamRun::check();
    assert_eq!(run.first(), PamNext::Call(PamCall::Authenticate));
    assert_eq!(run.returned(0), PamNext::Call(PamCall::AcctMgmt));
    assert_eq!(run.returned(0), PamNext::Done);
    let mut run = PamRun::check();
    assert_eq!(run.returned(7), PamNext::Failed(7));
}

#[test]
fn a_session_sets_credentials_twice() {
    let mut run = PamRun::open();
    assert_eq!(run.first(), PamNext::Call(PamCall::EstablishCred));
    assert_eq!(run.returned(0), PamNext::Call(PamCall::OpenSession));
    assert_eq!(run.returned(0), PamNext::Call(PamCall::ReinitializeCred));
    assert_eq!(run.returned(5), PamNext::Failed(5));
    assert_eq!(
        end_calls(true),
        vec![PamCall::CloseSession, PamCall::DeleteCred, PamCall::End]
    );
    assert_eq!(end_calls(false), vec![PamCall::DeleteCred, PamCall::End]);
}

#[test]
fn a_trial_opens_a_session() {
    let mut run = PamRun::trial();
    let mut labels = vec![];
    let mut next = run.first();
    while let PamNext::Call(call) = next {
        labels.push(call_label(call));
        next = run.returned(0);
    }
    assert_eq!(next, PamNext::Done);
    assert_eq!(
        labels,
        vec!["pam_authenticate", "pam_acct_mgmt", "pam_setcred (establish)", "pam_open_session"]
    );
}

#[test]
fn the_environment_of_pam_is_read() {
    let list = vec!["A=1".to_string(), "B=x=y".to_string(), "none".to_string(), "A=2".to_string()];
    let env = get_env(&list);
    assert_eq!(
        env,
        vec![
            ("A".to_string(), "1".to_string()),
            ("B".to_string(), "x=y".to_string()),
            ("A".to_string(), "2".to_string()),
        ]
    );
    assert_eq!(find_env(&env, "A"), Some("1".to_string()));
    assert_eq!(find_env(&env, "C"), None);
}
