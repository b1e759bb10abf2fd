use cce_display_manager::bus::{LockState, SECOND};
use cce_display_manager::client::{
    compositor_socket, dismiss_orphaned_unlock_dialog, next_client_step, request_unlock,
    unreachable_text, ClientEvent, ClientStep, CloseReply, DismissStep,
};
use cce_display_manager::keyring::DbEntry;
use cce_display_manager::unlock::{
    connect_user_bus, decrypt_command, decrypt_password, first_unlock_step, is_unlock_request, name_deadline,
    ready_deadline, reply, request_budget, timeout_error, unlock_for, verify_keepassxc_owner, with_timeout,
    ConnectStep, OpenEvent, OpenRun, OpenStep, UnlockStep, UNKNOWN_REPLY, UNLOCK_REQUEST,
};

fn err(s: &str) -> Result<(), String> {
    Err(s.to_string())
}

fn owner(uid: u32, exe: &str, owner: u32) -> Result<(), String> {
    verify_keepassxc_owner(uid, &Ok(42), &Ok(exe.to_string()), &Ok(owner))
}

fn entry() -> DbEntry {
    DbEntry {
        name: "db".to_string(),
        database: "/d.kdbx".to_string(),
        keyfile: String::new(),
        cred_path: "/etc/cce/keyring-unlock/1000/db.cred".to_string(),
    }
}

#[test]
fn only_unlock_is_a_request() {
    assert!(is_unlock_request("unlock\n"));
    assert!(is_unlock_request(&format!("{UNLOCK_REQUEST}\n")));
    assert!(is_unlock_request("  unlock \r\n"));
    assert!(!is_unlock_request("lock\n"));
    assert!(!is_unlock_request(""));
}

#[test]
fn the_client_hears_success_only() {
    assert_eq!(reply(&Ok(())), "ok");
    assert_eq!(reply(&err("no")), "error: no");
    assert!(request_unlock("ok\n"));
    assert!(!request_unlock(&reply(&err("ok"))));
    assert!(!request_unlock(UNKNOWN_REPLY));
    assert!(!request_unlock(""));
    assert_eq!(
        unreachable_text("refused"),
        "cannot reach /run/cce-keyring-unlock.sock (is cce-keyring-unlockd running?): refused"
    );
}

#[test]
fn connecting_gives_root_back() {
    let run = |results: &[bool]| {
        results.iter().fold(ConnectStep::SetGid, |s, ok| connect_user_bus(s, *ok))
    };
    assert_eq!(run(&[true]), ConnectStep::SetUid);
    assert_eq!(run(&[true, true]), ConnectStep::Handshake);
    for connected in [true, false] {
        assert_eq!(run(&[true, true, connected]), ConnectStep::RestoreUid { connected });
        assert_eq!(run(&[true, true, connected, true]), ConnectStep::RestoreGid { connected });
        assert_eq!(
            run(&[true, true, connected, true, true]),
            ConnectStep::Finished { connected }
        );
        assert_eq!(run(&[true, true, connected, false]), ConnectStep::Exit(1));
        assert_eq!(run(&[true, true, connected, true, false]), ConnectStep::Exit(1));
    }
    assert_eq!(run(&[false]), ConnectStep::Finished { connected: false });
    assert_eq!(run(&[true, false]), ConnectStep::RestoreGid { connected: false });
    assert_eq!(run(&[true, false, true]), ConnectStep::Finished { connected: false });
    assert_eq!(run(&[true, false, false]), ConnectStep::Exit(1));
}

#[test]
fn only_keepassxc_of_the_user_is_trusted() {
    assert_eq!(owner(1000, "/usr/bin/keepassxc", 1000), Ok(()));
    assert_eq!(owner(1000, "/usr/bin/keepassxc (deleted)", 1000), Ok(()));
    assert_eq!(
        owner(1000, "/tmp/keepassxc", 1000),
        err("bus name owned by /tmp/keepassxc (pid 42), not /usr/bin/keepassxc")
    );
    assert_eq!(
        owner(1000, "/tmp/x (deleted)", 1000),
        err("bus name owned by /tmp/x (deleted) (pid 42), not /usr/bin/keepassxc")
    );
    assert_eq!(
        owner(1000, "/usr/bin/keepassxc", 0),
        err("keepassxc pid 42 belongs to uid 0, expected 1000")
    );
    let exe = Ok("/usr/bin/keepassxc".to_string());
    assert_eq!(
        verify_keepassxc_owner(1000, &Err("bus".to_string()), &exe, &Ok(1000)),
        err("bus")
    );
    assert_eq!(
        verify_keepassxc_owner(1000, &Ok(42), &Err("link".to_string()), &Ok(1000)),
        err("link")
    );
    assert_eq!(
        verify_keepassxc_owner(1000, &Ok(42), &exe, &Err("stat".to_string())),
        err("stat")
    );
}

#[test]
fn a_password_is_decrypted_or_not() {
    let c = decrypt_command(&entry());
    assert_eq!(c.program, "systemd-creds");
    assert_eq!(
        c.args,
        vec!["decrypt", "--name=db", "/etc/cce/keyring-unlock/1000/db.cred", "-"]
    );
    let ok = decrypt_password(&entry(), true, Ok("pw\n".to_string()), "");
    assert_eq!(ok, Ok("pw\n".to_string()));
    let bad = decrypt_password(&entry(), true, Err("not text".to_string()), "");
    assert_eq!(bad, Err("not text".to_string()));
    let no = decrypt_password(&entry(), false, Ok("pw".to_string()), " denied \n");
    assert_eq!(no, Err("systemd-creds decrypt failed for db: denied".to_string()));
}

#[test]
fn a_request_takes_its_steps_in_order() {
    let ok = || Ok(());
    let mut step = first_unlock_step(1000, 2);
    for expected in [
        UnlockStep::Connect,
        UnlockStep::WaitForName,
        UnlockStep::VerifyOwner,
        UnlockStep::WaitUntilReady,
        UnlockStep::Decrypt(0),
        UnlockStep::Open(0),
        UnlockStep::Scrub(0, Ok(())),
        UnlockStep::Decrypt(1),
        UnlockStep::Open(1),
        UnlockStep::Scrub(1, Ok(())),
        UnlockStep::Done(Ok(())),
    ] {
        assert_eq!(step, expected);
        step = unlock_for(step, ok(), 2);
    }
}

#[test]
fn a_request_fails_with_its_reason() {
    assert_eq!(
        first_unlock_step(1000, 0),
        UnlockStep::Done(err(
            "no databases registered for uid 1000 (run cce-keyring-unlock-setup)"
        ))
    );
    let fail = |step| unlock_for(step, err("why"), 1);
    assert_eq!(fail(UnlockStep::Connect), UnlockStep::Done(err("why")));
    assert_eq!(
        fail(UnlockStep::WaitForName),
        UnlockStep::Done(err("KeePassXC never appeared on the session bus"))
    );
    assert_eq!(fail(UnlockStep::VerifyOwner), UnlockStep::Done(err("why")));
    assert_eq!(
        fail(UnlockStep::WaitUntilReady),
        UnlockStep::Done(err("KeePassXC owns its D-Bus name but never answered a call"))
    );
    assert_eq!(fail(UnlockStep::Decrypt(0)), UnlockStep::Done(err("why")));
    assert_eq!(fail(UnlockStep::Open(0)), UnlockStep::Scrub(0, err("why")));
    assert_eq!(
        unlock_for(UnlockStep::Scrub(0, err("why")), Ok(()), 1),
        UnlockStep::Done(err("why"))
    );
}

#[test]
fn deadlines_keep_within_the_budget() {
    assert_eq!(request_budget(5 * SECOND), 105 * SECOND);
    assert_eq!(name_deadline(0, 100 * SECOND), 30 * SECOND);
    assert_eq!(name_deadline(80 * SECOND, 100 * SECOND), 100 * SECOND);
    assert_eq!(name_deadline(101 * SECOND, 100 * SECOND), 101 * SECOND);
    assert_eq!(ready_deadline(0, 100 * SECOND), 20 * SECOND);
    assert_eq!(ready_deadline(90 * SECOND, 100 * SECOND), 100 * SECOND);
}

#[test]
fn a_call_returns_in_time_or_not() {
    assert_eq!(with_timeout("openDatabase", 15, Some(7)), Ok(7));
    assert_eq!(
        with_timeout("openDatabase", 15, None::<u8>),
        Err("openDatabase did not return within 15s".to_string())
    );
    for secs in [0, 1, 15, u64::MAX] {
        let expected = format!("x did not return within {:?}", std::time::Duration::from_secs(secs));
        assert_eq!(timeout_error("x", secs), expected);
    }
}

#[test]
fn a_database_is_confirmed_open() {
    let mut run = OpenRun::new(100 * SECOND);
    assert_eq!(run.open_and_verify(OpenEvent::Start, 0), OpenStep::Open);
    assert_eq!(run.open_and_verify(OpenEvent::Opened, SECOND), OpenStep::Look);
    let locked = OpenEvent::Looked(LockState::Locked);
    assert_eq!(run.open_and_verify(locked, SECOND), OpenStep::Rest(750));
    assert_eq!(run.open_and_verify(OpenEvent::Rested, 2 * SECOND), OpenStep::Look);
    let unlocked = OpenEvent::Looked(LockState::Unlocked);
    assert_eq!(run.open_and_verify(unlocked, 2 * SECOND), OpenStep::Done(Ok(())));
}

#[test]
fn a_locked_database_is_opened_four_times() {
    let mut run = OpenRun::new(100 * SECOND);
    let mut now = 0;
    let mut step = run.open_and_verify(OpenEvent::Start, now);
    for attempt in 1..=4 {
        assert_eq!(step, OpenStep::Open, "{attempt}");
        assert_eq!(run.open_and_verify(OpenEvent::Opened, now), OpenStep::Look);
        let locked = OpenEvent::Looked(LockState::Locked);
        assert_eq!(run.open_and_verify(locked, now), OpenStep::Rest(750));
        now += 12 * SECOND;
        step = run.open_and_verify(OpenEvent::Rested, now);
    }
    assert_eq!(
        step,
        OpenStep::Done(err("still locked 12s after openDatabase (attempt 4)"))
    );
}

#[test]
fn an_unseen_database_is_trusted() {
    let mut run = OpenRun::new(100 * SECOND);
    run.open_and_verify(OpenEvent::Start, 0);
    assert_eq!(run.open_and_verify(OpenEvent::Opened, 0), OpenStep::Look);
    let unknown = OpenEvent::Looked(LockState::Unknown);
    assert_eq!(run.open_and_verify(unknown, SECOND), OpenStep::Rest(750));
    assert_eq!(run.open_and_verify(OpenEvent::Rested, 12 * SECOND), OpenStep::Done(Ok(())));
}

#[test]
fn a_call_that_fails_is_tried_again() {
    let mut run = OpenRun::new(100 * SECOND);
    run.open_and_verify(OpenEvent::Start, 0);
    let failed = OpenEvent::OpenFailed("gone".to_string());
    assert_eq!(run.open_and_verify(failed, 0), OpenStep::Rest(2000));
    assert_eq!(run.open_and_verify(OpenEvent::Rested, 2 * SECOND), OpenStep::Open);
    assert_eq!(run.open_and_verify(OpenEvent::OpenTimedOut, 17 * SECOND), OpenStep::Open);
    let failed = OpenEvent::OpenFailed("gone".to_string());
    assert_eq!(run.open_and_verify(failed, 17 * SECOND), OpenStep::Rest(2000));
    assert_eq!(
        run.open_and_verify(OpenEvent::Rested, 101 * SECOND),
        OpenStep::Done(err("openDatabase call failed: gone"))
    );
}

#[test]
fn a_used_up_budget_ends_the_run() {
    let mut run = OpenRun::new(SECOND);
    assert_eq!(
        run.open_and_verify(OpenEvent::Start, SECOND + 1),
        OpenStep::Done(err("unlock not confirmed"))
    );
    let mut run = OpenRun::new(SECOND);
    assert_eq!(run.open_and_verify(OpenEvent::Start, SECOND), OpenStep::Open);
    assert_eq!(
        run.open_and_verify(OpenEvent::OpenTimedOut, 16 * SECOND),
        OpenStep::Done(err("openDatabase did not return within 15s"))
    );
}

#[test]
fn the_client_asks_three_times() {
    let appeared = ClientEvent::Appeared(true);
    assert_eq!(next_client_step(ClientStep::WaitForName, appeared), ClientStep::Look);
    assert_eq!(
        next_client_step(ClientStep::WaitForName, ClientEvent::Appeared(false)),
        ClientStep::Exit(0)
    );
    let unlocked = ClientEvent::Looked(LockState::Unlocked);
    assert_eq!(next_client_step(ClientStep::Look, unlocked), ClientStep::Exit(0));
    let unknown = ClientEvent::Looked(LockState::Unknown);
    let mut step = next_client_step(ClientStep::Look, unknown);
    for n in 1..=3 {
        assert_eq!(step, ClientStep::Request(n));
        assert_eq!(next_client_step(step, ClientEvent::Replied(true)), ClientStep::Dismiss);
        step = next_client_step(step, ClientEvent::Replied(false));
        assert_eq!(step, ClientStep::Pause(n));
        step = next_client_step(step, ClientEvent::Over);
    }
    assert_eq!(step, ClientStep::Exit(1));
    assert_eq!(next_client_step(ClientStep::Dismiss, ClientEvent::Over), ClientStep::Exit(0));
}

#[test]
fn the_prompt_left_behind_is_closed() {
    let line = |s: &str| Some(CloseReply::Line(s.to_string()));
    assert_eq!(compositor_socket("wayland-1"), "/tmp/cce-wayland-1.sock");
    assert_eq!(dismiss_orphaned_unlock_dialog(false, 0, &None), DismissStep::GiveUp);
    assert_eq!(dismiss_orphaned_unlock_dialog(true, 0, &None), DismissStep::AskAfter(2));
    assert_eq!(dismiss_orphaned_unlock_dialog(true, 1, &line("ok 1\n")), DismissStep::Closed);
    assert_eq!(dismiss_orphaned_unlock_dialog(true, 1, &line("")), DismissStep::AskAfter(5));
    assert_eq!(dismiss_orphaned_unlock_dialog(true, 2, &line("no\n")), DismissStep::GiveUp);
    assert_eq!(
        dismiss_orphaned_unlock_dialog(true, 1, &Some(CloseReply::Unreachable)),
        DismissStep::GiveUp
    );
}
