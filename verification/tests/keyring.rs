use cce_display_manager::bus::{
    bus_address, collection_locked_call, default_collection_locked, keepassxc_answers,
    keepassxc_answers_call, name_has_owner, name_has_owner_call, open_database_call,
    owner_process_call, remaining, wait_for_name, LockState, WaitStep,
};
use cce_display_manager::keyring::{
    conf_file, conf_text, cred_file, load_entries, parse_conf, registered_name, scrub,
    store_dir_for, zeroize, DbEntry,
};
use cce_display_manager::path::DirFile;
use cce_display_manager::setup::{
    confirm_password, database_name, encrypt_command, entered_password, not_a_file_text,
    password_prompt, path_error_text, prompt_flags, read_setup_args, registered_text, run,
    unknown_user_text, SetupArgs, SetupStep,
};

fn file(name: &str, content: Option<&str>) -> DirFile {
    DirFile { name: name.to_string(), content: content.map(|c| c.to_string()) }
}

fn entry(name: &str, database: &str, keyfile: &str, cred_path: &str) -> DbEntry {
    DbEntry {
        name: name.to_string(),
        database: database.to_string(),
        keyfile: keyfile.to_string(),
        cred_path: cred_path.to_string(),
    }
}

fn args(list: &[&str]) -> Vec<String> {
    list.iter().map(|a| a.to_string()).collect()
}

#[test]
fn a_user_has_a_store_of_their_own() {
    assert_eq!(store_dir_for(1000), "/etc/cce/keyring-unlock/1000");
    assert_eq!(store_dir_for(0), "/etc/cce/keyring-unlock/0");
    assert_eq!(cred_file(1000, "db"), "/etc/cce/keyring-unlock/1000/db.cred");
    assert_eq!(conf_file(1000, "db"), "/etc/cce/keyring-unlock/1000/db.conf");
}

#[test]
fn what_is_registered_is_loaded() {
    let name = registered_name(Some("my pass.words"));
    assert_eq!(name, "my_pass_words");
    let text = conf_text("/home/u/my pass.words.kdbx", "/home/u/k", &name);
    assert_eq!(
        text,
        "database=/home/u/my pass.words.kdbx\nkeyfile=/home/u/k\ncred=my_pass_words.cred\n"
    );
    let files = vec![file("my_pass_words.conf", Some(&text))];
    assert_eq!(
        load_entries(1000, &files),
        vec![entry(
            "my_pass_words",
            "/home/u/my pass.words.kdbx",
            "/home/u/k",
            "/etc/cce/keyring-unlock/1000/my_pass_words.cred",
        )]
    );
    assert_eq!(registered_name(None), "database");
    assert_eq!(registered_name(Some("é-_9")), "_-_9");
}

#[test]
fn incomplete_registrations_are_passed_over() {
    let files = vec![
        file("a.conf", Some("database=/d\ncred=a.cred\n")),
        file("a.cred", Some("database=/d\ncred=a.cred\n")),
        file("b.conf", Some("database=/d\n")),
        file("c.conf", Some("cred=c.cred\n")),
        file("d.conf", None),
        file("e.conf", Some("database=/1\ndatabase=/2\ncred=/abs/e\n keyfile=/no\n")),
    ];
    assert_eq!(
        load_entries(7, &files),
        vec![
            entry("a", "/d", "", "/etc/cce/keyring-unlock/7/a.cred"),
            entry("e", "/2", "", "/abs/e"),
        ]
    );
    assert_eq!(parse_conf("/dir", "x.conf", ""), None);
}

#[test]
fn secrets_are_overwritten() {
    let mut bytes = vec![1u8, 2, 3];
    scrub(&mut bytes);
    assert_eq!(bytes, vec![0, 0, 0]);
    let mut s = "höchst geheim".to_string();
    let room = s.capacity();
    zeroize(&mut s);
    assert_eq!(s, "");
    assert_eq!(s.capacity(), room);
    zeroize(&mut s);
    assert_eq!(s, "");
}

#[test]
fn the_bus_is_asked_about_names() {
    let c = name_has_owner_call("org.example");
    assert_eq!(c.destination, "org.freedesktop.DBus");
    assert_eq!(c.path, "/org/freedesktop/DBus");
    assert_eq!(c.interface, "org.freedesktop.DBus");
    assert_eq!(c.member, "NameHasOwner");
    assert_eq!(c.args, vec!["org.example"]);
    assert!(name_has_owner(&Ok(true)));
    assert!(!name_has_owner(&Ok(false)));
    assert!(!name_has_owner(&Err("gone".to_string())));
    let c = owner_process_call();
    assert_eq!(c.member, "GetConnectionUnixProcessID");
    assert_eq!(c.args, vec!["org.keepassxc.KeePassXC.MainWindow"]);
    assert_eq!(bus_address(1000), "unix:path=/run/user/1000/bus");
}

#[test]
fn keepassxc_and_the_secret_service_are_called() {
    let c = keepassxc_answers_call();
    assert_eq!(c.destination, "org.keepassxc.KeePassXC.MainWindow");
    assert_eq!(c.path, "/keepassxc");
    assert_eq!(c.interface, "org.freedesktop.DBus.Introspectable");
    assert_eq!(c.member, "Introspect");
    assert!(c.args.is_empty());
    assert!(keepassxc_answers(&Ok(())) && !keepassxc_answers(&Err(String::new())));
    let c = collection_locked_call();
    assert_eq!(c.destination, "org.freedesktop.secrets");
    assert_eq!(c.path, "/org/freedesktop/secrets/aliases/default");
    assert_eq!(c.interface, "org.freedesktop.DBus.Properties");
    assert_eq!(c.member, "Get");
    assert_eq!(c.args, vec!["org.freedesktop.Secret.Collection", "Locked"]);
    assert_eq!(default_collection_locked(&Ok(true)), LockState::Locked);
    assert_eq!(default_collection_locked(&Ok(false)), LockState::Unlocked);
    assert_eq!(default_collection_locked(&Err(String::new())), LockState::Unknown);
    let c = open_database_call("/d", "p", "/k");
    assert_eq!(c.interface, "org.keepassxc.KeePassXC.MainWindow");
    assert_eq!(c.member, "openDatabase");
    assert_eq!(c.args, vec!["/d", "p", "/k"]);
}

#[test]
fn a_wait_has_an_end() {
    assert_eq!(wait_for_name(true, 9, 5), WaitStep::Ready);
    assert_eq!(wait_for_name(false, 4, 5), WaitStep::Pause);
    assert_eq!(wait_for_name(false, 5, 5), WaitStep::TimedOut);
    assert_eq!(remaining(5, 3), Some(2));
    assert_eq!(remaining(5, 5), Some(0));
    assert_eq!(remaining(5, 6), None);
}

#[test]
fn setup_reads_its_arguments() {
    let a = read_setup_args(0, &args(&["setup", "lucas", "/d.kdbx"]));
    assert_eq!(
        a,
        Ok(SetupArgs { user: "lucas".into(), database: "/d.kdbx".into(), keyfile: None })
    );
    let a = read_setup_args(0, &args(&["setup", "lucas", "/d.kdbx", "/k"]));
    assert_eq!(a.map(|a| a.keyfile), Ok(Some("/k".to_string())));
    let usage = Err("usage: setup <user> <database.kdbx> [keyfile]".to_string());
    assert_eq!(read_setup_args(0, &args(&["setup", "lucas"])), usage);
    assert_eq!(read_setup_args(0, &args(&["setup", "a", "b", "c", "d"])), usage);
    assert_eq!(
        read_setup_args(1000, &args(&["setup"])),
        Err("must run as root (sudo)".to_string())
    );
    assert_eq!(database_name("/home/u/My DB.kdbx"), "My_DB");
    assert_eq!(database_name("/"), "database");
}

#[test]
fn a_password_is_typed_twice() {
    assert_eq!(entered_password(" a b \r\n"), Ok(" a b ".to_string()));
    assert_eq!(entered_password("x"), Ok("x".to_string()));
    assert_eq!(entered_password("\r\n\n"), Err("empty password".to_string()));
    assert_eq!(entered_password(""), Err("empty password".to_string()));

    let (mut p, mut c) = ("secret".to_string(), "secret".to_string());
    assert_eq!(confirm_password(&mut p, &mut c), Ok(()));
    assert_eq!((p.as_str(), c.as_str()), ("secret", ""));
    let (mut p, mut c) = ("secret".to_string(), "Secret".to_string());
    assert_eq!(confirm_password(&mut p, &mut c), Err("passwords do not match".to_string()));
    assert_eq!((p.as_str(), c.as_str()), ("", ""));
    assert_eq!(prompt_flags(0b1011, 0b1000, 0b0100), 0b0111);
}

#[test]
fn a_registration_takes_its_steps_in_order() {
    let mut step = SetupStep::LookUpUser;
    let mut n = 0;
    while step != SetupStep::Registered {
        assert_eq!(run(step, false), SetupStep::Failed);
        if step == SetupStep::WriteConf {
            assert_eq!(n, 12);
        }
        step = run(step, true);
        n += 1;
    }
    assert_eq!(n, 15);
    assert_eq!(run(SetupStep::Compare, true), SetupStep::MakeStore);
    assert_eq!(run(SetupStep::Encrypt, true), SetupStep::Scrub);
    assert_eq!(run(SetupStep::Registered, false), SetupStep::Registered);
    assert_eq!(run(SetupStep::Failed, true), SetupStep::Failed);
}

#[test]
fn setup_says_what_happened() {
    assert_eq!(unknown_user_text("x"), "unknown user 'x'");
    assert_eq!(path_error_text("database", "/d", "gone"), "database '/d': gone");
    assert_eq!(not_a_file_text("/d"), "'/d' is not a file");
    assert_eq!(password_prompt("/d"), "Password for /d: ");
    assert_eq!(
        registered_text("/d", 1000),
        "registered /d for uid 1000; cce-keyring-unlockd will unlock it at login"
    );
    let c = encrypt_command("db", "/x/db.cred");
    assert_eq!(c.program, "systemd-creds");
    assert_eq!(c.args, vec!["encrypt", "--name=db", "-", "/x/db.cred"]);
}
