//! The calls that are made on a user's session bus, and how long to wait for
//! what they ask.
use vstd::prelude::*;

use crate::invocation::{BusCall, BusCallView};
use crate::keyring::{
    DEFAULT_COLLECTION_PATH, KEEPASSXC_DBUS_NAME, KEEPASSXC_DBUS_PATH, SECRETS_DBUS_NAME,
};
use crate::number::{decimal, decimal_text};
use crate::text::join3;

verus! {

/// The address of a user's session bus.
pub fn bus_address(uid: u32) -> (r: String)
    ensures
        r@ == "unix:path=/run/user/"@ + decimal(uid as nat) + "/bus"@,
{
    join3("unix:path=/run/user/", decimal_text(uid as u64).as_str(), "/bus")
}

// ---------------------------------------------------------------------------
// Calls
// ---------------------------------------------------------------------------

/// A question to the bus itself about one of its names.
pub open spec fn bus_query(member: Seq<char>, name: Seq<char>) -> BusCallView {
    BusCallView {
        destination: "org.freedesktop.DBus"@,
        path: "/org/freedesktop/DBus"@,
        interface: "org.freedesktop.DBus"@,
        member,
        args: seq![name],
    }
}

fn query(member: &str, name: &str) -> (r: BusCall)
    ensures
        r@ == bus_query(member@, name@),
{
    let r = BusCall::new(
        "org.freedesktop.DBus",
        "/org/freedesktop/DBus",
        "org.freedesktop.DBus",
        member,
    ).arg(name);
    assert(r@ =~= bus_query(member@, name@));
    r
}

/// Asks whether a name has an owner.
pub fn name_has_owner_call(name: &str) -> (r: BusCall)
    ensures
        r@ == bus_query("NameHasOwner"@, name@),
{
    query("NameHasOwner", name)
}

/// Whether a name has an owner, by the answer to that question: one that does
/// not come counts as no.
pub fn name_has_owner(answer: &Result<bool, String>) -> (r: bool)
    ensures
        r == (*answer == Ok::<bool, String>(true)),
{
    match answer {
        Ok(b) => *b,
        Err(_) => false,
    }
}

/// Asks for the process that owns the name of KeePassXC.
pub fn owner_process_call() -> (r: BusCall)
    ensures
        r@ == bus_query("GetConnectionUnixProcessID"@, KEEPASSXC_DBUS_NAME@),
{
    query("GetConnectionUnixProcessID", KEEPASSXC_DBUS_NAME)
}

/// A call of KeePassXC that does nothing.
pub fn keepassxc_answers_call() -> (r: BusCall)
    ensures
        r@ == (BusCallView {
            destination: KEEPASSXC_DBUS_NAME@,
            path: KEEPASSXC_DBUS_PATH@,
            interface: "org.freedesktop.DBus.Introspectable"@,
            member: "Introspect"@,
            args: seq![],
        }),
{
    BusCall::new(
        KEEPASSXC_DBUS_NAME,
        KEEPASSXC_DBUS_PATH,
        "org.freedesktop.DBus.Introspectable",
        "Introspect",
    )
}

/// Whether KeePassXC answers calls, by the answer to that one. That its name
/// has an owner is not enough: a call during its start is accepted and lost.
pub fn keepassxc_answers(answer: &Result<(), String>) -> (r: bool)
    ensures
        r == (answer is Ok),
{
    match answer {
        Ok(_) => true,
        Err(_) => false,
    }
}

/// Asks whether the default collection of the Secret Service is locked.
pub fn collection_locked_call() -> (r: BusCall)
    ensures
        r@ == (BusCallView {
            destination: SECRETS_DBUS_NAME@,
            path: DEFAULT_COLLECTION_PATH@,
            interface: "org.freedesktop.DBus.Properties"@,
            member: "Get"@,
            args: seq!["org.freedesktop.Secret.Collection"@, "Locked"@],
        }),
{
    let r = BusCall::new(
        SECRETS_DBUS_NAME,
        DEFAULT_COLLECTION_PATH,
        "org.freedesktop.DBus.Properties",
        "Get",
    ).arg("org.freedesktop.Secret.Collection").arg("Locked");
    assert(r@.args =~= seq!["org.freedesktop.Secret.Collection"@, "Locked"@]);
    r
}

/// What is known of the lock of the default collection.
#[derive(Debug, Clone, Copy, PartialEq, Eq, Structural)]
pub enum LockState {
    Unlocked,
    Locked,
    /// The Secret Service does not answer, or not in time.
    Unknown,
}

/// The lock of the default collection, by the answer to that question.
pub fn default_collection_locked(answer: &Result<bool, String>) -> (r: LockState)
    ensures
        r == (match answer {
            Ok(locked) => if *locked {
                LockState::Locked
            } else {
                LockState::Unlocked
            },
            Err(_) => LockState::Unknown,
        }),
{
    match answer {
        Ok(locked) => if *locked {
            LockState::Locked
        } else {
            LockState::Unlocked
        },
        Err(_) => LockState::Unknown,
    }
}

/// The call that opens a database.
pub open spec fn open_database(
    database: Seq<char>,
    password: Seq<char>,
    keyfile: Seq<char>,
) -> BusCallView {
    BusCallView {
        destination: KEEPASSXC_DBUS_NAME@,
        path: KEEPASSXC_DBUS_PATH@,
        interface: KEEPASSXC_DBUS_NAME@,
        member: "openDatabase"@,
        args: seq![database, password, keyfile],
    }
}

/// The call that opens a database.
pub fn open_database_call(database: &str, password: &str, keyfile: &str) -> (r: BusCall)
    ensures
        r@ == open_database(database@, password@, keyfile@),
{
    let r = BusCall::new(
        KEEPASSXC_DBUS_NAME,
        KEEPASSXC_DBUS_PATH,
        KEEPASSXC_DBUS_NAME,
        "openDatabase",
    ).arg(database).arg(password).arg(keyfile);
    assert(r@ =~= open_database(database@, password@, keyfile@));
    r
}

// ---------------------------------------------------------------------------
// Time
// ---------------------------------------------------------------------------

/// The nanoseconds of a second.
pub const SECOND: u64 = 1_000_000_000;

/// The nanoseconds of a millisecond.
pub const MILLISECOND: u64 = 1_000_000;

/// The pause between two questions, in milliseconds.
pub const POLL_MILLIS: u64 = 500;

/// Times are nanoseconds since some start. This is the last one at which every
/// deadline can still be reckoned.
pub const LAST_TIME: u64 = 0x7fff_ffff_ffff_ffff;

/// What is left until a deadline; nothing once it has passed.
pub fn remaining(deadline: u64, now: u64) -> (r: Option<u64>)
    ensures
        r == (if now <= deadline {
            Some((deadline - now) as u64)
        } else {
            None
        }),
{
    if now <= deadline {
        Some(deadline - now)
    } else {
        None
    }
}

/// The next step of waiting for something.
#[derive(Debug, Clone, Copy, PartialEq, Eq, Structural)]
pub enum WaitStep {
    /// It is there.
    Ready,
    /// The time is over.
    TimedOut,
    /// Pause, and ask again.
    Pause,
}

/// The step after a question that was answered with `ready` at `now`.
pub open spec fn wait_step(ready: bool, now: u64, deadline: u64) -> WaitStep {
    if ready {
        WaitStep::Ready
    } else if now >= deadline {
        WaitStep::TimedOut
    } else {
        WaitStep::Pause
    }
}

/// The next step of waiting for a name to have an owner, or for its owner to
/// answer. It is asked at least once, whatever the time.
pub fn wait_for_name(ready: bool, now: u64, deadline: u64) -> (r: WaitStep)
    ensures
        r == wait_step(ready, now, deadline),
{
    if ready {
        WaitStep::Ready
    } else if now >= deadline {
        WaitStep::TimedOut
    } else {
        WaitStep::Pause
    }
}

/// A wait ends: with a pause before each further question, the deadline has
/// passed after as many of them as it holds pauses.
pub proof fn a_wait_ends(ready: bool, start: u64, pauses: nat, now: u64, deadline: u64)
    requires
        now >= start + pauses * POLL_MILLIS * MILLISECOND,
        deadline <= start + pauses * POLL_MILLIS * MILLISECOND,
    ensures
        wait_step(ready, now, deadline) != WaitStep::Pause,
{
}

// ---------------------------------------------------------------------------
// Laws
// ---------------------------------------------------------------------------

/// The bus itself is asked about a name, and KeePassXC is asked to open a
/// database: with its path, its password and its key file, in this order.
pub proof fn what_is_asked_of_the_bus(
    member: Seq<char>,
    name: Seq<char>,
    database: Seq<char>,
    password: Seq<char>,
    keyfile: Seq<char>,
)
    ensures
        ({
            let q = bus_query(member, name);
            &&& q.destination == "org.freedesktop.DBus"@
            &&& q.path == "/org/freedesktop/DBus"@
            &&& q.interface == "org.freedesktop.DBus"@
            &&& q.member == member && q.args == seq![name]
        }),
        ({
            let o = open_database(database, password, keyfile);
            &&& o.destination == "org.keepassxc.KeePassXC.MainWindow"@
            &&& o.path == "/keepassxc"@
            &&& o.interface == "org.keepassxc.KeePassXC.MainWindow"@
            &&& o.member == "openDatabase"@
            &&& o.args.len() == 3 && o.args[0] == database && o.args[1] == password && o.args[2]
                == keyfile
        }),
{
}

/// A wait ends in success exactly where the answer was yes, at any time, and
/// fails only once its time is over.
pub proof fn how_a_wait_ends(ready: bool, now: u64, deadline: u64)
    ensures
        wait_step(ready, now, deadline) is Ready <==> ready,
        wait_step(ready, now, deadline) is TimedOut <==> !ready && now >= deadline,
        wait_step(ready, now, deadline) is Pause <==> !ready && now < deadline,
{
}

} // verus!
