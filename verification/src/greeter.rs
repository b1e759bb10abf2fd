//! The greeter: what it does with keys, with the mouse and with the reports
//! of an authentication attempt.
use vstd::prelude::*;

use crate::helper::{failure_text, fprint_failure_text, AuthEvent, AuthEventView};
use crate::protocol::{
    auth_success_line, bool_text, login_line, login_line_reads_back, login_of,
};
use crate::session::{
    following, previous, saved_position, sessions_view, Session, SessionList, SessionListView,
};
use crate::split::{lines, lines_of};
use crate::text::{contains, join2, join3, occurs, same, starts_with, texts, trim, trimmed};

verus! {

// ---------------------------------------------------------------------------
// State
// ---------------------------------------------------------------------------

/// Which of the two text boxes has the keyboard.
#[derive(Debug, Clone, Copy, PartialEq, Eq, Structural)]
pub enum Focus {
    Username,
    Password,
    Nowhere,
}

/// The state of the greeter.
///
/// `auth_password` is the password that the attempt under way is checking, and
/// what the session worker is handed when it succeeds: empty for a fingerprint
/// attempt. It is not the text of the password box, which may have been typed
/// since.
pub struct State {
    pub username: String,
    pub password: String,
    pub focus: Focus,
    pub status: String,
    pub status_is_error: bool,
    pub session_list: SessionList,
    pub login_success: bool,
    pub is_authenticating: bool,
    pub auth_request_id: u64,
    pub fprint_running: bool,
    pub auth_password: String,
}

/// The view of a [`State`].
#[verifier::ext_equal]
pub struct StateView {
    pub username: Seq<char>,
    pub password: Seq<char>,
    pub focus: Focus,
    pub status: Seq<char>,
    pub status_is_error: bool,
    pub session_list: SessionListView,
    pub login_success: bool,
    pub is_authenticating: bool,
    pub auth_request_id: u64,
    pub fprint_running: bool,
    pub auth_password: Seq<char>,
}

impl View for State {
    type V = StateView;

    open spec fn view(&self) -> StateView {
        StateView {
            username: self.username@,
            password: self.password@,
            focus: self.focus,
            status: self.status@,
            status_is_error: self.status_is_error,
            session_list: self.session_list@,
            login_success: self.login_success,
            is_authenticating: self.is_authenticating,
            auth_request_id: self.auth_request_id,
            fprint_running: self.fprint_running,
            auth_password: self.auth_password@,
        }
    }
}

impl StateView {
    /// A session is selected; a fingerprint attempt is under way only while
    /// authenticating; and the attempt under way is a fingerprint attempt
    /// exactly when it checks an empty password.
    pub open spec fn wf(self) -> bool {
        &&& 0 <= self.session_list.selected < self.session_list.sessions.len()
        &&& self.fprint_running ==> self.is_authenticating
        &&& self.is_authenticating ==> (self.fprint_running <==> self.auth_password.len() == 0)
    }
}

/// The state with what the widgets hold: the texts, the keyboard, and in the
/// list the selected row and the one under the pointer. A row that the list
/// does not have is not selected.
pub open spec fn taken_over(
    g: StateView,
    username: Seq<char>,
    password: Seq<char>,
    focus: Focus,
    selected: usize,
    hovered: Option<usize>,
) -> StateView {
    StateView {
        username,
        password,
        focus,
        session_list: SessionListView {
            selected: if selected < g.session_list.sessions.len() {
                selected as int
            } else {
                g.session_list.selected
            },
            hovered,
            ..g.session_list
        },
        ..g
    }
}

impl State {
    /// Takes over what the widgets hold.
    pub fn take_over(
        &mut self,
        username: String,
        password: String,
        focus: Focus,
        selected: usize,
        hovered: Option<usize>,
    )
        ensures
            final(self)@ == taken_over(
                old(self)@,
                username@,
                password@,
                focus,
                selected,
                hovered,
            ),
            old(self)@.wf() ==> final(self)@.wf(),
    {
        self.username = username;
        self.password = password;
        self.focus = focus;
        if selected < self.session_list.sessions.len() {
            self.session_list.selected_idx = selected;
        }
        self.session_list.hovered_idx = hovered;
        assert(self@ =~= taken_over(old(self)@, username@, password@, focus, selected, hovered));
    }
}

// ---------------------------------------------------------------------------
// Starting an attempt
// ---------------------------------------------------------------------------

/// What starting an attempt asks for.
#[derive(Debug, Clone, PartialEq, Eq)]
pub enum AuthStart {
    /// Nothing: something has to be typed first.
    Refused,
    /// Stop any running fingerprint helper and run a new one.
    Fingerprint { request_id: u64, username: String },
    /// Stop any running fingerprint helper and check the password.
    Password { request_id: u64, username: String, password: String },
}

/// The view of an [`AuthStart`].
#[verifier::ext_equal]
pub enum AuthStartView {
    Refused,
    Fingerprint { request_id: u64, username: Seq<char> },
    Password { request_id: u64, username: Seq<char>, password: Seq<char> },
}

impl View for AuthStart {
    type V = AuthStartView;

    open spec fn view(&self) -> AuthStartView {
        match *self {
            AuthStart::Refused => AuthStartView::Refused,
            AuthStart::Fingerprint { request_id, username } => AuthStartView::Fingerprint {
                request_id,
                username: username@,
            },
            AuthStart::Password { request_id, username, password } => AuthStartView::Password {
                request_id,
                username: username@,
                password: password@,
            },
        }
    }
}

/// The state with a fingerprint attempt under way.
pub open spec fn scanning(g: StateView) -> StateView {
    StateView {
        auth_request_id: (g.auth_request_id + 1) as u64,
        auth_password: seq![],
        status: "Scan finger to login or type password"@,
        status_is_error: false,
        is_authenticating: true,
        fprint_running: true,
        ..g
    }
}

/// The state after the fingerprint helper could not be run.
pub open spec fn scan_unavailable(g: StateView) -> StateView {
    StateView {
        is_authenticating: false,
        fprint_running: false,
        status: "Fingerprint unavailable — type password"@,
        status_is_error: true,
        ..g
    }
}

/// The state after the login button or Enter, from the text of the two boxes.
pub open spec fn triggered(g: StateView, fprint_enabled: bool) -> StateView {
    if trimmed(g.username).len() == 0 {
        StateView {
            status: "Username cannot be empty"@,
            status_is_error: true,
            focus: Focus::Username,
            ..g
        }
    } else if g.password.len() > 0 {
        StateView {
            auth_request_id: (g.auth_request_id + 1) as u64,
            auth_password: g.password,
            status: "Authenticating..."@,
            status_is_error: false,
            is_authenticating: true,
            fprint_running: false,
            ..g
        }
    } else if fprint_enabled {
        scanning(g)
    } else {
        StateView {
            status: "Password cannot be empty"@,
            status_is_error: true,
            focus: Focus::Password,
            ..g
        }
    }
}

/// What the login button or Enter starts.
pub open spec fn trigger_start(g: StateView, fprint_enabled: bool) -> AuthStartView {
    let username = trimmed(g.username);
    let request_id = (g.auth_request_id + 1) as u64;
    if username.len() == 0 {
        AuthStartView::Refused
    } else if g.password.len() > 0 {
        AuthStartView::Password { request_id, username, password: g.password }
    } else if fprint_enabled {
        AuthStartView::Fingerprint { request_id, username }
    } else {
        AuthStartView::Refused
    }
}

impl State {
    /// Starts an attempt for the username in the box: with the password, where
    /// one is typed, or with the fingerprint, where that is enabled.
    pub fn trigger_auth(&mut self, fprint_enabled: bool) -> (r: AuthStart)
        requires
            old(self)@.wf(),
            trigger_start(old(self)@, fprint_enabled) is Refused || old(self).auth_request_id
                < u64::MAX,
        ensures
            final(self)@.wf(),
            final(self)@ == triggered(old(self)@, fprint_enabled),
            r@ == trigger_start(old(self)@, fprint_enabled),
    {
        let username = trim(self.username.as_str()).to_owned();
        if username.as_str().is_empty() {
            self.status = "Username cannot be empty".to_owned();
            self.status_is_error = true;
            self.focus = Focus::Username;
            AuthStart::Refused
        } else if self.password.as_str().is_empty() {
            if fprint_enabled {
                self.start_fprint_auth()
            } else {
                self.status = "Password cannot be empty".to_owned();
                self.status_is_error = true;
                self.focus = Focus::Password;
                AuthStart::Refused
            }
        } else {
            self.cancel_fprint_auth();
            self.auth_request_id = self.auth_request_id + 1;
            self.auth_password = self.password.clone();
            self.status = "Authenticating...".to_owned();
            self.status_is_error = false;
            self.is_authenticating = true;
            AuthStart::Password {
                request_id: self.auth_request_id,
                username,
                password: self.password.clone(),
            }
        }
    }

    /// Starts a fingerprint attempt for the username in the box.
    pub fn start_fprint_auth(&mut self) -> (r: AuthStart)
        requires
            old(self)@.wf(),
            old(self).auth_request_id < u64::MAX,
        ensures
            final(self)@.wf(),
            final(self)@ == scanning(old(self)@),
            r@ == (AuthStartView::Fingerprint {
                request_id: (old(self).auth_request_id + 1) as u64,
                username: trimmed(old(self).username@),
            }),
    {
        let username = trim(self.username.as_str()).to_owned();
        self.cancel_fprint_auth();
        self.auth_request_id = self.auth_request_id + 1;
        self.auth_password = String::new();
        self.status = "Scan finger to login or type password".to_owned();
        self.status_is_error = false;
        self.is_authenticating = true;
        self.fprint_running = true;
        AuthStart::Fingerprint { request_id: self.auth_request_id, username }
    }

    /// The fingerprint helper could not be run.
    pub fn fprint_spawn_failed(&mut self)
        requires
            old(self)@.wf(),
        ensures
            final(self)@.wf(),
            final(self)@ == scan_unavailable(old(self)@),
    {
        self.is_authenticating = false;
        self.fprint_running = false;
        self.status = "Fingerprint unavailable — type password".to_owned();
        self.status_is_error = true;
    }

    /// Forgets a running fingerprint helper; the result says whether there is
    /// one to stop.
    pub fn cancel_fprint_auth(&mut self) -> (r: bool)
        ensures
            final(self)@ == (StateView { fprint_running: false, ..old(self)@ }),
            r == old(self).fprint_running,
    {
        let running = self.fprint_running;
        self.fprint_running = false;
        running
    }

    /// The text of the login button.
    pub fn login_label(&self) -> (r: &'static str)
        ensures
            r@ == (if self.is_authenticating {
                "Authenticating..."@
            } else {
                "Log In"@
            }),
    {
        if self.is_authenticating {
            "Authenticating..."
        } else {
            "Log In"
        }
    }
}

/// The colour of the status line: red for an error, grey otherwise.
pub fn status_color(is_error: bool) -> (r: (u8, u8, u8))
    ensures
        r == (if is_error {
            (0xeeu8, 0x5cu8, 0x5cu8)
        } else {
            (0x83u8, 0x83u8, 0x8au8)
        }),
{
    if is_error {
        (0xee, 0x5c, 0x5c)
    } else {
        (0x83, 0x83, 0x8a)
    }
}

// ---------------------------------------------------------------------------
// Keys
// ---------------------------------------------------------------------------

/// A key, as far as the greeter tells keys apart.
#[derive(Debug, Clone, PartialEq, Eq)]
pub enum Key {
    Character(String),
    F5,
    ArrowUp,
    ArrowDown,
    Tab,
    Enter,
    Backspace,
    Delete,
    Space,
    Other,
}

/// A key going down or up.
#[derive(Debug, Clone, PartialEq, Eq)]
pub struct KeyInput {
    pub key: Key,
    pub ctrl: bool,
    pub pressed: bool,
}

/// Whether the key is the letter whose two cases are given.
pub open spec fn is_letter(key: Key, lower: Seq<char>, upper: Seq<char>) -> bool {
    key matches Key::Character(c) && (c@ == lower || c@ == upper)
}

impl KeyInput {
    /// Ctrl together with the letter whose two cases are given.
    pub open spec fn is_ctrl(self, lower: Seq<char>, upper: Seq<char>) -> bool {
        self.ctrl && is_letter(self.key, lower, upper)
    }

    /// The key asks for the session above.
    pub open spec fn asks_previous(self) -> bool {
        self.key is ArrowUp || self.is_ctrl("p"@, "P"@)
    }

    /// The key asks for the session below.
    pub open spec fn asks_next(self) -> bool {
        self.key is ArrowDown || self.is_ctrl("n"@, "N"@)
    }

    /// The key is part of typing a text.
    pub open spec fn types(self) -> bool {
        !self.ctrl && (self.key is Character || self.key is Backspace || self.key is Delete
            || self.key is Space)
    }

    /// The key moves about without typing.
    pub open spec fn navigates(self) -> bool {
        self.asks_previous() || self.asks_next() || self.key is Tab
    }
}

/// What a key asks of the greeter's window.
#[derive(Debug, Clone, Copy, PartialEq, Eq, Structural)]
pub enum KeyOutcome {
    /// End the greeter with this exit status.
    Exit(i32),
    /// Nothing.
    Ignored,
    /// Another session is selected: draw again.
    Moved,
    /// The other box has the keyboard: draw again.
    Switched,
    /// Deliver the key to the password box, then start an attempt.
    Submit,
    /// Deliver the key to the username box, then give the password box the
    /// keyboard.
    Advance,
    /// Deliver the key to the widgets; first stop a running fingerprint helper
    /// where the scan is cancelled.
    Forward { scan_cancelled: bool },
}

/// The greeter's exit status that ends the display manager.
pub const EXIT_ABORT: i32 = 130;

/// The greeter's exit status that restarts the daemon.
pub const EXIT_RESTART: i32 = 135;

/// The state after typing has cancelled the attempt under way.
pub open spec fn scan_cancelled(g: StateView) -> StateView {
    StateView {
        fprint_running: false,
        auth_request_id: (g.auth_request_id + 1) as u64,
        is_authenticating: false,
        status: "Enter password to start"@,
        status_is_error: false,
        ..g
    }
}

/// What a key asks for. Ctrl+C and F5 end the greeter; while an attempt is
/// under way only typing into an empty password box and moving about count.
pub open spec fn key_outcome(g: StateView, k: KeyInput) -> KeyOutcome {
    if k.is_ctrl("c"@, "C"@) {
        KeyOutcome::Exit(EXIT_ABORT)
    } else if k.key is F5 {
        KeyOutcome::Exit(EXIT_RESTART)
    } else if !k.pressed {
        KeyOutcome::Ignored
    } else if g.is_authenticating && (g.password.len() > 0 || !(k.types() || k.navigates())) {
        KeyOutcome::Ignored
    } else if k.asks_previous() || k.asks_next() {
        KeyOutcome::Moved
    } else if k.key is Tab {
        KeyOutcome::Switched
    } else if k.key is Enter && g.focus == Focus::Password {
        KeyOutcome::Submit
    } else if k.key is Enter && g.focus == Focus::Username {
        KeyOutcome::Advance
    } else {
        KeyOutcome::Forward { scan_cancelled: g.is_authenticating }
    }
}

/// Whether a key cancels the attempt under way, whose number is then used up.
pub open spec fn cancels_scan(g: StateView, k: KeyInput) -> bool {
    key_outcome(g, k) == (KeyOutcome::Forward { scan_cancelled: true })
}

/// The state after a key.
pub open spec fn key_state(g: StateView, k: KeyInput) -> StateView {
    let l = g.session_list;
    match key_outcome(g, k) {
        KeyOutcome::Moved => StateView {
            session_list: SessionListView {
                selected: if k.asks_previous() {
                    previous(l.selected, l.sessions.len() as int)
                } else {
                    following(l.selected, l.sessions.len() as int)
                },
                hovered: None,
                ..l
            },
            ..g
        },
        KeyOutcome::Switched => StateView {
            focus: if g.focus == Focus::Username {
                Focus::Password
            } else {
                Focus::Username
            },
            ..g
        },
        KeyOutcome::Advance => StateView { focus: Focus::Password, ..g },
        KeyOutcome::Forward { scan_cancelled: true } => scan_cancelled(g),
        _ => g,
    }
}

fn key_is_letter(key: &Key, lower: &str, upper: &str) -> (r: bool)
    ensures
        r == is_letter(*key, lower@, upper@),
{
    match key {
        Key::Character(c) => same(c.as_str(), lower) || same(c.as_str(), upper),
        _ => false,
    }
}

impl State {
    /// Handles a key.
    pub fn handle_key_input(&mut self, event: &KeyInput) -> (r: KeyOutcome)
        requires
            old(self)@.wf(),
            cancels_scan(old(self)@, *event) ==> old(self).auth_request_id < u64::MAX,
        ensures
            final(self)@.wf(),
            r == key_outcome(old(self)@, *event),
            final(self)@ == key_state(old(self)@, *event),
    {
        if event.ctrl && key_is_letter(&event.key, "c", "C") {
            return KeyOutcome::Exit(EXIT_ABORT);
        }
        if matches!(event.key, Key::F5) {
            return KeyOutcome::Exit(EXIT_RESTART);
        }
        let is_ctrl_p = event.ctrl && key_is_letter(&event.key, "p", "P");
        let is_ctrl_n = event.ctrl && key_is_letter(&event.key, "n", "N");
        if !event.pressed {
            return KeyOutcome::Ignored;
        }
        let mut cancelled = false;
        if self.is_authenticating {
            if !self.password.as_str().is_empty() {
                return KeyOutcome::Ignored;
            }
            let is_typing = !event.ctrl && match &event.key {
                Key::Character(_) | Key::Backspace | Key::Delete | Key::Space => true,
                _ => false,
            };
            if is_typing {
                cancelled = true;
                self.cancel_fprint_auth();
                self.auth_request_id = self.auth_request_id + 1;
                self.is_authenticating = false;
                self.status = "Enter password to start".to_owned();
                self.status_is_error = false;
            } else {
                let is_nav = match &event.key {
                    Key::ArrowUp | Key::ArrowDown | Key::Tab => true,
                    _ => is_ctrl_p || is_ctrl_n,
                };
                if !is_nav {
                    return KeyOutcome::Ignored;
                }
            }
        }
        if matches!(event.key, Key::ArrowUp) || is_ctrl_p {
            self.session_list.select_previous();
            KeyOutcome::Moved
        } else if matches!(event.key, Key::ArrowDown) || is_ctrl_n {
            self.session_list.select_next();
            KeyOutcome::Moved
        } else if matches!(event.key, Key::Tab) {
            self.focus = if self.focus == Focus::Username {
                Focus::Password
            } else {
                Focus::Username
            };
            KeyOutcome::Switched
        } else if matches!(event.key, Key::Enter) && self.focus == Focus::Password {
            KeyOutcome::Submit
        } else if matches!(event.key, Key::Enter) && self.focus == Focus::Username {
            self.focus = Focus::Password;
            KeyOutcome::Advance
        } else {
            KeyOutcome::Forward { scan_cancelled: cancelled }
        }
    }
}

// ---------------------------------------------------------------------------
// Routing to the widgets
// ---------------------------------------------------------------------------

/// A root of the widget tree.
#[derive(Debug, Clone, Copy, PartialEq, Eq, Structural)]
pub enum Root {
    Background,
    SessionList,
    Card,
}

/// What the roots answered so far: whether they made use of the event.
#[derive(Debug, Clone, Copy, PartialEq, Eq, Structural)]
pub struct Answers {
    pub background: Option<bool>,
    pub session_list: Option<bool>,
    pub card: Option<bool>,
}

/// How an event goes on: to another root, or to its end, with whether
/// something is to be drawn again.
#[derive(Debug, Clone, Copy, PartialEq, Eq, Structural)]
pub enum Routing {
    Ask(Root),
    Done(bool),
}

impl Answers {
    /// No root has been asked.
    pub fn none() -> (r: Self)
        ensures
            r == (Answers { background: None, session_list: None, card: None }),
    {
        Answers { background: None, session_list: None, card: None }
    }

    /// The answers with that of `root` added.
    pub fn with(self, root: Root, handled: bool) -> (r: Self)
        ensures
            r == (match root {
                Root::Background => Answers { background: Some(handled), ..self },
                Root::SessionList => Answers { session_list: Some(handled), ..self },
                Root::Card => Answers { card: Some(handled), ..self },
            }),
    {
        match root {
            Root::Background => Answers { background: Some(handled), ..self },
            Root::SessionList => Answers { session_list: Some(handled), ..self },
            Root::Card => Answers { card: Some(handled), ..self },
        }
    }
}

/// A pointer movement goes to every root.
pub open spec fn cursor_routing(a: Answers) -> Routing {
    match (a.background, a.session_list, a.card) {
        (Some(b), Some(s), Some(c)) => Routing::Done(b || s || c),
        (None, _, _) => Routing::Ask(Root::Background),
        (_, None, _) => Routing::Ask(Root::SessionList),
        _ => Routing::Ask(Root::Card),
    }
}

/// A button goes to the background, and to the card only where the session
/// list made no use of it. A left press that neither of these two used
/// changes something too: it takes the keyboard away.
pub open spec fn mouse_routing(left_press: bool, a: Answers) -> Routing {
    match (a.background, a.session_list, a.card) {
        (None, _, _) => Routing::Ask(Root::Background),
        (_, None, _) => Routing::Ask(Root::SessionList),
        (_, Some(true), _) => Routing::Done(true),
        (Some(b), Some(false), Some(c)) => Routing::Done(b || c || left_press),
        (_, Some(false), None) => Routing::Ask(Root::Card),
    }
}

/// Every root was asked, and neither the session list nor the card made use of
/// the event.
pub open spec fn all_declined(a: Answers) -> bool {
    a.background is Some && a.session_list == Some(false) && a.card == Some(false)
}

/// A key stops at the first root that makes use of it: each delivery reaches
/// the box with the keyboard first, so a further one would type the key again.
pub open spec fn key_routing(a: Answers) -> Routing {
    match (a.background, a.session_list, a.card) {
        (None, _, _) => Routing::Ask(Root::Background),
        (Some(true), _, _) => Routing::Done(true),
        (Some(false), None, _) => Routing::Ask(Root::SessionList),
        (Some(false), Some(true), _) => Routing::Done(true),
        (Some(false), Some(false), None) => Routing::Ask(Root::Card),
        (Some(false), Some(false), Some(c)) => Routing::Done(c),
    }
}

impl State {
    /// Routes a pointer movement.
    pub fn widgets_cursor_moved(&self, a: Answers) -> (r: Routing)
        ensures
            r == cursor_routing(a),
    {
        match (a.background, a.session_list, a.card) {
            (Some(b), Some(s), Some(c)) => Routing::Done(b || s || c),
            (None, _, _) => Routing::Ask(Root::Background),
            (_, None, _) => Routing::Ask(Root::SessionList),
            _ => Routing::Ask(Root::Card),
        }
    }

    /// Routes a mouse button; a left press beside the list and the card takes
    /// the keyboard away from both boxes.
    pub fn widgets_mouse_input(&mut self, left: bool, pressed: bool, a: Answers) -> (r: Routing)
        ensures
            r == mouse_routing(left && pressed, a),
            final(self)@ == (if left && pressed && all_declined(a) {
                StateView { focus: Focus::Nowhere, ..old(self)@ }
            } else {
                old(self)@
            }),
    {
        match (a.background, a.session_list, a.card) {
            (None, _, _) => Routing::Ask(Root::Background),
            (_, None, _) => Routing::Ask(Root::SessionList),
            (_, Some(true), _) => Routing::Done(true),
            (Some(b), Some(false), Some(c)) => {
                let left_press = left && pressed;
                if left_press && !c {
                    self.focus = Focus::Nowhere;
                }
                Routing::Done(b || c || left_press)
            },
            (_, Some(false), None) => Routing::Ask(Root::Card),
        }
    }

    /// Routes a key.
    pub fn widgets_keyboard_input(&self, a: Answers) -> (r: Routing)
        ensures
            r == key_routing(a),
    {
        match (a.background, a.session_list, a.card) {
            (None, _, _) => Routing::Ask(Root::Background),
            (Some(true), _, _) => Routing::Done(true),
            (Some(false), None, _) => Routing::Ask(Root::SessionList),
            (Some(false), Some(true), _) => Routing::Done(true),
            (Some(false), Some(false), None) => Routing::Ask(Root::Card),
            (Some(false), Some(false), Some(c)) => Routing::Done(c),
        }
    }

    /// Whether the mouse buttons count: not while an attempt is under way.
    pub fn accepts_mouse(&self) -> (r: bool)
        ensures
            r == !self.is_authenticating,
    {
        !self.is_authenticating
    }

    /// Whether a mouse button starts an attempt: a left press that clicked the
    /// login button, outside an attempt.
    pub fn click_triggers(&self, left: bool, pressed: bool, button_clicked: bool) -> (r: bool)
        ensures
            r == (!self.is_authenticating && left && pressed && button_clicked),
    {
        !self.is_authenticating && left && pressed && button_clicked
    }
}

/// A key is used by at most one root: a root is asked only while none of those
/// before it has used the key.
pub proof fn a_key_is_used_once(a: Answers)
    requires
        a.session_list is Some ==> a.background is Some,
        a.card is Some ==> a.session_list is Some,
    ensures
        key_routing(a) is Ask ==> a.background != Some(true) && a.session_list != Some(true)
            && a.card is None,
        a.background == Some(true) || a.session_list == Some(true) || a.card == Some(true)
            ==> key_routing(a) == Routing::Done(true),
{
}

// ---------------------------------------------------------------------------
// Reports of an attempt
// ---------------------------------------------------------------------------

/// What a report asks of the greeter's window.
#[derive(Debug, Clone, PartialEq, Eq)]
pub enum EventOutcome {
    /// Nothing: the report is of an attempt that was given up.
    Stale,
    /// Print the line for the daemon and end with exit status 0.
    LoggedIn(String),
    /// Draw again; the user is verified, but no session is selected.
    Verified,
    /// Draw again, once a running fingerprint helper is waited for.
    Failed { reap_helper: bool },
    /// Draw again.
    Informed,
}

/// The view of an [`EventOutcome`].
#[verifier::ext_equal]
pub enum EventOutcomeView {
    Stale,
    LoggedIn(Seq<char>),
    Verified,
    Failed { reap_helper: bool },
    Informed,
}

impl View for EventOutcome {
    type V = EventOutcomeView;

    open spec fn view(&self) -> EventOutcomeView {
        match *self {
            EventOutcome::Stale => EventOutcomeView::Stale,
            EventOutcome::LoggedIn(line) => EventOutcomeView::LoggedIn(line@),
            EventOutcome::Verified => EventOutcomeView::Verified,
            EventOutcome::Failed { reap_helper } => EventOutcomeView::Failed { reap_helper },
            EventOutcome::Informed => EventOutcomeView::Informed,
        }
    }
}

/// The line that a verified login prints: the username in the box, the
/// selected session, and the password that was checked.
pub open spec fn handover_line(g: StateView) -> Seq<char> {
    let s = g.session_list.sessions[g.session_list.selected];
    login_line(trimmed(g.username), s.command, bool_text(s.is_wayland), g.auth_password)
}

/// What a report asks for.
pub open spec fn event_outcome(g: StateView, e: AuthEventView) -> EventOutcomeView {
    if e.request_id() != g.auth_request_id {
        EventOutcomeView::Stale
    } else {
        match e {
            AuthEventView::Success { .. } => if 0 <= g.session_list.selected
                < g.session_list.sessions.len() {
                EventOutcomeView::LoggedIn(handover_line(g))
            } else {
                EventOutcomeView::Verified
            },
            AuthEventView::Failure { .. } => EventOutcomeView::Failed {
                reap_helper: g.fprint_running,
            },
            AuthEventView::Info { .. } => EventOutcomeView::Informed,
        }
    }
}

/// The state after a report.
pub open spec fn event_state(g: StateView, e: AuthEventView) -> StateView {
    if e.request_id() != g.auth_request_id {
        g
    } else {
        match e {
            AuthEventView::Success { username, .. } => StateView {
                fprint_running: false,
                is_authenticating: false,
                status: "Welcome, "@ + username + "!"@,
                status_is_error: false,
                login_success: true,
                ..g
            },
            AuthEventView::Failure { err_msg, .. } => StateView {
                fprint_running: false,
                is_authenticating: false,
                status: if g.fprint_running {
                    failure_text(err_msg) + " — press Enter to scan again, or type password"@
                } else {
                    err_msg
                },
                status_is_error: true,
                password: seq![],
                focus: Focus::Password,
                ..g
            },
            AuthEventView::Info { msg, .. } => StateView {
                status: msg,
                status_is_error: false,
                ..g
            },
        }
    }
}

impl State {
    /// Handles a report of an authentication attempt.
    pub fn handle_auth_event(&mut self, event: AuthEvent) -> (r: EventOutcome)
        ensures
            final(self)@ == event_state(old(self)@, event@),
            r@ == event_outcome(old(self)@, event@),
            old(self)@.wf() ==> final(self)@.wf(),
    {
        if event.request_id() != self.auth_request_id {
            return EventOutcome::Stale;
        }
        match event {
            AuthEvent::Success { username, .. } => {
                self.fprint_running = false;
                self.is_authenticating = false;
                self.status = join3("Welcome, ", username.as_str(), "!");
                self.status_is_error = false;
                self.login_success = true;
                match self.session_list.selected_session() {
                    Some(session) => EventOutcome::LoggedIn(
                        auth_success_line(
                            trim(self.username.as_str()),
                            session.command.as_str(),
                            session.is_wayland,
                            self.auth_password.as_str(),
                        ),
                    ),
                    None => EventOutcome::Verified,
                }
            },
            AuthEvent::Failure { err_msg, .. } => {
                let was_fprint = self.fprint_running;
                self.fprint_running = false;
                self.is_authenticating = false;
                self.status = if was_fprint {
                    join2(
                        fprint_failure_text(err_msg.as_str()).as_str(),
                        " — press Enter to scan again, or type password",
                    )
                } else {
                    err_msg
                };
                self.status_is_error = true;
                self.password = String::new();
                self.focus = Focus::Password;
                EventOutcome::Failed { reap_helper: was_fprint }
            },
            AuthEvent::Info { msg, .. } => {
                self.status = msg;
                self.status_is_error = false;
                EventOutcome::Informed
            },
        }
    }
}

// ---------------------------------------------------------------------------
// Start of the greeter
// ---------------------------------------------------------------------------

/// A remembered text: `None` where there is no such file, `Some(None)` where
/// it cannot be read.
pub open spec fn remembered(file: Option<Option<String>>) -> Seq<char> {
    match file {
        Some(Some(text)) => trimmed(text@),
        _ => seq![],
    }
}

/// The trimmed text of a file that may be missing or unreadable.
pub fn remembered_text(file: &Option<Option<String>>) -> (r: String)
    ensures
        r@ == remembered(*file),
{
    match file {
        Some(Some(text)) => trim(text.as_str()).to_owned(),
        _ => String::new(),
    }
}

/// The username that the greeter starts with: that of the last login, or, on
/// a machine without one, that of the environment, unless it is a system one.
pub open spec fn first_username(
    last_user: Option<Option<String>>,
    env_user: Option<String>,
) -> Seq<char> {
    match (last_user, env_user) {
        (Some(_), _) => remembered(last_user),
        (None, Some(u)) => if u@ == "root"@ || u@ == "cce-display-manager"@ {
            seq![]
        } else {
            u@
        },
        (None, None) => seq![],
    }
}

/// The username that the greeter starts with.
pub fn initial_username(last_user: &Option<Option<String>>, env_user: &Option<String>) -> (r:
    String)
    ensures
        r@ == first_username(*last_user, *env_user),
{
    match (last_user, env_user) {
        (Some(_), _) => remembered_text(last_user),
        (None, Some(u)) => if same(u.as_str(), "root") || same(
            u.as_str(),
            "cce-display-manager",
        ) {
            String::new()
        } else {
            u.clone()
        },
        (None, None) => String::new(),
    }
}

/// Seconds after an automatic fingerprint attempt in which a greeter counts as
/// started again, and makes no further one.
pub const FPRINT_AUTOSTART_COOLDOWN_SECS: u64 = 20;

/// The file that is written when a greeter starts an attempt on its own.
pub const FPRINT_AUTOSTART_STAMP: &'static str = "/run/cce-display-manager/fprint-autostart";

/// The stack of the fingerprint service.
pub const FPRINT_STACK_PATH: &'static str = "/etc/pam.d/cce-display-manager-fprint";

/// Whether the last automatic attempt, `age` whole seconds ago, is recent.
pub fn fprint_autostart_recently(age: Option<u64>) -> (r: bool)
    ensures
        r == (age matches Some(a) && a < FPRINT_AUTOSTART_COOLDOWN_SECS),
{
    match age {
        Some(a) => a < FPRINT_AUTOSTART_COOLDOWN_SECS,
        None => false,
    }
}

/// Whether a line of a PAM stack runs the fingerprint module.
pub open spec fn runs_fprintd(line: Seq<char>) -> bool {
    occurs("pam_fprintd.so"@, trimmed(line)) && !"#"@.is_prefix_of(trimmed(line))
}

/// Whether some line of a PAM stack runs the fingerprint module.
pub open spec fn stack_runs_fprintd(text: Seq<char>) -> bool {
    exists|i: int| 0 <= i < lines_of(text).len() && runs_fprintd(#[trigger] lines_of(text)[i])
}

/// Whether the fingerprint service is enabled, from the text of its stack.
pub fn is_fprint_enabled(stack: Option<&str>) -> (r: bool)
    ensures
        r == (stack matches Some(text) && stack_runs_fprintd(text@)),
{
    match stack {
        None => false,
        Some(text) => {
            let ls = lines(text);
            let ghost all = lines_of(text@);
            let mut i: usize = 0;
            while i < ls.len()
                invariant
                    stack == Some(text),
                    all == texts(ls@),
                    all == lines_of(text@),
                    i <= ls@.len(),
                    forall|k: int| 0 <= k < i ==> !runs_fprintd(#[trigger] all[k]),
                decreases ls.len() - i,
            {
                let line = trim(ls[i].as_str());
                assert(all[i as int] == ls@[i as int]@);
                if contains(line, "pam_fprintd.so") && !starts_with(line, "#") {
                    assert(runs_fprintd(lines_of(text@)[i as int]));
                    return true;
                }
                i = i + 1;
            }
            false
        },
    }
}

/// Whether the greeter starts a fingerprint attempt on its own.
#[derive(Debug, Clone, PartialEq, Eq)]
pub enum AutoStart {
    /// No: there is no username, or no fingerprint service.
    No,
    /// Not now: a greeter made one a moment ago.
    Suppressed,
    /// Yes: note the time and run the helper.
    Run { request_id: u64, username: String },
}

/// What the greeter reads as it starts.
pub struct Startup {
    pub last_user: Option<Option<String>>,
    pub env_user: Option<String>,
    pub sessions: Vec<Session>,
    pub last_session: Option<Option<String>>,
    pub fprint_enabled: bool,
    pub autostarted_recently: bool,
}

/// The state before any attempt.
pub open spec fn idle_state(s: Startup) -> StateView {
    let username = first_username(s.last_user, s.env_user);
    let sessions = sessions_view(s.sessions@);
    StateView {
        username,
        password: seq![],
        focus: if trimmed(username).len() > 0 {
            Focus::Password
        } else {
            Focus::Username
        },
        status: "Enter password to start"@,
        status_is_error: false,
        session_list: SessionListView {
            sessions,
            selected: saved_position(sessions, remembered(s.last_session), 0),
            hovered: None,
        },
        login_success: false,
        is_authenticating: false,
        auth_request_id: 0,
        fprint_running: false,
        auth_password: seq![],
    }
}

/// The state that the greeter starts in.
pub open spec fn first_state(s: Startup) -> StateView {
    let g = idle_state(s);
    if trimmed(g.username).len() == 0 || !s.fprint_enabled {
        g
    } else if s.autostarted_recently {
        StateView { status: "Press Enter to scan finger, or type password"@, ..g }
    } else {
        scanning(g)
    }
}

impl State {
    /// The greeter at its start: the last user and the last session are filled
    /// in, and a fingerprint attempt runs for a known user, unless one was
    /// made a moment ago.
    pub fn new(startup: Startup) -> (r: (Self, AutoStart))
        requires
            startup.sessions@.len() > 0,
        ensures
            r.0@.wf(),
            r.0@ == first_state(startup),
            match r.1 {
                AutoStart::No => trimmed(r.0.username@).len() == 0 || !startup.fprint_enabled,
                AutoStart::Suppressed => trimmed(r.0.username@).len() > 0
                    && startup.fprint_enabled && startup.autostarted_recently,
                AutoStart::Run { request_id, username } => {
                    &&& trimmed(r.0.username@).len() > 0
                    &&& startup.fprint_enabled
                    &&& !startup.autostarted_recently
                    &&& request_id == r.0.auth_request_id
                    &&& username@ == trimmed(r.0.username@)
                },
            },
    {
        let username = initial_username(&startup.last_user, &startup.env_user);
        let last_session = remembered_text(&startup.last_session);
        let has_username = !trim(username.as_str()).is_empty();
        let enabled = startup.fprint_enabled;
        let recently = startup.autostarted_recently;
        let ghost given = startup;
        let mut session_list = SessionList::new(startup.sessions);
        session_list.select_saved(last_session.as_str());
        let mut state = State {
            username,
            password: String::new(),
            focus: if has_username {
                Focus::Password
            } else {
                Focus::Username
            },
            status: "Enter password to start".to_owned(),
            status_is_error: false,
            session_list,
            login_success: false,
            is_authenticating: false,
            auth_request_id: 0,
            fprint_running: false,
            auth_password: String::new(),
        };
        assert(state@ =~= idle_state(given));
        if !has_username || !enabled {
            return (state, AutoStart::No);
        }
        if recently {
            state.status = "Press Enter to scan finger, or type password".to_owned();
            return (state, AutoStart::Suppressed);
        }
        let name = trim(state.username.as_str()).to_owned();
        let _ = state.start_fprint_auth();
        let request_id = state.auth_request_id;
        (state, AutoStart::Run { request_id, username: name })
    }
}

// ---------------------------------------------------------------------------
// Laws
// ---------------------------------------------------------------------------

/// Whether keys that move about count: outside an attempt, and in one while
/// nothing is typed.
pub open spec fn may_move(g: StateView) -> bool {
    !g.is_authenticating || g.password.len() == 0
}

/// Down and Ctrl+N select the session below, Up and Ctrl+P the one above, from
/// each end of the list round to the other; no row is hovered then, nothing
/// else changes, and the window is drawn again. Each of the two undoes the
/// other.
pub proof fn arrows_pick_the_session(g: StateView, down: KeyInput, up: KeyInput)
    requires
        g.wf(),
        may_move(g),
        down.pressed && down.asks_next(),
        up.pressed && up.asks_previous(),
    ensures
        ({
            let l = g.session_list;
            let n = l.sessions.len() as int;
            let at = |i: int|
                StateView {
                    session_list: SessionListView { selected: i, hovered: None, ..l },
                    ..g
                };
            &&& key_outcome(g, down) == KeyOutcome::Moved
            &&& key_outcome(g, up) == KeyOutcome::Moved
            &&& key_state(g, down) == at((l.selected + 1) % n)
            &&& key_state(g, up) == at((l.selected + n - 1) % n)
            &&& key_state(g, down).wf() && key_state(g, up).wf()
            &&& key_state(key_state(g, down), up) == at(l.selected)
            &&& key_state(key_state(g, up), down) == at(l.selected)
        }),
{
    let l = g.session_list;
    lemma_moving_keys(down, up);
    crate::session::down_and_up_cancel(l.selected, l.sessions.len() as int);
}

proof fn lemma_moving_keys(down: KeyInput, up: KeyInput)
    requires
        down.asks_next(),
        up.asks_previous(),
    ensures
        !down.asks_previous(),
        !down.is_ctrl("c"@, "C"@) && !up.is_ctrl("c"@, "C"@),
        !(down.key is F5) && !(up.key is F5),
{
    reveal_strlit("c");
    reveal_strlit("C");
    reveal_strlit("p");
    reveal_strlit("P");
    reveal_strlit("n");
    reveal_strlit("N");
    assert("c"@[0] == 'c' && "C"@[0] == 'C' && "p"@[0] == 'p' && "P"@[0] == 'P' && "n"@[0] == 'n'
        && "N"@[0] == 'N');
}

/// The state after pressing a key so many times.
pub open spec fn key_times(g: StateView, k: KeyInput, times: nat) -> StateView
    decreases times,
{
    if times == 0 {
        g
    } else {
        key_state(key_times(g, k, (times - 1) as nat), k)
    }
}

/// As many steps down as there are sessions come back to the same one; and so
/// do as many up. After fewer, the selection stands that many further.
pub proof fn the_selection_comes_round(g: StateView, down: KeyInput, up: KeyInput, times: nat)
    requires
        g.wf(),
        may_move(g),
        down.pressed && down.asks_next(),
        up.pressed && up.asks_previous(),
    ensures
        ({
            let l = g.session_list;
            let n = l.sessions.len();
            &&& key_times(g, down, times).session_list.selected == (l.selected + times) % (n as int)
            &&& key_times(g, up, times).session_list.selected == (l.selected - times) % (n as int)
            &&& key_times(g, down, n).session_list.selected == l.selected
            &&& key_times(g, up, n).session_list.selected == l.selected
        }),
{
    let l = g.session_list;
    let n = l.sessions.len();
    lemma_key_times(g, down, up, times);
    lemma_key_times(g, down, up, n);
    vstd::arithmetic::div_mod::lemma_mod_add_multiples_vanish(l.selected, n as int);
    vstd::arithmetic::div_mod::lemma_mod_sub_multiples_vanish(l.selected, n as int);
    vstd::arithmetic::div_mod::lemma_small_mod(l.selected as nat, n);
    assert(l.selected + n == n + l.selected);
    assert(l.selected - n == -n + l.selected);
}

proof fn lemma_key_times(g: StateView, down: KeyInput, up: KeyInput, times: nat)
    requires
        g.wf(),
        may_move(g),
        down.pressed && down.asks_next(),
        up.pressed && up.asks_previous(),
    ensures
        ({
            let n = g.session_list.sessions.len() as int;
            let d = key_times(g, down, times);
            let u = key_times(g, up, times);
            &&& d.wf() && may_move(d) && d.session_list.sessions == g.session_list.sessions
            &&& u.wf() && may_move(u) && u.session_list.sessions == g.session_list.sessions
            &&& d.session_list.selected == (g.session_list.selected + times) % n
            &&& u.session_list.selected == (g.session_list.selected - times) % n
        }),
    decreases times,
{
    let i = g.session_list.selected;
    let n = g.session_list.sessions.len() as int;
    if times == 0 {
        vstd::arithmetic::div_mod::lemma_small_mod(i as nat, n as nat);
    } else {
        let before = (times - 1) as nat;
        lemma_key_times(g, down, up, before);
        let d = key_times(g, down, before);
        let u = key_times(g, up, before);
        arrows_pick_the_session(d, down, up);
        arrows_pick_the_session(u, down, up);
        vstd::arithmetic::div_mod::lemma_add_mod_noop_right(1, i + before, n);
        assert(1 + (i + before) == i + times);
        vstd::arithmetic::div_mod::lemma_add_mod_noop_right(n - 1, i - before, n);
        vstd::arithmetic::div_mod::lemma_mod_add_multiples_vanish(i - times, n);
        assert(n - 1 + (i - before) == n + (i - times));
    }
}

/// The greeter's start and each of its steps keep the state well formed.
pub proof fn every_step_keeps_the_state_well_formed(
    g: StateView,
    k: KeyInput,
    e: AuthEventView,
    fprint_enabled: bool,
)
    requires
        g.wf(),
    ensures
        key_state(g, k).wf(),
        event_state(g, e).wf(),
        triggered(g, fprint_enabled).wf(),
        scanning(g).wf(),
        scan_unavailable(g).wf(),
{
    let l = g.session_list;
    crate::session::down_and_up_cancel(l.selected, l.sessions.len() as int);
}

/// A new attempt outdates those before it: whatever an earlier attempt still
/// reports changes nothing and asks for nothing.
pub proof fn a_new_attempt_outdates_the_old(g: StateView, e: AuthEventView, fprint_enabled: bool)
    requires
        g.auth_request_id < u64::MAX,
        e.request_id() <= g.auth_request_id,
        !(trigger_start(g, fprint_enabled) is Refused),
    ensures
        event_state(triggered(g, fprint_enabled), e) == triggered(g, fprint_enabled),
        event_outcome(triggered(g, fprint_enabled), e) is Stale,
{
}

/// So does cancelling an attempt by typing.
pub proof fn typing_outdates_the_attempt(g: StateView, k: KeyInput, e: AuthEventView)
    requires
        g.auth_request_id < u64::MAX,
        e.request_id() <= g.auth_request_id,
        cancels_scan(g, k),
    ensures
        event_state(key_state(g, k), e) == key_state(g, k),
        event_outcome(key_state(g, k), e) is Stale,
{
}

/// What is typed into the boxes does not change what is handed over: neither a
/// key nor the text of the password box touches the password that the attempt
/// under way is checking.
pub proof fn typing_leaves_the_checked_password(g: StateView, k: KeyInput, typed: Seq<char>)
    ensures
        key_state(g, k).auth_password == g.auth_password,
        handover_line(StateView { password: typed, ..g }) == handover_line(g),
{
}

/// A verified attempt hands over the password that it checked: what the daemon
/// reads from the printed line is the username, the selected session and that
/// password; after a fingerprint, an empty one.
pub proof fn the_checked_password_is_handed_over(g: StateView, e: AuthEventView)
    requires
        g.wf(),
        e is Success,
        e.request_id() == g.auth_request_id,
        !trimmed(g.username).contains('|'),
        !g.session_list.sessions[g.session_list.selected].command.contains('|'),
    ensures
        event_outcome(g, e) matches EventOutcomeView::LoggedIn(line) && login_of(line) == Some(
            (
                trimmed(g.username),
                g.session_list.sessions[g.session_list.selected].command,
                g.session_list.sessions[g.session_list.selected].is_wayland,
                g.auth_password,
            ),
        ),
        g.fprint_running ==> g.auth_password.len() == 0,
        g.is_authenticating && !g.fprint_running ==> g.auth_password.len() > 0,
{
    let s = g.session_list.sessions[g.session_list.selected];
    login_line_reads_back(trimmed(g.username), s.command, s.is_wayland, g.auth_password);
}

/// The password that an attempt checks is the one in the box as it starts, and
/// a fingerprint attempt checks none.
pub proof fn an_attempt_checks_what_was_typed(g: StateView, fprint_enabled: bool)
    ensures
        trigger_start(g, fprint_enabled) matches AuthStartView::Password { password, .. } ==> {
            &&& password == g.password
            &&& triggered(g, fprint_enabled).auth_password == g.password
            &&& g.password.len() > 0
        },
        trigger_start(g, fprint_enabled) is Fingerprint ==> triggered(
            g,
            fprint_enabled,
        ).auth_password.len() == 0,
{
}

/// Whether the key types the letter whose two cases are given.
pub open spec fn letter(k: KeyInput, lower: char, upper: char) -> bool {
    k.key matches Key::Character(c) && (c@ == seq![lower] || c@ == seq![upper])
}

proof fn lemma_letters(k: KeyInput)
    ensures
        k.is_ctrl("c"@, "C"@) == (k.ctrl && letter(k, 'c', 'C')),
        k.is_ctrl("p"@, "P"@) == (k.ctrl && letter(k, 'p', 'P')),
        k.is_ctrl("n"@, "N"@) == (k.ctrl && letter(k, 'n', 'N')),
        letter(k, 'c', 'C') ==> !letter(k, 'p', 'P') && !letter(k, 'n', 'N'),
{
    assert(seq!['c'][0] == 'c' && seq!['C'][0] == 'C' && seq!['p'][0] == 'p' && seq!['P'][0] == 'P'
        && seq!['n'][0] == 'n' && seq!['N'][0] == 'N');
    reveal_strlit("c");
    reveal_strlit("C");
    reveal_strlit("p");
    reveal_strlit("P");
    reveal_strlit("n");
    reveal_strlit("N");
    assert("c"@ =~= seq!['c'] && "C"@ =~= seq!['C']);
    assert("p"@ =~= seq!['p'] && "P"@ =~= seq!['P']);
    assert("n"@ =~= seq!['n'] && "N"@ =~= seq!['N']);
}

/// Exactly two keys end the greeter, at any time and whether they go down or
/// up: Ctrl+C, with the status that ends the display manager, and F5, with the
/// one that restarts it. They change nothing. Any other key counts only as it
/// goes down.
pub proof fn two_keys_end_the_greeter(g: StateView, k: KeyInput)
    ensures
        key_outcome(g, k) == KeyOutcome::Exit(130) <==> k.ctrl && letter(k, 'c', 'C'),
        key_outcome(g, k) == KeyOutcome::Exit(135) <==> k.key is F5,
        key_outcome(g, k) matches KeyOutcome::Exit(status) ==> status == 130 || status == 135,
        key_outcome(g, k) is Exit ==> key_state(g, k) == g,
        !k.pressed && !(key_outcome(g, k) is Exit) ==> key_outcome(g, k) is Ignored,
        key_outcome(g, k) is Ignored ==> key_state(g, k) == g,
{
    lemma_letters(k);
}

/// Outside an attempt no key that goes down is lost. What types a text reaches
/// the boxes, and so does any key that the greeter has no use for itself; it
/// leaves the state as it is. Enter in the password box starts an attempt, and
/// in the username box goes on to the password.
pub proof fn idle_keys_are_used(g: StateView, k: KeyInput)
    requires
        !g.is_authenticating,
        k.pressed,
    ensures
        !(key_outcome(g, k) is Ignored),
        !k.ctrl && (k.key is Character || k.key is Backspace || k.key is Delete || k.key is Space)
            ==> key_outcome(g, k) == (KeyOutcome::Forward { scan_cancelled: false }),
        k.ctrl && (k.key is Backspace || k.key is Delete || k.key is Space) ==> key_outcome(g, k)
            == (KeyOutcome::Forward { scan_cancelled: false }),
        k.ctrl && k.key is Character && !letter(k, 'c', 'C') && !letter(k, 'p', 'P') && !letter(
            k,
            'n',
            'N',
        ) ==> key_outcome(g, k) == (KeyOutcome::Forward { scan_cancelled: false }),
        k.key is Other ==> key_outcome(g, k) == (KeyOutcome::Forward { scan_cancelled: false }),
        key_outcome(g, k) is Forward ==> key_state(g, k) == g,
        k.key is Enter ==> {
            &&& g.focus == Focus::Password ==> key_outcome(g, k) is Submit && key_state(g, k) == g
            &&& g.focus == Focus::Username ==> key_outcome(g, k) is Advance && key_state(g, k) == (
                StateView { focus: Focus::Password, ..g })
            &&& g.focus == Focus::Nowhere ==> key_outcome(g, k) == (KeyOutcome::Forward {
                scan_cancelled: false,
            })
        },
        k.key is ArrowUp || k.key is ArrowDown ==> key_outcome(g, k) is Moved,
        k.ctrl && (letter(k, 'p', 'P') || letter(k, 'n', 'N')) ==> key_outcome(g, k) is Moved,
        k.key is Tab ==> key_outcome(g, k) is Switched,
{
    lemma_letters(k);
}

/// A password that is being checked is not disturbed: every key that goes down
/// meanwhile is ignored, but for the two that end the greeter. While only a
/// finger is awaited, typing gives the scan up and is delivered, moving about
/// works as ever, and nothing else counts.
pub proof fn keys_during_an_attempt(g: StateView, k: KeyInput)
    requires
        g.is_authenticating,
        k.pressed,
        !(key_outcome(g, k) is Exit),
    ensures
        g.password.len() > 0 ==> key_outcome(g, k) is Ignored,
        g.password.len() == 0 ==> {
            let types = k.key is Character || k.key is Backspace || k.key is Delete
                || k.key is Space;
            let next = k.key is ArrowDown || k.ctrl && letter(k, 'n', 'N');
            let previous = k.key is ArrowUp || k.ctrl && letter(k, 'p', 'P');
            &&& key_outcome(g, k) == (KeyOutcome::Forward { scan_cancelled: true }) <==> !k.ctrl
                && types
            &&& key_outcome(g, k) is Moved <==> next || previous
            &&& key_outcome(g, k) is Switched <==> k.key is Tab
            &&& key_outcome(g, k) is Ignored <==> !(!k.ctrl && types) && !next && !previous && !(
            k.key is Tab)
        },
        key_outcome(g, k) is Forward ==> {
            let after = key_state(g, k);
            &&& !after.is_authenticating && !after.fprint_running
            &&& after.auth_request_id == (g.auth_request_id + 1) as u64
            &&& after.status == "Enter password to start"@ && !after.status_is_error
            &&& after.username == g.username && after.password == g.password
            &&& after.focus == g.focus && after.session_list == g.session_list
            &&& after.login_success == g.login_success
        },
{
    lemma_letters(k);
}

/// Tab gives the keyboard to the other of the two boxes, and to the username
/// where neither has it; nothing else changes.
pub proof fn tab_switches_between_the_boxes(g: StateView, k: KeyInput)
    requires
        k.pressed,
        k.key is Tab,
        !g.is_authenticating || g.password.len() == 0,
    ensures
        ({
            let after = key_state(g, k);
            &&& after == (StateView { focus: after.focus, ..g })
            &&& after.focus != g.focus && after.focus != Focus::Nowhere
            &&& g.focus == Focus::Nowhere ==> after.focus == Focus::Username
            &&& g.focus != Focus::Nowhere ==> key_state(after, k) == g
        }),
{
    lemma_letters(k);
}

/// An attempt starts exactly where a username is given, and with it a password
/// or, on a machine with the service, a finger. A typed password goes before
/// the finger. What is started carries the username without the white space
/// around it, and a number that no attempt had before; the boxes stay as they
/// are.
pub proof fn what_an_attempt_needs(g: StateView, fprint_enabled: bool)
    requires
        g.auth_request_id < u64::MAX,
    ensures
        ({
            let start = trigger_start(g, fprint_enabled);
            let after = triggered(g, fprint_enabled);
            let named = trimmed(g.username).len() > 0;
            &&& start is Password <==> named && g.password.len() > 0
            &&& start is Fingerprint <==> named && g.password.len() == 0 && fprint_enabled
            &&& start is Refused <==> !named || g.password.len() == 0 && !fprint_enabled
            &&& start matches AuthStartView::Password { request_id, username, password } ==> {
                &&& username == trimmed(g.username) && password == g.password
                &&& request_id == g.auth_request_id + 1 && request_id == after.auth_request_id
                &&& after.is_authenticating && !after.fprint_running
                &&& after.status == "Authenticating..."@
            }
            &&& start matches AuthStartView::Fingerprint { request_id, username } ==> {
                &&& username == trimmed(g.username)
                &&& request_id == g.auth_request_id + 1 && request_id == after.auth_request_id
                &&& after.is_authenticating && after.fprint_running
                &&& after.status == "Scan finger to login or type password"@
            }
            &&& after.username == g.username && after.password == g.password
            &&& after.session_list == g.session_list && after.login_success == g.login_success
            &&& after.status_is_error == (start is Refused)
            &&& !(start is Refused) ==> after.focus == g.focus
        }),
{
}

/// A refused attempt says what is missing, and gives the keyboard to the box
/// that it is missing from: the username first. An attempt under way goes on.
pub proof fn a_refusal_says_what_is_missing(g: StateView, fprint_enabled: bool)
    requires
        trigger_start(g, fprint_enabled) is Refused,
    ensures
        ({
            let after = triggered(g, fprint_enabled);
            let named = trimmed(g.username).len() > 0;
            &&& after.focus == (if named {
                Focus::Password
            } else {
                Focus::Username
            })
            &&& after.status == (if named {
                "Password cannot be empty"@
            } else {
                "Username cannot be empty"@
            })
            &&& after.status_is_error
            &&& after.auth_request_id == g.auth_request_id
            &&& after.auth_password == g.auth_password
            &&& after.is_authenticating == g.is_authenticating
            &&& after.fprint_running == g.fprint_running
        }),
{
}

/// A fingerprint attempt has a new number and no password, and keeps what is
/// in the boxes and in the list; where its helper cannot be run, no attempt is
/// under way, the user is told to type, and nothing else changes.
pub proof fn a_scan_begins_or_is_unavailable(g: StateView)
    requires
        g.auth_request_id < u64::MAX,
    ensures
        ({
            let after = scanning(g);
            &&& after.auth_request_id == g.auth_request_id + 1
            &&& after.auth_password.len() == 0
            &&& after.is_authenticating && after.fprint_running
            &&& after.status == "Scan finger to login or type password"@ && !after.status_is_error
            &&& after.username == g.username && after.password == g.password
            &&& after.focus == g.focus && after.session_list == g.session_list
            &&& after.login_success == g.login_success
        }),
        ({
            let after = scan_unavailable(g);
            &&& !after.is_authenticating && !after.fprint_running && after.status_is_error
            &&& after.status == "Fingerprint unavailable — type password"@
            &&& after.auth_request_id == g.auth_request_id
            &&& after.auth_password == g.auth_password
            &&& after.username == g.username && after.password == g.password
            &&& after.focus == g.focus && after.session_list == g.session_list
            &&& after.login_success == g.login_success
        }),
{
}

/// A report counts exactly where it carries the number of the attempt under
/// way; no other changes or asks for anything.
pub proof fn only_the_current_attempt_reports(g: StateView, e: AuthEventView)
    ensures
        event_outcome(g, e) is Stale <==> e.request_id() != g.auth_request_id,
        event_outcome(g, e) is Stale ==> event_state(g, e) == g,
{
}

/// A success ends the attempt and greets the user; with a session selected it
/// logs in. The boxes, the list and the checked password stay.
pub proof fn a_success_logs_in(g: StateView, e: AuthEventView)
    requires
        e.request_id() == g.auth_request_id,
    ensures
        e matches AuthEventView::Success { username, .. } ==> {
            let after = event_state(g, e);
            &&& event_outcome(g, e) is LoggedIn <==> 0 <= g.session_list.selected
                < g.session_list.sessions.len()
            &&& event_outcome(g, e) is Verified <==> !(0 <= g.session_list.selected
                < g.session_list.sessions.len())
            &&& !after.is_authenticating && !after.fprint_running
            &&& after.login_success && !after.status_is_error
            &&& after.status == "Welcome, "@ + username + "!"@
            &&& after.username == g.username && after.password == g.password
            &&& after.focus == g.focus && after.session_list == g.session_list
            &&& after.auth_request_id == g.auth_request_id
            &&& after.auth_password == g.auth_password
        },
        event_outcome(g, e) is LoggedIn || event_outcome(g, e) is Verified ==> e is Success,
{
}

/// A failure ends the attempt: the reason is shown, the password box is
/// emptied and has the keyboard. A failed scan adds how to go on, and has its
/// helper waited for.
pub proof fn a_failure_asks_again(g: StateView, e: AuthEventView)
    requires
        e.request_id() == g.auth_request_id,
    ensures
        e matches AuthEventView::Failure { err_msg, .. } ==> {
            let after = event_state(g, e);
            &&& event_outcome(g, e) == (EventOutcomeView::Failed { reap_helper: g.fprint_running })
            &&& !after.is_authenticating && !after.fprint_running
            &&& after.status_is_error && after.login_success == g.login_success
            &&& after.password.len() == 0 && after.focus == Focus::Password
            &&& !g.fprint_running ==> after.status == err_msg
            &&& g.fprint_running ==> after.status == failure_text(err_msg)
                + " — press Enter to scan again, or type password"@
            &&& after.username == g.username && after.session_list == g.session_list
            &&& after.auth_request_id == g.auth_request_id
            &&& after.auth_password == g.auth_password
        },
        event_outcome(g, e) is Failed ==> e is Failure,
{
}

/// A message is shown while the attempt goes on; nothing else changes.
pub proof fn a_message_is_shown(g: StateView, e: AuthEventView)
    requires
        e.request_id() == g.auth_request_id,
    ensures
        event_outcome(g, e) is Informed <==> e is Info,
        e matches AuthEventView::Info { msg, .. } ==> {
            let after = event_state(g, e);
            &&& after.status == msg && !after.status_is_error
            &&& StateView { status: g.status, status_is_error: g.status_is_error, ..after } == g
        },
{
}

/// A pointer movement asks each root once, in their order, and is done with
/// what any of them made of it; a key asks the next one only while it is
/// unused, and is done with whether it was used.
pub proof fn roots_are_asked_in_order(a: Answers)
    requires
        a.session_list is Some ==> a.background is Some,
        a.card is Some ==> a.session_list is Some,
    ensures
        cursor_routing(a) == Routing::Ask(Root::Background) <==> a.background is None,
        cursor_routing(a) == Routing::Ask(Root::SessionList) <==> a.background is Some
            && a.session_list is None,
        cursor_routing(a) == Routing::Ask(Root::Card) <==> a.session_list is Some && a.card is None,
        cursor_routing(a) matches Routing::Done(used) ==> a.card is Some && (used <==> a.background
            == Some(true) || a.session_list == Some(true) || a.card == Some(true)),
        key_routing(a) == Routing::Ask(Root::Background) <==> a.background is None,
        key_routing(a) == Routing::Ask(Root::SessionList) <==> a.background == Some(false)
            && a.session_list is None,
        key_routing(a) == Routing::Ask(Root::Card) <==> a.background == Some(false)
            && a.session_list == Some(false) && a.card is None,
        key_routing(a) matches Routing::Done(used) ==> (used <==> a.background == Some(true)
            || a.session_list == Some(true) || a.card == Some(true)),
{
}

/// A mouse button asks the background and the list, and the card only where
/// the list made no use of it. The window is drawn again where any of them
/// used it, and after a left press in any case.
pub proof fn a_button_goes_past_the_list(left_press: bool, a: Answers)
    requires
        a.session_list is Some ==> a.background is Some,
        a.card is Some ==> a.session_list == Some(false),
    ensures
        mouse_routing(left_press, a) == Routing::Ask(Root::Background) <==> a.background is None,
        mouse_routing(left_press, a) == Routing::Ask(Root::SessionList) <==> a.background is Some
            && a.session_list is None,
        mouse_routing(left_press, a) == Routing::Ask(Root::Card) <==> a.session_list == Some(false)
            && a.card is None,
        mouse_routing(left_press, a) matches Routing::Done(draw) ==> (draw <==> left_press
            || a.background == Some(true) || a.session_list == Some(true) || a.card == Some(true)),
        all_declined(a) <==> a.card == Some(false),
{
}

/// What the widgets hold is taken over as it is, but for a row that the list
/// does not have; what the widgets do not hold stays.
pub proof fn the_widgets_are_taken_over(
    g: StateView,
    username: Seq<char>,
    password: Seq<char>,
    focus: Focus,
    selected: usize,
    hovered: Option<usize>,
)
    requires
        g.wf(),
    ensures
        ({
            let after = taken_over(g, username, password, focus, selected, hovered);
            let l = after.session_list;
            &&& after.wf()
            &&& after.username == username && after.password == password && after.focus == focus
            &&& l.hovered == hovered && l.sessions == g.session_list.sessions
            &&& selected < l.sessions.len() ==> l.selected == selected
            &&& selected >= l.sessions.len() ==> l.selected == g.session_list.selected
            &&& after.status == g.status && after.status_is_error == g.status_is_error
            &&& after.login_success == g.login_success
            &&& after.is_authenticating == g.is_authenticating
            &&& after.auth_request_id == g.auth_request_id
            &&& after.fprint_running == g.fprint_running
            &&& after.auth_password == g.auth_password
        }),
{
}

/// The greeter starts with the user of the last login, where one is
/// remembered, and else with the user of the environment, unless that is a
/// system one. Remembered texts lose the white space around them, and a file
/// that cannot be read remembers nothing.
pub proof fn the_last_user_is_filled_in(last_user: Option<Option<String>>, env_user: Option<String>)
    ensures
        last_user matches Some(Some(text)) ==> first_username(last_user, env_user) == trimmed(
            text@,
        ),
        last_user == Some(None::<String>) ==> first_username(last_user, env_user).len() == 0,
        last_user is None ==> (env_user matches Some(u) ==> first_username(last_user, env_user)
            == if u@ == "root"@ || u@ == "cce-display-manager"@ {
            Seq::<char>::empty()
        } else {
            u@
        }),
        last_user is None && env_user is None ==> first_username(last_user, env_user).len() == 0,
        last_user matches Some(Some(text)) ==> remembered(last_user) == trimmed(text@),
        !(last_user matches Some(Some(_))) ==> remembered(last_user).len() == 0,
{
}

/// The greeter starts on the password of a known user, else on the username,
/// with the last session selected, no attempt verified and no error shown. It
/// starts a scan on its own exactly for a known user on a machine with the
/// service, and not twice in a row: there it says how to.
pub proof fn how_the_greeter_starts(s: Startup)
    ensures
        ({
            let g = first_state(s);
            let known = trimmed(g.username).len() > 0;
            let scans = known && s.fprint_enabled && !s.autostarted_recently;
            &&& g.username == first_username(s.last_user, s.env_user)
            &&& g.password.len() == 0 && g.auth_password.len() == 0
            &&& g.focus == (if known {
                Focus::Password
            } else {
                Focus::Username
            })
            &&& g.session_list.sessions == sessions_view(s.sessions@)
            &&& g.session_list.selected == saved_position(
                sessions_view(s.sessions@),
                remembered(s.last_session),
                0,
            )
            &&& g.session_list.hovered is None
            &&& !g.login_success && !g.status_is_error
            &&& g.is_authenticating == scans && g.fprint_running == scans
            &&& g.auth_request_id == (if scans {
                1u64
            } else {
                0u64
            })
            &&& scans ==> g.status == "Scan finger to login or type password"@
            &&& known && s.fprint_enabled && s.autostarted_recently ==> g.status
                == "Press Enter to scan finger, or type password"@
            &&& !known || !s.fprint_enabled ==> g.status == "Enter password to start"@
        }),
{
}

/// The service is there exactly where some line of its stack names the
/// module and, once trimmed, does not begin as a comment.
pub proof fn a_comment_enables_no_service(text: Seq<char>)
    ensures
        stack_runs_fprintd(text) <==> exists|i: int|
            0 <= i < lines_of(text).len() && {
                let l = trimmed(#[trigger] lines_of(text)[i]);
                occurs("pam_fprintd.so"@, l) && l[0] != '#'
            },
{
    reveal_strlit("#");
    reveal_strlit("pam_fprintd.so");
    let ls = lines_of(text);
    assert forall|i: int| 0 <= i < ls.len() implies runs_fprintd(#[trigger] ls[i]) == {
        let l = trimmed(ls[i]);
        occurs("pam_fprintd.so"@, l) && l[0] != '#'
    } by {
        let l = trimmed(ls[i]);
        assert("#"@ =~= seq!['#']);
        if l.len() > 0 {
            assert(l.take(1) =~= seq![l[0]]);
            if l[0] == '#' {
                assert(l.subrange(0, 1) =~= "#"@);
            } else {
                assert(l.subrange(0, 1)[0] == l[0]);
            }
        }
    }
    if stack_runs_fprintd(text) {
        let i = choose|i: int| 0 <= i < ls.len() && runs_fprintd(#[trigger] ls[i]);
        assert(occurs("pam_fprintd.so"@, trimmed(lines_of(text)[i])));
    }
    if exists|i: int|
        0 <= i < lines_of(text).len() && {
            let l = trimmed(#[trigger] lines_of(text)[i]);
            occurs("pam_fprintd.so"@, l) && l[0] != '#'
        } {
        let i = choose|i: int|
            0 <= i < lines_of(text).len() && {
                let l = trimmed(#[trigger] lines_of(text)[i]);
                occurs("pam_fprintd.so"@, l) && l[0] != '#'
            };
        assert(runs_fprintd(lines_of(text)[i]));
    }
}

/// Which way a key moves the selection: Down and Ctrl+N down, Up and Ctrl+P
/// up, by one, and from each end of the list round to the other. No row is
/// hovered then, and nothing else changes.
pub proof fn which_way_a_key_moves(g: StateView, k: KeyInput)
    requires
        g.wf(),
        k.pressed,
        !g.is_authenticating || g.password.len() == 0,
    ensures
        ({
            let l = g.session_list;
            let n = l.sessions.len() as int;
            let after = key_state(g, k);
            let at = after.session_list.selected;
            let down = k.key is ArrowDown || k.ctrl && letter(k, 'n', 'N');
            let up = k.key is ArrowUp || k.ctrl && letter(k, 'p', 'P');
            &&& down ==> at == (if l.selected == n - 1 {
                0
            } else {
                l.selected + 1
            })
            &&& up ==> at == (if l.selected == 0 {
                n - 1
            } else {
                l.selected - 1
            })
            &&& down || up ==> key_outcome(g, k) is Moved && after.session_list.hovered is None
                && after.session_list.sessions == l.sessions && StateView {
                session_list: l,
                ..after
            } == g
            &&& !down && !up ==> after.session_list == l
        }),
{
    lemma_letters(k);
    let l = g.session_list;
    let n = l.sessions.len() as int;
    assert(seq!['n'][0] == 'n' && seq!['N'][0] == 'N' && seq!['p'][0] == 'p' && seq!['P'][0] == 'P');
    crate::session::where_the_ring_closes(l.selected, n);
}

/// A key gives an attempt up exactly where it types a text while only a finger
/// is awaited.
pub proof fn what_gives_a_scan_up(g: StateView, k: KeyInput)
    ensures
        cancels_scan(g, k) <==> {
            &&& g.is_authenticating && g.password.len() == 0
            &&& k.pressed && !k.ctrl
            &&& k.key is Character || k.key is Backspace || k.key is Delete || k.key is Space
        },
{
    lemma_letters(k);
}

} // verus!
