//! The virtual terminal of the greeter and of the sessions.
use vstd::prelude::*;

use crate::invocation::{plain_call, Invocation, InvocationView};
use crate::number::{decimal, decimal_text, number_of, parse_u32};
use crate::path::{file_name, file_name_of};
use crate::text::{same, starts_with, strip_prefix, trim, trimmed};

verus! {

/// The name of what standard input is, by the path that it links to: `tty1`
/// where that is not known.
pub open spec fn input_name(link: Option<Seq<char>>) -> Seq<char> {
    match link {
        Some(path) => match file_name_of(path) {
            Some(name) => name,
            None => "tty1"@,
        },
        None => "tty1"@,
    }
}

/// Whether standard input counts as a terminal of the console.
pub open spec fn is_console_tty(link: Option<Seq<char>>) -> bool {
    "tty"@.is_prefix_of(input_name(link))
}

/// The terminal that standard input is: `tty1` where it is no terminal of the
/// console.
pub open spec fn tty_of(link: Option<Seq<char>>) -> Seq<char> {
    if is_console_tty(link) {
        input_name(link)
    } else {
        "tty1"@
    }
}

/// The view of a path that may not be known.
pub open spec fn path_or_none(link: Option<&str>) -> Option<Seq<char>> {
    match link {
        Some(path) => Some(path@),
        None => None,
    }
}

/// The name of the terminal, and whether standard input counts as one.
pub fn console_tty(link: Option<&str>) -> (r: (String, bool))
    ensures
        r.0@ == tty_of(path_or_none(link)),
        r.1 == is_console_tty(path_or_none(link)),
        "tty"@.is_prefix_of(r.0@),
{
    proof {
        reveal_strlit("tty");
        reveal_strlit("tty1");
        assert("tty"@ =~= "tty1"@.subrange(0, 3));
    }
    let name = match link {
        Some(path) => match file_name(path) {
            Some(name) => name,
            None => "tty1".to_owned(),
        },
        None => "tty1".to_owned(),
    };
    if starts_with(name.as_str(), "tty") {
        (name, true)
    } else {
        ("tty1".to_owned(), false)
    }
}

/// The number of a virtual terminal, from its name.
pub open spec fn vt_of(tty_name: Seq<char>) -> Option<u32> {
    if "tty"@.is_prefix_of(tty_name) {
        number_of(tty_name.skip("tty"@.len() as int))
    } else {
        None
    }
}

/// The number of a virtual terminal, from its name.
pub fn vt_number(tty_name: &str) -> (r: Option<u32>)
    ensures
        r == vt_of(tty_name@),
{
    match strip_prefix(tty_name, "tty") {
        Some(n) => parse_u32(n),
        None => None,
    }
}

/// A terminal's number is read back from its name.
pub proof fn vt_name_reads_back(n: u32)
    ensures
        vt_of("tty"@ + decimal(n as nat)) == Some(n),
{
    crate::number::decimal_reads_back(n as nat);
    let name = "tty"@ + decimal(n as nat);
    assert(name.skip("tty"@.len() as int) =~= decimal(n as nat));
    assert("tty"@ =~= name.subrange(0, "tty"@.len() as int));
}

/// Switching to a virtual terminal.
pub open spec fn chvt(vt: u32) -> InvocationView {
    plain_call("chvt"@, seq![decimal(vt as nat)])
}

/// The call that switches to a virtual terminal.
pub fn chvt_command(vt: u32) -> (r: Invocation)
    ensures
        r@ == chvt(vt),
{
    let r = Invocation::new("chvt").arg(decimal_text(vt as u64).as_str());
    assert(r@ =~= chvt(vt));
    r
}

/// How often a terminal is switched to before it is given up.
pub const VT_TRIES: u32 = 20;

/// The pause after a switch, in milliseconds.
pub const VT_PAUSE_MILLIS: u64 = 100;

/// The next step of making a terminal the active one.
#[derive(Debug, Clone, Copy, PartialEq, Eq, Structural)]
pub enum VtStep {
    /// Nothing is left to do.
    Done,
    /// Switch to this terminal, pause, and look again.
    Switch(u32),
    /// Give up with a warning.
    GiveUp,
}

/// What to do after `tries` switches, from the text that says which terminal
/// is active. A name without a number asks for nothing.
pub open spec fn vt_step(tty_name: Seq<char>, active: Option<Seq<char>>, tries: int) -> VtStep {
    match vt_of(tty_name) {
        None => VtStep::Done,
        Some(vt) => if tries >= VT_TRIES {
            VtStep::GiveUp
        } else if active matches Some(text) && trimmed(text) == tty_name {
            VtStep::Done
        } else {
            VtStep::Switch(vt)
        },
    }
}

/// What to do next to make the terminal active, after `tries` switches.
pub fn ensure_vt_active(tty_name: &str, active: Option<&str>, tries: u32) -> (r: VtStep)
    ensures
        r == vt_step(
            tty_name@,
            match active {
                Some(text) => Some(text@),
                None => None,
            },
            tries as int,
        ),
{
    match vt_number(tty_name) {
        None => VtStep::Done,
        Some(vt) => {
            if tries >= VT_TRIES {
                return VtStep::GiveUp;
            }
            if let Some(text) = active {
                if same(trim(text), tty_name) {
                    return VtStep::Done;
                }
            }
            VtStep::Switch(vt)
        },
    }
}

/// The switching comes to an end: after the last try no further switch is
/// asked for, whatever is active, and a terminal that is active already is
/// left alone.
pub proof fn switching_ends(tty_name: Seq<char>, active: Option<Seq<char>>, tries: int)
    ensures
        tries >= VT_TRIES ==> !(vt_step(tty_name, active, tries) is Switch),
        active matches Some(text) && trimmed(text) == tty_name && tries < VT_TRIES ==> vt_step(
            tty_name,
            active,
            tries,
        ) == VtStep::Done,
{
}

// ---------------------------------------------------------------------------
// Laws
// ---------------------------------------------------------------------------

/// Standard input counts as a terminal of the console exactly where its name
/// starts as one; then that is its terminal, and else the first one is. What
/// is not known counts as the first one.
pub proof fn the_first_terminal_stands_in(path: Seq<char>)
    ensures
        file_name_of(path) matches Some(name) ==> {
            &&& is_console_tty(Some(path)) <==> "tty"@.is_prefix_of(name)
            &&& tty_of(Some(path)) == (if "tty"@.is_prefix_of(name) {
                name
            } else {
                "tty1"@
            })
        },
        file_name_of(path) is None ==> is_console_tty(Some(path)) && tty_of(Some(path)) == "tty1"@,
        is_console_tty(None) && tty_of(None) == "tty1"@,
{
    reveal_strlit("tty");
    reveal_strlit("tty1");
    assert("tty"@ =~= "tty1"@.subrange(0, 3));
}

/// A path that is known is taken as it is.
pub proof fn a_known_path_is_taken(link: Option<&str>)
    ensures
        link matches Some(path) ==> path_or_none(link) == Some(path@),
        link is None ==> path_or_none(link) is None,
{
}

/// A terminal has a number exactly where its name is `tty` and a number.
pub proof fn a_terminal_is_numbered(tty_name: Seq<char>, rest: Seq<char>)
    ensures
        vt_of("tty"@ + rest) == number_of(rest),
        !"tty"@.is_prefix_of(tty_name) ==> vt_of(tty_name) is None,
{
    let name = "tty"@ + rest;
    assert(name.skip("tty"@.len() as int) =~= rest);
    assert("tty"@ =~= name.subrange(0, "tty"@.len() as int));
}

/// A terminal with a number is switched to until it is active, twenty times at
/// most, and then given up, whatever is active; one without a number is left
/// alone.
pub proof fn when_a_terminal_is_switched_to(
    tty_name: Seq<char>,
    active: Option<Seq<char>>,
    tries: int,
)
    ensures
        vt_of(tty_name) is None ==> vt_step(tty_name, active, tries) is Done,
        vt_of(tty_name) matches Some(vt) ==> {
            let there = active matches Some(text) && trimmed(text) == tty_name;
            &&& vt_step(tty_name, active, tries) is GiveUp <==> tries >= 20
            &&& vt_step(tty_name, active, tries) is Done <==> tries < 20 && there
            &&& vt_step(tty_name, active, tries) == VtStep::Switch(vt) <==> tries < 20 && !there
        },
{
}

/// Switching names the terminal by its number.
pub proof fn switching_names_the_terminal(vt: u32)
    ensures
        chvt(vt).program == "chvt"@,
        chvt(vt).args == seq![decimal(vt as nat)],
        chvt(vt).env.len() == 0,
{
}

} // verus!
