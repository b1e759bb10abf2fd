//! Waking from sleep: noticing it on the system bus, and bringing the greeter
//! back.
use vstd::prelude::*;

use crate::text::{contains, occurs};

verus! {

/// Reads the text output of `busctl monitor` and notices a resume, that is the
/// signal `PrepareForSleep(false)`.
///
/// Every message opens with a `Type=` line, which disarms the parser; a line
/// with `PrepareForSleep` arms it; and the first `BOOLEAN` line after that is
/// the payload. `true` comes before the suspend and `false` after the resume.
/// An output of another shape is never taken for a resume.
pub struct ResumeSignalParser {
    pub armed: bool,
}

/// Whether the parser is armed after a line.
pub open spec fn armed_after(armed: bool, line: Seq<char>) -> bool {
    let armed_here = armed && !occurs("Type="@, line);
    if occurs("PrepareForSleep"@, line) {
        true
    } else {
        armed_here && !occurs("BOOLEAN"@, line)
    }
}

/// Whether a line completes a resume message.
pub open spec fn fires(armed: bool, line: Seq<char>) -> bool {
    &&& armed
    &&& !occurs("Type="@, line)
    &&& !occurs("PrepareForSleep"@, line)
    &&& occurs("BOOLEAN"@, line)
    &&& occurs("false"@, line)
}

impl ResumeSignalParser {
    pub fn new() -> (r: Self)
        ensures
            !r.armed,
    {
        ResumeSignalParser { armed: false }
    }

    /// Reads one line; true exactly when it completes a resume message.
    pub fn feed(&mut self, line: &str) -> (r: bool)
        ensures
            r == fires(old(self).armed, line@),
            final(self).armed == armed_after(old(self).armed, line@),
    {
        if contains(line, "Type=") {
            self.armed = false;
        }
        if contains(line, "PrepareForSleep") {
            self.armed = true;
        } else if self.armed && contains(line, "BOOLEAN") {
            let resume = contains(line, "false");
            self.armed = false;
            return resume;
        }
        false
    }
}

/// Whether the parser is armed after reading some lines from its start.
pub open spec fn armed_by(lines: Seq<Seq<char>>) -> bool
    decreases lines.len(),
{
    if lines.len() == 0 {
        false
    } else {
        armed_after(armed_by(lines.drop_last()), lines.last())
    }
}

/// The line at `at` ends a message that the line at `head` opened as a
/// `PrepareForSleep` one: no other message starts, and no other payload comes,
/// in between.
pub open spec fn answers_header(lines: Seq<Seq<char>>, head: int, at: int) -> bool {
    &&& 0 <= head < at < lines.len()
    &&& occurs("PrepareForSleep"@, lines[head])
    &&& forall|k: int|
        #![trigger lines[k]]
        head < k < at ==> !occurs("Type="@, lines[k]) && !occurs("BOOLEAN"@, lines[k])
}

/// The parser fires on a line only where that line carries the payload `false`
/// of a `PrepareForSleep` message: there is no teardown for any other output.
pub proof fn only_a_resume_fires(lines: Seq<Seq<char>>)
    requires
        lines.len() > 0,
        fires(armed_by(lines.drop_last()), lines.last()),
    ensures
        occurs("BOOLEAN"@, lines.last()),
        occurs("false"@, lines.last()),
        exists|head: int| #[trigger] answers_header(lines, head, lines.len() - 1),
{
    let before = lines.drop_last();
    let head = lemma_armed_has_header(before);
    assert(lines[head] == before[head]);
    assert forall|k: int| #![trigger lines[k]] head < k < lines.len() - 1 implies !occurs(
        "Type="@,
        lines[k],
    ) && !occurs("BOOLEAN"@, lines[k]) by {
        assert(lines[k] == before[k]);
    }
    assert(answers_header(lines, head, lines.len() - 1));
}

proof fn lemma_armed_has_header(lines: Seq<Seq<char>>) -> (head: int)
    requires
        armed_by(lines),
    ensures
        0 <= head < lines.len(),
        occurs("PrepareForSleep"@, lines[head]),
        forall|k: int|
            #![trigger lines[k]]
            head < k < lines.len() ==> !occurs("Type="@, lines[k]) && !occurs("BOOLEAN"@, lines[k]),
    decreases lines.len(),
{
    if occurs("PrepareForSleep"@, lines.last()) {
        lines.len() - 1
    } else {
        let before = lines.drop_last();
        let head = lemma_armed_has_header(before);
        assert(lines[head] == before[head]);
        assert forall|k: int| #![trigger lines[k]] head < k < lines.len() implies !occurs(
            "Type="@,
            lines[k],
        ) && !occurs("BOOLEAN"@, lines[k]) by {
            if k < lines.len() - 1 {
                assert(lines[k] == before[k]);
            }
        }
        head
    }
}

/// Whether the parser, reading `lines` from its start, fires at line `i`.
pub open spec fn fires_at(lines: Seq<Seq<char>>, i: int) -> bool {
    0 <= i < lines.len() && fires(armed_by(lines.take(i)), lines[i])
}

/// Whether a `PrepareForSleep` line stands in `lines`, from `from` on and
/// before `to`.
pub open spec fn announced(lines: Seq<Seq<char>>, from: int, to: int) -> bool {
    exists|h: int| from <= h < to && occurs("PrepareForSleep"@, #[trigger] lines[h])
}

/// A message fires at most once: whatever is read, a `PrepareForSleep` line
/// stands before the first line that fires, and another one between any two
/// that do. Until then the parser stays disarmed.
pub proof fn a_message_fires_once(lines: Seq<Seq<char>>, i: int, j: int)
    requires
        fires_at(lines, i),
        i < j <= lines.len(),
    ensures
        announced(lines, 0, i),
        !armed_by(lines.take(i + 1)),
        armed_by(lines.take(j)) ==> announced(lines, i + 1, j),
        fires_at(lines, j) ==> announced(lines, i + 1, j),
{
    let first = lines.take(i);
    let head = lemma_armed_has_header(first);
    assert(lines[head] == first[head]);
    let upto = lines.take(i + 1);
    assert(upto.drop_last() =~= first);
    assert(upto.last() == lines[i]);
    if armed_by(lines.take(j)) {
        let before = lines.take(j);
        let h = lemma_armed_has_header(before);
        assert(before[h] == lines[h]);
        assert(before[i] == lines[i]);
        assert(h != i);
        assert(h > i);
    }
}

/// A resume is not missed: the parser fires on the payload `false` of a
/// `PrepareForSleep` message, whatever came before that message.
pub proof fn a_resume_fires(lines: Seq<Seq<char>>, head: int)
    requires
        answers_header(lines, head, lines.len() - 1),
        occurs("BOOLEAN"@, lines.last()),
        occurs("false"@, lines.last()),
        !occurs("Type="@, lines.last()),
        !occurs("PrepareForSleep"@, lines.last()),
    ensures
        fires(armed_by(lines.drop_last()), lines.last()),
{
    let before = lines.drop_last();
    assert forall|k: int| #![trigger before[k]] head < k < before.len() implies !occurs(
        "Type="@,
        before[k],
    ) && !occurs("BOOLEAN"@, before[k]) by {
        assert(before[k] == lines[k]);
    }
    assert(before[head] == lines[head]);
    lemma_header_arms(before, head);
}

proof fn lemma_header_arms(lines: Seq<Seq<char>>, head: int)
    requires
        0 <= head < lines.len(),
        occurs("PrepareForSleep"@, lines[head]),
        forall|k: int|
            #![trigger lines[k]]
            head < k < lines.len() ==> !occurs("Type="@, lines[k]) && !occurs("BOOLEAN"@, lines[k]),
    ensures
        armed_by(lines),
    decreases lines.len(),
{
    if head < lines.len() - 1 {
        let before = lines.drop_last();
        assert(before[head] == lines[head]);
        assert forall|k: int| #![trigger before[k]] head < k < before.len() implies !occurs(
            "Type="@,
            before[k],
        ) && !occurs("BOOLEAN"@, before[k]) by {
            assert(before[k] == lines[k]);
        }
        lemma_header_arms(before, head);
        assert(!occurs("Type="@, lines[lines.len() - 1]));
    }
}

/// The pause, in seconds, before the monitor of the login manager is started
/// again: longer where it did not start than where it ended.
pub fn monitor_pause_secs(started: bool) -> (r: u64)
    ensures
        r == (if started {
            2u64
        } else {
            5u64
        }),
{
    if started {
        2
    } else {
        5
    }
}

// ---------------------------------------------------------------------------
// Laws
// ---------------------------------------------------------------------------

/// What a line does to the parser. A new message disarms it, unless it is the
/// announcement itself, which arms it; a payload disarms it; no other line
/// changes anything.
pub proof fn what_arms_the_parser(armed: bool, line: Seq<char>)
    ensures
        occurs("PrepareForSleep"@, line) ==> armed_after(armed, line),
        !occurs("PrepareForSleep"@, line) && occurs("Type="@, line) ==> !armed_after(armed, line),
        !occurs("PrepareForSleep"@, line) && occurs("BOOLEAN"@, line) ==> !armed_after(armed, line),
        !occurs("PrepareForSleep"@, line) && !occurs("Type="@, line) && !occurs("BOOLEAN"@, line)
            ==> armed_after(armed, line) == armed,
{
}

/// A line fires exactly where it is the payload `false` while the parser is
/// armed, and neither opens a message nor announces one.
pub proof fn what_fires(armed: bool, line: Seq<char>)
    ensures
        !armed ==> !fires(armed, line),
        occurs("Type="@, line) || occurs("PrepareForSleep"@, line) ==> !fires(armed, line),
        armed && !occurs("Type="@, line) && !occurs("PrepareForSleep"@, line) ==> (fires(
            armed,
            line,
        ) <==> occurs("BOOLEAN"@, line) && occurs("false"@, line)),
        fires(armed, line) ==> !armed_after(armed, line),
{
}

} // verus!
