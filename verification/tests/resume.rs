use cce_display_manager::resume::ResumeSignalParser;

// A representative PrepareForSleep signal as `busctl monitor` prints it.
fn feed_all(lines: &[&str]) -> usize {
    let mut p = ResumeSignalParser::new();
    lines.iter().filter(|l| p.feed(l)).count()
}

#[test]
fn detects_resume_false() {
    let msg = [
        "\u{2023} Type=signal  Endian=l  Flags=1  Version=1  Cookie=42",
        "  Sender=:1.3  Path=/org/freedesktop/login1  Interface=org.freedesktop.login1.Manager  Member=PrepareForSleep",
        "  MESSAGE \"b\" {",
        "          BOOLEAN false;",
        "  };",
    ];
    assert_eq!(feed_all(&msg), 1, "resume (false) must fire once");
}

#[test]
fn ignores_suspend_true() {
    let msg = [
        "\u{2023} Type=signal  Endian=l  Flags=1  Version=1  Cookie=41",
        "  Sender=:1.3  Path=/org/freedesktop/login1  Interface=org.freedesktop.login1.Manager  Member=PrepareForSleep",
        "  MESSAGE \"b\" {",
        "          BOOLEAN true;",
        "  };",
    ];
    assert_eq!(feed_all(&msg), 0, "suspend (true) must not fire");
}

#[test]
fn ignores_other_signal_with_boolean() {
    // A different signal carrying a BOOLEAN false must not be mistaken for
    // a resume: the Type= header resets us and there is no PrepareForSleep.
    let msg = [
        "\u{2023} Type=signal  Endian=l  Flags=1  Version=1  Cookie=99",
        "  Sender=:1.3  Path=/org/freedesktop/login1  Interface=org.freedesktop.login1.Manager  Member=SessionRemoved",
        "  MESSAGE \"b\" {",
        "          BOOLEAN false;",
        "  };",
    ];
    assert_eq!(feed_all(&msg), 0, "unrelated signal must not fire");
}

#[test]
fn a_second_payload_needs_a_second_message() {
    let header = "Member=PrepareForSleep";
    let payload = "BOOLEAN false;";
    assert_eq!(feed_all(&[payload, header, payload, payload]), 1);
    assert_eq!(feed_all(&[header, payload, "Type=signal", payload, header, payload]), 2);
}

#[test]
fn full_cycle_fires_once_on_resume() {
    // Suspend then resume, back to back: exactly one fire, on resume.
    let mut p = ResumeSignalParser::new();
    let stream = [
        "\u{2023} Type=signal  Cookie=1",
        "  Interface=org.freedesktop.login1.Manager  Member=PrepareForSleep",
        "          BOOLEAN true;",
        "\u{2023} Type=signal  Cookie=2",
        "  Interface=org.freedesktop.login1.Manager  Member=PrepareForSleep",
        "          BOOLEAN false;",
    ];
    let fires: usize = stream.iter().filter(|l| p.feed(l)).count();
    assert_eq!(fires, 1);
}
