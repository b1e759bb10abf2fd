use cce_display_manager::number::{decimal_text, parse_u32};
use cce_display_manager::path::{
    file_name, file_stem, has_extension, join_path, path_names, same_absolute_path,
};
use cce_display_manager::split::{lines, split_whitespace, splitn};
use cce_display_manager::text::{contains, is_white_space, same, strip_prefix, strip_suffix, trim};

const SAMPLES: [&str; 14] = [
    "",
    " ",
    "a",
    " a b ",
    "\t\u{a0}x\u{3000}\n",
    "a|b||c|",
    "|",
    "one\ntwo\r\nthree",
    "end\n",
    "\n\n",
    "cr\r",
    "cr\r\r\n",
    "é — ü",
    "\u{85}\u{2028}z\u{200b}",
];

#[test]
fn white_space_is_that_of_char() {
    for n in 0..=0x10ffffu32 {
        if let Some(c) = char::from_u32(n) {
            assert_eq!(is_white_space(c), c.is_whitespace(), "{n:x}");
        }
    }
}

#[test]
fn texts_are_cut_as_std_cuts_them() {
    for s in SAMPLES {
        assert_eq!(trim(s), s.trim(), "{s:?}");
        assert_eq!(lines(s), s.lines().collect::<Vec<_>>(), "{s:?}");
        assert_eq!(split_whitespace(s), s.split_whitespace().collect::<Vec<_>>(), "{s:?}");
        for n in 1..7 {
            assert_eq!(splitn(s, n, '|'), s.splitn(n, '|').collect::<Vec<_>>(), "{s:?}");
        }
        for p in SAMPLES {
            assert_eq!(strip_prefix(s, p), s.strip_prefix(p), "{s:?} {p:?}");
            assert_eq!(strip_suffix(s, p), s.strip_suffix(p), "{s:?} {p:?}");
            assert_eq!(contains(s, p), s.contains(p), "{s:?} {p:?}");
            assert_eq!(same(s, p), s == p, "{s:?} {p:?}");
        }
    }
}

#[test]
fn numbers_are_written_and_read() {
    for n in [0u64, 7, 10, 1000, 4294967295, u64::MAX] {
        assert_eq!(decimal_text(n), n.to_string());
    }
    for s in ["0", "7", "+7", "007", "4294967295", "4294967296", "", "+", "-1", "1a", " 1", "٣"] {
        assert_eq!(parse_u32(s), s.parse::<u32>().ok(), "{s:?}");
    }
}

#[test]
fn paths_are_taken_apart_as_std_does() {
    let paths = [
        "",
        "/",
        "/usr/bin/keepassxc",
        "/usr//bin/./keepassxc/",
        "tty1",
        "/dev/tty1",
        "/a/..",
        "..",
        ".",
        "pipe:[1234]",
        "/a/.conf",
        "/a/x.tar.gz",
        "/a/x.",
    ];
    for p in paths {
        let std_path = std::path::Path::new(p);
        let name = std_path.file_name().map(|n| n.to_string_lossy().into_owned());
        assert_eq!(file_name(p), name, "{p}");
        if let Some(name) = name {
            let as_path = std::path::Path::new(&name);
            assert_eq!(file_stem(&name), as_path.file_stem().unwrap().to_string_lossy(), "{p}");
            for ext in ["conf", "gz", "", "tar.gz"] {
                let expected = as_path.extension().map_or(false, |x| x == ext);
                assert_eq!(has_extension(&name, ext), expected, "{p} {ext}");
            }
        }
        for other in paths {
            let joined = std_path.join(other);
            assert_eq!(join_path(p, other), joined.to_string_lossy(), "{p} {other}");
            if p.starts_with('/') && other.starts_with('/') {
                let expected = std_path == std::path::Path::new(other);
                assert_eq!(same_absolute_path(p, other), expected, "{p} {other}");
            } else {
                assert!(!same_absolute_path(p, other), "{p} {other}");
            }
        }
    }
    assert_eq!(path_names("/usr//bin/./x/"), vec!["usr", "bin", "x"]);
}
