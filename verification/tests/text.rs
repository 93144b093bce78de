//! Texts, the command line and the environment.
use std::path::PathBuf;
use wlproxy::cli::{block_list, default_upstream, preprocess_args};
use wlproxy::text::{
    characters, comes_before, contains_text, is_white_space, join_texts, split, split_lines,
};

fn owned(list: &[&str]) -> Vec<String> {
    list.iter().map(|s| s.to_string()).collect()
}

const SAMPLES: [&str; 14] = [
    "",
    ",",
    ",,",
    "a",
    "a,b",
    "a,b,",
    ",a",
    "é,ß",
    "a\nb",
    "a\n",
    "a\r\nb\r\n",
    "\r\n",
    "a\r",
    "a\n\r\n\n\u{1F600}",
];

#[test]
fn characters_of_a_text() {
    for s in SAMPLES {
        assert_eq!(characters(s), s.chars().collect::<Vec<char>>());
    }
}

#[test]
fn split_at_commas() {
    for s in SAMPLES {
        assert_eq!(split(s, ','), s.split(',').collect::<Vec<&str>>());
    }
}

#[test]
fn split_into_lines() {
    for s in SAMPLES {
        assert_eq!(split_lines(s), s.lines().collect::<Vec<&str>>(), "{s:?}");
    }
}

#[test]
fn join_undoes_split() {
    for s in SAMPLES {
        assert_eq!(join_texts(&split(s, ','), ","), s);
    }
    let pieces = owned(&["a", "", "bc"]);
    assert_eq!(join_texts(&pieces, ","), "a,,bc");
    assert_eq!(split(&join_texts(&pieces, ","), ','), pieces);
    assert_eq!(join_texts(&[], ","), "");
}

#[test]
fn white_space_of_every_character() {
    for c in '\0'..=char::MAX {
        assert_eq!(is_white_space(c), c.is_whitespace(), "{c:?}");
    }
}

#[test]
fn order_of_texts() {
    let list = ["", "a", "ab", "abc", "b", "\u{7f}", "é", "\u{ffff}", "\u{1F600}", "A", "_"];
    for a in list {
        for b in list {
            assert_eq!(comes_before(a, b), a < b, "{a:?} {b:?}");
        }
    }
}

#[test]
fn text_in_a_list() {
    assert!(contains_text(&owned(&["a", "b"]), "b"));
    assert!(!contains_text(&owned(&["a", "b"]), "ab"));
    assert!(!contains_text(&[], ""));
}

// ---------------------------------------------------------------------------
// The command line
// ---------------------------------------------------------------------------

#[test]
fn block_flags_are_gathered() {
    let args = owned(&[
        "wlproxy",
        "--block",
        "wl_output",
        "--title",
        "t",
        "--block",
        "wl_seat,wl_shm",
        "--debug",
    ]);
    assert_eq!(
        preprocess_args(&args),
        owned(&[
            "wlproxy",
            "--title",
            "t",
            "--debug",
            "--block",
            "wl_output,wl_seat,wl_shm",
        ])
    );
}

#[test]
fn block_flag_without_value_takes_the_next_flag_with_it() {
    assert_eq!(
        preprocess_args(&owned(&["wlproxy", "--block", "--debug", "x"])),
        owned(&["wlproxy", "x"])
    );
    assert_eq!(
        preprocess_args(&owned(&["wlproxy", "x", "--block"])),
        owned(&["wlproxy", "x"])
    );
    assert_eq!(
        preprocess_args(&owned(&["wlproxy", "--block", "-x"])),
        owned(&["wlproxy", "--block", "-x"])
    );
}

#[test]
fn short_command_lines_stay() {
    assert_eq!(preprocess_args(&[]), Vec::<String>::new());
    assert_eq!(preprocess_args(&owned(&["--block"])), owned(&["--block"]));
}

#[test]
fn gathering_twice_is_gathering_once() {
    let lines: [&[&str]; 5] = [
        &["p", "--block", "a", "b", "--block", "c,d"],
        &["p", "--block", "--block", "--block", "-"],
        &["p", "--block", "", "--block", ""],
        &["p", "--block", "-", "--block", "-x"],
        &["p", "q"],
    ];
    for line in lines {
        let once = preprocess_args(&owned(line));
        assert_eq!(preprocess_args(&once), once);
    }
}

#[test]
fn every_gathered_value_is_listed() {
    let once = preprocess_args(&owned(&["p", "--block", "a", "--block", "b,c", "--block", ""]));
    assert_eq!(once, owned(&["p", "--block", "a,b,c,"]));
    assert_eq!(block_list(&Some(once[2].clone())), owned(&["a", "b", "c", ""]));
}

#[test]
fn block_list_of_a_flag() {
    assert_eq!(block_list(&None), Vec::<String>::new());
    assert_eq!(block_list(&Some("".to_string())), owned(&[""]));
    assert_eq!(block_list(&Some("a,b".to_string())), owned(&["a", "b"]));
}

// ---------------------------------------------------------------------------
// The environment
// ---------------------------------------------------------------------------

#[test]
fn default_upstream_is_in_the_runtime_directory() {
    assert_eq!(default_upstream("/run/user/1000", None), "/run/user/1000/wayland-0");
    assert_eq!(
        default_upstream("/run/user/1000", Some("wayland-1")),
        "/run/user/1000/wayland-1"
    );
    assert_eq!(default_upstream("/run/user/1000", Some("/tmp/x")), "/tmp/x");
}

#[test]
fn default_upstream_joins_as_paths_do() {
    for dir in ["", "/", "/run", "/run/", "run", "/run//", "é"] {
        for name in ["", "wayland-0", "/abs", "a/b", "/", "ü"] {
            let joined = PathBuf::from(dir).join(name);
            assert_eq!(default_upstream(dir, Some(name)), joined.to_str().unwrap());
        }
    }
}
