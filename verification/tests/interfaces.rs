//! Interface names: the list of known ones, and the blocked ones.
use wlproxy::context::{decimal_text, Errorize};
use wlproxy::interfaces::{
    is_blocked_interface, known_protocols, parse_protocols, validate_interfaces, KNOWN_PROTOCOLS,
};

fn owned(list: &[&str]) -> Vec<String> {
    list.iter().map(|s| s.to_string()).collect()
}

// ---------------------------------------------------------------------------
// is_blocked_interface
// ---------------------------------------------------------------------------

#[test]
fn blocked_iface_matches() {
    assert!(is_blocked_interface(
        "wl_surface",
        &["wl_surface".to_string()]
    ));
}

#[test]
fn blocked_iface_no_match() {
    assert!(!is_blocked_interface("wl_surface", &[]));
}

#[test]
fn blocked_iface_is_found_anywhere_in_the_list() {
    let block = owned(&["wl_shm", "wl_output", "wl_seat"]);
    for name in &block {
        assert!(is_blocked_interface(name, &block));
    }
    assert!(!is_blocked_interface("wl_outpu", &block));
    assert!(!is_blocked_interface("wl_output2", &block));
    assert!(!is_blocked_interface("WL_OUTPUT", &block));
    assert!(!is_blocked_interface("", &block));
}

// ---------------------------------------------------------------------------
// Errorize
// ---------------------------------------------------------------------------

#[test]
fn errorize_ok() {
    let r: Result<i32, &str> = Ok(42);
    assert_eq!(r.context("x").unwrap(), 42);
}

#[test]
fn errorize_err() {
    let r: Result<i32, &str> = Err("boom");
    assert_eq!(r.context("x"), Err("x: boom".to_string()));
}

#[test]
fn errorize_owned_message() {
    let r: Result<i32, String> = Err("boom".to_string());
    assert_eq!(r.context("x").context("y"), Err("y: x: boom".to_string()));
    let r: Result<i32, String> = Ok(7);
    assert_eq!(r.context("x"), Ok(7));
}

#[test]
fn decimal_text_is_what_is_displayed() {
    for n in [0, 1, 7, 9, 10, 11, 99, 100, 1009, 65535, 4_000_000_000, u32::MAX] {
        assert_eq!(decimal_text(n), n.to_string());
    }
}

// ---------------------------------------------------------------------------
// known_protocols
// ---------------------------------------------------------------------------

#[test]
fn known_protos_contain_wm_base() {
    let p = known_protocols();
    assert!(p.contains(&"xdg_wm_base".to_string()));
}

#[test]
fn known_protos_excludes_arbitrary_string() {
    assert!(!known_protocols().contains(&"UnknownInterface".to_string()));
}

#[test]
fn known_protos_are_sorted_without_duplicates() {
    let p = known_protocols();
    let mut sorted = p.clone();
    sorted.sort();
    sorted.dedup();
    assert_eq!(p, sorted);
    assert!(p.len() > 50);
}

#[test]
fn known_protos_are_the_lines_that_name_one() {
    let mut expected: Vec<&str> = KNOWN_PROTOCOLS
        .lines()
        .filter(|l| {
            let t = l.trim();
            !t.is_empty() && !t.starts_with('#')
        })
        .collect();
    expected.sort();
    expected.dedup();
    assert_eq!(known_protocols(), expected);
}

#[test]
fn protocol_list_skips_comments_and_blank_lines() {
    let text = "wl_b\n# note\n\n   \n\t# indented note\nwl_a\r\nwl_b\n wl_c\nwl_é\u{2003}\n\u{2003}\n";
    assert_eq!(
        parse_protocols(text),
        owned(&[" wl_c", "wl_a", "wl_b", "wl_é\u{2003}"])
    );
    assert_eq!(parse_protocols(""), Vec::<String>::new());
    assert_eq!(parse_protocols("a"), owned(&["a"]));
    assert_eq!(parse_protocols("a\r"), owned(&["a\r"]));
}

// ---------------------------------------------------------------------------
// validate_interfaces
// ---------------------------------------------------------------------------

#[test]
fn validate_interfaces_quiet_suppresses_warning() {
    assert!(validate_interfaces(&["UnknownInterface".to_string()], true).is_empty());
}

#[test]
fn validate_interfaces_warns_of_each_unknown_name() {
    let block = owned(&["UnknownInterface", "xdg_wm_base", "", "UnknownInterface"]);
    assert_eq!(
        validate_interfaces(&block, false),
        owned(&[
            "Warning: unknown Wayland interface \"UnknownInterface\" in --block list",
            "Warning: unknown Wayland interface \"\" in --block list",
            "Warning: unknown Wayland interface \"UnknownInterface\" in --block list",
        ])
    );
    assert!(validate_interfaces(&owned(&["xdg_wm_base", "wl_output"]), false).is_empty());
    assert!(validate_interfaces(&[], false).is_empty());
}
