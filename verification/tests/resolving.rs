use bandwidthmon::resolver::{resolve_interface, select_best_interface, InterfaceInfo};
use bandwidthmon::text::{
    contains_chars, eq_chars, glob_match_exec, has_wildcard_exec, to_chars, to_lower,
};

fn iface(name: &str, rx: u64, tx: u64) -> InterfaceInfo {
    InterfaceInfo { name: String::from(name), rx_total: rx, tx_total: tx }
}

fn names() -> Vec<InterfaceInfo> {
    vec![iface("eth0", 10, 0), iface("eth1", 5, 6), iface("wlan0", 2, 3)]
}

#[test]
fn substring_pattern_takes_shortest_earliest_match() {
    let r = resolve_interface("eth", &names()).unwrap();
    assert_eq!(r, "eth0");
}

#[test]
fn wildcard_pattern_matches_whole_name() {
    let r = resolve_interface("wl*", &names()).unwrap();
    assert_eq!(r, "wlan0");
    // Anchored: a wildcard pattern that only covers a prefix fails.
    assert!(resolve_interface("wl?", &names()).is_err());
    let r = resolve_interface("e*1", &names()).unwrap();
    assert_eq!(r, "eth1");
    let r = resolve_interface("ETH?", &names()).unwrap();
    assert_eq!(r, "eth0");
}

#[test]
fn unmatched_pattern_lists_available_names() {
    let err = resolve_interface("zzz", &names()).unwrap_err();
    let listed: Vec<&str> = err.available.iter().map(|s| s.as_str()).collect();
    assert_eq!(listed, vec!["eth0", "eth1", "wlan0"]);
}

#[test]
fn exact_match_beats_substring_and_wildcard() {
    let mut infos = names();
    infos.push(iface("eth", 0, 0));
    // "eth" is an exact name here, so the shorter-substring tie-break
    // never runs.
    assert_eq!(resolve_interface("eth", &infos).unwrap(), "eth");
}

#[test]
fn substring_match_is_case_insensitive() {
    assert_eq!(resolve_interface("LAN", &names()).unwrap(), "wlan0");
}

#[test]
fn empty_pattern_selects_busiest_interface() {
    // Totals are 10, 11 and 5: eth1 is busiest.
    assert_eq!(resolve_interface("", &names()).unwrap(), "eth1");
    assert_eq!(select_best_interface(&names()).unwrap(), "eth1");
}

#[test]
fn busiest_tie_goes_to_the_later_interface() {
    let infos = vec![iface("a0", 6, 5), iface("b0", 5, 6), iface("c0", 1, 1)];
    assert_eq!(select_best_interface(&infos).unwrap(), "b0");
}

#[test]
fn no_interfaces_is_an_error() {
    let none: Vec<InterfaceInfo> = Vec::new();
    assert!(select_best_interface(&none).is_err());
    assert!(resolve_interface("", &none).is_err());
    assert!(resolve_interface("eth", &none).is_err());
}

#[test]
fn glob_matching_rules() {
    let m = |p: &str, s: &str| glob_match_exec(&to_chars(p), &to_chars(s));
    assert!(m("", ""));
    assert!(!m("", "a"));
    assert!(m("*", "anything"));
    assert!(m("*", ""));
    assert!(m("a*c", "abbbc"));
    assert!(m("a*c", "ac"));
    assert!(!m("a*c", "abd"));
    assert!(m("a?c", "abc"));
    assert!(!m("a?c", "ac"));
    assert!(m("**a", "a"));
    assert!(!m("a", "ab"));
}

#[test]
fn text_helpers() {
    assert_eq!(to_lower(&to_chars("vEthernet (WSL)")), to_chars("vethernet (wsl)"));
    assert!(eq_chars(&to_chars("abc"), &to_chars("abc")));
    assert!(!eq_chars(&to_chars("abc"), &to_chars("abd")));
    assert!(contains_chars(&to_chars("vethernet"), &to_chars("ther")));
    assert!(!contains_chars(&to_chars("eth0"), &to_chars("eth01")));
    assert!(contains_chars(&to_chars("eth0"), &to_chars("")));
    assert!(has_wildcard_exec(&to_chars("wl*")));
    assert!(has_wildcard_exec(&to_chars("w?0")));
    assert!(!has_wildcard_exec(&to_chars("wlan0")));
}
