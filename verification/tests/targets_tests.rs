use nping::resolve::{
    get_host_ipaddr, get_multiple_host_ipaddr, AddressFamily, ResolveError, ResolvedAddress,
};
use nping::targets::{drop_blank_lines, read_target_file, target_list};

fn strings(items: &[&str]) -> Vec<String> {
    items.iter().map(|s| s.to_string()).collect()
}

fn v4(text: &str) -> ResolvedAddress {
    ResolvedAddress { family: AddressFamily::V4, text: text.to_string() }
}

fn v6(text: &str) -> ResolvedAddress {
    ResolvedAddress { family: AddressFamily::V6, text: text.to_string() }
}

#[test]
fn targets_are_kept_where_they_first_occur() {
    let named = strings(&["b", "a", "b", "c", "a"]);
    assert_eq!(target_list(&named, &strings(&[])), Some(strings(&["b", "a", "c"])));
}

#[test]
fn listed_targets_follow_the_named_ones() {
    let named = strings(&["x", "y"]);
    let listed = strings(&["y", "z", "x", "z", "w"]);
    assert_eq!(target_list(&named, &listed), Some(strings(&["x", "y", "z", "w"])));
    assert_eq!(target_list(&strings(&[]), &listed), Some(strings(&["y", "z", "x", "w"])));
}

#[test]
fn no_targets_give_no_list() {
    assert_eq!(target_list(&strings(&[]), &strings(&[])), None);
}

#[test]
fn targets_differ_by_their_exact_text() {
    let named = strings(&["Host", "host", "host ", ""]);
    assert_eq!(target_list(&named, &strings(&[""])), Some(named.clone()));
}

#[test]
fn file_lines_are_trimmed_and_blank_lines_dropped() {
    let lines = strings(&["  10.0.0.1 ", "", "   ", "example.org\r", "\tb.example", "a b"]);
    assert_eq!(
        read_target_file(&lines),
        strings(&["10.0.0.1", "example.org", "b.example", "a b"])
    );
    assert_eq!(read_target_file(&strings(&[])), strings(&[]));
    assert_eq!(read_target_file(&strings(&["", " \t "])), strings(&[]));
}

#[test]
fn file_lines_keep_their_order_and_repetitions() {
    let lines = strings(&["b", " a", "b "]);
    assert_eq!(read_target_file(&lines), strings(&["b", "a", "b"]));
    assert_eq!(
        target_list(&strings(&[]), &read_target_file(&lines)),
        Some(strings(&["b", "a"]))
    );
}

#[test]
fn first_ipv4_address_is_chosen_by_default() {
    let candidates = vec![v6("2001:db8::1"), v4("192.0.2.1"), v4("192.0.2.2"), v6("2001:db8::2")];
    assert_eq!(get_host_ipaddr(&candidates, false), Ok("192.0.2.1".to_string()));
}

#[test]
fn first_ipv6_address_is_chosen_when_forced() {
    let candidates = vec![v4("192.0.2.1"), v6("2001:db8::1"), v6("2001:db8::2")];
    assert_eq!(get_host_ipaddr(&candidates, true), Ok("2001:db8::1".to_string()));
}

#[test]
fn resolution_errors() {
    assert_eq!(get_host_ipaddr(&vec![], false), Err(ResolveError::NoAddress));
    assert_eq!(get_host_ipaddr(&vec![], true), Err(ResolveError::NoAddress));
    assert_eq!(get_host_ipaddr(&vec![v6("::1")], false), Err(ResolveError::NoIpv4));
    assert_eq!(get_host_ipaddr(&vec![v4("127.0.0.1")], true), Err(ResolveError::NoIpv6));
    assert_eq!(get_multiple_host_ipaddr(&vec![], false, 3), Err(ResolveError::NoAddress));
    assert_eq!(get_multiple_host_ipaddr(&vec![v6("::1")], false, 3), Err(ResolveError::NoIpv4));
    assert_eq!(
        get_multiple_host_ipaddr(&vec![v4("127.0.0.1")], true, 3),
        Err(ResolveError::NoIpv6)
    );
}

#[test]
fn resolution_error_messages() {
    assert_eq!(ResolveError::NoAddress.describe("h.example"), "Could not resolve host: h.example");
    assert_eq!(ResolveError::NoIpv4.describe("h.example"), "Could not resolve 'h.example' to ipv4");
    assert_eq!(ResolveError::NoIpv6.describe("h.example"), "Could not resolve 'h.example' to ipv6");
}

#[test]
fn several_addresses_up_to_the_number_asked_for() {
    let candidates =
        vec![v4("192.0.2.1"), v6("2001:db8::1"), v4("192.0.2.2"), v4("192.0.2.3"), v6("::2")];
    assert_eq!(
        get_multiple_host_ipaddr(&candidates, false, 2),
        Ok(strings(&["192.0.2.1", "192.0.2.2"]))
    );
    assert_eq!(
        get_multiple_host_ipaddr(&candidates, false, 3),
        Ok(strings(&["192.0.2.1", "192.0.2.2", "192.0.2.3"]))
    );
    assert_eq!(
        get_multiple_host_ipaddr(&candidates, false, 10),
        Ok(strings(&["192.0.2.1", "192.0.2.2", "192.0.2.3"]))
    );
    assert_eq!(get_multiple_host_ipaddr(&candidates, true, 1), Ok(strings(&["2001:db8::1"])));
    assert_eq!(
        get_multiple_host_ipaddr(&candidates, true, usize::MAX),
        Ok(strings(&["2001:db8::1", "::2"]))
    );
}

#[test]
fn blank_lines_are_dropped() {
    assert_eq!(drop_blank_lines(&strings(&["a"])), strings(&["a"]));
    assert_eq!(drop_blank_lines(&strings(&["", "a", "", "", "b c", ""])), strings(&["a", "b c"]));
    // a line of white space is not empty until it is trimmed
    assert_eq!(drop_blank_lines(&strings(&[" ", "\t"])), strings(&[" ", "\t"]));
    assert_eq!(drop_blank_lines(&strings(&["", ""])), strings(&[]));
    assert_eq!(drop_blank_lines(&strings(&[])), strings(&[]));
}
