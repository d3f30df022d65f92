use winroute::{
    add_default_ipv4_route, add_default_ipv6_route, add_default_route, add_interface_ipv4_address,
    add_interface_ipv6_address, default_route_entry, delete_default_ipv4_route,
    delete_default_ipv6_route, delete_default_route, find_ip_address, get_default_interface,
    get_default_ipv4_gateway, get_default_ipv4_interface_index, get_default_ipv4_route_entry,
    get_default_ipv6_gateway, get_default_ipv6_route_entry, get_interface_entries,
    get_interface_entry, get_interface_index, get_interface_indices, get_ip_route_entries,
    parse_table, CommandLine, Family, NetError,
};
use winroute::{
    add_default_ipv4_rule, add_default_ipv6_rule, delete_default_ipv4_rule,
    delete_default_ipv6_rule, get_default_ipv4_address, get_default_ipv6_address,
    get_ipv4_forwarding, get_ipv6_forwarding, set_ipv4_forwarding, set_ipv6_forwarding,
};

const ROUTE_HEAD: &str = "\nPublish  Type      Met  Prefix                    Idx  Gateway/Interface Name\n-------  --------  ---  ------------------------  ---  ------------------------\n";

const IFACE_HEAD: &str = "\nIdx     Met         MTU          State                Name\n---  ----------  ----------  ------------  ---------------------------\n";

fn strings(v: &[&str]) -> Vec<String> {
    v.iter().map(|s| s.to_string()).collect()
}

fn routes(rows: &str) -> String {
    format!("{}{}", ROUTE_HEAD, rows)
}

fn interfaces(rows: &str) -> String {
    format!("{}{}", IFACE_HEAD, rows)
}

fn args(c: &CommandLine) -> Vec<&str> {
    c.args.iter().map(|s| s.as_str()).collect()
}

#[test]
fn parse_skips_header_and_blank_lines() {
    let text = "h1\nh2\nh3\n  a  b\tc \r\n\n   \r\nd\n";
    let rows = parse_table(text, 3);
    assert_eq!(rows, vec![strings(&["a", "b", "c"]), strings(&["d"])]);
}

#[test]
fn parse_short_text_gives_no_rows() {
    assert!(parse_table("only\ntwo", 3).is_empty());
    assert!(parse_table("", 0).is_empty());
}

#[test]
fn parse_splits_on_unicode_space() {
    let rows = parse_table("x\u{3000}y\u{a0}z", 0);
    assert_eq!(rows, vec![strings(&["x", "y", "z"])]);
}

#[test]
fn route_and_interface_entries_skip_three_lines() {
    let text = routes("No Manual 0 0.0.0.0/0 12 192.168.1.1\n");
    assert_eq!(
        get_ip_route_entries(&text),
        vec![strings(&["No", "Manual", "0", "0.0.0.0/0", "12", "192.168.1.1"])]
    );
    let text = interfaces(" 1 75 4294967295 connected Loopback\n");
    assert_eq!(
        get_interface_entries(&text),
        vec![strings(&["1", "75", "4294967295", "connected", "Loopback"])]
    );
}

#[test]
fn single_default_route_is_returned_whole() {
    let text = routes(
        "No  Manual  256  10.0.0.0/8   7  10.0.0.1\nNo  Manual  0    0.0.0.0/0   12  192.168.1.1\nNo  System  256  127.0.0.0/8  1  Loopback\n",
    );
    assert_eq!(
        get_default_ipv4_route_entry(&text),
        Ok(strings(&["No", "Manual", "0", "0.0.0.0/0", "12", "192.168.1.1"]))
    );
}

#[test]
fn last_default_route_wins() {
    let text = routes(
        "No  Manual  0  0.0.0.0/0  12  192.168.1.1\nNo  Manual  5  10.0.0.0/8  3  10.0.0.1\nNo  Manual  0  0.0.0.0/0  14  10.8.0.1\n",
    );
    assert_eq!(
        default_route_entry(&text, Family::V4),
        Ok(strings(&["No", "Manual", "0", "0.0.0.0/0", "14", "10.8.0.1"]))
    );
    assert_eq!(get_default_ipv4_gateway(&text), Ok("10.8.0.1".to_string()));
}

#[test]
fn no_default_route_is_not_found() {
    let text = routes("No  Manual  5  10.0.0.0/8  3  10.0.0.1\nshort row\n");
    assert_eq!(get_default_ipv4_route_entry(&text), Err(NetError::NotFound));
    assert_eq!(get_default_ipv4_gateway(&text), Err(NetError::NotFound));
    assert_eq!(get_default_ipv6_route_entry(&text), Err(NetError::NotFound));
    assert_eq!(get_default_ipv4_route_entry(""), Err(NetError::NotFound));
}

#[test]
fn ipv6_default_route_and_gateway() {
    let text = routes("No  Manual  256  ::/0  9  fe80::1\nNo  Manual  256  0.0.0.0/0  9  10.0.0.1\n");
    assert_eq!(
        get_default_ipv6_route_entry(&text),
        Ok(strings(&["No", "Manual", "256", "::/0", "9", "fe80::1"]))
    );
    assert_eq!(get_default_ipv6_gateway(&text), Ok("fe80::1".to_string()));
}

#[test]
fn default_gateway_scenario() {
    let text = routes("No  Manual  0  0.0.0.0/0  12  192.168.1.1\n");
    assert_eq!(get_default_ipv4_gateway(&text), Ok("192.168.1.1".to_string()));
    assert_eq!(get_default_ipv4_interface_index(&text), Ok("12".to_string()));
}

#[test]
fn default_route_of_wrong_width_is_malformed() {
    let text = routes("No  Manual  0  0.0.0.0/0  12\n");
    assert_eq!(get_default_ipv4_gateway(&text), Err(NetError::MalformedOutput));
    assert_eq!(get_default_ipv4_interface_index(&text), Err(NetError::MalformedOutput));
    let text = routes("No  Manual  0  0.0.0.0/0  12  192.168.1.1  extra\n");
    assert_eq!(get_default_ipv4_gateway(&text), Err(NetError::MalformedOutput));
}

#[test]
fn interface_index_scenario() {
    let text = interfaces(" 12  25  1500  connected  Ethernet\n");
    assert_eq!(get_interface_index(&text, "Ethernet"), Ok("12".to_string()));
}

#[test]
fn interface_index_of_four_field_row() {
    let text = "h1\nh2\nh3\n12 1500 connected Ethernet\n";
    assert_eq!(get_interface_index(text, "Ethernet"), Ok("12".to_string()));
    assert_eq!(get_interface_index(text, "connected"), Err(NetError::NotFound));
    let text = interfaces("12  1500  connected  Ethernet\n");
    assert_eq!(get_interface_index(&text, "Ethernet"), Ok("12".to_string()));
    assert_eq!(
        get_interface_entry(&text, "Ethernet"),
        Ok(strings(&["12", "1500", "connected", "Ethernet"]))
    );
}

#[test]
fn interface_row_too_short_has_no_name() {
    let text = interfaces("12  connected  Ethernet\n");
    assert_eq!(get_interface_index(&text, "Ethernet"), Err(NetError::NotFound));
}

#[test]
fn routes_through_four_field_interface_row() {
    let text = interfaces("7  1500  connected  wintun\n");
    let c = add_default_ipv4_route("10.8.0.1", "Ethernet", true, "wintun", &text).unwrap();
    assert_eq!(args(&c)[5], "7");
    let c = delete_default_ipv6_route(Some("wintun"), &text).unwrap();
    assert_eq!(args(&c)[6], "7");
}

#[test]
fn interface_name_matches_exactly() {
    let text = interfaces(
        " 1  75  4294967295  connected  Loopback\n 12  25  1500  connected  Ethernet\n 14  5  1400  connected  wintun\n",
    );
    assert_eq!(get_interface_index(&text, "Ethernet"), Ok("12".to_string()));
    assert_eq!(get_interface_index(&text, "ethernet"), Err(NetError::NotFound));
    assert_eq!(get_interface_index(&text, " Ethernet"), Err(NetError::NotFound));
    assert_eq!(get_interface_index(&text, "Ether"), Err(NetError::NotFound));
    assert_eq!(
        get_interface_entry(&text, "wintun"),
        Ok(strings(&["14", "5", "1400", "connected", "wintun"]))
    );
}

#[test]
fn interface_entry_last_of_equal_names() {
    let text = interfaces(" 3  25  1500  connected  eth\n 4  25  1500  connected  eth\n");
    assert_eq!(get_interface_index(&text, "eth"), Ok("4".to_string()));
}

#[test]
fn interface_indices_in_order() {
    let text = interfaces(" 1  75  4294967295  connected  Loopback\n\n 12  25  1500  connected  Ethernet\n");
    assert_eq!(get_interface_indices(&text), strings(&["1", "12"]));
    assert!(get_interface_indices("").is_empty());
}

#[test]
fn default_interface_by_index() {
    let route_text = routes("No  Manual  0  0.0.0.0/0  12  192.168.1.1\n");
    let iface_text = interfaces(" 1  75  4294967295  connected  Loopback\n 12  25  1500  connected  Ethernet\n");
    assert_eq!(get_default_interface(&route_text, &iface_text), Ok("Ethernet".to_string()));
    let iface_text = interfaces(" 1  75  4294967295  connected  Loopback\n");
    assert_eq!(get_default_interface(&route_text, &iface_text), Err(NetError::NotFound));
    let iface_text = interfaces(" 12  25  1500  connected  Local Area\n");
    assert_eq!(
        get_default_interface(&route_text, &iface_text),
        Err(NetError::MalformedOutput)
    );
    assert_eq!(get_default_interface("", &iface_text), Err(NetError::NotFound));
}

#[test]
fn address_three_lines_below_name() {
    let text = "\nConfiguration for interface \"Ethernet\"\n    DHCP enabled:      No\n\n    IP Address:        x\n   Configured    192.168.1.50\n";
    assert_eq!(find_ip_address("Ethernet", text), Some("192.168.1.50".to_string()));
}

#[test]
fn address_first_matching_line_counts() {
    let text = "Interface Ethernet\na\nb\nAddress 10.0.0.2\nInterface Ethernet 2\nc\nd\nAddress 10.0.0.3\n";
    assert_eq!(find_ip_address("Ethernet", text), Some("10.0.0.2".to_string()));
    assert_eq!(find_ip_address("Ethernet 2", text), Some("10.0.0.3".to_string()));
}

#[test]
fn address_absent_is_none() {
    let text = "Interface Ethernet\na\nb\nAddress 10.0.0.2\n";
    assert_eq!(find_ip_address("Wi-Fi", text), None);
    assert_eq!(find_ip_address("Ethernet", "Interface Ethernet\na\n\nb\n"), None);
    assert_eq!(find_ip_address("Ethernet", ""), None);
}

#[test]
fn add_route_through_interface() {
    let iface_text = interfaces(" 12  25  1500  connected  Ethernet\n 14  5  1400  connected  wintun\n");
    let c = add_default_ipv4_route("192.168.1.1", "Ethernet", false, "wintun", &iface_text).unwrap();
    assert_eq!(c.program, "netsh");
    assert_eq!(
        args(&c),
        vec!["interface", "ipv4", "add", "route", "0.0.0.0/0", "12", "192.168.1.1", "store=active"]
    );
}

#[test]
fn add_route_through_tunnel() {
    let iface_text = interfaces(" 12  25  1500  connected  Ethernet\n 14  5  1400  connected  wintun\n");
    let c = add_default_ipv6_route("fd00::1", "Ethernet", true, "wintun", &iface_text).unwrap();
    assert_eq!(c.program, "netsh");
    assert_eq!(
        args(&c),
        vec!["interface", "ipv6", "add", "route", "::/0", "14", "fd00::1", "metric=0", "store=active"]
    );
}

#[test]
fn add_route_unknown_interface() {
    let iface_text = interfaces(" 12  25  1500  connected  Ethernet\n");
    assert!(matches!(
        add_default_ipv4_route("192.168.1.1", "Wi-Fi", false, "wintun", &iface_text),
        Err(NetError::NotFound)
    ));
    assert!(matches!(
        add_default_ipv4_route("192.168.1.1", "Ethernet", true, "wintun", &iface_text),
        Err(NetError::NotFound)
    ));
}

#[test]
fn add_route_twice_builds_the_same_command() {
    let iface_text = interfaces(" 12  25  1500  connected  Ethernet\n");
    let a = add_default_route(Family::V4, "192.168.1.1", "Ethernet", false, "wintun", &iface_text).unwrap();
    let b = add_default_route(Family::V4, "192.168.1.1", "Ethernet", false, "wintun", &iface_text).unwrap();
    assert_eq!(a.program, b.program);
    assert_eq!(a.args, b.args);
}

#[test]
fn delete_route_scoped_and_unscoped() {
    let iface_text = interfaces(" 12  25  1500  connected  Ethernet\n");
    let c = delete_default_ipv4_route(Some("Ethernet"), &iface_text).unwrap();
    assert_eq!(c.program, "netsh");
    assert_eq!(
        args(&c),
        vec!["interface", "ipv4", "delete", "route", "0.0.0.0/0", "if", "12", "store=active"]
    );
    let c = delete_default_ipv6_route(Some("Ethernet"), &iface_text).unwrap();
    assert_eq!(
        args(&c),
        vec!["interface", "ipv6", "delete", "route", "::/0", "if", "12", "store=active"]
    );
    let c = delete_default_ipv4_route(None, "").unwrap();
    assert_eq!(c.program, "route");
    assert_eq!(args(&c), vec!["-4", "delete", "0.0.0.0/0"]);
    let c = delete_default_ipv6_route(None, "").unwrap();
    assert_eq!(args(&c), vec!["-6", "delete", "::/0"]);
    assert!(matches!(
        delete_default_ipv4_route(Some("Wi-Fi"), &iface_text),
        Err(NetError::NotFound)
    ));
}

#[test]
fn add_and_delete_name_the_same_destination() {
    let iface_text = interfaces(" 12  25  1500  connected  Ethernet\n");
    for (fam, dest) in [(Family::V4, "0.0.0.0/0"), (Family::V6, "::/0")] {
        let add = add_default_route(fam, "gw", "Ethernet", false, "wintun", &iface_text).unwrap();
        let scoped = delete_default_route(fam, Some("Ethernet"), &iface_text).unwrap();
        let any = delete_default_route(fam, None, &iface_text).unwrap();
        assert_eq!(add.args[4], dest);
        assert_eq!(scoped.args[4], dest);
        assert_eq!(any.args[2], dest);
    }
}

#[test]
fn interface_address_commands() {
    let c = add_interface_ipv4_address("wintun", "10.8.0.2", "10.8.0.1", "255.255.255.0");
    assert_eq!(c.program, "netsh");
    assert_eq!(
        args(&c),
        vec![
            "interface", "ipv4", "set", "address", "wintun", "static", "10.8.0.2",
            "255.255.255.0", "10.8.0.1", "store=active"
        ]
    );
    let c = add_interface_ipv6_address("wintun", "fd00::2", 64);
    assert_eq!(
        args(&c),
        vec!["interface", "ipv6", "set", "address", "interface=wintun", "address=fd00::2", "store=active"]
    );
}

#[test]
fn unsupported_and_no_op_operations() {
    assert_eq!(add_default_ipv4_rule("10.0.0.1"), Ok(()));
    assert_eq!(add_default_ipv6_rule("fd00::1"), Ok(()));
    assert_eq!(delete_default_ipv4_rule("10.0.0.1"), Ok(()));
    assert_eq!(delete_default_ipv6_rule("fd00::1"), Ok(()));
    assert_eq!(get_ipv4_forwarding(), Ok(false));
    assert_eq!(get_ipv6_forwarding(), Ok(false));
    assert_eq!(set_ipv4_forwarding(true), Err(NetError::Unsupported));
    assert_eq!(set_ipv6_forwarding(false), Err(NetError::Unsupported));
    assert_eq!(get_default_ipv4_address(), Err(NetError::Unsupported));
    assert_eq!(get_default_ipv6_address(), Err(NetError::Unsupported));
}
