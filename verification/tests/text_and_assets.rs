use avalon_dealer::assets::{content_type, embedded_file_name};
use avalon_dealer::net::{select_local_ip, server_url, NetInterface};
use avalon_dealer::text::{append_decimal, append_digits, ends_with, starts_with};

#[test]
fn decimal_text_of_integers() {
    let cases: [(i64, &str); 6] = [
        (0, "0"),
        (7, "7"),
        (42, "42"),
        (-5, "-5"),
        (1234567890, "1234567890"),
        (i64::MIN, "-9223372036854775808"),
    ];
    for (n, text) in cases.iter() {
        let mut s = String::from("x=");
        append_decimal(&mut s, *n);
        assert_eq!(s, format!("x={}", text));
    }
}

#[test]
fn digits_of_large_unsigned() {
    let mut s = String::new();
    append_digits(&mut s, u64::MAX);
    assert_eq!(s, u64::MAX.to_string());
}

#[test]
fn prefix_and_suffix_checks() {
    assert!(starts_with("lo0", "lo"));
    assert!(!starts_with("eth0", "lo"));
    assert!(!starts_with("l", "lo"));
    assert!(starts_with("docker0", "docker"));
    assert!(ends_with("app.js", ".js"));
    assert!(!ends_with("app.json", ".js"));
    assert!(!ends_with("js", ".js"));
}

#[test]
fn embedded_file_names() {
    assert_eq!(embedded_file_name("/"), "index.html");
    assert_eq!(embedded_file_name(""), "index.html");
    assert_eq!(embedded_file_name("/api/ready"), "index.html");
    assert_eq!(embedded_file_name("/assets/app.js"), "assets/app.js");
    assert_eq!(embedded_file_name("///favicon.ico"), "favicon.ico");
    assert_eq!(embedded_file_name("/apix"), "apix");
}

#[test]
fn content_types_by_extension() {
    assert_eq!(content_type("index.html"), "text/html; charset=utf-8");
    assert_eq!(content_type("assets/app.js"), "application/javascript");
    assert_eq!(content_type("style.css"), "text/css");
    assert_eq!(content_type("logo.svg"), "image/svg+xml");
    assert_eq!(content_type("a.png"), "image/png");
    assert_eq!(content_type("favicon.ico"), "image/x-icon");
    assert_eq!(content_type("m.json"), "application/json");
    assert_eq!(content_type("README"), "text/plain");
}

fn iface(name: &str, ipv4: Option<(u8, u8, u8, u8)>) -> NetInterface {
    NetInterface { name: name.to_string(), ipv4 }
}

#[test]
fn local_ip_picks_first_private_lan_address() {
    let ifaces = vec![
        iface("lo", Some((127, 0, 0, 1))),
        iface("docker0", Some((172, 17, 0, 1))),
        iface("eth0", None),
        iface("eth1", Some((8, 8, 8, 8))),
        iface("wlan0", Some((192, 168, 1, 23))),
        iface("eth2", Some((10, 0, 0, 5))),
    ];
    assert_eq!(select_local_ip(&ifaces), "192.168.1.23");
}

#[test]
fn local_ip_private_ranges() {
    assert_eq!(select_local_ip(&vec![iface("en0", Some((172, 31, 255, 1)))]), "172.31.255.1");
    assert_eq!(select_local_ip(&vec![iface("en0", Some((172, 32, 0, 1)))]), "127.0.0.1");
    assert_eq!(select_local_ip(&vec![iface("en0", Some((10, 200, 3, 4)))]), "10.200.3.4");
    assert_eq!(select_local_ip(&vec![iface("utun3", Some((10, 0, 0, 1)))]), "127.0.0.1");
}

#[test]
fn local_ip_falls_back_to_loopback() {
    assert_eq!(select_local_ip(&Vec::new()), "127.0.0.1");
}

#[test]
fn server_url_text() {
    assert_eq!(server_url("192.168.1.23", 3004), "http://192.168.1.23:3004");
}
