use vstd::prelude::*;

use crate::text::{append_decimal, decimal_text, starts_with};

verus! {

/// A network interface of the machine: its name and, when it has one, its
/// IPv4 address.
pub struct NetInterface {
    pub name: String,
    pub ipv4: Option<(u8, u8, u8, u8)>,
}

/// The IPv4 ranges set aside for private networks: 10.0.0.0/8,
/// 172.16.0.0/12 and 192.168.0.0/16.
pub open spec fn is_private_ipv4(ip: (u8, u8, u8, u8)) -> bool {
    ||| ip.0 == 10
    ||| (ip.0 == 172 && 16 <= ip.1 <= 31)
    ||| (ip.0 == 192 && ip.1 == 168)
}

/// Interfaces that never carry the LAN address: loopback, docker bridges
/// and tunnels.
pub open spec fn is_skipped_interface(name: Seq<char>) -> bool {
    ||| "lo"@.is_prefix_of(name)
    ||| "docker"@.is_prefix_of(name)
    ||| "utun"@.is_prefix_of(name)
}

/// An address as dotted decimal text.
pub open spec fn dotted_quad(ip: (u8, u8, u8, u8)) -> Seq<char> {
    decimal_text(ip.0 as int) + "."@ + decimal_text(ip.1 as int) + "."@ + decimal_text(ip.2 as int)
        + "."@ + decimal_text(ip.3 as int)
}

/// The address players should open: the first private IPv4 address of an
/// interface that is not skipped, or the loopback address when there is
/// none.
pub open spec fn chosen_ip(interfaces: Seq<(Seq<char>, Option<(u8, u8, u8, u8)>)>) -> Seq<char>
    decreases interfaces.len(),
{
    if interfaces.len() == 0 {
        "127.0.0.1"@
    } else {
        let (name, ip) = interfaces[0];
        if !is_skipped_interface(name) && ip is Some && is_private_ipv4(ip->0) {
            dotted_quad(ip->0)
        } else {
            chosen_ip(interfaces.drop_first())
        }
    }
}

/// The interfaces as names and addresses.
pub open spec fn interfaces_view(interfaces: Seq<NetInterface>) -> Seq<(Seq<char>, Option<(u8, u8, u8, u8)>)> {
    interfaces.map_values(|i: NetInterface| (i.name@, i.ipv4))
}

fn is_private(ip: (u8, u8, u8, u8)) -> (private: bool)
    ensures
        private == is_private_ipv4(ip),
{
    ip.0 == 10 || (ip.0 == 172 && 16 <= ip.1 && ip.1 <= 31) || (ip.0 == 192 && ip.1 == 168)
}

fn dotted(ip: (u8, u8, u8, u8)) -> (text: String)
    ensures
        text@ == dotted_quad(ip),
{
    let mut text = String::new();
    append_decimal(&mut text, ip.0 as i64);
    text.append(".");
    append_decimal(&mut text, ip.1 as i64);
    text.append(".");
    append_decimal(&mut text, ip.2 as i64);
    text.append(".");
    append_decimal(&mut text, ip.3 as i64);
    assert(text@ =~= dotted_quad(ip));
    text
}

/// The LAN address of the machine among its interfaces.
pub fn select_local_ip(interfaces: &Vec<NetInterface>) -> (ip: String)
    ensures
        ip@ == chosen_ip(interfaces_view(interfaces@)),
{
    let ghost all = interfaces_view(interfaces@);
    let mut i: usize = 0;
    assert(all.skip(0) =~= all);
    while i < interfaces.len()
        invariant
            all == interfaces_view(interfaces@),
            i <= interfaces.len(),
            chosen_ip(all) == chosen_ip(all.skip(i as int)),
        decreases interfaces.len() - i,
    {
        let iface = &interfaces[i];
        assert(all.skip(i as int)[0] == (iface.name@, iface.ipv4));
        let skipped = starts_with(iface.name.as_str(), "lo") || starts_with(iface.name.as_str(), "docker")
            || starts_with(iface.name.as_str(), "utun");
        match iface.ipv4 {
            Some(ip) => {
                if !skipped && is_private(ip) {
                    return dotted(ip);
                }
            },
            None => {},
        }
        assert(all.skip(i as int).drop_first() =~= all.skip(i + 1));
        i = i + 1;
    }
    String::from_str("127.0.0.1")
}

/// The address players open: "http://" and the host, a colon and the
/// port.
pub fn server_url(ip: &str, port: u16) -> (url: String)
    ensures
        url@ == "http://"@ + ip@ + ":"@ + decimal_text(port as int),
{
    let mut url = String::from_str("http://");
    url.append(ip);
    url.append(":");
    append_decimal(&mut url, port as i64);
    url
}

} // verus!
