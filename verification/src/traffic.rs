//! What the commands for the host's network mean: which addresses a rule covers, where a
//! connection is sent, and which rules are found again to be removed.
use crate::ip;
use crate::json::JsonView;
use crate::net;
use crate::net::{IpAllocatorView, TagMatch};
use crate::text;
use crate::text::IntFault;
use vstd::prelude::*;
use vstd::string::*;

verus! {

/// The address and the prefix length that a text such as `10.0.0.0/24` stands for.
#[verifier::opaque]
pub open spec fn cidr_value(s: Seq<char>) -> Option<(u32, nat)> {
    match text::parted(s, '/') {
        Some((address, len)) => match (ip::ip_value(address), text::uint_value(len, 10, 32)) {
            (Some(ip), Ok(n)) => Some((ip, n)),
            _ => None,
        },
        None => None,
    }
}

/// The address and the port that a text such as `10.0.0.2:80` stands for.
#[verifier::opaque]
pub open spec fn endpoint_value(s: Seq<char>) -> Option<(u32, u16)> {
    match text::parted(s, ':') {
        Some((address, port)) => match (ip::ip_value(address), text::uint_value(port, 10, 65535)) {
            (Some(ip), Ok(n)) => Some((ip, n as u16)),
            _ => None,
        },
        None => None,
    }
}

/// Whether an address is in the network of `net` that has the given prefix length: the two agree
/// in so many leading bits.
#[verifier::opaque]
pub open spec fn in_network(address: int, net: u32, prefix_len: nat) -> bool {
    let size = net::pow2((32 - prefix_len) as nat) as int;
    address / size == net as int / size
}

/// The family, the table and the chain into which a command adds a rule.
pub open spec fn rule_place(words: Seq<Seq<char>>) -> Option<(Seq<char>, Seq<char>, Seq<char>)> {
    if words.len() >= 5 && words[0] == "add"@ && words[1] == "rule"@ {
        Some((words[2], words[3], words[4]))
    } else {
        None
    }
}

/// The comment that a command gives a rule, without its quotation marks.
pub open spec fn comment_of(words: Seq<Seq<char>>) -> Option<Seq<char>> {
    let n = words.len() as int;
    if n >= 2 && words[n - 2] == "comment"@ && words[n - 1].len() >= 2 {
        Some(words[n - 1].subrange(1, words[n - 1].len() - 1))
    } else {
        None
    }
}

/// Whether a listed entry is the rule with the given comment, chain and handle.
pub open spec fn lists_rule(entry: JsonView, comment: Seq<char>, chain: Seq<char>, handle: u64) -> bool {
    entry.member("rule"@) matches Some(rule) && rule.text_member("comment"@) == Some(comment)
        && rule.text_member("chain"@) == Some(chain) && rule.uint_member("handle"@) == Some(handle)
}

/// The text of an address holds only digits and dots.
pub proof fn lemma_ip_chars(ip: u32)
    ensures
        ip::ip_text(ip).len() >= 7,
        '0' <= ip::ip_text(ip)[0] <= '9',
        forall|i: int|
            0 <= i < ip::ip_text(ip).len() ==> ('0' <= #[trigger] ip::ip_text(ip)[i] <= '9'
                || ip::ip_text(ip)[i] == '.'),
{
    reveal_strlit(".");
    text::lemma_decimal_digits((ip / 16777216) as nat);
    text::lemma_decimal_digits((ip / 65536 % 256) as nat);
    text::lemma_decimal_digits((ip / 256 % 256) as nat);
    text::lemma_decimal_digits((ip % 256) as nat);
    let a = text::decimal((ip / 16777216) as nat);
    let b = a + "."@ + text::decimal((ip / 65536 % 256) as nat);
    let c = b + "."@ + text::decimal((ip / 256 % 256) as nat);
    assert(forall|i: int| 0 <= i < b.len() ==> ('0' <= #[trigger] b[i] <= '9' || b[i] == '.'));
    assert(forall|i: int| 0 <= i < c.len() ==> ('0' <= #[trigger] c[i] <= '9' || c[i] == '.'));
    assert(ip::ip_text(ip) == c + "."@ + text::decimal((ip % 256) as nat));
    assert(ip::ip_text(ip)[0] == a[0]);
}

/// An address with a number behind a separator is taken apart again.
pub proof fn lemma_parted(ip: u32, sep: char, s: Seq<char>, n: nat)
    requires
        sep == '/' || sep == ':',
        s == ip::ip_text(ip) + seq![sep] + text::decimal(n),
    ensures
        text::parted(s, sep) == Some((ip::ip_text(ip), text::decimal(n))),
        '0' <= s[0] <= '9',
{
    lemma_ip_chars(ip);
    let a = ip::ip_text(ip);
    let i = a.len() as int;
    assert forall|j: int| 0 <= j < i implies #[trigger] s[j] != sep by {
        assert(s[j] == a[j]);
    }
    assert(s[i] == sep);
    text::lemma_first_index(s, sep, i);
    assert(s.take(i) =~= a);
    assert(s.skip(i + 1) =~= text::decimal(n));
}

proof fn lemma_cidr(ip: u32)
    ensures
        cidr_value(ip::ip_text(ip) + "/30"@) == Some((ip, 30nat)),
        '0' <= (ip::ip_text(ip) + "/30"@)[0] <= '9',
{
    reveal(cidr_value);
    reveal_strlit("/30");
    reveal_with_fuel(text::decimal, 3);
    let s = ip::ip_text(ip) + "/30"@;
    assert(text::decimal(30) =~= seq!['3', '0']);
    assert(s =~= ip::ip_text(ip) + seq!['/'] + text::decimal(30));
    lemma_parted(ip, '/', s, 30);
    ip::parse_inverts_format(ip);
    text::decimal_is_read_back(30, 32);
}

proof fn lemma_endpoint(ip: u32, port: u16)
    ensures
        endpoint_value(ip::ip_text(ip) + ":"@ + text::decimal(port as nat)) == Some((ip, port)),
{
    reveal(endpoint_value);
    reveal_strlit(":");
    let s = ip::ip_text(ip) + ":"@ + text::decimal(port as nat);
    assert(s =~= ip::ip_text(ip) + seq![':'] + text::decimal(port as nat));
    lemma_parted(ip, ':', s, port as nat);
    ip::parse_inverts_format(ip);
    text::decimal_is_read_back(port as nat, 65535);
}

proof fn lemma_in_small_network(base: u32, net: u32, address: int)
    requires
        base % 4 == 0,
        base <= net < base + 4,
    ensures
        in_network(address, net, 30) <==> (base <= address && address < base + 4),
{
    assert(net::pow2(2) == 4) by {
        reveal_with_fuel(net::pow2, 3);
    }
    reveal(in_network);
    assert(net as int / 4 == base as int / 4);
    assert(in_network(address, net, 30) <==> address / 4 == net as int / 4);
}

/// A connection to the host's port is sent to the guest's port: the destination is rewritten to
/// the guest's address and port, and what goes to that address and port is let through.
pub proof fn forward_reaches_the_guest(
    host_port: u16,
    guest_ip: u32,
    guest_port: u16,
    tap_name: Seq<char>,
)
    ensures
        ({
            let plan = net::add_port_forward_plan(host_port, guest_ip, guest_port, tap_name);
            let dnat = plan[0].command.args;
            let accept = plan[1].command.args;
            &&& plan.len() == 2
            &&& forall|k: int|
                0 <= k < 2 ==> (#[trigger] plan[k]).required && plan[k].command.program == "nft"@
            &&& rule_place(dnat) == Some(("ip"@, "husk"@, "prerouting"@))
            &&& text::argument(dnat, "tcp"@) == Some("dport"@)
            &&& text::argument(dnat, "dport"@) matches Some(port) && text::uint_value(
                port,
                10,
                65535,
            ) == Ok::<nat, IntFault>(host_port as nat)
            &&& text::argument(dnat, "dnat"@) == Some("to"@)
            &&& text::argument(dnat, "to"@) matches Some(target) && endpoint_value(target) == Some(
                (guest_ip, guest_port),
            )
            &&& rule_place(accept) == Some(("ip"@, "husk"@, "forward"@))
            &&& text::argument(accept, "daddr"@) matches Some(address) && ip::ip_value(address)
                == Some(guest_ip)
            &&& text::argument(accept, "tcp"@) == Some("dport"@)
            &&& text::argument(accept, "dport"@) matches Some(port) && text::uint_value(
                port,
                10,
                65535,
            ) == Ok::<nat, IntFault>(guest_port as nat)
            &&& accept.contains("accept"@)
        }),
{
    let plan = net::add_port_forward_plan(host_port, guest_ip, guest_port, tap_name);
    let dnat = plan[0].command.args;
    let accept = plan[1].command.args;
    reveal_strlit("add");
    reveal_strlit("rule");
    reveal_strlit("ip");
    reveal_strlit("husk");
    reveal_strlit("prerouting");
    reveal_strlit("forward");
    reveal_strlit("tcp");
    reveal_strlit("dport");
    reveal_strlit("daddr");
    reveal_strlit("dnat");
    reveal_strlit("to");
    lemma_ip_chars(guest_ip);
    lemma_endpoint(guest_ip, guest_port);
    ip::parse_inverts_format(guest_ip);
    text::lemma_decimal_digits(host_port as nat);
    text::decimal_is_read_back(host_port as nat, 65535);
    text::decimal_is_read_back(guest_port as nat, 65535);
    assert forall|j: int| 0 <= j < 5 implies #[trigger] dnat[j] != "tcp"@ by {
        assert(dnat[j].len() != 3 || dnat[j][0] != 't');
    }
    text::lemma_argument(dnat, "tcp"@, 5);
    assert forall|j: int| 0 <= j < 6 implies #[trigger] dnat[j] != "dport"@ by {
        assert(dnat[j].len() != 5);
    }
    text::lemma_argument(dnat, "dport"@, 6);
    assert forall|j: int| 0 <= j < 8 implies #[trigger] dnat[j] != "dnat"@ by {
        assert(dnat[j].len() != 4 || dnat[j][0] != 'd');
    }
    text::lemma_argument(dnat, "dnat"@, 8);
    assert forall|j: int| 0 <= j < 9 implies #[trigger] dnat[j] != "to"@ by {
        assert(dnat[j].len() != 2 || dnat[j][0] != 't');
    }
    text::lemma_argument(dnat, "to"@, 9);
    assert forall|j: int| 0 <= j < 6 implies #[trigger] accept[j] != "daddr"@ by {
        assert(accept[j].len() != 5);
    }
    text::lemma_argument(accept, "daddr"@, 6);
    assert forall|j: int| 0 <= j < 8 implies #[trigger] accept[j] != "tcp"@ by {
        assert(accept[j].len() != 3 || accept[j][0] != 't');
    }
    text::lemma_argument(accept, "tcp"@, 8);
    assert forall|j: int| 0 <= j < 9 implies #[trigger] accept[j] != "dport"@ by {
        assert(accept[j].len() != 5 || accept[j][1] != 'p');
    }
    text::lemma_argument(accept, "dport"@, 9);
    assert(accept[11] == "accept"@);
}

/// Forwards to different ports, or to different guests, have different targets.
pub proof fn targets_tell_guests_apart(
    host_port: u16,
    guest_ip: u32,
    guest_port: u16,
    other_ip: u32,
    other_port: u16,
    tap_name: Seq<char>,
)
    requires
        (guest_ip, guest_port) != (other_ip, other_port),
    ensures
        ({
            let one = net::add_port_forward_plan(host_port, guest_ip, guest_port, tap_name);
            let two = net::add_port_forward_plan(host_port, other_ip, other_port, tap_name);
            text::argument(one[0].command.args, "to"@) != text::argument(
                two[0].command.args,
                "to"@,
            )
        }),
{
    forward_reaches_the_guest(host_port, guest_ip, guest_port, tap_name);
    forward_reaches_the_guest(host_port, other_ip, other_port, tap_name);
}

/// Where the words of the NAT rules stand.
pub proof fn lemma_nat_words(tap_name: Seq<char>, host_ip: u32, host_interface: Seq<char>)
    ensures
        ({
            let plan = net::add_vm_nat_plan(tap_name, host_ip, host_interface);
            let nat_words = plan[0].command.args;
            let from = plan[1].command.args;
            let to = plan[2].command.args;
            &&& plan.len() == 3
            &&& forall|k: int|
                0 <= k < 3 ==> (#[trigger] plan[k]).required && plan[k].command.program == "nft"@
            &&& rule_place(nat_words) == Some(("ip"@, "husk"@, "postrouting"@))
            &&& text::argument(nat_words, "saddr"@) == Some(
                ip::ip_text((host_ip - 1) as u32) + "/30"@,
            )
            &&& text::argument(nat_words, "oifname"@) == Some(host_interface)
            &&& nat_words.contains("masquerade"@)
            &&& rule_place(from) == Some(("ip"@, "husk"@, "forward"@))
            &&& text::argument(from, "iifname"@) == Some(tap_name)
            &&& from.contains("accept"@)
            &&& rule_place(to) == Some(("ip"@, "husk"@, "forward"@))
            &&& text::argument(to, "oifname"@) == Some(tap_name)
            &&& to.contains("accept"@)
        }),
{
    let base = (host_ip - 1) as u32;
    let plan = net::add_vm_nat_plan(tap_name, host_ip, host_interface);
    let nat_words = plan[0].command.args;
    let from = plan[1].command.args;
    let to = plan[2].command.args;
    let network = ip::ip_text(base) + "/30"@;
    assert('0' <= network[0] <= '9') by {
        lemma_cidr(base);
    }
    reveal_strlit("add");
    reveal_strlit("rule");
    reveal_strlit("ip");
    reveal_strlit("husk");
    reveal_strlit("postrouting");
    reveal_strlit("forward");
    reveal_strlit("saddr");
    reveal_strlit("oifname");
    reveal_strlit("iifname");
    assert(nat_words[7] == network);
    assert forall|j: int| 0 <= j < 6 implies #[trigger] nat_words[j] != "saddr"@ by {
        assert(nat_words[j].len() != 5);
    }
    text::lemma_argument(nat_words, "saddr"@, 6);
    assert forall|j: int| 0 <= j < 8 implies #[trigger] nat_words[j] != "oifname"@ by {
        assert(nat_words[j].len() != 7 || nat_words[j][0] != 'o');
    }
    text::lemma_argument(nat_words, "oifname"@, 8);
    assert(nat_words[10] == "masquerade"@);
    assert forall|j: int| 0 <= j < 5 implies #[trigger] from[j] != "iifname"@ by {
        assert(from[j].len() != 7 || from[j][0] != 'i');
    }
    text::lemma_argument(from, "iifname"@, 5);
    assert forall|j: int| 0 <= j < 5 implies #[trigger] to[j] != "oifname"@ by {
        assert(to[j].len() != 7 || to[j][0] != 'o');
    }
    text::lemma_argument(to, "oifname"@, 5);
    assert(from[7] == "accept"@);
    assert(to[7] == "accept"@);
}

/// The network of a subnet holds its two addresses, and none of another subnet.
proof fn lemma_subnet(a: IpAllocatorView, i: u32, net: u32)
    requires
        a.fits(),
        a.base % 4 == 0,
        i < a.max_index,
        a.base + 4 * i <= net < a.base + 4 * i + 4,
    ensures
        in_network(a.guest_ip(i as int), net, 30),
        in_network(a.host_ip(i as int), net, 30),
        forall|j: int|
            j != i ==> !in_network(#[trigger] a.guest_ip(j), net, 30) && !in_network(
                a.host_ip(j),
                net,
                30,
            ),
{
    let base = (a.base + 4 * i) as u32;
    assert(base % 4 == 0);
    lemma_in_small_network(base, net, a.guest_ip(i as int));
    lemma_in_small_network(base, net, a.host_ip(i as int));
    assert forall|j: int| j != i implies !in_network(#[trigger] a.guest_ip(j), net, 30)
        && !in_network(a.host_ip(j), net, 30) by {
        lemma_in_small_network(base, net, a.guest_ip(j));
        lemma_in_small_network(base, net, a.host_ip(j));
    }
}

/// What leaves the subnet of a VM by the host's interface is masqueraded: the network that the
/// rule names is the /30 that begins at the base of the subnet, which holds the guest's and the
/// host's address and no other subnet's. What comes from the TAP device, and what goes to it, is
/// let through.
pub proof fn vm_reaches_the_outside(
    a: IpAllocatorView,
    i: u32,
    tap_name: Seq<char>,
    host_interface: Seq<char>,
)
    requires
        a.fits(),
        a.base % 4 == 0,
        i < a.max_index,
    ensures
        ({
            let plan = net::add_vm_nat_plan(tap_name, a.host_ip(i as int) as u32, host_interface);
            let nat_words = plan[0].command.args;
            let from = plan[1].command.args;
            let to = plan[2].command.args;
            &&& plan.len() == 3
            &&& forall|k: int|
                0 <= k < 3 ==> (#[trigger] plan[k]).required && plan[k].command.program == "nft"@
            &&& rule_place(nat_words) == Some(("ip"@, "husk"@, "postrouting"@))
            &&& text::argument(nat_words, "saddr"@) matches Some(s) && cidr_value(s) matches Some(
                (net, len),
            ) && net == a.base + 4 * i && len == 30 && in_network(a.guest_ip(i as int), net, len)
                && in_network(a.host_ip(i as int), net, len) && forall|j: int|
                j != i ==> !in_network(#[trigger] a.guest_ip(j), net, len) && !in_network(
                    a.host_ip(j),
                    net,
                    len,
                )
            &&& text::argument(nat_words, "oifname"@) == Some(host_interface)
            &&& nat_words.contains("masquerade"@)
            &&& rule_place(from) == Some(("ip"@, "husk"@, "forward"@))
            &&& text::argument(from, "iifname"@) == Some(tap_name)
            &&& from.contains("accept"@)
            &&& rule_place(to) == Some(("ip"@, "husk"@, "forward"@))
            &&& text::argument(to, "oifname"@) == Some(tap_name)
            &&& to.contains("accept"@)
        }),
{
    let host = a.host_ip(i as int) as u32;
    let base = (a.base + 4 * i) as u32;
    assert((host - 1) as u32 == base);
    lemma_nat_words(tap_name, host, host_interface);
    lemma_cidr(base);
    lemma_subnet(a, i, base);
}

/// Where the words of the commands for a TAP device stand.
pub proof fn lemma_tap_words(name: Seq<char>, host_ip: u32)
    ensures
        ({
            let plan = net::create_tap_plan(name, host_ip);
            let gone = net::delete_tap_plan(name);
            &&& plan.len() == 3 && gone.len() == 1
            &&& forall|k: int|
                0 <= k < 3 ==> (#[trigger] plan[k]).required && plan[k].command.program == "ip"@
            &&& gone[0].command.program == "ip"@
            &&& text::argument(plan[0].command.args, "tuntap"@) == Some("add"@)
            &&& text::argument(plan[0].command.args, "dev"@) == Some(name)
            &&& text::argument(plan[1].command.args, "addr"@) == Some("add"@)
            &&& text::argument(plan[1].command.args, "add"@) == Some(ip::ip_text(host_ip) + "/30"@)
            &&& text::argument(plan[1].command.args, "dev"@) == Some(name)
            &&& text::argument(plan[2].command.args, "link"@) == Some("set"@)
            &&& text::argument(plan[2].command.args, "dev"@) == Some(name)
            &&& plan[2].command.args.last() == "up"@
            &&& text::argument(gone[0].command.args, "tuntap"@) == Some("del"@)
            &&& text::argument(gone[0].command.args, "dev"@) == Some(name)
        }),
{
    let plan = net::create_tap_plan(name, host_ip);
    let gone = net::delete_tap_plan(name);
    let make = plan[0].command.args;
    let address = plan[1].command.args;
    let link = plan[2].command.args;
    let remove = gone[0].command.args;
    let network = ip::ip_text(host_ip) + "/30"@;
    assert('0' <= network[0] <= '9') by {
        lemma_cidr(host_ip);
    }
    reveal_strlit("tuntap");
    reveal_strlit("add");
    reveal_strlit("addr");
    reveal_strlit("dev");
    reveal_strlit("link");
    reveal_strlit("set");
    reveal_strlit("del");
    assert(address[2] == network);
    text::lemma_argument(make, "tuntap"@, 0);
    assert forall|j: int| 0 <= j < 2 implies #[trigger] make[j] != "dev"@ by {
        assert(make[j].len() != 3 || make[j][0] != 'd');
    }
    text::lemma_argument(make, "dev"@, 2);
    text::lemma_argument(address, "addr"@, 0);
    assert(address[0].len() != "add"@.len());
    text::lemma_argument(address, "add"@, 1);
    assert forall|j: int| 0 <= j < 3 implies #[trigger] address[j] != "dev"@ by {
        assert(address[j].len() != 3 || address[j][0] != 'd');
    }
    text::lemma_argument(address, "dev"@, 3);
    text::lemma_argument(link, "link"@, 0);
    assert forall|j: int| 0 <= j < 2 implies #[trigger] link[j] != "dev"@ by {
        assert(link[j].len() != 3 || link[j][0] != 'd');
    }
    text::lemma_argument(link, "dev"@, 2);
    text::lemma_argument(remove, "tuntap"@, 0);
    assert forall|j: int| 0 <= j < 2 implies #[trigger] remove[j] != "dev"@ by {
        assert(remove[j].len() != 3 || remove[j][2] != 'v');
    }
    text::lemma_argument(remove, "dev"@, 2);
}

/// The TAP device of a VM has the host's address of the subnet, in a network in which the guest's
/// address is too. It is brought up, and it is the device that is removed later.
pub proof fn tap_connects_host_and_guest(a: IpAllocatorView, i: u32, name: Seq<char>)
    requires
        a.fits(),
        a.base % 4 == 0,
        i < a.max_index,
    ensures
        ({
            let plan = net::create_tap_plan(name, a.host_ip(i as int) as u32);
            let gone = net::delete_tap_plan(name);
            &&& plan.len() == 3 && gone.len() == 1
            &&& forall|k: int|
                0 <= k < 3 ==> (#[trigger] plan[k]).required && plan[k].command.program == "ip"@
            &&& gone[0].command.program == "ip"@
            &&& text::argument(plan[0].command.args, "tuntap"@) == Some("add"@)
            &&& text::argument(plan[0].command.args, "dev"@) == Some(name)
            &&& text::argument(plan[1].command.args, "addr"@) == Some("add"@)
            &&& text::argument(plan[1].command.args, "add"@) matches Some(s) && cidr_value(s)
                matches Some((address, len)) && address == a.host_ip(i as int) && in_network(
                a.guest_ip(i as int),
                address,
                len,
            ) && forall|j: int| j != i ==> !in_network(#[trigger] a.guest_ip(j), address, len)
            &&& text::argument(plan[1].command.args, "dev"@) == Some(name)
            &&& text::argument(plan[2].command.args, "link"@) == Some("set"@)
            &&& text::argument(plan[2].command.args, "dev"@) == Some(name)
            &&& plan[2].command.args.last() == "up"@
            &&& text::argument(gone[0].command.args, "tuntap"@) == Some("del"@)
            &&& text::argument(gone[0].command.args, "dev"@) == Some(name)
        }),
{
    let host = a.host_ip(i as int) as u32;
    lemma_tap_words(name, host);
    lemma_cidr(host);
    lemma_subnet(a, i, host);
}

/// The network that is masqueraded for a host address is the /30 that begins just before it, and
/// the TAP device has that address in a /30.
pub proof fn rules_name_the_subnet(tap_name: Seq<char>, host_ip: u32, host_interface: Seq<char>)
    requires
        host_ip >= 1,
    ensures
        ({
            let rule = net::add_vm_nat_plan(tap_name, host_ip, host_interface)[0].command.args;
            text::argument(rule, "saddr"@) matches Some(s) && cidr_value(s) == Some(
                ((host_ip - 1) as u32, 30nat),
            ) && text::argument(rule, "oifname"@) == Some(host_interface)
        }),
        ({
            let tap = net::create_tap_plan(tap_name, host_ip)[1].command.args;
            text::argument(tap, "add"@) matches Some(s) && cidr_value(s) == Some((host_ip, 30nat))
                && text::argument(tap, "dev"@) == Some(tap_name)
        }),
{
    lemma_nat_words(tap_name, host_ip, host_interface);
    lemma_tap_words(tap_name, host_ip);
    lemma_cidr((host_ip - 1) as u32);
    lemma_cidr(host_ip);
}

/// Whether a command of a plan makes the chain with the given family, table and name, and hooks
/// it where the packets are that it is named after.
pub open spec fn makes_chain(
    command: net::PlannedCommandView,
    place: (Seq<char>, Seq<char>, Seq<char>),
) -> bool {
    let words = command.command.args;
    &&& command.required && command.command.program == "nft"@
    &&& words.len() == 6 && words[0] == "add"@ && words[1] == "chain"@
    &&& (words[2], words[3], words[4]) == place
    &&& text::occurs_in(" hook "@ + place.2 + " "@, words[5])
}

/// The chains into which rules are added are made when the host's network is set up, after the
/// table that holds them, and after what was left of an earlier table is gone. The table that is
/// removed in the end is that one.
pub proof fn rules_find_their_chains()
    ensures
        ({
            let plan = net::init_nat_plan();
            let husk = seq!["table"@, "ip"@, "husk"@];
            &&& plan.len() == 5
            &&& plan[0].command.args == seq!["delete"@] + husk && !plan[0].required
            &&& plan[1].command.args == seq!["add"@] + husk && plan[1].required
            &&& makes_chain(plan[2], ("ip"@, "husk"@, "postrouting"@))
            &&& makes_chain(plan[3], ("ip"@, "husk"@, "forward"@))
            &&& makes_chain(plan[4], ("ip"@, "husk"@, "prerouting"@))
            &&& text::occurs_in("type nat "@, plan[2].command.args[5])
            &&& text::occurs_in("type nat "@, plan[4].command.args[5])
            &&& text::occurs_in("policy accept;"@, plan[2].command.args[5])
            &&& text::occurs_in("policy accept;"@, plan[3].command.args[5])
            &&& text::occurs_in("policy accept;"@, plan[4].command.args[5])
            &&& net::cleanup_nat_plan()[0].command.args == seq!["delete"@] + husk
            &&& net::list_rules_command().command.args == seq!["-j"@, "list"@] + husk
        }),
{
    let plan = net::init_nat_plan();
    let husk = seq!["table"@, "ip"@, "husk"@];
    assert(plan[0].command.args =~= seq!["delete"@] + husk);
    assert(plan[1].command.args =~= seq!["add"@] + husk);
    assert(net::cleanup_nat_plan()[0].command.args =~= seq!["delete"@] + husk);
    assert(net::list_rules_command().command.args =~= seq!["-j"@, "list"@] + husk);
    reveal_strlit(" hook ");
    reveal_strlit(" ");
    reveal_strlit("type nat ");
    assert(text::occurs_in(" hook "@ + "postrouting"@ + " "@, plan[2].command.args[5])) by {
        reveal_strlit("postrouting");
        reveal_strlit("{ type nat hook postrouting priority srcnat; policy accept; }");
        let s = plan[2].command.args[5];
        text::lemma_occurs(" hook "@ + "postrouting"@ + " "@, s, 10);
    }
    assert(text::occurs_in(" hook "@ + "forward"@ + " "@, plan[3].command.args[5])) by {
        reveal_strlit("forward");
        reveal_strlit("{ type filter hook forward priority filter; policy accept; }");
        let s = plan[3].command.args[5];
        text::lemma_occurs(" hook "@ + "forward"@ + " "@, s, 13);
    }
    assert(text::occurs_in(" hook "@ + "prerouting"@ + " "@, plan[4].command.args[5])) by {
        reveal_strlit("prerouting");
        reveal_strlit("{ type nat hook prerouting priority dstnat; policy accept; }");
        let s = plan[4].command.args[5];
        text::lemma_occurs(" hook "@ + "prerouting"@ + " "@, s, 10);
    }
    assert(text::occurs_in("type nat "@, plan[2].command.args[5])) by {
        reveal_strlit("{ type nat hook postrouting priority srcnat; policy accept; }");
        text::lemma_occurs("type nat "@, plan[2].command.args[5], 2);
    }
    assert(text::occurs_in("type nat "@, plan[4].command.args[5])) by {
        reveal_strlit("{ type nat hook prerouting priority dstnat; policy accept; }");
        text::lemma_occurs("type nat "@, plan[4].command.args[5], 2);
    }
    reveal_strlit("policy accept;");
    assert(text::occurs_in("policy accept;"@, plan[2].command.args[5])) by {
        reveal_strlit("{ type nat hook postrouting priority srcnat; policy accept; }");
        text::lemma_occurs("policy accept;"@, plan[2].command.args[5], 45);
    }
    assert(text::occurs_in("policy accept;"@, plan[3].command.args[5])) by {
        reveal_strlit("{ type filter hook forward priority filter; policy accept; }");
        text::lemma_occurs("policy accept;"@, plan[3].command.args[5], 44);
    }
    assert(text::occurs_in("policy accept;"@, plan[4].command.args[5])) by {
        reveal_strlit("{ type nat hook prerouting priority dstnat; policy accept; }");
        text::lemma_occurs("policy accept;"@, plan[4].command.args[5], 44);
    }
}

proof fn lemma_unquoted(tag: Seq<char>)
    ensures
        net::quoted(tag).len() == tag.len() + 2,
        net::quoted(tag).subrange(1, tag.len() as int + 1) == tag,
{
    reveal_strlit("\"");
    assert(net::quoted(tag).subrange(1, tag.len() as int + 1) =~= tag);
}

/// Every rule that is added for a VM carries the comment by which it is found again.
pub proof fn rules_carry_their_tag(
    tap_name: Seq<char>,
    host_ip: u32,
    host_interface: Seq<char>,
    host_port: u16,
    guest_ip: u32,
    guest_port: u16,
)
    ensures
        forall|k: int|
            0 <= k < 3 ==> comment_of(
                (#[trigger] net::add_vm_nat_plan(tap_name, host_ip, host_interface)[k]).command.args,
            ) == Some(net::nat_tag(tap_name)),
        forall|k: int|
            0 <= k < 2 ==> comment_of(
                (#[trigger] net::add_port_forward_plan(
                    host_port,
                    guest_ip,
                    guest_port,
                    tap_name,
                )[k]).command.args,
            ) == Some(net::forward_tag(tap_name, host_port)),
{
    lemma_unquoted(net::nat_tag(tap_name));
    lemma_unquoted(net::forward_tag(tap_name, host_port));
}

/// The rules that were added for a VM, listed with the comment that they were given, are deleted
/// when its network is removed; each by its chain and its handle.
pub proof fn added_rules_are_removed(
    tap_name: Seq<char>,
    host_ip: u32,
    host_interface: Seq<char>,
    k: int,
    listing: Seq<char>,
    entry: JsonView,
    comment: Seq<char>,
    chain: Seq<char>,
    handle: u64,
)
    requires
        0 <= k < 3,
        comment_of(net::add_vm_nat_plan(tap_name, host_ip, host_interface)[k].command.args) == Some(
            comment,
        ),
        net::entries_in(listing).contains(entry),
        lists_rule(entry, comment, chain, handle),
        chain.len() > 0,
        handle > 0,
    ensures
        net::remove_network_plan(tap_name, Some(listing)).contains(
            net::delete_rule_command((chain, handle)),
        ),
{
    rules_carry_their_tag(tap_name, host_ip, host_interface, 0, 0, 0);
    net::removed_network_leaves_no_rule(tap_name, listing, entry, (chain, handle));
}

/// The rules of a port forward, listed with the comment that they were given, are deleted when the
/// forward is removed, and when the network of the VM is removed.
pub proof fn added_forward_is_removed(
    tap_name: Seq<char>,
    host_port: u16,
    guest_ip: u32,
    guest_port: u16,
    k: int,
    listing: Seq<char>,
    entry: JsonView,
    comment: Seq<char>,
    chain: Seq<char>,
    handle: u64,
)
    requires
        0 <= k < 2,
        comment_of(
            net::add_port_forward_plan(
                host_port,
                guest_ip,
                guest_port,
                tap_name,
            )[k].command.args,
        ) == Some(comment),
        net::entries_in(listing).contains(entry),
        lists_rule(entry, comment, chain, handle),
        chain.len() > 0,
        handle > 0,
    ensures
        net::remove_port_forward_plan(host_port, tap_name, Some(listing)).contains(
            net::delete_rule_command((chain, handle)),
        ),
        net::remove_network_plan(tap_name, Some(listing)).contains(
            net::delete_rule_command((chain, handle)),
        ),
{
    let tag = net::forward_tag(tap_name, host_port);
    rules_carry_their_tag(tap_name, 0, seq![], host_port, guest_ip, guest_port);
    net::prefix_finds_every_forward(tap_name, host_port);
    net::removed_network_leaves_no_rule(tap_name, listing, entry, (chain, handle));
    let entries = net::entries_in(listing);
    let i = choose|i: int| 0 <= i < entries.len() && entries[i] == entry;
    net::lemma_rules_in(entries, tag, TagMatch::Whole);
    let rules = net::rules_in_text(listing, tag, TagMatch::Whole);
    assert(net::rule_in(entries[i], tag, TagMatch::Whole) == Some((chain, handle)));
    assert(rules.contains((chain, handle)));
    let m = choose|m: int| 0 <= m < rules.len() && rules[m] == (chain, handle);
    assert(net::remove_port_forward_plan(host_port, tap_name, Some(listing))[m]
        == net::delete_rule_command((chain, handle)));
}

/// Removing one port forward leaves the rules of every other: what is listed with the comment of
/// another port or another VM is not among the rules that are looked for.
pub proof fn other_forwards_stay(
    tap_name: Seq<char>,
    host_port: u16,
    other_tap: Seq<char>,
    other_port: u16,
    entry: JsonView,
    chain: Seq<char>,
    handle: u64,
)
    requires
        (tap_name, host_port) != (other_tap, other_port),
        net::tap_name_fault(tap_name) is None,
        net::tap_name_fault(other_tap) is None,
        lists_rule(entry, net::forward_tag(other_tap, other_port), chain, handle),
    ensures
        net::rule_in(entry, net::forward_tag(tap_name, host_port), TagMatch::Whole) is None,
{
    net::valid_tap_name_has_no_colon(tap_name);
    net::valid_tap_name_has_no_colon(other_tap);
    if tap_name == other_tap {
        net::forward_tags_differ_by_port(tap_name, host_port, other_port);
    } else {
        net::prefix_finds_no_other_vm(tap_name, other_tap, other_port);
        net::prefix_finds_every_forward(tap_name, host_port);
    }
}

/// The command that deletes a rule names its chain and its handle.
pub proof fn deletion_names_the_rule(rule: (Seq<char>, u64))
    ensures
        ({
            let words = net::delete_rule_command(rule).command.args;
            &&& net::delete_rule_command(rule).command.program == "nft"@
            &&& words.take(4) == seq!["delete"@, "rule"@, "ip"@, "husk"@]
            &&& words[4] == rule.0
            &&& words[5] == "handle"@
            &&& text::uint_value(words[6], 10, u64::MAX as nat) == Ok::<nat, IntFault>(
                rule.1 as nat,
            )
        }),
{
    let words = net::delete_rule_command(rule).command.args;
    assert(words.take(4) =~= seq!["delete"@, "rule"@, "ip"@, "husk"@]);
    text::decimal_is_read_back(rule.1 as nat, u64::MAX as nat);
}

/// The device that is removed is the one that was made: the command that removes it is the one that
/// made it, with the one word changed.
pub proof fn made_device_is_removed(name: Seq<char>, host_ip: u32)
    ensures
        ({
            let made = net::create_tap_plan(name, host_ip)[0];
            let removed = net::delete_tap_plan(name);
            &&& removed.len() == 1
            &&& removed[0].command.program == made.command.program
            &&& made.command.args[1] == "add"@
            &&& removed[0].command.args == made.command.args.update(1, "del"@)
            &&& text::argument(removed[0].command.args, "dev"@) == Some(name)
        }),
{
    let made = net::create_tap_plan(name, host_ip)[0];
    let words = net::delete_tap_plan(name)[0].command.args;
    assert(words =~= made.command.args.update(1, "del"@));
    reveal_strlit("tuntap");
    reveal_strlit("del");
    reveal_strlit("dev");
    assert("tuntap"@.len() != "dev"@.len());
    assert("del"@[2] != "dev"@[2]);
    text::lemma_argument(words, "dev"@, 2);
}

} // verus!
