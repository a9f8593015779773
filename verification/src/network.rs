//! Addresses and WireGuard commands: the peer address of a team within the
//! network of an interface, the credentials a team receives, and the command
//! lines that add or remove a peer.

use crate::records::{InterfaceData, InterfaceDataView};
use crate::text::{
    decimal, decimal_string, is_digit, join_fields, join_with, lemma_decimal_digits,
    lemma_join_split, lemma_split_append_plain, lemma_split_join, lemma_split_nonempty, push_char,
    split_fields, split_on, views,
};
use vstd::prelude::*;
use vstd::string::*;

verus! {

/// What `ipnet`'s parser makes of a text as an `Ipv4Net`: the four octets of
/// the address and the prefix length, or `None` where the text is no IPv4
/// network in the form `a.b.c.d/len`.
pub uninterp spec fn ipv4_net_parse(text: Seq<char>) -> Option<(u8, u8, u8, u8, u8)>;

/// Trusted: parses `text` with `<ipnet::Ipv4Net as FromStr>::from_str` and
/// hands back the octets of `addr()` and `prefix_len()`. The result is the
/// named `ipv4_net_parse` of the text; a prefix length is never above 32,
/// since `Ipv4Net::new` refuses longer ones. Which texts the parser accepts is
/// left to the name.
#[verifier::external_body]
fn parse_ipv4_net(text: &str) -> (net: Option<(u8, u8, u8, u8, u8)>)
    ensures
        net == ipv4_net_parse(text@),
        net matches Some(t) ==> t.4 <= 32,
{
    match text.parse::<ipnet::Ipv4Net>() {
        Ok(n) => {
            let o = n.addr().octets();
            Some((o[0], o[1], o[2], o[3], n.prefix_len()))
        },
        Err(_) => None,
    }
}

/// The address of an interface as a text, if `ipnet` accepts it.
pub fn parse_interface_address(interface: &InterfaceData) -> (net: Option<(u8, u8, u8, u8, u8)>)
    ensures
        net == ipv4_net_parse(interface.ip_address@),
        net matches Some(t) ==> t.4 <= 32,
{
    parse_ipv4_net(interface.ip_address.as_str())
}

/// An IPv4 address in dotted decimal notation, as `Ipv4Addr` displays it.
pub open spec fn dotted_quad(a: u8, b: u8, c: u8, d: u8) -> Seq<char> {
    join_with(seq![decimal(a as nat), decimal(b as nat), decimal(c as nat), decimal(d as nat)], '.')
}

/// The address of the team's peer in the network of `server`: the last
/// dot-separated field of the server address is replaced by `5`.
pub open spec fn peer_address_of(server: Seq<char>) -> Seq<char> {
    join_with(split_on(server, '.').drop_last().push(seq!['5']), '.')
}

/// The credentials a team receives: its address with the prefix length, the
/// public key of the interface and its port, one per line.
pub open spec fn credentials_text(peer: Seq<char>, prefix: u8, interface: InterfaceDataView) -> Seq<
    char,
> {
    join_with(
        seq![peer + seq!['/'] + decimal(prefix as nat), interface.host_public_key, interface.port],
        '\n',
    )
}

/// The command line that adds a peer to a running interface.
pub open spec fn add_peer_command(interface: Seq<char>, key: Seq<char>, peer_ip: Seq<char>) -> Seq<
    Seq<char>,
> {
    seq![
        "sudo"@,
        "wg"@,
        "set"@,
        interface,
        "peer"@,
        key,
        "allowed-ips"@,
        peer_ip + "/32"@,
    ]
}

/// The command line that removes a peer from an interface.
pub open spec fn remove_peer_command(interface: Seq<char>, key: Seq<char>) -> Seq<Seq<char>> {
    seq!["sudo"@, "wg"@, "set"@, interface, "peer"@, key, "remove"@]
}

/// An address in dotted decimal notation.
pub fn address_string(a: u8, b: u8, c: u8, d: u8) -> (s: String)
    ensures
        s@ == dotted_quad(a, b, c, d),
{
    let parts = vec![decimal_string(a), decimal_string(b), decimal_string(c), decimal_string(d)];
    assert(views(parts@) =~= seq![
        decimal(a as nat),
        decimal(b as nat),
        decimal(c as nat),
        decimal(d as nat),
    ]);
    join_fields(&parts, '.')
}

/// The peer address in the network of `server_address`: the text is split at
/// its dots, the last field is dropped, `5` is put in its place, and the
/// fields are joined again.
pub fn peer_address(server_address: &str) -> (peer: String)
    ensures
        peer@ == peer_address_of(server_address@),
{
    let mut fields = split_fields(server_address, '.');
    proof {
        lemma_split_nonempty(server_address@, '.');
    }
    let last = fields.len() - 1;
    fields.remove(last);
    let mut five = String::new();
    push_char(&mut five, '5');
    fields.push(five);
    assert(views(fields@) =~= split_on(server_address@, '.').drop_last().push(seq!['5']));
    join_fields(&fields, '.')
}

/// A decimal number holds no dot.
proof fn lemma_decimal_has_no_dot(n: nat)
    ensures
        !decimal(n).contains('.'),
{
    lemma_decimal_digits(n);
    if decimal(n).contains('.') {
        let k = choose|k: int| 0 <= k < decimal(n).len() && decimal(n)[k] == '.';
        assert(is_digit(decimal(n)[k]));
    }
}

/// The peer of a team keeps the first three octets of the server's address
/// and has `5` as its last: `a.b.c.d` becomes `a.b.c.5`.
pub proof fn lemma_peer_keeps_network_part(a: u8, b: u8, c: u8, d: u8)
    ensures
        peer_address_of(dotted_quad(a, b, c, d)) == join_with(
            seq![decimal(a as nat), decimal(b as nat), decimal(c as nat), seq!['5']],
            '.',
        ),
{
    let fields = seq![decimal(a as nat), decimal(b as nat), decimal(c as nat), decimal(d as nat)];
    lemma_decimal_has_no_dot(a as nat);
    lemma_decimal_has_no_dot(b as nat);
    lemma_decimal_has_no_dot(c as nat);
    lemma_decimal_has_no_dot(d as nat);
    assert forall|i: int| 0 <= i < fields.len() implies !(#[trigger] fields[i]).contains('.') by {
        if i == 0 {
        } else if i == 1 {
        } else if i == 2 {
        } else {
        }
    }
    lemma_split_join(fields, '.');
    assert(fields.drop_last().push(seq!['5']) =~= seq![
        decimal(a as nat),
        decimal(b as nat),
        decimal(c as nat),
        seq!['5'],
    ]);
}

/// The peer address and the credentials of a booking on `interface`, whose
/// address `ipnet` parsed to `net`.
pub fn booking_credentials(net: (u8, u8, u8, u8, u8), interface: &InterfaceData) -> (res: (
    String,
    String,
))
    ensures
        res.0@ == peer_address_of(dotted_quad(net.0, net.1, net.2, net.3)),
        res.0@ == join_with(
            seq![decimal(net.0 as nat), decimal(net.1 as nat), decimal(net.2 as nat), seq!['5']],
            '.',
        ),
        res.0@ == decimal(net.0 as nat) + seq!['.'] + decimal(net.1 as nat) + seq!['.'] + decimal(
            net.2 as nat,
        ) + seq!['.', '5'],
        res.1@ == credentials_text(res.0@, net.4, interface@),
        res.1@ == res.0@ + seq!['/'] + decimal(net.4 as nat) + seq!['\n'] + interface.host_public_key@
            + seq!['\n'] + interface.port@,
{
    let server = address_string(net.0, net.1, net.2, net.3);
    let prefix = decimal_string(net.4);
    let peer = peer_address(server.as_str());
    proof {
        lemma_peer_keeps_network_part(net.0, net.1, net.2, net.3);
    }
    let mut first = peer.clone();
    push_char(&mut first, '/');
    first.append(prefix.as_str());
    assert(first@ =~= peer@ + seq!['/'] + decimal(net.4 as nat));
    let parts = vec![first, interface.host_public_key.clone(), interface.port.clone()];
    assert(views(parts@) =~= seq![
        peer@ + seq!['/'] + decimal(net.4 as nat),
        interface.host_public_key@,
        interface.port@,
    ]);
    let credentials = join_fields(&parts, '\n');
    proof {
        lemma_credentials_lines(peer@, net.4, interface@);
        lemma_peer_of_dotted_quad(net.0, net.1, net.2, net.3);
    }
    (peer, credentials)
}

/// The command line that adds the team's peer with the given address to a
/// running interface, program first.
pub fn wireguard_add_peer_command(interface: &str, peer_pub_key: &str, peer_ip_address: &str) -> (cmd:
    Vec<String>)
    ensures
        views(cmd@) == add_peer_command(interface@, peer_pub_key@, peer_ip_address@),
        cmd@.len() == 8,
        cmd@[0]@ == "sudo"@,
        cmd@[1]@ == "wg"@,
        cmd@[2]@ == "set"@,
        cmd@[3]@ == interface@,
        cmd@[4]@ == "peer"@,
        cmd@[5]@ == peer_pub_key@,
        cmd@[6]@ == "allowed-ips"@,
        cmd@[7]@ == peer_ip_address@ + "/32"@,
{
    let cmd = vec![
        String::from_str("sudo"),
        String::from_str("wg"),
        String::from_str("set"),
        String::from_str(interface),
        String::from_str("peer"),
        String::from_str(peer_pub_key),
        String::from_str("allowed-ips"),
        String::from_str(peer_ip_address).concat("/32"),
    ];
    assert(views(cmd@) =~= add_peer_command(interface@, peer_pub_key@, peer_ip_address@));
    cmd
}

/// The command line that removes a peer from an interface, program first.
pub fn wireguard_remove_peer_command(interface: &str, peer_pub_key: &str) -> (cmd: Vec<String>)
    ensures
        views(cmd@) == remove_peer_command(interface@, peer_pub_key@),
        cmd@.len() == 7,
        cmd@[0]@ == "sudo"@,
        cmd@[1]@ == "wg"@,
        cmd@[2]@ == "set"@,
        cmd@[3]@ == interface@,
        cmd@[4]@ == "peer"@,
        cmd@[5]@ == peer_pub_key@,
        cmd@[6]@ == "remove"@,
{
    let cmd = vec![
        String::from_str("sudo"),
        String::from_str("wg"),
        String::from_str("set"),
        String::from_str(interface),
        String::from_str("peer"),
        String::from_str(peer_pub_key),
        String::from_str("remove"),
    ];
    assert(views(cmd@) =~= remove_peer_command(interface@, peer_pub_key@));
    cmd
}


/// An address in dotted decimal notation is its four octets in decimal with a
/// dot between neighbours.
pub proof fn lemma_dotted_quad_text(a: u8, b: u8, c: u8, d: u8)
    ensures
        dotted_quad(a, b, c, d) == decimal(a as nat) + seq!['.'] + decimal(b as nat) + seq!['.']
            + decimal(c as nat) + seq!['.'] + decimal(d as nat),
{
    let f = seq![decimal(a as nat), decimal(b as nat), decimal(c as nat), decimal(d as nat)];
    assert(f.drop_last() =~= seq![decimal(a as nat), decimal(b as nat), decimal(c as nat)]);
    assert(f.drop_last().drop_last() =~= seq![decimal(a as nat), decimal(b as nat)]);
    assert(f.drop_last().drop_last().drop_last() =~= seq![decimal(a as nat)]);
    reveal_with_fuel(join_with, 4);
    assert(dotted_quad(a, b, c, d) =~= decimal(a as nat) + seq!['.'] + decimal(b as nat) + seq!['.']
        + decimal(c as nat) + seq!['.'] + decimal(d as nat));
}

/// The peer address keeps everything up to the last dot of the server
/// address and puts `5` after it.
pub proof fn lemma_peer_address_replaces_last_field(prefix: Seq<char>, last: Seq<char>)
    requires
        !last.contains('.'),
    ensures
        peer_address_of(prefix + seq!['.'] + last) == prefix + seq!['.', '5'],
{
    let head = prefix.push('.');
    assert(prefix + seq!['.'] + last =~= head + last);
    lemma_split_append_plain(head, last, '.');
    lemma_split_nonempty(prefix, '.');
    lemma_join_split(prefix, '.');
    let fp = split_on(prefix, '.');
    assert(head.drop_last() =~= prefix);
    assert(split_on(head, '.') == fp.push(Seq::empty()));
    assert(Seq::<char>::empty() + last =~= last);
    let fs = fp.push(Seq::empty()).update(fp.len() as int, last);
    assert(fs =~= fp.push(last));
    assert(fs.drop_last() =~= fp);
    let g = fp.push(seq!['5']);
    assert(g.drop_last() =~= fp);
    assert(g.len() >= 2);
    assert(join_with(g, '.') == join_with(fp, '.').push('.') + seq!['5']);
    assert(join_with(g, '.') =~= prefix + seq!['.', '5']);
}

/// A server address without a dot gives the peer address `5`.
pub proof fn lemma_peer_address_without_dot(server: Seq<char>)
    requires
        !server.contains('.'),
    ensures
        peer_address_of(server) == seq!['5'],
{
    lemma_split_append_plain(Seq::empty(), server, '.');
    assert(Seq::<char>::empty() + server =~= server);
    assert(split_on(Seq::<char>::empty(), '.') =~= seq![Seq::<char>::empty()]);
    assert(split_on(server, '.') =~= seq![server]);
    assert(split_on(server, '.').drop_last().push(seq!['5']) =~= seq![seq!['5']]);
}

/// The peer of a team at `a.b.c.d` is `a.b.c.5`, written out.
pub proof fn lemma_peer_of_dotted_quad(a: u8, b: u8, c: u8, d: u8)
    ensures
        peer_address_of(dotted_quad(a, b, c, d)) == decimal(a as nat) + seq!['.'] + decimal(
            b as nat,
        ) + seq!['.'] + decimal(c as nat) + seq!['.', '5'],
{
    lemma_dotted_quad_text(a, b, c, d);
    lemma_decimal_has_no_dot(d as nat);
    let prefix = decimal(a as nat) + seq!['.'] + decimal(b as nat) + seq!['.'] + decimal(c as nat);
    assert(dotted_quad(a, b, c, d) =~= prefix + seq!['.'] + decimal(d as nat));
    lemma_peer_address_replaces_last_field(prefix, decimal(d as nat));
}

/// The credentials are three lines: the peer address, a slash and the prefix
/// length in decimal; the interface's host key; the interface's port.
pub proof fn lemma_credentials_lines(peer: Seq<char>, prefix: u8, interface: InterfaceDataView)
    ensures
        credentials_text(peer, prefix, interface) == peer + seq!['/'] + decimal(prefix as nat)
            + seq!['\n'] + interface.host_public_key + seq!['\n'] + interface.port,
{
    let f = seq![peer + seq!['/'] + decimal(prefix as nat), interface.host_public_key, interface.port];
    assert(f.drop_last() =~= seq![peer + seq!['/'] + decimal(prefix as nat), interface.host_public_key]);
    assert(f.drop_last().drop_last() =~= seq![peer + seq!['/'] + decimal(prefix as nat)]);
    reveal_with_fuel(join_with, 3);
    assert(credentials_text(peer, prefix, interface) =~= peer + seq!['/'] + decimal(prefix as nat)
        + seq!['\n'] + interface.host_public_key + seq!['\n'] + interface.port);
}

/// The command that adds a peer names the program `sudo`, runs `wg set` on
/// the interface given, and allows the peer's key exactly the given address.
pub proof fn lemma_add_peer_command_fields(interface: Seq<char>, key: Seq<char>, peer_ip: Seq<char>)
    ensures
        add_peer_command(interface, key, peer_ip).len() == 8,
        add_peer_command(interface, key, peer_ip)[0] == "sudo"@,
        add_peer_command(interface, key, peer_ip)[1] == "wg"@,
        add_peer_command(interface, key, peer_ip)[2] == "set"@,
        add_peer_command(interface, key, peer_ip)[3] == interface,
        add_peer_command(interface, key, peer_ip)[4] == "peer"@,
        add_peer_command(interface, key, peer_ip)[5] == key,
        add_peer_command(interface, key, peer_ip)[6] == "allowed-ips"@,
        add_peer_command(interface, key, peer_ip)[7] == peer_ip + "/32"@,
{
}

/// The command that removes a peer runs `wg set` on the interface given and
/// removes exactly the given key.
pub proof fn lemma_remove_peer_command_fields(interface: Seq<char>, key: Seq<char>)
    ensures
        remove_peer_command(interface, key).len() == 7,
        remove_peer_command(interface, key)[0] == "sudo"@,
        remove_peer_command(interface, key)[1] == "wg"@,
        remove_peer_command(interface, key)[2] == "set"@,
        remove_peer_command(interface, key)[3] == interface,
        remove_peer_command(interface, key)[4] == "peer"@,
        remove_peer_command(interface, key)[5] == key,
        remove_peer_command(interface, key)[6] == "remove"@,
{
}

} // verus!
