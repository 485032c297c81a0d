//! The DHCP client: the state machine of one exchange on one
//! interface, the lease that an acknowledgement carries, and the
//! resolver configuration that goes with it.

use dhcproto::v4::{DhcpOption, Flags, HType, Message, OptionCode};
use dhcproto::{Decodable, Decoder, Encodable};
use vstd::prelude::*;
use crate::text::{
    append_chars, decimal, from_chars, parse_magnitude, magnitude_spec, push_decimal, rows,
    split_chars, split_on, to_chars, views,
};

verus! {

/// An IPv4 address, its four octets in network order.
pub type Ipv4 = [u8; 4];

/// An address in dotted decimal notation.
pub open spec fn ipv4_text(a: Seq<u8>) -> Seq<char> {
    decimal(a[0] as nat) + seq!['.'] + decimal(a[1] as nat) + seq!['.'] + decimal(a[2] as nat)
        + seq!['.'] + decimal(a[3] as nat)
}

/// Appends an address in dotted decimal notation to `out`.
pub fn push_ipv4(out: &mut Vec<char>, a: &Ipv4)
    ensures
        final(out)@ == old(out)@ + ipv4_text(a@),
{
    push_decimal(out, a[0] as u64);
    out.push('.');
    push_decimal(out, a[1] as u64);
    out.push('.');
    push_decimal(out, a[2] as u64);
    out.push('.');
    push_decimal(out, a[3] as u64);
    assert(out@ == old(out)@ + ipv4_text(a@));
}

/// Writes an address in dotted decimal notation.
pub fn ipv4_to_string(a: &Ipv4) -> (r: String)
    ensures
        r@ == ipv4_text(a@),
{
    let mut out: Vec<char> = Vec::new();
    push_ipv4(&mut out, a);
    from_chars(out.as_slice())
}

/// The octet that a field of a dotted address denotes: one to three
/// decimal digits, without a leading zero unless the field is `0`, and
/// at most 255.
pub open spec fn octet_spec(field: Seq<char>) -> Option<u8> {
    if field.len() > 3 || (field.len() > 1 && field[0] == '0') {
        None
    } else {
        match magnitude_spec(field, 10, 255) {
            Some(v) => Some(v as u8),
            None => None,
        }
    }
}

/// The address that a text in dotted decimal notation denotes: four
/// octets between dots, and nothing else.
pub open spec fn ipv4_spec(text: Seq<char>) -> Option<Seq<u8>> {
    let fields = split_on(text, '.');
    if fields.len() != 4 {
        None
    } else {
        match (
            octet_spec(fields[0]),
            octet_spec(fields[1]),
            octet_spec(fields[2]),
            octet_spec(fields[3]),
        ) {
            (Some(a), Some(b), Some(c), Some(d)) => Some(seq![a, b, c, d]),
            _ => None,
        }
    }
}

fn parse_octet(field: &[char]) -> (r: Option<u8>)
    ensures
        r == octet_spec(field@),
{
    if field.len() > 3 || (field.len() > 1 && field[0] == '0') {
        return None;
    }
    match parse_magnitude(field, 10, 255) {
        Some(v) => Some(v as u8),
        None => None,
    }
}

/// Reads an address in dotted decimal notation.
pub fn parse_ipv4(text: &str) -> (r: Option<Ipv4>)
    ensures
        match r {
            Some(a) => ipv4_spec(text@) == Some(a@),
            None => ipv4_spec(text@) is None,
        },
{
    let chars = to_chars(text);
    let fields = split_chars(chars.as_slice(), '.');
    if fields.len() != 4 {
        return None;
    }
    assert(forall|i: int| 0 <= i < 4 ==> #[trigger] rows(fields@)[i] == fields@[i]@);
    let a = match parse_octet(fields[0].as_slice()) {
        Some(v) => v,
        None => {
            return None;
        },
    };
    let b = match parse_octet(fields[1].as_slice()) {
        Some(v) => v,
        None => {
            return None;
        },
    };
    let c = match parse_octet(fields[2].as_slice()) {
        Some(v) => v,
        None => {
            return None;
        },
    };
    let d = match parse_octet(fields[3].as_slice()) {
        Some(v) => v,
        None => {
            return None;
        },
    };
    let addr: Ipv4 = [a, b, c, d];
    assert(addr@ == seq![a, b, c, d]);
    Some(addr)
}

/// The number of one bits of `n`.
pub open spec fn ones(n: nat) -> nat
    decreases n,
{
    if n == 0 {
        0
    } else {
        (n % 2) + ones(n / 2)
    }
}

/// The length of the prefix that a subnet mask stands for: the number
/// of its one bits.
pub open spec fn prefix_spec(mask: Seq<u8>) -> nat {
    ones(mask[0] as nat) + ones(mask[1] as nat) + ones(mask[2] as nat) + ones(mask[3] as nat)
}

/// An octet has at most eight one bits.
proof fn lemma_ones_bound(n: nat, bits: nat)
    requires
        n < crate::backoff::pow2(bits),
    ensures
        ones(n) <= bits,
    decreases bits,
{
    if bits == 0 {
    } else if n > 0 {
        lemma_ones_bound(n / 2, (bits - 1) as nat);
    }
}

fn count_ones(b: u8) -> (r: u8)
    ensures
        r == ones(b as nat),
        r <= 8,
{
    let mut rest: u8 = b;
    let mut count: u8 = 0;
    proof {
        assert(crate::backoff::pow2(8) == 256) by {
            reveal_with_fuel(crate::backoff::pow2, 9);
        }
        lemma_ones_bound(b as nat, 8);
    }
    while rest > 0
        invariant
            count + ones(rest as nat) == ones(b as nat),
            ones(b as nat) <= 8,
        decreases rest,
    {
        count = count + rest % 2;
        rest = rest / 2;
    }
    count
}

/// Counts the bits of a subnet mask.
pub fn subnet_mask_to_prefix(mask: &Ipv4) -> (r: u8)
    ensures
        r == prefix_spec(mask@),
        r <= 32,
{
    count_ones(mask[0]) + count_ones(mask[1]) + count_ones(mask[2]) + count_ones(mask[3])
}

/// The address of an interface and the way out of its network.
#[derive(Clone, Copy, Debug, PartialEq, Eq)]
pub struct AddressConfig {
    pub address: Ipv4,
    pub prefix_len: u8,
    pub gateway: Ipv4,
}

/// How names are resolved.
#[derive(Debug, PartialEq, Eq)]
pub struct ResolverConfig {
    pub dns_servers: Vec<Ipv4>,
    pub domain_name: Option<String>,
    pub search_list: Vec<String>,
}

impl Default for ResolverConfig {
    fn default() -> (r: Self)
        ensures
            r.dns_servers@.len() == 0,
            r.domain_name is None,
            r.search_list@.len() == 0,
    {
        ResolverConfig { dns_servers: Vec::new(), domain_name: None, search_list: Vec::new() }
    }
}

/// What a DHCP server grants.
#[derive(Debug, PartialEq, Eq)]
pub struct DhcpLease {
    pub address: AddressConfig,
    pub resolver: ResolverConfig,
}

impl DhcpLease {
    /// The invariant of a lease: its prefix is no longer than an
    /// address.
    pub open spec fn wf(&self) -> bool {
        self.address.prefix_len <= 32
    }
}

/// The words of `list` with a blank between each two.
pub open spec fn joined(list: Seq<Seq<char>>, n: nat) -> Seq<char>
    decreases n,
{
    if n == 0 {
        Seq::empty()
    } else if n == 1 {
        list[0]
    } else {
        joined(list, (n - 1) as nat) + seq![' '] + list[n - 1]
    }
}

/// The lines that name the first `n` servers.
pub open spec fn server_lines(servers: Seq<Ipv4>, n: nat) -> Seq<char>
    decreases n,
{
    if n == 0 {
        Seq::empty()
    } else {
        server_lines(servers, (n - 1) as nat) + "nameserver "@ + ipv4_text(servers[n - 1]@)
            + seq!['\n']
    }
}

/// The `domain` line of a resolver configuration, if a domain is known.
pub open spec fn domain_part(domain_name: Option<String>) -> Seq<char> {
    match domain_name {
        Some(dn) => "domain "@ + dn@ + seq!['\n'],
        None => Seq::empty(),
    }
}

/// The `search` line of a resolver configuration, if the search list is
/// not empty.
pub open spec fn search_part(search_list: Seq<String>) -> Seq<char> {
    if search_list.len() > 0 {
        "search "@ + joined(views(search_list), search_list.len()) + seq!['\n']
    } else {
        Seq::empty()
    }
}

/// The text of the resolver configuration: a `domain` line where a
/// domain is known, a `search` line where the search list is not
/// empty, and a `nameserver` line for every server.
pub open spec fn resolv_conf_spec(resolver: ResolverConfig) -> Seq<char> {
    domain_part(resolver.domain_name) + search_part(resolver.search_list@) + server_lines(
        resolver.dns_servers@,
        resolver.dns_servers@.len(),
    )
}

fn push_domain_part(out: &mut Vec<char>, domain_name: &Option<String>)
    ensures
        final(out)@ == old(out)@ + domain_part(*domain_name),
{
    match domain_name {
        Some(dn) => {
            append_chars(out, to_chars("domain ").as_slice());
            append_chars(out, to_chars(dn.as_str()).as_slice());
            out.push('\n');
            assert(out@ == old(out)@ + ("domain "@ + dn@ + seq!['\n']));
        },
        None => {
            assert(out@ == old(out)@ + Seq::<char>::empty());
        },
    }
}

fn push_search_part(out: &mut Vec<char>, search_list: &Vec<String>)
    ensures
        final(out)@ == old(out)@ + search_part(search_list@),
{
    if search_list.len() == 0 {
        assert(out@ == old(out)@ + Seq::<char>::empty());
        return ;
    }
    append_chars(out, to_chars("search ").as_slice());
    let ghost lead = out@;
    let mut i: usize = 0;
    assert(lead + Seq::<char>::empty() == lead);
    while i < search_list.len()
        invariant
            i <= search_list.len(),
            out@ == lead + joined(views(search_list@), i as nat),
        decreases search_list.len() - i,
    {
        let ghost before = out@;
        if i > 0 {
            out.push(' ');
        }
        assert(views(search_list@)[i as int] == search_list@[i as int]@);
        append_chars(out, to_chars(search_list[i].as_str()).as_slice());
        proof {
            let word = search_list@[i as int]@;
            let so_far = joined(views(search_list@), i as nat);
            if i > 0 {
                assert(out@ == lead + (so_far + seq![' '] + word));
            } else {
                assert(so_far == Seq::<char>::empty());
                assert(out@ == lead + word);
            }
        }
        i += 1;
    }
    out.push('\n');
    assert(out@ == old(out)@ + ("search "@ + joined(views(search_list@), search_list@.len())
        + seq!['\n']));
}

fn push_server_lines(out: &mut Vec<char>, servers: &Vec<Ipv4>)
    ensures
        final(out)@ == old(out)@ + server_lines(servers@, servers@.len()),
{
    let mut j: usize = 0;
    assert(old(out)@ + Seq::<char>::empty() == old(out)@);
    while j < servers.len()
        invariant
            j <= servers.len(),
            out@ == old(out)@ + server_lines(servers@, j as nat),
        decreases servers.len() - j,
    {
        let ghost before = out@;
        append_chars(out, to_chars("nameserver ").as_slice());
        push_ipv4(out, &servers[j]);
        out.push('\n');
        assert(out@ == old(out)@ + (server_lines(servers@, j as nat) + "nameserver "@ + ipv4_text(
            servers@[j as int]@,
        ) + seq!['\n']));
        j += 1;
    }
}

/// Writes the text of the resolver configuration.
pub fn resolv_conf(resolver: &ResolverConfig) -> (r: String)
    ensures
        r@ == resolv_conf_spec(*resolver),
{
    let mut out: Vec<char> = Vec::new();
    push_domain_part(&mut out, &resolver.domain_name);
    push_search_part(&mut out, &resolver.search_list);
    push_server_lines(&mut out, &resolver.dns_servers);
    assert(out@ == resolv_conf_spec(*resolver));
    from_chars(out.as_slice())
}

/// The resolver configuration to write for a lease, if any: a lease
/// without servers leaves the configuration as it is.
pub fn write_resolver_config(resolver: &ResolverConfig) -> (r: Option<String>)
    ensures
        match r {
            Some(text) => resolver.dns_servers@.len() > 0 && text@ == resolv_conf_spec(*resolver),
            None => resolver.dns_servers@.len() == 0,
        },
{
    if resolver.dns_servers.len() > 0 {
        Some(resolv_conf(resolver))
    } else {
        None
    }
}

/// The kinds of DHCP message that the client deals with.
#[derive(Clone, Copy, Debug, PartialEq, Eq, Structural)]
pub enum MessageType {
    Discover,
    Offer,
    Request,
    Ack,
    Other,
}

/// What the client reads from a message of a server.
#[derive(Debug)]
pub struct DhcpReply {
    pub xid: u32,
    pub msg_type: Option<MessageType>,
    pub yiaddr: Ipv4,
    pub server_id: Option<Ipv4>,
    pub subnet_mask: Option<Ipv4>,
    pub routers: Vec<Ipv4>,
    pub dns_servers: Vec<Ipv4>,
    pub domain_name: Option<String>,
    pub domain_search: Vec<String>,
}

/// Why an exchange failed.
#[derive(Clone, Copy, Debug, PartialEq, Eq, Structural)]
pub enum DhcpError {
    /// The offer names no server.
    NoServerId,
    /// The acknowledgement names no subnet.
    NoSubnet,
    /// The acknowledgement names no gateway.
    NoGateway,
    /// No matching message came in time.
    Timeout,
    /// The socket failed.
    Socket,
}

/// Whether `lease` is what the acknowledgement `ack` grants: the
/// address that it assigns, with the prefix of its subnet mask, its
/// first router as gateway, and its name servers, domain and search
/// list.
pub open spec fn lease_of(ack: DhcpReply, lease: DhcpLease) -> bool {
    &&& ack.subnet_mask is Some
    &&& ack.routers@.len() > 0
    &&& lease.address.address == ack.yiaddr
    &&& lease.address.prefix_len == prefix_spec(ack.subnet_mask->0@)
    &&& lease.address.gateway == ack.routers@[0]
    &&& lease.resolver.dns_servers == ack.dns_servers
    &&& lease.resolver.domain_name == ack.domain_name
    &&& lease.resolver.search_list == ack.domain_search
}

/// Reads the lease that an acknowledgement grants. It has to name a
/// subnet and a gateway.
pub fn apply_dhcp_config(ack: DhcpReply) -> (r: Result<DhcpLease, DhcpError>)
    ensures
        match r {
            Ok(lease) => lease_of(ack, lease) && lease.wf(),
            Err(e) => e == if ack.subnet_mask is None {
                DhcpError::NoSubnet
            } else {
                DhcpError::NoGateway
            } && (ack.subnet_mask is None || ack.routers@.len() == 0),
        },
{
    let subnet = match ack.subnet_mask {
        Some(mask) => mask,
        None => {
            return Err(DhcpError::NoSubnet);
        },
    };
    if ack.routers.len() == 0 {
        return Err(DhcpError::NoGateway);
    }
    let gateway = ack.routers[0];
    let prefix_len = subnet_mask_to_prefix(&subnet);
    Ok(
        DhcpLease {
            address: AddressConfig { address: ack.yiaddr, prefix_len, gateway },
            resolver: ResolverConfig {
                dns_servers: ack.dns_servers,
                domain_name: ack.domain_name,
                search_list: ack.domain_search,
            },
        },
    )
}

/// The options that a discovery asks the server for: subnet mask,
/// router, name servers, domain name and domain search list.
pub open spec fn requested_options() -> Seq<u8> {
    seq![1u8, 3u8, 6u8, 15u8, 119u8]
}

/// The largest message that the client takes, in bytes.
pub const MAX_MESSAGE_SIZE: u16 = 1500;

/// The milliseconds that the client waits for one kind of message.
pub const REPLY_TIMEOUT_MS: u64 = 10000;

/// The milliseconds that the client tries on one interface.
pub const INTERFACE_BUDGET_MS: u64 = 30000;

/// The longest wait between two exchanges on one interface, in
/// milliseconds.
pub const INTERFACE_BACKOFF_CAP_MS: u64 = 5000;

/// The longest wait between two attempts to receive, in milliseconds.
pub const REPLY_BACKOFF_CAP_MS: u64 = 1000;

/// The milliseconds after which an attempt to receive gives up.
pub const RECV_TIMEOUT_MS: u64 = 3000;

/// The port of a DHCP client.
pub const CLIENT_PORT: u16 = 68;

/// The port of a DHCP server.
pub const SERVER_PORT: u16 = 67;

/// Where an exchange stands.
#[derive(Debug)]
pub enum DhcpState {
    Init,
    DiscoverSent { xid: u32 },
    RequestSent { xid: u32, offered: Ipv4, server: Ipv4 },
    Configured,
    Failed(DhcpError),
}

/// What happens to an exchange.
#[derive(Debug)]
pub enum DhcpEvent {
    /// The exchange starts, with this transaction id.
    Enter(u32),
    /// A message came in.
    Reply(DhcpReply),
    /// No message came before the socket gave up; so many milliseconds
    /// have passed since the last message was sent.
    RecvTimeout(u64),
    /// The socket failed.
    SocketError,
}

/// What the client does next.
#[derive(Debug)]
pub enum DhcpAction {
    /// Broadcast a discovery with this transaction id, asking for
    /// `requested_options`.
    SendDiscover { xid: u32 },
    /// Broadcast a request for the offered address, naming the server.
    SendRequest { xid: u32, offered: Ipv4, server: Ipv4 },
    /// Give the interface the address and the route of the lease and
    /// write the resolver configuration.
    Apply(DhcpLease),
    /// Wait according to the backoff, then receive again.
    Backoff,
    /// Receive again.
    Receive,
    /// Do nothing: the exchange is over, or has not begun.
    Nothing,
}

/// Whether a message answers the transaction `xid` with the kind
/// `wanted`.
pub open spec fn answers(reply: DhcpReply, xid: u32, wanted: MessageType) -> bool {
    reply.xid == xid && reply.msg_type == Some(wanted)
}

/// Whether the state `after` and the action `action` follow from the
/// state `before` and the event `event`.
pub open spec fn dhcp_follows(
    before: DhcpState,
    event: DhcpEvent,
    after: DhcpState,
    action: DhcpAction,
) -> bool {
    match (before, event) {
        (DhcpState::Init, DhcpEvent::Enter(xid)) => after == (DhcpState::DiscoverSent { xid })
            && action == (DhcpAction::SendDiscover { xid }),
        (DhcpState::Init, _) => after == before && action == DhcpAction::Nothing,
        (DhcpState::Configured, _) => after == before && action == DhcpAction::Nothing,
        (DhcpState::Failed(_), _) => after == before && action == DhcpAction::Nothing,
        (_, DhcpEvent::Enter(_)) => after == before && action == DhcpAction::Nothing,
        (_, DhcpEvent::SocketError) => after == DhcpState::Failed(DhcpError::Socket) && action
            == DhcpAction::Nothing,
        (_, DhcpEvent::RecvTimeout(elapsed)) => if elapsed >= REPLY_TIMEOUT_MS {
            after == DhcpState::Failed(DhcpError::Timeout) && action == DhcpAction::Nothing
        } else {
            after == before && action == DhcpAction::Backoff
        },
        (DhcpState::DiscoverSent { xid }, DhcpEvent::Reply(reply)) => if !answers(
            reply,
            xid,
            MessageType::Offer,
        ) {
            after == before && action == DhcpAction::Receive
        } else {
            match reply.server_id {
                Some(server) => after == (DhcpState::RequestSent {
                    xid,
                    offered: reply.yiaddr,
                    server,
                }) && action == (DhcpAction::SendRequest { xid, offered: reply.yiaddr, server }),
                None => after == DhcpState::Failed(DhcpError::NoServerId) && action
                    == DhcpAction::Nothing,
            }
        },
        (DhcpState::RequestSent { xid, offered, server }, DhcpEvent::Reply(reply)) => if !answers(
            reply,
            xid,
            MessageType::Ack,
        ) {
            after == before && action == DhcpAction::Receive
        } else if reply.subnet_mask is None {
            after == DhcpState::Failed(DhcpError::NoSubnet) && action == DhcpAction::Nothing
        } else if reply.routers@.len() == 0 {
            after == DhcpState::Failed(DhcpError::NoGateway) && action == DhcpAction::Nothing
        } else {
            after == DhcpState::Configured && action is Apply && lease_of(reply, action->Apply_0)
                && action->Apply_0.wf()
        },
    }
}

/// Takes the exchange one step on: from the discovery to the request
/// when a matching offer comes, from the request to the lease when a
/// matching acknowledgement comes. Messages of another transaction or
/// kind are passed over; a wait without a message is followed by a
/// backoff until ten seconds have passed; a socket error ends the
/// exchange.
pub fn dhcp_step(state: DhcpState, event: DhcpEvent) -> (r: (DhcpState, DhcpAction))
    ensures
        dhcp_follows(state, event, r.0, r.1),
{
    match state {
        DhcpState::Init => match event {
            DhcpEvent::Enter(xid) => (
                DhcpState::DiscoverSent { xid },
                DhcpAction::SendDiscover { xid },
            ),
            _ => (DhcpState::Init, DhcpAction::Nothing),
        },
        DhcpState::Configured => (DhcpState::Configured, DhcpAction::Nothing),
        DhcpState::Failed(e) => (DhcpState::Failed(e), DhcpAction::Nothing),
        DhcpState::DiscoverSent { xid } => match event {
            DhcpEvent::Enter(_) => (DhcpState::DiscoverSent { xid }, DhcpAction::Nothing),
            DhcpEvent::SocketError => (DhcpState::Failed(DhcpError::Socket), DhcpAction::Nothing),
            DhcpEvent::RecvTimeout(elapsed) => if elapsed >= REPLY_TIMEOUT_MS {
                (DhcpState::Failed(DhcpError::Timeout), DhcpAction::Nothing)
            } else {
                (DhcpState::DiscoverSent { xid }, DhcpAction::Backoff)
            },
            DhcpEvent::Reply(reply) => {
                let matching = reply.xid == xid && match reply.msg_type {
                    Some(MessageType::Offer) => true,
                    _ => false,
                };
                if !matching {
                    (DhcpState::DiscoverSent { xid }, DhcpAction::Receive)
                } else {
                    match reply.server_id {
                        Some(server) => (
                            DhcpState::RequestSent { xid, offered: reply.yiaddr, server },
                            DhcpAction::SendRequest { xid, offered: reply.yiaddr, server },
                        ),
                        None => (DhcpState::Failed(DhcpError::NoServerId), DhcpAction::Nothing),
                    }
                }
            },
        },
        DhcpState::RequestSent { xid, offered, server } => match event {
            DhcpEvent::Enter(_) => (
                DhcpState::RequestSent { xid, offered, server },
                DhcpAction::Nothing,
            ),
            DhcpEvent::SocketError => (DhcpState::Failed(DhcpError::Socket), DhcpAction::Nothing),
            DhcpEvent::RecvTimeout(elapsed) => if elapsed >= REPLY_TIMEOUT_MS {
                (DhcpState::Failed(DhcpError::Timeout), DhcpAction::Nothing)
            } else {
                (DhcpState::RequestSent { xid, offered, server }, DhcpAction::Backoff)
            },
            DhcpEvent::Reply(reply) => {
                let matching = reply.xid == xid && match reply.msg_type {
                    Some(MessageType::Ack) => true,
                    _ => false,
                };
                if !matching {
                    (DhcpState::RequestSent { xid, offered, server }, DhcpAction::Receive)
                } else {
                    match apply_dhcp_config(reply) {
                        Ok(lease) => (DhcpState::Configured, DhcpAction::Apply(lease)),
                        Err(e) => (DhcpState::Failed(e), DhcpAction::Nothing),
                    }
                }
            },
        },
    }
}

/// What to do when an exchange has failed.
#[derive(Clone, Copy, Debug, PartialEq, Eq, Structural)]
pub enum Retry {
    /// Wait according to the backoff, open a new socket and start
    /// again.
    Again,
    /// The budget of the interface is spent.
    GiveUp,
}

/// Decides what follows a failed exchange on an interface on which the
/// client has been trying for `elapsed_ms` milliseconds.
pub fn run_dhcp_on_interface(elapsed_ms: u64) -> (r: Retry)
    ensures
        r == if elapsed_ms >= INTERFACE_BUDGET_MS {
            Retry::GiveUp
        } else {
            Retry::Again
        },
{
    if elapsed_ms >= INTERFACE_BUDGET_MS {
        Retry::GiveUp
    } else {
        Retry::Again
    }
}

/// Whether an error of the socket only says that nothing came in time.
#[derive(Clone, Copy, Debug, PartialEq, Eq, Structural)]
pub enum RecvErrorKind {
    WouldBlock,
    TimedOut,
    Other,
}

/// Whether receiving is tried again after an error of this kind.
pub fn is_error_retryable(kind: RecvErrorKind) -> (r: bool)
    ensures
        r == (kind == RecvErrorKind::WouldBlock || kind == RecvErrorKind::TimedOut),
{
    match kind {
        RecvErrorKind::WouldBlock => true,
        RecvErrorKind::TimedOut => true,
        RecvErrorKind::Other => false,
    }
}


/// The length of what stands before the options of a message.
pub const HEADER_LEN: usize = 240;

/// The code that pads the options.
pub const OPTION_PAD: u8 = 0;

/// The code that ends the options.
pub const OPTION_END: u8 = 255;

/// Whether an option with the code `code` may hold `total` bytes. The
/// options whose length is fixed by their kind must have it: rapid
/// commit holds nothing, the client network interface three bytes, the
/// four times of a bulk lease query four bytes each, and the client's
/// domain name at least its three leading bytes.
pub open spec fn length_fits(code: u8, total: int) -> bool {
    if code == 80 {
        total == 0
    } else if code == 81 {
        total >= 3
    } else if code == 94 {
        total == 3
    } else if 152 <= code <= 155 {
        total == 4
    } else {
        true
    }
}

/// Tells whether an option with the code `code` may hold `total` bytes.
pub fn option_length_fits(code: u8, total: usize) -> (r: bool)
    ensures
        r == length_fits(code, total as int),
{
    if code == 80 {
        total == 0
    } else if code == 81 {
        total >= 3
    } else if code == 94 {
        total == 3
    } else if 152 <= code && code <= 155 {
        total == 4
    } else {
        true
    }
}

/// Whether the options from `pos` on have lengths that fit, where the
/// options just before `pos` had the code `code` and held `total`
/// bytes between them (`code` is 0 where none stands open). Options
/// that follow each other with one code are one option in parts, and
/// their lengths add up. The options end at the end code, at an option
/// that is cut off, or with the bytes; an option in parts that is cut
/// off is never put together.
pub open spec fn options_fit(bytes: Seq<u8>, pos: int, code: u8, total: int) -> bool
    decreases bytes.len() - pos,
{
    if pos < 0 || pos >= bytes.len() {
        length_fits(code, total)
    } else if bytes[pos] == OPTION_END {
        length_fits(code, total)
    } else if bytes[pos] == OPTION_PAD {
        length_fits(code, total) && options_fit(bytes, pos + 1, 0, 0)
    } else if pos + 1 >= bytes.len() || pos + 2 + bytes[pos + 1] > bytes.len() {
        bytes[pos] == code || length_fits(code, total)
    } else if bytes[pos] == code {
        options_fit(bytes, pos + 2 + bytes[pos + 1], code, total + bytes[pos + 1])
    } else {
        length_fits(code, total) && options_fit(
            bytes,
            pos + 2 + bytes[pos + 1],
            bytes[pos],
            bytes[pos + 1] as int,
        )
    }
}

/// Whether every option of the message in `bytes` has a length that
/// fits its kind. Bytes too short for a message have no options.
pub open spec fn options_sized_spec(bytes: Seq<u8>) -> bool {
    bytes.len() < HEADER_LEN || options_fit(bytes, HEADER_LEN as int, 0, 0)
}

/// Walks the options of a message and tells whether each has a length
/// that fits its kind.
pub fn options_sized(bytes: &[u8]) -> (r: bool)
    ensures
        r == options_sized_spec(bytes@),
{
    if bytes.len() < HEADER_LEN {
        return true;
    }
    let mut pos: usize = HEADER_LEN;
    let mut code: u8 = 0;
    let mut total: usize = 0;
    while pos < bytes.len()
        invariant
            pos <= bytes.len(),
            total <= pos,
            options_sized_spec(bytes@) == options_fit(bytes@, pos as int, code, total as int),
        decreases bytes.len() - pos,
    {
        let c = bytes[pos];
        let fits = option_length_fits(code, total);
        if c == OPTION_END {
            return fits;
        }
        if c == OPTION_PAD {
            if !fits {
                return false;
            }
            code = 0;
            total = 0;
            pos += 1;
        } else {
            if bytes.len() - pos < 2 {
                return c == code || fits;
            }
            let n: usize = bytes[pos + 1] as usize;
            if bytes.len() - pos - 2 < n {
                return c == code || fits;
            }
            if c == code {
                total += n;
            } else {
                if !fits {
                    return false;
                }
                code = c;
                total = n;
            }
            pos += 2 + n;
        }
    }
    option_length_fits(code, total)
}

/// The transaction id of the DHCP message that `dhcproto` decodes from
/// the bytes; nothing where it decodes none.
pub uninterp spec fn dhcp_xid(bytes: Seq<u8>) -> Option<u32>;

/// The address that the message assigns to the client.
pub uninterp spec fn dhcp_yiaddr(bytes: Seq<u8>) -> Option<Seq<u8>>;

/// The code of the kind of the message, where it names its kind.
pub uninterp spec fn dhcp_msg_type(bytes: Seq<u8>) -> Option<Option<u8>>;

/// The address that the message holds in its option `code`, the subnet
/// mask or the server identifier, where it has that option.
pub uninterp spec fn dhcp_address(bytes: Seq<u8>, code: u8) -> Option<Option<Seq<u8>>>;

/// The addresses that the message holds in its option `code`, the
/// routers or the name servers; none where it lacks the option.
pub uninterp spec fn dhcp_addresses(bytes: Seq<u8>, code: u8) -> Option<Seq<Seq<u8>>>;

/// The domain name that the message holds, where it holds one.
pub uninterp spec fn dhcp_domain_name(bytes: Seq<u8>) -> Option<Option<Seq<char>>>;

/// The domains of the search list that the message holds, each as
/// text; none where it holds no list.
pub uninterp spec fn dhcp_domain_search(bytes: Seq<u8>) -> Option<Seq<Seq<char>>>;

/// The bytes that `dhcproto` encodes for a message of the kind `kind`
/// in the transaction `xid` of the client with the hardware address
/// `mac` of the type `htype`, sent with the flags `flags`: it asks for
/// the options `params` and takes messages of at most `max_size`
/// bytes.
pub uninterp spec fn dhcp_discover_bytes(
    xid: u32,
    mac: Seq<u8>,
    htype: u8,
    flags: u16,
    kind: u8,
    params: Seq<u8>,
    max_size: u16,
) -> Option<Seq<u8>>;

/// The bytes that `dhcproto` encodes for a message of the kind `kind`
/// in the transaction `xid` of the client with the hardware address
/// `mac` of the type `htype`, sent with the flags `flags`: it asks for
/// the address `offered` and names the server `server`.
pub uninterp spec fn dhcp_request_bytes(
    xid: u32,
    mac: Seq<u8>,
    htype: u8,
    flags: u16,
    kind: u8,
    offered: Seq<u8>,
    server: Seq<u8>,
    max_size: u16,
) -> Option<Seq<u8>>;

/// The octets of a list of addresses.
pub open spec fn octets(list: Seq<Ipv4>) -> Seq<Seq<u8>> {
    Seq::new(list.len(), |i: int| list[i]@)
}

/// Decodes the bytes with `Message::decode` and reads the transaction
/// id with `Message::xid`. The decoder is only called on options whose
/// lengths fit: on others it may stop the program.
#[verifier::external_body]
fn reply_xid(bytes: &[u8]) -> (r: Option<u32>)
    requires
        options_sized_spec(bytes@),
    ensures
        r == dhcp_xid(bytes@),
{
    Message::decode(&mut Decoder::new(bytes)).ok().map(|m| m.xid())
}

/// Decodes the bytes with `Message::decode` and reads the assigned
/// address with `Message::yiaddr`.
/// Options whose lengths fit are required, as for the transaction id.
#[verifier::external_body]
fn reply_yiaddr(bytes: &[u8]) -> (r: Option<Ipv4>)
    requires
        options_sized_spec(bytes@),
    ensures
        match r {
            Some(a) => dhcp_yiaddr(bytes@) == Some(a@),
            None => dhcp_yiaddr(bytes@) is None,
        },
{
    Message::decode(&mut Decoder::new(bytes)).ok().map(|m| m.yiaddr().octets())
}

/// Decodes the bytes with `Message::decode` and reads the kind of the
/// message with `DhcpOptions::msg_type`.
/// Options whose lengths fit are required, as for the transaction id.
#[verifier::external_body]
fn reply_msg_type(bytes: &[u8]) -> (r: Option<Option<u8>>)
    requires
        options_sized_spec(bytes@),
    ensures
        r == dhcp_msg_type(bytes@),
{
    Message::decode(&mut Decoder::new(bytes)).ok().map(|m| m.opts().msg_type().map(u8::from))
}

/// Decodes the bytes with `Message::decode` and reads the address of
/// the option `code` with `DhcpOptions::get`.
/// Options whose lengths fit are required, as for the transaction id.
#[verifier::external_body]
fn reply_address(bytes: &[u8], code: u8) -> (r: Option<Option<Ipv4>>)
    requires
        options_sized_spec(bytes@),
    ensures
        match r {
            Some(Some(a)) => dhcp_address(bytes@, code) == Some(Some(a@)),
            Some(None) => dhcp_address(bytes@, code) == Some(None::<Seq<u8>>),
            None => dhcp_address(bytes@, code) is None,
        },
{
    let m = Message::decode(&mut Decoder::new(bytes)).ok()?;
    Some(
        match m.opts().get(OptionCode::from(code)) {
            Some(DhcpOption::SubnetMask(a)) => Some(a.octets()),
            Some(DhcpOption::ServerIdentifier(a)) => Some(a.octets()),
            _ => None,
        },
    )
}

/// Decodes the bytes with `Message::decode` and reads the addresses of
/// the option `code` with `DhcpOptions::get`.
/// Options whose lengths fit are required, as for the transaction id.
#[verifier::external_body]
fn reply_addresses(bytes: &[u8], code: u8) -> (r: Option<Vec<Ipv4>>)
    requires
        options_sized_spec(bytes@),
    ensures
        match r {
            Some(list) => dhcp_addresses(bytes@, code) == Some(octets(list@)),
            None => dhcp_addresses(bytes@, code) is None,
        },
{
    let m = Message::decode(&mut Decoder::new(bytes)).ok()?;
    Some(
        match m.opts().get(OptionCode::from(code)) {
            Some(DhcpOption::Router(list)) => list.iter().map(|a| a.octets()).collect(),
            Some(DhcpOption::DomainNameServer(list)) => list.iter().map(|a| a.octets()).collect(),
            _ => Vec::new(),
        },
    )
}

/// Decodes the bytes with `Message::decode` and reads the domain name
/// with `DhcpOptions::get`.
/// Options whose lengths fit are required, as for the transaction id.
#[verifier::external_body]
fn reply_domain_name(bytes: &[u8]) -> (r: Option<Option<String>>)
    requires
        options_sized_spec(bytes@),
    ensures
        match r {
            Some(Some(name)) => dhcp_domain_name(bytes@) == Some(Some(name@)),
            Some(None) => dhcp_domain_name(bytes@) == Some(None::<Seq<char>>),
            None => dhcp_domain_name(bytes@) is None,
        },
{
    let m = Message::decode(&mut Decoder::new(bytes)).ok()?;
    Some(
        match m.opts().get(OptionCode::DomainName) {
            Some(DhcpOption::DomainName(name)) => Some(name.clone()),
            _ => None,
        },
    )
}

/// Decodes the bytes with `Message::decode` and reads the search list
/// with `DhcpOptions::get`, each domain written as text.
/// Options whose lengths fit are required, as for the transaction id.
#[verifier::external_body]
fn reply_domain_search(bytes: &[u8]) -> (r: Option<Vec<String>>)
    requires
        options_sized_spec(bytes@),
    ensures
        match r {
            Some(list) => dhcp_domain_search(bytes@) == Some(views(list@)),
            None => dhcp_domain_search(bytes@) is None,
        },
{
    let m = Message::decode(&mut Decoder::new(bytes)).ok()?;
    Some(
        match m.opts().get(OptionCode::DomainSearch) {
            Some(DhcpOption::DomainSearch(list)) => list.iter().map(|n| n.to_string()).collect(),
            _ => Vec::new(),
        },
    )
}

/// Builds a message with `Message::new_with_id` and the setters of
/// `Message`, with the options message type, parameter request list
/// and maximum message size, and encodes it with `Encodable::to_vec`.
#[verifier::external_body]
fn encode_discover(
    xid: u32,
    mac: &[u8; 6],
    htype: u8,
    flags: u16,
    kind: u8,
    params: &Vec<u8>,
    max_size: u16,
) -> (r: Option<Vec<u8>>)
    ensures
        match r {
            Some(bytes) => dhcp_discover_bytes(xid, mac@, htype, flags, kind, params@, max_size)
                == Some(bytes@),
            None => dhcp_discover_bytes(xid, mac@, htype, flags, kind, params@, max_size) is None,
        },
{
    let zero = [0u8; 4];
    let mut m = Message::new_with_id(xid, zero.into(), zero.into(), zero.into(), zero.into(), mac);
    m.set_htype(HType::from(htype)).set_flags(Flags::from(flags));
    m.opts_mut().insert(DhcpOption::MessageType(dhcproto::v4::MessageType::from(kind)));
    let codes = params.iter().map(|c| OptionCode::from(*c)).collect();
    m.opts_mut().insert(DhcpOption::ParameterRequestList(codes));
    m.opts_mut().insert(DhcpOption::MaxMessageSize(max_size));
    m.to_vec().ok()
}

/// Builds a message with `Message::new_with_id` and the setters of
/// `Message`, with the options message type, requested address, server
/// identifier and maximum message size, and encodes it with
/// `Encodable::to_vec`.
#[verifier::external_body]
fn encode_request(
    xid: u32,
    mac: &[u8; 6],
    htype: u8,
    flags: u16,
    kind: u8,
    offered: &Ipv4,
    server: &Ipv4,
    max_size: u16,
) -> (r: Option<Vec<u8>>)
    ensures
        match r {
            Some(bytes) => dhcp_request_bytes(
                xid,
                mac@,
                htype,
                flags,
                kind,
                offered@,
                server@,
                max_size,
            ) == Some(bytes@),
            None => dhcp_request_bytes(xid, mac@, htype, flags, kind, offered@, server@, max_size)
                is None,
        },
{
    let zero = [0u8; 4];
    let mut m = Message::new_with_id(xid, zero.into(), zero.into(), zero.into(), zero.into(), mac);
    m.set_htype(HType::from(htype)).set_flags(Flags::from(flags));
    m.opts_mut().insert(DhcpOption::MessageType(dhcproto::v4::MessageType::from(kind)));
    m.opts_mut().insert(DhcpOption::RequestedIpAddress((*offered).into()));
    m.opts_mut().insert(DhcpOption::ServerIdentifier((*server).into()));
    m.opts_mut().insert(DhcpOption::MaxMessageSize(max_size));
    m.to_vec().ok()
}

/// The kind of message that a code stands for.
pub open spec fn message_type_spec(code: u8) -> MessageType {
    if code == 1 {
        MessageType::Discover
    } else if code == 2 {
        MessageType::Offer
    } else if code == 3 {
        MessageType::Request
    } else if code == 5 {
        MessageType::Ack
    } else {
        MessageType::Other
    }
}

/// Tells the kind of message that a code stands for.
pub fn message_type_of(code: u8) -> (r: MessageType)
    ensures
        r == message_type_spec(code),
{
    if code == 1 {
        MessageType::Discover
    } else if code == 2 {
        MessageType::Offer
    } else if code == 3 {
        MessageType::Request
    } else if code == 5 {
        MessageType::Ack
    } else {
        MessageType::Other
    }
}

/// The code of the option that holds the subnet mask.
pub const OPTION_SUBNET_MASK: u8 = 1;

/// The code of the option that holds the routers.
pub const OPTION_ROUTER: u8 = 3;

/// The code of the option that holds the name servers.
pub const OPTION_DOMAIN_NAME_SERVER: u8 = 6;

/// The code of the option that holds the domain name.
pub const OPTION_DOMAIN_NAME: u8 = 15;

/// The code of the option that names the server.
pub const OPTION_SERVER_IDENTIFIER: u8 = 54;

/// The code of the option that holds the domain search list.
pub const OPTION_DOMAIN_SEARCH: u8 = 119;

/// Whether `reply` is what the message in `bytes` says to the client.
pub open spec fn reply_of(bytes: Seq<u8>, reply: DhcpReply) -> bool {
    &&& options_sized_spec(bytes)
    &&& dhcp_xid(bytes) == Some(reply.xid)
    &&& dhcp_yiaddr(bytes) == Some(reply.yiaddr@)
    &&& dhcp_msg_type(bytes) is Some
    &&& reply.msg_type == match dhcp_msg_type(bytes)->0 {
        Some(code) => Some(message_type_spec(code)),
        None => None,
    }
    &&& dhcp_address(bytes, OPTION_SERVER_IDENTIFIER) is Some
    &&& dhcp_address(bytes, OPTION_SERVER_IDENTIFIER)->0 == match reply.server_id {
        Some(a) => Some(a@),
        None => None,
    }
    &&& dhcp_address(bytes, OPTION_SUBNET_MASK) is Some
    &&& dhcp_address(bytes, OPTION_SUBNET_MASK)->0 == match reply.subnet_mask {
        Some(a) => Some(a@),
        None => None,
    }
    &&& dhcp_addresses(bytes, OPTION_ROUTER) == Some(octets(reply.routers@))
    &&& dhcp_addresses(bytes, OPTION_DOMAIN_NAME_SERVER) == Some(octets(reply.dns_servers@))
    &&& dhcp_domain_name(bytes) == Some(crate::text::opt_view(reply.domain_name))
    &&& dhcp_domain_search(bytes) == Some(views(reply.domain_search@))
}

/// Whether the bytes hold a message that the client can read: one
/// whose options have lengths that fit and that `dhcproto` decodes.
pub open spec fn readable(bytes: Seq<u8>) -> bool {
    &&& options_sized_spec(bytes)
    &&& dhcp_xid(bytes) is Some
    &&& dhcp_yiaddr(bytes) is Some
    &&& dhcp_msg_type(bytes) is Some
    &&& dhcp_address(bytes, OPTION_SERVER_IDENTIFIER) is Some
    &&& dhcp_address(bytes, OPTION_SUBNET_MASK) is Some
    &&& dhcp_addresses(bytes, OPTION_ROUTER) is Some
    &&& dhcp_addresses(bytes, OPTION_DOMAIN_NAME_SERVER) is Some
    &&& dhcp_domain_name(bytes) is Some
    &&& dhcp_domain_search(bytes) is Some
}

/// Reads what a message that was received says to the client. Bytes
/// that are no message, or a message with an option of a length that
/// does not fit its kind, give nothing; the client passes them over.
pub fn wait_for_dhcp_message(bytes: &[u8]) -> (r: Option<DhcpReply>)
    ensures
        match r {
            Some(reply) => reply_of(bytes@, reply),
            None => !readable(bytes@),
        },
{
    if !options_sized(bytes) {
        return None;
    }
    let xid = match reply_xid(bytes) {
        Some(v) => v,
        None => {
            return None;
        },
    };
    let yiaddr = match reply_yiaddr(bytes) {
        Some(v) => v,
        None => {
            return None;
        },
    };
    let msg_type = match reply_msg_type(bytes) {
        Some(Some(code)) => Some(message_type_of(code)),
        Some(None) => None,
        None => {
            return None;
        },
    };
    let server_id = match reply_address(bytes, OPTION_SERVER_IDENTIFIER) {
        Some(v) => v,
        None => {
            return None;
        },
    };
    let subnet_mask = match reply_address(bytes, OPTION_SUBNET_MASK) {
        Some(v) => v,
        None => {
            return None;
        },
    };
    let routers = match reply_addresses(bytes, OPTION_ROUTER) {
        Some(v) => v,
        None => {
            return None;
        },
    };
    let dns_servers = match reply_addresses(bytes, OPTION_DOMAIN_NAME_SERVER) {
        Some(v) => v,
        None => {
            return None;
        },
    };
    let domain_name = match reply_domain_name(bytes) {
        Some(v) => v,
        None => {
            return None;
        },
    };
    let domain_search = match reply_domain_search(bytes) {
        Some(v) => v,
        None => {
            return None;
        },
    };
    Some(
        DhcpReply {
            xid,
            msg_type,
            yiaddr,
            server_id,
            subnet_mask,
            routers,
            dns_servers,
            domain_name,
            domain_search,
        },
    )
}

/// The hardware type of Ethernet.
pub const HTYPE_ETHERNET: u8 = 1;

/// The flags of a message whose answer is to be broadcast.
pub const FLAGS_BROADCAST: u16 = 0x8000;

/// The code of the kind of message that looks for servers.
pub const KIND_DISCOVER: u8 = 1;

/// The code of the kind of message that asks for an offered address.
pub const KIND_REQUEST: u8 = 3;

/// The bytes of the discovery for the transaction `xid` of the client
/// `mac`: a discovery on Ethernet, to be answered by broadcast, that
/// asks for the requested options.
pub open spec fn discover_spec(xid: u32, mac: Seq<u8>) -> Option<Seq<u8>> {
    dhcp_discover_bytes(
        xid,
        mac,
        HTYPE_ETHERNET,
        FLAGS_BROADCAST,
        KIND_DISCOVER,
        requested_options(),
        MAX_MESSAGE_SIZE,
    )
}

/// The bytes of the request of the client `mac` for the address
/// `offered` by the server `server`: a request on Ethernet, to be
/// answered by broadcast.
pub open spec fn request_spec(xid: u32, mac: Seq<u8>, offered: Seq<u8>, server: Seq<u8>) -> Option<
    Seq<u8>,
> {
    dhcp_request_bytes(
        xid,
        mac,
        HTYPE_ETHERNET,
        FLAGS_BROADCAST,
        KIND_REQUEST,
        offered,
        server,
        MAX_MESSAGE_SIZE,
    )
}

/// Makes the discovery to broadcast for the transaction `xid`: it asks
/// for the subnet mask, the router, the name servers, the domain name
/// and the domain search list.
pub fn send_dhcpdiscover(xid: u32, mac: &[u8; 6]) -> (r: Option<Vec<u8>>)
    ensures
        match r {
            Some(bytes) => discover_spec(xid, mac@) == Some(bytes@),
            None => discover_spec(xid, mac@) is None,
        },
{
    let mut params: Vec<u8> = Vec::new();
    params.push(OPTION_SUBNET_MASK);
    params.push(OPTION_ROUTER);
    params.push(OPTION_DOMAIN_NAME_SERVER);
    params.push(OPTION_DOMAIN_NAME);
    params.push(OPTION_DOMAIN_SEARCH);
    assert(params@ == requested_options());
    encode_discover(
        xid,
        mac,
        HTYPE_ETHERNET,
        FLAGS_BROADCAST,
        KIND_DISCOVER,
        &params,
        MAX_MESSAGE_SIZE,
    )
}

/// Makes the request to broadcast for the address `offered` by the
/// server `server` in the transaction `xid`.
pub fn send_dhcprequest(xid: u32, mac: &[u8; 6], offered: &Ipv4, server: &Ipv4) -> (r: Option<
    Vec<u8>,
>)
    ensures
        match r {
            Some(bytes) => request_spec(xid, mac@, offered@, server@) == Some(bytes@),
            None => request_spec(xid, mac@, offered@, server@) is None,
        },
{
    encode_request(
        xid,
        mac,
        HTYPE_ETHERNET,
        FLAGS_BROADCAST,
        KIND_REQUEST,
        offered,
        server,
        MAX_MESSAGE_SIZE,
    )
}

} // verus!
