//! IP addresses and networks as plain numbers, and the texts that name them.

use vstd::arithmetic::power2;
use vstd::prelude::*;

use crate::text;

verus! {

/// An IP address by its value: `1.2.3.4` is `V4(0x01020304)`.
#[derive(Clone, Copy, Debug, PartialEq, Eq, Hash, Structural)]
pub enum IpAddr {
    V4(u32),
    V6(u128),
}

/// An IP network: an address and the number of its leading bits that all members share.
#[derive(Clone, Copy, Debug, PartialEq, Eq, Hash, Structural)]
#[allow(inconsistent_fields)]
pub enum IpNet {
    V4 { addr: u32, prefix_len: u8 },
    V6 { addr: u128, prefix_len: u8 },
}

/// The IPv4 addresses that share the first `prefix_len` bits of `addr`.
pub open spec fn ipv4_block(addr: u32, prefix_len: u8) -> Set<u32> {
    Set::new(
        |a: u32|
            a as nat / power2::pow2((32 - prefix_len) as nat) == addr as nat / power2::pow2(
                (32 - prefix_len) as nat,
            ),
    )
}

/// The IPv6 addresses that share the first `prefix_len` bits of `addr`.
pub open spec fn ipv6_block(addr: u128, prefix_len: u8) -> Set<u128> {
    Set::new(
        |a: u128|
            a as nat / power2::pow2((128 - prefix_len) as nat) == addr as nat / power2::pow2(
                (128 - prefix_len) as nat,
            ),
    )
}

impl IpNet {
    /// The prefix is no longer than an address.
    pub open spec fn wf(self) -> bool {
        match self {
            IpNet::V4 { addr, prefix_len } => prefix_len <= 32,
            IpNet::V6 { addr, prefix_len } => prefix_len <= 128,
        }
    }

    /// The addresses of the network.
    pub open spec fn contains(self, a: IpAddr) -> bool {
        match (self, a) {
            (IpNet::V4 { addr, prefix_len }, IpAddr::V4(x)) => ipv4_block(
                addr,
                prefix_len,
            ).contains(x),
            (IpNet::V6 { addr, prefix_len }, IpAddr::V6(x)) => ipv6_block(
                addr,
                prefix_len,
            ).contains(x),
            _ => false,
        }
    }

    /// The address that the network is written with.
    pub open spec fn base(self) -> IpAddr {
        match self {
            IpNet::V4 { addr, prefix_len } => IpAddr::V4(addr),
            IpNet::V6 { addr, prefix_len } => IpAddr::V6(addr),
        }
    }

    /// The whole address is prefix: the network holds one address.
    pub open spec fn is_single(self) -> bool {
        match self {
            IpNet::V4 { addr, prefix_len } => prefix_len == 32,
            IpNet::V6 { addr, prefix_len } => prefix_len == 128,
        }
    }

    /// No bit of the address beyond the prefix is set.
    pub open spec fn host_bits_clear(self) -> bool {
        match self {
            IpNet::V4 { addr, prefix_len } => addr as nat % power2::pow2((32 - prefix_len) as nat)
                == 0,
            IpNet::V6 { addr, prefix_len } => addr as nat % power2::pow2((128 - prefix_len) as nat)
                == 0,
        }
    }

    /// Whether no bit of the address beyond the prefix is set.
    pub fn has_clear_host_bits(&self) -> (r: bool)
        requires
            self.wf(),
        ensures
            r == self.host_bits_clear(),
    {
        match *self {
            IpNet::V4 { addr, prefix_len } => divides_pow2(addr as u128, 32 - prefix_len),
            IpNet::V6 { addr, prefix_len } => divides_pow2(addr, 128 - prefix_len),
        }
    }
}

/// A network of one address holds that address and no other.
pub proof fn lemma_single_network(net: IpNet, a: IpAddr)
    requires
        net.is_single(),
    ensures
        net.contains(a) <==> a == net.base(),
{
    power2::lemma2_to64();
    match (net, a) {
        (IpNet::V4 { addr, prefix_len }, IpAddr::V4(x)) => {
            assert(power2::pow2((32 - prefix_len) as nat) == 1);
            assert(x as nat / 1 == x as nat && addr as nat / 1 == addr as nat);
        },
        (IpNet::V6 { addr, prefix_len }, IpAddr::V6(x)) => {
            assert(power2::pow2((128 - prefix_len) as nat) == 1);
            assert(x as nat / 1 == x as nat && addr as nat / 1 == addr as nat);
        },
        _ => {},
    }
}

proof fn lemma_halves(x: nat, m: nat)
    requires
        m > 0,
    ensures
        x % (2 * m) == 0 <==> x % 2 == 0 && (x / 2) % m == 0,
{
    assert(x % (2 * m) == x % 2 + 2 * ((x / 2) % m)) by {
        vstd::arithmetic::div_mod::lemma_mod_breakdown(x as int, 2, m as int);
    }
}

/// Whether `2^shift` divides `x`.
fn divides_pow2(x: u128, shift: u8) -> (r: bool)
    ensures
        r == (x as nat % power2::pow2(shift as nat) == 0),
    decreases shift,
{
    proof {
        power2::lemma2_to64();
    }
    if shift == 0 {
        true
    } else {
        proof {
            power2::lemma_pow2_unfold(shift as nat);
            power2::lemma_pow2_pos((shift - 1) as nat);
            lemma_halves(x as nat, power2::pow2((shift - 1) as nat));
        }
        x % 2 == 0 && divides_pow2(x / 2, shift - 1)
    }
}

/// The address that a text names, as `core::net::IpAddr` reads it.
pub uninterp spec fn ip_addr_of_text(s: Seq<char>) -> Option<IpAddr>;

/// `str::parse::<core::net::IpAddr>`: the address that the text names, by its value. Which texts
/// name an address is left to the name `ip_addr_of_text`.
#[verifier::external_body]
fn read_ip_addr(s: &str) -> (r: Option<IpAddr>)
    ensures
        r == ip_addr_of_text(s@),
{
    match s.parse::<core::net::IpAddr>() {
        Ok(core::net::IpAddr::V4(a)) => Some(IpAddr::V4(u32::from(a))),
        Ok(core::net::IpAddr::V6(a)) => Some(IpAddr::V6(u128::from(a))),
        Err(_) => None,
    }
}

/// The text of an address, as `core::net::IpAddr` writes it.
pub uninterp spec fn text_of_ip_addr(a: IpAddr) -> Seq<char>;

/// `core::net::IpAddr::to_string`: the usual notation of an address, which is left to the name
/// `text_of_ip_addr`.
#[verifier::external_body]
pub(crate) fn ip_addr_text(a: IpAddr) -> (r: String)
    ensures
        r@ == text_of_ip_addr(a),
{
    match a {
        IpAddr::V4(x) => core::net::IpAddr::V4(x.into()).to_string(),
        IpAddr::V6(x) => core::net::IpAddr::V6(x.into()).to_string(),
    }
}

/// The network that a text in CIDR notation names, as `ipnet::IpNet` reads it.
pub uninterp spec fn ip_net_of_text(s: Seq<char>) -> Option<IpNet>;

/// `str::parse::<ipnet::IpNet>`: the network that an `address/prefix` text names. The prefix is
/// within the width of the address, and is the number that the text ends with. Which texts name
/// a network is otherwise left to the name `ip_net_of_text`.
#[verifier::external_body]
fn read_ip_net(s: &str) -> (r: Option<IpNet>)
    ensures
        r == ip_net_of_text(s@),
        r matches Some(net) ==> net.wf(),
        r matches Some(IpNet::V4 { addr, prefix_len }) ==> "/32"@.is_suffix_of(s@) ==> prefix_len
            == 32,
        r matches Some(IpNet::V6 { addr, prefix_len }) ==> "/128"@.is_suffix_of(s@) ==> prefix_len
            == 128,
{
    match s.parse::<ipnet::IpNet>() {
        Ok(ipnet::IpNet::V4(n)) => Some(
            IpNet::V4 { addr: n.addr().into(), prefix_len: n.prefix_len() },
        ),
        Ok(ipnet::IpNet::V6(n)) => Some(
            IpNet::V6 { addr: n.addr().into(), prefix_len: n.prefix_len() },
        ),
        Err(_) => None,
    }
}

/// The address that some bytes name, where they are UTF-8 and the text names one.
pub open spec fn ip_addr_of_bytes(bytes: Seq<u8>) -> Option<IpAddr> {
    if vstd::utf8::valid_utf8(bytes) {
        ip_addr_of_text(vstd::utf8::decode_utf8(bytes))
    } else {
        None
    }
}

/// `[` in ASCII.
pub const OPEN_BRACKET: u8 = 0x5b;

/// `]` in ASCII.
pub const CLOSE_BRACKET: u8 = 0x5d;

/// `:` in ASCII.
pub const COLON: u8 = 0x3a;

/// The bytes begin with `[`.
pub open spec fn opens_bracket(bytes: Seq<u8>) -> bool {
    bytes.len() > 0 && bytes[0] == OPEN_BRACKET
}

/// The bytes between a leading `[` and the first `]`, where there is such a pair and nothing but a
/// colon and what follows it comes after.
pub open spec fn in_brackets(bytes: Seq<u8>) -> Option<Seq<u8>> {
    let close = text::first_index(bytes, CLOSE_BRACKET) as int;
    if opens_bracket(bytes) && close < bytes.len() && (close + 1 == bytes.len() || bytes[close + 1]
        == COLON) {
        Some(bytes.subrange(1, close))
    } else {
        None
    }
}

/// The address of a peer, out of the addresses that the parts of its text name: `part` is what
/// stands in brackets or before the first colon, and `whole` is all of it. Only an IPv6 address
/// stands in brackets.
pub open spec fn chosen_peer_address(
    bracketed: bool,
    part: Option<IpAddr>,
    whole: Option<IpAddr>,
) -> Option<IpAddr> {
    match part {
        Some(IpAddr::V6(a)) => Some(IpAddr::V6(a)),
        Some(IpAddr::V4(a)) => if bracketed {
            None
        } else {
            Some(IpAddr::V4(a))
        },
        None => if bracketed {
            None
        } else {
            whole
        },
    }
}

/// The address of a peer given as `address:port` or as an address alone. An IPv6 address with a
/// port stands in brackets, and may stand in them alone. What follows the colon is not looked at.
pub open spec fn peer_address(bytes: Seq<u8>) -> Option<IpAddr> {
    if opens_bracket(bytes) {
        match in_brackets(bytes) {
            Some(inner) => chosen_peer_address(true, ip_addr_of_bytes(inner), None),
            None => None,
        }
    } else {
        chosen_peer_address(
            false,
            ip_addr_of_bytes(bytes.take(text::first_index(bytes, COLON) as int)),
            ip_addr_of_bytes(bytes),
        )
    }
}

/// The address of a peer, out of the addresses that the parts of its text name.
pub fn choose_peer_address(
    bracketed: bool,
    part: Option<IpAddr>,
    whole: Option<IpAddr>,
) -> (r: Option<IpAddr>)
    ensures
        r == chosen_peer_address(bracketed, part, whole),
{
    match part {
        Some(IpAddr::V6(a)) => Some(IpAddr::V6(a)),
        Some(IpAddr::V4(a)) => if bracketed {
            None
        } else {
            Some(IpAddr::V4(a))
        },
        None => if bracketed {
            None
        } else {
            whole
        },
    }
}

fn read_ip_bytes(bytes: &[u8]) -> (r: Option<IpAddr>)
    ensures
        r == ip_addr_of_bytes(bytes@),
{
    match text::decode_text(bytes) {
        Some(s) => read_ip_addr(s.as_str()),
        None => None,
    }
}

/// The address of a peer out of the bytes of its `address:port` text.
pub fn parse_ip_from_bytes(bytes: &[u8]) -> (r: Option<IpAddr>)
    ensures
        r == peer_address(bytes@),
{
    proof {
        text::lemma_first_index(bytes@, CLOSE_BRACKET);
        text::lemma_first_index(bytes@, COLON);
    }
    if bytes.len() > 0 && bytes[0] == OPEN_BRACKET {
        let close: usize = text::find_byte(bytes, CLOSE_BRACKET);
        if close >= bytes.len() || (close + 1 < bytes.len() && bytes[close + 1] != COLON) {
            return None;
        }
        let inner: Option<IpAddr> = read_ip_bytes(vstd::slice::slice_subrange(bytes, 1, close));
        return choose_peer_address(true, inner, None);
    }
    let colon: usize = text::find_byte(bytes, COLON);
    let host: Option<IpAddr> = read_ip_bytes(vstd::slice::slice_subrange(bytes, 0, colon));
    choose_peer_address(false, host, read_ip_bytes(bytes))
}

/// Why a text names no network.
#[derive(Clone, Copy, Debug, PartialEq, Eq, Structural)]
pub enum IpParseError {
    /// The text is neither an address nor a network.
    Syntax,
    /// The address has bits set beyond the prefix.
    HostBits,
}

/// A network read from CIDR notation, if it was one and has no host bits.
pub open spec fn checked_network(parsed: Option<IpNet>) -> Result<IpNet, IpParseError> {
    match parsed {
        Some(net) => if net.host_bits_clear() {
            Ok(net)
        } else {
            Err(IpParseError::HostBits)
        },
        None => Err(IpParseError::Syntax),
    }
}

/// The network of a lone address: `short` is read with the suffix `/32` and `long` with `/128`.
/// The first tells the two families apart, and the suffix of its family counts.
pub open spec fn address_network(short: Option<IpNet>, long: Option<IpNet>) -> Result<
    IpNet,
    IpParseError,
> {
    match (short, long) {
        (Some(IpNet::V4 { addr, prefix_len }), _) => Ok(IpNet::V4 { addr, prefix_len }),
        (Some(IpNet::V6 { .. }), Some(IpNet::V6 { addr, prefix_len })) => Ok(
            IpNet::V6 { addr, prefix_len },
        ),
        _ => Err(IpParseError::Syntax),
    }
}

/// The network that a text names: with a slash, a network in CIDR notation without host bits;
/// without one, an address, which stands for the network of that address alone.
pub open spec fn network_of_text(s: Seq<char>) -> Result<IpNet, IpParseError> {
    if s.contains('/') {
        checked_network(ip_net_of_text(s))
    } else {
        address_network(ip_net_of_text(s + "/32"@), ip_net_of_text(s + "/128"@))
    }
}

/// A network read from CIDR notation, if it was one and has no host bits.
pub fn check_network(parsed: Option<IpNet>) -> (r: Result<IpNet, IpParseError>)
    requires
        parsed matches Some(net) ==> net.wf(),
    ensures
        r == checked_network(parsed),
{
    match parsed {
        Some(net) => if net.has_clear_host_bits() {
            Ok(net)
        } else {
            Err(IpParseError::HostBits)
        },
        None => Err(IpParseError::Syntax),
    }
}

/// The network of a lone address, read with the suffix of either family.
pub fn pick_address_network(short: Option<IpNet>, long: Option<IpNet>) -> (r: Result<
    IpNet,
    IpParseError,
>)
    ensures
        r == address_network(short, long),
{
    match (short, long) {
        (Some(IpNet::V4 { addr, prefix_len }), _) => Ok(IpNet::V4 { addr, prefix_len }),
        (Some(IpNet::V6 { .. }), Some(IpNet::V6 { addr, prefix_len })) => Ok(
            IpNet::V6 { addr, prefix_len },
        ),
        _ => Err(IpParseError::Syntax),
    }
}

proof fn lemma_suffix(a: Seq<char>, b: Seq<char>)
    ensures
        b.is_suffix_of(a + b),
{
    let ab = a + b;
    assert(ab.subrange(ab.len() - b.len(), ab.len() as int) =~= b);
}

/// Reads an address or a network in CIDR notation. A network comes out without host bits, and an
/// address as the network that holds it alone.
pub fn parse_ip_with_cidr(ip_str: &str) -> (r: Result<IpNet, IpParseError>)
    ensures
        r == network_of_text(ip_str@),
        r matches Ok(net) ==> net.wf() && net.host_bits_clear(),
        r matches Ok(net) ==> !ip_str@.contains('/') ==> net.is_single(),
{
    if text::contains_char(ip_str, '/') {
        return check_network(read_ip_net(ip_str));
    }
    let mut short_text: String = ip_str.to_owned();
    short_text.append("/32");
    let mut long_text: String = ip_str.to_owned();
    long_text.append("/128");
    proof {
        lemma_suffix(ip_str@, "/32"@);
        lemma_suffix(ip_str@, "/128"@);
        power2::lemma2_to64();
    }
    pick_address_network(read_ip_net(short_text.as_str()), read_ip_net(long_text.as_str()))
}

proof fn lemma_block(x: nat, addr: nat, size: nat)
    requires
        size > 0,
    ensures
        addr % size <= addr,
        x / size == addr / size <==> addr - addr % size <= x < addr - addr % size + size,
{
    let s = size as int;
    let y = x as int;
    let a = addr as int;
    let q = a / s;
    let low = s * q;
    vstd::arithmetic::div_mod::lemma_fundamental_div_mod(y, s);
    vstd::arithmetic::div_mod::lemma_fundamental_div_mod(a, s);
    vstd::arithmetic::div_mod::lemma_mod_bound(y, s);
    vstd::arithmetic::div_mod::lemma_mod_bound(a, s);
    vstd::arithmetic::div_mod::lemma_div_pos_is_pos(a, s);
    assert(low >= 0) by (nonlinear_arith)
        requires
            s > 0,
            q >= 0,
            low == s * q,
    ;
    assert(low == a - a % s);
    assert(x / size == y / s);
    assert(addr / size == q);
    assert(addr % size == a % s);
    if y / s == q {
        assert(y == low + y % s);
    }
    if low <= y < low + s {
        assert(y == q * s + (y - low)) by (nonlinear_arith)
            requires
                low == s * q,
        ;
        vstd::arithmetic::div_mod::lemma_fundamental_div_mod_converse(y, s, q, y - low);
    }
}

/// An IPv4 network with a prefix of `p` bits is a row of `2^(32 - p)` addresses one after the
/// other: the one that its own address lies in, where the rows of that length begin at nought. It
/// holds no IPv6 address.
pub proof fn law_ipv4_network_is_a_row(addr: u32, prefix_len: u8, a: IpAddr)
    requires
        prefix_len <= 32,
    ensures
        ({
            let net = IpNet::V4 { addr, prefix_len };
            let size = power2::pow2((32 - prefix_len) as nat);
            let low = addr - addr as nat % size;
            &&& net.wf()
            &&& net.contains(a) <==> (a matches IpAddr::V4(x) && low <= x < low + size)
            &&& low <= addr < low + size
        }),
{
    let size = power2::pow2((32 - prefix_len) as nat);
    power2::lemma_pow2_pos((32 - prefix_len) as nat);
    vstd::arithmetic::div_mod::lemma_mod_bound(addr as int, size as int);
    lemma_block(addr as nat, addr as nat, size);
    if let IpAddr::V4(x) = a {
        lemma_block(x as nat, addr as nat, size);
    }
}

/// An IPv6 network with a prefix of `p` bits is a row of `2^(128 - p)` addresses one after the
/// other: the one that its own address lies in, where the rows of that length begin at nought. It
/// holds no IPv4 address.
pub proof fn law_ipv6_network_is_a_row(addr: u128, prefix_len: u8, a: IpAddr)
    requires
        prefix_len <= 128,
    ensures
        ({
            let net = IpNet::V6 { addr, prefix_len };
            let size = power2::pow2((128 - prefix_len) as nat);
            let low = addr - addr as nat % size;
            &&& net.wf()
            &&& net.contains(a) <==> (a matches IpAddr::V6(x) && low <= x < low + size)
            &&& low <= addr < low + size
        }),
{
    let size = power2::pow2((128 - prefix_len) as nat);
    power2::lemma_pow2_pos((128 - prefix_len) as nat);
    vstd::arithmetic::div_mod::lemma_mod_bound(addr as int, size as int);
    lemma_block(addr as nat, addr as nat, size);
    if let IpAddr::V6(x) = a {
        lemma_block(x as nat, addr as nat, size);
    }
}

/// No prefix is longer than the addresses of its family, a network of one address is one whose
/// prefix is as long as that, and the base of a network is its own address.
pub proof fn law_network_shape(v4: u32, v6: u128, prefix_len: u8)
    ensures
        (IpNet::V4 { addr: v4, prefix_len }).wf() <==> prefix_len <= 32,
        (IpNet::V6 { addr: v6, prefix_len }).wf() <==> prefix_len <= 128,
        (IpNet::V4 { addr: v4, prefix_len }).is_single() <==> prefix_len == 32,
        (IpNet::V6 { addr: v6, prefix_len }).is_single() <==> prefix_len == 128,
        (IpNet::V4 { addr: v4, prefix_len }).base() == IpAddr::V4(v4),
        (IpNet::V6 { addr: v6, prefix_len }).base() == IpAddr::V6(v6),
{
}

/// A network has no host bits exactly where its own address is the lowest that it holds.
pub proof fn law_clear_host_bits_mean_lowest(net: IpNet)
    requires
        net.wf(),
    ensures
        net is V4 ==> (net.host_bits_clear() <==> forall|x: u32| #[trigger]
            net.contains(IpAddr::V4(x)) ==> net->V4_addr <= x),
        net is V6 ==> (net.host_bits_clear() <==> forall|x: u128| #[trigger]
            net.contains(IpAddr::V6(x)) ==> net->V6_addr <= x),
{
    match net {
        IpNet::V4 { addr, prefix_len } => {
            let size = power2::pow2((32 - prefix_len) as nat);
            let low = addr - addr as nat % size;
            power2::lemma_pow2_pos((32 - prefix_len) as nat);
            vstd::arithmetic::div_mod::lemma_mod_bound(addr as int, size as int);
            lemma_block(addr as nat, addr as nat, size);
            assert forall|x: u32| #[trigger] net.contains(IpAddr::V4(x)) implies low <= x by {
                law_ipv4_network_is_a_row(addr, prefix_len, IpAddr::V4(x));
            }
            law_ipv4_network_is_a_row(addr, prefix_len, IpAddr::V4(low as u32));
            assert(net.contains(IpAddr::V4(low as u32)));
        },
        IpNet::V6 { addr, prefix_len } => {
            let size = power2::pow2((128 - prefix_len) as nat);
            let low = addr - addr as nat % size;
            power2::lemma_pow2_pos((128 - prefix_len) as nat);
            vstd::arithmetic::div_mod::lemma_mod_bound(addr as int, size as int);
            lemma_block(addr as nat, addr as nat, size);
            assert forall|x: u128| #[trigger] net.contains(IpAddr::V6(x)) implies low <= x by {
                law_ipv6_network_is_a_row(addr, prefix_len, IpAddr::V6(x));
            }
            law_ipv6_network_is_a_row(addr, prefix_len, IpAddr::V6(low as u128));
            assert(net.contains(IpAddr::V6(low as u128)));
        },
    }
}

/// Bytes name the address that their text names, and none where they are no text.
pub proof fn law_bytes_name_what_their_text_names(bytes: Seq<u8>)
    ensures
        vstd::utf8::valid_utf8(bytes) ==> ip_addr_of_bytes(bytes) == ip_addr_of_text(
            vstd::utf8::decode_utf8(bytes),
        ),
        !vstd::utf8::valid_utf8(bytes) ==> ip_addr_of_bytes(bytes) is None,
{
}

/// A peer without brackets is at the address that stands before the first colon, whatever its
/// family and whatever follows the colon. Where what stands there names no address, the peer is at
/// the address that all of it names, if any.
pub proof fn law_peer_before_the_colon(host: Seq<u8>, port: Seq<u8>)
    requires
        !host.contains(0x3a),
        host.len() > 0 ==> host[0] != 0x5b,
    ensures
        peer_address(host) == ip_addr_of_bytes(host),
        ip_addr_of_bytes(host) is Some ==> peer_address(host + seq![0x3a] + port)
            == ip_addr_of_bytes(host),
        ip_addr_of_bytes(host) is None ==> peer_address(host + seq![0x3a] + port)
            == ip_addr_of_bytes(host + seq![0x3a] + port),
{
    text::lemma_first_index(host, 0x3au8);
    assert(host.take(host.len() as int) =~= host);
    let all = host + seq![0x3au8] + port;
    assert forall|j: int| 0 <= j < host.len() implies all[j] != 0x3a by {
        assert(all[j] == host[j]);
        assert(host.contains(host[j]));
    }
    text::lemma_first_index_is(all, 0x3au8, host.len() as int);
    assert(all.take(host.len() as int) =~= host);
    if host.len() > 0 {
        assert(all[0] == host[0]);
    }
}

/// A peer in brackets, with or without a port behind them, is at the IPv6 address between the
/// brackets, and is unknown where no such address stands there.
pub proof fn law_peer_in_brackets(inner: Seq<u8>, port: Seq<u8>)
    requires
        !inner.contains(0x5d),
    ensures
        ({
            let alone = seq![0x5bu8] + inner + seq![0x5du8];
            let with_port = alone + seq![0x3au8] + port;
            &&& ip_addr_of_bytes(inner) matches Some(IpAddr::V6(a)) ==> peer_address(alone) == Some(
                IpAddr::V6(a),
            ) && peer_address(with_port) == Some(IpAddr::V6(a))
            &&& !(ip_addr_of_bytes(inner) matches Some(IpAddr::V6(_))) ==> peer_address(
                alone,
            ) is None && peer_address(with_port) is None
        }),
{
    let alone = seq![0x5bu8] + inner + seq![0x5du8];
    let with_port = alone + seq![0x3au8] + port;
    let close = inner.len() as int + 1;
    assert forall|j: int| 0 <= j < close implies alone[j] != 0x5d && with_port[j] != 0x5d by {
        if j > 0 {
            assert(alone[j] == inner[j - 1]);
            assert(inner.contains(inner[j - 1]));
        }
        assert(with_port[j] == alone[j]);
    }
    assert(alone[close] == 0x5d);
    assert(with_port[close] == alone[close]);
    assert(with_port[close + 1] == 0x3a);
    text::lemma_first_index_is(alone, 0x5du8, close);
    text::lemma_first_index_is(with_port, 0x5du8, close);
    assert(alone.subrange(1, close) =~= inner);
    assert(with_port.subrange(1, close) =~= inner);
    assert(alone[0] == 0x5b);
    assert(with_port[0] == 0x5b);
}

/// A peer whose bracket is never closed, or is followed by something else than a colon, is unknown.
pub proof fn law_peer_with_a_broken_bracket(inner: Seq<u8>, rest: Seq<u8>)
    requires
        !inner.contains(0x5d),
        rest.len() > 0,
        rest[0] != 0x3a,
    ensures
        peer_address(seq![0x5bu8] + inner) is None,
        peer_address(seq![0x5bu8] + inner + seq![0x5du8] + rest) is None,
{
    let open = seq![0x5bu8] + inner;
    text::lemma_first_index(open, 0x5du8);
    assert(!open.contains(0x5d)) by {
        if open.contains(0x5d) {
            let j = choose|j: int| 0 <= j < open.len() && open[j] == 0x5d;
            assert(inner[j - 1] == 0x5d);
            assert(inner.contains(0x5d));
        }
    }
    assert(open[0] == 0x5b);
    let followed = open + seq![0x5du8] + rest;
    let close = open.len() as int;
    assert forall|j: int| 0 <= j < close implies followed[j] != 0x5d by {
        assert(followed[j] == open[j]);
        assert(open.contains(open[j]));
    }
    assert(followed[close] == 0x5d);
    assert(followed[close + 1] == rest[0]);
    assert(followed[0] == 0x5b);
    text::lemma_first_index_is(followed, 0x5du8, close);
}

/// A text with a slash names the network that CIDR notation makes of it, exactly where that network
/// is written with its lowest address. The two reasons against it are told apart.
pub proof fn law_text_with_a_slash(s: Seq<char>, net: IpNet)
    requires
        s.contains('/'),
    ensures
        network_of_text(s) == Ok::<IpNet, IpParseError>(net) <==> ip_net_of_text(s) == Some(net)
            && net.host_bits_clear(),
        network_of_text(s) == Err::<IpNet, IpParseError>(IpParseError::Syntax) <==> ip_net_of_text(
            s,
        ) is None,
        network_of_text(s) == Err::<IpNet, IpParseError>(IpParseError::HostBits) <==> (
        ip_net_of_text(s) matches Some(n) && !n.host_bits_clear()),
{
}

/// A text without a slash names the network that it names with the suffix of its family behind it:
/// `/32` for an IPv4 address and `/128` for an IPv6 one. Where neither gives a network, it names
/// none, for the one reason that it is no address.
pub proof fn law_text_without_a_slash(s: Seq<char>)
    requires
        !s.contains('/'),
    ensures
        ip_net_of_text(s + "/32"@) is None ==> network_of_text(s) is Err,
        ip_net_of_text(s + "/32"@) matches Some(net) ==> net is V4 ==> network_of_text(s) == Ok::<
            IpNet,
            IpParseError,
        >(net),
        ip_net_of_text(s + "/32"@) matches Some(short) ==> short is V6 ==> (match ip_net_of_text(
            s + "/128"@,
        ) {
            Some(long) => if long is V6 {
                network_of_text(s) == Ok::<IpNet, IpParseError>(long)
            } else {
                network_of_text(s) is Err
            },
            None => network_of_text(s) is Err,
        }),
        network_of_text(s) matches Err(e) ==> e == IpParseError::Syntax,
{
}

/// Out of brackets the part counts where it names an address, and all of the text otherwise; in
/// brackets only the part counts, and only where it names an IPv6 address.
pub proof fn law_choice_of_the_peer(part: Option<IpAddr>, whole: Option<IpAddr>)
    ensures
        part is Some ==> chosen_peer_address(false, part, whole) == part,
        part is None ==> chosen_peer_address(false, part, whole) == whole,
        part matches Some(IpAddr::V6(_)) ==> chosen_peer_address(true, part, whole) == part,
        !(part matches Some(IpAddr::V6(_))) ==> chosen_peer_address(true, part, whole) is None,
{
}

} // verus!
