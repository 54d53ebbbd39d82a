//! The bans of a filter: single addresses in a hash set, networks in two radix tries.

use vstd::prelude::*;

use crate::message::BanMessage;
use crate::message;
use crate::net::{IpAddr, IpNet};
use crate::net;
use crate::text;

verus! {

/// The hasher behind `rustc_hash::FxHashSet`.
#[verifier::external_type_specification]
#[verifier::external_body]
pub struct ExFxBuildHasher(rustc_hash::FxBuildHasher);

/// An address as the key of a hash set: whether it is an IPv6 address, and its value.
type AddrKey = (bool, u128);

/// `rustc_hash::FxHashSet::contains`: whether the key is in the set.
#[verifier::external_body]
fn set_contains(s: &rustc_hash::FxHashSet<AddrKey>, k: AddrKey) -> (r: bool)
    ensures
        r == s@.contains(k),
{
    s.contains(&k)
}

/// `rustc_hash::FxHashSet::insert`: the set with the key in it.
#[verifier::external_body]
fn set_insert(s: &mut rustc_hash::FxHashSet<AddrKey>, k: AddrKey)
    ensures
        final(s)@ == old(s)@.insert(k),
{
    s.insert(k);
}

/// `rustc_hash::FxHashSet::remove`: the set without the key.
#[verifier::external_body]
fn set_remove(s: &mut rustc_hash::FxHashSet<AddrKey>, k: AddrKey)
    ensures
        final(s)@ == old(s)@.remove(k),
{
    s.remove(&k);
}

/// A set of IPv4 networks: `iprange::IpRange<ipnet::Ipv4Net>`.
#[verifier::external_body]
pub struct Ipv4Ranges {
    ranges: iprange::IpRange<ipnet::Ipv4Net>,
}

/// The addresses that the networks of an `iprange::IpRange<ipnet::Ipv4Net>` cover.
pub uninterp spec fn ipv4_covered(r: Ipv4Ranges) -> Set<u32>;

/// `iprange::IpRange::new`: covers nothing.
#[verifier::external_body]
fn ipv4_ranges_new() -> (r: Ipv4Ranges)
    ensures
        ipv4_covered(r) == Set::<u32>::empty(),
{
    Ipv4Ranges { ranges: iprange::IpRange::new() }
}

/// `iprange::IpRange::contains`: whether some network of the set holds the address.
#[verifier::external_body]
fn ipv4_ranges_contains(r: &Ipv4Ranges, addr: u32) -> (b: bool)
    ensures
        b == ipv4_covered(*r).contains(addr),
{
    r.ranges.contains(&addr)
}

/// `iprange::IpRange::add`: covers the addresses of the network from now on. Only the leading
/// `prefix_len` bits of `addr` count.
#[verifier::external_body]
fn ipv4_ranges_add(r: &mut Ipv4Ranges, addr: u32, prefix_len: u8)
    requires
        prefix_len <= 32,
    ensures
        ipv4_covered(*final(r)) == ipv4_covered(*old(r)).union(net::ipv4_block(addr, prefix_len)),
{
    r.ranges.add(ipnet::Ipv4Net::new_assert(addr.into(), prefix_len));
}

/// `iprange::IpRange::remove`: covers no address of the network from now on; larger networks are
/// split and smaller ones go. Only the leading `prefix_len` bits of `addr` count.
#[verifier::external_body]
fn ipv4_ranges_remove(r: &mut Ipv4Ranges, addr: u32, prefix_len: u8)
    requires
        prefix_len <= 32,
    ensures
        ipv4_covered(*final(r)) == ipv4_covered(*old(r)).difference(
            net::ipv4_block(addr, prefix_len),
        ),
{
    r.ranges.remove(ipnet::Ipv4Net::new_assert(addr.into(), prefix_len));
}

/// A set of IPv6 networks: `iprange::IpRange<ipnet::Ipv6Net>`.
#[verifier::external_body]
pub struct Ipv6Ranges {
    ranges: iprange::IpRange<ipnet::Ipv6Net>,
}

/// The addresses that the networks of an `iprange::IpRange<ipnet::Ipv6Net>` cover.
pub uninterp spec fn ipv6_covered(r: Ipv6Ranges) -> Set<u128>;

/// `iprange::IpRange::new`: covers nothing.
#[verifier::external_body]
fn ipv6_ranges_new() -> (r: Ipv6Ranges)
    ensures
        ipv6_covered(r) == Set::<u128>::empty(),
{
    Ipv6Ranges { ranges: iprange::IpRange::new() }
}

/// `iprange::IpRange::contains`: whether some network of the set holds the address.
#[verifier::external_body]
fn ipv6_ranges_contains(r: &Ipv6Ranges, addr: u128) -> (b: bool)
    ensures
        b == ipv6_covered(*r).contains(addr),
{
    r.ranges.contains(&addr)
}

/// `iprange::IpRange::add`: covers the addresses of the network from now on. Only the leading
/// `prefix_len` bits of `addr` count.
#[verifier::external_body]
fn ipv6_ranges_add(r: &mut Ipv6Ranges, addr: u128, prefix_len: u8)
    requires
        prefix_len <= 128,
    ensures
        ipv6_covered(*final(r)) == ipv6_covered(*old(r)).union(net::ipv6_block(addr, prefix_len)),
{
    r.ranges.add(ipnet::Ipv6Net::new_assert(addr.into(), prefix_len));
}

/// `iprange::IpRange::remove`: covers no address of the network from now on; larger networks are
/// split and smaller ones go. Only the leading `prefix_len` bits of `addr` count.
#[verifier::external_body]
fn ipv6_ranges_remove(r: &mut Ipv6Ranges, addr: u128, prefix_len: u8)
    requires
        prefix_len <= 128,
    ensures
        ipv6_covered(*final(r)) == ipv6_covered(*old(r)).difference(
            net::ipv6_block(addr, prefix_len),
        ),
{
    r.ranges.remove(ipnet::Ipv6Net::new_assert(addr.into(), prefix_len));
}

/// What an [`IpStorage`] bans: addresses banned one by one, and addresses banned by a network.
pub struct BanSets {
    pub singles: Set<IpAddr>,
    pub ranges: Set<IpAddr>,
}

impl BanSets {
    /// No bans.
    pub open spec fn none() -> BanSets {
        BanSets { singles: Set::empty(), ranges: Set::empty() }
    }

    /// The address is banned, by itself or by a network that holds it.
    pub open spec fn bans(self, a: IpAddr) -> bool {
        self.singles.contains(a) || self.ranges.contains(a)
    }

    /// The bans with `net` banned: a single address by itself, any other network as one.
    pub open spec fn ban(self, net: IpNet) -> BanSets {
        if net.is_single() {
            BanSets { singles: self.singles.insert(net.base()), ranges: self.ranges }
        } else {
            BanSets { singles: self.singles, ranges: self.ranges.union(net_addresses(net)) }
        }
    }

    /// The bans with the ban on `net` lifted: that on a single address, or that on the addresses
    /// of a network as far as networks ban them.
    pub open spec fn unban(self, net: IpNet) -> BanSets {
        if net.is_single() {
            BanSets { singles: self.singles.remove(net.base()), ranges: self.ranges }
        } else {
            BanSets { singles: self.singles, ranges: self.ranges.difference(net_addresses(net)) }
        }
    }

    /// The bans after one message.
    pub open spec fn after_message(self, m: message::BanMessageView) -> BanSets {
        if m.remediation == message::unban_text() {
            self.unban(m.ip)
        } else {
            self.ban(m.ip)
        }
    }

    /// The bans after some messages, the first one first.
    pub open spec fn after(self, messages: Seq<message::BanMessageView>) -> BanSets
        decreases messages.len(),
    {
        if messages.len() == 0 {
            self
        } else {
            self.after(messages.drop_last()).after_message(messages.last())
        }
    }
}

/// The addresses of a network.
pub open spec fn net_addresses(net: IpNet) -> Set<IpAddr> {
    Set::new(|a: IpAddr| net.contains(a))
}

/// Fast storage of bans, with separate places for single addresses and for networks.
pub struct IpStorage {
    single_ips: rustc_hash::FxHashSet<AddrKey>,
    ipv4_ranges: Ipv4Ranges,
    ipv6_ranges: Ipv6Ranges,
}

spec fn addr_key(a: IpAddr) -> AddrKey {
    match a {
        IpAddr::V4(x) => (false, x as u128),
        IpAddr::V6(x) => (true, x),
    }
}

fn key_of(a: IpAddr) -> (r: AddrKey)
    ensures
        r == addr_key(a),
{
    match a {
        IpAddr::V4(x) => (false, x as u128),
        IpAddr::V6(x) => (true, x),
    }
}

impl View for IpStorage {
    type V = BanSets;

    closed spec fn view(&self) -> BanSets {
        BanSets {
            singles: Set::new(|a: IpAddr| self.single_ips@.contains(addr_key(a))),
            ranges: Set::new(
                |a: IpAddr|
                    match a {
                        IpAddr::V4(x) => ipv4_covered(self.ipv4_ranges).contains(x),
                        IpAddr::V6(x) => ipv6_covered(self.ipv6_ranges).contains(x),
                    },
            ),
        }
    }
}

impl IpStorage {
    /// A storage without bans.
    pub fn new() -> (r: IpStorage)
        ensures
            r@ == BanSets::none(),
    {
        let r: IpStorage = IpStorage {
            single_ips: rustc_hash::FxHashSet::default(),
            ipv4_ranges: ipv4_ranges_new(),
            ipv6_ranges: ipv6_ranges_new(),
        };
        assert(r@.singles =~= Set::<IpAddr>::empty());
        assert(r@.ranges =~= Set::<IpAddr>::empty());
        r
    }

    /// Whether the address is banned.
    pub fn contains_direct(&self, ip_addr: IpAddr) -> (r: bool)
        ensures
            r == self@.bans(ip_addr),
            r <==> self@.singles.contains(ip_addr) || self@.ranges.contains(ip_addr),
    {
        if set_contains(&self.single_ips, key_of(ip_addr)) {
            return true;
        }
        match ip_addr {
            IpAddr::V4(x) => ipv4_ranges_contains(&self.ipv4_ranges, x),
            IpAddr::V6(x) => ipv6_ranges_contains(&self.ipv6_ranges, x),
        }
    }

    /// Lifts the ban on a network.
    pub fn remove_direct(&mut self, ip_net: IpNet)
        requires
            ip_net.wf(),
        ensures
            final(self)@ == old(self)@.unban(ip_net),
    {
        match ip_net {
            IpNet::V4 { addr, prefix_len } => {
                if prefix_len == 32 {
                    set_remove(&mut self.single_ips, key_of(IpAddr::V4(addr)));
                } else {
                    ipv4_ranges_remove(&mut self.ipv4_ranges, addr, prefix_len);
                }
            },
            IpNet::V6 { addr, prefix_len } => {
                if prefix_len == 128 {
                    set_remove(&mut self.single_ips, key_of(IpAddr::V6(addr)));
                } else {
                    ipv6_ranges_remove(&mut self.ipv6_ranges, addr, prefix_len);
                }
            },
        }
        assert(self@.singles =~= old(self)@.unban(ip_net).singles);
        assert(self@.ranges =~= old(self)@.unban(ip_net).ranges);
    }

    /// Bans a network.
    pub fn insert_direct(&mut self, ip_net: IpNet)
        requires
            ip_net.wf(),
        ensures
            final(self)@ == old(self)@.ban(ip_net),
    {
        match ip_net {
            IpNet::V4 { addr, prefix_len } => {
                if prefix_len == 32 {
                    set_insert(&mut self.single_ips, key_of(IpAddr::V4(addr)));
                } else {
                    ipv4_ranges_add(&mut self.ipv4_ranges, addr, prefix_len);
                }
            },
            IpNet::V6 { addr, prefix_len } => {
                if prefix_len == 128 {
                    set_insert(&mut self.single_ips, key_of(IpAddr::V6(addr)));
                } else {
                    ipv6_ranges_add(&mut self.ipv6_ranges, addr, prefix_len);
                }
            },
        }
        assert(self@.singles =~= old(self)@.ban(ip_net).singles);
        assert(self@.ranges =~= old(self)@.ban(ip_net).ranges);
    }

    /// Carries out a batch of messages, the first one first.
    pub fn apply_batch(&mut self, batch: &Vec<BanMessage>)
        requires
            forall|i: int| 0 <= i < batch@.len() ==> (#[trigger] batch@[i]).ip.wf(),
        ensures
            final(self)@ == old(self)@.after(message::message_views(batch@)),
    {
        let ghost views = message::message_views(batch@);
        for i in 0..batch.len()
            invariant
                forall|i: int| 0 <= i < batch@.len() ==> (#[trigger] batch@[i]).ip.wf(),
                views == message::message_views(batch@),
                self@ == old(self)@.after(views.take(i as int)),
        {
            let m: &BanMessage = &batch[i];
            if text::same_text(m.remediation.as_str(), "unban") {
                self.remove_direct(m.ip);
            } else {
                self.insert_direct(m.ip);
            }
            proof {
                let now = views.take(i + 1);
                assert(now.drop_last() =~= views.take(i as int));
                assert(now.last() == batch@[i as int]@);
            }
        }
        assert(views.take(batch@.len() as int) =~= views);
    }
}

/// Banning a network bans its addresses and no others.
pub proof fn law_ban_bans_the_network(sets: BanSets, net: IpNet, a: IpAddr)
    ensures
        sets.ban(net).bans(a) <==> sets.bans(a) || net.contains(a),
{
    if net.is_single() {
        net::lemma_single_network(net, a);
    }
}

/// Lifting the ban on a network changes nothing for addresses outside it. An address of it stays
/// banned only where the other kind of ban holds it: a network ban for a single address, a ban of
/// its own for an address of a larger network.
pub proof fn law_unban_lifts_the_network(sets: BanSets, net: IpNet, a: IpAddr)
    ensures
        !net.contains(a) ==> (sets.unban(net).bans(a) <==> sets.bans(a)),
        net.contains(a) && net.is_single() ==> (sets.unban(net).bans(a) <==> sets.ranges.contains(
            a,
        )),
        net.contains(a) && !net.is_single() ==> (sets.unban(net).bans(a) <==> sets.singles.contains(
            a,
        )),
{
    if net.is_single() {
        net::lemma_single_network(net, a);
    }
}

/// Lifting a ban undoes it, where nothing of the network was banned in the same way before.
pub proof fn law_unban_undoes_ban(sets: BanSets, net: IpNet)
    requires
        net.is_single() ==> !sets.singles.contains(net.base()),
        !net.is_single() ==> sets.ranges.disjoint(net_addresses(net)),
    ensures
        sets.ban(net).unban(net) == sets,
{
    assert(sets.ban(net).unban(net).singles =~= sets.singles);
    assert(sets.ban(net).unban(net).ranges =~= sets.ranges);
}

/// A ban that is already in place changes nothing when it is repeated.
pub proof fn law_ban_is_idempotent(sets: BanSets, net: IpNet)
    ensures
        sets.ban(net).ban(net) == sets.ban(net),
        sets.unban(net).unban(net) == sets.unban(net),
{
    assert(sets.ban(net).ban(net).singles =~= sets.ban(net).singles);
    assert(sets.ban(net).ban(net).ranges =~= sets.ban(net).ranges);
    assert(sets.unban(net).unban(net).singles =~= sets.unban(net).singles);
    assert(sets.unban(net).unban(net).ranges =~= sets.unban(net).ranges);
}

/// Messages that arrive in two parts do what they do in one.
pub proof fn law_messages_in_parts(
    sets: BanSets,
    first: Seq<message::BanMessageView>,
    second: Seq<message::BanMessageView>,
)
    ensures
        sets.after(first + second) == sets.after(first).after(second),
    decreases second.len(),
{
    let all = first + second;
    if second.len() == 0 {
        assert(all =~= first);
    } else {
        assert(all.drop_last() =~= first + second.drop_last());
        assert(all.last() == second.last());
        law_messages_in_parts(sets, first, second.drop_last());
    }
}

/// The bans after some batches, the first one first.
pub open spec fn after_batches(
    sets: BanSets,
    batches: Seq<Seq<message::BanMessageView>>,
) -> BanSets
    decreases batches.len(),
{
    if batches.len() == 0 {
        sets
    } else {
        after_batches(sets, batches.drop_last()).after(batches.last())
    }
}

/// A filter that carries out the batches one by one ends with the bans that the messages lead
/// to, wherever they were cut.
pub proof fn law_batching_keeps_bans(
    sets: BanSets,
    messages: Seq<message::BanMessageView>,
    batches: Seq<Seq<message::BanMessageView>>,
)
    requires
        batches.flatten() == messages,
    ensures
        after_batches(sets, batches) == sets.after(messages),
    decreases batches.len(),
{
    if batches.len() == 0 {
        assert(messages =~= Seq::<message::BanMessageView>::empty());
    } else {
        let before = batches.drop_last();
        assert(before.push(batches.last()) =~= batches);
        before.lemma_flatten_push(batches.last());
        law_batching_keeps_bans(sets, before.flatten(), before);
        law_messages_in_parts(sets, before.flatten(), batches.last());
    }
}

/// An address is banned exactly where it is among the addresses that are banned by themselves or by
/// a network, and where there are no bans, none is.
pub proof fn law_two_ways_of_being_banned(sets: BanSets, a: IpAddr)
    ensures
        sets.bans(a) <==> sets.singles.contains(a) || sets.ranges.contains(a),
        !BanSets::none().singles.contains(a),
        !BanSets::none().ranges.contains(a),
        forall|net: IpNet| #[trigger] net_addresses(net).contains(a) <==> net.contains(a),
{
}

/// A message bans exactly the addresses of its network, unless its remediation is `unban`, with
/// which it lifts the bans on them. A network of one address is banned and lifted by itself, and any
/// other as a network; the bans of the other kind stay as they are.
pub proof fn law_messages_change_their_network(sets: BanSets, m: message::BanMessageView, a: IpAddr)
    ensures
        ({
            let after = sets.after_message(m);
            let hits_single = m.ip.is_single() && m.ip.contains(a);
            let hits_range = !m.ip.is_single() && m.ip.contains(a);
            &&& m.remediation != "unban"@ ==> {
                &&& after.singles.contains(a) <==> sets.singles.contains(a) || hits_single
                &&& after.ranges.contains(a) <==> sets.ranges.contains(a) || hits_range
            }
            &&& m.remediation == "unban"@ ==> {
                &&& after.singles.contains(a) <==> sets.singles.contains(a) && !hits_single
                &&& after.ranges.contains(a) <==> sets.ranges.contains(a) && !hits_range
            }
        }),
{
    if m.ip.is_single() {
        net::lemma_single_network(m.ip, a);
    }
}

/// Without a message the bans stay as they are, and one more message does to them what it does by
/// itself.
pub proof fn law_messages_count_one_by_one(
    sets: BanSets,
    messages: Seq<message::BanMessageView>,
    m: message::BanMessageView,
)
    ensures
        sets.after(Seq::empty()) == sets,
        sets.after(messages.push(m)) == sets.after(messages).after_message(m),
{
    assert(messages.push(m).drop_last() =~= messages);
}

} // verus!
