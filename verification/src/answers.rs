//! What one answer of the decision stream leaves behind, network by network.

use vstd::prelude::*;

use crate::expiration::ExpirationEntry;
use crate::message;
use crate::net::IpNet;
use crate::net;
use crate::text;
use crate::updater::UpdaterView;

verus! {

/// The new ban is one on `net`.
pub open spec fn bans_net(new: Option<message::NewBanView>, net: IpNet) -> bool {
    new matches Some(b) && b.message.ip == net
}

/// Some new ban is one on `net`.
pub open spec fn names_net(new: Seq<Option<message::NewBanView>>, net: IpNet) -> bool {
    exists|i: int| 0 <= i < new.len() && bans_net(#[trigger] new[i], net)
}

/// `new[i]` is the last of the new bans on `net`.
pub open spec fn is_last_on(
    new: Seq<Option<message::NewBanView>>,
    net: IpNet,
    i: int,
) -> bool {
    &&& 0 <= i < new.len()
    &&& bans_net(new[i], net)
    &&& forall|j: int| i < j < new.len() ==> !bans_net(#[trigger] new[j], net)
}

/// The new ban ends with the entry `e`.
pub open spec fn ends_with(new: Option<message::NewBanView>, e: ExpirationEntry) -> bool {
    new matches Some(b) && b.message.ip == e.ip && b.expires == Some(e.expiration)
}

/// How many of the new bans end with the entry `e`.
pub open spec fn ends_given(new: Seq<Option<message::NewBanView>>, e: ExpirationEntry) -> nat {
    new.filter(|b: Option<message::NewBanView>| ends_with(b, e)).len()
}

/// The answer lifts a ban that is in force.
pub open spec fn lifts(state: UpdaterView, deleted: Seq<Option<IpNet>>, net: IpNet) -> bool {
    state.bans.contains_key(net) && deleted.contains(Some(net))
}

proof fn lemma_contains_drop_last<T>(s: Seq<T>, t: T)
    requires
        s.len() > 0,
    ensures
        s.contains(t) <==> s.drop_last().contains(t) || s.last() == t,
{
    let rest = s.drop_last();
    if rest.contains(t) {
        let i = choose|i: int| 0 <= i < rest.len() && rest[i] == t;
        assert(s[i] == t);
    }
    if s.contains(t) && s.last() != t {
        let i = choose|i: int| 0 <= i < s.len() && s[i] == t;
        assert(rest[i] == t);
    }
    assert(s[s.len() - 1] == s.last());
}

proof fn lemma_names_drop_last(new: Seq<Option<message::NewBanView>>, net: IpNet)
    requires
        new.len() > 0,
    ensures
        names_net(new, net) <==> names_net(new.drop_last(), net) || bans_net(new.last(), net),
{
    let rest = new.drop_last();
    if names_net(rest, net) {
        let i = choose|i: int| 0 <= i < rest.len() && bans_net(#[trigger] rest[i], net);
        assert(bans_net(new[i], net));
    }
    if names_net(new, net) && !bans_net(new.last(), net) {
        let i = choose|i: int| 0 <= i < new.len() && bans_net(#[trigger] new[i], net);
        assert(bans_net(rest[i], net));
    }
    assert(new[new.len() - 1] == new.last());
}

proof fn lemma_after_deletions(state: UpdaterView, deleted: Seq<Option<IpNet>>, net: IpNet)
    ensures
        ({
            let after = state.after_deletions(deleted);
            &&& after.queue == state.queue
            &&& after.marked.contains(net) <==> state.marked.contains(net) || lifts(
                state,
                deleted,
                net,
            )
            &&& after.bans.contains_key(net) <==> state.bans.contains_key(net)
                && !deleted.contains(Some(net))
            &&& after.bans.contains_key(net) ==> after.bans[net] == state.bans[net]
        }),
    decreases deleted.len(),
{
    if deleted.len() > 0 {
        lemma_contains_drop_last(deleted, Some(net));
        lemma_after_deletions(state, deleted.drop_last(), net);
        if let Some(last) = deleted.last() {
            lemma_after_deletions(state, deleted.drop_last(), last);
        }
    }
}

proof fn lemma_bans_after_news(
    state: UpdaterView,
    new: Seq<Option<message::NewBanView>>,
    net: IpNet,
)
    ensures
        ({
            let after = state.after_news(new);
            &&& forall|i: int| #[trigger]
                is_last_on(new, net, i) ==> after.bans.contains_key(net) && after.bans[net]
                    == new[i]->0.message
            &&& !names_net(new, net) ==> after.bans.contains_key(net) == state.bans.contains_key(
                net,
            ) && (after.bans.contains_key(net) ==> after.bans[net] == state.bans[net])
            &&& after.marked.contains(net) <==> state.marked.contains(net) && !names_net(new, net)
        }),
    decreases new.len(),
{
    if new.len() > 0 {
        let rest = new.drop_last();
        let after = state.after_news(new);
        lemma_names_drop_last(new, net);
        lemma_bans_after_news(state, rest, net);
        assert forall|i: int| #[trigger] is_last_on(new, net, i) implies after.bans.contains_key(
            net,
        ) && after.bans[net] == new[i]->0.message by {
            if i < rest.len() {
                assert(!bans_net(new[new.len() - 1], net));
                assert forall|j: int| i < j < rest.len() implies !bans_net(
                    #[trigger] rest[j],
                    net,
                ) by {
                    assert(rest[j] == new[j]);
                }
                assert(is_last_on(rest, net, i));
            }
        }
    }
}

proof fn lemma_queue_after_news(
    state: UpdaterView,
    new: Seq<Option<message::NewBanView>>,
    e: ExpirationEntry,
)
    ensures
        state.after_news(new).queue.count(e) == (if state.marked.contains(e.ip) && names_net(
            new,
            e.ip,
        ) {
            0nat
        } else {
            state.queue.count(e)
        }) + ends_given(new, e),
    decreases new.len(),
{
    let gives = |b: Option<message::NewBanView>| ends_with(b, e);
    reveal(Seq::filter);
    if new.len() > 0 {
        let rest = new.drop_last();
        lemma_names_drop_last(new, e.ip);
        lemma_queue_after_news(state, rest, e);
        lemma_bans_after_news(state, rest, e.ip);
        let before = state.after_news(rest);
        if let Some(b) = new.last() {
            assert(new.filter(gives) =~= if gives(new.last()) {
                rest.filter(gives).push(new.last())
            } else {
                rest.filter(gives)
            });
            if before.marked.contains(b.message.ip) && b.message.ip == e.ip {
                lemma_no_ends_unnamed(rest, e);
            }
        } else {
            assert(new.filter(gives) =~= rest.filter(gives));
        }
    }
}

/// Bans on other networks give no end to this one.
proof fn lemma_no_ends_unnamed(new: Seq<Option<message::NewBanView>>, e: ExpirationEntry)
    requires
        !names_net(new, e.ip),
    ensures
        ends_given(new, e) == 0,
    decreases new.len(),
{
    let gives = |b: Option<message::NewBanView>| ends_with(b, e);
    reveal(Seq::filter);
    if new.len() > 0 {
        lemma_names_drop_last(new, e.ip);
        lemma_no_ends_unnamed(new.drop_last(), e);
        assert(!gives(new.last()));
    }
}

/// After an answer a network is banned as the last of its new bans says. A network without a new
/// ban is banned as before, unless the answer lifts its ban.
pub proof fn law_bans_after_an_answer(
    state: UpdaterView,
    deleted: Seq<Option<IpNet>>,
    new: Seq<Option<message::NewBanView>>,
    net: IpNet,
)
    ensures
        ({
            let after = state.after_stream(deleted, new).bans;
            &&& forall|i: int| #[trigger]
                is_last_on(new, net, i) ==> after.contains_key(net) && after[net]
                    == new[i]->0.message
            &&& !names_net(new, net) ==> (after.contains_key(net) <==> state.bans.contains_key(net)
                && !deleted.contains(Some(net)))
            &&& !names_net(new, net) && after.contains_key(net) ==> after[net] == state.bans[net]
        }),
{
    lemma_after_deletions(state, deleted, net);
    lemma_bans_after_news(state.after_deletions(deleted), new, net);
}

/// After an answer the queue holds the ends that it held and those of the new bans; but where a
/// network is banned again after its ban was lifted, the ends of the lifted ban are gone. The
/// marks are on the networks whose bans were lifted, and that have no new one.
pub proof fn law_ends_after_an_answer(
    state: UpdaterView,
    deleted: Seq<Option<IpNet>>,
    new: Seq<Option<message::NewBanView>>,
    e: ExpirationEntry,
)
    ensures
        ({
            let after = state.after_stream(deleted, new);
            let was_lifted = state.marked.contains(e.ip) || lifts(state, deleted, e.ip);
            &&& after.queue.count(e) == (if was_lifted && names_net(new, e.ip) {
                0nat
            } else {
                state.queue.count(e)
            }) + ends_given(new, e)
            &&& after.marked.contains(e.ip) <==> was_lifted && !names_net(new, e.ip)
        }),
{
    let middle = state.after_deletions(deleted);
    lemma_after_deletions(state, deleted, e.ip);
    lemma_queue_after_news(middle, new, e);
    lemma_bans_after_news(middle, new, e.ip);
}

/// An item that was there before keeps its first position when something is put behind.
proof fn lemma_first_index_stays<T>(s: Seq<T>, t: T)
    requires
        s.len() > 0,
        s.drop_last().contains(t),
    ensures
        text::first_index(s, t) == text::first_index(s.drop_last(), t),
        text::first_index(s, t) < s.len() - 1,
{
    let rest = s.drop_last();
    text::lemma_first_index(rest, t);
    let i = text::first_index(rest, t) as int;
    assert forall|j: int| 0 <= j < i implies s[j] != t by {
        assert(rest[j] == s[j]);
    }
    assert(s[i] == rest[i]);
    text::lemma_first_index_is(s, t, i);
}

/// Every ban that an answer lifts is told once, as it was in force, and in the order in which the
/// answer first names the networks; nothing else is told to be lifted.
pub proof fn law_lifted_bans_are_told_once(state: UpdaterView, deleted: Seq<Option<IpNet>>)
    requires
        state.wf(),
    ensures
        ({
            let messages = state.deletion_messages(deleted);
            &&& forall|i: int|
                0 <= i < messages.len() ==> lifts(state, deleted, (#[trigger] messages[i]).ip)
                    && messages[i] == state.bans[messages[i].ip].lifted()
            &&& forall|net: IpNet| #[trigger]
                lifts(state, deleted, net) ==> exists|i: int|
                    0 <= i < messages.len() && (#[trigger] messages[i]).ip == net
            &&& forall|i: int, j: int|
                0 <= i < j < messages.len() ==> text::first_index(
                    deleted,
                    Some((#[trigger] messages[i]).ip),
                ) < text::first_index(deleted, Some((#[trigger] messages[j]).ip))
        }),
    decreases deleted.len(),
{
    let messages = state.deletion_messages(deleted);
    if deleted.len() > 0 {
        let rest = deleted.drop_last();
        let before = state.deletion_messages(rest);
        law_lifted_bans_are_told_once(state, rest);
        assert forall|i: int| 0 <= i < before.len() implies messages[i] == before[i] && lifts(
            state,
            deleted,
            (#[trigger] before[i]).ip,
        ) && text::first_index(deleted, Some(before[i].ip)) == text::first_index(
            rest,
            Some(before[i].ip),
        ) && text::first_index(deleted, Some(before[i].ip)) < deleted.len() - 1 by {
            assert(lifts(state, rest, before[i].ip));
            lemma_contains_drop_last(deleted, Some(before[i].ip));
            lemma_first_index_stays(deleted, Some(before[i].ip));
        }
        if let Some(last) = deleted.last() {
            lemma_after_deletions(state, rest, last);
            lemma_contains_drop_last(deleted, Some(last));
            if !rest.contains(Some(last)) {
                assert forall|j: int| 0 <= j < deleted.len() - 1 implies deleted[j] != Some(
                    last,
                ) by {
                    assert(rest[j] == deleted[j]);
                }
                text::lemma_first_index_is(deleted, Some(last), deleted.len() - 1);
            }
        }
        assert forall|i: int| 0 <= i < messages.len() implies lifts(
            state,
            deleted,
            (#[trigger] messages[i]).ip,
        ) && messages[i] == state.bans[messages[i].ip].lifted() by {
            if i < before.len() {
                assert(messages[i] == before[i]);
            }
        }
        assert forall|net: IpNet| #[trigger] lifts(state, deleted, net) implies exists|i: int|
            0 <= i < messages.len() && (#[trigger] messages[i]).ip == net by {
            lemma_contains_drop_last(deleted, Some(net));
            if rest.contains(Some(net)) {
                assert(lifts(state, rest, net));
                let i = choose|i: int| 0 <= i < before.len() && (#[trigger] before[i]).ip == net;
                assert(messages[i].ip == net);
            } else {
                assert(messages[before.len() as int].ip == net);
            }
        }
        assert forall|i: int, j: int| 0 <= i < j < messages.len() implies text::first_index(
            deleted,
            Some((#[trigger] messages[i]).ip),
        ) < text::first_index(deleted, Some((#[trigger] messages[j]).ip)) by {
            assert(messages[i] == before[i]);
            if j < before.len() {
                assert(messages[j] == before[j]);
            }
        }
    }
}

/// A deleted decision lifts the ban on the network that its value names, whatever its remediation
/// and its expiration say, unless a new decision of the same answer bans that network again. Where
/// there was such a ban, the filters are told.
pub proof fn law_deleted_values_are_lifted(
    state: UpdaterView,
    s: message::StreamResponse,
    i: int,
    net: IpNet,
)
    requires
        state.wf(),
        0 <= i < s.deleted@.len(),
        net::network_of_text(s.deleted@[i].value@) == Ok::<IpNet, net::IpParseError>(net),
        forall|j: int|
            0 <= j < s.new@.len() ==> net::network_of_text((#[trigger] s.new@[j]).value@) != Ok::<
                IpNet,
                net::IpParseError,
            >(net),
    ensures
        !state.after_stream(s.deleted_nets(), s.new_bans()).bans.contains_key(net),
        state.bans.contains_key(net) ==> exists|k: int|
            0 <= k < state.stream_messages(s.deleted_nets(), s.new_bans()).len() && (
            #[trigger] state.stream_messages(s.deleted_nets(), s.new_bans())[k]).ip == net
                && state.stream_messages(s.deleted_nets(), s.new_bans())[k].remediation
                == "unban"@,
{
    let deleted = s.deleted_nets();
    let new = s.new_bans();
    assert(deleted[i] == Some(net));
    assert(deleted.contains(Some(net)));
    assert(!names_net(new, net)) by {
        if names_net(new, net) {
            let j = choose|j: int| 0 <= j < new.len() && bans_net(#[trigger] new[j], net);
            assert(new[j] == message::new_ban(s.new@[j]@));
        }
    }
    law_bans_after_an_answer(state, deleted, new, net);
    law_lifted_bans_are_told_once(state, deleted);
    if state.bans.contains_key(net) {
        assert(lifts(state, deleted, net));
        let told = state.deletion_messages(deleted);
        let k = choose|k: int| 0 <= k < told.len() && (#[trigger] told[k]).ip == net;
        let messages = state.stream_messages(deleted, new);
        assert(messages[k] == told[k]);
    }
}

/// A new decision bans the network that its value names, with its own remediation, or `ban` where
/// it has none, and its own expiration, unless a later decision of the same answer names that
/// network too.
pub proof fn law_new_values_are_banned(
    state: UpdaterView,
    s: message::StreamResponse,
    i: int,
    net: IpNet,
)
    requires
        0 <= i < s.new@.len(),
        net::network_of_text(s.new@[i].value@) == Ok::<IpNet, net::IpParseError>(net),
        forall|j: int|
            i < j < s.new@.len() ==> net::network_of_text((#[trigger] s.new@[j]).value@) != Ok::<
                IpNet,
                net::IpParseError,
            >(net),
    ensures
        ({
            let bans = state.after_stream(s.deleted_nets(), s.new_bans()).bans;
            &&& bans.contains_key(net)
            &&& bans[net].ip == net
            &&& s.new@[i].remediation matches Some(r) ==> bans[net].remediation == r@
            &&& s.new@[i].remediation is None ==> bans[net].remediation == "ban"@
            &&& s.new@[i].expiration matches Some(e) ==> bans[net].expiration == e@
            &&& s.new@[i].expiration is None ==> bans[net].expiration.len() == 0
        }),
{
    let new = s.new_bans();
    assert(new[i] == message::new_ban(s.new@[i]@));
    assert forall|j: int| i < j < new.len() implies !bans_net(#[trigger] new[j], net) by {
        assert(new[j] == message::new_ban(s.new@[j]@));
    }
    assert(is_last_on(new, net, i));
    law_bans_after_an_answer(state, s.deleted_nets(), new, net);
}

/// A network that no decision of an answer names is banned after the answer as it was before.
pub proof fn law_other_networks_stay(state: UpdaterView, s: message::StreamResponse, net: IpNet)
    requires
        forall|j: int|
            0 <= j < s.new@.len() ==> net::network_of_text((#[trigger] s.new@[j]).value@) != Ok::<
                IpNet,
                net::IpParseError,
            >(net),
        forall|j: int|
            0 <= j < s.deleted@.len() ==> net::network_of_text((#[trigger] s.deleted@[j]).value@)
                != Ok::<IpNet, net::IpParseError>(net),
    ensures
        ({
            let bans = state.after_stream(s.deleted_nets(), s.new_bans()).bans;
            &&& bans.contains_key(net) <==> state.bans.contains_key(net)
            &&& bans.contains_key(net) ==> bans[net] == state.bans[net]
        }),
{
    let deleted = s.deleted_nets();
    let new = s.new_bans();
    assert(!names_net(new, net)) by {
        if names_net(new, net) {
            let j = choose|j: int| 0 <= j < new.len() && bans_net(#[trigger] new[j], net);
            assert(new[j] == message::new_ban(s.new@[j]@));
        }
    }
    assert(!deleted.contains(Some(net))) by {
        if deleted.contains(Some(net)) {
            let j = choose|j: int| 0 <= j < deleted.len() && deleted[j] == Some(net);
            assert(deleted[j] == message::deleted_net(s.deleted@[j]@));
        }
    }
    law_bans_after_an_answer(state, deleted, new, net);
}

} // verus!
