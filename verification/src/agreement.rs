//! What the filters ban follows what the updater holds.

use vstd::prelude::*;

use crate::answers;
use crate::batch;
use crate::expiration::ExpirationEntry;
use crate::expiration;
use crate::ip_storage::BanSets;
use crate::ip_storage;
use crate::message;
use crate::net::{IpAddr, IpNet};
use crate::net;
use crate::updater::UpdaterView;
use crate::updater;
use crate::updater_config;

verus! {

/// The banned networks after some messages, the first one first.
pub open spec fn nets_after(
    nets: Set<IpNet>,
    messages: Seq<message::BanMessageView>,
) -> Set<IpNet>
    decreases messages.len(),
{
    if messages.len() == 0 {
        nets
    } else {
        let before = nets_after(nets, messages.drop_last());
        let m = messages.last();
        if m.remediation == message::unban_text() {
            before.remove(m.ip)
        } else {
            before.insert(m.ip)
        }
    }
}

/// No new ban says `unban`, which the filters would take for the end of a ban.
pub open spec fn all_ban(new: Seq<Option<message::NewBanView>>) -> bool {
    forall|i: int|
        0 <= i < new.len() ==> (#[trigger] new[i] matches Some(b) ==> b.message.remediation
            != message::unban_text())
}

proof fn lemma_nets_after_add(
    nets: Set<IpNet>,
    first: Seq<message::BanMessageView>,
    second: Seq<message::BanMessageView>,
)
    ensures
        nets_after(nets, first + second) == nets_after(nets_after(nets, first), second),
    decreases second.len(),
{
    let all = first + second;
    if second.len() == 0 {
        assert(all =~= first);
    } else {
        assert(all.drop_last() =~= first + second.drop_last());
        lemma_nets_after_add(nets, first, second.drop_last());
    }
}

proof fn lemma_deletions(state: UpdaterView, nets: Seq<Option<IpNet>>)
    requires
        state.wf(),
    ensures
        state.after_deletions(nets).wf(),
        nets_after(state.bans.dom(), state.deletion_messages(nets)) == state.after_deletions(
            nets,
        ).bans.dom(),
    decreases nets.len(),
{
    if nets.len() > 0 {
        let rest = nets.drop_last();
        lemma_deletions(state, rest);
        let before = state.after_deletions(rest);
        let messages = state.deletion_messages(rest);
        if let Some(net) = nets.last() {
            if before.bans.contains_key(net) {
                let m = before.bans[net].lifted();
                assert(messages.push(m).drop_last() =~= messages);
                assert(state.after_deletions(nets).bans.dom() =~= before.bans.dom().remove(net));
            }
        }
    }
}

proof fn lemma_news(state: UpdaterView, news: Seq<Option<message::NewBanView>>)
    requires
        all_ban(news),
    ensures
        nets_after(state.bans.dom(), updater::new_messages(news)) == state.after_news(
            news,
        ).bans.dom(),
    decreases news.len(),
{
    if news.len() > 0 {
        let rest = news.drop_last();
        assert forall|i: int| 0 <= i < rest.len() implies (#[trigger] rest[i] matches Some(b)
            ==> b.message.remediation != message::unban_text()) by {
            assert(rest[i] == news[i]);
        }
        lemma_news(state, rest);
        let before = state.after_news(rest);
        let messages = updater::new_messages(rest);
        if let Some(new) = news.last() {
            assert(news[news.len() - 1] == Some(new));
            assert(messages.push(new.message).drop_last() =~= messages);
            assert(state.after_news(news).bans.dom() =~= before.bans.dom().insert(new.message.ip));
        }
    }
}

/// The messages of one answer of the decision stream tell the filters all that changed: whoever
/// had the bans of before and carries them out has the bans of after.
pub proof fn law_stream_messages_tell_all(
    state: UpdaterView,
    deleted: Seq<Option<IpNet>>,
    new: Seq<Option<message::NewBanView>>,
)
    requires
        state.wf(),
        all_ban(new),
    ensures
        nets_after(state.bans.dom(), state.stream_messages(deleted, new)) == state.after_stream(
            deleted,
            new,
        ).bans.dom(),
{
    let middle = state.after_deletions(deleted);
    lemma_deletions(state, deleted);
    lemma_news(middle, new);
    lemma_nets_after_add(
        state.bans.dom(),
        state.deletion_messages(deleted),
        updater::new_messages(new),
    );
}

proof fn lemma_unbans(
    nets: Set<IpNet>,
    messages: Seq<message::BanMessageView>,
    net: IpNet,
)
    requires
        forall|i: int|
            0 <= i < messages.len() ==> (#[trigger] messages[i]).remediation
                == message::unban_text(),
    ensures
        nets_after(nets, messages).contains(net) <==> nets.contains(net) && forall|i: int|
            0 <= i < messages.len() ==> (#[trigger] messages[i]).ip != net,
    decreases messages.len(),
{
    if messages.len() > 0 {
        let rest = messages.drop_last();
        assert forall|i: int| 0 <= i < rest.len() implies (#[trigger] rest[i]).remediation
            == message::unban_text() by {
            assert(rest[i] == messages[i]);
        }
        lemma_unbans(nets, rest, net);
        assert(messages.last() == messages[messages.len() - 1]);
        assert(forall|i: int| 0 <= i < rest.len() ==> rest[i] == messages[i]);
        if nets_after(nets, messages).contains(net) {
            assert forall|i: int| 0 <= i < messages.len() implies (#[trigger] messages[i]).ip
                != net by {
                if i < rest.len() {
                    assert(rest[i] == messages[i]);
                }
            }
        } else if nets.contains(net) && messages.last().ip != net {
            let i = choose|i: int| 0 <= i < rest.len() && (#[trigger] rest[i]).ip == net;
            assert(messages[i].ip == net);
        }
    }
}

/// The messages of the local expiration tell the filters all that changed.
pub proof fn law_expiry_messages_tell_all(
    state: UpdaterView,
    messages: Seq<message::BanMessageView>,
    at: Seq<ExpirationEntry>,
    now: u64,
)
    requires
        state.wf(),
        state.cleaned().unbans_at(messages, at, now),
    ensures
        nets_after(state.bans.dom(), messages) == state.expired(now).bans.dom(),
{
    let c = state.cleaned();
    let before = state.bans.dom();
    let after = state.expired(now).bans.dom();
    assert forall|i: int| 0 <= i < messages.len() implies (#[trigger] messages[i]).remediation
        == message::unban_text() by {
        assert(c.queue.contains(at[i]));
    }
    assert forall|net: IpNet| nets_after(before, messages).contains(net) == after.contains(net) by {
        lemma_unbans(before, messages, net);
        if before.contains(net) {
            assert(c.bans.contains_key(net));
            if c.expires_by(net, now) {
                let i = choose|i: int| 0 <= i < at.len() && (#[trigger] at[i]).ip == net;
                assert(messages[i].ip == net);
            } else {
                assert forall|i: int| 0 <= i < messages.len() implies (#[trigger] messages[i]).ip
                    != net by {
                    assert(c.queue.contains(at[i]));
                }
            }
        }
    }
    assert(nets_after(before, messages) =~= after);
}

/// A filter holds exactly the bans on `nets`: the single addresses by themselves, the other
/// networks with all their addresses.
pub open spec fn agrees(sets: BanSets, nets: Set<IpNet>) -> bool {
    &&& forall|a: IpAddr| #[trigger]
        sets.singles.contains(a) <==> exists|net: IpNet| #[trigger]
            nets.contains(net) && net.is_single() && net.base() == a
    &&& forall|a: IpAddr| #[trigger]
        sets.ranges.contains(a) <==> exists|net: IpNet| #[trigger]
            nets.contains(net) && !net.is_single() && net.contains(a)
}

/// The message does not lift the ban on a network that shares an address with another network in
/// force, single addresses aside.
pub open spec fn lifts_cleanly(nets: Set<IpNet>, m: message::BanMessageView) -> bool {
    m.remediation == message::unban_text() && !m.ip.is_single() ==> forall|y: IpNet, a: IpAddr|
        #![trigger nets.contains(y), y.contains(a)]
        nets.contains(y) && y != m.ip && !y.is_single() && y.contains(a) ==> !m.ip.contains(a)
}

/// No message lifts the ban on a network that shares an address with another network in force at
/// that point, single addresses aside.
pub open spec fn all_lift_cleanly(
    nets: Set<IpNet>,
    messages: Seq<message::BanMessageView>,
) -> bool {
    forall|i: int|
        0 <= i < messages.len() ==> lifts_cleanly(
            nets_after(nets, messages.take(i)),
            #[trigger] messages[i],
        )
}

/// A new updater and a new filter agree.
pub proof fn law_agreement_at_the_start()
    ensures
        agrees(BanSets::none(), UpdaterView::initial().bans.dom()),
{
}

/// A filter that agrees with the updater blocks exactly the addresses of the banned networks.
pub proof fn law_agreement_means_the_same_addresses(sets: BanSets, nets: Set<IpNet>, a: IpAddr)
    requires
        agrees(sets, nets),
    ensures
        sets.bans(a) <==> exists|net: IpNet| #[trigger] nets.contains(net) && net.contains(a),
{
    if sets.singles.contains(a) {
        let net = choose|net: IpNet| #[trigger]
            nets.contains(net) && net.is_single() && net.base() == a;
        net::lemma_single_network(net, a);
    }
    if exists|net: IpNet| #[trigger] nets.contains(net) && net.contains(a) {
        let net = choose|net: IpNet| #[trigger] nets.contains(net) && net.contains(a);
        if net.is_single() {
            net::lemma_single_network(net, a);
        }
    }
}

proof fn lemma_agreement_step(
    sets: BanSets,
    nets: Set<IpNet>,
    m: message::BanMessageView,
)
    requires
        agrees(sets, nets),
        lifts_cleanly(nets, m),
    ensures
        agrees(
            sets.after_message(m),
            if m.remediation == message::unban_text() {
                nets.remove(m.ip)
            } else {
                nets.insert(m.ip)
            },
        ),
{
    let unban = m.remediation == message::unban_text();
    let after = sets.after_message(m);
    let now = if unban {
        nets.remove(m.ip)
    } else {
        nets.insert(m.ip)
    };
    assert forall|a: IpAddr| #[trigger] after.singles.contains(a) <==> exists|net: IpNet| #[trigger]
        now.contains(net) && net.is_single() && net.base() == a by {
        if exists|net: IpNet| #[trigger] nets.contains(net) && net.is_single() && net.base() == a {
            let net = choose|net: IpNet| #[trigger]
                nets.contains(net) && net.is_single() && net.base() == a;
            if net != m.ip {
                assert(now.contains(net));
            }
        }
        if exists|net: IpNet| #[trigger] now.contains(net) && net.is_single() && net.base() == a {
            let net = choose|net: IpNet| #[trigger]
                now.contains(net) && net.is_single() && net.base() == a;
            if net != m.ip {
                assert(nets.contains(net));
            }
        }
        if !unban && m.ip.is_single() && m.ip.base() == a {
            assert(now.contains(m.ip));
        }
    }
    assert forall|a: IpAddr| #[trigger] after.ranges.contains(a) <==> exists|net: IpNet| #[trigger]
        now.contains(net) && !net.is_single() && net.contains(a) by {
        if exists|net: IpNet| #[trigger] nets.contains(net) && !net.is_single() && net.contains(a) {
            let net = choose|net: IpNet| #[trigger]
                nets.contains(net) && !net.is_single() && net.contains(a);
            if net != m.ip {
                assert(now.contains(net));
            }
        }
        if exists|net: IpNet| #[trigger] now.contains(net) && !net.is_single() && net.contains(a) {
            let net = choose|net: IpNet| #[trigger]
                now.contains(net) && !net.is_single() && net.contains(a);
            if net != m.ip {
                assert(nets.contains(net));
            }
        }
        if !unban && !m.ip.is_single() && m.ip.contains(a) {
            assert(now.contains(m.ip));
        }
    }
}

/// A filter that agrees with a set of networks and carries out messages agrees with the networks
/// that the messages lead to, where no message lifts the ban on a network that overlaps another one
/// in force. (Lifting the ban on a network uncovers all its addresses in the filter, also those
/// that an overlapping network bans.)
pub proof fn law_messages_keep_agreement(
    sets: BanSets,
    nets: Set<IpNet>,
    messages: Seq<message::BanMessageView>,
)
    requires
        agrees(sets, nets),
        all_lift_cleanly(nets, messages),
    ensures
        agrees(sets.after(messages), nets_after(nets, messages)),
    decreases messages.len(),
{
    if messages.len() > 0 {
        let rest = messages.drop_last();
        let last = messages.len() - 1;
        assert forall|i: int| 0 <= i < rest.len() implies lifts_cleanly(
            nets_after(nets, rest.take(i)),
            #[trigger] rest[i],
        ) by {
            assert(rest.take(i) =~= messages.take(i));
            assert(rest[i] == messages[i]);
        }
        law_messages_keep_agreement(sets, nets, rest);
        assert(messages.take(last) =~= rest);
        assert(messages[last] == messages.last());
        lemma_agreement_step(sets.after(rest), nets_after(nets, rest), messages.last());
    }
}

/// Messages that only ban keep the agreement, whatever overlaps.
pub proof fn law_new_bans_keep_agreement(
    sets: BanSets,
    nets: Set<IpNet>,
    messages: Seq<message::BanMessageView>,
)
    requires
        agrees(sets, nets),
        forall|i: int|
            0 <= i < messages.len() ==> (#[trigger] messages[i]).remediation
                != message::unban_text(),
    ensures
        agrees(sets.after(messages), nets_after(nets, messages)),
{
    law_messages_keep_agreement(sets, nets, messages);
}

/// From end to end: a filter that agrees with the updater, and carries out in their batches the
/// messages of an answer of the decision stream, agrees with the updater again, where no ban is
/// lifted on a network that overlaps another one in force.
pub proof fn law_filter_follows_updater(
    state: UpdaterView,
    deleted: Seq<Option<IpNet>>,
    new: Seq<Option<message::NewBanView>>,
    sets: BanSets,
    batch_size: usize,
    max_batch_bytes: usize,
)
    requires
        state.wf(),
        all_ban(new),
        agrees(sets, state.bans.dom()),
        all_lift_cleanly(state.bans.dom(), state.stream_messages(deleted, new)),
        state.stream_messages(deleted, new).len() <= usize::MAX,
    ensures
        agrees(
            ip_storage::after_batches(
                sets,
                batch::batches_of(state.stream_messages(deleted, new), batch_size, max_batch_bytes),
            ),
            state.after_stream(deleted, new).bans.dom(),
        ),
{
    let messages = state.stream_messages(deleted, new);
    lemma_batches_carry_all(sets, messages, batch_size, max_batch_bytes);
    law_messages_keep_agreement(sets, state.bans.dom(), messages);
    law_stream_messages_tell_all(state, deleted, new);
}

/// The same of the messages of the local expiration.
pub proof fn law_filter_follows_expiry(
    state: UpdaterView,
    messages: Seq<message::BanMessageView>,
    at: Seq<ExpirationEntry>,
    now: u64,
    sets: BanSets,
    batch_size: usize,
    max_batch_bytes: usize,
)
    requires
        state.wf(),
        state.cleaned().unbans_at(messages, at, now),
        agrees(sets, state.bans.dom()),
        all_lift_cleanly(state.bans.dom(), messages),
        messages.len() <= usize::MAX,
    ensures
        agrees(
            ip_storage::after_batches(
                sets,
                batch::batches_of(messages, batch_size, max_batch_bytes),
            ),
            state.expired(now).bans.dom(),
        ),
{
    lemma_batches_carry_all(sets, messages, batch_size, max_batch_bytes);
    law_messages_keep_agreement(sets, state.bans.dom(), messages);
    law_expiry_messages_tell_all(state, messages, at, now);
}

proof fn lemma_batches_carry_all(
    sets: BanSets,
    messages: Seq<message::BanMessageView>,
    batch_size: usize,
    max_batch_bytes: usize,
)
    requires
        messages.len() <= usize::MAX,
    ensures
        ip_storage::after_batches(
            sets,
            batch::batches_of(messages, batch_size, max_batch_bytes),
        ) == sets.after(messages),
{
    let sizes = batch::encoded_sizes(messages);
    batch::law_batches_keep_limits(sizes, batch_size, max_batch_bytes);
    batch::law_batches_hold_all(messages, batch::batch_ends(sizes, batch_size, max_batch_bytes));
    ip_storage::law_batching_keeps_bans(
        sets,
        messages,
        batch::batches_of(messages, batch_size, max_batch_bytes),
    );
}

/// The end of the ban on `net` is in the queue, where the ban has one.
pub open spec fn end_is_noted(state: UpdaterView, net: IpNet) -> bool {
    expiration::expiration_of_text(state.bans[net].expiration) matches Some(t)
        ==> state.queue.contains(ExpirationEntry { expiration: t, ip: net })
}

/// The end of every ban that has one is in the queue, and no ban in force is marked.
pub open spec fn tracks_ends(state: UpdaterView) -> bool {
    &&& forall|net: IpNet| #[trigger]
        state.bans.contains_key(net) ==> end_is_noted(state, net)
    &&& forall|net: IpNet| #[trigger] state.marked.contains(net) ==> !state.bans.contains_key(net)
}

/// The end of a new ban is the one that its message gives.
pub open spec fn end_as_written(new: message::NewBanView) -> bool {
    new.expires == expiration::expiration_of_text(new.message.expiration)
}

/// The ends of all new bans are the ones that their messages give.
pub open spec fn all_end_as_written(new: Seq<Option<message::NewBanView>>) -> bool {
    forall|i: int| 0 <= i < new.len() ==> (#[trigger] new[i] matches Some(b) ==> end_as_written(b))
}

proof fn lemma_new_stays_tracked(state: UpdaterView, new: message::NewBanView)
    requires
        tracks_ends(state),
        end_as_written(new),
    ensures
        tracks_ends(state.after_new(new)),
{
    let y = state.after_new(new);
    assert forall|n: IpNet| #[trigger] y.bans.contains_key(n) implies end_is_noted(y, n) by {
        if n != new.message.ip {
            assert(state.bans.contains_key(n));
        }
        if let Some(t) = expiration::expiration_of_text(y.bans[n].expiration) {
            let e = ExpirationEntry { expiration: t, ip: n };
            assert(y.queue.count(e) > 0);
        }
    }
}

proof fn lemma_expiry_stays_tracked(state: UpdaterView, now: u64)
    requires
        tracks_ends(state),
    ensures
        tracks_ends(state.cleaned()),
        tracks_ends(state.expired(now)),
{
    let c = state.cleaned();
    assert forall|n: IpNet| #[trigger] c.bans.contains_key(n) implies end_is_noted(c, n) by {
        assert(state.bans.contains_key(n));
        if let Some(t) = expiration::expiration_of_text(c.bans[n].expiration) {
            assert(state.queue.contains(ExpirationEntry { expiration: t, ip: n }));
        }
    }
    let x = state.expired(now);
    assert forall|n: IpNet| #[trigger] x.bans.contains_key(n) implies end_is_noted(x, n) by {
        assert(c.bans.contains_key(n) && !c.expires_by(n, now));
        if let Some(t) = expiration::expiration_of_text(x.bans[n].expiration) {
            assert(c.queue.contains(ExpirationEntry { expiration: t, ip: n }));
        }
    }
}

/// The updater keeps track of the ends of its bans, from the start on and over every step: lifting
/// a ban, putting one in place, also on a network whose earlier ban was just lifted, and expiring.
pub proof fn law_ends_stay_tracked(
    state: UpdaterView,
    net: IpNet,
    new: message::NewBanView,
    now: u64,
)
    requires
        tracks_ends(state),
        end_as_written(new),
    ensures
        tracks_ends(UpdaterView::initial()),
        tracks_ends(state.after_deleted(net)),
        tracks_ends(state.after_new(new)),
        tracks_ends(state.cleaned()),
        tracks_ends(state.expired(now)),
{
    lemma_expiry_stays_tracked(state, now);
    lemma_new_stays_tracked(state, new);
}

/// The same over one answer of the decision stream.
pub proof fn law_ends_stay_tracked_over_streams(
    state: UpdaterView,
    deleted: Seq<Option<IpNet>>,
    new: Seq<Option<message::NewBanView>>,
)
    requires
        tracks_ends(state),
        all_end_as_written(new),
    ensures
        tracks_ends(state.after_stream(deleted, new)),
    decreases deleted.len() + new.len(),
{
    if new.len() > 0 {
        let rest = new.drop_last();
        assert(forall|i: int| 0 <= i < rest.len() ==> rest[i] == new[i]);
        law_ends_stay_tracked_over_streams(state, deleted, rest);
        if let Some(b) = new.last() {
            assert(new[new.len() - 1] == Some(b));
            lemma_new_stays_tracked(state.after_stream(deleted, rest), b);
        }
    } else if deleted.len() > 0 {
        law_ends_stay_tracked_over_streams(state, deleted.drop_last(), new);
    }
}

/// The bans that decisions put in place end as they are written.
pub proof fn law_read_bans_end_as_written(d: message::DecisionView)
    ensures
        message::new_ban(d) matches Some(b) ==> end_as_written(b),
{
}

/// While the API cannot be reached no ban outlives its end: after an expiration run the bans that
/// are left either have no end or end later. A ban with no entry that has ended is left alone.
pub proof fn law_no_ban_outlives_its_end(state: UpdaterView, now: u64, net: IpNet)
    requires
        tracks_ends(state),
    ensures
        state.expired(now).bans.contains_key(net) ==> (expiration::expiration_of_text(
            state.expired(now).bans[net].expiration,
        ) matches Some(t) ==> t > now),
        state.bans.contains_key(net) && !state.expires_by(net, now) ==> state.expired(
            now,
        ).bans.contains_key(net) && state.expired(now).bans[net] == state.bans[net],
{
    let c = state.cleaned();
    let x = state.expired(now);
    if x.bans.contains_key(net) {
        assert(state.bans.contains_key(net));
        if let Some(t) = expiration::expiration_of_text(state.bans[net].expiration) {
            let e = ExpirationEntry { expiration: t, ip: net };
            assert(state.queue.contains(e));
            assert(c.queue.contains(e));
        }
    }
    if c.expires_by(net, now) {
        let e = choose|e: ExpirationEntry| #[trigger]
            c.queue.contains(e) && e.ip == net && e.expiration <= now;
        assert(state.queue.contains(e));
    }
}

/// A ban that an answer puts in place is lifted in time while the API cannot be reached, whatever
/// came before it, also where the same answer lifted an earlier ban on the network: an expiration
/// run after its end takes it out and tells the filters.
pub proof fn law_new_bans_end_in_time(
    state: UpdaterView,
    deleted: Seq<Option<IpNet>>,
    new: Seq<Option<message::NewBanView>>,
    net: IpNet,
    i: int,
    messages: Seq<message::BanMessageView>,
    at: Seq<ExpirationEntry>,
    now: u64,
)
    requires
        tracks_ends(state),
        all_end_as_written(new),
        answers::is_last_on(new, net, i),
        new[i]->0.expires matches Some(t) && t <= now,
        state.after_stream(deleted, new).cleaned().unbans_at(messages, at, now),
    ensures
        !state.after_stream(deleted, new).expired(now).bans.contains_key(net),
        exists|j: int|
            0 <= j < messages.len() && #[trigger] messages[j] == new[i]->0.message.lifted(),
{
    let after = state.after_stream(deleted, new);
    let c = after.cleaned();
    let b = new[i]->0;
    law_ends_stay_tracked_over_streams(state, deleted, new);
    answers::law_bans_after_an_answer(state, deleted, new, net);
    assert(end_as_written(b));
    assert(after.bans.contains_key(net) && after.bans[net] == b.message);
    law_no_ban_outlives_its_end(after, now, net);
    let e = ExpirationEntry { expiration: b.expires->0, ip: net };
    assert(after.queue.contains(e));
    assert(c.queue.contains(e));
    assert(c.expires_by(net, now));
    assert(c.bans.contains_key(net));
    let j = choose|j: int| 0 <= j < at.len() && (#[trigger] at[j]).ip == net;
    assert(messages[j] == b.message.lifted());
}

/// Something that happens to the updater.
pub enum UpdaterStep {
    /// Its VM starts.
    Start { registered: Option<u32> },
    /// It gets new settings.
    Configure { config: updater_config::UpdaterConfigView },
    /// A filter announces itself.
    Worker { queue: u32 },
    /// It asks the API.
    Poll,
    /// The API answers.
    Stream { deleted: Seq<Option<IpNet>>, new: Seq<Option<message::NewBanView>> },
    /// The API cannot be reached.
    Expire { now: u64 },
}

impl UpdaterStep {
    /// The new bans of an answer are on valid networks and end as they are written.
    pub open spec fn wf(self) -> bool {
        match self {
            UpdaterStep::Stream { deleted, new } => {
                &&& all_end_as_written(new)
                &&& forall|i: int|
                    0 <= i < new.len() ==> (#[trigger] new[i] matches Some(b) ==> b.message.ip.wf())
            },
            _ => true,
        }
    }

    /// The state after the step.
    pub open spec fn apply(self, state: UpdaterView) -> UpdaterView {
        match self {
            UpdaterStep::Start { registered } => UpdaterView {
                worker_names_queue_id: registered,
                ..state
            },
            UpdaterStep::Configure { config } => UpdaterView { config, ..state },
            UpdaterStep::Worker { queue } => UpdaterView {
                workers: state.workers.push(queue),
                ..state
            },
            UpdaterStep::Poll => state.after_poll(),
            UpdaterStep::Stream { deleted, new } => state.after_stream(deleted, new),
            UpdaterStep::Expire { now } => state.expired(now),
        }
    }
}

/// The state of the updater after some steps from its start.
pub open spec fn reached(steps: Seq<UpdaterStep>) -> UpdaterView
    decreases steps.len(),
{
    if steps.len() == 0 {
        UpdaterView::initial()
    } else {
        steps.last().apply(reached(steps.drop_last()))
    }
}

proof fn lemma_stream_stays_wf(
    state: UpdaterView,
    deleted: Seq<Option<IpNet>>,
    new: Seq<Option<message::NewBanView>>,
)
    requires
        state.wf(),
        forall|i: int|
            0 <= i < new.len() ==> (#[trigger] new[i] matches Some(b) ==> b.message.ip.wf()),
    ensures
        state.after_stream(deleted, new).wf(),
    decreases new.len(),
{
    if new.len() == 0 {
        lemma_deletions(state, deleted);
    } else {
        let rest = new.drop_last();
        assert(forall|i: int| 0 <= i < rest.len() ==> rest[i] == new[i]);
        assert(new[new.len() - 1] == new.last());
        lemma_stream_stays_wf(state, deleted, rest);
    }
}

/// In every state that the updater can reach its bans are kept under their networks and their ends
/// are tracked. So whatever happened before, an expiration run leaves no ban that has ended.
pub proof fn law_bans_end_from_every_state(steps: Seq<UpdaterStep>, now: u64, net: IpNet)
    requires
        forall|i: int| 0 <= i < steps.len() ==> (#[trigger] steps[i]).wf(),
    ensures
        reached(steps).wf(),
        tracks_ends(reached(steps)),
        reached(steps).expired(now).bans.contains_key(net) ==> (expiration::expiration_of_text(
            reached(steps).expired(now).bans[net].expiration,
        ) matches Some(t) ==> t > now),
    decreases steps.len(),
{
    if steps.len() > 0 {
        let rest = steps.drop_last();
        assert(forall|i: int| 0 <= i < rest.len() ==> rest[i] == steps[i]);
        assert(steps[steps.len() - 1] == steps.last());
        law_bans_end_from_every_state(rest, now, net);
        let before = reached(rest);
        match steps.last() {
            UpdaterStep::Stream { deleted, new } => {
                lemma_stream_stays_wf(before, deleted, new);
                law_ends_stay_tracked_over_streams(before, deleted, new);
            },
            UpdaterStep::Expire { now: then } => {
                lemma_expiry_stays_tracked(before, then);
            },
            _ => {},
        }
    }
    law_no_ban_outlives_its_end(reached(steps), now, net);
}

/// A cleanup leaves no entry of a marked network, keeps all others, and a second one changes
/// nothing.
pub proof fn law_cleanup(state: UpdaterView, e: ExpirationEntry)
    ensures
        state.cleaned().queue.contains(e) <==> state.queue.contains(e) && !state.marked.contains(
            e.ip,
        ),
        state.cleaned().cleaned() == state.cleaned(),
{
    let c = state.cleaned();
    assert(c.cleaned().queue =~= c.queue);
}

/// An expiration run is done at once: a second one at the same time finds nothing.
pub proof fn law_expiry_is_idempotent(state: UpdaterView, now: u64)
    ensures
        state.expired(now).expired(now) == state.expired(now),
{
    let x = state.expired(now);
    law_cleanup(state, arbitrary());
    assert(x.cleaned().queue =~= x.queue);
    assert(forall|e: ExpirationEntry| #[trigger] x.queue.contains(e) ==> e.expiration > now);
    assert(x.expired(now).queue =~= x.queue);
    assert(x.expired(now).bans =~= x.bans);
}

/// Only the first request for decisions asks for all of them: once the API has been asked, no step
/// of the updater goes back to the start.
pub proof fn law_startup_once(
    state: UpdaterView,
    deleted: Seq<Option<IpNet>>,
    new: Seq<Option<message::NewBanView>>,
    now: u64,
)
    ensures
        state.workers.len() > 0 ==> !state.after_poll().is_startup,
        state.after_stream(deleted, new).is_startup == state.is_startup,
        state.expired(now).is_startup == state.is_startup,
    decreases deleted.len() + new.len(),
{
    if deleted.len() > 0 {
        law_startup_once(state, deleted.drop_last(), Seq::empty(), now);
    }
    if new.len() > 0 {
        law_startup_once(state, deleted, new.drop_last(), now);
    }
}

} // verus!
