//! The updater: it follows the decision stream of the CrowdSec API and tells the filters what
//! changes.

use vstd::multiset::Multiset;
use vstd::prelude::*;

use crate::batch::BatchError;
use crate::batch;
use crate::expiration::{ExpirationEntry, ExpirationQueue};
use crate::message::{BanMessage, NewBan, StreamResponse};
use crate::message;
use crate::net::IpNet;
use crate::net_map::NetMap;
use crate::query;
use crate::text;
use crate::time::Duration;
use crate::updater_config::UpdaterConfig;
use crate::updater_config;

verus! {

/// The state of the updater.
pub struct CrowdsecUpdater {
    /// The bans in force, by their networks.
    pub bans: NetMap<BanMessage>,
    /// When bans end; looked at only while the API cannot be reached.
    pub expiration_queue: ExpirationQueue,
    /// Networks whose entries are to leave the queue at the next cleanup.
    pub ips_to_remove: NetMap<()>,
    pub config: UpdaterConfig,
    /// Whether the API has not been asked yet.
    pub is_startup: bool,
    /// The queue on which filters announce themselves.
    pub worker_names_queue_id: Option<u32>,
    /// The queues of the filters.
    pub worker_queues_ids: Vec<u32>,
}

/// What the state of the updater says.
#[verifier::ext_equal]
pub struct UpdaterView {
    pub bans: Map<IpNet, message::BanMessageView>,
    pub queue: Multiset<ExpirationEntry>,
    pub marked: Set<IpNet>,
    pub config: updater_config::UpdaterConfigView,
    pub is_startup: bool,
    pub worker_names_queue_id: Option<u32>,
    pub workers: Seq<u32>,
}

impl View for CrowdsecUpdater {
    type V = UpdaterView;

    open spec fn view(&self) -> UpdaterView {
        UpdaterView {
            bans: self.bans@.map_values(|m: BanMessage| m@),
            queue: self.expiration_queue@,
            marked: self.ips_to_remove@.dom(),
            config: self.config@,
            is_startup: self.is_startup,
            worker_names_queue_id: self.worker_names_queue_id,
            workers: self.worker_queues_ids@,
        }
    }
}

impl UpdaterView {
    /// Every ban is kept under its network, which is a valid one.
    pub open spec fn wf(self) -> bool {
        forall|net: IpNet| #[trigger]
            self.bans.contains_key(net) ==> self.bans[net].ip == net && net.wf()
    }

    /// The state of a new updater.
    pub open spec fn initial() -> UpdaterView {
        UpdaterView {
            bans: Map::empty(),
            queue: Multiset::empty(),
            marked: Set::empty(),
            config: updater_config::UpdaterConfigView::defaults(),
            is_startup: true,
            worker_names_queue_id: None,
            workers: Seq::empty(),
        }
    }

    /// The state with the entries of the marked networks out of the queue, and the marks gone.
    pub open spec fn cleaned(self) -> UpdaterView {
        UpdaterView {
            queue: self.queue.filter(|e: ExpirationEntry| !self.marked.contains(e.ip)),
            marked: Set::empty(),
            ..self
        }
    }

    /// The queue holds an end of the ban on `net` that is not after `now`.
    pub open spec fn expires_by(self, net: IpNet, now: u64) -> bool {
        exists|e: ExpirationEntry| #[trigger]
            self.queue.contains(e) && e.ip == net && e.expiration <= now
    }

    /// The cleaned state without the bans that have ended by `now`, and without the entries that
    /// ended them.
    pub open spec fn expired(self, now: u64) -> UpdaterView {
        let c = self.cleaned();
        UpdaterView {
            bans: c.bans.remove_keys(Set::new(|net: IpNet| c.expires_by(net, now))),
            queue: c.queue.filter(|e: ExpirationEntry| e.expiration > now),
            ..c
        }
    }

    /// `messages` lift the bans that have ended by `now`, each once, and `at` are the entries that
    /// ended them: for each ban its earliest one, and the earlier before the later.
    pub open spec fn unbans_at(
        self,
        messages: Seq<message::BanMessageView>,
        at: Seq<ExpirationEntry>,
        now: u64,
    ) -> bool {
        &&& at.len() == messages.len()
        &&& forall|i: int|
            0 <= i < at.len() ==> self.queue.contains(#[trigger] at[i]) && at[i].expiration <= now
                && self.bans.contains_key(at[i].ip) && messages[i] == self.bans[at[i].ip].lifted()
        &&& forall|i: int, f: ExpirationEntry|
            0 <= i < at.len() && #[trigger] self.queue.contains(f) && f.ip == (
            #[trigger] at[i]).ip ==> at[i].expiration <= f.expiration
        &&& forall|i: int, j: int|
            0 <= i < j < at.len() ==> (#[trigger] at[i]).ip != (#[trigger] at[j]).ip
                && at[i].expiration <= at[j].expiration
        &&& forall|net: IpNet| #[trigger]
            self.bans.contains_key(net) && self.expires_by(net, now) ==> exists|i: int|
                0 <= i < at.len() && (#[trigger] at[i]).ip == net
    }

    /// The state after the ban on `net` is lifted.
    pub open spec fn after_deleted(self, net: IpNet) -> UpdaterView {
        if self.bans.contains_key(net) {
            UpdaterView { bans: self.bans.remove(net), marked: self.marked.insert(net), ..self }
        } else {
            self
        }
    }

    /// The state in which the ends of an earlier ban on `net` are forgotten, where that ban was
    /// lifted: the entries of a marked network are out of the queue, and its mark is gone.
    pub open spec fn forgotten(self, net: IpNet) -> UpdaterView {
        if self.marked.contains(net) {
            UpdaterView {
                queue: self.queue.filter(|e: ExpirationEntry| e.ip != net),
                marked: self.marked.remove(net),
                ..self
            }
        } else {
            self
        }
    }

    /// The state after a ban is put in place. The end of an earlier ban that was lifted is
    /// forgotten before the end of the new one is noted.
    pub open spec fn after_new(self, new: message::NewBanView) -> UpdaterView {
        let ip = new.message.ip;
        let before = self.forgotten(ip);
        UpdaterView {
            bans: before.bans.insert(ip, new.message),
            queue: match new.expires {
                Some(expiration) => before.queue.insert(ExpirationEntry { expiration, ip }),
                None => before.queue,
            },
            ..before
        }
    }

    /// The state after the bans on some networks are lifted, the first one first.
    pub open spec fn after_deletions(self, nets: Seq<Option<IpNet>>) -> UpdaterView
        decreases nets.len(),
    {
        if nets.len() == 0 {
            self
        } else {
            let before = self.after_deletions(nets.drop_last());
            match nets.last() {
                Some(net) => before.after_deleted(net),
                None => before,
            }
        }
    }

    /// The messages that lift the bans on some networks, as far as there are such bans.
    pub open spec fn deletion_messages(self, nets: Seq<Option<IpNet>>) -> Seq<
        message::BanMessageView,
    >
        decreases nets.len(),
    {
        if nets.len() == 0 {
            Seq::empty()
        } else {
            let before = self.after_deletions(nets.drop_last());
            let messages = self.deletion_messages(nets.drop_last());
            match nets.last() {
                Some(net) => if before.bans.contains_key(net) {
                    messages.push(before.bans[net].lifted())
                } else {
                    messages
                },
                None => messages,
            }
        }
    }

    /// The state after some bans are put in place, the first one first.
    pub open spec fn after_news(self, news: Seq<Option<message::NewBanView>>) -> UpdaterView
        decreases news.len(),
    {
        if news.len() == 0 {
            self
        } else {
            let before = self.after_news(news.drop_last());
            match news.last() {
                Some(new) => before.after_new(new),
                None => before,
            }
        }
    }

    /// The state after one answer of the decision stream.
    pub open spec fn after_stream(
        self,
        deleted: Seq<Option<IpNet>>,
        new: Seq<Option<message::NewBanView>>,
    ) -> UpdaterView {
        self.after_deletions(deleted).after_news(new)
    }

    /// The messages for the filters that one answer of the decision stream leads to.
    pub open spec fn stream_messages(
        self,
        deleted: Seq<Option<IpNet>>,
        new: Seq<Option<message::NewBanView>>,
    ) -> Seq<message::BanMessageView> {
        self.deletion_messages(deleted) + new_messages(new)
    }

    /// The state after the API is asked, which happens only where there are filters.
    pub open spec fn after_poll(self) -> UpdaterView {
        if self.workers.len() == 0 {
            self
        } else {
            UpdaterView { is_startup: false, ..self }
        }
    }

    /// The request for decisions: everything at the first time, changes later.
    pub open spec fn lapi_request(self) -> LapiRequestView {
        let path = "/v1/decisions/stream"@ + query::query_text(
            query::query_params(
                self.is_startup,
                self.config.scopes,
                self.config.origins,
                self.config.scenarios_containing,
                self.config.scenarios_not_containing,
            ),
        );
        LapiRequestView {
            cluster: self.config.cluster_name,
            headers: seq![
                (":method"@, "GET"@),
                (":path"@, path),
                (":authority"@, "crowdsec"@),
                ("x-api-key"@, self.config.api_key),
            ],
            timeout: self.config.lapi_timeout,
        }
    }
}

/// The messages of some new bans.
pub open spec fn new_messages(news: Seq<Option<message::NewBanView>>) -> Seq<
    message::BanMessageView,
>
    decreases news.len(),
{
    if news.len() == 0 {
        Seq::empty()
    } else {
        match news.last() {
            Some(new) => new_messages(news.drop_last()).push(new.message),
            None => new_messages(news.drop_last()),
        }
    }
}

/// The answer of the API counts as a success exactly with the status 200.
pub open spec fn lapi_succeeded(status: Option<Seq<char>>) -> bool {
    status == Some("200"@)
}

/// Whether a call of the API succeeded.
pub fn lapi_call_succeeded(status: &Option<String>) -> (r: bool)
    ensures
        r == lapi_succeeded(message::optional_text(*status)),
{
    match status {
        Some(s) => text::same_text(s.as_str(), "200"),
        None => false,
    }
}

/// The text of the answer's body: `None` where there is no body, where it is empty, and where it is
/// not UTF-8.
pub fn lapi_body_text(body: Option<Vec<u8>>) -> (r: Option<String>)
    ensures
        r is Some <==> (body matches Some(bytes) && bytes@.len() > 0 && vstd::utf8::valid_utf8(
            bytes@,
        )),
        r matches Some(s) ==> s@ == vstd::utf8::decode_utf8(body->0@),
{
    match body {
        Some(bytes) => if bytes.len() == 0 {
            None
        } else {
            text::decode_text(bytes.as_slice())
        },
        None => None,
    }
}

/// A call of the API.
#[derive(Debug)]
pub struct LapiRequest {
    pub cluster: String,
    pub headers: Vec<(String, String)>,
    pub timeout: Duration,
}

/// What a [`LapiRequest`] says.
pub struct LapiRequestView {
    pub cluster: Seq<char>,
    pub headers: Seq<(Seq<char>, Seq<char>)>,
    pub timeout: Duration,
}

impl View for LapiRequest {
    type V = LapiRequestView;

    open spec fn view(&self) -> LapiRequestView {
        LapiRequestView {
            cluster: self.cluster@,
            headers: text::string_pairs(self.headers@),
            timeout: self.timeout,
        }
    }
}

impl StreamResponse {
    /// The networks whose bans the answer lifts.
    pub open spec fn deleted_nets(self) -> Seq<Option<IpNet>> {
        message::decision_views(self.deleted@).map_values(
            |d: message::DecisionView| message::deleted_net(d),
        )
    }

    /// The bans that the answer puts in place.
    pub open spec fn new_bans(self) -> Seq<Option<message::NewBanView>> {
        message::decision_views(self.new@).map_values(
            |d: message::DecisionView| message::new_ban(d),
        )
    }
}

impl UpdaterView {
    /// From `self` to `left` some of the entries that have ended by `now` were taken out of the
    /// queue, none before an earlier one, together with the bans on their networks; `messages` lift
    /// these bans, and `at` are the entries that ended them.
    spec fn expiring_to(
        self,
        left: UpdaterView,
        messages: Seq<message::BanMessageView>,
        at: Seq<ExpirationEntry>,
        now: u64,
    ) -> bool {
        &&& left == (UpdaterView { bans: left.bans, queue: left.queue, ..self })
        &&& forall|e: ExpirationEntry|
            #![trigger left.queue.count(e)]
            left.queue.count(e) <= self.queue.count(e) && (e.expiration > now ==> left.queue.count(
                e,
            ) == self.queue.count(e))
        &&& forall|e: ExpirationEntry, f: ExpirationEntry|
            self.queue.count(e) > #[trigger] left.queue.count(e) && #[trigger] left.queue.count(f)
                > 0 ==> e.expiration <= f.expiration
        &&& forall|net: IpNet| #[trigger]
            left.bans.contains_key(net) ==> self.bans.contains_key(net) && left.bans[net]
                == self.bans[net]
        &&& forall|net: IpNet, e: ExpirationEntry| #[trigger]
            left.bans.contains_key(net) && e.ip == net ==> #[trigger] left.queue.count(e)
                == self.queue.count(e)
        &&& at.len() == messages.len()
        &&& forall|i: int|
            0 <= i < at.len() ==> self.queue.count(#[trigger] at[i]) > left.queue.count(at[i])
                && at[i].expiration <= now && self.bans.contains_key(at[i].ip)
                && !left.bans.contains_key(at[i].ip) && messages[i]
                == self.bans[at[i].ip].lifted()
        &&& forall|i: int, f: ExpirationEntry|
            0 <= i < at.len() && #[trigger] self.queue.contains(f) && f.ip == (
            #[trigger] at[i]).ip ==> at[i].expiration <= f.expiration
        &&& forall|i: int, j: int|
            0 <= i < j < at.len() ==> (#[trigger] at[i]).ip != (#[trigger] at[j]).ip
                && at[i].expiration <= at[j].expiration
        &&& forall|net: IpNet| #[trigger]
            self.bans.contains_key(net) && !left.bans.contains_key(net) ==> exists|i: int|
                0 <= i < at.len() && (#[trigger] at[i]).ip == net
    }

    /// Taking out the earliest entry, and the ban on its network, goes on with the expiring.
    proof fn lemma_expire_one(
        self,
        left: UpdaterView,
        messages: Seq<message::BanMessageView>,
        at: Seq<ExpirationEntry>,
        now: u64,
        entry: ExpirationEntry,
    )
        requires
            self.expiring_to(left, messages, at, now),
            left.queue.contains(entry),
            forall|f: ExpirationEntry| #[trigger]
                left.queue.contains(f) ==> entry.expiration <= f.expiration,
            entry.expiration <= now,
        ensures
            ({
                let next = UpdaterView {
                    bans: left.bans.remove(entry.ip),
                    queue: left.queue.remove(entry),
                    ..left
                };
                if left.bans.contains_key(entry.ip) {
                    self.expiring_to(
                        next,
                        messages.push(left.bans[entry.ip].lifted()),
                        at.push(entry),
                        now,
                    )
                } else {
                    self.expiring_to(next, messages, at, now)
                }
            }),
    {
        let next = UpdaterView {
            bans: left.bans.remove(entry.ip),
            queue: left.queue.remove(entry),
            ..left
        };
        let found = left.bans.contains_key(entry.ip);
        let at1 = if found {
            at.push(entry)
        } else {
            at
        };
        let messages1 = if found {
            messages.push(left.bans[entry.ip].lifted())
        } else {
            messages
        };
        assert forall|e: ExpirationEntry, f: ExpirationEntry|
            self.queue.count(e) > #[trigger] next.queue.count(e) && #[trigger] next.queue.count(f)
                > 0 implies e.expiration <= f.expiration by {
            assert(left.queue.count(f) > 0);
            assert(left.queue.contains(f));
            assert(e == entry || self.queue.count(e) > left.queue.count(e));
        }
        assert forall|i: int| 0 <= i < at1.len() implies self.queue.count(#[trigger] at1[i])
            > next.queue.count(at1[i]) && at1[i].expiration <= now && self.bans.contains_key(
            at1[i].ip,
        ) && !next.bans.contains_key(at1[i].ip) && messages1[i]
            == self.bans[at1[i].ip].lifted() by {
            if i < at.len() {
                assert(at1[i] == at[i]);
                assert(next.queue.count(at[i]) <= left.queue.count(at[i]));
            } else {
                assert(left.queue.count(entry) > 0);
            }
        }
        assert forall|i: int, f: ExpirationEntry|
            0 <= i < at1.len() && #[trigger] self.queue.contains(f) && f.ip == (
            #[trigger] at1[i]).ip implies at1[i].expiration <= f.expiration by {
            if i < at.len() {
                assert(at1[i] == at[i]);
            } else {
                assert(left.queue.count(f) == self.queue.count(f));
                assert(left.queue.contains(f));
            }
        }
        assert forall|net: IpNet| #[trigger]
            self.bans.contains_key(net) && !next.bans.contains_key(net) implies exists|i: int|
            0 <= i < at1.len() && (#[trigger] at1[i]).ip == net by {
            if left.bans.contains_key(net) {
                assert(at1[at.len() as int].ip == net);
            } else {
                let i = choose|i: int| 0 <= i < at.len() && (#[trigger] at[i]).ip == net;
                assert(at1[i].ip == net);
            }
        }
    }

    /// Once no entry that has ended by `now` is left in the queue, the bans that are left are
    /// those that have not ended.
    proof fn lemma_all_expired(
        self,
        left: UpdaterView,
        messages: Seq<message::BanMessageView>,
        at: Seq<ExpirationEntry>,
        now: u64,
    )
        requires
            self.expiring_to(left, messages, at, now),
            forall|e: ExpirationEntry| #[trigger] left.queue.contains(e) ==> e.expiration > now,
        ensures
            left.bans == self.bans.remove_keys(Set::new(|net: IpNet| self.expires_by(net, now))),
            left.queue == self.queue.filter(|e: ExpirationEntry| e.expiration > now),
            self.unbans_at(messages, at, now),
    {
        let gone = Set::new(|net: IpNet| self.expires_by(net, now));
        assert forall|net: IpNet| #[trigger] self.bans.contains_key(net) implies left.bans.contains_key(
            net,
        ) == !self.expires_by(net, now) by {
            if self.expires_by(net, now) {
                let e = choose|e: ExpirationEntry| #[trigger]
                    self.queue.contains(e) && e.ip == net && e.expiration <= now;
                if left.bans.contains_key(net) {
                    assert(left.queue.count(e) == self.queue.count(e));
                    assert(left.queue.contains(e));
                }
            } else if !left.bans.contains_key(net) {
                let i = choose|i: int| 0 <= i < at.len() && (#[trigger] at[i]).ip == net;
                assert(self.queue.contains(at[i]));
            }
        }
        assert(left.bans =~= self.bans.remove_keys(gone));
        let late = |e: ExpirationEntry| e.expiration > now;
        assert forall|e: ExpirationEntry| left.queue.count(e) == self.queue.filter(late).count(e) by {
            if e.expiration <= now {
                assert(!left.queue.contains(e));
            }
        }
        assert(left.queue =~= self.queue.filter(late));
    }
}

impl Default for CrowdsecUpdater {
    fn default() -> (r: CrowdsecUpdater)
        ensures
            r.wf(),
            r@ == UpdaterView::initial(),
    {
        let r: CrowdsecUpdater = CrowdsecUpdater {
            bans: NetMap::new(),
            expiration_queue: ExpirationQueue::new(),
            ips_to_remove: NetMap::new(),
            config: UpdaterConfig::default(),
            is_startup: true,
            worker_names_queue_id: None,
            worker_queues_ids: Vec::new(),
        };
        assert(r@ =~= UpdaterView::initial());
        r
    }
}

impl CrowdsecUpdater {
    /// The parts are valid, and every ban is kept under its network.
    pub open spec fn wf(&self) -> bool {
        &&& self.bans.wf()
        &&& self.expiration_queue.wf()
        &&& self.ips_to_remove.wf()
        &&& self@.wf()
    }

    /// Marks a network, so that its entries leave the queue at the next cleanup.
    pub fn remove_from_expiration_queue(&mut self, ip: &IpNet)
        requires
            old(self).wf(),
        ensures
            final(self).wf(),
            final(self)@ == (UpdaterView { marked: old(self)@.marked.insert(*ip), ..old(self)@ }),
    {
        self.ips_to_remove.insert(*ip, ());
        assert(self@ =~= UpdaterView { marked: old(self)@.marked.insert(*ip), ..old(self)@ });
    }

    /// Notes the end of the ban on a network.
    pub fn add_to_expiration_queue(&mut self, ip: &IpNet, expiration: u64)
        requires
            old(self).wf(),
        ensures
            final(self).wf(),
            final(self)@ == (UpdaterView {
                queue: old(self)@.queue.insert(ExpirationEntry { expiration, ip: *ip }),
                ..old(self)@
            }),
    {
        self.expiration_queue.push(ExpirationEntry { expiration, ip: *ip });
    }

    /// Takes the entries of all marked networks out of the queue, and forgets the marks.
    pub fn cleanup_expiration_queue(&mut self)
        requires
            old(self).wf(),
        ensures
            final(self).wf(),
            final(self)@ == old(self)@.cleaned(),
    {
        let ghost before = self@;
        let ghost keep = |e: ExpirationEntry| !before.marked.contains(e.ip);
        if self.ips_to_remove.is_empty() {
            assert(before.marked =~= Set::<IpNet>::empty());
            assert(before.queue.filter(keep) =~= before.queue);
            return;
        }
        let mut new_queue: ExpirationQueue = ExpirationQueue::new();
        loop
            invariant
                self.wf(),
                new_queue.wf(),
                before == old(self)@,
                keep == (|e: ExpirationEntry| !before.marked.contains(e.ip)),
                self@ == (UpdaterView { queue: self@.queue, ..before }),
                new_queue@.add(self@.queue.filter(keep)) =~= before.queue.filter(keep),
            ensures
                self.wf(),
                self@ == (UpdaterView { queue: self@.queue, ..before }),
                new_queue@ =~= before.queue.filter(keep),
            decreases self@.queue.len(),
        {
            let ghost rest = self@.queue;
            match self.expiration_queue.pop() {
                Some(entry) => {
                    if !self.ips_to_remove.contains_key(&entry.ip) {
                        new_queue.push(entry);
                    }
                    assert(rest.filter(keep) =~= if keep(entry) {
                        self@.queue.filter(keep).insert(entry)
                    } else {
                        self@.queue.filter(keep)
                    });
                },
                None => {
                    assert(self@.queue.filter(keep) =~= Multiset::<ExpirationEntry>::empty());
                    break;
                },
            }
        }
        self.expiration_queue = new_queue;
        self.ips_to_remove.clear();
        assert(self@ =~= before.cleaned());
    }

    /// Lifts the bans that have ended by `now`, in seconds since the Unix epoch, and gives the
    /// messages that say so to the filters.
    pub fn check_expired_bans(&mut self, now: u64) -> (r: Vec<BanMessage>)
        requires
            old(self).wf(),
        ensures
            final(self).wf(),
            final(self)@ == old(self)@.expired(now),
            exists|at: Seq<ExpirationEntry>| #[trigger]
                old(self)@.cleaned().unbans_at(message::message_views(r@), at, now),
            forall|i: int| 0 <= i < r@.len() ==> (#[trigger] r@[i]).ip.wf(),
    {
        self.cleanup_expiration_queue();
        let ghost c = self@;
        let mut unban_messages: Vec<BanMessage> = Vec::new();
        let ghost mut at: Seq<ExpirationEntry> = Seq::empty();
        assert(message::message_views(unban_messages@) =~= Seq::empty());
        loop
            invariant
                self.wf(),
                c.expiring_to(self@, message::message_views(unban_messages@), at, now),
            ensures
                self.wf(),
                c.expiring_to(self@, message::message_views(unban_messages@), at, now),
                forall|e: ExpirationEntry| #[trigger]
                    self@.queue.contains(e) ==> e.expiration > now,
            decreases self@.queue.len(),
        {
            let ghost left = self@;
            let ghost messages = message::message_views(unban_messages@);
            match self.expiration_queue.peek() {
                Some(entry) => {
                    if now < entry.expiration {
                        break;
                    }
                    proof {
                        c.lemma_expire_one(left, messages, at, now, entry);
                    }
                    match self.bans.remove(&entry.ip) {
                        Some(ban_msg) => {
                            unban_messages.push(ban_msg.into_unban());
                            proof {
                                at = at.push(entry);
                                assert(message::message_views(unban_messages@) =~= messages.push(
                                    left.bans[entry.ip].lifted(),
                                ));
                            }
                        },
                        None => {},
                    }
                    self.expiration_queue.pop();
                    assert(self@.bans =~= left.bans.remove(entry.ip));
                },
                None => {
                    break;
                },
            }
        }
        proof {
            c.lemma_all_expired(self@, message::message_views(unban_messages@), at, now);
            assert forall|i: int| 0 <= i < unban_messages@.len() implies (
            #[trigger] unban_messages@[i]).ip.wf() by {
                assert(c.queue.contains(at[i]));
                assert(message::message_views(unban_messages@)[i] == unban_messages@[i]@);
            }
        }
        unban_messages
    }

    /// Lifts the ban on a network, if there is one, and marks the network so that the end of the
    /// ban is forgotten; gives the message for the filters.
    pub fn apply_deleted(&mut self, net: &IpNet) -> (r: Option<BanMessage>)
        requires
            old(self).wf(),
        ensures
            final(self).wf(),
            final(self)@ == old(self)@.after_deleted(*net),
            r is Some <==> old(self)@.bans.contains_key(*net),
            r matches Some(m) ==> m@ == old(self)@.bans[*net].lifted(),
    {
        match self.bans.remove(net) {
            Some(ban_msg) => {
                assert(self@.bans =~= old(self)@.bans.remove(*net));
                self.remove_from_expiration_queue(net);
                Some(ban_msg.into_unban())
            },
            None => {
                assert(self@.bans =~= old(self)@.bans);
                None
            },
        }
    }

    /// Forgets the ends of an earlier ban on a network, where that ban was lifted.
    fn forget_end(&mut self, net: &IpNet)
        requires
            old(self).wf(),
        ensures
            final(self).wf(),
            final(self)@ == old(self)@.forgotten(*net),
    {
        if !self.ips_to_remove.contains_key(net) {
            return;
        }
        let ghost before = self@;
        let ghost keep = |e: ExpirationEntry| e.ip != *net;
        let mut new_queue: ExpirationQueue = ExpirationQueue::new();
        loop
            invariant
                self.wf(),
                new_queue.wf(),
                keep == (|e: ExpirationEntry| e.ip != *net),
                self@ == (UpdaterView { queue: self@.queue, ..before }),
                new_queue@.add(self@.queue.filter(keep)) =~= before.queue.filter(keep),
            ensures
                self.wf(),
                new_queue.wf(),
                self@ == (UpdaterView { queue: self@.queue, ..before }),
                new_queue@ =~= before.queue.filter(keep),
            decreases self@.queue.len(),
        {
            let ghost rest = self@.queue;
            match self.expiration_queue.pop() {
                Some(entry) => {
                    if entry.ip != *net {
                        new_queue.push(entry);
                    }
                    assert(rest.filter(keep) =~= if keep(entry) {
                        self@.queue.filter(keep).insert(entry)
                    } else {
                        self@.queue.filter(keep)
                    });
                },
                None => {
                    assert(self@.queue.filter(keep) =~= Multiset::<ExpirationEntry>::empty());
                    break;
                },
            }
        }
        self.expiration_queue = new_queue;
        self.ips_to_remove.remove(net);
        assert(self@ =~= before.forgotten(*net));
    }

    /// Puts a ban in place, over an earlier one on the same network, and notes its end; gives the
    /// message for the filters.
    pub fn apply_new(&mut self, new: &NewBan) -> (r: BanMessage)
        requires
            old(self).wf(),
            new.message.ip.wf(),
        ensures
            final(self).wf(),
            final(self)@ == old(self)@.after_new(new@),
            r@ == new.message@,
    {
        let ip: IpNet = new.message.ip;
        self.forget_end(&ip);
        self.bans.insert(ip, new.message.clone());
        assert(self@.bans =~= old(self)@.bans.insert(ip, new.message@));
        if let Some(expiration) = new.expires {
            self.add_to_expiration_queue(&ip, expiration);
        }
        new.message.clone()
    }

    /// Takes up one answer of the decision stream: first what is lifted, then what is new. Gives
    /// the messages for the filters.
    pub fn apply_stream(
        &mut self,
        deleted: &Vec<Option<IpNet>>,
        new: &Vec<Option<NewBan>>,
    ) -> (r: Vec<BanMessage>)
        requires
            old(self).wf(),
            forall|i: int|
                0 <= i < new@.len() ==> (#[trigger] new@[i] matches Some(b) ==> b.message.ip.wf()),
        ensures
            final(self).wf(),
            final(self)@ == old(self)@.after_stream(deleted@, message::new_ban_views(new@)),
            message::message_views(r@) == old(self)@.stream_messages(
                deleted@,
                message::new_ban_views(new@),
            ),
            forall|i: int| 0 <= i < r@.len() ==> (#[trigger] r@[i]).ip.wf(),
    {
        let mut messages: Vec<BanMessage> = Vec::new();
        assert(message::message_views(messages@) =~= Seq::empty());
        let ghost start = self@;
        for i in 0..deleted.len()
            invariant
                self.wf(),
                start == old(self)@,
                self@ == start.after_deletions(deleted@.take(i as int)),
                message::message_views(messages@) == start.deletion_messages(
                    deleted@.take(i as int),
                ),
                forall|j: int| 0 <= j < messages@.len() ==> (#[trigger] messages@[j]).ip.wf(),
        {
            let ghost held = messages@;
            let ghost state = self@;
            proof {
                let now = deleted@.take(i + 1);
                assert(now.drop_last() =~= deleted@.take(i as int));
                assert(now.last() == deleted@[i as int]);
            }
            if let Some(net) = &deleted[i] {
                if let Some(m) = self.apply_deleted(net) {
                    messages.push(m);
                    assert(message::message_views(messages@) =~= message::message_views(held).push(
                        m@,
                    ));
                    assert(state.bans.contains_key(*net));
                }
            }
            assert(message::message_views(messages@) =~= start.deletion_messages(
                deleted@.take(i + 1),
            ));
        }
        assert(deleted@.take(deleted@.len() as int) =~= deleted@);
        let ghost middle = self@;
        let ghost views = message::new_ban_views(new@);
        let ghost lifted = message::message_views(messages@);
        assert(lifted + new_messages(views.take(0)) =~= lifted);
        for i in 0..new.len()
            invariant
                self.wf(),
                views == message::new_ban_views(new@),
                forall|j: int|
                    0 <= j < new@.len() ==> (#[trigger] new@[j] matches Some(b)
                        ==> b.message.ip.wf()),
                self@ == middle.after_news(views.take(i as int)),
                message::message_views(messages@) == lifted + new_messages(views.take(i as int)),
                forall|j: int| 0 <= j < messages@.len() ==> (#[trigger] messages@[j]).ip.wf(),
        {
            let ghost held = messages@;
            proof {
                let now = views.take(i + 1);
                assert(now.drop_last() =~= views.take(i as int));
                assert(now.last() == views[i as int]);
            }
            if let Some(b) = &new[i] {
                let m: BanMessage = self.apply_new(b);
                messages.push(m);
                assert(message::message_views(messages@) =~= message::message_views(held).push(
                    b.message@,
                ));
            }
            assert(message::message_views(messages@) =~= lifted + new_messages(views.take(i + 1)));
        }
        assert(views.take(new@.len() as int) =~= views);
        messages
    }

    /// What the updater asks the API for, and from now on that it has asked. Nothing is asked while
    /// no filter has announced itself.
    pub fn poll_lapi(&mut self) -> (r: Option<LapiRequest>)
        requires
            old(self).wf(),
        ensures
            final(self).wf(),
            final(self)@ == old(self)@.after_poll(),
            r is Some <==> old(self)@.workers.len() > 0,
            r matches Some(request) ==> request@ == old(self)@.lapi_request(),
    {
        if self.worker_queues_ids.len() == 0 {
            return None;
        }
        let mut path: String = "/v1/decisions/stream".to_owned();
        let query: String = query::build_query_params(
            self.is_startup,
            self.config.scopes.as_slice(),
            self.config.origins.as_slice(),
            self.config.scenarios_containing.as_slice(),
            self.config.scenarios_not_containing.as_slice(),
        );
        path.append(query.as_str());
        self.is_startup = false;
        let headers: Vec<(String, String)> = vec![
            (":method".to_owned(), "GET".to_owned()),
            (":path".to_owned(), path),
            (":authority".to_owned(), "crowdsec".to_owned()),
            ("x-api-key".to_owned(), self.config.api_key.clone()),
        ];
        let request: LapiRequest = LapiRequest {
            cluster: self.config.cluster_name.clone(),
            headers,
            timeout: self.config.lapi_timeout,
        };
        assert(request@.headers =~= old(self)@.lapi_request().headers);
        Some(request)
    }

    /// What follows the attempt to call the API: where the call could not be made, the bans that
    /// have ended by `now` are lifted. Gives the messages for the filters.
    pub fn on_dispatch(&mut self, dispatched: bool, now: u64) -> (r: Vec<BanMessage>)
        requires
            old(self).wf(),
        ensures
            final(self).wf(),
            dispatched ==> final(self)@ == old(self)@ && r@.len() == 0,
            !dispatched ==> final(self)@ == old(self)@.expired(now) && exists|
                at: Seq<ExpirationEntry>,
            | #[trigger]
                old(self)@.cleaned().unbans_at(message::message_views(r@), at, now),
            forall|i: int| 0 <= i < r@.len() ==> (#[trigger] r@[i]).ip.wf(),
    {
        if dispatched {
            Vec::new()
        } else {
            self.check_expired_bans(now)
        }
    }

    /// What follows the answer of the API: where it succeeded, what the decision stream says is
    /// taken up, if it could be read; where it failed, the bans that have ended by `now` are
    /// lifted. Gives the messages for the filters.
    pub fn handle_lapi_response(
        &mut self,
        status: Option<String>,
        stream: Option<StreamResponse>,
        now: u64,
    ) -> (r: Vec<BanMessage>)
        requires
            old(self).wf(),
        ensures
            final(self).wf(),
            lapi_succeeded(message::optional_text(status)) ==> match stream {
                Some(s) => {
                    &&& final(self)@ == old(self)@.after_stream(s.deleted_nets(), s.new_bans())
                    &&& message::message_views(r@) == old(self)@.stream_messages(
                        s.deleted_nets(),
                        s.new_bans(),
                    )
                },
                None => final(self)@ == old(self)@ && r@.len() == 0,
            },
            !lapi_succeeded(message::optional_text(status)) ==> final(self)@ == old(self)@.expired(
                now,
            ) && exists|at: Seq<ExpirationEntry>| #[trigger]
                old(self)@.cleaned().unbans_at(message::message_views(r@), at, now),
            forall|i: int| 0 <= i < r@.len() ==> (#[trigger] r@[i]).ip.wf(),
    {
        if !lapi_call_succeeded(&status) {
            return self.check_expired_bans(now);
        }
        match stream {
            Some(s) => {
                let deleted: Vec<Option<IpNet>> = message::read_deleted(&s.deleted);
                let new: Vec<Option<NewBan>> = message::read_new(&s.new);
                self.apply_stream(&deleted, &new)
            },
            None => Vec::new(),
        }
    }

    /// The batches in which messages go to the filters, by the limits of the settings.
    pub fn broadcast_decisions(&self, decisions: &[BanMessage]) -> (r: Result<
        Vec<Vec<BanMessage>>,
        BatchError,
    >)
        requires
            forall|i: int| 0 <= i < decisions@.len() ==> (#[trigger] decisions@[i]).ip.wf(),
        ensures
            r is Ok <==> forall|i: int|
                0 <= i < decisions@.len() ==> batch::encoding_of((#[trigger] decisions@[i])@) is Some,
            r matches Ok(batches) ==> batch::batch_views(batches@) == batch::batches_of(
                message::message_views(decisions@),
                self@.config.batch_size,
                self@.config.max_batch_bytes,
            ),
    {
        batch::send_batched(decisions, self.config.batch_size, self.config.max_batch_bytes)
    }

    /// Keeps the queue on which filters announce themselves, if it could be registered.
    pub fn on_vm_start(&mut self, registered: Option<u32>) -> (r: bool)
        requires
            old(self).wf(),
        ensures
            final(self).wf(),
            final(self)@ == (UpdaterView { worker_names_queue_id: registered, ..old(self)@ }),
            r,
    {
        self.worker_names_queue_id = registered;
        true
    }

    /// Takes up the settings of the plugin, if there are any and they could be read. Whether the
    /// plugin can run.
    pub fn on_configure(&mut self, parsed: Option<Result<UpdaterConfig, String>>) -> (r: bool)
        requires
            old(self).wf(),
        ensures
            final(self).wf(),
            parsed matches Some(Ok(config)) ==> final(self)@ == (UpdaterView {
                config: config@,
                ..old(self)@
            }),
            !(parsed matches Some(Ok(_))) ==> final(self)@ == old(self)@,
            r <==> !(parsed matches Some(Err(_))),
    {
        match parsed {
            Some(Ok(config)) => {
                self.config = config;
                true
            },
            Some(Err(_)) => false,
            None => true,
        }
    }

    /// Keeps the queue of a filter that announced itself, if it was found.
    pub fn on_worker_queue(&mut self, resolved: Option<u32>)
        requires
            old(self).wf(),
        ensures
            final(self).wf(),
            final(self)@ == (UpdaterView {
                workers: match resolved {
                    Some(id) => old(self)@.workers.push(id),
                    None => old(self)@.workers,
                },
                ..old(self)@
            }),
    {
        if let Some(id) = resolved {
            self.worker_queues_ids.push(id);
        }
    }
}

/// The request for decisions is made to the cluster of the settings with their key and within their
/// time, and its query asks for exactly what the settings list: a scope, an origin or a part of a
/// scenario's name under its own name where the setting of that name holds it and nowhere else, and
/// for everything exactly at the first request. `params` are the parameters of the query.
pub proof fn law_request_asks_for_the_settings(u: UpdaterView) -> (params: Seq<Seq<char>>)
    ensures
        u.lapi_request().cluster == u.config.cluster_name,
        u.lapi_request().timeout == u.config.lapi_timeout,
        u.lapi_request().headers.len() == 4,
        u.lapi_request().headers[0] == (":method"@, "GET"@),
        u.lapi_request().headers[1] == (
            ":path"@,
            "/v1/decisions/stream"@ + query::query_text(params),
        ),
        u.lapi_request().headers[2] == (":authority"@, "crowdsec"@),
        u.lapi_request().headers[3] == ("x-api-key"@, u.config.api_key),
        params.contains("startup=true"@) <==> u.is_startup,
        forall|v: Seq<char>|
            #![trigger u.config.scopes.contains(v)]
            params.contains("scopes="@ + v) <==> u.config.scopes.contains(v),
        forall|v: Seq<char>|
            #![trigger u.config.origins.contains(v)]
            params.contains("origins="@ + v) <==> u.config.origins.contains(v),
        forall|v: Seq<char>|
            #![trigger u.config.scenarios_containing.contains(v)]
            params.contains("scenarios_containing="@ + v) <==> u.config.scenarios_containing.contains(
                v,
            ),
        forall|v: Seq<char>|
            #![trigger u.config.scenarios_not_containing.contains(v)]
            params.contains("scenarios_not_containing="@ + v)
                <==> u.config.scenarios_not_containing.contains(v),
        params.len() == (if u.is_startup {
            1int
        } else {
            0
        }) + u.config.scopes.len() + u.config.origins.len() + u.config.scenarios_containing.len()
            + u.config.scenarios_not_containing.len(),
{
    let c = u.config;
    let params = query::query_params(
        u.is_startup,
        c.scopes,
        c.origins,
        c.scenarios_containing,
        c.scenarios_not_containing,
    );
    query::law_values_stand_under_their_names(
        u.is_startup,
        c.scopes,
        c.origins,
        c.scenarios_containing,
        c.scenarios_not_containing,
    );
    query::law_query_asks_for_the_lists(
        u.is_startup,
        c.scopes,
        c.origins,
        c.scenarios_containing,
        c.scenarios_not_containing,
        Seq::empty(),
    );
    assert forall|v: Seq<char>|
        #![trigger c.scopes.contains(v)]
        #![trigger c.origins.contains(v)]
        #![trigger c.scenarios_containing.contains(v)]
        #![trigger c.scenarios_not_containing.contains(v)]
        {
            &&& params.contains("scopes="@ + v) <==> c.scopes.contains(v)
            &&& params.contains("origins="@ + v) <==> c.origins.contains(v)
            &&& params.contains("scenarios_containing="@ + v) <==> c.scenarios_containing.contains(v)
            &&& params.contains("scenarios_not_containing="@ + v)
                <==> c.scenarios_not_containing.contains(v)
        } by {
        query::law_query_asks_for_the_lists(
            u.is_startup,
            c.scopes,
            c.origins,
            c.scenarios_containing,
            c.scenarios_not_containing,
            v,
        );
    }
    params
}

/// Lifting the ban on a network takes away that ban and no other, and marks the network exactly
/// where there was one. Everything else stays.
pub proof fn law_one_deletion(state: UpdaterView, net: IpNet, other: IpNet)
    ensures
        ({
            let after = state.after_deleted(net);
            &&& after.bans.contains_key(other) <==> state.bans.contains_key(other) && other != net
            &&& after.bans.contains_key(other) ==> after.bans[other] == state.bans[other]
            &&& after.marked.contains(other) <==> state.marked.contains(other) || (other == net
                && state.bans.contains_key(net))
            &&& after.queue == state.queue
            &&& after.config == state.config
            &&& after.is_startup == state.is_startup
            &&& after.worker_names_queue_id == state.worker_names_queue_id
            &&& after.workers == state.workers
        }),
{
}

/// A new ban stands under its network and leaves the others alone. Its mark goes, with the ends that
/// the mark was for, and its own end, where it has one, is noted once. Everything else stays.
pub proof fn law_one_new_ban(
    state: UpdaterView,
    new: message::NewBanView,
    other: IpNet,
    e: ExpirationEntry,
)
    ensures
        ({
            let ip = new.message.ip;
            let after = state.after_new(new);
            &&& after.bans.contains_key(other) <==> state.bans.contains_key(other) || other == ip
            &&& after.bans[ip] == new.message
            &&& other != ip && after.bans.contains_key(other) ==> after.bans[other]
                == state.bans[other]
            &&& after.marked.contains(other) <==> state.marked.contains(other) && other != ip
            &&& after.queue.count(e) == (if e.ip == ip && state.marked.contains(ip) {
                0nat
            } else {
                state.queue.count(e)
            }) + (if e.ip == ip && new.expires == Some(e.expiration) {
                1nat
            } else {
                0
            })
            &&& after.config == state.config
            &&& after.is_startup == state.is_startup
            &&& after.worker_names_queue_id == state.worker_names_queue_id
            &&& after.workers == state.workers
        }),
{
}

/// Forgetting the end of a lifted ban takes the entries and the mark of its network away, and
/// without a mark nothing.
pub proof fn law_forgetting_an_end(state: UpdaterView, net: IpNet, other: IpNet, e: ExpirationEntry)
    ensures
        ({
            let after = state.forgotten(net);
            &&& after.queue.count(e) == (if e.ip == net && state.marked.contains(net) {
                0nat
            } else {
                state.queue.count(e)
            })
            &&& after.marked.contains(other) <==> state.marked.contains(other) && other != net
            &&& after.bans == state.bans
            &&& after.config == state.config
            &&& after.is_startup == state.is_startup
            &&& after.worker_names_queue_id == state.worker_names_queue_id
            &&& after.workers == state.workers
        }),
{
}

/// A cleanup takes the entries of the marked networks out of the queue and leaves every other as
/// often as it was there. No mark is left, and everything else stays.
pub proof fn law_cleanup_takes_marked_entries(state: UpdaterView, net: IpNet, e: ExpirationEntry)
    ensures
        ({
            let after = state.cleaned();
            &&& after.queue.count(e) == (if state.marked.contains(e.ip) {
                0nat
            } else {
                state.queue.count(e)
            })
            &&& !after.marked.contains(net)
            &&& after.bans == state.bans
            &&& after.config == state.config
            &&& after.is_startup == state.is_startup
            &&& after.worker_names_queue_id == state.worker_names_queue_id
            &&& after.workers == state.workers
        }),
{
}

/// A ban expires exactly where an entry of its network that is not marked has come: its end is not
/// after `now`. The other bans stay as they are. Of the queue those entries stay that are still to
/// come and whose networks are not marked, and no mark is left.
pub proof fn law_bans_expire_at_their_ends(
    state: UpdaterView,
    now: u64,
    net: IpNet,
    e: ExpirationEntry,
)
    ensures
        ({
            let after = state.expired(now);
            &&& after.bans.contains_key(net) <==> state.bans.contains_key(net) && (
            state.marked.contains(net) || forall|f: ExpirationEntry| #[trigger]
                state.queue.contains(f) && f.ip == net ==> f.expiration > now)
            &&& after.bans.contains_key(net) ==> after.bans[net] == state.bans[net]
            &&& after.queue.count(e) == (if state.marked.contains(e.ip) || e.expiration <= now {
                0nat
            } else {
                state.queue.count(e)
            })
            &&& !after.marked.contains(net)
            &&& after.config == state.config
            &&& after.is_startup == state.is_startup
            &&& after.worker_names_queue_id == state.worker_names_queue_id
            &&& after.workers == state.workers
        }),
{
    let c = state.cleaned();
    assert forall|f: ExpirationEntry| #[trigger] state.queue.contains(f) && !state.marked.contains(
        f.ip,
    ) implies c.queue.contains(f) by {}
    assert forall|f: ExpirationEntry| #[trigger] c.queue.contains(f) implies state.queue.contains(f)
        && !state.marked.contains(f.ip) by {}
}

/// The messages of an expiry lift exactly the bans that expire, each once, with the expiration that
/// the ban had, and the bans that end earlier first. `at` are the earliest entries of their
/// networks.
pub proof fn law_expired_bans_are_told_once(
    state: UpdaterView,
    messages: Seq<message::BanMessageView>,
    at: Seq<ExpirationEntry>,
    now: u64,
)
    requires
        state.wf(),
        state.cleaned().unbans_at(messages, at, now),
    ensures
        at.len() == messages.len(),
        forall|i: int|
            0 <= i < messages.len() ==> {
                let m = #[trigger] messages[i];
                &&& m.ip == at[i].ip
                &&& m.remediation == "unban"@
                &&& state.bans.contains_key(m.ip)
                &&& m.expiration == state.bans[m.ip].expiration
                &&& !state.expired(now).bans.contains_key(m.ip)
                &&& !state.marked.contains(m.ip)
                &&& state.queue.contains(at[i])
                &&& at[i].expiration <= now
            },
        forall|i: int, f: ExpirationEntry|
            0 <= i < at.len() && #[trigger] state.queue.contains(f) && f.ip == (#[trigger] at[i]).ip
                ==> at[i].expiration <= f.expiration,
        forall|i: int, j: int|
            0 <= i < j < messages.len() ==> (#[trigger] messages[i]).ip != (
            #[trigger] messages[j]).ip && at[i].expiration <= at[j].expiration,
        forall|net: IpNet| #[trigger]
            state.bans.contains_key(net) && !state.expired(now).bans.contains_key(net) ==> exists|
                i: int,
            | 0 <= i < messages.len() && (#[trigger] messages[i]).ip == net,
{
    let c = state.cleaned();
    assert forall|i: int| 0 <= i < messages.len() implies {
        let m = #[trigger] messages[i];
        &&& m.ip == at[i].ip
        &&& m.remediation == "unban"@
        &&& state.bans.contains_key(m.ip)
        &&& m.expiration == state.bans[m.ip].expiration
        &&& !state.expired(now).bans.contains_key(m.ip)
        &&& !state.marked.contains(m.ip)
        &&& state.queue.contains(at[i])
        &&& at[i].expiration <= now
    } by {
        assert(c.queue.contains(at[i]));
        assert(c.expires_by(at[i].ip, now));
    }
    assert forall|i: int, f: ExpirationEntry|
        0 <= i < at.len() && #[trigger] state.queue.contains(f) && f.ip == (
        #[trigger] at[i]).ip implies at[i].expiration <= f.expiration by {
        assert(messages[i].ip == at[i].ip);
        assert(c.queue.contains(f));
    }
    assert forall|i: int, j: int| 0 <= i < j < messages.len() implies (#[trigger] messages[i]).ip
        != (#[trigger] messages[j]).ip && at[i].expiration <= at[j].expiration by {
        assert(at[i].ip != at[j].ip);
    }
    assert forall|net: IpNet| #[trigger]
        state.bans.contains_key(net) && !state.expired(now).bans.contains_key(net) implies exists|
        i: int,
    | 0 <= i < messages.len() && (#[trigger] messages[i]).ip == net by {
        assert(c.bans.contains_key(net) && c.expires_by(net, now));
        let i = choose|i: int| 0 <= i < at.len() && (#[trigger] at[i]).ip == net;
        assert(messages[i].ip == net);
    }
}

/// What an answer lifts and bans is taken up one by one, in its order, and what could not be read is
/// passed over.
pub proof fn law_answers_are_taken_up_one_by_one(
    state: UpdaterView,
    deleted: Seq<Option<IpNet>>,
    net: IpNet,
    new: Seq<Option<message::NewBanView>>,
    ban: message::NewBanView,
)
    ensures
        state.after_stream(Seq::empty(), Seq::empty()) == state,
        state.after_deletions(deleted.push(None)) == state.after_deletions(deleted),
        state.after_deletions(deleted.push(Some(net))) == state.after_deletions(
            deleted,
        ).after_deleted(net),
        state.after_stream(deleted, Seq::empty()) == state.after_deletions(deleted),
        state.after_stream(deleted, new.push(None)) == state.after_stream(deleted, new),
        state.after_stream(deleted, new.push(Some(ban))) == state.after_stream(
            deleted,
            new,
        ).after_new(ban),
{
    assert(deleted.push(None).drop_last() =~= deleted);
    assert(deleted.push(Some(net)).drop_last() =~= deleted);
    assert(new.push(None).drop_last() =~= new);
    assert(new.push(Some(ban)).drop_last() =~= new);
}

/// Every new ban that could be read is told as it is, each in its order, and what could not be read
/// is not told.
pub proof fn law_new_bans_are_told(
    a: Seq<Option<message::NewBanView>>,
    b: Seq<Option<message::NewBanView>>,
    ban: message::NewBanView,
)
    ensures
        new_messages(a + b) == new_messages(a) + new_messages(b),
        new_messages(seq![Some(ban)]) == seq![ban.message],
        new_messages(seq![None]).len() == 0,
        new_messages(Seq::empty()).len() == 0,
    decreases b.len(),
{
    let one = seq![Some(ban)];
    let none = seq![None::<message::NewBanView>];
    assert(one.drop_last() =~= Seq::empty());
    assert(none.drop_last() =~= Seq::empty());
    assert(new_messages(one.drop_last()) =~= Seq::empty());
    assert(new_messages(one) =~= seq![ban.message]);
    if b.len() == 0 {
        assert(a + b =~= a);
        assert(new_messages(a) + new_messages(b) =~= new_messages(a));
    } else {
        law_new_bans_are_told(a, b.drop_last(), ban);
        assert((a + b).drop_last() =~= a + b.drop_last());
        assert((a + b).last() == b.last());
        assert(new_messages(a + b) =~= new_messages(a) + new_messages(b));
    }
}

/// The messages of an answer are those of what it lifts, and behind them those of what it bans.
pub proof fn law_lifted_bans_are_told_first(
    state: UpdaterView,
    deleted: Seq<Option<IpNet>>,
    new: Seq<Option<message::NewBanView>>,
)
    ensures
        ({
            let messages = state.stream_messages(deleted, new);
            let n = state.deletion_messages(deleted).len() as int;
            &&& messages.len() == n + new_messages(new).len()
            &&& messages.take(n) == state.deletion_messages(deleted)
            &&& messages.skip(n) == new_messages(new)
        }),
{
    let messages = state.stream_messages(deleted, new);
    let n = state.deletion_messages(deleted).len() as int;
    assert(messages.take(n) =~= state.deletion_messages(deleted));
    assert(messages.skip(n) =~= new_messages(new));
}

/// Neither an answer nor an expiry changes the settings, the queues or whether the API was asked,
/// and a request changes only the latter, where there are filters.
pub proof fn law_steps_keep_the_settings(
    state: UpdaterView,
    deleted: Seq<Option<IpNet>>,
    new: Seq<Option<message::NewBanView>>,
)
    ensures
        ({
            let after = state.after_stream(deleted, new);
            &&& after.config == state.config
            &&& after.is_startup == state.is_startup
            &&& after.worker_names_queue_id == state.worker_names_queue_id
            &&& after.workers == state.workers
        }),
        state.workers.len() == 0 ==> state.after_poll() == state,
        state.workers.len() > 0 ==> {
            let after = state.after_poll();
            &&& !after.is_startup
            &&& after.bans == state.bans
            &&& after.queue == state.queue
            &&& after.marked == state.marked
            &&& after.config == state.config
            &&& after.worker_names_queue_id == state.worker_names_queue_id
            &&& after.workers == state.workers
        },
    decreases deleted.len() + new.len(),
{
    if deleted.len() > 0 {
        law_steps_keep_the_settings(state, deleted.drop_last(), Seq::empty());
    }
    if new.len() > 0 {
        law_steps_keep_the_settings(state, deleted, new.drop_last());
    }
}

/// A new updater knows no ban and no end, has no filters and has not asked the API. Its settings are
/// the defaults.
pub proof fn law_new_updater(net: IpNet, e: ExpirationEntry)
    ensures
        ({
            let u = UpdaterView::initial();
            &&& !u.bans.contains_key(net)
            &&& u.queue.count(e) == 0
            &&& !u.marked.contains(net)
            &&& u.is_startup
            &&& u.worker_names_queue_id is None
            &&& u.workers.len() == 0
            &&& u.config == updater_config::UpdaterConfigView::defaults()
        }),
{
}

/// An answer of the API succeeded where its status is 200, and where it has another or none it did
/// not.
pub proof fn law_only_200_succeeds(status: Seq<char>)
    ensures
        lapi_succeeded(Some(status)) <==> status == "200"@,
        !lapi_succeeded(None),
{
}

/// The state is in order exactly where every ban stands under its own network and that is a valid
/// one.
pub proof fn law_state_in_order(state: UpdaterView)
    ensures
        state.wf() <==> forall|net: IpNet|
            state.bans.contains_key(net) ==> (#[trigger] state.bans[net]).ip == net && (match net {
                IpNet::V4 { addr, prefix_len } => prefix_len <= 32,
                IpNet::V6 { addr, prefix_len } => prefix_len <= 128,
            }),
{
    if forall|net: IpNet|
        state.bans.contains_key(net) ==> (#[trigger] state.bans[net]).ip == net && (match net {
            IpNet::V4 { addr, prefix_len } => prefix_len <= 32,
            IpNet::V6 { addr, prefix_len } => prefix_len <= 128,
        }) {
        assert forall|net: IpNet| #[trigger] state.bans.contains_key(net) implies state.bans[net].ip
            == net && net.wf() by {
            assert(state.bans[net].ip == net);
        }
    }
}

/// What an answer lifts and bans is what its decisions say, each in its place.
pub proof fn law_answers_say_what_their_decisions_say(s: StreamResponse)
    ensures
        s.deleted_nets().len() == s.deleted@.len(),
        forall|i: int|
            0 <= i < s.deleted@.len() ==> #[trigger] s.deleted_nets()[i] == message::deleted_net(
                s.deleted@[i]@,
            ),
        s.new_bans().len() == s.new@.len(),
        forall|i: int|
            0 <= i < s.new@.len() ==> #[trigger] s.new_bans()[i] == message::new_ban(s.new@[i]@),
{
}

/// What the updater and its requests say is what their fields hold.
pub proof fn law_updater_shows_its_fields(u: CrowdsecUpdater, r: LapiRequest, net: IpNet)
    ensures
        u@.bans.contains_key(net) <==> u.bans@.contains_key(net),
        u.bans@.contains_key(net) ==> u@.bans[net] == u.bans@[net]@,
        u@.queue == u.expiration_queue@,
        u@.marked.contains(net) <==> u.ips_to_remove@.contains_key(net),
        u@.config == u.config@,
        u@.is_startup == u.is_startup,
        u@.worker_names_queue_id == u.worker_names_queue_id,
        u@.workers == u.worker_queues_ids@,
        r@.cluster == r.cluster@,
        r@.headers == text::string_pairs(r.headers@),
        r@.timeout == r.timeout,
{
}

} // verus!
