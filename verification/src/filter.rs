//! The filter of a worker: it announces itself to the updater and takes up the bans that the
//! updater sends.

use vstd::prelude::*;

use crate::filter_config::FilterConfig;
use crate::filter_config;
use crate::ip_storage::IpStorage;
use crate::message::BanMessage;
use crate::message;
use crate::time::Duration;
use crate::worker;

verus! {

/// The state of a filter, its bans aside, which it shares with the requests that it looks at.
pub struct CrowdsecFilter {
    /// Whether the filter has announced itself.
    pub has_sent_name: bool,
    pub worker_uuid: u128,
    pub config: FilterConfig,
}

/// What the state of a filter says.
pub struct FilterView {
    pub has_sent_name: bool,
    pub worker_uuid: u128,
    pub config: filter_config::FilterConfigView,
}

impl View for CrowdsecFilter {
    type V = FilterView;

    open spec fn view(&self) -> FilterView {
        FilterView {
            has_sent_name: self.has_sent_name,
            worker_uuid: self.worker_uuid,
            config: self.config@,
        }
    }
}

impl FilterView {
    /// The queue that the filter has to find before it can announce itself: the name of the VM
    /// that registered it, and its own. `None` once the filter has announced itself.
    pub open spec fn wanted_queue(self) -> Option<(Seq<char>, Seq<char>)> {
        if self.has_sent_name {
            None
        } else {
            Some((self.config.singleton_name, self.config.worker_names_queue))
        }
    }

    /// The state after the wanted queue was looked for.
    pub open spec fn after_lookup(self, resolved: Option<u32>) -> FilterView {
        FilterView { has_sent_name: self.has_sent_name || resolved is Some, ..self }
    }

    /// What goes to the queue that was found: the announcement, unless it went out before.
    pub open spec fn sent_to(self, resolved: Option<u32>) -> Option<(u32, Seq<u8>)> {
        match resolved {
            Some(id) => if self.has_sent_name {
                None
            } else {
                Some((id, worker::announcement(self.worker_uuid)))
            },
            None => None,
        }
    }
}

impl Default for CrowdsecFilter {
    fn default() -> (r: CrowdsecFilter)
        ensures
            !r@.has_sent_name,
            worker::is_random_uuid(r@.worker_uuid),
            r@.config == filter_config::FilterConfigView::defaults(),
    {
        CrowdsecFilter {
            has_sent_name: false,
            worker_uuid: worker::new_uuid(),
            config: FilterConfig::default(),
        }
    }
}

/// The messages of a payload, which was read as a batch or, failing that, as a single message.
pub open spec fn payload_messages(
    batch: Option<Seq<message::BanMessageView>>,
    single: Option<message::BanMessageView>,
) -> Option<Seq<message::BanMessageView>> {
    match (batch, single) {
        (Some(messages), _) => Some(messages),
        (None, Some(m)) => Some(seq![m]),
        (None, None) => None,
    }
}

/// What a batch says, if there is one.
pub open spec fn batch_view(batch: Option<Vec<BanMessage>>) -> Option<
    Seq<message::BanMessageView>,
> {
    match batch {
        Some(messages) => Some(message::message_views(messages@)),
        None => None,
    }
}

/// What a message says, if there is one.
pub open spec fn single_view(single: Option<BanMessage>) -> Option<message::BanMessageView> {
    match single {
        Some(m) => Some(m@),
        None => None,
    }
}

/// Takes up a payload from the updater, which was read as a batch of messages or, failing that, as
/// a single one. The number of messages; `None` where it was neither, and then nothing changes.
pub fn on_queue_ready(
    bans: &mut IpStorage,
    batch: Option<Vec<BanMessage>>,
    single: Option<BanMessage>,
) -> (r: Option<usize>)
    requires
        batch matches Some(messages) ==> forall|i: int|
            0 <= i < messages@.len() ==> (#[trigger] messages@[i]).ip.wf(),
        single matches Some(m) ==> m.ip.wf(),
    ensures
        match payload_messages(batch_view(batch), single_view(single)) {
            Some(messages) => final(bans)@ == old(bans)@.after(messages) && r == Some(
                messages.len() as usize,
            ),
            None => final(bans)@ == old(bans)@ && r is None,
        },
{
    let messages: Vec<BanMessage> = match batch {
        Some(messages) => messages,
        None => match single {
            Some(m) => {
                let one: Vec<BanMessage> = vec![m];
                assert(message::message_views(one@) =~= seq![m@]);
                one
            },
            None => {
                return None;
            },
        },
    };
    bans.apply_batch(&messages);
    Some(messages.len())
}

impl CrowdsecFilter {
    /// What the filter needs when its VM starts: how often it ticks, and the name of the queue on
    /// which it receives messages.
    pub fn on_vm_start(&self) -> (r: (Duration, String))
        ensures
            r.0 == self@.config.tick_period,
            r.1@ == worker::queue_name(worker::uuid_notation(self@.worker_uuid)),
    {
        let worker: String = worker::uuid_text(self.worker_uuid);
        (self.config.tick_period, worker::worker_queue_name(worker.as_str()))
    }

    /// Takes up the settings of the plugin, if there are any and they could be read. Whether the
    /// plugin can run.
    pub fn on_configure(&mut self, parsed: Option<Result<FilterConfig, String>>) -> (r: bool)
        ensures
            parsed matches Some(Ok(config)) ==> final(self)@ == (FilterView {
                config: config@,
                ..old(self)@
            }),
            !(parsed matches Some(Ok(_))) ==> final(self)@ == old(self)@,
            r <==> !(parsed matches Some(Err(_))),
    {
        match parsed {
            Some(Ok(config)) => {
                self.config = config;
                true
            },
            Some(Err(_)) => false,
            None => true,
        }
    }

    /// The queue to look for, until the filter has announced itself: the name of the VM that
    /// registered it, and its own.
    pub fn on_tick(&self) -> (r: Option<(String, String)>)
        ensures
            r is Some <==> self@.wanted_queue() is Some,
            r matches Some((vm, queue)) ==> self@.wanted_queue() == Some((vm@, queue@)),
    {
        if self.has_sent_name {
            return None;
        }
        Some((self.config.singleton_name.clone(), self.config.worker_names_queue.clone()))
    }

    /// Goes on with the queue that was found: the bytes to put into it. They count as sent from
    /// then on, whatever becomes of them.
    pub fn on_updater_queue(&mut self, resolved: Option<u32>) -> (r: Option<(u32, Vec<u8>)>)
        ensures
            final(self)@ == old(self)@.after_lookup(resolved),
            r is Some <==> old(self)@.sent_to(resolved) is Some,
            r matches Some((id, bytes)) ==> old(self)@.sent_to(resolved) == Some((id, bytes@)),
    {
        if self.has_sent_name {
            return None;
        }
        match resolved {
            Some(id) => {
                let payload: Vec<u8> = worker::worker_announcement(self.worker_uuid);
                self.has_sent_name = true;
                Some((id, payload))
            },
            None => None,
        }
    }
}

/// A filter with the default settings looks for the queue on which the updater expects it.
pub proof fn law_default_filter_finds_the_updater(state: FilterView)
    requires
        state.config == filter_config::FilterConfigView::defaults(),
        !state.has_sent_name,
    ensures
        state.wanted_queue() matches Some((vm, queue)) && queue == worker::names_queue(),
{
}

/// A filter announces itself once: with the queue found it does so and looks for it no more, and
/// without it everything stays as it is.
pub proof fn law_announced_once(state: FilterView, found: u32, again: Option<u32>)
    ensures
        state.after_lookup(None) == state,
        state.sent_to(None) is None,
        state.after_lookup(Some(found)).wanted_queue() is None,
        state.after_lookup(Some(found)).sent_to(again) is None,
        state.after_lookup(Some(found)).after_lookup(again) == state.after_lookup(Some(found)),
        !state.has_sent_name ==> state.sent_to(Some(found)) == Some(
            (found, worker::announcement(state.worker_uuid)),
        ),
{
}

/// A filter looks for the queue of the settings in the VM of the settings as long as it has not
/// announced itself. Where the queue is found, what goes there is the notation of its own
/// identifier, and looking changes nothing but whether it has announced itself.
pub proof fn law_announces_its_own_name(state: FilterView, found: u32)
    ensures
        !state.has_sent_name ==> state.wanted_queue() == Some(
            (state.config.singleton_name, state.config.worker_names_queue),
        ),
        state.has_sent_name ==> state.wanted_queue() is None && state.sent_to(Some(found)) is None,
        !state.has_sent_name ==> {
            &&& state.sent_to(Some(found)) matches Some((id, bytes))
            &&& id == found
            &&& vstd::utf8::valid_utf8(bytes)
            &&& vstd::utf8::decode_utf8(bytes) == worker::uuid_notation(state.worker_uuid)
        },
        state.after_lookup(Some(found)).has_sent_name,
        state.after_lookup(Some(found)).worker_uuid == state.worker_uuid,
        state.after_lookup(Some(found)).config == state.config,
{
    vstd::utf8::encode_utf8_valid_utf8(worker::uuid_notation(state.worker_uuid));
    vstd::utf8::encode_utf8_decode_utf8(worker::uuid_notation(state.worker_uuid));
}

/// A payload that is a batch gives its messages, whatever it would be otherwise; one that is a
/// single message and no batch gives that message; and any other gives none.
pub proof fn law_payload_is_a_batch_first(
    batch: Seq<message::BanMessageView>,
    m: message::BanMessageView,
    single: Option<message::BanMessageView>,
)
    ensures
        payload_messages(Some(batch), single) == Some(batch),
        payload_messages(None, Some(m)) matches Some(messages) && messages.len() == 1
            && messages[0] == m,
        payload_messages(None, None) is None,
{
}

/// What a filter, a batch and a message say is what they hold.
pub proof fn law_filter_shows_its_fields(
    f: CrowdsecFilter,
    batch: Vec<BanMessage>,
    m: BanMessage,
)
    ensures
        f@.has_sent_name == f.has_sent_name,
        f@.worker_uuid == f.worker_uuid,
        f@.config == f.config@,
        batch_view(Some(batch)) == Some(message::message_views(batch@)),
        batch_view(None) is None,
        single_view(Some(m)) == Some(m@),
        single_view(None) is None,
{
}

} // verus!
