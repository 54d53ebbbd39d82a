//! A lighter updater: it passes the decisions of the CrowdSec API on to the filters as texts, and
//! leaves it to them to read the networks.

use vstd::prelude::*;

use crate::batch;
use crate::message::{Decision, StreamResponse};
use crate::message;
use crate::text;
use crate::time::Duration;

verus! {

/// The most bytes that a batch takes.
pub const MAX_BATCH_BYTES: usize = 12_288;

/// The most messages that a batch takes.
pub const BATCH_SIZE: usize = 1000;

/// A change to the bans of every filter.
#[derive(Debug)]
pub struct BanMessage {
    pub ip: String,
    pub remediation: String,
    pub expiration: String,
    /// Whether `ip` is a network in CIDR notation, and not an address.
    pub is_range: bool,
}

/// What a [`BanMessage`] says.
pub struct BanMessageView {
    pub ip: Seq<char>,
    pub remediation: Seq<char>,
    pub expiration: Seq<char>,
    pub is_range: bool,
}

impl View for BanMessage {
    type V = BanMessageView;

    open spec fn view(&self) -> BanMessageView {
        BanMessageView {
            ip: self.ip@,
            remediation: self.remediation@,
            expiration: self.expiration@,
            is_range: self.is_range,
        }
    }
}

impl Clone for BanMessage {
    fn clone(&self) -> (r: BanMessage)
        ensures
            r@ == self@,
    {
        BanMessage {
            ip: self.ip.clone(),
            remediation: self.remediation.clone(),
            expiration: self.expiration.clone(),
            is_range: self.is_range,
        }
    }
}

/// What a sequence of messages says.
pub open spec fn message_views(s: Seq<BanMessage>) -> Seq<BanMessageView> {
    Seq::new(s.len(), |i: int| s[i]@)
}

/// What each batch says.
pub open spec fn batch_views(batches: Seq<Vec<BanMessage>>) -> Seq<Seq<BanMessageView>> {
    batch::nested_views(batches)
}

/// The FlexBuffers map that holds a message, as `flexbuffers::FlexbufferSerializer` writes it;
/// `None` where it refuses to.
pub uninterp spec fn relay_encoding(
    ip: Seq<char>,
    remediation: Seq<char>,
    expiration: Seq<char>,
    is_range: bool,
) -> Option<Seq<u8>>;

/// `flexbuffers::FlexbufferSerializer` on a struct of the fields `ip`, `remediation`, `expiration`
/// and `is_range`: the bytes that it wrote. What they are is left to the name `relay_encoding`.
#[verifier::external_body]
fn encode_message(ip: &str, remediation: &str, expiration: &str, is_range: bool) -> (r: Result<
    Vec<u8>,
    flexbuffers::SerializationError,
>)
    ensures
        r matches Ok(bytes) ==> relay_encoding(ip@, remediation@, expiration@, is_range) == Some(
            bytes@,
        ),
        r is Err ==> relay_encoding(ip@, remediation@, expiration@, is_range) is None,
{
    let mut out = flexbuffers::FlexbufferSerializer::new();
    let mut fields = serde::Serializer::serialize_struct(&mut out, "BanMessage", 4)?;
    serde::ser::SerializeStruct::serialize_field(&mut fields, "ip", ip)?;
    serde::ser::SerializeStruct::serialize_field(&mut fields, "remediation", remediation)?;
    serde::ser::SerializeStruct::serialize_field(&mut fields, "expiration", expiration)?;
    serde::ser::SerializeStruct::serialize_field(&mut fields, "is_range", &is_range)?;
    serde::ser::SerializeStruct::end(fields)?;
    Ok(out.take_buffer())
}

/// The encoding of a message.
pub open spec fn encoding_of(m: BanMessageView) -> Option<Seq<u8>> {
    relay_encoding(m.ip, m.remediation, m.expiration, m.is_range)
}

/// The number of bytes that each message takes.
pub open spec fn encoded_sizes(messages: Seq<BanMessageView>) -> Seq<usize> {
    Seq::new(messages.len(), |i: int| encoding_of(messages[i])->0.len() as usize)
}

/// The batches of some messages, by the numbers of bytes that they take. Where the first message
/// alone is too large, an empty batch goes before it.
pub open spec fn relay_batches<T>(messages: Seq<T>, sizes: Seq<usize>) -> Seq<Seq<T>> {
    let batches = batch::cut(messages, batch::batch_ends(sizes, BATCH_SIZE, MAX_BATCH_BYTES));
    if sizes.len() > 0 && sizes[0] > MAX_BATCH_BYTES {
        seq![Seq::<T>::empty()] + batches
    } else {
        batches
    }
}

/// The batches hold all messages in their order, whatever their sizes.
pub proof fn law_relay_batches_hold_all<T>(messages: Seq<T>, sizes: Seq<usize>)
    requires
        sizes.len() == messages.len() <= usize::MAX,
    ensures
        relay_batches(messages, sizes).flatten() == messages,
{
    let ends = batch::batch_ends(sizes, BATCH_SIZE, MAX_BATCH_BYTES);
    let batches = batch::cut(messages, ends);
    batch::law_batches_keep_limits(sizes, BATCH_SIZE, MAX_BATCH_BYTES);
    batch::law_batches_hold_all(messages, ends);
    let all = relay_batches(messages, sizes);
    if sizes.len() > 0 && sizes[0] > MAX_BATCH_BYTES {
        assert(all[0] =~= Seq::<T>::empty());
        assert(all.drop_first() =~= batches);
        assert(all.flatten() =~= all[0] + batches.flatten());
        assert(all.flatten() =~= messages);
    }
}

/// Groups messages into batches by the numbers of bytes that they take.
pub fn group_messages(messages: &Vec<BanMessage>, sizes: &Vec<usize>) -> (r: Vec<Vec<BanMessage>>)
    requires
        sizes@.len() == messages@.len(),
    ensures
        batch_views(r@) == relay_batches(message_views(messages@), sizes@),
{
    let ghost views = message_views(messages@);
    let n: usize = sizes.len();
    assert(n == sizes@.len());
    let ends: Vec<usize> = batch::find_batch_ends(sizes, BATCH_SIZE, MAX_BATCH_BYTES);
    proof {
        batch::law_batches_keep_limits(sizes@, BATCH_SIZE, MAX_BATCH_BYTES);
    }
    let mut batches: Vec<Vec<BanMessage>> = batch::cut_items(messages.as_slice(), &ends);
    assert(batch::views(messages@) =~= views);
    if sizes.len() > 0 && sizes[0] > MAX_BATCH_BYTES {
        let none: Vec<BanMessage> = Vec::new();
        assert(message_views(none@) =~= Seq::<BanMessageView>::empty());
        batches.insert(0, none);
        assert(batch_views(batches@) =~= relay_batches(views, sizes@));
    }
    batches
}

/// Whether a decision speaks of a network in CIDR notation: whether it holds a slash.
pub fn is_cidr_range(value: &str) -> (r: bool)
    ensures
        r == value@.contains('/'),
{
    text::contains_char(value, '/')
}

/// The message of a decision that lifts a ban.
pub open spec fn deleted_message(d: message::DecisionView) -> BanMessageView {
    BanMessageView {
        ip: d.value,
        remediation: message::unban_text(),
        expiration: Seq::empty(),
        is_range: d.value.contains('/'),
    }
}

/// The message of a decision that puts a ban in place: `ban` where it names no remediation.
pub open spec fn new_message(d: message::DecisionView) -> BanMessageView {
    BanMessageView {
        ip: d.value,
        remediation: message::text_or(d.remediation, "ban"@),
        expiration: message::text_or(d.expiration, Seq::empty()),
        is_range: d.value.contains('/'),
    }
}

/// The messages of one answer of the decision stream: what is lifted, then what is new.
pub open spec fn stream_messages(
    deleted: Seq<message::DecisionView>,
    new: Seq<message::DecisionView>,
) -> Seq<BanMessageView> {
    deleted.map_values(|d: message::DecisionView| deleted_message(d)) + new.map_values(
        |d: message::DecisionView| new_message(d),
    )
}

/// What a configuration document holds. In a list only texts count.
#[derive(Debug)]
pub struct Settings {
    pub poll_interval: Option<u64>,
    pub api_key: Option<String>,
    pub cluster_name: Option<String>,
    pub crowdsec_url: Option<String>,
    pub scopes: Option<Vec<Option<String>>>,
    pub origins: Option<Vec<Option<String>>>,
    pub scenarios_containing: Option<Vec<Option<String>>>,
    pub scenarios_not_containing: Option<Vec<Option<String>>>,
}

/// The number under a key of a YAML document, as `serde_yaml` reads it.
pub uninterp spec fn yaml_number(document: Seq<char>, key: Seq<char>) -> Option<u64>;

/// `serde_yaml::from_str`, `Value::get` and `Value::as_u64`: the number under a key of a YAML
/// document; `None` where the document cannot be read, or holds no such number. What it is is left
/// to the name `yaml_number`.
#[verifier::external_body]
fn yaml_u64(document: &str, key: &str) -> (r: Option<u64>)
    ensures
        r == yaml_number(document@, key@),
{
    serde_yaml::from_str::<serde_yaml::Value>(document).ok()?.get(key)?.as_u64()
}

/// The text under a key of a YAML document, as `serde_yaml` reads it.
pub uninterp spec fn yaml_text(document: Seq<char>, key: Seq<char>) -> Option<Seq<char>>;

/// `serde_yaml::from_str`, `Value::get` and `Value::as_str`: the text under a key of a YAML
/// document; `None` where the document cannot be read, or holds no such text. What it is is left to
/// the name `yaml_text`.
#[verifier::external_body]
fn yaml_str(document: &str, key: &str) -> (r: Option<String>)
    ensures
        message::optional_text(r) == yaml_text(document@, key@),
{
    serde_yaml::from_str::<serde_yaml::Value>(document).ok()?.get(key)?.as_str().map(str::to_owned)
}

/// The list under a key of a YAML document, as `serde_yaml` reads it: its texts, and `None` for
/// whatever is not a text.
pub uninterp spec fn yaml_sequence(document: Seq<char>, key: Seq<char>) -> Option<
    Seq<Option<Seq<char>>>,
>;

/// `serde_yaml::from_str`, `Value::get` and `Value::as_sequence`: the list under a key of a YAML
/// document, each item by `Value::as_str`; `None` where the document cannot be read, or holds no
/// such list. What it is is left to the name `yaml_sequence`.
#[verifier::external_body]
fn yaml_list(document: &str, key: &str) -> (r: Option<Vec<Option<String>>>)
    ensures
        optional_list(r) == yaml_sequence(document@, key@),
{
    let value = serde_yaml::from_str::<serde_yaml::Value>(document).ok()?;
    let items = value.get(key)?.as_sequence()?;
    Some(items.iter().map(|v| v.as_str().map(str::to_owned)).collect())
}

/// The items of a list, of which some may be absent, as the list itself may be.
pub open spec fn optional_list(list: Option<Vec<Option<String>>>) -> Option<
    Seq<Option<Seq<char>>>,
> {
    match list {
        Some(items) => Some(Seq::new(items@.len(), |i: int| message::optional_text(items@[i]))),
        None => None,
    }
}

/// The items of a list that are there, in their order.
pub open spec fn present(items: Seq<Option<Seq<char>>>) -> Seq<Seq<char>>
    decreases items.len(),
{
    if items.len() == 0 {
        Seq::empty()
    } else {
        match items.last() {
            Some(t) => present(items.drop_last()).push(t),
            None => present(items.drop_last()),
        }
    }
}

/// What [`Settings`] say.
pub struct SettingsView {
    pub poll_interval: Option<u64>,
    pub api_key: Option<Seq<char>>,
    pub cluster_name: Option<Seq<char>>,
    pub crowdsec_url: Option<Seq<char>>,
    pub scopes: Option<Seq<Option<Seq<char>>>>,
    pub origins: Option<Seq<Option<Seq<char>>>>,
    pub scenarios_containing: Option<Seq<Option<Seq<char>>>>,
    pub scenarios_not_containing: Option<Seq<Option<Seq<char>>>>,
}

impl View for Settings {
    type V = SettingsView;

    open spec fn view(&self) -> SettingsView {
        SettingsView {
            poll_interval: self.poll_interval,
            api_key: message::optional_text(self.api_key),
            cluster_name: message::optional_text(self.cluster_name),
            crowdsec_url: message::optional_text(self.crowdsec_url),
            scopes: optional_list(self.scopes),
            origins: optional_list(self.origins),
            scenarios_containing: optional_list(self.scenarios_containing),
            scenarios_not_containing: optional_list(self.scenarios_not_containing),
        }
    }
}

/// The settings that a YAML document holds.
pub open spec fn settings_of(document: Seq<char>) -> SettingsView {
    SettingsView {
        poll_interval: yaml_number(document, "poll_interval"@),
        api_key: yaml_text(document, "api_key"@),
        cluster_name: yaml_text(document, "cluster_name"@),
        crowdsec_url: yaml_text(document, "crowdsec_url"@),
        scopes: yaml_sequence(document, "scopes"@),
        origins: yaml_sequence(document, "origins"@),
        scenarios_containing: yaml_sequence(document, "scenarios_containing"@),
        scenarios_not_containing: yaml_sequence(document, "scenarios_not_containing"@),
    }
}

/// Reads the settings that a YAML document holds.
pub fn read_settings(document: &str) -> (r: Settings)
    ensures
        r@ == settings_of(document@),
{
    Settings {
        poll_interval: yaml_u64(document, "poll_interval"),
        api_key: yaml_str(document, "api_key"),
        cluster_name: yaml_str(document, "cluster_name"),
        crowdsec_url: yaml_str(document, "crowdsec_url"),
        scopes: yaml_list(document, "scopes"),
        origins: yaml_list(document, "origins"),
        scenarios_containing: yaml_list(document, "scenarios_containing"),
        scenarios_not_containing: yaml_list(document, "scenarios_not_containing"),
    }
}

/// The state of the updater.
#[derive(Debug)]
pub struct CrowdsecUpdater {
    /// The values of the decisions in force.
    pub bans: Vec<String>,
    /// Whether the API has not been asked yet.
    pub is_startup: bool,
    /// The queue on which filters announce themselves.
    pub worker_names_queue_id: Option<u32>,
    /// The queues of the filters.
    pub worker_queues_ids: Vec<u32>,
    pub api_key: String,
    pub cluster_name: String,
    pub crowdsec_url: String,
    pub scopes: Vec<String>,
    pub origins: Vec<String>,
    pub scenarios_containing: Vec<String>,
    pub scenarios_not_containing: Vec<String>,
}

/// What the state of the updater says.
#[verifier::ext_equal]
pub struct RelayView {
    pub bans: Set<Seq<char>>,
    pub is_startup: bool,
    pub worker_names_queue_id: Option<u32>,
    pub workers: Seq<u32>,
    pub api_key: Seq<char>,
    pub cluster_name: Seq<char>,
    pub crowdsec_url: Seq<char>,
    pub scopes: Seq<Seq<char>>,
    pub origins: Seq<Seq<char>>,
    pub scenarios_containing: Seq<Seq<char>>,
    pub scenarios_not_containing: Seq<Seq<char>>,
}

impl View for CrowdsecUpdater {
    type V = RelayView;

    open spec fn view(&self) -> RelayView {
        RelayView {
            bans: text::strings(self.bans@).to_set(),
            is_startup: self.is_startup,
            worker_names_queue_id: self.worker_names_queue_id,
            workers: self.worker_queues_ids@,
            api_key: self.api_key@,
            cluster_name: self.cluster_name@,
            crowdsec_url: self.crowdsec_url@,
            scopes: text::strings(self.scopes@),
            origins: text::strings(self.origins@),
            scenarios_containing: text::strings(self.scenarios_containing@),
            scenarios_not_containing: text::strings(self.scenarios_not_containing@),
        }
    }
}

/// A list that a document may give in place of the one at hand.
pub open spec fn list_or(list: Option<Seq<Option<Seq<char>>>>, old_list: Seq<Seq<char>>) -> Seq<
    Seq<char>,
> {
    match list {
        Some(items) => present(items),
        None => old_list,
    }
}

/// One query parameter with all values of a list; none where the list is empty.
pub open spec fn joined_param(prefix: Seq<char>, values: Seq<Seq<char>>) -> Seq<Seq<char>> {
    if values.len() == 0 {
        Seq::empty()
    } else {
        seq![prefix + text::join(values, ","@)]
    }
}

impl RelayView {
    /// The state of a new updater.
    pub open spec fn initial() -> RelayView {
        RelayView {
            bans: Set::empty(),
            is_startup: true,
            worker_names_queue_id: None,
            workers: Seq::empty(),
            api_key: Seq::empty(),
            cluster_name: Seq::empty(),
            crowdsec_url: Seq::empty(),
            scopes: Seq::empty(),
            origins: Seq::empty(),
            scenarios_containing: Seq::empty(),
            scenarios_not_containing: Seq::empty(),
        }
    }

    /// The state with the settings of a document, if there is one. The cluster and the URL go back
    /// to their defaults first, and what else the document does not say stays.
    pub open spec fn configured(self, settings: Option<SettingsView>) -> RelayView {
        match settings {
            Some(s) => RelayView {
                api_key: message::text_or(s.api_key, self.api_key),
                cluster_name: message::text_or(s.cluster_name, "crowdsec_cluster"@),
                crowdsec_url: message::text_or(s.crowdsec_url, "http://crowdsec:8080"@),
                scopes: list_or(s.scopes, self.scopes),
                origins: list_or(s.origins, self.origins),
                scenarios_containing: list_or(s.scenarios_containing, self.scenarios_containing),
                scenarios_not_containing: list_or(
                    s.scenarios_not_containing,
                    self.scenarios_not_containing,
                ),
                ..self
            },
            None => RelayView {
                cluster_name: "crowdsec_cluster"@,
                crowdsec_url: "http://crowdsec:8080"@,
                ..self
            },
        }
    }

    /// The filters of the query for decisions.
    pub open spec fn query_params(self) -> Seq<Seq<char>> {
        joined_param("scopes="@, self.scopes) + joined_param("origins="@, self.origins)
            + joined_param("scenarios_containing="@, self.scenarios_containing) + joined_param(
            "scenarios_not_containing="@,
            self.scenarios_not_containing,
        )
    }

    /// The path that asks for decisions: for all at the first time, for changes later.
    pub open spec fn path(self) -> Seq<char> {
        let params = self.query_params();
        let base = if self.is_startup {
            "/v1/decisions/stream?startup=true"@
        } else {
            "/v1/decisions/stream"@
        };
        if params.len() == 0 {
            base
        } else if self.is_startup {
            base + "&"@ + text::join(params, "&"@)
        } else {
            base + "?"@ + text::join(params, "&"@)
        }
    }

    /// The header of the request for decisions.
    pub open spec fn request_headers(self) -> Seq<(Seq<char>, Seq<char>)> {
        seq![
            (":method"@, "GET"@),
            (":path"@, self.path()),
            (":authority"@, "crowdsec"@),
            ("x-api-key"@, self.api_key),
        ]
    }
}

/// A call of the API.
#[derive(Debug)]
pub struct RelayRequest {
    pub cluster: String,
    pub headers: Vec<(String, String)>,
    pub timeout: Duration,
}

fn present_strings(items: &Vec<Option<String>>) -> (r: Vec<String>)
    ensures
        text::strings(r@) == present(optional_list(Some(*items))->0),
{
    let ghost all = optional_list(Some(*items))->0;
    let mut r: Vec<String> = Vec::new();
    assert(text::strings(r@) =~= present(all.take(0)));
    for i in 0..items.len()
        invariant
            all == optional_list(Some(*items))->0,
            text::strings(r@) == present(all.take(i as int)),
    {
        let ghost held = r@;
        proof {
            let now = all.take(i + 1);
            assert(now.drop_last() =~= all.take(i as int));
            assert(now.last() == message::optional_text(items@[i as int]));
        }
        if let Some(t) = &items[i] {
            r.push(t.clone());
            assert(text::strings(r@) =~= text::strings(held).push(t@));
        }
    }
    assert(all.take(items@.len() as int) =~= all);
    r
}

fn set_list(list: &mut Vec<String>, given: &Option<Vec<Option<String>>>)
    ensures
        text::strings(final(list)@) == list_or(optional_list(*given), text::strings(old(list)@)),
{
    if let Some(items) = given {
        *list = present_strings(items);
    }
}

fn push_joined(params: &mut Vec<String>, prefix: &str, values: &Vec<String>)
    ensures
        text::strings(final(params)@) == text::strings(old(params)@) + joined_param(
            prefix@,
            text::strings(values@),
        ),
{
    if values.len() > 0 {
        let mut param: String = prefix.to_owned();
        param.append(text::join_strings(values, ",").as_str());
        params.push(param);
    }
    assert(text::strings(params@) =~= text::strings(old(params)@) + joined_param(
        prefix@,
        text::strings(values@),
    ));
}

/// The list without one of its texts.
fn remove_text(list: &mut Vec<String>, value: &str)
    ensures
        text::strings(final(list)@).to_set() == text::strings(old(list)@).to_set().remove(value@),
{
    let ghost all = text::strings(list@);
    let mut kept: Vec<String> = Vec::new();
    for i in 0..list.len()
        invariant
            list@ == old(list)@,
            all == text::strings(list@),
            forall|t: Seq<char>| #[trigger]
                text::strings(kept@).contains(t) <==> t != value@ && all.take(i as int).contains(t),
    {
        let ghost before = text::strings(kept@);
        let ghost seen = all.take(i as int);
        let ghost now = all.take(i + 1);
        assert(now =~= seen.push(all[i as int]));
        if !text::same_text(list[i].as_str(), value) {
            kept.push(list[i].clone());
            assert(text::strings(kept@) =~= before.push(all[i as int]));
        }
        proof {
            assert forall|t: Seq<char>| #[trigger] text::strings(kept@).contains(t) <==> t != value@
                && now.contains(t) by {
                lemma_push_contains(seen, all[i as int], t);
                lemma_push_contains(before, all[i as int], t);
            }
        }
    }
    assert(all.take(list@.len() as int) =~= all);
    *list = kept;
    assert(text::strings(list@).to_set() =~= all.to_set().remove(value@));
}

proof fn lemma_push_contains<T>(s: Seq<T>, last: T, t: T)
    ensures
        s.push(last).contains(t) <==> s.contains(t) || t == last,
{
    let now = s.push(last);
    if s.contains(t) {
        let i = choose|i: int| 0 <= i < s.len() && s[i] == t;
        assert(now[i] == t);
    }
    if now.contains(t) && t != last {
        let i = choose|i: int| 0 <= i < now.len() && now[i] == t;
        assert(s[i] == t);
    }
    assert(now[s.len() as int] == last);
}

/// The values that some decisions speak of.
pub open spec fn decision_values(decisions: Seq<message::DecisionView>) -> Set<Seq<char>> {
    Set::new(
        |v: Seq<char>|
            exists|i: int| 0 <= i < decisions.len() && (#[trigger] decisions[i]).value == v,
    )
}

impl Default for CrowdsecUpdater {
    fn default() -> (r: CrowdsecUpdater)
        ensures
            r@ == RelayView::initial(),
    {
        let r: CrowdsecUpdater = CrowdsecUpdater {
            bans: Vec::new(),
            is_startup: true,
            worker_names_queue_id: None,
            worker_queues_ids: Vec::new(),
            api_key: String::new(),
            cluster_name: String::new(),
            crowdsec_url: String::new(),
            scopes: Vec::new(),
            origins: Vec::new(),
            scenarios_containing: Vec::new(),
            scenarios_not_containing: Vec::new(),
        };
        assert(r@ =~~= RelayView::initial());
        r
    }
}

impl CrowdsecUpdater {
    /// Keeps the queue on which filters announce themselves, if it could be registered.
    pub fn on_vm_start(&mut self, registered: Option<u32>) -> (r: bool)
        ensures
            final(self)@ == (RelayView { worker_names_queue_id: registered, ..old(self)@ }),
            r,
    {
        self.worker_names_queue_id = registered;
        true
    }

    /// Takes up the settings of a document, if there is one. How often to poll, where the document
    /// says so.
    pub fn configure(&mut self, settings: Option<Settings>) -> (r: Option<Duration>)
        ensures
            ({
                let view = match settings {
                    Some(s) => Some(s@),
                    None => None,
                };
                &&& final(self)@ == old(self)@.configured(view)
                &&& r == match view {
                    Some(s) => match s.poll_interval {
                        Some(secs) => Some(Duration::of_secs(secs)),
                        None => None,
                    },
                    None => None,
                }
            }),
    {
        self.cluster_name = "crowdsec_cluster".to_owned();
        self.crowdsec_url = "http://crowdsec:8080".to_owned();
        match settings {
            Some(s) => {
                if let Some(key) = s.api_key {
                    self.api_key = key;
                }
                if let Some(cluster) = s.cluster_name {
                    self.cluster_name = cluster;
                }
                if let Some(url) = s.crowdsec_url {
                    self.crowdsec_url = url;
                }
                set_list(&mut self.scopes, &s.scopes);
                set_list(&mut self.origins, &s.origins);
                set_list(&mut self.scenarios_containing, &s.scenarios_containing);
                set_list(&mut self.scenarios_not_containing, &s.scenarios_not_containing);
                match s.poll_interval {
                    Some(secs) => Some(Duration::from_secs(secs)),
                    None => None,
                }
            },
            None => None,
        }
    }

    /// Takes up the plugin configuration, a YAML document, as far as there is one and it is UTF-8.
    /// How often to poll, where the document says so.
    pub fn on_configure(&mut self, configuration: Option<Vec<u8>>) -> (r: Option<Duration>)
        ensures
            ({
                let settings = match configuration {
                    Some(bytes) => if vstd::utf8::valid_utf8(bytes@) {
                        Some(settings_of(vstd::utf8::decode_utf8(bytes@)))
                    } else {
                        None
                    },
                    None => None,
                };
                &&& final(self)@ == old(self)@.configured(settings)
                &&& r == match settings {
                    Some(s) => match s.poll_interval {
                        Some(secs) => Some(Duration::of_secs(secs)),
                        None => None,
                    },
                    None => None,
                }
            }),
    {
        let settings: Option<Settings> = match configuration {
            Some(bytes) => match text::decode_text(bytes.as_slice()) {
                Some(document) => Some(read_settings(document.as_str())),
                None => None,
            },
            None => None,
        };
        self.configure(settings)
    }

    /// Keeps the queue of a filter that announced itself, if it was found.
    pub fn on_worker_queue(&mut self, resolved: Option<u32>)
        ensures
            final(self)@ == (RelayView {
                workers: match resolved {
                    Some(id) => old(self)@.workers.push(id),
                    None => old(self)@.workers,
                },
                ..old(self)@
            }),
    {
        if let Some(id) = resolved {
            self.worker_queues_ids.push(id);
        }
    }

    /// What the updater asks the API for, and from now on that it has asked. Nothing is asked while
    /// no filter has announced itself.
    pub fn on_tick(&mut self) -> (r: Option<RelayRequest>)
        ensures
            r is Some <==> old(self)@.workers.len() > 0,
            r is None ==> final(self)@ == old(self)@,
            r matches Some(request) ==> {
                &&& final(self)@ == (RelayView { is_startup: false, ..old(self)@ })
                &&& request.cluster@ == old(self)@.cluster_name
                &&& text::string_pairs(request.headers@) == old(self)@.request_headers()
                &&& request.timeout == Duration::of_secs(5)
            },
    {
        if self.worker_queues_ids.len() == 0 {
            return None;
        }
        let mut params: Vec<String> = Vec::new();
        assert(text::strings(params@) =~= Seq::<Seq<char>>::empty());
        push_joined(&mut params, "scopes=", &self.scopes);
        push_joined(&mut params, "origins=", &self.origins);
        push_joined(&mut params, "scenarios_containing=", &self.scenarios_containing);
        push_joined(&mut params, "scenarios_not_containing=", &self.scenarios_not_containing);
        assert(text::strings(params@) =~= self@.query_params());
        assert(text::strings(params@).len() == params@.len());
        let mut path: String = if self.is_startup {
            "/v1/decisions/stream?startup=true".to_owned()
        } else {
            "/v1/decisions/stream".to_owned()
        };
        if params.len() > 0 {
            if self.is_startup {
                path.append("&");
            } else {
                path.append("?");
            }
            path.append(text::join_strings(&params, "&").as_str());
        }
        self.is_startup = false;
        let headers: Vec<(String, String)> = vec![
            (":method".to_owned(), "GET".to_owned()),
            (":path".to_owned(), path),
            (":authority".to_owned(), "crowdsec".to_owned()),
            ("x-api-key".to_owned(), self.api_key.clone()),
        ];
        assert(text::string_pairs(headers@) =~= old(self)@.request_headers());
        Some(
            RelayRequest {
                cluster: self.cluster_name.clone(),
                headers,
                timeout: Duration::from_secs(5),
            },
        )
    }

    /// Takes up one answer of the decision stream, if it could be read: first what is lifted, then
    /// what is new. Gives the messages for the filters.
    pub fn on_http_call_response(&mut self, parsed: Option<StreamResponse>) -> (r: Vec<BanMessage>)
        ensures
            match parsed {
                Some(s) => {
                    &&& message_views(r@) == stream_messages(
                        message::decision_views(s.deleted@),
                        message::decision_views(s.new@),
                    )
                    &&& final(self)@ == (RelayView {
                        bans: old(self)@.bans.difference(
                            decision_values(message::decision_views(s.deleted@)),
                        ),
                        ..old(self)@
                    })
                },
                None => r@.len() == 0 && final(self)@ == old(self)@,
            },
    {
        match parsed {
            Some(s) => {
                let mut messages: Vec<BanMessage> = Vec::new();
                self.push_deleted(&s.deleted, &mut messages);
                push_new(&s.new, &mut messages);
                assert(message_views(messages@) =~= stream_messages(
                    message::decision_views(s.deleted@),
                    message::decision_views(s.new@),
                ));
                messages
            },
            None => Vec::new(),
        }
    }

    /// Takes up the decisions that lift bans, and adds their messages.
    fn push_deleted(&mut self, deleted: &Vec<Decision>, messages: &mut Vec<BanMessage>)
        ensures
            message_views(final(messages)@) == message_views(old(messages)@)
                + message::decision_views(deleted@).map_values(
                |d: message::DecisionView| deleted_message(d),
            ),
            final(self)@ == (RelayView {
                bans: old(self)@.bans.difference(decision_values(message::decision_views(deleted@))),
                ..old(self)@
            }),
    {
        let ghost views = message::decision_views(deleted@);
        let ghost before = message_views(messages@);
        proof {
            reveal_strlit("");
            assert(""@ =~= Seq::<char>::empty());
            assert(decision_values(views.take(0)) =~= Set::empty());
            assert(self@.bans.difference(Set::empty()) =~= self@.bans);
            assert(before + views.take(0).map_values(
                |d: message::DecisionView| deleted_message(d),
            ) =~= before);
        }
        for i in 0..deleted.len()
            invariant
                ""@ == Seq::<char>::empty(),
                views == message::decision_views(deleted@),
                before == message_views(old(messages)@),
                message_views(messages@) == before + views.take(i as int).map_values(
                    |d: message::DecisionView| deleted_message(d),
                ),
                self@ == (RelayView {
                    bans: old(self)@.bans.difference(decision_values(views.take(i as int))),
                    ..old(self)@
                }),
        {
            let d: &Decision = &deleted[i];
            let ghost held = messages@;
            let ghost bans = self@.bans;
            remove_text(&mut self.bans, d.value.as_str());
            let m: BanMessage = BanMessage {
                ip: d.value.clone(),
                remediation: "unban".to_owned(),
                expiration: String::new(),
                is_range: is_cidr_range(d.value.as_str()),
            };
            assert(m@ == deleted_message(views[i as int]));
            messages.push(m);
            proof {
                let seen = views.take(i as int);
                let now = views.take(i + 1);
                assert(now =~= seen.push(views[i as int]));
                assert(message_views(messages@) =~= message_views(held).push(m@));
                assert(message_views(messages@) =~= before + now.map_values(
                    |d: message::DecisionView| deleted_message(d),
                ));
                assert forall|v: Seq<char>| #[trigger] decision_values(now).contains(v)
                    <==> decision_values(seen).contains(v) || v == d.value@ by {
                    if decision_values(seen).contains(v) {
                        let j = choose|j: int| 0 <= j < seen.len() && (#[trigger] seen[j]).value == v;
                        assert(now[j].value == v);
                    }
                    if decision_values(now).contains(v) && v != d.value@ {
                        let j = choose|j: int| 0 <= j < now.len() && (#[trigger] now[j]).value == v;
                        assert(seen[j].value == v);
                    }
                    assert(now[i as int].value == d.value@);
                }
                assert(self@.bans =~= old(self)@.bans.difference(decision_values(now)));
            }
        }
        assert(views.take(deleted@.len() as int) =~= views);
    }

    /// Groups messages into the batches in which they go to the filters. `None` exactly where some
    /// message cannot be serialized.
    pub fn send_batched(&self, messages: &Vec<BanMessage>) -> (r: Option<Vec<Vec<BanMessage>>>)
        ensures
            r is Some <==> forall|i: int|
                0 <= i < messages@.len() ==> encoding_of((#[trigger] messages@[i])@) is Some,
            r matches Some(batches) ==> batch_views(batches@) == relay_batches(
                message_views(messages@),
                encoded_sizes(message_views(messages@)),
            ),
    {
        let mut sizes: Vec<usize> = Vec::new();
        let ghost views = message_views(messages@);
        for i in 0..messages.len()
            invariant
                views == message_views(messages@),
                sizes@ == encoded_sizes(views).take(i as int),
                forall|j: int| 0 <= j < i ==> encoding_of((#[trigger] messages@[j])@) is Some,
        {
            let m: &BanMessage = &messages[i];
            match encode_message(
                m.ip.as_str(),
                m.remediation.as_str(),
                m.expiration.as_str(),
                m.is_range,
            ) {
                Ok(bytes) => {
                    sizes.push(bytes.len());
                },
                Err(_) => {
                    assert(encoding_of(messages@[i as int]@) is None);
                    return None;
                },
            }
            assert(views[i as int] == messages@[i as int]@);
            assert(sizes@ =~= encoded_sizes(views).take(i + 1));
        }
        assert(encoded_sizes(views).take(messages@.len() as int) =~= encoded_sizes(views));
        Some(group_messages(messages, &sizes))
    }
}

/// Adds the messages of the decisions that put bans in place.
fn push_new(new: &Vec<Decision>, messages: &mut Vec<BanMessage>)
    ensures
        message_views(final(messages)@) == message_views(old(messages)@) + message::decision_views(
            new@,
        ).map_values(|d: message::DecisionView| new_message(d)),
{
    let ghost views = message::decision_views(new@);
    let ghost before = message_views(messages@);
    proof {
        reveal_strlit("");
        assert(""@ =~= Seq::<char>::empty());
        assert(before + views.take(0).map_values(|d: message::DecisionView| new_message(d))
            =~= before);
    }
    for i in 0..new.len()
        invariant
            ""@ == Seq::<char>::empty(),
            views == message::decision_views(new@),
            before == message_views(old(messages)@),
            message_views(messages@) == before + views.take(i as int).map_values(
                |d: message::DecisionView| new_message(d),
            ),
    {
        let d: &Decision = &new[i];
        let ghost held = messages@;
        let m: BanMessage = BanMessage {
            ip: d.value.clone(),
            remediation: message::text_or_default(&d.remediation, "ban"),
            expiration: message::text_or_default(&d.expiration, ""),
            is_range: is_cidr_range(d.value.as_str()),
        };
        assert(m@ == new_message(views[i as int]));
        messages.push(m);
        proof {
            assert(message_views(messages@) =~= message_views(held).push(m@));
            assert(message_views(messages@) =~= before + views.take(i + 1).map_values(
                |d: message::DecisionView| new_message(d),
            ));
        }
    }
    assert(views.take(new@.len() as int) =~= views);
}

/// Whether a message speaks of a network follows from its text alone, and every message of what is
/// lifted says `unban`.
pub proof fn law_relay_messages(
    deleted: Seq<message::DecisionView>,
    new: Seq<message::DecisionView>,
    i: int,
)
    requires
        0 <= i < stream_messages(deleted, new).len(),
    ensures
        stream_messages(deleted, new).len() == deleted.len() + new.len(),
        stream_messages(deleted, new)[i].is_range == stream_messages(deleted, new)[i].ip.contains(
            '/',
        ),
        i < deleted.len() ==> stream_messages(deleted, new)[i].remediation == message::unban_text()
            && stream_messages(deleted, new)[i].ip == deleted[i].value,
        i >= deleted.len() ==> stream_messages(deleted, new)[i].ip == new[i - deleted.len()].value,
{
}

/// A batch takes at most 1000 messages and 12 KiB. The batches are all messages in their order. A
/// batch keeps to both limits, unless it holds one message only, and is closed only where the next
/// message would break a limit. An empty batch comes first exactly where the first message alone is
/// too large, and nowhere else.
pub proof fn law_relay_batches_are_full(messages: Seq<BanMessageView>)
    requires
        messages.len() <= usize::MAX,
    ensures
        ({
            let size = |m: BanMessageView|
                relay_encoding(m.ip, m.remediation, m.expiration, m.is_range)->0.len() as usize;
            let all = relay_batches(messages, encoded_sizes(messages));
            let too_large = messages.len() > 0 && size(messages[0]) > 12_288;
            let batches = if too_large {
                all.skip(1)
            } else {
                all
            };
            &&& too_large ==> all.len() > 0 && all[0].len() == 0
            &&& batches.flatten() == messages
            &&& forall|k: int|
                0 <= k < batches.len() ==> {
                    ||| (#[trigger] batches[k]).len() == 1
                    ||| 0 < batches[k].len() <= 1000 && batch::weight(batches[k], size) <= 12_288
                }
            &&& forall|k: int|
                0 <= k < batches.len() - 1 ==> {
                    ||| (#[trigger] batches[k]).len() >= 1000
                    ||| batch::weight(batches[k], size) + size(batches[k + 1][0]) > 12_288
                }
        }),
{
    let size = |m: BanMessageView|
        relay_encoding(m.ip, m.remediation, m.expiration, m.is_range)->0.len() as usize;
    let sizes = encoded_sizes(messages);
    let batches = batch::cut(messages, batch::batch_ends(sizes, 1000, 12_288));
    batch::law_batches_are_full(messages, size, sizes, 1000, 12_288);
    let all = relay_batches(messages, sizes);
    if messages.len() > 0 && size(messages[0]) > 12_288 {
        assert(all.skip(1) =~= batches);
    } else {
        assert(all == batches);
    }
}

/// The messages of an answer are one for each decision: for what is lifted its value with the
/// remediation `unban` and no expiration, whatever the decision says of them, and then for what is
/// new its value with its own remediation, or `ban` where it has none, and its own expiration.
pub proof fn law_relay_passes_decisions_on(
    deleted: Seq<message::DecisionView>,
    new: Seq<message::DecisionView>,
)
    ensures
        ({
            let messages = stream_messages(deleted, new);
            let n = deleted.len() as int;
            &&& messages.len() == n + new.len()
            &&& forall|i: int|
                0 <= i < n ==> {
                    let m = messages[i];
                    &&& m.ip == (#[trigger] deleted[i]).value
                    &&& m.remediation == "unban"@
                    &&& m.expiration.len() == 0
                    &&& m.is_range <==> deleted[i].value.contains('/')
                }
            &&& forall|i: int|
                0 <= i < new.len() ==> {
                    let m = messages[n + i];
                    &&& m.ip == (#[trigger] new[i]).value
                    &&& new[i].remediation matches Some(r) ==> m.remediation == r
                    &&& new[i].remediation is None ==> m.remediation == "ban"@
                    &&& new[i].expiration matches Some(e) ==> m.expiration == e
                    &&& new[i].expiration is None ==> m.expiration.len() == 0
                    &&& m.is_range <==> new[i].value.contains('/')
                }
        }),
{
}

/// The values of some decisions are exactly those that one of them has.
pub proof fn law_decision_values(decisions: Seq<message::DecisionView>, v: Seq<char>)
    ensures
        decision_values(decisions).contains(v) <==> exists|i: int|
            0 <= i < decisions.len() && (#[trigger] decisions[i]).value == v,
{
}

/// Each setting is read under its own name.
pub proof fn law_settings_are_read_by_name(document: Seq<char>)
    ensures
        ({
            let s = settings_of(document);
            &&& s.poll_interval == yaml_number(document, "poll_interval"@)
            &&& s.api_key == yaml_text(document, "api_key"@)
            &&& s.cluster_name == yaml_text(document, "cluster_name"@)
            &&& s.crowdsec_url == yaml_text(document, "crowdsec_url"@)
            &&& s.scopes == yaml_sequence(document, "scopes"@)
            &&& s.origins == yaml_sequence(document, "origins"@)
            &&& s.scenarios_containing == yaml_sequence(document, "scenarios_containing"@)
            &&& s.scenarios_not_containing == yaml_sequence(document, "scenarios_not_containing"@)
        }),
{
}

/// The items of two lists that are there are those of the one and then those of the other; an item
/// that is there counts as it is, and one that is not does not count.
pub proof fn law_present_items(
    a: Seq<Option<Seq<char>>>,
    b: Seq<Option<Seq<char>>>,
    t: Seq<char>,
)
    ensures
        present(a + b) == present(a) + present(b),
        present(seq![Some(t)]) == seq![t],
        present(seq![None]).len() == 0,
        present(Seq::empty()).len() == 0,
    decreases b.len(),
{
    let one = seq![Some(t)];
    let none = seq![None::<Seq<char>>];
    assert(one.drop_last() =~= Seq::empty());
    assert(none.drop_last() =~= Seq::empty());
    assert(present(one.drop_last()) =~= Seq::empty());
    assert(present(one) =~= seq![t]);
    if b.len() == 0 {
        assert(a + b =~= a);
        assert(present(a) + present(b) =~= present(a));
    } else {
        law_present_items(a, b.drop_last(), t);
        assert((a + b).drop_last() =~= a + b.drop_last());
        assert((a + b).last() == b.last());
        assert(present(a + b) =~= present(a) + present(b));
    }
}

/// A document sets what it gives, each setting by its own: a text as it is, and of a list the items
/// that are texts. What it does not give stays, but for the cluster and the URL, which go back to
/// their defaults, also without a document. Nothing else changes.
pub proof fn law_documents_set_what_they_give(state: RelayView, s: SettingsView)
    ensures
        ({
            let after = state.configured(Some(s));
            let bare = state.configured(None);
            &&& s.api_key matches Some(t) ==> after.api_key == t
            &&& s.api_key is None ==> after.api_key == state.api_key
            &&& s.cluster_name matches Some(t) ==> after.cluster_name == t
            &&& s.cluster_name is None ==> after.cluster_name == "crowdsec_cluster"@
            &&& s.crowdsec_url matches Some(t) ==> after.crowdsec_url == t
            &&& s.crowdsec_url is None ==> after.crowdsec_url == "http://crowdsec:8080"@
            &&& s.scopes matches Some(items) ==> after.scopes == present(items)
            &&& s.scopes is None ==> after.scopes == state.scopes
            &&& s.origins matches Some(items) ==> after.origins == present(items)
            &&& s.origins is None ==> after.origins == state.origins
            &&& s.scenarios_containing matches Some(items) ==> after.scenarios_containing == present(
                items,
            )
            &&& s.scenarios_containing is None ==> after.scenarios_containing
                == state.scenarios_containing
            &&& s.scenarios_not_containing matches Some(items) ==> after.scenarios_not_containing
                == present(items)
            &&& s.scenarios_not_containing is None ==> after.scenarios_not_containing
                == state.scenarios_not_containing
            &&& after.bans == state.bans
            &&& after.is_startup == state.is_startup
            &&& after.worker_names_queue_id == state.worker_names_queue_id
            &&& after.workers == state.workers
            &&& bare == (RelayView {
                cluster_name: "crowdsec_cluster"@,
                crowdsec_url: "http://crowdsec:8080"@,
                ..state
            })
        }),
{
}

/// The query has one parameter for each list that is not empty, under the name of the list and with
/// its values and commas between them, in the order scopes, origins, scenarios that contain and
/// scenarios that do not contain.
pub proof fn law_relay_query_asks_for_the_lists(state: RelayView)
    ensures
        ({
            let params = state.query_params();
            let a: int = if state.scopes.len() > 0 { 1 } else { 0 };
            let b: int = a + if state.origins.len() > 0 { 1int } else { 0 };
            let c: int = b + if state.scenarios_containing.len() > 0 { 1int } else { 0 };
            let d: int = c + if state.scenarios_not_containing.len() > 0 { 1int } else { 0 };
            &&& params.len() == d
            &&& state.scopes.len() > 0 ==> params[0] == "scopes="@ + text::join(state.scopes, ","@)
            &&& state.origins.len() > 0 ==> params[a] == "origins="@ + text::join(
                state.origins,
                ","@,
            )
            &&& state.scenarios_containing.len() > 0 ==> params[b] == "scenarios_containing="@
                + text::join(state.scenarios_containing, ","@)
            &&& state.scenarios_not_containing.len() > 0 ==> params[c]
                == "scenarios_not_containing="@ + text::join(state.scenarios_not_containing, ","@)
        }),
{
}

/// The first request asks for everything, a later one does not, and the parameters of the lists
/// follow in either case, each behind the right sign.
pub proof fn law_relay_path(state: RelayView)
    ensures
        ({
            let params = state.query_params();
            let start = "/v1/decisions/stream?startup=true"@;
            let later = "/v1/decisions/stream"@;
            &&& state.is_startup && params.len() == 0 ==> state.path() == start
            &&& state.is_startup && params.len() > 0 ==> state.path() == start + "&"@ + text::join(
                params,
                "&"@,
            )
            &&& !state.is_startup && params.len() == 0 ==> state.path() == later
            &&& !state.is_startup && params.len() > 0 ==> state.path() == later + "?"@ + text::join(
                params,
                "&"@,
            )
        }),
{
}

/// The request for decisions gets the path of the state from the API, with the key of the state.
pub proof fn law_relay_request(state: RelayView)
    ensures
        state.request_headers().len() == 4,
        state.request_headers()[0] == (":method"@, "GET"@),
        state.request_headers()[1] == (":path"@, state.path()),
        state.request_headers()[2] == (":authority"@, "crowdsec"@),
        state.request_headers()[3] == ("x-api-key"@, state.api_key),
{
}

/// A new updater knows no bans, no filters and no settings, and has not asked the API.
pub proof fn law_new_relay(v: Seq<char>)
    ensures
        ({
            let r = RelayView::initial();
            &&& !r.bans.contains(v)
            &&& r.is_startup
            &&& r.worker_names_queue_id is None
            &&& r.workers.len() == 0
            &&& r.api_key.len() == 0
            &&& r.cluster_name.len() == 0
            &&& r.crowdsec_url.len() == 0
            &&& r.scopes.len() == 0
            &&& r.origins.len() == 0
            &&& r.scenarios_containing.len() == 0
            &&& r.scenarios_not_containing.len() == 0
        }),
{
}

/// What a message, the settings and the updater say is what their fields hold.
pub proof fn law_relay_shows_its_fields(
    m: BanMessage,
    s: Settings,
    u: CrowdsecUpdater,
    list: Vec<Option<String>>,
)
    ensures
        m@.ip == m.ip@,
        m@.remediation == m.remediation@,
        m@.expiration == m.expiration@,
        m@.is_range == m.is_range,
        s@.poll_interval == s.poll_interval,
        s@.api_key == message::optional_text(s.api_key),
        s@.cluster_name == message::optional_text(s.cluster_name),
        s@.crowdsec_url == message::optional_text(s.crowdsec_url),
        s@.scopes == optional_list(s.scopes),
        s@.origins == optional_list(s.origins),
        s@.scenarios_containing == optional_list(s.scenarios_containing),
        s@.scenarios_not_containing == optional_list(s.scenarios_not_containing),
        forall|v: Seq<char>| #[trigger]
            u@.bans.contains(v) <==> text::strings(u.bans@).contains(v),
        u@.is_startup == u.is_startup,
        u@.worker_names_queue_id == u.worker_names_queue_id,
        u@.workers == u.worker_queues_ids@,
        u@.api_key == u.api_key@,
        u@.cluster_name == u.cluster_name@,
        u@.crowdsec_url == u.crowdsec_url@,
        u@.scopes == text::strings(u.scopes@),
        u@.origins == text::strings(u.origins@),
        u@.scenarios_containing == text::strings(u.scenarios_containing@),
        u@.scenarios_not_containing == text::strings(u.scenarios_not_containing@),
        optional_list(None) is None,
        optional_list(Some(list)) matches Some(items) && items.len() == list@.len() && forall|i: int|
            0 <= i < items.len() ==> #[trigger] items[i] == message::optional_text(list@[i]),
{
}

/// What lists of messages and of batches say is what their members say, and the encoding of a
/// message is that of all its fields.
pub proof fn law_relay_lists_say_what_their_members_say(
    messages: Seq<BanMessage>,
    batches: Seq<Vec<BanMessage>>,
    m: BanMessageView,
)
    ensures
        message_views(messages).len() == messages.len(),
        forall|i: int|
            0 <= i < messages.len() ==> #[trigger] message_views(messages)[i] == messages[i]@,
        batch_views(batches).len() == batches.len(),
        forall|k: int|
            0 <= k < batches.len() ==> (#[trigger] batch_views(batches)[k]).len()
                == batches[k]@.len(),
        forall|k: int, i: int|
            0 <= k < batches.len() && 0 <= i < batches[k]@.len() ==> #[trigger] batch_views(
                batches,
            )[k][i] == batches[k]@[i]@,
        encoding_of(m) == relay_encoding(m.ip, m.remediation, m.expiration, m.is_range),
{
}

} // verus!
