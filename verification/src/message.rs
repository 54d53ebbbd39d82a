//! The decisions that the CrowdSec API hands out and the messages that carry them to the filters.

use vstd::prelude::*;

use crate::expiration;
use crate::net::IpNet;
use crate::net;

verus! {

/// The remediation that lifts a ban. Every other remediation puts one in place.
pub open spec fn unban_text() -> Seq<char> {
    "unban"@
}

/// A change to the bans of every filter.
#[derive(Debug)]
pub struct BanMessage {
    pub ip: IpNet,
    pub remediation: String,
    pub expiration: String,
}

/// What a [`BanMessage`] says.
pub struct BanMessageView {
    pub ip: IpNet,
    pub remediation: Seq<char>,
    pub expiration: Seq<char>,
}

impl View for BanMessage {
    type V = BanMessageView;

    open spec fn view(&self) -> BanMessageView {
        BanMessageView {
            ip: self.ip,
            remediation: self.remediation@,
            expiration: self.expiration@,
        }
    }
}

impl BanMessageView {
    /// The message that lifts this ban.
    pub open spec fn lifted(self) -> BanMessageView {
        BanMessageView { ip: self.ip, remediation: unban_text(), expiration: self.expiration }
    }
}

/// What a sequence of messages says.
pub open spec fn message_views(s: Seq<BanMessage>) -> Seq<BanMessageView> {
    Seq::new(s.len(), |i: int| s[i]@)
}

impl Clone for BanMessage {
    fn clone(&self) -> (r: BanMessage)
        ensures
            r@ == self@,
    {
        BanMessage {
            ip: self.ip,
            remediation: self.remediation.clone(),
            expiration: self.expiration.clone(),
        }
    }
}

impl BanMessage {
    /// The message that lifts this ban: the same network and expiration, with the remediation
    /// `unban`.
    pub fn into_unban(self) -> (r: BanMessage)
        ensures
            r@ == self@.lifted(),
    {
        BanMessage {
            ip: self.ip,
            remediation: "unban".to_owned(),
            expiration: self.expiration,
        }
    }
}

/// A decision of the CrowdSec API.
#[derive(Clone, Debug)]
pub struct Decision {
    pub value: String,
    pub remediation: Option<String>,
    pub expiration: Option<String>,
}

/// What a [`Decision`] says.
pub struct DecisionView {
    pub value: Seq<char>,
    pub remediation: Option<Seq<char>>,
    pub expiration: Option<Seq<char>>,
}

/// The text of a string that may be absent.
pub open spec fn optional_text(s: Option<String>) -> Option<Seq<char>> {
    match s {
        Some(t) => Some(t@),
        None => None,
    }
}

/// The text of a string, or `default` where it is absent.
pub open spec fn text_or(s: Option<Seq<char>>, default: Seq<char>) -> Seq<char> {
    match s {
        Some(t) => t,
        None => default,
    }
}

/// A copy of the string, or `default` where it is absent.
pub fn text_or_default(s: &Option<String>, default: &str) -> (r: String)
    ensures
        r@ == text_or(optional_text(*s), default@),
{
    match s {
        Some(t) => t.clone(),
        None => default.to_owned(),
    }
}

/// The string, or `default` where it is absent.
pub fn string_or(s: Option<String>, default: &str) -> (r: String)
    ensures
        r@ == text_or(optional_text(s), default@),
{
    match s {
        Some(t) => t,
        None => default.to_owned(),
    }
}

impl View for Decision {
    type V = DecisionView;

    open spec fn view(&self) -> DecisionView {
        DecisionView {
            value: self.value@,
            remediation: optional_text(self.remediation),
            expiration: optional_text(self.expiration),
        }
    }
}

/// What a sequence of decisions says.
pub open spec fn decision_views(s: Seq<Decision>) -> Seq<DecisionView> {
    Seq::new(s.len(), |i: int| s[i]@)
}

/// A new ban as the updater takes it up: the message for the filters, and when the ban ends, in
/// seconds since the Unix epoch.
#[derive(Debug)]
pub struct NewBan {
    pub message: BanMessage,
    pub expires: Option<u64>,
}

/// What a [`NewBan`] says.
pub struct NewBanView {
    pub message: BanMessageView,
    pub expires: Option<u64>,
}

impl View for NewBan {
    type V = NewBanView;

    open spec fn view(&self) -> NewBanView {
        NewBanView { message: self.message@, expires: self.expires }
    }
}

/// What a sequence of new bans says, of which some may be absent.
pub open spec fn new_ban_views(s: Seq<Option<NewBan>>) -> Seq<Option<NewBanView>> {
    Seq::new(
        s.len(),
        |i: int|
            match s[i] {
                Some(b) => Some(b@),
                None => None,
            },
    )
}

/// The network of a decision that lifts a ban; `None` where its value names none.
pub open spec fn deleted_net(d: DecisionView) -> Option<IpNet> {
    match net::network_of_text(d.value) {
        Ok(net) => Some(net),
        Err(_) => None,
    }
}

/// The ban that a decision puts in place: `ban` where it names no remediation, and without an end
/// where its expiration gives none. `None` where its value names no network.
pub open spec fn new_ban(d: DecisionView) -> Option<NewBanView> {
    match net::network_of_text(d.value) {
        Ok(net) => Some(
            NewBanView {
                message: BanMessageView {
                    ip: net,
                    remediation: text_or(d.remediation, "ban"@),
                    expiration: text_or(d.expiration, Seq::empty()),
                },
                expires: expiration::expiration_of_text(text_or(d.expiration, Seq::empty())),
            },
        ),
        Err(_) => None,
    }
}

/// Reads the networks of decisions that lift bans.
pub fn read_deleted(decisions: &Vec<Decision>) -> (r: Vec<Option<IpNet>>)
    ensures
        r@ == decision_views(decisions@).map_values(|d: DecisionView| deleted_net(d)),
        r@.len() == decisions@.len(),
        forall|i: int|
            0 <= i < decisions@.len() ==> match net::network_of_text(
                (#[trigger] decisions@[i]).value@,
            ) {
                Ok(net) => r@[i] == Some(net),
                Err(_) => r@[i] is None,
            },
        forall|i: int| 0 <= i < r@.len() ==> (#[trigger] r@[i] matches Some(net) ==> net.wf()),
{
    let mut r: Vec<Option<IpNet>> = Vec::new();
    for i in 0..decisions.len()
        invariant
            r@.len() == i,
            forall|j: int| 0 <= j < i ==> #[trigger] r@[j] == deleted_net(decisions@[j]@),
            forall|j: int| 0 <= j < i ==> (#[trigger] r@[j] matches Some(net) ==> net.wf()),
    {
        r.push(
            match net::parse_ip_with_cidr(decisions[i].value.as_str()) {
                Ok(net) => Some(net),
                Err(_) => None,
            },
        );
    }
    r
}

/// Reads the bans that decisions put in place.
pub fn read_new(decisions: &Vec<Decision>) -> (r: Vec<Option<NewBan>>)
    ensures
        new_ban_views(r@) == decision_views(decisions@).map_values(|d: DecisionView| new_ban(d)),
        forall|i: int|
            0 <= i < r@.len() ==> (#[trigger] r@[i] matches Some(b) ==> b.message.ip.wf()),
{
    proof {
        reveal_strlit("");
        assert(""@ =~= Seq::<char>::empty());
    }
    let mut r: Vec<Option<NewBan>> = Vec::new();
    for i in 0..decisions.len()
        invariant
            ""@ == Seq::<char>::empty(),
            r@.len() == i,
            forall|j: int|
                0 <= j < i ==> new_ban(decisions@[j]@) == match #[trigger] r@[j] {
                    Some(b) => Some(b@),
                    None => None,
                },
            forall|j: int|
                0 <= j < i ==> (#[trigger] r@[j] matches Some(b) ==> b.message.ip.wf()),
    {
        let d: &Decision = &decisions[i];
        r.push(
            match net::parse_ip_with_cidr(d.value.as_str()) {
                Ok(ip) => {
                    let expiration: String = text_or_default(&d.expiration, "");
                    let expires: Option<u64> = expiration::parse_expiration(expiration.as_str());
                    let remediation: String = text_or_default(&d.remediation, "ban");
                    Some(NewBan { message: BanMessage { ip, remediation, expiration }, expires })
                },
                Err(_) => None,
            },
        );
    }
    assert(new_ban_views(r@) =~= decision_views(decisions@).map_values(
        |d: DecisionView| new_ban(d),
    ));
    r
}

/// One answer of the decision stream: what to ban, and what to lift.
#[derive(Clone, Debug)]
pub struct StreamResponse {
    pub new: Vec<Decision>,
    pub deleted: Vec<Decision>,
}

/// What the types of this module say is what their fields hold, one by one.
pub proof fn law_views_show_the_fields(m: BanMessage, d: Decision, b: NewBan)
    ensures
        m@.ip == m.ip,
        m@.remediation == m.remediation@,
        m@.expiration == m.expiration@,
        d@.value == d.value@,
        d.remediation matches Some(s) ==> d@.remediation == Some(s@),
        d.remediation is None ==> d@.remediation is None,
        d.expiration matches Some(s) ==> d@.expiration == Some(s@),
        d.expiration is None ==> d@.expiration is None,
        b@.expires == b.expires,
        b@.message.ip == b.message.ip,
        b@.message.remediation == b.message.remediation@,
        b@.message.expiration == b.message.expiration@,
{
}

/// What a list says is what its members say, each in its place.
pub proof fn law_lists_say_what_their_members_say(
    messages: Seq<BanMessage>,
    decisions: Seq<Decision>,
    bans: Seq<Option<NewBan>>,
)
    ensures
        message_views(messages).len() == messages.len(),
        forall|i: int|
            0 <= i < messages.len() ==> #[trigger] message_views(messages)[i] == messages[i]@,
        decision_views(decisions).len() == decisions.len(),
        forall|i: int|
            0 <= i < decisions.len() ==> #[trigger] decision_views(decisions)[i] == decisions[i]@,
        new_ban_views(bans).len() == bans.len(),
        forall|i: int|
            0 <= i < bans.len() ==> (#[trigger] new_ban_views(bans)[i] is Some <==> bans[i] is Some)
                && (bans[i] matches Some(b) ==> new_ban_views(bans)[i] == Some(b@)),
{
}

/// A text that is there stands, whatever the default, and the default only takes the place of one
/// that is not.
pub proof fn law_default_texts(s: String, t: Seq<char>, default: Seq<char>)
    ensures
        optional_text(Some(s)) == Some(s@),
        optional_text(None) is None,
        text_or(Some(t), default) == t,
        text_or(None, default) == default,
{
}

/// The message that lifts a ban names the network and the expiration of the ban and the remediation
/// `unban`, whatever the remediation of the ban was.
pub proof fn law_lifting_keeps_the_network(m: BanMessageView)
    ensures
        m.lifted().ip == m.ip,
        m.lifted().remediation == "unban"@,
        m.lifted().expiration == m.expiration,
        unban_text() == "unban"@,
{
}

/// Which network a deleted decision lifts depends on its value alone: a value that names a network
/// lifts exactly that one, whatever the remediation and the expiration, and a value that names none
/// lifts none.
pub proof fn law_value_alone_is_lifted(
    value: Seq<char>,
    remediation: Option<Seq<char>>,
    expiration: Option<Seq<char>>,
)
    ensures
        net::network_of_text(value) matches Ok(net) ==> deleted_net(
            DecisionView { value, remediation, expiration },
        ) == Some(net),
        net::network_of_text(value) is Err ==> deleted_net(
            DecisionView { value, remediation, expiration },
        ) is None,
{
}

/// Two decisions with the same value lift the same network, and a decision lifts the network that a
/// decision with the same value bans, whatever else they say.
pub proof fn law_same_value_same_network(a: DecisionView, b: DecisionView)
    requires
        a.value == b.value,
    ensures
        deleted_net(a) == deleted_net(b),
        new_ban(a) is Some <==> new_ban(b) is Some,
        new_ban(a) is Some <==> deleted_net(b) is Some,
        new_ban(a) matches Some(ban) ==> deleted_net(b) == Some(ban.message.ip),
{
}

/// A new decision whose value names a network bans that network, with the remediation and the
/// expiration that the decision gives. Without a remediation it is `ban`, and without an expiration
/// the text of it is empty and the ban has no end.
pub proof fn law_new_bans_carry_the_decision(d: DecisionView)
    ensures
        net::network_of_text(d.value) is Err ==> new_ban(d) is None,
        net::network_of_text(d.value) matches Ok(net) ==> {
            &&& new_ban(d) matches Some(ban)
            &&& ban.message.ip == net
            &&& d.remediation matches Some(r) ==> ban.message.remediation == r
            &&& d.remediation is None ==> ban.message.remediation == "ban"@
            &&& d.expiration matches Some(e) ==> ban.message.expiration == e && ban.expires
                == expiration::expiration_of_text(e)
            &&& d.expiration is None ==> ban.message.expiration.len() == 0 && ban.expires is None
        },
{
}

} // verus!
