//! What happens to a request: banned clients are turned away, and the others may have to pass the
//! WAF.

use vstd::prelude::*;

use crate::filter_config::FilterConfig;
use crate::filter_config;
use crate::ip_storage::{BanSets, IpStorage};
use crate::message;
use crate::net::IpAddr;
use crate::net;
use crate::text;
use crate::time::Duration;

verus! {

/// A header field: its name and its value.
pub type HeaderView = (Seq<char>, Seq<char>);

/// Whether `c` begins the text.
pub open spec fn begins_with_char(s: Seq<char>, c: char) -> bool {
    s.len() > 0 && s[0] == c
}

/// A name that a client may not give a header that goes to the WAF: a pseudo header, or one by
/// which the filter speaks to the WAF. The letter case counts.
pub open spec fn is_reserved(name: Seq<char>) -> bool {
    begins_with_char(name, ':') || "X-Crowdsec-Appsec-"@.is_prefix_of(name)
}

/// The header fields of a request that may go to the WAF, in their order.
pub open spec fn forwarded(headers: Seq<HeaderView>) -> Seq<HeaderView>
    decreases headers.len(),
{
    if headers.len() == 0 {
        Seq::empty()
    } else if is_reserved(headers.last().0) {
        forwarded(headers.drop_last())
    } else {
        forwarded(headers.drop_last()).push(headers.last())
    }
}

/// The header of a request as the proxy shows it: the fields that are looked up by name, and all
/// fields.
#[derive(Debug)]
pub struct RequestHeaders {
    pub path: Option<String>,
    pub authority: Option<String>,
    pub host: Option<String>,
    pub method: Option<String>,
    pub user_agent: Option<String>,
    pub all: Vec<(String, String)>,
}

/// What the WAF is told of a request.
#[derive(Debug)]
pub struct CachedRequestHeaders {
    pub uri: String,
    pub host: String,
    pub method: String,
    pub user_agent: String,
    pub request_headers: Vec<(String, String)>,
}

/// What a [`CachedRequestHeaders`] says.
pub struct RequestInfoView {
    pub uri: Seq<char>,
    pub host: Seq<char>,
    pub method: Seq<char>,
    pub user_agent: Seq<char>,
    pub request_headers: Seq<HeaderView>,
}

impl View for CachedRequestHeaders {
    type V = RequestInfoView;

    open spec fn view(&self) -> RequestInfoView {
        RequestInfoView {
            uri: self.uri@,
            host: self.host@,
            method: self.method@,
            user_agent: self.user_agent@,
            request_headers: text::string_pairs(self.request_headers@),
        }
    }
}

/// What the WAF is told of a request with this header, with the defaults for what is absent. The
/// host is the authority or else the host field.
pub open spec fn request_info(request: RequestHeaders) -> RequestInfoView {
    RequestInfoView {
        uri: message::text_or(message::optional_text(request.path), "/"@),
        host: match request.authority {
            Some(authority) => authority@,
            None => message::text_or(message::optional_text(request.host), "unknown"@),
        },
        method: message::text_or(message::optional_text(request.method), "GET"@),
        user_agent: message::text_or(message::optional_text(request.user_agent), "unknown"@),
        request_headers: forwarded(text::string_pairs(request.all@)),
    }
}

fn reserved(name: &str) -> (r: bool)
    ensures
        r == is_reserved(name@),
{
    let chars: Vec<char> = text::to_chars(name);
    let pseudo: bool = chars.len() > 0 && chars[0] == ':';
    pseudo || text::has_prefix(name, "X-Crowdsec-Appsec-")
}

fn forward_headers(headers: &Vec<(String, String)>) -> (r: Vec<(String, String)>)
    ensures
        text::string_pairs(r@) == forwarded(text::string_pairs(headers@)),
{
    let ghost all = text::string_pairs(headers@);
    let mut r: Vec<(String, String)> = Vec::new();
    assert(text::string_pairs(r@) =~= forwarded(all.take(0)));
    for i in 0..headers.len()
        invariant
            all == text::string_pairs(headers@),
            text::string_pairs(r@) == forwarded(all.take(i as int)),
    {
        let ghost held = r@;
        proof {
            let now = all.take(i + 1);
            assert(now.drop_last() =~= all.take(i as int));
            assert(now.last() == all[i as int]);
        }
        if !reserved(headers[i].0.as_str()) {
            r.push((headers[i].0.clone(), headers[i].1.clone()));
            assert(text::string_pairs(r@) =~= text::string_pairs(held).push(all[i as int]));
        }
    }
    assert(all.take(headers@.len() as int) =~= all);
    r
}

/// What the WAF is told of a request with this header.
pub fn extract_request_info(request: &RequestHeaders) -> (r: CachedRequestHeaders)
    ensures
        r@ == request_info(*request),
{
    CachedRequestHeaders {
        uri: message::text_or_default(&request.path, "/"),
        host: match &request.authority {
            Some(authority) => authority.clone(),
            None => message::text_or_default(&request.host, "unknown"),
        },
        method: message::text_or_default(&request.method, "GET"),
        user_agent: message::text_or_default(&request.user_agent, "unknown"),
        request_headers: forward_headers(&request.all),
    }
}

/// No field that goes on to the WAF has a reserved name, and all others go on.
pub proof fn law_forwarded_headers(headers: Seq<HeaderView>, h: HeaderView)
    ensures
        forwarded(headers).contains(h) <==> headers.contains(h) && !is_reserved(h.0),
    decreases headers.len(),
{
    if headers.len() > 0 {
        let rest = headers.drop_last();
        law_forwarded_headers(rest, h);
        let before = forwarded(rest);
        let last = headers.last();
        assert(headers[headers.len() - 1] == last);
        if rest.contains(h) {
            let i = choose|i: int| 0 <= i < rest.len() && rest[i] == h;
            assert(headers[i] == h);
        }
        if headers.contains(h) && h != last {
            let i = choose|i: int| 0 <= i < headers.len() && headers[i] == h;
            assert(rest[i] == h);
        }
        if !is_reserved(last.0) {
            let now = before.push(last);
            if before.contains(h) {
                let i = choose|i: int| 0 <= i < before.len() && before[i] == h;
                assert(now[i] == h);
            }
            if now.contains(h) && h != last {
                let i = choose|i: int| 0 <= i < now.len() && now[i] == h;
                assert(before[i] == h);
            }
            assert(now[before.len() as int] == last);
        }
    } else {
        assert(forwarded(headers) =~= Seq::empty());
    }
}

/// Of the fields that describe a request to the WAF, those with a reserved name, in this spelling,
/// come from the filter. A name in other letter case is not looked at.
pub proof fn law_reserved_spellings_come_from_the_filter(
    ip: Seq<char>,
    verb: Seq<char>,
    request: RequestHeaders,
    api_key: Seq<char>,
    agent: Seq<char>,
    i: int,
)
    requires
        8 <= i < waf_description(ip, verb, request_info(request), api_key, agent).len(),
    ensures
        !is_reserved(waf_description(ip, verb, request_info(request), api_key, agent)[i].0),
{
    let all = text::string_pairs(request.all@);
    let h = waf_description(ip, verb, request_info(request), api_key, agent)[i];
    assert(h == forwarded(all)[i - 8]);
    assert(forwarded(all).contains(h));
    law_forwarded_headers(all, h);
}

/// The URL without its scheme, which has to be `http` or `https`.
pub open spec fn without_scheme(url: Seq<char>) -> Option<Seq<char>> {
    if "http://"@.is_prefix_of(url) {
        Some(url.skip("http://"@.len() as int))
    } else if "https://"@.is_prefix_of(url) {
        Some(url.skip("https://"@.len() as int))
    } else {
        None
    }
}

/// The host and the port of a URL without its scheme: all that stands before the first slash.
pub open spec fn url_authority(rest: Seq<char>) -> Seq<char> {
    text::before_first(rest, '/')
}

/// The path of a URL without its scheme: all from the first slash on, or a slash.
pub open spec fn url_path(rest: Seq<char>) -> Seq<char> {
    if rest.contains('/') {
        rest.skip(text::first_index(rest, '/') as int)
    } else {
        "/"@
    }
}

/// The parts of the URL of the WAF: the cluster, which is the host, then the path and the
/// authority. In place of them, what is wrong with it.
pub open spec fn waf_url_parts(url: Seq<char>) -> Result<
    (Seq<char>, Seq<char>, Seq<char>),
    Seq<char>,
> {
    match without_scheme(url) {
        Some(rest) => {
            let authority = url_authority(rest);
            if authority.len() == 0 {
                Err("WAF URL missing host"@)
            } else {
                Ok((text::before_first(authority, ':'), url_path(rest), authority))
            }
        },
        None => Err("WAF URL must start with http:// or https://"@),
    }
}

/// What the parts of a URL say.
pub open spec fn parts_view(parts: (String, String, String)) -> (Seq<char>, Seq<char>, Seq<char>) {
    (parts.0@, parts.1@, parts.2@)
}

/// A WAF URL is made of its scheme, its authority and its path, where it has one, and the cluster
/// begins the authority, up to a colon.
pub proof fn law_waf_url_parts(url: Seq<char>)
    ensures
        waf_url_parts(url) matches Ok((cluster, path, authority)) ==> {
            let parts = authority + path;
            &&& url == "http://"@ + parts || url == "https://"@ + parts || (path == "/"@ && (url
                == "http://"@ + authority || url == "https://"@ + authority))
            &&& begins_with_char(path, '/')
            &&& !authority.contains('/')
            &&& authority.len() > 0
            &&& cluster == authority || (cluster + ":"@).is_prefix_of(authority)
            &&& !cluster.contains(':')
        },
{
    reveal_strlit("/");
    reveal_strlit(":");
    if let Some(rest) = without_scheme(url) {
        text::lemma_first_index(rest, '/');
        let authority = url_authority(rest);
        text::lemma_first_index(authority, ':');
        let n = text::first_index(authority, ':') as int;
        let cluster = text::before_first(authority, ':');
        if "http://"@.is_prefix_of(url) {
            assert(url =~= "http://"@ + rest);
        } else {
            assert(url =~= "https://"@ + rest);
        }
        if rest.contains('/') {
            assert(rest =~= authority + url_path(rest));
        } else {
            assert(rest =~= authority);
        }
        if authority.contains(':') {
            assert((cluster + ":"@) =~= authority.take(n + 1));
        } else {
            assert(cluster =~= authority);
        }
    }
}

/// The upper case of a text, as `str::to_uppercase` gives it.
pub uninterp spec fn upper_case(s: Seq<char>) -> Seq<char>;

/// `str::to_uppercase`: the text in upper case, by the rules of Unicode, which are left to the
/// name `upper_case`.
#[verifier::external_body]
fn to_uppercase(s: &str) -> (r: String)
    ensures
        r@ == upper_case(s@),
{
    s.to_uppercase()
}

/// Some field has this name, letter case aside.
pub open spec fn has_field(headers: Seq<HeaderView>, name: Seq<char>) -> bool {
    exists|i: int|
        0 <= i < headers.len() && text::same_ignoring_ascii_case((#[trigger] headers[i]).0, name)
}

/// The header fields with which the filter describes a request to the WAF, without those that
/// describe a body. `verb` is the method in upper case.
pub open spec fn waf_description(
    ip: Seq<char>,
    verb: Seq<char>,
    info: RequestInfoView,
    api_key: Seq<char>,
    agent: Seq<char>,
) -> Seq<HeaderView> {
    seq![
        ("X-Crowdsec-Appsec-Ip"@, ip),
        ("X-Crowdsec-Appsec-Uri"@, info.uri),
        ("X-Crowdsec-Appsec-Host"@, info.host),
        ("X-Crowdsec-Appsec-Verb"@, verb),
        ("X-Crowdsec-Appsec-Api-Key"@, api_key),
        ("X-Crowdsec-Appsec-User-Agent"@, info.user_agent),
        ("X-Crowdsec-Appsec-Http-Version"@, "11"@),
        ("User-Agent"@, agent),
    ] + info.request_headers
}

/// The header fields with which the filter describes a request to the WAF. With a body its length
/// is told, and its type, where it is known and not told yet.
pub open spec fn waf_headers(
    description: Seq<HeaderView>,
    body: Option<Seq<u8>>,
    content_type: Option<Seq<char>>,
) -> Seq<HeaderView> {
    match body {
        Some(bytes) => {
            let headers = description.push(
                ("Content-Length"@, text::decimal_text(bytes.len())),
            );
            match content_type {
                Some(t) => if has_field(headers, "content-type"@) {
                    headers
                } else {
                    headers.push(("Content-Type"@, t))
                },
                None => headers,
            }
        },
        None => description,
    }
}

/// Whether some field has this name, letter case aside.
fn find_field(headers: &Vec<(String, String)>, name: &str) -> (r: bool)
    ensures
        r == has_field(text::string_pairs(headers@), name@),
{
    let ghost views = text::string_pairs(headers@);
    for i in 0..headers.len()
        invariant
            views == text::string_pairs(headers@),
            forall|j: int|
                0 <= j < i ==> !text::same_ignoring_ascii_case((#[trigger] views[j]).0, name@),
    {
        assert(views[i as int].0 == headers@[i as int].0@);
        if text::eq_ignore_ascii_case(headers[i].0.as_str(), name) {
            return true;
        }
    }
    false
}

fn push_header(headers: &mut Vec<(String, String)>, name: &str, value: String)
    ensures
        text::string_pairs(final(headers)@) == text::string_pairs(old(headers)@).push(
            (name@, value@),
        ),
{
    headers.push((name.to_owned(), value));
    assert(text::string_pairs(headers@) =~= text::string_pairs(old(headers)@).push(
        (name@, value@),
    ));
}

fn push_headers(headers: &mut Vec<(String, String)>, more: &Vec<(String, String)>)
    ensures
        text::string_pairs(final(headers)@) == text::string_pairs(old(headers)@)
            + text::string_pairs(more@),
{
    let ghost before = text::string_pairs(headers@);
    let ghost added = text::string_pairs(more@);
    assert(before + added.take(0) =~= before);
    for i in 0..more.len()
        invariant
            added == text::string_pairs(more@),
            text::string_pairs(headers@) == before + added.take(i as int),
    {
        push_header(headers, more[i].0.as_str(), more[i].1.clone());
        assert(before + added.take(i + 1) =~= (before + added.take(i as int)).push(
            added[i as int],
        ));
    }
    assert(added.take(more@.len() as int) =~= added);
}

/// The header fields with which the filter describes a request to the WAF, out of the notation of
/// the client's address and the method in upper case.
pub fn describe_request(
    ip: String,
    verb: String,
    info: &CachedRequestHeaders,
    api_key: &str,
    agent: &str,
    body: Option<&[u8]>,
    content_type: Option<String>,
) -> (r: Vec<(String, String)>)
    ensures
        text::string_pairs(r@) == waf_headers(
            waf_description(ip@, verb@, info@, api_key@, agent@),
            match body {
                Some(bytes) => Some(bytes@),
                None => None,
            },
            message::optional_text(content_type),
        ),
{
    let mut headers: Vec<(String, String)> = Vec::new();
    push_header(&mut headers, "X-Crowdsec-Appsec-Ip", ip);
    push_header(&mut headers, "X-Crowdsec-Appsec-Uri", info.uri.clone());
    push_header(&mut headers, "X-Crowdsec-Appsec-Host", info.host.clone());
    push_header(&mut headers, "X-Crowdsec-Appsec-Verb", verb);
    push_header(&mut headers, "X-Crowdsec-Appsec-Api-Key", api_key.to_owned());
    push_header(&mut headers, "X-Crowdsec-Appsec-User-Agent", info.user_agent.clone());
    push_header(&mut headers, "X-Crowdsec-Appsec-Http-Version", "11".to_owned());
    push_header(&mut headers, "User-Agent", agent.to_owned());
    push_headers(&mut headers, &info.request_headers);
    assert(text::string_pairs(headers@) =~= waf_description(ip@, verb@, info@, api_key@, agent@));
    if let Some(bytes) = body {
        push_header(&mut headers, "Content-Length", text::decimal(bytes.len()));
        if let Some(t) = content_type {
            if !find_field(&headers, "content-type") {
                push_header(&mut headers, "Content-Type", t);
            }
        }
    }
    headers
}

/// An answer that the filter gives in place of the service behind it.
#[derive(Debug)]
pub struct LocalResponse {
    pub status: u32,
    pub content_type: String,
    pub body: String,
}

/// What a [`LocalResponse`] says.
pub struct LocalResponseView {
    pub status: u32,
    pub content_type: Seq<char>,
    pub body: Seq<char>,
}

impl View for LocalResponse {
    type V = LocalResponseView;

    open spec fn view(&self) -> LocalResponseView {
        LocalResponseView {
            status: self.status,
            content_type: self.content_type@,
            body: self.body@,
        }
    }
}

/// The answer to a banned client.
pub open spec fn ban_response(config: filter_config::FilterConfigView) -> LocalResponseView {
    LocalResponseView {
        status: config.response_code as u32,
        content_type: "text/plain"@,
        body: config.response_message,
    }
}

/// The answer to a client, if it is banned.
fn response_if(banned: bool, config: &FilterConfig) -> (r: Option<LocalResponse>)
    ensures
        r is Some <==> banned,
        r matches Some(response) ==> response@ == ban_response(config@),
{
    if banned {
        Some(banned_response(config))
    } else {
        None
    }
}

fn banned_response(config: &FilterConfig) -> (r: LocalResponse)
    ensures
        r@ == ban_response(config@),
{
    LocalResponse {
        status: config.response_code as u32,
        content_type: "text/plain".to_owned(),
        body: config.response_message.clone(),
    }
}

/// A call of the WAF.
#[derive(Debug)]
pub struct WafCall {
    pub cluster: String,
    pub headers: Vec<(String, String)>,
    pub body: Option<Vec<u8>>,
    pub timeout: Duration,
}

/// What a [`WafCall`] says.
pub struct WafCallView {
    pub cluster: Seq<char>,
    pub headers: Seq<HeaderView>,
    pub body: Option<Seq<u8>>,
    pub timeout: Duration,
}

/// The bytes of a body that may be absent.
pub open spec fn optional_bytes(body: Option<Vec<u8>>) -> Option<Seq<u8>> {
    match body {
        Some(bytes) => Some(bytes@),
        None => None,
    }
}

impl View for WafCall {
    type V = WafCallView;

    open spec fn view(&self) -> WafCallView {
        WafCallView {
            cluster: self.cluster@,
            headers: text::string_pairs(self.headers@),
            body: optional_bytes(self.body),
            timeout: self.timeout,
        }
    }
}

/// What to do once the header of a request is there.
#[derive(Debug)]
pub enum HeadersStep {
    /// Let the request go on.
    Continue,
    /// Answer it, and hold it back.
    Respond(LocalResponse),
    /// Call the WAF, and hold the request back until it answers. Where the call cannot be made,
    /// answer the request as given, or let it go on.
    CallWaf(WafCall, Option<LocalResponse>),
}

/// What a [`HeadersStep`] says.
pub enum HeadersStepView {
    Continue,
    Respond(LocalResponseView),
    CallWaf(WafCallView, Option<LocalResponseView>),
}

impl View for HeadersStep {
    type V = HeadersStepView;

    open spec fn view(&self) -> HeadersStepView {
        match self {
            HeadersStep::Continue => HeadersStepView::Continue,
            HeadersStep::Respond(response) => HeadersStepView::Respond(response@),
            HeadersStep::CallWaf(call, otherwise) => HeadersStepView::CallWaf(
                call@,
                optional_response(*otherwise),
            ),
        }
    }
}

/// What to do once a part of the body of a request is there.
#[derive(Debug)]
pub enum BodyStep {
    /// Let the request go on.
    Continue,
    /// Answer it, and hold it back.
    Respond(LocalResponse),
    /// Call the WAF, and hold the request back until it answers. Where the call cannot be made,
    /// answer the request as given, or let it go on.
    CallWaf(WafCall, Option<LocalResponse>),
}

/// What a [`BodyStep`] says.
pub enum BodyStepView {
    Continue,
    Respond(LocalResponseView),
    CallWaf(WafCallView, Option<LocalResponseView>),
}

/// What an answer says, if there is one.
pub open spec fn optional_response(response: Option<LocalResponse>) -> Option<LocalResponseView> {
    match response {
        Some(r) => Some(r@),
        None => None,
    }
}

impl View for BodyStep {
    type V = BodyStepView;

    open spec fn view(&self) -> BodyStepView {
        match self {
            BodyStep::Continue => BodyStepView::Continue,
            BodyStep::Respond(response) => BodyStepView::Respond(response@),
            BodyStep::CallWaf(call, otherwise) => BodyStepView::CallWaf(
                call@,
                optional_response(*otherwise),
            ),
        }
    }
}

/// The state of one request.
pub struct CrowdsecFilterHttp {
    pub config: FilterConfig,
    /// The name and version by which the filter calls itself.
    pub agent: String,
    /// The body as far as it has come in.
    pub request_body: Vec<u8>,
    pub has_request_body: bool,
    /// Whether the client is banned and the answer to it was put off at the header of the request.
    pub ban_pending: bool,
    /// The cluster, the path and the authority of the WAF.
    pub waf_url_parts: Option<(String, String, String)>,
    /// What the WAF is told of the request, kept until its body is there.
    pub cached_headers: Option<CachedRequestHeaders>,
}

/// What the state of a request says.
pub struct FilterHttpView {
    pub config: filter_config::FilterConfigView,
    pub agent: Seq<char>,
    pub request_body: Seq<u8>,
    pub has_request_body: bool,
    pub ban_pending: bool,
    pub waf_url_parts: Option<(Seq<char>, Seq<char>, Seq<char>)>,
    pub cached_headers: Option<RequestInfoView>,
}

impl View for CrowdsecFilterHttp {
    type V = FilterHttpView;

    open spec fn view(&self) -> FilterHttpView {
        FilterHttpView {
            config: self.config@,
            agent: self.agent@,
            request_body: self.request_body@,
            has_request_body: self.has_request_body,
            ban_pending: self.ban_pending,
            waf_url_parts: match self.waf_url_parts {
                Some(parts) => Some(parts_view(parts)),
                None => None,
            },
            cached_headers: match self.cached_headers {
                Some(info) => Some(info@),
                None => None,
            },
        }
    }
}

/// The address of the client, out of the source address that the proxy gives.
pub open spec fn client_ip(source: Option<Seq<u8>>) -> Option<IpAddr> {
    match source {
        Some(bytes) => net::peer_address(bytes),
        None => None,
    }
}

/// The client is known, and banned.
pub open spec fn is_banned(bans: BanSets, client: Option<IpAddr>) -> bool {
    match client {
        Some(a) => bans.bans(a),
        None => false,
    }
}

/// The body as far as it has come in, once the buffer of the proxy is seen: of the buffer only what
/// lies beyond the bytes that are there already counts.
pub open spec fn collected(so_far: Seq<u8>, buffer: Option<Seq<u8>>) -> Seq<u8> {
    match buffer {
        Some(bytes) => if so_far.len() < bytes.len() {
            so_far + bytes.skip(so_far.len() as int)
        } else {
            so_far
        },
        None => so_far,
    }
}

impl FilterHttpView {
    /// The state of a new request. The URL of the WAF counts only where the WAF is enabled, and
    /// only where it is a valid one.
    pub open spec fn initial(
        config: filter_config::FilterConfigView,
        agent: Seq<char>,
    ) -> FilterHttpView {
        FilterHttpView {
            config,
            agent,
            request_body: Seq::empty(),
            has_request_body: false,
            ban_pending: false,
            waf_url_parts: if config.waf_enabled {
                match waf_url_parts(config.waf_url) {
                    Ok(parts) => Some(parts),
                    Err(_) => None,
                }
            } else {
                None
            },
            cached_headers: None,
        }
    }

    /// What the WAF is told of the request: what was kept, where a body goes with it, and what the
    /// header at hand gives otherwise.
    pub open spec fn info_for(self, request: Option<RequestInfoView>, with_body: bool) -> Option<
        RequestInfoView,
    > {
        if with_body {
            self.cached_headers
        } else {
            request
        }
    }

    /// The call of the WAF, or what stands against it. `ip` is the notation of the client's
    /// address, and `verb` the method in upper case.
    pub open spec fn waf_call(
        self,
        ip: Seq<char>,
        verb: Seq<char>,
        request: Option<RequestInfoView>,
        body: Option<Seq<u8>>,
        content_type: Option<Seq<char>>,
    ) -> Result<WafCallView, Seq<char>> {
        match (self.info_for(request, body is Some), self.waf_url_parts) {
            (None, _) => Err(
                "Headers not cached - call cache_request_headers() during header phase"@,
            ),
            (Some(_), None) => Err("WAF URL not initialized"@),
            (Some(info), Some((cluster, path, authority))) => Ok(
                WafCallView {
                    cluster,
                    headers: seq![
                        (":method"@, "POST"@),
                        (":path"@, path),
                        (":authority"@, authority),
                    ] + waf_headers(
                        waf_description(
                            ip,
                            verb,
                            info,
                            self.config.waf_api_key,
                            self.agent,
                        ),
                        body,
                        content_type,
                    ),
                    body,
                    timeout: self.config.waf_timeout,
                },
            ),
        }
    }

    /// The method of the request as far as it was kept.
    pub open spec fn cached_method(self) -> Seq<char> {
        match self.cached_headers {
            Some(info) => info.method,
            None => Seq::empty(),
        }
    }

    /// A banned client is turned away without the WAF being asked.
    pub open spec fn blocks_at_once(self, banned: bool) -> bool {
        banned && !self.config.waf_forward_on_decision
    }

    /// The answer to a banned client is put off: the settings say that the WAF is asked first, and
    /// it can be, now or once the body is there. `known` tells whether the client's address is.
    pub open spec fn puts_off_ban(self, known: bool, end_of_stream: bool) -> bool {
        &&& self.config.waf_enabled
        &&& self.config.waf_forward_on_decision
        &&& known
        &&& !end_of_stream || self.waf_url_parts is Some
    }

    /// The state once the header of the request is seen. `known` tells whether the client's address
    /// is, and `banned` whether it is banned.
    pub open spec fn after_headers(
        self,
        known: bool,
        banned: bool,
        request: RequestInfoView,
        end_of_stream: bool,
    ) -> FilterHttpView {
        if self.blocks_at_once(banned) {
            FilterHttpView { ban_pending: false, ..self }
        } else {
            FilterHttpView {
                ban_pending: banned && self.puts_off_ban(known, end_of_stream),
                has_request_body: !end_of_stream,
                cached_headers: if self.config.waf_enabled && !end_of_stream {
                    Some(request)
                } else {
                    self.cached_headers
                },
                ..self
            }
        }
    }

    /// What becomes of the request where the WAF has no part in it.
    pub open spec fn without_waf(self, banned: bool) -> Option<LocalResponseView> {
        if banned {
            Some(ban_response(self.config))
        } else {
            None
        }
    }

    /// What to do once the header of the request is there. `client` is the client's address in its
    /// notation, where it is known, `banned` whether it is banned, and `verb` the method in upper
    /// case.
    pub open spec fn headers_step(
        self,
        client: Option<Seq<char>>,
        banned: bool,
        verb: Seq<char>,
        request: RequestInfoView,
        end_of_stream: bool,
    ) -> HeadersStepView {
        let plain = match self.without_waf(banned) {
            Some(response) => HeadersStepView::Respond(response),
            None => HeadersStepView::Continue,
        };
        match client {
            Some(ip) => if self.blocks_at_once(banned) || !self.config.waf_enabled {
                plain
            } else if !end_of_stream {
                HeadersStepView::Continue
            } else {
                match self.waf_call(ip, verb, Some(request), None, None) {
                    Ok(call) => HeadersStepView::CallWaf(call, self.without_waf(banned)),
                    Err(_) => plain,
                }
            },
            None => plain,
        }
    }

    /// The state once a part of the body is seen.
    pub open spec fn after_body(self, buffer: Option<Seq<u8>>) -> FilterHttpView {
        FilterHttpView { request_body: collected(self.request_body, buffer), ..self }
    }

    /// What to do once a part of the body is there, in the state in which it has been collected:
    /// with the last part the WAF is asked, and where it cannot be, a banned client whose answer was
    /// put off is turned away.
    pub open spec fn body_step(
        self,
        client: Option<Seq<char>>,
        verb: Seq<char>,
        content_type: Option<Seq<char>>,
        end_of_stream: bool,
    ) -> BodyStepView {
        let plain = match self.without_waf(self.ban_pending) {
            Some(response) => BodyStepView::Respond(response),
            None => BodyStepView::Continue,
        };
        if !end_of_stream || !self.config.waf_enabled || !self.has_request_body {
            BodyStepView::Continue
        } else {
            match client {
                Some(ip) => match self.waf_call(
                    ip,
                    verb,
                    None,
                    Some(self.request_body),
                    content_type,
                ) {
                    Ok(call) => BodyStepView::CallWaf(call, self.without_waf(self.ban_pending)),
                    Err(_) => plain,
                },
                None => plain,
            }
        }
    }

    /// What becomes of the request after the WAF has answered with this status and, as far as it
    /// could be read, this body: with the status 403 it is blocked as the WAF says, and otherwise a
    /// banned client whose answer was put off is turned away and every other request goes on.
    pub open spec fn verdict(
        self,
        status: Option<Seq<char>>,
        waf: Option<WafResponse>,
    ) -> WafVerdictView {
        if status == Some("403"@) {
            WafVerdictView::Respond(blocked_response(waf))
        } else {
            match self.without_waf(self.ban_pending) {
                Some(response) => WafVerdictView::Respond(response),
                None => WafVerdictView::Resume,
            }
        }
    }
}

/// The notation of an address that may be unknown.
pub open spec fn notation(client: Option<IpAddr>) -> Option<Seq<char>> {
    match client {
        Some(a) => Some(net::text_of_ip_addr(a)),
        None => None,
    }
}

fn source_ip(source: &Option<Vec<u8>>) -> (r: Option<IpAddr>)
    ensures
        r == client_ip(optional_bytes(*source)),
{
    match source {
        Some(bytes) => net::parse_ip_from_bytes(bytes.as_slice()),
        None => None,
    }
}

fn ip_notation(client: Option<IpAddr>) -> (r: Option<String>)
    ensures
        message::optional_text(r) == notation(client),
{
    match client {
        Some(a) => Some(net::ip_addr_text(a)),
        None => None,
    }
}

/// Whether the client of a request is banned.
pub fn check_client(bans: &IpStorage, client: Option<IpAddr>) -> (r: bool)
    ensures
        r == is_banned(bans@, client),
        r <==> (client matches Some(a) && (bans@.singles.contains(a) || bans@.ranges.contains(a))),
{
    match client {
        Some(a) => bans.contains_direct(a),
        None => false,
    }
}

/// What becomes of a request where bans are all that counts: a banned client gets an answer, and
/// every other request goes on.
pub fn block_banned(bans: &IpStorage, config: &FilterConfig, source: Option<Vec<u8>>) -> (r: Option<
    LocalResponse,
>)
    ensures
        r is Some <==> is_banned(bans@, client_ip(optional_bytes(source))),
        r is Some <==> (source matches Some(bytes) && net::peer_address(bytes@) matches Some(a) && (
        bans@.singles.contains(a) || bans@.ranges.contains(a))),
        r matches Some(response) ==> response@ == ban_response(config@),
{
    if check_client(bans, source_ip(&source)) {
        Some(banned_response(config))
    } else {
        None
    }
}

impl CrowdsecFilterHttp {
    /// The state of a new request. `version` tells which build of the filter this is.
    pub fn new(config: FilterConfig, version: &str) -> (r: CrowdsecFilterHttp)
        ensures
            r@ == FilterHttpView::initial(config@, "cs-envoy-bouncer/"@ + version@),
    {
        let mut agent: String = "cs-envoy-bouncer/".to_owned();
        agent.append(version);
        let waf_url_parts: Option<(String, String, String)> = if config.waf_enabled {
            match CrowdsecFilterHttp::parse_waf_url_static(config.waf_url.as_str()) {
                Ok(parts) => Some(parts),
                Err(_) => None,
            }
        } else {
            None
        };
        CrowdsecFilterHttp {
            config,
            agent,
            request_body: Vec::new(),
            has_request_body: false,
            ban_pending: false,
            waf_url_parts,
            cached_headers: None,
        }
    }

    /// The parts of the URL of the WAF: the cluster, which is the host, then the path and the
    /// authority.
    pub fn parse_waf_url_static(url: &str) -> (r: Result<(String, String, String), String>)
        ensures
            match waf_url_parts(url@) {
                Ok(parts) => r matches Ok(p) && parts_view(p) == parts,
                Err(e) => r matches Err(s) && s@ == e,
            },
    {
        let chars: Vec<char> = text::to_chars(url);
        let start: usize = if text::has_prefix(url, "http://") {
            7
        } else if text::has_prefix(url, "https://") {
            8
        } else {
            return Err("WAF URL must start with http:// or https://".to_owned());
        };
        proof {
            reveal_strlit("http://");
            reveal_strlit("https://");
        }
        let rest: &str = url.substring_char(start, chars.len());
        assert(rest@ =~= url@.skip(start as int));
        let rest_chars: Vec<char> = text::to_chars(rest);
        let slash: usize = text::find_char(&rest_chars, '/');
        proof {
            text::lemma_first_index(rest@, '/');
        }
        let authority: &str = rest.substring_char(0, slash);
        assert(authority@ =~= url_authority(rest@));
        if slash == 0 {
            return Err("WAF URL missing host".to_owned());
        }
        let path: String = if slash < rest_chars.len() {
            let p: &str = rest.substring_char(slash, rest_chars.len());
            assert(p@ =~= rest@.skip(slash as int));
            p.to_owned()
        } else {
            "/".to_owned()
        };
        let authority_chars: Vec<char> = text::to_chars(authority);
        let colon: usize = text::find_char(&authority_chars, ':');
        proof {
            text::lemma_first_index(authority@, ':');
        }
        let cluster: &str = authority.substring_char(0, colon);
        assert(cluster@ =~= text::before_first(authority@, ':'));
        Ok((cluster.to_owned(), path, authority.to_owned()))
    }

    /// Keeps what the WAF is told of the request until its body is there.
    pub fn cache_request_headers(&mut self, info: CachedRequestHeaders)
        ensures
            final(self)@ == (FilterHttpView { cached_headers: Some(info@), ..old(self)@ }),
    {
        self.cached_headers = Some(info);
    }

    /// The call of the WAF, or what stands against it: for a request without a body out of its
    /// header, for one with a body out of what was kept of it.
    pub fn send_waf_request(
        &self,
        ip: String,
        verb: String,
        request: Option<&CachedRequestHeaders>,
        body: Option<&Vec<u8>>,
        content_type: Option<String>,
    ) -> (r: Result<WafCall, String>)
        ensures
            match self@.waf_call(
                ip@,
                verb@,
                match request {
                    Some(info) => Some(info@),
                    None => None,
                },
                match body {
                    Some(bytes) => Some(bytes@),
                    None => None,
                },
                message::optional_text(content_type),
            ) {
                Ok(call) => r matches Ok(c) && c@ == call,
                Err(e) => r matches Err(s) && s@ == e,
            },
    {
        let cached: Option<&CachedRequestHeaders> = match &self.cached_headers {
            Some(info) => Some(info),
            None => None,
        };
        let info: Option<&CachedRequestHeaders> = if body.is_some() {
            cached
        } else {
            request
        };
        match info {
            Some(info) => match &self.waf_url_parts {
                Some((cluster, path, authority)) => {
                    let bytes: Option<&[u8]> = match body {
                        Some(bytes) => Some(bytes.as_slice()),
                        None => None,
                    };
                    let description: Vec<(String, String)> = describe_request(
                        ip,
                        verb,
                        info,
                        self.config.waf_api_key.as_str(),
                        self.agent.as_str(),
                        bytes,
                        content_type,
                    );
                    let mut headers: Vec<(String, String)> = Vec::new();
                    push_header(&mut headers, ":method", "POST".to_owned());
                    push_header(&mut headers, ":path", path.clone());
                    push_header(&mut headers, ":authority", authority.clone());
                    assert(text::string_pairs(headers@) =~= seq![
                        (":method"@, "POST"@),
                        (":path"@, path@),
                        (":authority"@, authority@),
                    ]);
                    push_headers(&mut headers, &description);
                    Ok(
                        WafCall {
                            cluster: cluster.clone(),
                            headers,
                            body: match body {
                                Some(bytes) => Some(copy_bytes(bytes)),
                                None => None,
                            },
                            timeout: self.config.waf_timeout,
                        },
                    )
                },
                None => Err("WAF URL not initialized".to_owned()),
            },
            None => Err(
                "Headers not cached - call cache_request_headers() during header phase".to_owned(),
            ),
        }
    }

    /// What to do once the header of the request is there, by the client's address in its notation
    /// and the method in upper case.
    pub fn decide_headers(
        &mut self,
        client: Option<String>,
        banned: bool,
        verb: String,
        info: CachedRequestHeaders,
        end_of_stream: bool,
    ) -> (r: HeadersStep)
        ensures
            final(self)@ == old(self)@.after_headers(
                client is Some,
                banned,
                info@,
                end_of_stream,
            ),
            r@ == old(self)@.headers_step(
                message::optional_text(client),
                banned,
                verb@,
                info@,
                end_of_stream,
            ),
    {
        self.ban_pending = false;
        if banned && !self.config.waf_forward_on_decision {
            return HeadersStep::Respond(banned_response(&self.config));
        }
        self.has_request_body = !end_of_stream;
        if self.config.waf_enabled {
            if end_of_stream {
                if let Some(ip) = client {
                    if let Ok(call) = self.send_waf_request(ip, verb, Some(&info), None, None) {
                        self.ban_pending = banned;
                        return HeadersStep::CallWaf(call, response_if(banned, &self.config));
                    }
                }
            } else {
                self.cache_request_headers(info);
                if client.is_some() {
                    self.ban_pending = banned;
                    return HeadersStep::Continue;
                }
            }
        }
        match response_if(banned, &self.config) {
            Some(response) => HeadersStep::Respond(response),
            None => HeadersStep::Continue,
        }
    }

    /// What to do once the header of the request is there: banned clients are turned away, at once
    /// or where the WAF cannot be asked first, and the WAF is asked about a request without a body.
    pub fn on_http_request_headers(
        &mut self,
        bans: &IpStorage,
        source: Option<Vec<u8>>,
        request: &RequestHeaders,
        end_of_stream: bool,
    ) -> (r: HeadersStep)
        ensures
            ({
                let client = client_ip(optional_bytes(source));
                let info = request_info(*request);
                let banned = is_banned(bans@, client);
                &&& final(self)@ == old(self)@.after_headers(
                    client is Some,
                    banned,
                    info,
                    end_of_stream,
                )
                &&& r@ == old(self)@.headers_step(
                    notation(client),
                    banned,
                    upper_case(info.method),
                    info,
                    end_of_stream,
                )
            }),
    {
        let client: Option<IpAddr> = source_ip(&source);
        let banned: bool = check_client(bans, client);
        let info: CachedRequestHeaders = extract_request_info(request);
        let verb: String = to_uppercase(info.method.as_str());
        self.decide_headers(ip_notation(client), banned, verb, info, end_of_stream)
    }

    /// What to do once a part of the body is there, by the client's address in its notation and
    /// the method in upper case.
    pub fn decide_body(
        &mut self,
        buffer: Option<Vec<u8>>,
        client: Option<String>,
        verb: String,
        content_type: Option<String>,
        end_of_stream: bool,
    ) -> (r: BodyStep)
        ensures
            final(self)@ == old(self)@.after_body(optional_bytes(buffer)),
            r@ == old(self)@.after_body(optional_bytes(buffer)).body_step(
                message::optional_text(client),
                verb@,
                message::optional_text(content_type),
                end_of_stream,
            ),
    {
        if let Some(bytes) = buffer {
            self.collect_body(&bytes);
        }
        if !end_of_stream || !self.config.waf_enabled || !self.has_request_body {
            return BodyStep::Continue;
        }
        if let Some(ip) = client {
            if let Ok(call) = self.send_waf_request(
                ip,
                verb,
                None,
                Some(&self.request_body),
                content_type,
            ) {
                return BodyStep::CallWaf(call, response_if(self.ban_pending, &self.config));
            }
        }
        match response_if(self.ban_pending, &self.config) {
            Some(response) => BodyStep::Respond(response),
            None => BodyStep::Continue,
        }
    }

    /// Adds what is new in the buffer of the proxy to the body.
    fn collect_body(&mut self, buffer: &Vec<u8>)
        ensures
            final(self)@ == old(self)@.after_body(Some(buffer@)),
    {
        let ghost so_far = self.request_body@;
        let start: usize = self.request_body.len();
        if start < buffer.len() {
            for i in start..buffer.len()
                invariant
                    start == so_far.len(),
                    so_far == old(self)@.request_body,
                    self.request_body@ == so_far + buffer@.subrange(start as int, i as int),
                    self@ == (FilterHttpView { request_body: self.request_body@, ..old(self)@ }),
            {
                self.request_body.push(buffer[i]);
                assert(self.request_body@ =~= so_far + buffer@.subrange(start as int, i + 1));
            }
            assert(buffer@.subrange(start as int, buffer@.len() as int) =~= buffer@.skip(
                start as int,
            ));
        }
    }

    /// What to do once a part of the body is there: with the last part the WAF is asked about the
    /// request and its whole body.
    pub fn on_http_request_body(
        &mut self,
        buffer: Option<Vec<u8>>,
        source: Option<Vec<u8>>,
        content_type: Option<String>,
        end_of_stream: bool,
    ) -> (r: BodyStep)
        ensures
            final(self)@ == old(self)@.after_body(optional_bytes(buffer)),
            r@ == old(self)@.after_body(optional_bytes(buffer)).body_step(
                notation(client_ip(optional_bytes(source))),
                upper_case(old(self)@.cached_method()),
                message::optional_text(content_type),
                end_of_stream,
            ),
    {
        let client: Option<IpAddr> = source_ip(&source);
        let verb: String = match &self.cached_headers {
            Some(info) => to_uppercase(info.method.as_str()),
            None => to_uppercase(String::new().as_str()),
        };
        self.decide_body(buffer, ip_notation(client), verb, content_type, end_of_stream)
    }
}

fn copy_bytes(bytes: &Vec<u8>) -> (r: Vec<u8>)
    ensures
        r@ == bytes@,
{
    let mut r: Vec<u8> = Vec::new();
    for i in 0..bytes.len()
        invariant
            r@ == bytes@.take(i as int),
    {
        r.push(bytes[i]);
        assert(r@ =~= bytes@.take(i + 1));
    }
    assert(bytes@.take(bytes@.len() as int) =~= bytes@);
    r
}

/// The answer of the WAF to a request that it does not let pass.
#[derive(Debug)]
pub struct WafResponse {
    pub action: String,
    pub http_status: Option<u16>,
}

/// What becomes of a request after the WAF has answered.
#[derive(Debug)]
pub enum WafVerdict {
    /// Let the request go on.
    Resume,
    /// Answer it.
    Respond(LocalResponse),
}

/// What a [`WafVerdict`] says.
pub enum WafVerdictView {
    Resume,
    Respond(LocalResponseView),
}

impl View for WafVerdict {
    type V = WafVerdictView;

    open spec fn view(&self) -> WafVerdictView {
        match self {
            WafVerdict::Resume => WafVerdictView::Resume,
            WafVerdict::Respond(response) => WafVerdictView::Respond(response@),
        }
    }
}

/// The answer to a request that the WAF does not let pass. Its status is that of the WAF's answer,
/// where that asks for a ban or a captcha and names one.
pub open spec fn blocked_response(waf: Option<WafResponse>) -> LocalResponseView {
    let status = |w: WafResponse|
        match w.http_status {
            Some(code) => code as u32,
            None => 403u32,
        };
    match waf {
        Some(w) => if w.action@ == "ban"@ {
            LocalResponseView {
                status: status(w),
                content_type: "text/plain"@,
                body: "Forbidden: Request blocked by WAF"@,
            }
        } else if w.action@ == "captcha"@ {
            LocalResponseView {
                status: status(w),
                content_type: "text/html"@,
                body: "<html><body>Please complete CAPTCHA verification</body></html>"@,
            }
        } else {
            LocalResponseView {
                status: 403,
                content_type: "text/plain"@,
                body: "Forbidden: Request blocked by WAF"@,
            }
        },
        None => LocalResponseView {
            status: 403,
            content_type: "text/plain"@,
            body: "Forbidden: Request blocked by WAF"@,
        },
    }
}

/// The answer to a request that the WAF does not let pass.
pub fn blocked_by_waf(waf: Option<WafResponse>) -> (r: LocalResponse)
    ensures
        r@ == blocked_response(waf),
        r.content_type@ == "text/html"@ <==> (waf matches Some(w) && w.action@ == "captcha"@),
{
    proof {
        reveal_strlit("ban");
        reveal_strlit("captcha");
        reveal_strlit("text/html");
        reveal_strlit("text/plain");
        assert("ban"@.len() != "captcha"@.len());
        assert("text/html"@.len() != "text/plain"@.len());
    }
    if let Some(w) = waf {
        let status: u32 = match w.http_status {
            Some(code) => code as u32,
            None => 403,
        };
        if text::same_text(w.action.as_str(), "ban") {
            return LocalResponse {
                status,
                content_type: "text/plain".to_owned(),
                body: "Forbidden: Request blocked by WAF".to_owned(),
            };
        }
        if text::same_text(w.action.as_str(), "captcha") {
            return LocalResponse {
                status,
                content_type: "text/html".to_owned(),
                body: "<html><body>Please complete CAPTCHA verification</body></html>".to_owned(),
            };
        }
    }
    LocalResponse {
        status: 403,
        content_type: "text/plain".to_owned(),
        body: "Forbidden: Request blocked by WAF".to_owned(),
    }
}

impl CrowdsecFilterHttp {
    /// What becomes of the request after the WAF has answered: with the status 403 it is blocked as
    /// the WAF says, and otherwise a banned client whose answer was put off is turned away and every
    /// other request goes on. The body of the answer, as far as it could be read, counts only where
    /// there is one.
    pub fn on_http_call_response(
        &self,
        status: Option<String>,
        body_size: usize,
        waf: Option<WafResponse>,
    ) -> (r: WafVerdict)
        ensures
            r@ == self@.verdict(
                message::optional_text(status),
                if body_size > 0 {
                    waf
                } else {
                    None
                },
            ),
    {
        if let Some(code) = status {
            if text::same_text(code.as_str(), "403") {
                return WafVerdict::Respond(
                    blocked_by_waf(
                        if body_size > 0 {
                            waf
                        } else {
                            None
                        },
                    ),
                );
            }
        }
        match response_if(self.ban_pending, &self.config) {
            Some(response) => WafVerdict::Respond(response),
            None => WafVerdict::Resume,
        }
    }
}

/// The request is answered in place of the service, now or where the WAF cannot be asked.
pub open spec fn body_holds_back(step: BodyStepView, response: LocalResponseView) -> bool {
    step == BodyStepView::Respond(response) || (step matches BodyStepView::CallWaf(_, otherwise)
        && otherwise == Some(response))
}

/// A banned client is turned away, whatever the settings, and in whatever phase of its request
/// this is decided. At the header it is answered, or the WAF is asked first, or a body that is
/// still to come is waited for. The last part of the body is held back in the same way; the client
/// may be unknown by then. After the WAF has answered the client gets the answer to a ban, unless
/// the WAF itself blocks the request.
pub proof fn law_bans_are_enforced(
    start: FilterHttpView,
    bans: BanSets,
    client: Option<IpAddr>,
    verb: Seq<char>,
    request: RequestInfoView,
    end_of_stream: bool,
    buffer: Option<Seq<u8>>,
    client_then: Option<Seq<char>>,
    content_type: Option<Seq<char>>,
    status: Option<Seq<char>>,
    waf: Option<WafResponse>,
)
    requires
        is_banned(bans, client),
    ensures
        ({
            let response = ban_response(start.config);
            let step = start.headers_step(notation(client), true, verb, request, end_of_stream);
            let headers = start.after_headers(client is Some, true, request, end_of_stream);
            let body = headers.after_body(buffer);
            let answer = if status == Some("403"@) {
                blocked_response(waf)
            } else {
                response
            };
            match step {
                HeadersStepView::Respond(r) => r == response,
                HeadersStepView::CallWaf(_, otherwise) => {
                    &&& otherwise == Some(response)
                    &&& headers.verdict(status, waf) == WafVerdictView::Respond(answer)
                },
                HeadersStepView::Continue => {
                    &&& !end_of_stream
                    &&& body_holds_back(
                        body.body_step(client_then, verb, content_type, true),
                        response,
                    )
                    &&& body.verdict(status, waf) == WafVerdictView::Respond(answer)
                },
            }
        }),
        start.blocks_at_once(true) || !start.config.waf_enabled ==> start.headers_step(
            notation(client),
            true,
            verb,
            request,
            end_of_stream,
        ) is Respond,
{
}

/// A ban whose answer was put off is kept as long as the body comes in, with the last part the
/// request is held back, and no answer of the WAF lets it go on.
pub proof fn law_pending_bans_are_enforced(
    state: FilterHttpView,
    buffer: Option<Seq<u8>>,
    client: Option<Seq<char>>,
    verb: Seq<char>,
    content_type: Option<Seq<char>>,
    status: Option<Seq<char>>,
    waf: Option<WafResponse>,
)
    requires
        state.ban_pending,
    ensures
        state.after_body(buffer) == (FilterHttpView {
            request_body: collected(state.request_body, buffer),
            ..state
        }),
        state.config.waf_enabled && state.has_request_body ==> body_holds_back(
            state.body_step(client, verb, content_type, true),
            ban_response(state.config),
        ),
        state.verdict(status, waf) == WafVerdictView::Respond(
            if status == Some("403"@) {
                blocked_response(waf)
            } else {
                ban_response(state.config)
            },
        ),
{
}

/// A banned client is answered once: a request that was answered at its header gets no second
/// answer at its body. And the answer is put off exactly where the header brings none.
pub proof fn law_banned_clients_are_answered_once(
    start: FilterHttpView,
    client: Option<Seq<char>>,
    verb: Seq<char>,
    request: RequestInfoView,
    end_of_stream: bool,
    buffer: Option<Seq<u8>>,
    client_then: Option<Seq<char>>,
    content_type: Option<Seq<char>>,
    last: bool,
)
    ensures
        ({
            let step = start.headers_step(client, true, verb, request, end_of_stream);
            let headers = start.after_headers(client is Some, true, request, end_of_stream);
            let body_step = headers.after_body(buffer).body_step(
                client_then,
                verb,
                content_type,
                last,
            );
            &&& step is Respond <==> !headers.ban_pending
            &&& step is Respond ==> !(body_step is Respond) && (
            body_step matches BodyStepView::CallWaf(_, otherwise) ==> otherwise is None)
        }),
{
}

/// A client that is not banned is blocked by the WAF alone: neither its header nor its body brings
/// an answer, and of the answers of the WAF only a 403 does.
pub proof fn law_only_the_waf_blocks_others(
    start: FilterHttpView,
    client: Option<Seq<char>>,
    verb: Seq<char>,
    request: RequestInfoView,
    content_type: Option<Seq<char>>,
    end_of_stream: bool,
    status: Option<Seq<char>>,
    waf: Option<WafResponse>,
)
    ensures
        ({
            let step = start.headers_step(client, false, verb, request, end_of_stream);
            let state = start.after_headers(client is Some, false, request, end_of_stream);
            let body_step = state.body_step(client, verb, content_type, end_of_stream);
            &&& !state.ban_pending
            &&& step is Continue || (step matches HeadersStepView::CallWaf(_, otherwise)
                && otherwise is None && start.config.waf_enabled)
            &&& body_step is Continue || (body_step matches BodyStepView::CallWaf(_, otherwise)
                && otherwise is None && start.config.waf_enabled)
            &&& state.verdict(status, waf) is Resume <==> status != Some("403"@)
        }),
{
}

/// Nothing is decided by a client that is not known: its request goes on.
pub proof fn law_unknown_client_goes_on(
    state: FilterHttpView,
    bans: BanSets,
    verb: Seq<char>,
    request: RequestInfoView,
    content_type: Option<Seq<char>>,
    end_of_stream: bool,
)
    ensures
        state.headers_step(notation(None), is_banned(bans, None), verb, request, end_of_stream)
            is Continue,
        state.after_headers(false, is_banned(bans, None), request, end_of_stream).body_step(
            notation(None),
            verb,
            content_type,
            end_of_stream,
        ) is Continue,
{
}

/// The body that is collected is the buffer of the proxy as it was last seen, as long as each
/// buffer goes on from the one before.
pub proof fn law_body_is_collected_whole(so_far: Seq<u8>, buffer: Seq<u8>)
    requires
        so_far.is_prefix_of(buffer),
    ensures
        collected(so_far, Some(buffer)) == buffer,
{
    assert(so_far + buffer.skip(so_far.len() as int) =~= buffer);
}

/// The WAF is asked about a request without a body as soon as its header is there.
pub proof fn law_headers_go_to_the_waf_at_once(
    config: filter_config::FilterConfigView,
    agent: Seq<char>,
    ip: Seq<char>,
    verb: Seq<char>,
    request: RequestInfoView,
)
    requires
        config.waf_enabled,
        waf_url_parts(config.waf_url) is Ok,
    ensures
        ({
            let start = FilterHttpView::initial(config, agent);
            let (cluster, path, authority) = waf_url_parts(config.waf_url)->Ok_0;
            &&& start.headers_step(
                Some(ip),
                false,
                verb,
                request,
                true,
            ) matches HeadersStepView::CallWaf(call, otherwise) && {
                &&& otherwise is None
                &&& call.body is None
                &&& call.cluster == cluster
                &&& call.timeout == config.waf_timeout
                &&& call.headers == seq![
                    (":method"@, "POST"@),
                    (":path"@, path),
                    (":authority"@, authority),
                ] + waf_description(ip, verb, request, config.waf_api_key, agent)
            }
        }),
{
}

/// A request with a body reaches the WAF as it was at its header: the WAF is told what was kept
/// then, and gets the whole body.
pub proof fn law_body_goes_with_its_header(
    config: filter_config::FilterConfigView,
    agent: Seq<char>,
    ip: Seq<char>,
    verb: Seq<char>,
    request: RequestInfoView,
    body: Seq<u8>,
    content_type: Option<Seq<char>>,
)
    requires
        config.waf_enabled,
        waf_url_parts(config.waf_url) is Ok,
    ensures
        ({
            let start = FilterHttpView::initial(config, agent);
            let middle = start.after_headers(true, false, request, false);
            let end = middle.after_body(Some(body));
            let (cluster, path, authority) = waf_url_parts(config.waf_url)->Ok_0;
            &&& start.headers_step(Some(ip), false, verb, request, false) is Continue
            &&& end.body_step(Some(ip), verb, content_type, true) matches BodyStepView::CallWaf(
                call,
                otherwise,
            ) && {
                &&& otherwise is None
                &&& call.body == Some(body)
                &&& call.cluster == cluster
                &&& call.timeout == config.waf_timeout
                &&& call.headers == seq![
                    (":method"@, "POST"@),
                    (":path"@, path),
                    (":authority"@, authority),
                ] + waf_headers(
                    waf_description(ip, verb, request, config.waf_api_key, agent),
                    Some(body),
                    content_type,
                )
            }
        }),
{
    assert(collected(Seq::empty(), Some(body)) =~= body);
}

} // verus!
