//! What the decisions on a request come to, over the bans, the settings and the header fields of the
//! request themselves.

use vstd::prelude::*;

use crate::filter_config;
use crate::http::{
    BodyStep, BodyStepView, CachedRequestHeaders, CrowdsecFilterHttp, FilterHttpView, HeadersStep,
    HeadersStepView, HeaderView, LocalResponse, RequestHeaders, RequestInfoView, WafCall,
    WafResponse, WafVerdict, WafVerdictView,
};
use crate::http;
use crate::ip_storage::BanSets;
use crate::net::IpAddr;
use crate::net;
use crate::text;

verus! {

/// A client is banned exactly where its address is known and is among those that are banned by
/// themselves or by a network.
pub proof fn law_sets_decide_on_the_client(bans: BanSets, a: IpAddr)
    ensures
        http::is_banned(bans, Some(a)) <==> bans.singles.contains(a) || bans.ranges.contains(a),
        !http::is_banned(bans, None),
{
}

/// The client is at the address that its source names, if there is a source and it names one.
pub proof fn law_client_is_at_its_source(source: Seq<u8>)
    ensures
        http::client_ip(Some(source)) == net::peer_address(source),
        http::client_ip(None) is None,
{
}

/// A request from a known address is answered at its header, or marked to be held back, exactly
/// where the bans hold that address, by itself or by a network. What it is answered is what the
/// settings say.
pub proof fn law_banned_requests_are_held_back(
    state: FilterHttpView,
    bans: BanSets,
    source: Seq<u8>,
    a: IpAddr,
    request: RequestHeaders,
    end_of_stream: bool,
)
    requires
        net::peer_address(source) == Some(a),
    ensures
        ({
            let client = http::client_ip(Some(source));
            let banned = http::is_banned(bans, client);
            let info = http::request_info(request);
            let verb = http::upper_case(info.method);
            let step = state.headers_step(http::notation(client), banned, verb, info, end_of_stream);
            let after = state.after_headers(client is Some, banned, info, end_of_stream);
            &&& step is Respond || after.ban_pending <==> bans.singles.contains(a)
                || bans.ranges.contains(a)
            &&& step matches HeadersStepView::Respond(r) ==> r.status == state.config.response_code
                && r.content_type == "text/plain"@ && r.body == state.config.response_message
            &&& step matches HeadersStepView::CallWaf(_, Some(r)) ==> r.status
                == state.config.response_code && r.content_type == "text/plain"@ && r.body
                == state.config.response_message
        }),
{
}

/// Bans on other addresses do not count: two states of the bans that agree on the address of a
/// client decide the same on its request.
pub proof fn law_only_the_own_address_counts(
    state: FilterHttpView,
    one: BanSets,
    other: BanSets,
    a: IpAddr,
    verb: Seq<char>,
    info: RequestInfoView,
    end_of_stream: bool,
)
    requires
        one.singles.contains(a) || one.ranges.contains(a) <==> other.singles.contains(a)
            || other.ranges.contains(a),
    ensures
        state.headers_step(
            http::notation(Some(a)),
            http::is_banned(one, Some(a)),
            verb,
            info,
            end_of_stream,
        ) == state.headers_step(
            http::notation(Some(a)),
            http::is_banned(other, Some(a)),
            verb,
            info,
            end_of_stream,
        ),
{
}

/// The answer to a ban has the status and the message of the settings, as plain text.
pub proof fn law_ban_response_is_as_set(config: filter_config::FilterConfigView)
    ensures
        http::ban_response(config).status == config.response_code,
        http::ban_response(config).content_type == "text/plain"@,
        http::ban_response(config).body == config.response_message,
{
}

/// A name is reserved exactly where it begins with a colon or with `X-Crowdsec-Appsec-`, in this
/// spelling.
pub proof fn law_reserved_names(name: Seq<char>)
    ensures
        http::is_reserved(name) <==> (exists|rest: Seq<char>| name == seq![':'] + rest) || (exists|
            rest: Seq<char>,
        | name == "X-Crowdsec-Appsec-"@ + rest),
{
    let p = "X-Crowdsec-Appsec-"@;
    if name.len() > 0 && name[0] == ':' {
        assert(name =~= seq![':'] + name.skip(1));
    }
    if p.is_prefix_of(name) {
        assert(name =~= p + name.skip(p.len() as int));
    }
    if exists|rest: Seq<char>| name == p + rest {
        let rest = choose|rest: Seq<char>| name == p + rest;
        assert(p =~= name.take(p.len() as int));
    }
}

/// Of two rows of header fields those that may go to the WAF go one row after the other, and of a
/// single field it goes as it is, or not at all where its name is reserved.
pub proof fn law_fields_go_on_in_their_order(a: Seq<HeaderView>, b: Seq<HeaderView>, h: HeaderView)
    ensures
        http::forwarded(a + b) == http::forwarded(a) + http::forwarded(b),
        http::is_reserved(h.0) ==> http::forwarded(seq![h]).len() == 0,
        !http::is_reserved(h.0) ==> http::forwarded(seq![h]) == seq![h],
        http::forwarded(Seq::empty()).len() == 0,
    decreases b.len(),
{
    let one = seq![h];
    assert(one.drop_last() =~= Seq::empty());
    assert(http::forwarded(one.drop_last()) =~= Seq::empty());
    if b.len() == 0 {
        assert(a + b =~= a);
        assert(http::forwarded(a) + http::forwarded(b) =~= http::forwarded(a));
    } else {
        law_fields_go_on_in_their_order(a, b.drop_last(), h);
        assert((a + b).drop_last() =~= a + b.drop_last());
        assert((a + b).last() == b.last());
        assert(http::forwarded(a + b) =~= http::forwarded(a) + http::forwarded(b));
    }
}

/// What is kept of a request is what its header says, each part out of its own field: the path, the
/// authority or else the host, the method and the user agent. A default only takes the place of a
/// field that is absent.
pub proof fn law_info_is_what_the_request_says(request: RequestHeaders)
    ensures
        ({
            let info = http::request_info(request);
            &&& request.path matches Some(s) ==> info.uri == s@
            &&& request.path is None ==> info.uri == "/"@
            &&& request.authority matches Some(s) ==> info.host == s@
            &&& request.authority is None ==> (request.host matches Some(s) ==> info.host == s@)
            &&& request.authority is None && request.host is None ==> info.host == "unknown"@
            &&& request.method matches Some(s) ==> info.method == s@
            &&& request.method is None ==> info.method == "GET"@
            &&& request.user_agent matches Some(s) ==> info.user_agent == s@
            &&& request.user_agent is None ==> info.user_agent == "unknown"@
            &&& info.request_headers == http::forwarded(text::string_pairs(request.all@))
        }),
{
}

/// The header fields that go to the WAF carry what the request said, each under its name: the
/// address, the path, the authority or else the host, the method in upper case, the key, the user
/// agent, and behind them the fields of the request that may go on. A default stands only where the
/// request has no such field.
pub proof fn law_waf_is_told_what_the_request_says(
    ip: Seq<char>,
    request: RequestHeaders,
    api_key: Seq<char>,
    agent: Seq<char>,
)
    ensures
        ({
            let info = http::request_info(request);
            let told = http::waf_description(
                ip,
                http::upper_case(info.method),
                info,
                api_key,
                agent,
            );
            &&& told.len() >= 8
            &&& told[0] == ("X-Crowdsec-Appsec-Ip"@, ip)
            &&& told[1].0 == "X-Crowdsec-Appsec-Uri"@
            &&& request.path matches Some(s) ==> told[1].1 == s@
            &&& request.path is None ==> told[1].1 == "/"@
            &&& told[2].0 == "X-Crowdsec-Appsec-Host"@
            &&& request.authority matches Some(s) ==> told[2].1 == s@
            &&& request.authority is None ==> (request.host matches Some(s) ==> told[2].1 == s@)
            &&& request.authority is None && request.host is None ==> told[2].1 == "unknown"@
            &&& told[3].0 == "X-Crowdsec-Appsec-Verb"@
            &&& request.method matches Some(s) ==> told[3].1 == http::upper_case(s@)
            &&& request.method is None ==> told[3].1 == http::upper_case("GET"@)
            &&& told[4] == ("X-Crowdsec-Appsec-Api-Key"@, api_key)
            &&& told[5].0 == "X-Crowdsec-Appsec-User-Agent"@
            &&& request.user_agent matches Some(s) ==> told[5].1 == s@
            &&& request.user_agent is None ==> told[5].1 == "unknown"@
            &&& told[6] == ("X-Crowdsec-Appsec-Http-Version"@, "11"@)
            &&& told[7] == ("User-Agent"@, agent)
            &&& told.skip(8) == http::forwarded(text::string_pairs(request.all@))
        }),
{
    let info = http::request_info(request);
    let told = http::waf_description(ip, http::upper_case(info.method), info, api_key, agent);
    assert(told.skip(8) =~= info.request_headers);
}

/// Of the fields that describe a request only one has the name of the user agent that is told to the
/// WAF, and likewise for the other names by which the filter speaks: no field of the client takes
/// its place.
pub proof fn law_filter_speaks_once_under_a_name(
    ip: Seq<char>,
    verb: Seq<char>,
    request: RequestHeaders,
    api_key: Seq<char>,
    agent: Seq<char>,
    i: int,
    rest: Seq<char>,
)
    requires
        8 <= i < http::waf_description(
            ip,
            verb,
            http::request_info(request),
            api_key,
            agent,
        ).len(),
    ensures
        http::waf_description(ip, verb, http::request_info(request), api_key, agent)[i].0
            != "X-Crowdsec-Appsec-"@ + rest,
{
    http::law_reserved_spellings_come_from_the_filter(ip, verb, request, api_key, agent, i);
    law_reserved_names("X-Crowdsec-Appsec-"@ + rest);
}

/// Two requests that differ in one field alone are told apart to the WAF in that field alone.
pub proof fn law_told_fields_do_not_mix(
    ip: Seq<char>,
    verb: Seq<char>,
    info: RequestInfoView,
    other: RequestInfoView,
    api_key: Seq<char>,
    agent: Seq<char>,
)
    ensures
        ({
            let a = http::waf_description(ip, verb, info, api_key, agent);
            let b = http::waf_description(ip, verb, other, api_key, agent);
            &&& a[1] == b[1] <==> info.uri == other.uri
            &&& a[2] == b[2] <==> info.host == other.host
            &&& a[5] == b[5] <==> info.user_agent == other.user_agent
            &&& a.skip(8) == b.skip(8) <==> info.request_headers == other.request_headers
        }),
{
    let a = http::waf_description(ip, verb, info, api_key, agent);
    let b = http::waf_description(ip, verb, other, api_key, agent);
    assert(a.skip(8) =~= info.request_headers);
    assert(b.skip(8) =~= other.request_headers);
}

/// Without a body nothing is told of one. With a body the fields that describe the request stay as
/// they are, its length follows in decimal digits, and then its type, exactly where it is known and
/// no field of the request tells a type already, in whatever letter case.
pub proof fn law_waf_is_told_of_the_body(
    description: Seq<HeaderView>,
    body: Seq<u8>,
    content_type: Option<Seq<char>>,
)
    ensures
        ({
            let headers = http::waf_headers(description, Some(body), content_type);
            let n = description.len() as int;
            let told = exists|i: int|
                0 <= i < description.len() && text::same_ignoring_ascii_case(
                    (#[trigger] description[i]).0,
                    "content-type"@,
                );
            &&& http::waf_headers(description, None, content_type) == description
            &&& headers.take(n) == description
            &&& headers.len() == n + (if content_type is Some && !told {
                2int
            } else {
                1
            })
            &&& headers[n].0 == "Content-Length"@
            &&& text::decimal_value(headers[n].1) == body.len()
            &&& headers[n].1 == text::decimal_text(body.len())
            &&& content_type matches Some(t) ==> !told ==> headers[n + 1] == ("Content-Type"@, t)
        }),
{
    reveal_strlit("Content-Length");
    reveal_strlit("content-type");
    text::law_decimal_text(body.len());
    let n = description.len() as int;
    let headers = http::waf_headers(description, Some(body), content_type);
    assert(headers.take(n) =~= description);
    let with_length = description.push(("Content-Length"@, text::decimal_text(body.len())));
    assert(!text::same_ignoring_ascii_case("Content-Length"@, "content-type"@));
    if exists|i: int|
        0 <= i < description.len() && text::same_ignoring_ascii_case(
            (#[trigger] description[i]).0,
            "content-type"@,
        ) {
        let i = choose|i: int|
            0 <= i < description.len() && text::same_ignoring_ascii_case(
                (#[trigger] description[i]).0,
                "content-type"@,
            );
        assert(with_length[i] == description[i]);
        assert(http::has_field(with_length, "content-type"@));
    }
    if http::has_field(with_length, "content-type"@) {
        let i = choose|i: int|
            0 <= i < with_length.len() && text::same_ignoring_ascii_case(
                (#[trigger] with_length[i]).0,
                "content-type"@,
            );
        assert(i < n);
        assert(with_length[i] == description[i]);
    }
}

/// A call of the WAF can be made exactly where its URL is a valid one and there is something to tell
/// of the request: for a body what was kept at the header, and otherwise the header at hand. What is
/// missing is named, the description first.
pub proof fn law_waf_can_be_called(
    state: FilterHttpView,
    ip: Seq<char>,
    verb: Seq<char>,
    request: Option<RequestInfoView>,
    body: Option<Seq<u8>>,
    content_type: Option<Seq<char>>,
)
    ensures
        ({
            let call = state.waf_call(ip, verb, request, body, content_type);
            let known = if body is Some {
                state.cached_headers is Some
            } else {
                request is Some
            };
            &&& call is Ok <==> known && state.waf_url_parts is Some
            &&& !known ==> call == Err::<http::WafCallView, Seq<char>>(
                "Headers not cached - call cache_request_headers() during header phase"@,
            )
            &&& known && state.waf_url_parts is None ==> call == Err::<http::WafCallView, Seq<char>>(
                "WAF URL not initialized"@,
            )
        }),
{
}

/// A call of the WAF goes to the cluster, the path and the authority of its URL as a POST, within
/// the time that is set and with the body. It describes the request by what was kept of it where
/// there is a body, and by the header at hand otherwise, with the key that is set.
pub proof fn law_waf_call_says_all(
    state: FilterHttpView,
    ip: Seq<char>,
    verb: Seq<char>,
    request: Option<RequestInfoView>,
    body: Option<Seq<u8>>,
    content_type: Option<Seq<char>>,
)
    requires
        state.waf_call(ip, verb, request, body, content_type) is Ok,
    ensures
        ({
            let call = state.waf_call(ip, verb, request, body, content_type)->Ok_0;
            let info = if body is Some {
                state.cached_headers->0
            } else {
                request->0
            };
            let (cluster, path, authority) = state.waf_url_parts->0;
            &&& call.cluster == cluster
            &&& call.body == body
            &&& call.timeout == state.config.waf_timeout
            &&& call.headers.len() >= 11
            &&& call.headers[0] == (":method"@, "POST"@)
            &&& call.headers[1] == (":path"@, path)
            &&& call.headers[2] == (":authority"@, authority)
            &&& call.headers[3] == ("X-Crowdsec-Appsec-Ip"@, ip)
            &&& call.headers[4] == ("X-Crowdsec-Appsec-Uri"@, info.uri)
            &&& call.headers[5] == ("X-Crowdsec-Appsec-Host"@, info.host)
            &&& call.headers[6] == ("X-Crowdsec-Appsec-Verb"@, verb)
            &&& call.headers[7] == ("X-Crowdsec-Appsec-Api-Key"@, state.config.waf_api_key)
            &&& call.headers[8] == ("X-Crowdsec-Appsec-User-Agent"@, info.user_agent)
            &&& call.headers[9] == ("X-Crowdsec-Appsec-Http-Version"@, "11"@)
            &&& call.headers[10] == ("User-Agent"@, state.agent)
            &&& body is None ==> call.headers.skip(11) == info.request_headers
            &&& body is Some ==> call.headers.skip(3) == http::waf_headers(
                http::waf_description(ip, verb, info, state.config.waf_api_key, state.agent),
                body,
                content_type,
            )
        }),
{
    let call = state.waf_call(ip, verb, request, body, content_type)->Ok_0;
    let info = if body is Some {
        state.cached_headers->0
    } else {
        request->0
    };
    let told = http::waf_description(ip, verb, info, state.config.waf_api_key, state.agent);
    let all = http::waf_headers(told, body, content_type);
    if let Some(bytes) = body {
        law_waf_is_told_of_the_body(told, bytes, content_type);
        assert(all.take(told.len() as int) == told);
        assert forall|i: int| 0 <= i < 8 implies #[trigger] all[i] == told[i] by {
            assert(all.take(told.len() as int)[i] == all[i]);
        }
    } else {
        assert(call.headers.skip(11) =~= info.request_headers);
    }
    assert forall|i: int| 0 <= i < 8 implies call.headers[i + 3] == #[trigger] told[i] by {
        assert(all[i] == told[i]);
    }
    assert(call.headers.skip(3) =~= all);
    assert(call.headers[3] == told[0]);
    assert(call.headers[4] == told[1]);
    assert(call.headers[5] == told[2]);
    assert(call.headers[6] == told[3]);
    assert(call.headers[7] == told[4]);
    assert(call.headers[8] == told[5]);
    assert(call.headers[9] == told[6]);
    assert(call.headers[10] == told[7]);
}

proof fn lemma_host(rest: Seq<char>, authority: Seq<char>, path: Seq<char>)
    requires
        !authority.contains('/'),
        path.len() == 0 || path[0] == '/',
        rest == authority + path,
    ensures
        http::url_authority(rest) == authority,
        path.len() > 0 ==> http::url_path(rest) == path,
        path.len() == 0 ==> http::url_path(rest) == "/"@,
{
    text::lemma_first_index(rest, '/');
    assert forall|j: int| 0 <= j < authority.len() implies rest[j] != '/' by {
        assert(rest[j] == authority[j]);
        assert(authority.contains(authority[j]));
    }
    if path.len() > 0 {
        assert(rest[authority.len() as int] == '/');
        text::lemma_first_index_is(rest, '/', authority.len() as int);
        assert(rest.contains('/'));
        assert(rest.take(authority.len() as int) =~= authority);
        assert(rest.skip(authority.len() as int) =~= path);
    } else {
        assert(rest =~= authority);
        assert(rest.take(rest.len() as int) =~= rest);
    }
}

/// Every URL of an `http` or `https` scheme with a host is valid: its authority is all up to the
/// first slash, its path all from there on, or a slash where there is none, and its cluster the
/// authority without a port.
pub proof fn law_urls_with_a_host_are_valid(
    scheme: Seq<char>,
    host: Seq<char>,
    port: Seq<char>,
    path: Seq<char>,
)
    requires
        scheme == "http://"@ || scheme == "https://"@,
        !host.contains('/') && !host.contains(':'),
        !port.contains('/'),
        port.len() == 0 || port[0] == ':',
        host.len() + port.len() > 0,
        path.len() == 0 || path[0] == '/',
    ensures
        http::waf_url_parts(scheme + (host + port + path)) == Ok::<
            (Seq<char>, Seq<char>, Seq<char>),
            Seq<char>,
        >(
            (
                host,
                if path.len() > 0 {
                    path
                } else {
                    "/"@
                },
                host + port,
            ),
        ),
{
    reveal_strlit("http://");
    reveal_strlit("https://");
    let authority = host + port;
    let rest = authority + path;
    let url = scheme + rest;
    assert(scheme =~= url.take(scheme.len() as int));
    assert(url.skip(scheme.len() as int) =~= rest);
    if scheme == "https://"@ {
        assert(url[4] == 's');
        assert("http://"@[4] == ':');
        if "http://"@.is_prefix_of(url) {
            assert(url.take(7)[4] == url[4]);
        }
    }
    assert(http::without_scheme(url) == Some(rest));
    assert(!authority.contains('/')) by {
        if authority.contains('/') {
            let i = choose|i: int| 0 <= i < authority.len() && authority[i] == '/';
            if i < host.len() {
                assert(host[i] == '/');
            } else {
                assert(port[i - host.len()] == '/');
            }
        }
    }
    lemma_host(rest, authority, path);
    text::lemma_first_index(authority, ':');
    assert forall|j: int| 0 <= j < host.len() implies authority[j] != ':' by {
        assert(authority[j] == host[j]);
        assert(host.contains(host[j]));
    }
    if port.len() > 0 {
        assert(authority[host.len() as int] == ':');
        text::lemma_first_index_is(authority, ':', host.len() as int);
    } else {
        assert(authority =~= host);
    }
    assert(text::before_first(authority, ':') =~= host);
}

/// A URL with another scheme, or none, is refused, and so is one without a host, each for its own
/// reason.
pub proof fn law_other_urls_are_refused(url: Seq<char>, scheme: Seq<char>, path: Seq<char>)
    requires
        scheme == "http://"@ || scheme == "https://"@,
        path.len() == 0 || path[0] == '/',
    ensures
        !"http://"@.is_prefix_of(url) && !"https://"@.is_prefix_of(url) ==> http::waf_url_parts(url)
            == Err::<(Seq<char>, Seq<char>, Seq<char>), Seq<char>>(
            "WAF URL must start with http:// or https://"@,
        ),
        http::waf_url_parts(scheme + path) == Err::<
            (Seq<char>, Seq<char>, Seq<char>),
            Seq<char>,
        >("WAF URL missing host"@),
{
    reveal_strlit("http://");
    reveal_strlit("https://");
    let bare = scheme + path;
    assert(scheme =~= bare.take(scheme.len() as int));
    assert(bare.skip(scheme.len() as int) =~= path);
    if scheme == "https://"@ {
        assert(bare[4] == 's');
        if "http://"@.is_prefix_of(bare) {
            assert(bare.take(7)[4] == bare[4]);
        }
    }
    assert(path =~= Seq::<char>::empty() + path);
    lemma_host(path, Seq::empty(), path);
}

/// A new request has no body and no pending ban, and nothing is kept of it. It knows the WAF exactly
/// where the WAF is enabled and its URL is valid, by the parts of that URL.
pub proof fn law_new_requests(config: filter_config::FilterConfigView, agent: Seq<char>)
    ensures
        ({
            let s = FilterHttpView::initial(config, agent);
            &&& s.config == config
            &&& s.agent == agent
            &&& s.request_body.len() == 0
            &&& !s.has_request_body
            &&& !s.ban_pending
            &&& s.cached_headers is None
            &&& s.waf_url_parts is Some <==> config.waf_enabled && http::waf_url_parts(
                config.waf_url,
            ) is Ok
            &&& s.waf_url_parts matches Some(parts) ==> http::waf_url_parts(config.waf_url)
                == Ok::<(Seq<char>, Seq<char>, Seq<char>), Seq<char>>(parts)
        }),
{
}

/// What comes of the header of a request that the WAF has no part in: it is answered exactly where
/// the client is banned. The WAF has no part in it where it is not enabled, where the client is not
/// known, where a ban is not to be put off, and where there is no body to come and the URL of the
/// WAF is not valid.
pub proof fn law_headers_without_the_waf(
    state: FilterHttpView,
    client: Option<Seq<char>>,
    banned: bool,
    verb: Seq<char>,
    request: RequestInfoView,
    end_of_stream: bool,
)
    requires
        !state.config.waf_enabled || client is None || (banned
            && !state.config.waf_forward_on_decision) || (end_of_stream
            && state.waf_url_parts is None),
    ensures
        ({
            let step = state.headers_step(client, banned, verb, request, end_of_stream);
            &&& banned ==> (step matches HeadersStepView::Respond(r) && r.status
                == state.config.response_code && r.content_type == "text/plain"@ && r.body
                == state.config.response_message)
            &&& !banned ==> step is Continue
            &&& !state.after_headers(client is Some, banned, request, end_of_stream).ban_pending
        }),
{
}

/// What comes of the header of a request that the WAF has a part in: with a body to come the request
/// goes on until the body is there, and without one the WAF is asked at once. Either way the ban of
/// the client is kept in mind.
pub proof fn law_headers_with_the_waf(
    state: FilterHttpView,
    ip: Seq<char>,
    banned: bool,
    verb: Seq<char>,
    request: RequestInfoView,
    end_of_stream: bool,
)
    requires
        state.config.waf_enabled,
        banned ==> state.config.waf_forward_on_decision,
        end_of_stream ==> state.waf_url_parts is Some,
    ensures
        ({
            let step = state.headers_step(Some(ip), banned, verb, request, end_of_stream);
            let after = state.after_headers(true, banned, request, end_of_stream);
            &&& !end_of_stream ==> step is Continue && after.cached_headers == Some(request)
            &&& end_of_stream ==> {
                &&& step matches HeadersStepView::CallWaf(call, otherwise)
                &&& state.waf_call(ip, verb, Some(request), None, None) == Ok::<
                    http::WafCallView,
                    Seq<char>,
                >(call)
                &&& otherwise is Some <==> banned
                &&& otherwise matches Some(r) ==> r.status == state.config.response_code
                    && r.content_type == "text/plain"@ && r.body == state.config.response_message
            }
            &&& after.ban_pending <==> banned
            &&& after.has_request_body <==> !end_of_stream
        }),
{
}

/// The header changes nothing of the settings, the name of the filter, the body and the URL of the
/// WAF. Whether a body is to come is noted, unless the client is turned away at once, and what the
/// WAF is to be told is kept exactly where the WAF is enabled and a body is to come.
pub proof fn law_headers_keep_the_rest(
    state: FilterHttpView,
    known: bool,
    banned: bool,
    request: RequestInfoView,
    end_of_stream: bool,
)
    ensures
        ({
            let after = state.after_headers(known, banned, request, end_of_stream);
            let at_once = banned && !state.config.waf_forward_on_decision;
            &&& after.config == state.config
            &&& after.agent == state.agent
            &&& after.request_body == state.request_body
            &&& after.waf_url_parts == state.waf_url_parts
            &&& at_once ==> after.has_request_body == state.has_request_body
                && after.cached_headers == state.cached_headers
            &&& !at_once ==> after.has_request_body == !end_of_stream
            &&& !at_once && state.config.waf_enabled && !end_of_stream ==> after.cached_headers
                == Some(request)
            &&& !state.config.waf_enabled || end_of_stream ==> after.cached_headers
                == state.cached_headers
        }),
{
}

/// A part of the body changes the collected body alone. A buffer that holds more than was collected
/// adds its further bytes, each in its place, and any other adds nothing.
pub proof fn law_body_grows_by_what_is_new(state: FilterHttpView, buffer: Seq<u8>)
    ensures
        state.after_body(None) == state,
        ({
            let before = state.request_body;
            let after = state.after_body(Some(buffer));
            let now = after.request_body;
            &&& after == (FilterHttpView { request_body: now, ..state })
            &&& buffer.len() <= before.len() ==> now == before
            &&& buffer.len() > before.len() ==> now.len() == buffer.len() && now.take(
                before.len() as int,
            ) == before && forall|i: int|
                before.len() <= i < buffer.len() ==> #[trigger] now[i] == buffer[i]
        }),
{
    let before = state.request_body;
    let now = state.after_body(Some(buffer)).request_body;
    if buffer.len() > before.len() {
        assert(now.take(before.len() as int) =~= before);
    }
}

/// At a part of the body a request goes on where more is to come, where the WAF is not enabled, and
/// where no body was announced. Otherwise the WAF is asked about the collected body, where the
/// client is known, its header was kept and the URL of the WAF is valid, and where it cannot be
/// asked, the request is answered exactly where a ban is pending.
pub proof fn law_body_is_decided_at_its_end(
    state: FilterHttpView,
    client: Option<Seq<char>>,
    verb: Seq<char>,
    content_type: Option<Seq<char>>,
    end_of_stream: bool,
)
    ensures
        ({
            let step = state.body_step(client, verb, content_type, end_of_stream);
            let at_end = end_of_stream && state.config.waf_enabled && state.has_request_body;
            let asks = client is Some && state.cached_headers is Some
                && state.waf_url_parts is Some;
            &&& !at_end ==> step is Continue
            &&& at_end && asks ==> {
                &&& step matches BodyStepView::CallWaf(call, otherwise)
                &&& state.waf_call(
                    client->0,
                    verb,
                    None,
                    Some(state.request_body),
                    content_type,
                ) == Ok::<http::WafCallView, Seq<char>>(call)
                &&& otherwise is Some <==> state.ban_pending
                &&& otherwise matches Some(r) ==> r.status == state.config.response_code
                    && r.content_type == "text/plain"@ && r.body == state.config.response_message
            }
            &&& at_end && !asks && state.ban_pending ==> (step matches BodyStepView::Respond(r)
                && r.status == state.config.response_code && r.content_type == "text/plain"@
                && r.body == state.config.response_message)
            &&& at_end && !asks && !state.ban_pending ==> step is Continue
        }),
{
}

/// The method that is told with a body is the one that was kept, and empty where none was.
pub proof fn law_kept_method(state: FilterHttpView)
    ensures
        state.cached_headers matches Some(info) ==> state.cached_method() == info.method,
        state.cached_headers is None ==> state.cached_method().len() == 0,
{
}

/// Where the WAF answers 403 with the action `captcha`, the client gets the captcha page, whatever
/// status the WAF names and whether it names one or not. The answer has the status that the WAF
/// names, or 403 where it names none.
pub proof fn law_captcha_is_shown(state: FilterHttpView, w: WafResponse)
    requires
        w.action@ == "captcha"@,
    ensures
        state.verdict(Some("403"@), Some(w)) matches WafVerdictView::Respond(r) && {
            &&& r.content_type == "text/html"@
            &&& r.body == "<html><body>Please complete CAPTCHA verification</body></html>"@
            &&& w.http_status matches Some(code) ==> r.status == code
            &&& w.http_status is None ==> r.status == 403
        },
{
    reveal_strlit("ban");
    reveal_strlit("captcha");
    assert("ban"@.len() != "captcha"@.len());
}

/// Where the WAF answers 403 with any other action, or with a body that cannot be read, the client
/// is told in plain text that the request is blocked. The status that the WAF names counts for the
/// action `ban` alone, and is 403 otherwise.
pub proof fn law_other_actions_forbid(state: FilterHttpView, w: WafResponse)
    ensures
        w.action@ != "captcha"@ ==> (state.verdict(Some("403"@), Some(w)) matches
            WafVerdictView::Respond(r) && {
            &&& r.content_type == "text/plain"@
            &&& r.body == "Forbidden: Request blocked by WAF"@
            &&& w.action@ == "ban"@ ==> (w.http_status matches Some(code) ==> r.status == code)
            &&& w.action@ != "ban"@ || w.http_status is None ==> r.status == 403
        }),
        state.verdict(Some("403"@), None) matches WafVerdictView::Respond(r) && {
            &&& r.content_type == "text/plain"@
            &&& r.body == "Forbidden: Request blocked by WAF"@
            &&& r.status == 403
        },
{
}

/// Which page a blocked client is shown depends on the action alone: answers with the same action
/// give the same page, of the same type, whatever status they name. And two actions give different
/// pages only where one of them is `captcha`.
pub proof fn law_page_depends_on_the_action(a: WafResponse, b: WafResponse)
    ensures
        a.action@ == b.action@ ==> http::blocked_response(Some(a)).body
            == http::blocked_response(Some(b)).body && http::blocked_response(Some(a)).content_type
            == http::blocked_response(Some(b)).content_type,
        a.action@ == b.action@ && a.http_status == b.http_status ==> http::blocked_response(Some(a))
            == http::blocked_response(Some(b)),
        http::blocked_response(Some(a)).body != http::blocked_response(Some(b)).body ==> (a.action@
            == "captcha"@) != (b.action@ == "captcha"@),
        (a.action@ == "captcha"@) != (b.action@ == "captcha"@) ==> http::blocked_response(
            Some(a),
        ).content_type != http::blocked_response(Some(b)).content_type,
{
    reveal_strlit("ban");
    reveal_strlit("captcha");
    reveal_strlit("text/html");
    reveal_strlit("text/plain");
    assert("ban"@.len() != "captcha"@.len());
    assert("text/html"@.len() != "text/plain"@.len());
}

/// An answer of the WAF with another status than 403, or with none, blocks nothing, whatever it
/// says: a pending ban is answered, and every other request goes on.
pub proof fn law_only_403_blocks(
    state: FilterHttpView,
    status: Option<Seq<char>>,
    waf: Option<WafResponse>,
)
    requires
        status != Some("403"@),
    ensures
        state.ban_pending ==> (state.verdict(status, waf) matches WafVerdictView::Respond(r)
            && r.status == state.config.response_code && r.content_type == "text/plain"@ && r.body
            == state.config.response_message),
        !state.ban_pending ==> state.verdict(status, waf) is Resume,
{
}

/// The address of a client is told in its notation, where it is known.
pub proof fn law_notation(a: IpAddr)
    ensures
        http::notation(Some(a)) == Some(net::text_of_ip_addr(a)),
        http::notation(None) is None,
{
}

/// What the state of a request says is what its fields hold.
pub proof fn law_request_state_shows_its_fields(s: CrowdsecFilterHttp)
    ensures
        s@.config == s.config@,
        s@.agent == s.agent@,
        s@.request_body == s.request_body@,
        s@.has_request_body == s.has_request_body,
        s@.ban_pending == s.ban_pending,
        s@.waf_url_parts is Some <==> s.waf_url_parts is Some,
        s.waf_url_parts matches Some((cluster, path, authority)) ==> s@.waf_url_parts == Some(
            (cluster@, path@, authority@),
        ),
        s@.cached_headers is Some <==> s.cached_headers is Some,
        s.cached_headers matches Some(info) ==> s@.cached_headers == Some(info@),
{
}

/// What is kept of a request, an answer and a call of the WAF say is what their fields hold.
pub proof fn law_parts_show_their_fields(
    info: CachedRequestHeaders,
    response: LocalResponse,
    call: WafCall,
    bytes: Vec<u8>,
)
    ensures
        info@.uri == info.uri@,
        info@.host == info.host@,
        info@.method == info.method@,
        info@.user_agent == info.user_agent@,
        info@.request_headers == text::string_pairs(info.request_headers@),
        response@.status == response.status,
        response@.content_type == response.content_type@,
        response@.body == response.body@,
        call@.cluster == call.cluster@,
        call@.headers == text::string_pairs(call.headers@),
        call@.body is Some <==> call.body is Some,
        call.body matches Some(b) ==> call@.body == Some(b@),
        call@.timeout == call.timeout,
        http::optional_bytes(Some(bytes)) == Some(bytes@),
        http::optional_bytes(None) is None,
        http::optional_response(Some(response)) == Some(response@),
        http::optional_response(None) is None,
{
}

/// What a step says is the step that it is, with what its parts say.
pub proof fn law_steps_show_what_they_are(h: HeadersStep, b: BodyStep, v: WafVerdict)
    ensures
        h is Continue <==> h@ is Continue,
        h matches HeadersStep::Respond(r) ==> h@ == HeadersStepView::Respond(r@),
        h matches HeadersStep::CallWaf(call, None) ==> h@ == HeadersStepView::CallWaf(call@, None),
        h matches HeadersStep::CallWaf(call, Some(r)) ==> h@ == HeadersStepView::CallWaf(
            call@,
            Some(r@),
        ),
        b is Continue <==> b@ is Continue,
        b matches BodyStep::Respond(r) ==> b@ == BodyStepView::Respond(r@),
        b matches BodyStep::CallWaf(call, None) ==> b@ == BodyStepView::CallWaf(call@, None),
        b matches BodyStep::CallWaf(call, Some(r)) ==> b@ == BodyStepView::CallWaf(
            call@,
            Some(r@),
        ),
        v is Resume <==> v@ is Resume,
        v matches WafVerdict::Respond(r) ==> v@ == WafVerdictView::Respond(r@),
{
}

} // verus!
