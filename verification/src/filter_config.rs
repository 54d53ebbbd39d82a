//! The settings of the filter.

use vstd::prelude::*;

use crate::message;
use crate::time::Duration;

verus! {

/// What a configuration document holds: every setting may be absent.
#[derive(Clone, Debug)]
pub struct ConfigDocument {
    pub tick_period: Option<u64>,
    pub worker_names_queue: Option<String>,
    pub singleton_name: Option<String>,
    pub response_code: Option<u16>,
    pub response_message: Option<String>,
    pub waf_enabled: Option<bool>,
    pub waf_forward_on_decision: Option<bool>,
    pub waf_url: Option<String>,
    pub waf_api_key: Option<String>,
    pub waf_timeout_ms: Option<u64>,
}

/// The settings as a document writes them, with nothing absent: the tick period is in seconds.
#[derive(Debug)]
pub struct Config {
    pub tick_period: u64,
    pub worker_names_queue: String,
    pub singleton_name: String,
    pub response_code: u16,
    pub response_message: String,
    pub waf_enabled: bool,
    pub waf_forward_on_decision: bool,
    pub waf_url: String,
    pub waf_api_key: String,
    pub waf_timeout_ms: u64,
}

/// The settings that the filter runs with.
#[derive(Debug)]
pub struct FilterConfig {
    pub tick_period: Duration,
    pub worker_names_queue: String,
    pub singleton_name: String,
    pub response_code: u16,
    pub response_message: String,
    pub waf_enabled: bool,
    pub waf_forward_on_decision: bool,
    pub waf_url: String,
    pub waf_api_key: String,
    pub waf_timeout: Duration,
}

/// What a [`FilterConfig`] says.
#[verifier::ext_equal]
pub struct FilterConfigView {
    pub tick_period: Duration,
    pub worker_names_queue: Seq<char>,
    pub singleton_name: Seq<char>,
    pub response_code: u16,
    pub response_message: Seq<char>,
    pub waf_enabled: bool,
    pub waf_forward_on_decision: bool,
    pub waf_url: Seq<char>,
    pub waf_api_key: Seq<char>,
    pub waf_timeout: Duration,
}

impl View for FilterConfig {
    type V = FilterConfigView;

    open spec fn view(&self) -> FilterConfigView {
        FilterConfigView {
            tick_period: self.tick_period,
            worker_names_queue: self.worker_names_queue@,
            singleton_name: self.singleton_name@,
            response_code: self.response_code,
            response_message: self.response_message@,
            waf_enabled: self.waf_enabled,
            waf_forward_on_decision: self.waf_forward_on_decision,
            waf_url: self.waf_url@,
            waf_api_key: self.waf_api_key@,
            waf_timeout: self.waf_timeout,
        }
    }
}

impl FilterConfigView {
    /// The settings that hold where a document says nothing.
    pub open spec fn defaults() -> FilterConfigView {
        FilterConfigView {
            tick_period: Duration::of_secs(2),
            worker_names_queue: "crowdsec_worker_names"@,
            singleton_name: "crowdsec_singleton"@,
            response_code: 403,
            response_message: "Forbidden: Your IP is banned."@,
            waf_enabled: false,
            waf_forward_on_decision: false,
            waf_url: Seq::empty(),
            waf_api_key: Seq::empty(),
            waf_timeout: Duration::of_millis(500),
        }
    }

    /// The settings that a document leads to.
    pub open spec fn of_document(document: ConfigDocument) -> FilterConfigView {
        let d = FilterConfigView::defaults();
        FilterConfigView {
            tick_period: match document.tick_period {
                Some(secs) => Duration::of_secs(secs),
                None => d.tick_period,
            },
            worker_names_queue: message::text_or(
                message::optional_text(document.worker_names_queue),
                d.worker_names_queue,
            ),
            singleton_name: message::text_or(
                message::optional_text(document.singleton_name),
                d.singleton_name,
            ),
            response_code: match document.response_code {
                Some(code) => code,
                None => d.response_code,
            },
            response_message: message::text_or(
                message::optional_text(document.response_message),
                d.response_message,
            ),
            waf_enabled: match document.waf_enabled {
                Some(b) => b,
                None => d.waf_enabled,
            },
            waf_forward_on_decision: match document.waf_forward_on_decision {
                Some(b) => b,
                None => d.waf_forward_on_decision,
            },
            waf_url: message::text_or(message::optional_text(document.waf_url), d.waf_url),
            waf_api_key: message::text_or(
                message::optional_text(document.waf_api_key),
                d.waf_api_key,
            ),
            waf_timeout: match document.waf_timeout_ms {
                Some(millis) => Duration::of_millis(millis),
                None => d.waf_timeout,
            },
        }
    }

    /// The first thing that is wrong with the settings, in words. The settings of the WAF count
    /// only where it is enabled.
    pub open spec fn problem(self) -> Option<Seq<char>> {
        if self.tick_period.secs() == 0 {
            Some("tick_period must be greater than 0"@)
        } else if self.worker_names_queue.len() == 0 {
            Some("worker_names_queue cannot be empty"@)
        } else if self.singleton_name.len() == 0 {
            Some("singleton_name cannot be empty"@)
        } else if self.response_code < 100 || self.response_code > 599 {
            Some("response_code must be between 100 and 599"@)
        } else if self.waf_enabled && self.waf_url.len() == 0 {
            Some("waf_url cannot be empty when WAF is enabled"@)
        } else if self.waf_enabled && self.waf_api_key.len() == 0 {
            Some("waf_api_key cannot be empty when WAF is enabled"@)
        } else if self.waf_enabled && self.waf_timeout.millis() == 0 {
            Some("waf_timeout must be greater than 0"@)
        } else {
            None
        }
    }
}

/// Seconds between two ticks.
pub fn default_tick_period() -> (r: u64)
    ensures
        r == 2,
{
    2
}

/// The queue on which filters announce themselves.
pub fn default_worker_names_queue() -> (r: String)
    ensures
        r@ == "crowdsec_worker_names"@,
{
    "crowdsec_worker_names".to_owned()
}

/// The VM of the updater.
pub fn default_singleton_name() -> (r: String)
    ensures
        r@ == "crowdsec_singleton"@,
{
    "crowdsec_singleton".to_owned()
}

/// The status of the answer to a banned client.
pub fn default_response_code() -> (r: u16)
    ensures
        r == 403,
{
    403
}

/// The body of the answer to a banned client.
pub fn default_response_message() -> (r: String)
    ensures
        r@ == "Forbidden: Your IP is banned."@,
{
    "Forbidden: Your IP is banned.".to_owned()
}

/// Whether the WAF is asked about requests.
pub fn default_waf_enabled() -> (r: bool)
    ensures
        !r,
{
    false
}

/// Whether the WAF is asked about the requests of banned clients too.
pub fn default_waf_forward_on_decision() -> (r: bool)
    ensures
        !r,
{
    false
}

/// The URL of the WAF.
pub fn default_waf_url() -> (r: String)
    ensures
        r@ == Seq::<char>::empty(),
{
    String::new()
}

/// The key for the WAF.
pub fn default_waf_api_key() -> (r: String)
    ensures
        r@ == Seq::<char>::empty(),
{
    String::new()
}

/// Milliseconds to wait for the WAF.
pub fn default_waf_timeout_ms() -> (r: u64)
    ensures
        r == 500,
{
    500
}

impl Config {
    /// What the settings say.
    pub open spec fn settings(self) -> FilterConfigView {
        FilterConfigView {
            tick_period: Duration::of_secs(self.tick_period),
            worker_names_queue: self.worker_names_queue@,
            singleton_name: self.singleton_name@,
            response_code: self.response_code,
            response_message: self.response_message@,
            waf_enabled: self.waf_enabled,
            waf_forward_on_decision: self.waf_forward_on_decision,
            waf_url: self.waf_url@,
            waf_api_key: self.waf_api_key@,
            waf_timeout: Duration::of_millis(self.waf_timeout_ms),
        }
    }

    /// The settings of a document, with the defaults in place of what is absent.
    pub fn from_document(document: ConfigDocument) -> (r: Config)
        ensures
            r.settings() == FilterConfigView::of_document(document),
    {
        Config {
            tick_period: document.tick_period.unwrap_or(default_tick_period()),
            worker_names_queue: match document.worker_names_queue {
                Some(s) => s,
                None => default_worker_names_queue(),
            },
            singleton_name: match document.singleton_name {
                Some(s) => s,
                None => default_singleton_name(),
            },
            response_code: document.response_code.unwrap_or(default_response_code()),
            response_message: match document.response_message {
                Some(s) => s,
                None => default_response_message(),
            },
            waf_enabled: document.waf_enabled.unwrap_or(default_waf_enabled()),
            waf_forward_on_decision: document.waf_forward_on_decision.unwrap_or(
                default_waf_forward_on_decision(),
            ),
            waf_url: match document.waf_url {
                Some(s) => s,
                None => default_waf_url(),
            },
            waf_api_key: match document.waf_api_key {
                Some(s) => s,
                None => default_waf_api_key(),
            },
            waf_timeout_ms: document.waf_timeout_ms.unwrap_or(default_waf_timeout_ms()),
        }
    }
}

/// The times as spans; every other setting as it is.
impl From<Config> for FilterConfig {
    fn from(config: Config) -> (r: FilterConfig) {
        FilterConfig {
            tick_period: Duration::from_secs(config.tick_period),
            worker_names_queue: config.worker_names_queue,
            singleton_name: config.singleton_name,
            response_code: config.response_code,
            response_message: config.response_message,
            waf_enabled: config.waf_enabled,
            waf_forward_on_decision: config.waf_forward_on_decision,
            waf_url: config.waf_url,
            waf_api_key: config.waf_api_key,
            waf_timeout: Duration::from_millis(config.waf_timeout_ms),
        }
    }
}

impl vstd::std_specs::convert::FromSpecImpl<Config> for FilterConfig {
    open spec fn obeys_from_spec() -> bool {
        true
    }

    open spec fn from_spec(config: Config) -> FilterConfig {
        FilterConfig {
            tick_period: Duration::of_secs(config.tick_period),
            worker_names_queue: config.worker_names_queue,
            singleton_name: config.singleton_name,
            response_code: config.response_code,
            response_message: config.response_message,
            waf_enabled: config.waf_enabled,
            waf_forward_on_decision: config.waf_forward_on_decision,
            waf_url: config.waf_url,
            waf_api_key: config.waf_api_key,
            waf_timeout: Duration::of_millis(config.waf_timeout_ms),
        }
    }
}

impl Default for FilterConfig {
    fn default() -> (r: FilterConfig)
        ensures
            r@ == FilterConfigView::defaults(),
    {
        FilterConfig {
            tick_period: Duration::from_secs(2),
            worker_names_queue: default_worker_names_queue(),
            singleton_name: default_singleton_name(),
            response_code: 403,
            response_message: default_response_message(),
            waf_enabled: false,
            waf_forward_on_decision: false,
            waf_url: String::new(),
            waf_api_key: String::new(),
            waf_timeout: Duration::from_millis(500),
        }
    }
}

impl Clone for FilterConfig {
    fn clone(&self) -> (r: FilterConfig)
        ensures
            r@ == self@,
    {
        FilterConfig {
            tick_period: self.tick_period,
            worker_names_queue: self.worker_names_queue.clone(),
            singleton_name: self.singleton_name.clone(),
            response_code: self.response_code,
            response_message: self.response_message.clone(),
            waf_enabled: self.waf_enabled,
            waf_forward_on_decision: self.waf_forward_on_decision,
            waf_url: self.waf_url.clone(),
            waf_api_key: self.waf_api_key.clone(),
            waf_timeout: self.waf_timeout,
        }
    }
}

impl FilterConfig {
    /// Checks the settings. Of several things that are wrong the first is reported.
    pub fn validate(&self) -> (r: Result<(), String>)
        ensures
            r is Ok <==> self@.problem() is None,
            r matches Err(e) ==> self@.problem() == Some(e@),
    {
        if self.tick_period.as_secs() == 0 {
            return Err("tick_period must be greater than 0".to_owned());
        }
        if self.worker_names_queue.as_str().is_empty() {
            return Err("worker_names_queue cannot be empty".to_owned());
        }
        if self.singleton_name.as_str().is_empty() {
            return Err("singleton_name cannot be empty".to_owned());
        }
        if self.response_code < 100 || self.response_code > 599 {
            return Err("response_code must be between 100 and 599".to_owned());
        }
        if self.waf_enabled {
            if self.waf_url.as_str().is_empty() {
                return Err("waf_url cannot be empty when WAF is enabled".to_owned());
            }
            if self.waf_api_key.as_str().is_empty() {
                return Err("waf_api_key cannot be empty when WAF is enabled".to_owned());
            }
            if self.waf_timeout.as_millis() == 0 {
                return Err("waf_timeout must be greater than 0".to_owned());
            }
        }
        Ok(())
    }
}

/// The settings of a document, if they are valid.
pub fn parse_config(document: ConfigDocument) -> (r: Result<FilterConfig, String>)
    ensures
        r is Ok <==> FilterConfigView::of_document(document).problem() is None,
        r matches Ok(config) ==> config@ == FilterConfigView::of_document(document),
        r matches Err(e) ==> e@ == "Configuration validation failed: "@
            + FilterConfigView::of_document(document).problem()->0,
{
    let config: Config = Config::from_document(document);
    let filter_config: FilterConfig = FilterConfig::from(config);
    assert(filter_config@ == config.settings());
    match filter_config.validate() {
        Ok(()) => Ok(filter_config),
        Err(e) => {
            let mut message: String = "Configuration validation failed: ".to_owned();
            message.append(e.as_str());
            Err(message)
        },
    }
}

/// The default settings are valid, and a document without any setting leads to them.
pub proof fn law_default_settings(document: ConfigDocument)
    requires
        document == (ConfigDocument {
            tick_period: None,
            worker_names_queue: None,
            singleton_name: None,
            response_code: None,
            response_message: None,
            waf_enabled: None,
            waf_forward_on_decision: None,
            waf_url: None,
            waf_api_key: None,
            waf_timeout_ms: None,
        }),
    ensures
        FilterConfigView::defaults().problem() is None,
        FilterConfigView::of_document(document) == FilterConfigView::defaults(),
{
    reveal_strlit("crowdsec_worker_names");
    reveal_strlit("crowdsec_singleton");
    Duration::lemma_spans(2);
}

/// With the WAF disabled its settings do not count: whether the settings are valid does not depend
/// on them.
pub proof fn law_disabled_waf_is_not_checked(a: FilterConfigView, b: FilterConfigView)
    requires
        !a.waf_enabled,
        b == (FilterConfigView {
            waf_url: b.waf_url,
            waf_api_key: b.waf_api_key,
            waf_timeout: b.waf_timeout,
            ..a
        }),
    ensures
        a.problem() == b.problem(),
{
}

/// A setting that a document gives holds as it is given, whatever the other settings are, and one
/// that it does not give has its default.
pub proof fn law_settings_are_as_given(document: ConfigDocument)
    ensures
        ({
            let s = FilterConfigView::of_document(document);
            &&& document.tick_period matches Some(secs) ==> s.tick_period.millis() == 1000 * secs
            &&& document.tick_period is None ==> s.tick_period.millis() == 2000
            &&& document.worker_names_queue matches Some(t) ==> s.worker_names_queue == t@
            &&& document.worker_names_queue is None ==> s.worker_names_queue
                == "crowdsec_worker_names"@
            &&& document.singleton_name matches Some(t) ==> s.singleton_name == t@
            &&& document.singleton_name is None ==> s.singleton_name == "crowdsec_singleton"@
            &&& document.response_code matches Some(code) ==> s.response_code == code
            &&& document.response_code is None ==> s.response_code == 403
            &&& document.response_message matches Some(t) ==> s.response_message == t@
            &&& document.response_message is None ==> s.response_message
                == "Forbidden: Your IP is banned."@
            &&& document.waf_enabled matches Some(b) ==> s.waf_enabled == b
            &&& document.waf_enabled is None ==> !s.waf_enabled
            &&& document.waf_forward_on_decision matches Some(b) ==> s.waf_forward_on_decision == b
            &&& document.waf_forward_on_decision is None ==> !s.waf_forward_on_decision
            &&& document.waf_url matches Some(t) ==> s.waf_url == t@
            &&& document.waf_url is None ==> s.waf_url.len() == 0
            &&& document.waf_api_key matches Some(t) ==> s.waf_api_key == t@
            &&& document.waf_api_key is None ==> s.waf_api_key.len() == 0
            &&& document.waf_timeout_ms matches Some(millis) ==> s.waf_timeout.millis() == millis
            &&& document.waf_timeout_ms is None ==> s.waf_timeout.millis() == 500
        }),
{
    Duration::lemma_spans(2);
    Duration::lemma_spans(500);
    if let Some(secs) = document.tick_period {
        Duration::lemma_spans(secs);
    }
    if let Some(millis) = document.waf_timeout_ms {
        Duration::lemma_spans(millis);
    }
}

/// The settings are valid exactly where the filter ticks at whole seconds, its names are not empty,
/// the status of its answers is one of HTTP and, with the WAF enabled, its URL and its key are not
/// empty and its time is not nought.
pub proof fn law_valid_settings(s: FilterConfigView)
    ensures
        s.problem() is None <==> {
            &&& s.tick_period.secs() >= 1
            &&& s.worker_names_queue.len() >= 1
            &&& s.singleton_name.len() >= 1
            &&& 100 <= s.response_code <= 599
            &&& s.waf_enabled ==> s.waf_url.len() >= 1 && s.waf_api_key.len() >= 1
                && s.waf_timeout.millis() >= 1
        },
{
}

/// What is wrong with the settings is named, and of several such things the first in this order.
pub proof fn law_problems_are_named_in_order(s: FilterConfigView)
    ensures
        s.tick_period.secs() == 0 ==> s.problem() == Some("tick_period must be greater than 0"@),
        s.tick_period.secs() > 0 && s.worker_names_queue.len() == 0 ==> s.problem() == Some(
            "worker_names_queue cannot be empty"@,
        ),
        s.tick_period.secs() > 0 && s.worker_names_queue.len() > 0 && s.singleton_name.len() == 0
            ==> s.problem() == Some("singleton_name cannot be empty"@),
        s.tick_period.secs() > 0 && s.worker_names_queue.len() > 0 && s.singleton_name.len() > 0
            ==> {
            &&& !(100 <= s.response_code <= 599) ==> s.problem() == Some(
                "response_code must be between 100 and 599"@,
            )
            &&& 100 <= s.response_code <= 599 && s.waf_enabled ==> {
                &&& s.waf_url.len() == 0 ==> s.problem() == Some(
                    "waf_url cannot be empty when WAF is enabled"@,
                )
                &&& s.waf_url.len() > 0 && s.waf_api_key.len() == 0 ==> s.problem() == Some(
                    "waf_api_key cannot be empty when WAF is enabled"@,
                )
                &&& s.waf_url.len() > 0 && s.waf_api_key.len() > 0 && s.waf_timeout.millis() == 0
                    ==> s.problem() == Some("waf_timeout must be greater than 0"@)
            }
        },
{
}

/// The default settings, one by one.
pub proof fn law_defaults_one_by_one()
    ensures
        ({
            let d = FilterConfigView::defaults();
            &&& d.tick_period.millis() == 2000
            &&& d.worker_names_queue == "crowdsec_worker_names"@
            &&& d.singleton_name == "crowdsec_singleton"@
            &&& d.response_code == 403
            &&& d.response_message == "Forbidden: Your IP is banned."@
            &&& !d.waf_enabled
            &&& !d.waf_forward_on_decision
            &&& d.waf_url.len() == 0
            &&& d.waf_api_key.len() == 0
            &&& d.waf_timeout.millis() == 500
        }),
{
    Duration::lemma_spans(2);
    Duration::lemma_spans(500);
}

/// The settings of the filter are those of the document's form field by field, with the times as
/// spans, and say what their fields hold.
pub proof fn law_settings_keep_their_fields(config: Config, s: FilterConfig)
    ensures
        ({
            let r = <FilterConfig as vstd::std_specs::convert::FromSpec<Config>>::from_spec(config);
            &&& r.tick_period.millis() == 1000 * config.tick_period
            &&& r.worker_names_queue == config.worker_names_queue
            &&& r.singleton_name == config.singleton_name
            &&& r.response_code == config.response_code
            &&& r.response_message == config.response_message
            &&& r.waf_enabled == config.waf_enabled
            &&& r.waf_forward_on_decision == config.waf_forward_on_decision
            &&& r.waf_url == config.waf_url
            &&& r.waf_api_key == config.waf_api_key
            &&& r.waf_timeout.millis() == config.waf_timeout_ms
            &&& config.settings() == r@
        }),
        s@.tick_period == s.tick_period,
        s@.worker_names_queue == s.worker_names_queue@,
        s@.singleton_name == s.singleton_name@,
        s@.response_code == s.response_code,
        s@.response_message == s.response_message@,
        s@.waf_enabled == s.waf_enabled,
        s@.waf_forward_on_decision == s.waf_forward_on_decision,
        s@.waf_url == s.waf_url@,
        s@.waf_api_key == s.waf_api_key@,
        s@.waf_timeout == s.waf_timeout,
{
    Duration::lemma_spans(config.tick_period);
    Duration::lemma_spans(config.waf_timeout_ms);
}

} // verus!
