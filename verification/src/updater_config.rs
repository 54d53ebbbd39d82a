//! The settings of the updater.

use vstd::prelude::*;

use crate::message;
use crate::text;
use crate::time::Duration;

verus! {

/// What a configuration document holds: every setting may be absent.
#[derive(Clone, Debug)]
pub struct ConfigDocument {
    pub poll_interval: Option<u64>,
    pub api_key: Option<String>,
    pub cluster_name: Option<String>,
    pub crowdsec_url: Option<String>,
    pub scopes: Option<Vec<String>>,
    pub origins: Option<Vec<String>>,
    pub scenarios_containing: Option<Vec<String>>,
    pub scenarios_not_containing: Option<Vec<String>>,
    pub lapi_timeout: Option<u64>,
    pub max_response_body_size: Option<usize>,
    pub batch_size: Option<usize>,
    pub max_batch_bytes: Option<usize>,
}

/// The settings as a document writes them, with nothing absent: times are in seconds.
#[derive(Debug)]
pub struct Config {
    pub poll_interval: u64,
    pub api_key: String,
    pub cluster_name: String,
    pub crowdsec_url: String,
    pub scopes: Vec<String>,
    pub origins: Vec<String>,
    pub scenarios_containing: Vec<String>,
    pub scenarios_not_containing: Vec<String>,
    pub lapi_timeout: u64,
    pub max_response_body_size: usize,
    pub batch_size: usize,
    pub max_batch_bytes: usize,
}

/// The settings that the updater runs with.
#[derive(Debug)]
pub struct UpdaterConfig {
    pub poll_interval: Duration,
    pub api_key: String,
    pub cluster_name: String,
    pub crowdsec_url: String,
    pub scopes: Vec<String>,
    pub origins: Vec<String>,
    pub scenarios_containing: Vec<String>,
    pub scenarios_not_containing: Vec<String>,
    pub lapi_timeout: Duration,
    pub max_response_body_size: usize,
    pub batch_size: usize,
    pub max_batch_bytes: usize,
}

/// What an [`UpdaterConfig`] says.
#[verifier::ext_equal]
pub struct UpdaterConfigView {
    pub poll_interval: Duration,
    pub api_key: Seq<char>,
    pub cluster_name: Seq<char>,
    pub crowdsec_url: Seq<char>,
    pub scopes: Seq<Seq<char>>,
    pub origins: Seq<Seq<char>>,
    pub scenarios_containing: Seq<Seq<char>>,
    pub scenarios_not_containing: Seq<Seq<char>>,
    pub lapi_timeout: Duration,
    pub max_response_body_size: usize,
    pub batch_size: usize,
    pub max_batch_bytes: usize,
}

impl View for UpdaterConfig {
    type V = UpdaterConfigView;

    open spec fn view(&self) -> UpdaterConfigView {
        UpdaterConfigView {
            poll_interval: self.poll_interval,
            api_key: self.api_key@,
            cluster_name: self.cluster_name@,
            crowdsec_url: self.crowdsec_url@,
            scopes: text::strings(self.scopes@),
            origins: text::strings(self.origins@),
            scenarios_containing: text::strings(self.scenarios_containing@),
            scenarios_not_containing: text::strings(self.scenarios_not_containing@),
            lapi_timeout: self.lapi_timeout,
            max_response_body_size: self.max_response_body_size,
            batch_size: self.batch_size,
            max_batch_bytes: self.max_batch_bytes,
        }
    }
}

/// The texts of a list that may be absent; an absent one is empty.
pub open spec fn list_or_empty(list: Option<Vec<String>>) -> Seq<Seq<char>> {
    match list {
        Some(v) => text::strings(v@),
        None => Seq::empty(),
    }
}

impl UpdaterConfigView {
    /// The settings that hold where a document says nothing.
    pub open spec fn defaults() -> UpdaterConfigView {
        UpdaterConfigView {
            poll_interval: Duration::of_secs(30),
            api_key: Seq::empty(),
            cluster_name: "crowdsec_cluster"@,
            crowdsec_url: "http://crowdsec:8080"@,
            scopes: Seq::empty(),
            origins: Seq::empty(),
            scenarios_containing: Seq::empty(),
            scenarios_not_containing: Seq::empty(),
            lapi_timeout: Duration::of_secs(10),
            max_response_body_size: 10_485_760,
            batch_size: 1000,
            max_batch_bytes: 12_288,
        }
    }

    /// The settings that a document leads to.
    pub open spec fn of_document(document: ConfigDocument) -> UpdaterConfigView {
        let d = UpdaterConfigView::defaults();
        UpdaterConfigView {
            poll_interval: match document.poll_interval {
                Some(secs) => Duration::of_secs(secs),
                None => d.poll_interval,
            },
            api_key: message::text_or(message::optional_text(document.api_key), d.api_key),
            cluster_name: message::text_or(
                message::optional_text(document.cluster_name),
                d.cluster_name,
            ),
            crowdsec_url: message::text_or(
                message::optional_text(document.crowdsec_url),
                d.crowdsec_url,
            ),
            scopes: list_or_empty(document.scopes),
            origins: list_or_empty(document.origins),
            scenarios_containing: list_or_empty(document.scenarios_containing),
            scenarios_not_containing: list_or_empty(document.scenarios_not_containing),
            lapi_timeout: match document.lapi_timeout {
                Some(secs) => Duration::of_secs(secs),
                None => d.lapi_timeout,
            },
            max_response_body_size: match document.max_response_body_size {
                Some(n) => n,
                None => d.max_response_body_size,
            },
            batch_size: match document.batch_size {
                Some(n) => n,
                None => d.batch_size,
            },
            max_batch_bytes: match document.max_batch_bytes {
                Some(n) => n,
                None => d.max_batch_bytes,
            },
        }
    }

    /// The first thing that is wrong with the settings, in words.
    pub open spec fn problem(self) -> Option<Seq<char>> {
        if self.poll_interval.secs() == 0 {
            Some("poll_interval must be greater than 0"@)
        } else if self.lapi_timeout.secs() == 0 {
            Some("lapi_timeout must be greater than 0"@)
        } else if self.cluster_name.len() == 0 {
            Some("cluster_name cannot be empty"@)
        } else if self.crowdsec_url.len() == 0 {
            Some("crowdsec_url cannot be empty"@)
        } else {
            None
        }
    }
}

/// Seconds between two polls of the API.
pub fn default_poll_interval() -> (r: u64)
    ensures
        r == 30,
{
    30
}

/// The cluster of the API.
pub fn default_cluster_name() -> (r: String)
    ensures
        r@ == "crowdsec_cluster"@,
{
    "crowdsec_cluster".to_owned()
}

/// The URL of the API.
pub fn default_crowdsec_url() -> (r: String)
    ensures
        r@ == "http://crowdsec:8080"@,
{
    "http://crowdsec:8080".to_owned()
}

/// Seconds to wait for the API.
pub fn default_lapi_timeout() -> (r: u64)
    ensures
        r == 10,
{
    10
}

/// The most bytes of an answer that are read.
pub fn default_max_response_body_size() -> (r: usize)
    ensures
        r == 10 * 1024 * 1024,
{
    10 * 1024 * 1024
}

/// The most messages that a batch takes.
pub fn default_batch_size() -> (r: usize)
    ensures
        r == 1000,
{
    1000
}

/// The most bytes that a batch takes.
pub fn default_max_batch_bytes() -> (r: usize)
    ensures
        r == 12 * 1024,
{
    12 * 1024
}

fn list_or_new(list: Option<Vec<String>>) -> (r: Vec<String>)
    ensures
        text::strings(r@) == list_or_empty(list),
{
    match list {
        Some(v) => v,
        None => {
            let r: Vec<String> = Vec::new();
            assert(text::strings(r@) =~= Seq::<Seq<char>>::empty());
            r
        },
    }
}

impl Config {
    /// What the settings say.
    pub open spec fn settings(self) -> UpdaterConfigView {
        UpdaterConfigView {
            poll_interval: Duration::of_secs(self.poll_interval),
            api_key: self.api_key@,
            cluster_name: self.cluster_name@,
            crowdsec_url: self.crowdsec_url@,
            scopes: text::strings(self.scopes@),
            origins: text::strings(self.origins@),
            scenarios_containing: text::strings(self.scenarios_containing@),
            scenarios_not_containing: text::strings(self.scenarios_not_containing@),
            lapi_timeout: Duration::of_secs(self.lapi_timeout),
            max_response_body_size: self.max_response_body_size,
            batch_size: self.batch_size,
            max_batch_bytes: self.max_batch_bytes,
        }
    }

    /// The settings of a document, with the defaults in place of what is absent.
    pub fn from_document(document: ConfigDocument) -> (r: Config)
        ensures
            r.settings() == UpdaterConfigView::of_document(document),
    {
        proof {
            reveal_strlit("");
            assert(""@ =~= Seq::<char>::empty());
        }
        let cluster_name: String = match document.cluster_name {
            Some(s) => s,
            None => default_cluster_name(),
        };
        let crowdsec_url: String = match document.crowdsec_url {
            Some(s) => s,
            None => default_crowdsec_url(),
        };
        Config {
            poll_interval: document.poll_interval.unwrap_or(default_poll_interval()),
            api_key: message::string_or(document.api_key, ""),
            cluster_name,
            crowdsec_url,
            scopes: list_or_new(document.scopes),
            origins: list_or_new(document.origins),
            scenarios_containing: list_or_new(document.scenarios_containing),
            scenarios_not_containing: list_or_new(document.scenarios_not_containing),
            lapi_timeout: document.lapi_timeout.unwrap_or(default_lapi_timeout()),
            max_response_body_size: document.max_response_body_size.unwrap_or(
                default_max_response_body_size(),
            ),
            batch_size: document.batch_size.unwrap_or(default_batch_size()),
            max_batch_bytes: document.max_batch_bytes.unwrap_or(default_max_batch_bytes()),
        }
    }
}

/// The times as spans; every other setting as it is.
impl From<Config> for UpdaterConfig {
    fn from(config: Config) -> (r: UpdaterConfig) {
        UpdaterConfig {
            poll_interval: Duration::from_secs(config.poll_interval),
            api_key: config.api_key,
            cluster_name: config.cluster_name,
            crowdsec_url: config.crowdsec_url,
            scopes: config.scopes,
            origins: config.origins,
            scenarios_containing: config.scenarios_containing,
            scenarios_not_containing: config.scenarios_not_containing,
            lapi_timeout: Duration::from_secs(config.lapi_timeout),
            max_response_body_size: config.max_response_body_size,
            batch_size: config.batch_size,
            max_batch_bytes: config.max_batch_bytes,
        }
    }
}

impl vstd::std_specs::convert::FromSpecImpl<Config> for UpdaterConfig {
    open spec fn obeys_from_spec() -> bool {
        true
    }

    open spec fn from_spec(config: Config) -> UpdaterConfig {
        UpdaterConfig {
            poll_interval: Duration::of_secs(config.poll_interval),
            api_key: config.api_key,
            cluster_name: config.cluster_name,
            crowdsec_url: config.crowdsec_url,
            scopes: config.scopes,
            origins: config.origins,
            scenarios_containing: config.scenarios_containing,
            scenarios_not_containing: config.scenarios_not_containing,
            lapi_timeout: Duration::of_secs(config.lapi_timeout),
            max_response_body_size: config.max_response_body_size,
            batch_size: config.batch_size,
            max_batch_bytes: config.max_batch_bytes,
        }
    }
}

impl Default for UpdaterConfig {
    fn default() -> (r: UpdaterConfig)
        ensures
            r@ == UpdaterConfigView::defaults(),
    {
        let r: UpdaterConfig = UpdaterConfig {
            poll_interval: Duration::from_secs(30),
            api_key: String::new(),
            cluster_name: default_cluster_name(),
            crowdsec_url: default_crowdsec_url(),
            scopes: Vec::new(),
            origins: Vec::new(),
            scenarios_containing: Vec::new(),
            scenarios_not_containing: Vec::new(),
            lapi_timeout: Duration::from_secs(10),
            max_response_body_size: 10 * 1024 * 1024,
            batch_size: 1000,
            max_batch_bytes: 12 * 1024,
        };
        assert(r@ =~~= UpdaterConfigView::defaults());
        r
    }
}

impl Clone for UpdaterConfig {
    fn clone(&self) -> (r: UpdaterConfig)
        ensures
            r@ == self@,
    {
        let r: UpdaterConfig = UpdaterConfig {
            poll_interval: self.poll_interval,
            api_key: self.api_key.clone(),
            cluster_name: self.cluster_name.clone(),
            crowdsec_url: self.crowdsec_url.clone(),
            scopes: text::copy_strings(&self.scopes),
            origins: text::copy_strings(&self.origins),
            scenarios_containing: text::copy_strings(&self.scenarios_containing),
            scenarios_not_containing: text::copy_strings(&self.scenarios_not_containing),
            lapi_timeout: self.lapi_timeout,
            max_response_body_size: self.max_response_body_size,
            batch_size: self.batch_size,
            max_batch_bytes: self.max_batch_bytes,
        };
        assert(r@ =~~= self@);
        r
    }
}

impl UpdaterConfig {
    /// Checks the settings. Of several things that are wrong the first is reported.
    pub fn validate(&self) -> (r: Result<(), String>)
        ensures
            r is Ok <==> self@.problem() is None,
            r matches Err(e) ==> self@.problem() == Some(e@),
    {
        if self.poll_interval.as_secs() == 0 {
            return Err("poll_interval must be greater than 0".to_owned());
        }
        if self.lapi_timeout.as_secs() == 0 {
            return Err("lapi_timeout must be greater than 0".to_owned());
        }
        if self.cluster_name.as_str().is_empty() {
            return Err("cluster_name cannot be empty".to_owned());
        }
        if self.crowdsec_url.as_str().is_empty() {
            return Err("crowdsec_url cannot be empty".to_owned());
        }
        Ok(())
    }
}

/// The settings of a document, if they are valid.
pub fn parse_config(document: ConfigDocument) -> (r: Result<UpdaterConfig, String>)
    ensures
        r is Ok <==> UpdaterConfigView::of_document(document).problem() is None,
        r matches Ok(config) ==> config@ == UpdaterConfigView::of_document(document),
        r matches Err(e) ==> e@ == "Configuration validation failed: "@
            + UpdaterConfigView::of_document(document).problem()->0,
{
    let config: Config = Config::from_document(document);
    let updater_config: UpdaterConfig = UpdaterConfig::from(config);
    assert(updater_config@ == config.settings());
    match updater_config.validate() {
        Ok(()) => Ok(updater_config),
        Err(e) => {
            let mut message: String = "Configuration validation failed: ".to_owned();
            message.append(e.as_str());
            Err(message)
        },
    }
}

/// The default settings are valid, and a document without any setting leads to them.
pub proof fn law_default_settings(document: ConfigDocument)
    requires
        document == (ConfigDocument {
            poll_interval: None,
            api_key: None,
            cluster_name: None,
            crowdsec_url: None,
            scopes: None,
            origins: None,
            scenarios_containing: None,
            scenarios_not_containing: None,
            lapi_timeout: None,
            max_response_body_size: None,
            batch_size: None,
            max_batch_bytes: None,
        }),
    ensures
        UpdaterConfigView::defaults().problem() is None,
        UpdaterConfigView::of_document(document) == UpdaterConfigView::defaults(),
{
    reveal_strlit("crowdsec_cluster");
    reveal_strlit("http://crowdsec:8080");
    Duration::lemma_spans(30);
    Duration::lemma_spans(10);
}

/// A setting that a document gives holds as it is given, whatever the other settings are, and one
/// that it does not give has its default.
pub proof fn law_settings_are_as_given(document: ConfigDocument)
    ensures
        ({
            let s = UpdaterConfigView::of_document(document);
            &&& document.poll_interval matches Some(secs) ==> s.poll_interval.millis() == 1000
                * secs
            &&& document.poll_interval is None ==> s.poll_interval.millis() == 30_000
            &&& document.api_key matches Some(t) ==> s.api_key == t@
            &&& document.api_key is None ==> s.api_key.len() == 0
            &&& document.cluster_name matches Some(t) ==> s.cluster_name == t@
            &&& document.cluster_name is None ==> s.cluster_name == "crowdsec_cluster"@
            &&& document.crowdsec_url matches Some(t) ==> s.crowdsec_url == t@
            &&& document.crowdsec_url is None ==> s.crowdsec_url == "http://crowdsec:8080"@
            &&& document.scopes matches Some(v) ==> s.scopes == text::strings(v@)
            &&& document.scopes is None ==> s.scopes.len() == 0
            &&& document.origins matches Some(v) ==> s.origins == text::strings(v@)
            &&& document.origins is None ==> s.origins.len() == 0
            &&& document.scenarios_containing matches Some(v) ==> s.scenarios_containing
                == text::strings(v@)
            &&& document.scenarios_containing is None ==> s.scenarios_containing.len() == 0
            &&& document.scenarios_not_containing matches Some(v) ==> s.scenarios_not_containing
                == text::strings(v@)
            &&& document.scenarios_not_containing is None ==> s.scenarios_not_containing.len() == 0
            &&& document.lapi_timeout matches Some(secs) ==> s.lapi_timeout.millis() == 1000 * secs
            &&& document.lapi_timeout is None ==> s.lapi_timeout.millis() == 10_000
            &&& document.max_response_body_size matches Some(n) ==> s.max_response_body_size == n
            &&& document.max_response_body_size is None ==> s.max_response_body_size == 10 * 1024
                * 1024
            &&& document.batch_size matches Some(n) ==> s.batch_size == n
            &&& document.batch_size is None ==> s.batch_size == 1000
            &&& document.max_batch_bytes matches Some(n) ==> s.max_batch_bytes == n
            &&& document.max_batch_bytes is None ==> s.max_batch_bytes == 12 * 1024
        }),
{
    Duration::lemma_spans(30);
    Duration::lemma_spans(10);
    if let Some(secs) = document.poll_interval {
        Duration::lemma_spans(secs);
    }
    if let Some(secs) = document.lapi_timeout {
        Duration::lemma_spans(secs);
    }
}

/// The settings are valid exactly where the API is polled at whole seconds and waited for as long,
/// and its cluster and its URL are not empty.
pub proof fn law_valid_settings(s: UpdaterConfigView)
    ensures
        s.problem() is None <==> {
            &&& s.poll_interval.secs() >= 1
            &&& s.lapi_timeout.secs() >= 1
            &&& s.cluster_name.len() >= 1
            &&& s.crowdsec_url.len() >= 1
        },
{
}

/// What is wrong with the settings is named, and of several such things the first in this order.
pub proof fn law_problems_are_named_in_order(s: UpdaterConfigView)
    ensures
        s.poll_interval.secs() == 0 ==> s.problem() == Some("poll_interval must be greater than 0"@),
        s.poll_interval.secs() > 0 && s.lapi_timeout.secs() == 0 ==> s.problem() == Some(
            "lapi_timeout must be greater than 0"@,
        ),
        s.poll_interval.secs() > 0 && s.lapi_timeout.secs() > 0 && s.cluster_name.len() == 0
            ==> s.problem() == Some("cluster_name cannot be empty"@),
        s.poll_interval.secs() > 0 && s.lapi_timeout.secs() > 0 && s.cluster_name.len() > 0
            && s.crowdsec_url.len() == 0 ==> s.problem() == Some("crowdsec_url cannot be empty"@),
{
}

/// The default settings, one by one.
pub proof fn law_defaults_one_by_one()
    ensures
        ({
            let d = UpdaterConfigView::defaults();
            &&& d.poll_interval.millis() == 30_000
            &&& d.api_key.len() == 0
            &&& d.cluster_name == "crowdsec_cluster"@
            &&& d.crowdsec_url == "http://crowdsec:8080"@
            &&& d.scopes.len() == 0
            &&& d.origins.len() == 0
            &&& d.scenarios_containing.len() == 0
            &&& d.scenarios_not_containing.len() == 0
            &&& d.lapi_timeout.millis() == 10_000
            &&& d.max_response_body_size == 10 * 1024 * 1024
            &&& d.batch_size == 1000
            &&& d.max_batch_bytes == 12 * 1024
        }),
{
    Duration::lemma_spans(30);
    Duration::lemma_spans(10);
}

/// The settings of the updater are those of the document's form field by field, with the times as
/// spans, and say what their fields hold.
pub proof fn law_settings_keep_their_fields(config: Config, s: UpdaterConfig)
    ensures
        ({
            let r = <UpdaterConfig as vstd::std_specs::convert::FromSpec<Config>>::from_spec(config);
            &&& r.poll_interval.millis() == 1000 * config.poll_interval
            &&& r.api_key == config.api_key
            &&& r.cluster_name == config.cluster_name
            &&& r.crowdsec_url == config.crowdsec_url
            &&& r.scopes == config.scopes
            &&& r.origins == config.origins
            &&& r.scenarios_containing == config.scenarios_containing
            &&& r.scenarios_not_containing == config.scenarios_not_containing
            &&& r.lapi_timeout.millis() == 1000 * config.lapi_timeout
            &&& r.max_response_body_size == config.max_response_body_size
            &&& r.batch_size == config.batch_size
            &&& r.max_batch_bytes == config.max_batch_bytes
            &&& config.settings() == r@
        }),
        s@.poll_interval == s.poll_interval,
        s@.api_key == s.api_key@,
        s@.cluster_name == s.cluster_name@,
        s@.crowdsec_url == s.crowdsec_url@,
        s@.scopes == text::strings(s.scopes@),
        s@.origins == text::strings(s.origins@),
        s@.scenarios_containing == text::strings(s.scenarios_containing@),
        s@.scenarios_not_containing == text::strings(s.scenarios_not_containing@),
        s@.lapi_timeout == s.lapi_timeout,
        s@.max_response_body_size == s.max_response_body_size,
        s@.batch_size == s.batch_size,
        s@.max_batch_bytes == s.max_batch_bytes,
{
    Duration::lemma_spans(config.poll_interval);
    Duration::lemma_spans(config.lapi_timeout);
}

} // verus!
