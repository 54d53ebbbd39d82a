//! The logic of a CrowdSec bouncer for Envoy.
//!
//! An updater follows the decision stream of the CrowdSec API ([`updater`], and [`relay`] in a
//! lighter form), keeps the bans and when they end ([`expiration`], [`net_map`]), and sends what
//! changes to the filters in batches ([`batch`]). A filter announces itself ([`worker`],
//! [`filter`]), stores the bans ([`ip_storage`]) and decides about requests ([`http`]), with the
//! help of a WAF where the settings say so. [`answers`] states what one answer of the API leaves
//! behind, [`agreement`] how the two sides stay together and that bans end in time, and [`requests`]
//! what the decisions on a request come to.

pub mod agreement;
pub mod answers;
pub mod batch;
pub mod expiration;
pub mod filter;
pub mod filter_config;
pub mod http;
pub mod ip_storage;
pub mod message;
pub mod net;
pub mod net_map;
pub mod query;
pub mod relay;
pub mod requests;
pub mod text;
pub mod time;
pub mod updater;
pub mod updater_config;
pub mod worker;
