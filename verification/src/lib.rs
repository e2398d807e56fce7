//! Client-side logic for the LogSnag event-logging service: credential
//! handling, tag normalization, payload construction, JSON encoding, and
//! the interpretation of transport outcomes.  All I/O is left to the
//! embedding application; everything here is pure and verified.
//!
//! A publish operation is split in two: the client (or an event builder)
//! produces an [`ApiRequest`] saying exactly what to send where, the
//! embedding application performs the HTTP POST, and
//! [`response::evaluate_outcome`] decides from what came back whether the
//! operation succeeded.

pub mod json;
pub mod models;
pub mod norm;
pub mod response;
mod text;

use vstd::prelude::*;

use crate::json::{json_insight_fields, json_log};
use crate::models::{upsert_pairs, Config, InsightValue, Log, TagHashMap};
use crate::norm::norm_seq;

verus! {

/// The fixed endpoint event logs are published to.
pub const PUBLISH_API_URL: &'static str = "https://api.logsnag.com/v1/log";

/// The fixed endpoint insights are published to.
pub const INSIGHT_API_URL: &'static str = "https://api.logsnag.com/v1/insight";

/// Everything the transport needs for one publish attempt: POST `body` to
/// `url` with header `Content-Type: application/json` and bearer
/// authentication using `api_token`.
pub struct ApiRequest {
    pub url: String,
    pub api_token: String,
    pub body: String,
}

/// A LogSnag client: the credential context every request is built from.
/// It holds no mutable state, so one client can serve any number of calls.
#[derive(Clone, Debug)]
pub struct Logsnag {
    pub config: Config,
}

/// A pending event log scoped to one client: field setters fill in the
/// optional parts, and `request` yields what the transport must send.
pub struct EventBuilder<'a> {
    logsnag: &'a Logsnag,
    log: Log,
}

impl Logsnag {
    /// A client for `project`, authenticated by `api_token`.  Neither is
    /// validated here; that is the caller's responsibility.
    pub fn new(api_token: &str, project: &str) -> (r: Logsnag)
        ensures
            r.config.api_token@ == api_token@,
            r.config.project@ == project@,
    {
        Logsnag { config: Config::new(api_token, project) }
    }

    /// Starts an event log for `channel` and `event` in this client's
    /// project, with no optional field set.
    pub fn event(&self, channel: &str, event: &str) -> (r: EventBuilder<'_>)
        ensures
            r.client() == *self,
            r.pending().project@ == self.config.project@,
            r.pending().channel@ == channel@,
            r.pending().event@ == event@,
            r.pending().description is None,
            r.pending().icon is None,
            r.pending().notify is None,
            r.pending().tags is None,
    {
        let event_log = Log::new(self.config.project.as_str(), channel, event);
        EventBuilder { logsnag: self, log: event_log }
    }

    /// The request that publishes an insight titled `title` with the given
    /// value and optional icon for this client's project.
    pub fn insight_request(&self, title: &str, value: InsightValue, icon: Option<&str>) -> (r:
        ApiRequest)
        ensures
            r.url@ == INSIGHT_API_URL@,
            r.api_token@ == self.config.api_token@,
            r.body@ == json_insight_fields(
                self.config.project@,
                title@,
                value,
                match icon {
                    Some(ic) => Some(ic@),
                    None => None,
                },
            ),
    {
        let icon_owned: Option<String> = match icon {
            Some(ic) => Some(ic.to_owned()),
            None => None,
        };
        let insight = models::Insight {
            project: self.config.project.clone(),
            title: title.to_owned(),
            value,
            icon: icon_owned,
        };
        let body = insight.to_json();
        ApiRequest {
            url: INSIGHT_API_URL.to_owned(),
            api_token: self.config.api_token.clone(),
            body,
        }
    }
}

impl<'a> EventBuilder<'a> {
    /// The client this builder publishes through.
    pub closed spec fn client(&self) -> Logsnag {
        *self.logsnag
    }

    /// The payload as filled in so far.
    pub closed spec fn pending(&self) -> Log {
        self.log
    }

    /// Sets the description, returning the builder for further chaining.
    pub fn with_description(self, description: &str) -> (r: Self)
        ensures
            r.client() == self.client(),
            r.pending().project == self.pending().project,
            r.pending().channel == self.pending().channel,
            r.pending().event == self.pending().event,
            r.pending().description is Some && r.pending().description->0@ == description@,
            r.pending().icon == self.pending().icon,
            r.pending().notify == self.pending().notify,
            r.pending().tags == self.pending().tags,
    {
        let mut log = self.log;
        log.description = Some(description.to_owned());
        EventBuilder { logsnag: self.logsnag, log }
    }

    /// Sets the icon, returning the builder for further chaining.
    pub fn with_icon(self, icon: &str) -> (r: Self)
        ensures
            r.client() == self.client(),
            r.pending().project == self.pending().project,
            r.pending().channel == self.pending().channel,
            r.pending().event == self.pending().event,
            r.pending().description == self.pending().description,
            r.pending().icon is Some && r.pending().icon->0@ == icon@,
            r.pending().notify == self.pending().notify,
            r.pending().tags == self.pending().tags,
    {
        let mut log = self.log;
        log.icon = Some(icon.to_owned());
        EventBuilder { logsnag: self.logsnag, log }
    }

    /// Sets the notify flag, returning the builder for further chaining.
    pub fn with_notify(self, notify: bool) -> (r: Self)
        ensures
            r.client() == self.client(),
            r.pending().project == self.pending().project,
            r.pending().channel == self.pending().channel,
            r.pending().event == self.pending().event,
            r.pending().description == self.pending().description,
            r.pending().icon == self.pending().icon,
            r.pending().notify == Some(notify),
            r.pending().tags == self.pending().tags,
    {
        let mut log = self.log;
        log.notify = Some(notify);
        EventBuilder { logsnag: self.logsnag, log }
    }

    /// Adds one tag, normalizing its key and value; a tag whose normalized
    /// key is already present is overwritten.
    pub fn with_tag(self, tag_key: &str, tag_value: &str) -> (r: Self)
        ensures
            r.client() == self.client(),
            r.pending().project == self.pending().project,
            r.pending().channel == self.pending().channel,
            r.pending().event == self.pending().event,
            r.pending().description == self.pending().description,
            r.pending().icon == self.pending().icon,
            r.pending().notify == self.pending().notify,
            r.pending().tags is Some,
            r.pending().tags->0.pairs() == upsert_pairs(
                self.pending().tags_pairs(),
                norm_seq(tag_key@),
                norm_seq(tag_value@),
            ),
            r.pending().tags->0.as_map() == self.pending().tags_map().insert(
                norm_seq(tag_key@),
                norm_seq(tag_value@),
            ),
    {
        let mut log = self.log;
        let mut tag_map = match log.tags {
            Some(t) => t,
            None => TagHashMap::new(),
        };
        tag_map.insert(tag_key, tag_value);
        log.tags = Some(tag_map);
        EventBuilder { logsnag: self.logsnag, log }
    }

    /// The request that publishes this event log: POST the JSON body to
    /// the log endpoint, authenticated with the client's token.
    pub fn request(&self) -> (r: ApiRequest)
        ensures
            r.url@ == PUBLISH_API_URL@,
            r.api_token@ == self.client().config.api_token@,
            r.body@ == json_log(self.pending()),
    {
        ApiRequest {
            url: PUBLISH_API_URL.to_owned(),
            api_token: self.logsnag.config.api_token.clone(),
            body: self.log.to_json(),
        }
    }
}

} // verus!
