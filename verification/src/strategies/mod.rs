//! The delivery sinks: the message record they are handed, the closed set of
//! sink kinds, and the bookkeeping of one round of deliveries.

pub mod resend;
pub mod webhook;

use crate::config::{config_views, StrategyConfig, StrategyConfigView};
use crate::header::valid_header_value;
use crate::strategies::resend::{bearer, ResendStrategy, ResendView};
use crate::strategies::webhook::{webhook_headers, WebhookStrategy, WebhookView};
use crate::text::{same_text, string_views};
use vstd::prelude::*;
use vstd::string::*;

verus! {

/// The record of one received message, as handed to every sink.
#[derive(Debug, Clone)]
pub struct EmailData {
    pub from: String,
    pub to: Vec<String>,
    pub subject: String,
    pub body: String,
    pub raw_data: String,
}

/// What an `EmailData` holds, as plain texts.
pub struct EmailDataView {
    pub from: Seq<char>,
    pub to: Seq<Seq<char>>,
    pub subject: Seq<char>,
    pub body: Seq<char>,
    pub raw_data: Seq<char>,
}

impl View for EmailData {
    type V = EmailDataView;

    open spec fn view(&self) -> EmailDataView {
        EmailDataView {
            from: self.from@,
            to: string_views(self.to@),
            subject: self.subject@,
            body: self.body@,
            raw_data: self.raw_data@,
        }
    }
}

/// The sink kinds.
#[derive(Debug, Clone)]
pub enum ApiStrategy {
    Webhook(WebhookStrategy),
    Resend(ResendStrategy),
}

/// What an `ApiStrategy` holds, as plain values.
pub enum ApiStrategyView {
    Webhook(WebhookView),
    Resend(ResendView),
}

impl View for ApiStrategy {
    type V = ApiStrategyView;

    open spec fn view(&self) -> ApiStrategyView {
        match self {
            ApiStrategy::Webhook(s) => ApiStrategyView::Webhook(s@),
            ApiStrategy::Resend(s) => ApiStrategyView::Resend(s@),
        }
    }
}

/// Why a sink could not be made from its configuration.
#[derive(Debug, Clone, PartialEq, Eq)]
pub enum StrategyError {
    /// A Resend sink without an API key.
    MissingApiKey,
    /// An API key that cannot be sent in a header.
    InvalidApiKey,
    /// A kind tag that names no sink kind.
    UnknownStrategy(String),
}

/// What a `StrategyError` holds, as plain values.
pub enum StrategyErrorView {
    MissingApiKey,
    InvalidApiKey,
    UnknownStrategy(Seq<char>),
}

impl View for StrategyError {
    type V = StrategyErrorView;

    open spec fn view(&self) -> StrategyErrorView {
        match self {
            StrategyError::MissingApiKey => StrategyErrorView::MissingApiKey,
            StrategyError::InvalidApiKey => StrategyErrorView::InvalidApiKey,
            StrategyError::UnknownStrategy(t) => StrategyErrorView::UnknownStrategy(t@),
        }
    }
}

/// The URL of a webhook sink that is configured without one.
pub open spec fn default_url() -> Seq<char> {
    "http://localhost:3000/email"@
}

/// The sink that `config` describes, or why there is none. The tags
/// `webhook`, `http` and `generic` make a webhook sink, `resend` a Resend
/// sink, which needs a key that can be sent in a header.
pub open spec fn strategy_for(config: StrategyConfigView) -> Result<
    ApiStrategyView,
    StrategyErrorView,
> {
    let tag = config.strategy_type;
    if tag == "webhook"@ || tag == "http"@ || tag == "generic"@ {
        Ok(
            ApiStrategyView::Webhook(
                WebhookView {
                    url: match config.api_url {
                        Some(url) => url,
                        None => default_url(),
                    },
                    headers: webhook_headers(config.extra_headers),
                },
            ),
        )
    } else if tag == "resend"@ {
        match config.api_key {
            None => Err(StrategyErrorView::MissingApiKey),
            Some(key) => if valid_header_value(bearer(key)) {
                Ok(ApiStrategyView::Resend(ResendView { api_key: key }))
            } else {
                Err(StrategyErrorView::InvalidApiKey)
            },
        }
    } else {
        Err(StrategyErrorView::UnknownStrategy(tag))
    }
}

/// What is known of the outcome of making a sink.
pub open spec fn outcome_view(r: Result<ApiStrategy, StrategyError>) -> Result<
    ApiStrategyView,
    StrategyErrorView,
> {
    match r {
        Ok(s) => Ok(s@),
        Err(e) => Err(e@),
    }
}

impl ApiStrategy {
    /// The name of the kind of this sink.
    pub fn name(&self) -> (r: &'static str)
        ensures
            r@ == match self {
                ApiStrategy::Webhook(_) => "webhook"@,
                ApiStrategy::Resend(_) => "resend"@,
            },
    {
        match self {
            ApiStrategy::Webhook(s) => s.name(),
            ApiStrategy::Resend(s) => s.name(),
        }
    }
}

impl StrategyError {
    /// The error in words.
    pub fn message(&self) -> (r: String)
        ensures
            r@ == match self {
                StrategyError::MissingApiKey => "api_key is required for resend strategy"@,
                StrategyError::InvalidApiKey => "failed to parse header value"@,
                StrategyError::UnknownStrategy(tag) => "Unknown API strategy: "@ + tag@,
            },
    {
        match self {
            StrategyError::MissingApiKey => "api_key is required for resend strategy".to_owned(),
            StrategyError::InvalidApiKey => "failed to parse header value".to_owned(),
            StrategyError::UnknownStrategy(tag) => "Unknown API strategy: ".to_owned().concat(
                tag.as_str(),
            ),
        }
    }
}

/// Makes the sink that `config` describes.
pub fn create_strategy(config: StrategyConfig) -> (r: Result<ApiStrategy, StrategyError>)
    ensures
        outcome_view(r) == strategy_for(config@),
{
    let tag = config.strategy_type.as_str();
    if same_text(tag, "webhook") || same_text(tag, "http") || same_text(tag, "generic") {
        let url = match config.api_url {
            Some(url) => url,
            None => "http://localhost:3000/email".to_owned(),
        };
        Ok(ApiStrategy::Webhook(WebhookStrategy::new(url, config.extra_headers)))
    } else if same_text(tag, "resend") {
        match config.api_key {
            None => Err(StrategyError::MissingApiKey),
            Some(key) => match ResendStrategy::new(key) {
                Ok(s) => Ok(ApiStrategy::Resend(s)),
                Err(e) => Err(e),
            },
        }
    } else {
        Err(StrategyError::UnknownStrategy(config.strategy_type))
    }
}

/// The index of the first configuration at or after `i` that describes no
/// sink, if there is one.
pub open spec fn first_failure(configs: Seq<StrategyConfigView>, i: int) -> Option<int>
    decreases configs.len() - i,
{
    if i < 0 || i >= configs.len() {
        None
    } else if strategy_for(configs[i]) is Err {
        Some(i)
    } else {
        first_failure(configs, i + 1)
    }
}

/// Makes the sinks that `configs` describe, in order. The first
/// configuration that describes none decides the error.
pub fn create_strategies(configs: Vec<StrategyConfig>) -> (r: Result<
    Vec<ApiStrategy>,
    StrategyError,
>)
    ensures
        match first_failure(config_views(configs@), 0) {
            Some(k) => r matches Err(e) && Err::<ApiStrategyView, StrategyErrorView>(e@)
                == strategy_for(config_views(configs@)[k]),
            None => r matches Ok(sinks) && sinks@.len() == configs@.len() && forall|i: int|
                0 <= i < sinks@.len() ==> Ok::<ApiStrategyView, StrategyErrorView>(
                    (#[trigger] sinks@[i])@,
                ) == strategy_for(config_views(configs@)[i]),
        },
{
    let ghost given = config_views(configs@);
    let mut sinks: Vec<ApiStrategy> = Vec::new();
    let mut rest = configs;
    let ghost mut done: int = 0;
    while rest.len() > 0
        invariant
            given == config_views(configs@),
            0 <= done <= given.len(),
            rest@.len() == given.len() - done,
            forall|j: int| 0 <= j < rest@.len() ==> (#[trigger] rest@[j])@ == given[done + j],
            first_failure(given, 0) == first_failure(given, done),
            sinks@.len() == done,
            forall|i: int|
                0 <= i < done ==> Ok::<ApiStrategyView, StrategyErrorView>((#[trigger] sinks@[i])@)
                    == strategy_for(given[i]),
        decreases rest.len(),
    {
        let config = rest.remove(0);
        assert(config@ == given[done]);
        match create_strategy(config) {
            Ok(sink) => {
                sinks.push(sink);
            },
            Err(e) => {
                return Err(e);
            },
        }
        proof {
            done = done + 1;
        }
    }
    Ok(sinks)
}

/// The time allowed for one request to a sink, in seconds.
pub const REQUEST_TIMEOUT_SECS: u64 = 30;

/// Whether a sink has taken a message, going by the status of its HTTP
/// response: any status from 200 to 299 is a success.
pub open spec fn is_success(status: u16) -> bool {
    200 <= status < 300
}

/// Whether the HTTP status `status` is a success.
pub fn status_ok(status: u16) -> (ok: bool)
    ensures
        ok == is_success(status),
{
    200 <= status && status < 300
}

/// A failed delivery: the sink answered with a status outside 200 to 299.
#[derive(Debug, Clone, PartialEq, Eq)]
pub struct SinkError {
    pub status: u16,
    pub body: String,
}

/// Judges the response of a sink by its status; a failure carries the
/// status and the response body.
pub fn check_response(status: u16, body: String) -> (r: Result<(), SinkError>)
    ensures
        match r {
            Ok(_) => is_success(status),
            Err(e) => !is_success(status) && e.status == status && e.body@ == body@,
        },
{
    if status_ok(status) {
        Ok(())
    } else {
        Err(SinkError { status, body })
    }
}

/// The number of successes among `outcomes`.
pub open spec fn successes(outcomes: Seq<bool>) -> nat
    decreases outcomes.len(),
{
    if outcomes.len() == 0 {
        0
    } else {
        successes(outcomes.drop_last()) + if outcomes.last() {
            1nat
        } else {
            0nat
        }
    }
}

/// One round of deliveries: a message is offered to each of `sinks` sinks
/// in order, one at a time, and every outcome is kept.
pub struct Dispatcher {
    sinks: usize,
    outcomes: Vec<bool>,
}

/// What a `Dispatcher` holds, as plain values.
pub struct DispatcherView {
    pub sinks: nat,
    pub outcomes: Seq<bool>,
}

/// How a round of deliveries went.
#[derive(Debug, Clone, Copy, PartialEq, Eq, Structural)]
pub struct DispatchReport {
    pub succeeded: usize,
    pub failed: usize,
}

impl View for Dispatcher {
    type V = DispatcherView;

    closed spec fn view(&self) -> DispatcherView {
        DispatcherView { sinks: self.sinks as nat, outcomes: self.outcomes@ }
    }
}

impl DispatcherView {
    /// The index of the sink to try next; `None` once every sink has been
    /// tried.
    pub open spec fn next(self) -> Option<nat> {
        if self.outcomes.len() < self.sinks {
            Some(self.outcomes.len())
        } else {
            None
        }
    }

    /// The round after the sink that `next` names has been tried with the
    /// outcome `delivered`. Once every sink has been tried, nothing more
    /// is recorded.
    pub open spec fn recorded(self, delivered: bool) -> DispatcherView {
        if self.outcomes.len() < self.sinks {
            DispatcherView { outcomes: self.outcomes.push(delivered), ..self }
        } else {
            self
        }
    }

    /// The round after the outcomes `outcomes` have been recorded in order.
    pub open spec fn recorded_all(self, outcomes: Seq<bool>) -> DispatcherView
        decreases outcomes.len(),
    {
        if outcomes.len() == 0 {
            self
        } else {
            self.recorded_all(outcomes.drop_last()).recorded(outcomes.last())
        }
    }
}

impl Dispatcher {
    /// A round over `sinks` sinks, none of them tried yet.
    pub fn new(sinks: usize) -> (d: Self)
        ensures
            d@ == (DispatcherView { sinks: sinks as nat, outcomes: Seq::empty() }),
    {
        Dispatcher { sinks, outcomes: Vec::new() }
    }

    /// The index of the sink to try next; `None` once every sink has been
    /// tried.
    pub fn next(&self) -> (r: Option<usize>)
        ensures
            match r {
                Some(i) => self@.next() == Some(i as nat),
                None => self@.next() is None,
            },
    {
        if self.outcomes.len() < self.sinks {
            Some(self.outcomes.len())
        } else {
            None
        }
    }

    /// Records the outcome of the sink that `next` named.
    pub fn record(&mut self, delivered: bool)
        ensures
            final(self)@ == old(self)@.recorded(delivered),
    {
        if self.outcomes.len() < self.sinks {
            self.outcomes.push(delivered);
        }
    }

    /// How many of the sinks tried so far took the message and how many
    /// failed.
    pub fn report(&self) -> (r: DispatchReport)
        ensures
            r.succeeded == successes(self@.outcomes),
            r.succeeded + r.failed == self@.outcomes.len(),
    {
        let mut succeeded: usize = 0;
        let mut i: usize = 0;
        assert(self.outcomes@.take(0) =~= Seq::<bool>::empty());
        while i < self.outcomes.len()
            invariant
                i <= self.outcomes.len(),
                succeeded <= i,
                succeeded == successes(self.outcomes@.take(i as int)),
            decreases self.outcomes.len() - i,
        {
            proof {
                let next = self.outcomes@.take(i + 1);
                assert(next.drop_last() =~= self.outcomes@.take(i as int));
            }
            if self.outcomes[i] {
                succeeded += 1;
            }
            i += 1;
        }
        assert(self.outcomes@.take(i as int) =~= self.outcomes@);
        DispatchReport { succeeded, failed: self.outcomes.len() - succeeded }
    }
}

/// A failure stops nothing: whatever the outcomes of the first sinks of a
/// round were, each of them has been recorded, and the next sink to try
/// is the one after them, until none is left.
pub proof fn law_sink_isolation(sinks: nat, outcomes: Seq<bool>)
    requires
        outcomes.len() <= sinks,
    ensures
        ({
            let start = DispatcherView { sinks, outcomes: Seq::empty() };
            &&& start.recorded_all(outcomes).outcomes == outcomes
            &&& start.recorded_all(outcomes).sinks == sinks
            &&& start.recorded_all(outcomes).next() == if outcomes.len() < sinks {
                Some(outcomes.len())
            } else {
                None
            }
        }),
    decreases outcomes.len(),
{
    let start = DispatcherView { sinks, outcomes: Seq::empty() };
    if outcomes.len() > 0 {
        law_sink_isolation(sinks, outcomes.drop_last());
        assert(outcomes.drop_last().push(outcomes.last()) =~= outcomes);
    } else {
        assert(start.recorded_all(outcomes).outcomes =~= outcomes);
    }
}

} // verus!
