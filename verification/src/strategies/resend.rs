//! The Resend API sink: what it posts and under which authorization.

use crate::header::{accepts_header_value, valid_header_value};
use crate::mime::{attachment_views, content_of, parse_email, Attachment, AttachmentView};
use crate::strategies::{EmailData, EmailDataView, StrategyError};
use crate::text::{append, chars_of, optional_view, string_of, string_views};
use vstd::prelude::*;
use vstd::string::*;

verus! {

/// A sink that sends each message through the Resend API.
#[derive(Debug, Clone)]
pub struct ResendStrategy {
    api_key: String,
}

/// What a `ResendStrategy` holds.
pub struct ResendView {
    pub api_key: Seq<char>,
}

impl View for ResendStrategy {
    type V = ResendView;

    closed spec fn view(&self) -> ResendView {
        ResendView { api_key: self.api_key@ }
    }
}

/// The JSON object that the Resend sink posts.
#[derive(Debug, Clone)]
pub struct ResendPayload {
    pub from: String,
    pub to: Vec<String>,
    pub subject: Option<String>,
    pub text: Option<String>,
    pub html: Option<String>,
    pub reply_to: Option<String>,
    pub attachments: Option<Vec<Attachment>>,
}

/// What a `ResendPayload` holds, as plain texts.
pub struct ResendPayloadView {
    pub from: Seq<char>,
    pub to: Seq<Seq<char>>,
    pub subject: Option<Seq<char>>,
    pub text: Option<Seq<char>>,
    pub html: Option<Seq<char>>,
    pub reply_to: Option<Seq<char>>,
    pub attachments: Option<Seq<AttachmentView>>,
}

impl View for ResendPayload {
    type V = ResendPayloadView;

    open spec fn view(&self) -> ResendPayloadView {
        ResendPayloadView {
            from: self.from@,
            to: string_views(self.to@),
            subject: optional_view(self.subject),
            text: optional_view(self.text),
            html: optional_view(self.html),
            reply_to: optional_view(self.reply_to),
            attachments: match self.attachments {
                Some(a) => Some(attachment_views(a@)),
                None => None,
            },
        }
    }
}

/// The value of the `Authorization` header for the key `api_key`.
pub open spec fn bearer(api_key: Seq<char>) -> Seq<char> {
    "Bearer "@ + api_key
}

/// The payload that a Resend sink posts for `email`: the envelope, the
/// subject, the sender as the address to reply to, and the decoded content
/// of the raw message.
pub open spec fn resend_payload(email: EmailDataView) -> ResendPayloadView {
    let content = content_of(email.raw_data);
    ResendPayloadView {
        from: email.from,
        to: email.to,
        subject: Some(email.subject),
        text: content.text,
        html: content.html,
        reply_to: Some(email.from),
        attachments: content.attachments,
    }
}

fn bearer_value(api_key: &str) -> (r: String)
    ensures
        r@ == bearer(api_key@),
{
    let mut value = chars_of("Bearer ");
    append(&mut value, &chars_of(api_key));
    string_of(&value)
}

impl ResendStrategy {
    /// A Resend sink for the key `api_key`. The key is refused where it
    /// cannot be sent in a header.
    pub fn new(api_key: String) -> (r: Result<Self, StrategyError>)
        ensures
            match r {
                Ok(s) => valid_header_value(bearer(api_key@)) && s@.api_key == api_key@,
                Err(e) => !valid_header_value(bearer(api_key@)) && e == StrategyError::InvalidApiKey,
            },
    {
        if accepts_header_value(bearer_value(api_key.as_str()).as_str()) {
            Ok(ResendStrategy { api_key })
        } else {
            Err(StrategyError::InvalidApiKey)
        }
    }

    /// The URL that every message is posted to.
    pub fn endpoint(&self) -> (r: &'static str)
        ensures
            r@ == "https://api.resend.com/emails"@,
    {
        "https://api.resend.com/emails"
    }

    /// The value of the `Authorization` header of every request.
    pub fn authorization(&self) -> (r: String)
        ensures
            r@ == bearer(self@.api_key),
    {
        bearer_value(self.api_key.as_str())
    }

    /// The payload to post for `email`.
    pub fn payload(&self, email: EmailData) -> (r: ResendPayload)
        ensures
            r@ == resend_payload(email@),
    {
        let (text, html, attachments) = parse_email(email.raw_data.as_str());
        let reply_to = email.from.clone();
        ResendPayload {
            from: email.from,
            to: email.to,
            subject: Some(email.subject),
            text,
            html,
            reply_to: Some(reply_to),
            attachments,
        }
    }

    /// The name of this kind of sink.
    pub fn name(&self) -> (r: &'static str)
        ensures
            r@ == "resend"@,
    {
        "resend"
    }
}

} // verus!
