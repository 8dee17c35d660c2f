//! The generic webhook sink: what it posts and with which headers.

use crate::header::{accepts_header_name, accepts_header_value, valid_header_name, valid_header_value};
use crate::strategies::{EmailData, EmailDataView};
use crate::text::{
    chars_of, contains, has_prefix, includes, join, joined, lines, lines_of, lowered,
    optional_view, pair_views, starts_with, string_of, string_views, to_lower, views,
};
use vstd::prelude::*;
use vstd::string::*;

verus! {

/// A sink that posts each message as JSON to one URL.
#[derive(Debug, Clone)]
pub struct WebhookStrategy {
    url: String,
    headers: Vec<(String, String)>,
}

/// What a `WebhookStrategy` holds, as plain values.
pub struct WebhookView {
    pub url: Seq<char>,
    pub headers: Seq<(Seq<char>, Seq<char>)>,
}

impl View for WebhookStrategy {
    type V = WebhookView;

    closed spec fn view(&self) -> WebhookView {
        WebhookView { url: self.url@, headers: pair_views(self.headers@) }
    }
}

/// The JSON object that the webhook sink posts.
#[derive(Debug, Clone)]
pub struct WebhookPayload {
    pub from: String,
    pub to: Vec<String>,
    pub subject: String,
    pub body: String,
    pub html: Option<String>,
}

/// What a `WebhookPayload` holds, as plain texts.
pub struct WebhookPayloadView {
    pub from: Seq<char>,
    pub to: Seq<Seq<char>>,
    pub subject: Seq<char>,
    pub body: Seq<char>,
    pub html: Option<Seq<char>>,
}

impl View for WebhookPayload {
    type V = WebhookPayloadView;

    open spec fn view(&self) -> WebhookPayloadView {
        WebhookPayloadView {
            from: self.from@,
            to: string_views(self.to@),
            subject: self.subject@,
            body: self.body@,
            html: optional_view(self.html),
        }
    }
}

/// Those of the configured headers that are sent: the ones whose name and
/// value are both accepted, in the order given.
pub open spec fn accepted_headers(extra: Seq<(Seq<char>, Seq<char>)>) -> Seq<
    (Seq<char>, Seq<char>),
>
    decreases extra.len(),
{
    if extra.len() == 0 {
        Seq::empty()
    } else {
        let before = accepted_headers(extra.drop_last());
        if valid_header_name(extra.last().0) && valid_header_value(extra.last().1) {
            before.push(extra.last())
        } else {
            before
        }
    }
}

/// The headers of every request of a webhook sink: the JSON content type,
/// then the accepted ones among the configured headers. A later header
/// replaces an earlier one of the same name when the request is made.
pub open spec fn webhook_headers(extra: Option<Seq<(Seq<char>, Seq<char>)>>) -> Seq<
    (Seq<char>, Seq<char>),
> {
    seq![("content-type"@, "application/json"@)] + match extra {
        Some(h) => accepted_headers(h),
        None => Seq::empty(),
    }
}

/// The HTML lines of `lines[i..]`, where `inside` says whether a line
/// naming the content type `text/html` has been seen before. Such a line
/// opens the HTML; from then on empty lines are passed over, every other
/// line is taken, and the first line that begins with `--` or with
/// `Content-` ends the search.
pub open spec fn html_lines(lines: Seq<Seq<char>>, i: int, inside: bool) -> Seq<Seq<char>>
    decreases lines.len() - i,
{
    if i < 0 || i >= lines.len() {
        Seq::empty()
    } else if contains(lowered(lines[i]), "content-type: text/html"@) {
        html_lines(lines, i + 1, true)
    } else if !inside || lines[i].len() == 0 {
        html_lines(lines, i + 1, inside)
    } else if starts_with(lines[i], "--"@) || starts_with(lines[i], "Content-"@) {
        Seq::empty()
    } else {
        seq![lines[i]] + html_lines(lines, i + 1, true)
    }
}

/// The HTML that a raw message carries: its HTML lines joined by line
/// feeds; `None` where there is none.
pub open spec fn html_of(raw: Seq<char>) -> Option<Seq<char>> {
    let found = html_lines(lines_of(raw), 0, false);
    if found.len() == 0 {
        None
    } else {
        Some(joined(found, "\n"@))
    }
}

/// The payload that a webhook sink posts for `email`.
pub open spec fn webhook_payload(email: EmailDataView) -> WebhookPayloadView {
    WebhookPayloadView {
        from: email.from,
        to: email.to,
        subject: email.subject,
        body: email.body,
        html: html_of(email.raw_data),
    }
}

/// Looks for HTML content in a raw message.
pub fn extract_html(raw_data: &str) -> (r: Option<String>)
    ensures
        optional_view(r) == html_of(raw_data@),
{
    let all = lines(&chars_of(raw_data));
    let marker = chars_of("content-type: text/html");
    let dashes = chars_of("--");
    let content = chars_of("Content-");
    let mut found: Vec<Vec<char>> = Vec::new();
    let mut inside = false;
    let mut i: usize = 0;
    assert(views(found@) + html_lines(views(all@), 0, false) =~= html_lines(views(all@), 0, false));
    if all.len() == 0 {
        return None;
    }
    while i < all.len()
        invariant_except_break
            views(found@) + html_lines(views(all@), i as int, inside) == html_lines(
                views(all@),
                0,
                false,
            ),
        invariant
            i <= all.len(),
            marker@ == "content-type: text/html"@,
            dashes@ == "--"@,
            content@ == "Content-"@,
        ensures
            views(found@) == html_lines(views(all@), 0, false),
        decreases all.len() - i,
    {
        let line = &all[i];
        assert(views(all@)[i as int] == line@);
        if includes(&to_lower(line), &marker) {
            inside = true;
        } else if inside && line.len() > 0 {
            if has_prefix(line, &dashes) || has_prefix(line, &content) {
                assert(views(found@) + Seq::<Seq<char>>::empty() =~= views(found@));
                break ;
            }
            let taken = line.clone();
            proof {
                assert(taken@ == line@);
                assert(views(found@.push(taken)) =~= views(found@) + seq![line@]);
                assert(views(found@) + (seq![line@] + html_lines(views(all@), i + 1, true)) =~= (
                views(found@) + seq![line@]) + html_lines(views(all@), i + 1, true));
            }
            found.push(taken);
        }
        i += 1;
        proof {
            if i >= all.len() {
                assert(views(found@) + Seq::<Seq<char>>::empty() =~= views(found@));
            }
        }
    }
    if found.len() == 0 {
        None
    } else {
        Some(string_of(&join(&found, &chars_of("\n"))))
    }
}

impl WebhookStrategy {
    /// A webhook sink for `url` that sends the JSON content type and the
    /// accepted ones among `extra_headers`.
    pub fn new(url: String, extra_headers: Option<Vec<(String, String)>>) -> (s: Self)
        ensures
            s@.url == url@,
            s@.headers == webhook_headers(
                match extra_headers {
                    Some(h) => Some(pair_views(h@)),
                    None => None,
                },
            ),
    {
        let mut headers: Vec<(String, String)> = Vec::new();
        headers.push(("content-type".to_owned(), "application/json".to_owned()));
        let ghost first = pair_views(headers@);
        assert(first =~= seq![("content-type"@, "application/json"@)]);
        match extra_headers {
            Some(extra) => {
                let ghost given = pair_views(extra@);
                let mut i: usize = 0;
                assert(given.take(0) =~= Seq::<(Seq<char>, Seq<char>)>::empty());
                assert(first + Seq::<(Seq<char>, Seq<char>)>::empty() =~= first);
                while i < extra.len()
                    invariant
                        i <= extra.len(),
                        given == pair_views(extra@),
                        pair_views(headers@) == first + accepted_headers(given.take(i as int)),
                    decreases extra.len() - i,
                {
                    let ghost next = given.take(i + 1);
                    proof {
                        assert(next.drop_last() =~= given.take(i as int));
                        assert(next.last() == (extra@[i as int].0@, extra@[i as int].1@));
                    }
                    if accepts_header_name(extra[i].0.as_str()) && accepts_header_value(
                        extra[i].1.as_str(),
                    ) {
                        let pair = (extra[i].0.clone(), extra[i].1.clone());
                        proof {
                            assert(pair_views(headers@.push(pair)) =~= pair_views(headers@).push(
                                next.last(),
                            ));
                            assert(first + accepted_headers(given.take(i as int)).push(next.last())
                                =~= (first + accepted_headers(given.take(i as int))).push(
                                next.last(),
                            ));
                        }
                        headers.push(pair);
                    }
                    i += 1;
                }
                assert(given.take(i as int) =~= given);
            },
            None => {
                assert(first + Seq::<(Seq<char>, Seq<char>)>::empty() =~= first);
            },
        }
        WebhookStrategy { url, headers }
    }

    /// The URL that the sink posts to.
    pub fn url(&self) -> (r: &str)
        ensures
            r@ == self@.url,
    {
        self.url.as_str()
    }

    /// The headers of every request, in the order in which they are set.
    pub fn headers(&self) -> (r: &Vec<(String, String)>)
        ensures
            pair_views(r@) == self@.headers,
    {
        &self.headers
    }

    /// The payload to post for `email`.
    pub fn payload(&self, email: EmailData) -> (r: WebhookPayload)
        ensures
            r@ == webhook_payload(email@),
    {
        let html = extract_html(email.raw_data.as_str());
        WebhookPayload {
            from: email.from,
            to: email.to,
            subject: email.subject,
            body: email.body,
            html,
        }
    }

    /// The name of this kind of sink.
    pub fn name(&self) -> (r: &'static str)
        ensures
            r@ == "webhook"@,
    {
        "webhook"
    }
}

} // verus!
