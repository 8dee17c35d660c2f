//! The SMTP side of the relay: the session engine and the line framer that
//! feeds it. The framer takes the lines of one connection as they are
//! read and says after each what to do next; reading and writing are the
//! caller's.

pub mod session;

use crate::smtp::session::{
    command_step, fresh, lemma_command_keeps_envelope, record_of, record_view, Reply,
    SessionView, SmtpSession,
};
use crate::strategies::{EmailData, EmailDataView};
use crate::text::{
    append, chars_of, has_prefix, same, slice, starts_with, string_of, trim, trimmed,
};
use vstd::prelude::*;
use vstd::string::*;

verus! {

/// One connection: its session and the message body collected so far in
/// the running data phase.
pub struct Connection {
    session: SmtpSession,
    body: Vec<char>,
}

/// What a `Connection` holds, as plain values.
pub struct ConnectionView {
    pub session: SessionView,
    pub body: Seq<char>,
}

impl ConnectionView {
    /// The session has a complete envelope whenever it expects data, and
    /// outside a data phase no body is held.
    pub open spec fn wf(self) -> bool {
        self.session.wf() && (!self.session.expecting_data ==> self.body.len() == 0)
    }
}

impl View for Connection {
    type V = ConnectionView;

    closed spec fn view(&self) -> ConnectionView {
        ConnectionView { session: self.session@, body: self.body@ }
    }
}

/// What the caller does after a line.
#[derive(Debug)]
pub enum Action {
    /// The peer has closed the stream: end the connection without an answer.
    Close,
    /// The line was taken into the message body: read the next one.
    ReadMore,
    /// Send `response`; then end the connection if `close`.
    Respond { response: String, close: bool },
    /// A message is complete: hand `record`, if there is one, to every
    /// sink in turn, then send `response`.
    Deliver { record: Option<EmailData>, response: String },
}

/// What an `Action` holds, as plain values.
pub enum ActionView {
    Close,
    ReadMore,
    Respond { response: Seq<char>, close: bool },
    Deliver { record: Option<EmailDataView>, response: Seq<char> },
}

impl View for Action {
    type V = ActionView;

    open spec fn view(&self) -> ActionView {
        match self {
            Action::Close => ActionView::Close,
            Action::ReadMore => ActionView::ReadMore,
            Action::Respond { response, close } => ActionView::Respond {
                response: response@,
                close: *close,
            },
            Action::Deliver { record, response } => ActionView::Deliver {
                record: record_view(*record),
                response: response@,
            },
        }
    }
}

/// A data line as it is stored: without its first dot where it begins with
/// two, else unchanged. The line terminator stays.
pub open spec fn unstuffed(line: Seq<char>) -> Seq<char> {
    if starts_with(line, ".."@) {
        line.subrange(1, line.len() as int)
    } else {
        line
    }
}

/// Whether a data line ends the data phase: trimmed, it is a single dot.
pub open spec fn ends_data(line: Seq<char>) -> bool {
    trimmed(line) == "."@
}

/// The connection at its start.
pub open spec fn opened() -> ConnectionView {
    ConnectionView { session: fresh(), body: Seq::empty() }
}

/// The transition that the line `line`, as read with its terminator, makes
/// from `pre`, and what the caller is to do. An empty `line` stands for
/// the end of the stream.
pub open spec fn line_step(pre: ConnectionView, line: Seq<char>) -> (ConnectionView, ActionView) {
    if line.len() == 0 {
        (pre, ActionView::Close)
    } else if pre.session.expecting_data {
        if ends_data(line) {
            (
                opened(),
                ActionView::Deliver {
                    record: record_of(pre.session, pre.body),
                    response: Reply::Accepted.text(),
                },
            )
        } else {
            (ConnectionView { body: pre.body + unstuffed(line), ..pre }, ActionView::ReadMore)
        }
    } else {
        let (next, reply) = command_step(pre.session, trimmed(line));
        (
            ConnectionView { session: next, body: Seq::empty() },
            ActionView::Respond {
                response: reply.text(),
                close: starts_with(reply.text(), "221"@),
            },
        )
    }
}

/// The line that greets a new client.
pub fn greeting() -> (r: String)
    ensures
        r@ == "220 SMTP Server Ready\r\n"@,
{
    "220 SMTP Server Ready\r\n".to_owned()
}

impl Connection {
    /// A connection that has just been accepted.
    pub fn new() -> (c: Self)
        ensures
            c@ == opened(),
    {
        Connection { session: SmtpSession::new(), body: Vec::new() }
    }

    /// Whether the connection is in a data phase.
    pub fn in_data_mode(&self) -> (b: bool)
        ensures
            b == self@.session.expecting_data,
    {
        self.session.in_data_mode()
    }

    /// Takes the next line read from the client, terminator included, or
    /// the empty string at the end of the stream, and says what to do.
    pub fn on_line(&mut self, line: &str) -> (action: Action)
        ensures
            final(self)@ == line_step(old(self)@, line@).0,
            action@ == line_step(old(self)@, line@).1,
    {
        let chars = chars_of(line);
        if chars.len() == 0 {
            return Action::Close;
        }
        let content = trim(&chars);
        if self.session.in_data_mode() {
            if same(&content, &chars_of(".")) {
                let data = string_of(&self.body);
                let (record, response) = self.session.handle_data(data);
                self.body = Vec::new();
                Action::Deliver { record, response }
            } else {
                if has_prefix(&chars, &chars_of("..")) {
                    proof {
                        reveal_strlit("..");
                    }
                    let rest = slice(&chars, 1, chars.len());
                    append(&mut self.body, &rest);
                } else {
                    append(&mut self.body, &chars);
                }
                Action::ReadMore
            }
        } else {
            let response = self.session.handle_command(string_of(&content).as_str());
            let close = has_prefix(&chars_of(response.as_str()), &chars_of("221"));
            self.body = Vec::new();
            Action::Respond { response, close }
        }
    }
}

/// The body that the data lines `lines` leave behind, in order.
pub open spec fn stored(lines: Seq<Seq<char>>) -> Seq<char>
    decreases lines.len(),
{
    if lines.len() == 0 {
        Seq::empty()
    } else {
        stored(lines.drop_last()) + unstuffed(lines.last())
    }
}

/// The connection after the lines `lines` have been taken in from `pre`.
pub open spec fn after_lines(pre: ConnectionView, lines: Seq<Seq<char>>) -> ConnectionView
    decreases lines.len(),
{
    if lines.len() == 0 {
        pre
    } else {
        line_step(after_lines(pre, lines.drop_last()), lines.last()).0
    }
}

/// A line that begins with two dots is stored without the first of them,
/// so it still begins with a dot and is one character shorter; any other
/// line is stored as it is.
pub proof fn law_dot_unstuffing(line: Seq<char>)
    ensures
        starts_with(line, ".."@) ==> unstuffed(line).len() == line.len() - 1 && unstuffed(line)[0]
            == '.' && unstuffed(line) == line.skip(1),
        !starts_with(line, ".."@) ==> unstuffed(line) == line,
{
    reveal_strlit("..");
    if starts_with(line, ".."@) {
        assert(line.subrange(0, 2)[1] == '.');
    }
}

/// In a data phase every line before the terminating one is taken into the
/// body, each in its stored form and in order, while the session stays as
/// it is; the terminating line adds nothing, and hands over the record of
/// exactly that body.
pub proof fn law_data_phase(pre: ConnectionView, lines: Seq<Seq<char>>, end: Seq<char>)
    requires
        pre.session.expecting_data,
        forall|i: int| 0 <= i < lines.len() ==> (#[trigger] lines[i]).len() > 0 && !ends_data(lines[i]),
        end.len() > 0,
        ends_data(end),
    ensures
        after_lines(pre, lines) == (ConnectionView { body: pre.body + stored(lines), ..pre }),
        line_step(after_lines(pre, lines), end) == (
            opened(),
            ActionView::Deliver {
                record: record_of(pre.session, pre.body + stored(lines)),
                response: Reply::Accepted.text(),
            },
        ),
    decreases lines.len(),
{
    if lines.len() == 0 {
        assert(pre.body + stored(lines) =~= pre.body);
    } else {
        let before = lines.drop_last();
        assert forall|i: int| 0 <= i < before.len() implies (#[trigger] before[i]).len() > 0
            && !ends_data(before[i]) by {
            assert(before[i] == lines[i]);
        }
        law_data_phase(pre, before, end);
        assert(lines.last() == lines[lines.len() - 1]);
        assert((pre.body + stored(before)) + unstuffed(lines.last()) =~= pre.body + stored(lines));
    }
}

/// Only the answer to QUIT begins with 221, the code on which the
/// connection is closed.
pub proof fn law_close_on_quit(reply: Reply)
    ensures
        starts_with(reply.text(), "221"@) <==> reply == Reply::Bye,
{
    reveal_strlit("221");
    reveal_strlit("250 Hello\r\n");
    reveal_strlit("250 OK\r\n");
    reveal_strlit("354 End data with <CR><LF>.<CR><LF>\r\n");
    reveal_strlit("221 Bye\r\n");
    reveal_strlit("500 Syntax error\r\n");
    reveal_strlit("500 Command not recognized\r\n");
    reveal_strlit("503 Need MAIL command first\r\n");
    reveal_strlit("503 Need MAIL and RCPT commands first\r\n");
    let t = reply.text();
    assert(t.len() >= 3);
    if reply == Reply::Bye {
        assert(t.subrange(0, 3) =~= "221"@);
    } else {
        assert(t.subrange(0, 3)[0] == t[0]);
        assert(t.subrange(0, 3)[1] == t[1]);
        assert("221"@[0] == '2' && "221"@[1] == '2');
        assert(t[0] != '2' || t[1] != '2');
    }
}

/// Whatever lines a connection has taken in since it was opened, its
/// session expects data only under a complete envelope, and it holds a
/// body only in a data phase.
pub proof fn law_connection_invariant(lines: Seq<Seq<char>>)
    ensures
        after_lines(opened(), lines).wf(),
    decreases lines.len(),
{
    if lines.len() > 0 {
        let before = after_lines(opened(), lines.drop_last());
        law_connection_invariant(lines.drop_last());
        lemma_command_keeps_envelope(before.session, trimmed(lines.last()));
    }
}

/// The line that ends a data phase always hands over a record: that of the
/// body collected, under the sender and the recipients of the envelope;
/// and the answer is 250.
pub proof fn law_completed_message_is_handed_over(pre: ConnectionView, end: Seq<char>)
    requires
        pre.wf(),
        pre.session.expecting_data,
        end.len() > 0,
        ends_data(end),
    ensures
        line_step(pre, end).1 matches ActionView::Deliver { record: Some(record), response }
            && record.from == pre.session.from.unwrap() && record.to == pre.session.to
            && record.body == pre.body && record.raw_data == pre.body && response
            == Reply::Accepted.text() && Reply::Accepted.code() == 250,
{
}

} // verus!
