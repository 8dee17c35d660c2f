//! The session engine: the state of one SMTP connection and its
//! transitions, one per command line or completed data block.

use crate::strategies::{EmailData, EmailDataView};
use crate::text::{
    chars_of, first_line_with, first_prefixed, first_word, has_prefix, lemma_first_prefixed,
    lines, lines_of, lowered, same,
    second_word, slice, starts_with, string_of, string_views, strip_end, strip_end_chars,
    strip_start, strip_start_chars, to_upper, trim, trimmed, uppered, views, word_bounds, Strip,
};
use vstd::prelude::*;
use vstd::string::*;

verus! {

/// The answers of the engine.
#[derive(Clone, Copy, Debug, PartialEq, Eq, Structural)]
pub enum Reply {
    /// 250, to EHLO and HELO.
    Hello,
    /// 250, to an accepted command or message.
    Accepted,
    /// 354, to an accepted DATA.
    StartData,
    /// 221, to QUIT.
    Bye,
    /// 500, to an empty line and to a malformed MAIL or RCPT.
    SyntaxError,
    /// 500, to any other verb.
    NotRecognized,
    /// 503, to RCPT without a sender.
    NeedMail,
    /// 503, to DATA without a sender or without a recipient.
    NeedRecipients,
}

impl Reply {
    /// The three-digit code of the answer.
    pub open spec fn code(self) -> nat {
        match self {
            Reply::Hello => 250,
            Reply::Accepted => 250,
            Reply::StartData => 354,
            Reply::Bye => 221,
            Reply::SyntaxError => 500,
            Reply::NotRecognized => 500,
            Reply::NeedMail => 503,
            Reply::NeedRecipients => 503,
        }
    }

    /// The line sent to the client.
    pub open spec fn text(self) -> Seq<char> {
        match self {
            Reply::Hello => "250 Hello\r\n"@,
            Reply::Accepted => "250 OK\r\n"@,
            Reply::StartData => "354 End data with <CR><LF>.<CR><LF>\r\n"@,
            Reply::Bye => "221 Bye\r\n"@,
            Reply::SyntaxError => "500 Syntax error\r\n"@,
            Reply::NotRecognized => "500 Command not recognized\r\n"@,
            Reply::NeedMail => "503 Need MAIL command first\r\n"@,
            Reply::NeedRecipients => "503 Need MAIL and RCPT commands first\r\n"@,
        }
    }

    /// The line sent to the client.
    pub fn line(self) -> (r: String)
        ensures
            r@ == self.text(),
    {
        match self {
            Reply::Hello => "250 Hello\r\n".to_owned(),
            Reply::Accepted => "250 OK\r\n".to_owned(),
            Reply::StartData => "354 End data with <CR><LF>.<CR><LF>\r\n".to_owned(),
            Reply::Bye => "221 Bye\r\n".to_owned(),
            Reply::SyntaxError => "500 Syntax error\r\n".to_owned(),
            Reply::NotRecognized => "500 Command not recognized\r\n".to_owned(),
            Reply::NeedMail => "503 Need MAIL command first\r\n".to_owned(),
            Reply::NeedRecipients => "503 Need MAIL and RCPT commands first\r\n".to_owned(),
        }
    }
}

/// The state of one connection: the envelope and the mode.
pub struct SmtpSession {
    from: Option<String>,
    to: Vec<String>,
    expecting_data: bool,
}

/// What an `SmtpSession` holds, as plain values.
pub struct SessionView {
    pub from: Option<Seq<char>>,
    pub to: Seq<Seq<char>>,
    pub expecting_data: bool,
}

impl SessionView {
    /// The envelope is complete whenever data is expected: there is a
    /// sender, and at least one recipient.
    pub open spec fn wf(self) -> bool {
        self.expecting_data ==> self.from is Some && self.to.len() > 0
    }
}

/// The state without an envelope, in command mode.
pub open spec fn fresh() -> SessionView {
    SessionView { from: None, to: Seq::empty(), expecting_data: false }
}

/// The verb of a command line: its first word in upper case.
pub open spec fn verb_of(line: Seq<char>) -> Seq<char> {
    uppered(first_word(line))
}

/// The address in an argument of MAIL or RCPT that begins with the prefix
/// `prefix`: what follows the prefix, without leading `<` and trailing `>`.
pub open spec fn address(arg: Seq<char>, prefix: Seq<char>) -> Seq<char> {
    strip_end(
        strip_start(arg.subrange(prefix.len() as int, arg.len() as int), Strip::Char('<')),
        Strip::Char('>'),
    )
}

/// The transition that the command line `line` makes from `pre`, and the
/// answer to it.
pub open spec fn command_step(pre: SessionView, line: Seq<char>) -> (SessionView, Reply) {
    let verb = verb_of(line);
    let arg = second_word(line);
    if first_word(line).len() == 0 {
        (pre, Reply::SyntaxError)
    } else if verb == "EHLO"@ || verb == "HELO"@ {
        (fresh(), Reply::Hello)
    } else if verb == "MAIL"@ {
        if starts_with(uppered(arg), "FROM:"@) {
            (SessionView { from: Some(address(arg, "FROM:"@)), ..pre }, Reply::Accepted)
        } else {
            (pre, Reply::SyntaxError)
        }
    } else if verb == "RCPT"@ {
        if pre.from is None {
            (pre, Reply::NeedMail)
        } else if starts_with(uppered(arg), "TO:"@) {
            (SessionView { to: pre.to.push(address(arg, "TO:"@)), ..pre }, Reply::Accepted)
        } else {
            (pre, Reply::SyntaxError)
        }
    } else if verb == "DATA"@ {
        if pre.from is None || pre.to.len() == 0 {
            (pre, Reply::NeedRecipients)
        } else {
            (SessionView { expecting_data: true, ..pre }, Reply::StartData)
        }
    } else if verb == "QUIT"@ {
        (pre, Reply::Bye)
    } else if verb == "RSET"@ {
        (fresh(), Reply::Accepted)
    } else if verb == "NOOP"@ {
        (pre, Reply::Accepted)
    } else {
        (pre, Reply::NotRecognized)
    }
}

/// The subject of a message: what follows `Subject:`, in any case, on the
/// first line that begins with it, trimmed; `No Subject` where no line
/// does.
pub open spec fn subject_of(data: Seq<char>) -> Seq<char> {
    let all = lines_of(data);
    match first_prefixed(all, "subject:"@, 0) {
        Some(k) => trimmed(all[k].subrange("subject:"@.len() as int, all[k].len() as int)),
        None => "No Subject"@,
    }
}

/// The record of the message `data` received under the envelope of `pre`;
/// `None` where the envelope has no sender.
pub open spec fn record_of(pre: SessionView, data: Seq<char>) -> Option<EmailDataView> {
    match pre.from {
        Some(from) => Some(
            EmailDataView {
                from,
                to: pre.to,
                subject: subject_of(data),
                body: data,
                raw_data: data,
            },
        ),
        None => None,
    }
}

/// What is known of a record that may be absent.
pub open spec fn record_view(record: Option<EmailData>) -> Option<EmailDataView> {
    match record {
        Some(r) => Some(r@),
        None => None,
    }
}

impl View for SmtpSession {
    type V = SessionView;

    closed spec fn view(&self) -> SessionView {
        SessionView {
            from: match self.from {
                Some(s) => Some(s@),
                None => None,
            },
            to: string_views(self.to@),
            expecting_data: self.expecting_data,
        }
    }
}

/// Derives the subject of a message from its lines.
pub fn extract_subject(data: &str) -> (r: String)
    ensures
        r@ == subject_of(data@),
{
    let all = lines(&chars_of(data));
    let prefix = chars_of("subject:");
    match first_line_with(&all, &prefix) {
        Some(k) => {
            proof {
                assert(views(all@)[k as int] == all@[k as int]@);
                lemma_first_prefixed(views(all@), prefix@, 0);
            }
            let line = &all[k];
            string_of(&trim(&slice(line, prefix.len(), line.len())))
        },
        None => "No Subject".to_owned(),
    }
}

/// The address in `arg`, which begins with `prefix`.
fn address_in(arg: &Vec<char>, prefix: &Vec<char>) -> (r: String)
    requires
        prefix.len() <= arg.len(),
    ensures
        r@ == address(arg@, prefix@),
{
    let rest = slice(arg, prefix.len(), arg.len());
    let open = strip_start_chars(&rest, Strip::Char('<'));
    string_of(&strip_end_chars(&open, Strip::Char('>')))
}

impl SmtpSession {
    /// A session at the start of a connection.
    pub fn new() -> (s: Self)
        ensures
            s@ == fresh(),
    {
        let s = SmtpSession { from: None, to: Vec::new(), expecting_data: false };
        assert(s@.to =~= Seq::<Seq<char>>::empty());
        s
    }

    /// Whether the session is in a data phase.
    pub fn in_data_mode(&self) -> (b: bool)
        ensures
            b == self@.expecting_data,
    {
        self.expecting_data
    }

    fn reset(&mut self)
        ensures
            final(self)@ == fresh(),
    {
        self.from = None;
        self.to = Vec::new();
        self.expecting_data = false;
        assert(self@.to =~= Seq::<Seq<char>>::empty());
    }

    /// Handles one command line and returns the answer to send.
    pub fn handle_command(&mut self, line: &str) -> (response: String)
        ensures
            final(self)@ == command_step(old(self)@, line@).0,
            response@ == command_step(old(self)@, line@).1.text(),
    {
        let ghost pre = self@;
        let chars = chars_of(line);
        let (a, b) = word_bounds(&chars, 0);
        if a == b {
            return Reply::SyntaxError.line();
        }
        let verb = to_upper(&slice(&chars, a, b));
        let (c, d) = word_bounds(&chars, b);
        let arg = slice(&chars, c, d);
        let upper_arg = to_upper(&arg);
        if same(&verb, &chars_of("EHLO")) || same(&verb, &chars_of("HELO")) {
            self.reset();
            Reply::Hello.line()
        } else if same(&verb, &chars_of("MAIL")) {
            let prefix = chars_of("FROM:");
            if !has_prefix(&upper_arg, &prefix) {
                return Reply::SyntaxError.line();
            }
            self.from = Some(address_in(&arg, &prefix));
            Reply::Accepted.line()
        } else if same(&verb, &chars_of("RCPT")) {
            if self.from.is_none() {
                return Reply::NeedMail.line();
            }
            let prefix = chars_of("TO:");
            if !has_prefix(&upper_arg, &prefix) {
                return Reply::SyntaxError.line();
            }
            let to = address_in(&arg, &prefix);
            assert(string_views(self.to@.push(to)) =~= string_views(self.to@).push(to@));
            self.to.push(to);
            Reply::Accepted.line()
        } else if same(&verb, &chars_of("DATA")) {
            if self.from.is_none() || self.to.len() == 0 {
                return Reply::NeedRecipients.line();
            }
            self.expecting_data = true;
            Reply::StartData.line()
        } else if same(&verb, &chars_of("QUIT")) {
            Reply::Bye.line()
        } else if same(&verb, &chars_of("RSET")) {
            self.reset();
            Reply::Accepted.line()
        } else if same(&verb, &chars_of("NOOP")) {
            Reply::Accepted.line()
        } else {
            Reply::NotRecognized.line()
        }
    }

    /// Completes a data phase: builds the record of the message from the
    /// envelope, clears the session and returns the record to hand to the
    /// sinks, with the answer to send once they have been tried. The answer
    /// does not depend on what the sinks will do.
    pub fn handle_data(&mut self, data: String) -> (r: (Option<EmailData>, String))
        ensures
            final(self)@ == fresh(),
            record_view(r.0) == record_of(old(self)@, data@),
            r.1@ == Reply::Accepted.text(),
    {
        let mut to: Vec<String> = Vec::new();
        std::mem::swap(&mut self.to, &mut to);
        let from = self.from.take();
        self.reset();
        let record = match from {
            Some(from) => {
                let subject = extract_subject(data.as_str());
                let body = data.clone();
                Some(EmailData { from, to, subject, body, raw_data: data })
            },
            None => None,
        };
        (record, Reply::Accepted.line())
    }
}

/// What happens to a session: a command line arrives, or a data block is
/// completed.
pub enum Event {
    Command(Seq<char>),
    Data(Seq<char>),
}

/// The state that `event` leads to from `pre`.
pub open spec fn event_step(pre: SessionView, event: Event) -> SessionView {
    match event {
        Event::Command(line) => command_step(pre, line).0,
        Event::Data(_) => fresh(),
    }
}

/// The state of a session that has seen `events` since its start.
pub open spec fn state_after(events: Seq<Event>) -> SessionView
    decreases events.len(),
{
    if events.len() == 0 {
        fresh()
    } else {
        event_step(state_after(events.drop_last()), events.last())
    }
}

/// Whether `event` is a command line with the verb `verb`.
pub open spec fn has_verb(event: Event, verb: Seq<char>) -> bool {
    event matches Event::Command(line) && verb_of(line) == verb
}

/// A session that has seen no MAIL has no sender.
pub proof fn lemma_no_sender_without_mail(events: Seq<Event>)
    requires
        forall|i: int| 0 <= i < events.len() ==> !has_verb(#[trigger] events[i], "MAIL"@),
    ensures
        state_after(events).from is None,
    decreases events.len(),
{
    if events.len() > 0 {
        let before = events.drop_last();
        assert forall|i: int| 0 <= i < before.len() implies !has_verb(
            #[trigger] before[i],
            "MAIL"@,
        ) by {
            assert(before[i] == events[i]);
        }
        lemma_no_sender_without_mail(before);
        assert(!has_verb(events[events.len() - 1], "MAIL"@));
    }
}

/// A session that has seen no RCPT has no recipient.
pub proof fn lemma_no_recipient_without_rcpt(events: Seq<Event>)
    requires
        forall|i: int| 0 <= i < events.len() ==> !has_verb(#[trigger] events[i], "RCPT"@),
    ensures
        state_after(events).to.len() == 0,
    decreases events.len(),
{
    if events.len() > 0 {
        let before = events.drop_last();
        assert forall|i: int| 0 <= i < before.len() implies !has_verb(
            #[trigger] before[i],
            "RCPT"@,
        ) by {
            assert(before[i] == events[i]);
        }
        lemma_no_recipient_without_rcpt(before);
        assert(!has_verb(events[events.len() - 1], "RCPT"@));
    }
}

/// The verbs are pairwise different, and none is empty.
pub proof fn lemma_verbs_differ()
    ensures
        "EHLO"@.len() == 4 && "HELO"@.len() == 4 && "MAIL"@.len() == 4 && "RCPT"@.len() == 4
            && "DATA"@.len() == 4,
        "RCPT"@ != "EHLO"@ && "RCPT"@ != "HELO"@ && "RCPT"@ != "MAIL"@,
        "DATA"@ != "EHLO"@ && "DATA"@ != "HELO"@ && "DATA"@ != "MAIL"@ && "DATA"@ != "RCPT"@,
{
    reveal_strlit("EHLO");
    reveal_strlit("HELO");
    reveal_strlit("MAIL");
    reveal_strlit("RCPT");
    reveal_strlit("DATA");
    assert("RCPT"@[0] == 'R' && "DATA"@[0] == 'D' && "EHLO"@[0] == 'E' && "HELO"@[0] == 'H'
        && "MAIL"@[0] == 'M');
}

/// Whatever a session has seen since its start, as long as no MAIL was
/// among it, it answers RCPT with 503 and stays as it is.
pub proof fn law_rcpt_before_mail(events: Seq<Event>, line: Seq<char>)
    requires
        forall|i: int| 0 <= i < events.len() ==> !has_verb(#[trigger] events[i], "MAIL"@),
        verb_of(line) == "RCPT"@,
    ensures
        command_step(state_after(events), line).1.code() == 503,
        command_step(state_after(events), line).0 == state_after(events),
{
    lemma_no_sender_without_mail(events);
    lemma_verbs_differ();
}

/// Whatever a session has seen since its start, as long as no RCPT was
/// among it, it answers DATA with 503 and stays as it is.
pub proof fn law_data_before_rcpt(events: Seq<Event>, line: Seq<char>)
    requires
        forall|i: int| 0 <= i < events.len() ==> !has_verb(#[trigger] events[i], "RCPT"@),
        verb_of(line) == "DATA"@,
    ensures
        command_step(state_after(events), line).1.code() == 503,
        command_step(state_after(events), line).0 == state_after(events),
{
    lemma_no_recipient_without_rcpt(events);
    lemma_verbs_differ();
}

/// In every state, a line whose verb is none of the eight known ones is
/// answered with 500 and changes nothing; so is a line without any word.
pub proof fn law_unknown_verb(pre: SessionView, line: Seq<char>)
    requires
        verb_of(line) != "EHLO"@,
        verb_of(line) != "HELO"@,
        verb_of(line) != "MAIL"@,
        verb_of(line) != "RCPT"@,
        verb_of(line) != "DATA"@,
        verb_of(line) != "QUIT"@,
        verb_of(line) != "RSET"@,
        verb_of(line) != "NOOP"@,
    ensures
        command_step(pre, line).1.code() == 500,
        command_step(pre, line).0 == pre,
{
}

/// Where line `k` is the first that begins with `Subject:` in any case,
/// the subject is what follows those eight characters on it, trimmed.
pub proof fn law_subject_first_match(data: Seq<char>, k: int)
    requires
        0 <= k < lines_of(data).len(),
        starts_with(lowered(lines_of(data)[k]), "subject:"@),
        forall|j: int| 0 <= j < k ==> !starts_with(lowered(#[trigger] lines_of(data)[j]), "subject:"@),
    ensures
        subject_of(data) == trimmed(lines_of(data)[k].skip(8)),
{
    reveal_strlit("subject:");
    lemma_first_prefixed(lines_of(data), "subject:"@, 0);
}

/// Where no line begins with `Subject:` in any case, the subject is
/// `No Subject`.
pub proof fn law_subject_absent(data: Seq<char>)
    requires
        forall|j: int|
            0 <= j < lines_of(data).len() ==> !starts_with(
                lowered(#[trigger] lines_of(data)[j]),
                "subject:"@,
            ),
    ensures
        subject_of(data) == "No Subject"@,
{
    lemma_first_prefixed(lines_of(data), "subject:"@, 0);
}

/// No command takes a session with a complete envelope to one that
/// expects data without one.
pub proof fn lemma_command_keeps_envelope(pre: SessionView, line: Seq<char>)
    requires
        pre.wf(),
    ensures
        command_step(pre, line).0.wf(),
{
}

/// Whatever a session has seen since its start, it expects data only with
/// a sender and at least one recipient.
pub proof fn law_envelope_before_data(events: Seq<Event>)
    ensures
        state_after(events).wf(),
    decreases events.len(),
{
    if events.len() > 0 {
        law_envelope_before_data(events.drop_last());
        match events.last() {
            Event::Command(line) => {
                lemma_command_keeps_envelope(state_after(events.drop_last()), line);
            },
            Event::Data(_) => {},
        }
    }
}

} // verus!
