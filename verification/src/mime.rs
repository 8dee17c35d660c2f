//! The MIME content decoder: header lookup, transfer-encoding decoding and
//! the classification of the parts of a multipart message. Nothing here
//! fails: text that does not have the declared form is kept as it is, and
//! a part that cannot be placed is left out.

use crate::codec::{
    base64_decode, base64_decoded, base64_encode, base64_encoded, decode_utf8_lossy, utf8_lossy,
};
use crate::text::{
    after_char, after_marker, after_marker_folded, append, chars_of, contains, find, find_from,
    first_line_with, first_prefixed, has_prefix, includes, index_of, join, joined, lines,
    lines_of, lowered, octets_of, same, slice, split, split_on, starts_with, string_of, strip,
    strip_breaks, strip_chars, text_after_char, text_after_marker, text_after_marker_folded,
    to_lower, trim, trimmed, views, without_breaks, Strip,
};
use vstd::prelude::*;
use vstd::string::*;
use vstd::utf8::{decode_utf8, encode_utf8, valid_utf8};

verus! {

/// `raw` cut at the first occurrence of `marker`: what stands before it and
/// what stands after it.
pub open spec fn cut_at(raw: Seq<char>, marker: Seq<char>) -> Option<(Seq<char>, Seq<char>)> {
    match find(raw, marker) {
        Some(k) => Some((raw.subrange(0, k), raw.subrange(k + marker.len(), raw.len() as int))),
        None => None,
    }
}

/// The header block and the body of `raw`: the text before and after the
/// first blank line, where a CRLF CRLF anywhere in the text is preferred
/// to an LF LF. `None` where `raw` holds neither.
pub open spec fn headers_and_body(raw: Seq<char>) -> Option<(Seq<char>, Seq<char>)> {
    match cut_at(raw, "\r\n\r\n"@) {
        Some(cut) => Some(cut),
        None => cut_at(raw, "\n\n"@),
    }
}

/// The value of the first header line of `headers` named `name`, in any
/// case: what follows the first colon of that line, trimmed. Empty where
/// no line has that name.
pub open spec fn header_value(headers: Seq<char>, name: Seq<char>) -> Seq<char> {
    let all = lines_of(headers);
    match first_prefixed(all, lowered(name) + seq![':'], 0) {
        Some(k) => trimmed(after_char(all[k], ':')),
        None => Seq::empty(),
    }
}

/// The value of the hexadecimal digit `c`, if it is one.
pub open spec fn hex_digit(c: char) -> Option<int> {
    if '0' <= c <= '9' {
        Some(c as int - '0' as int)
    } else if 'a' <= c <= 'f' {
        Some(c as int - 'a' as int + 10)
    } else if 'A' <= c <= 'F' {
        Some(c as int - 'A' as int + 10)
    } else {
        None
    }
}

/// The octet written by the two hexadecimal digits `hi` and `lo`.
pub open spec fn octet(hi: char, lo: char) -> u8 {
    (hex_digit(hi).unwrap() * 16 + hex_digit(lo).unwrap()) as u8
}

/// The octets that the quoted-printable text `s[i..]` stands for. An `=`
/// before CRLF or before LF is a soft line break and leaves nothing; an
/// `=` before two hexadecimal digits leaves the octet that they write; any
/// other `=` stays, together with the (at most two) characters after it;
/// every other character stays. What stays, stays as its UTF-8 octets.
pub open spec fn qp_scan(s: Seq<char>, i: int) -> Seq<u8>
    decreases s.len() - i,
{
    if i < 0 || i >= s.len() {
        Seq::empty()
    } else if s[i] != '=' {
        encode_utf8(seq![s[i]]) + qp_scan(s, i + 1)
    } else if i + 2 < s.len() && s[i + 1] == '\r' && s[i + 2] == '\n' {
        qp_scan(s, i + 3)
    } else if i + 1 < s.len() && s[i + 1] == '\n' {
        qp_scan(s, i + 2)
    } else if i + 2 < s.len() && hex_digit(s[i + 1]) is Some && hex_digit(s[i + 2]) is Some {
        seq![octet(s[i + 1], s[i + 2])] + qp_scan(s, i + 3)
    } else if i + 3 <= s.len() {
        encode_utf8(s.subrange(i, i + 3)) + qp_scan(s, i + 3)
    } else {
        encode_utf8(s.subrange(i, s.len() as int))
    }
}

/// The octets that the quoted-printable text `s` stands for.
pub open spec fn qp_octets(s: Seq<char>) -> Seq<u8> {
    qp_scan(s, 0)
}

/// The text that octets are read as: what they decode to as UTF-8, and,
/// where they are not well-formed, what the lossy decoder makes of them,
/// which puts U+FFFD for every ill-formed sequence.
pub open spec fn text_of(octets: Seq<u8>) -> Seq<char> {
    if valid_utf8(octets) {
        decode_utf8(octets)
    } else {
        utf8_lossy(octets)
    }
}

/// What a base64 body becomes once the decoder has answered: the decoded
/// octets, or the octets of the body as it was where decoding failed.
pub open spec fn base64_result(body: Seq<char>, decoded: Option<Seq<u8>>) -> Seq<u8> {
    match decoded {
        Some(octets) => octets,
        None => encode_utf8(body),
    }
}

/// The octets of `body` decoded as the `Content-Transfer-Encoding` header
/// of `headers` says: quoted-printable, base64 with its line breaks taken
/// out, or, for any other value or none, as it is.
pub open spec fn decoded_body(body: Seq<char>, headers: Seq<char>) -> Seq<u8> {
    let encoding = lowered(header_value(headers, "content-transfer-encoding"@));
    if encoding == "quoted-printable"@ {
        qp_octets(body)
    } else if encoding == "base64"@ {
        base64_result(body, base64_decoded(without_breaks(body)))
    } else {
        encode_utf8(body)
    }
}

/// `s` trimmed, then without surrounding double quotes, then without
/// surrounding single quotes.
pub open spec fn unquoted(s: Seq<char>) -> Seq<char> {
    strip(strip(trimmed(s), Strip::Char('"')), Strip::Char('\''))
}

/// The value of the parameter that `key` (such as `name=`) introduces in
/// `value`, unquoted; `None` where `key` does not occur.
pub open spec fn parameter(value: Seq<char>, key: Seq<char>) -> Option<Seq<char>> {
    match after_marker(value, key) {
        Some(found) => Some(unquoted(found)),
        None => None,
    }
}

/// The value of the parameter that `key` introduces in `value` in any
/// case, unquoted and as written; `None` where `key` does not occur.
pub open spec fn parameter_folded(value: Seq<char>, key: Seq<char>) -> Option<Seq<char>> {
    match after_marker_folded(value, key) {
        Some(found) => Some(unquoted(found)),
        None => None,
    }
}

/// The file name of a part: the `filename=` parameter of its
/// `Content-Disposition` header, else the `name=` parameter of the
/// content type `content_type`, in any case and as written, else none.
pub open spec fn filename_of(headers: Seq<char>, content_type: Seq<char>) -> Option<Seq<char>> {
    match parameter(header_value(headers, "content-disposition"@), "filename="@) {
        Some(name) => Some(name),
        None => parameter_folded(content_type, "name="@),
    }
}

/// The header block and the body of `raw`.
pub(crate) fn split_chars(raw: &Vec<char>) -> (r: Option<(Vec<char>, Vec<char>)>)
    ensures
        match r {
            Some((h, b)) => headers_and_body(raw@) == Some((h@, b@)),
            None => headers_and_body(raw@) is None,
        },
{
    let crlf = chars_of("\r\n\r\n");
    match index_of(raw, &crlf) {
        Some(k) => Some((slice(raw, 0, k), slice(raw, k + crlf.len(), raw.len()))),
        None => {
            let lf = chars_of("\n\n");
            match index_of(raw, &lf) {
                Some(k) => Some((slice(raw, 0, k), slice(raw, k + lf.len(), raw.len()))),
                None => None,
            }
        },
    }
}

/// Splits a message into its header block and its body at the first blank
/// line.
pub fn split_headers_body(raw_data: &str) -> (r: Option<(&str, &str)>)
    ensures
        match r {
            Some((h, b)) => headers_and_body(raw_data@) == Some((h@, b@)),
            None => headers_and_body(raw_data@) is None,
        },
{
    let raw = chars_of(raw_data);
    let crlf = chars_of("\r\n\r\n");
    match index_of(&raw, &crlf) {
        Some(k) => Some(
            (raw_data.substring_char(0, k), raw_data.substring_char(k + crlf.len(), raw.len())),
        ),
        None => {
            let lf = chars_of("\n\n");
            match index_of(&raw, &lf) {
                Some(k) => Some(
                    (raw_data.substring_char(0, k), raw_data.substring_char(k + lf.len(), raw.len())),
                ),
                None => None,
            }
        },
    }
}

/// The value of the header `name` in `headers`.
pub(crate) fn header_chars(headers: &Vec<char>, name: &str) -> (r: Vec<char>)
    ensures
        r@ == header_value(headers@, name@),
{
    let all = lines(headers);
    let mut prefix = to_lower(&chars_of(name));
    prefix.push(':');
    assert(prefix@ =~= lowered(name@) + seq![':']);
    match first_line_with(&all, &prefix) {
        Some(k) => {
            assert(views(all@)[k as int] == all@[k as int]@);
            let rest = text_after_char(&all[k], ':');
            trim(&rest)
        },
        None => Vec::new(),
    }
}

/// Looks a header up by name, in any case, and returns its trimmed value;
/// the empty string where the header is absent.
pub fn get_header(headers: &str, name: &str) -> (r: String)
    ensures
        r@ == header_value(headers@, name@),
{
    string_of(&header_chars(&chars_of(headers), name))
}

/// The value of the hexadecimal digit `c`, if it is one.
pub fn hex_value(c: char) -> (r: Option<u8>)
    ensures
        match r {
            Some(v) => hex_digit(c) == Some(v as int) && v < 16,
            None => hex_digit(c) is None,
        },
{
    if '0' <= c && c <= '9' {
        Some((c as u8) - 48)
    } else if 'a' <= c && c <= 'f' {
        Some((c as u8) - 97 + 10)
    } else if 'A' <= c && c <= 'F' {
        Some((c as u8) - 65 + 10)
    } else {
        None
    }
}

/// The text that octets are read as.
pub fn octets_to_text(octets: &Vec<u8>) -> (r: String)
    ensures
        r@ == text_of(octets@),
        r@ == utf8_lossy(octets@),
{
    decode_utf8_lossy(octets)
}

/// The octets that the quoted-printable text `s` stands for.
pub(crate) fn qp_decode(s: &Vec<char>) -> (r: Vec<u8>)
    ensures
        r@ == qp_octets(s@),
{
    let n: usize = s.len();
    let mut r: Vec<u8> = Vec::new();
    let mut i: usize = 0;
    while i < n
        invariant
            n == s.len(),
            i <= n,
            r@ + qp_scan(s@, i as int) == qp_octets(s@),
        decreases n - i,
    {
        let ghost before = r@;
        if s[i] != '=' {
            let mut j: usize = i + 1;
            while j < n && s[j] != '='
                invariant
                    n == s.len(),
                    i < j <= n,
                    forall|k: int| i <= k < j ==> s@[k] != '=',
                decreases n - j,
            {
                j += 1;
            }
            proof {
                lemma_qp_run(s@, i as int, j as int);
            }
            let run = octets_of(&slice(s, i, j));
            append(&mut r, &run);
            assert(r@ + qp_scan(s@, j as int) =~= before + (run@ + qp_scan(s@, j as int)));
            i = j;
        } else if n - i > 2 && s[i + 1] == '\r' && s[i + 2] == '\n' {
            i += 3;
        } else if n - i > 1 && s[i + 1] == '\n' {
            i += 2;
        } else {
            let pair: Option<(u8, u8)> = if n - i > 2 {
                match (hex_value(s[i + 1]), hex_value(s[i + 2])) {
                    (Some(hi), Some(lo)) => Some((hi, lo)),
                    _ => None,
                }
            } else {
                None
            };
            match pair {
                Some((hi, lo)) => {
                    let written: u8 = hi * 16 + lo;
                    r.push(written);
                    assert(r@ + qp_scan(s@, i + 3) =~= before + (seq![octet(s@[i + 1], s@[i + 2])]
                        + qp_scan(s@, i + 3)));
                    i += 3;
                },
                None => {
                    let end: usize = if n - i >= 3 {
                        i + 3
                    } else {
                        n
                    };
                    let kept = octets_of(&slice(s, i, end));
                    append(&mut r, &kept);
                    assert(r@ + qp_scan(s@, end as int) =~= before + (kept@ + qp_scan(
                        s@,
                        end as int,
                    )));
                    assert(end == n ==> qp_scan(s@, end as int) =~= Seq::<u8>::empty());
                    assert(kept@ + Seq::<u8>::empty() =~= kept@);
                    i = end;
                },
            }
        }
    }
    assert(r@ + Seq::<u8>::empty() =~= r@);
    r
}

/// Decodes quoted-printable text: the octets that it stands for, read as
/// text.
pub fn decode_quoted_printable(input: &str) -> (r: String)
    ensures
        r@ == text_of(qp_octets(input@)),
        r@ == utf8_lossy(qp_octets(input@)),
{
    octets_to_text(&qp_decode(&chars_of(input)))
}

/// Settles a base64 body once the decoder has answered: the decoded
/// octets where there are some, the body unchanged where decoding failed.
pub fn base64_outcome(body: &Vec<char>, decoded: Option<Vec<u8>>) -> (r: Vec<u8>)
    ensures
        r@ == base64_result(body@, match decoded {
            Some(octets) => Some(octets@),
            None => None,
        }),
{
    match decoded {
        Some(octets) => octets,
        None => octets_of(body),
    }
}

/// The octets of `body` decoded as the `Content-Transfer-Encoding` header
/// of `headers` says.
pub(crate) fn decode_chars(body: &Vec<char>, headers: &Vec<char>) -> (r: Vec<u8>)
    ensures
        r@ == decoded_body(body@, headers@),
{
    let encoding = to_lower(&header_chars(headers, "content-transfer-encoding"));
    if same(&encoding, &chars_of("quoted-printable")) {
        qp_decode(body)
    } else if same(&encoding, &chars_of("base64")) {
        let packed = string_of(&strip_breaks(body));
        base64_outcome(body, base64_decode(packed.as_str()))
    } else {
        octets_of(body)
    }
}

/// Decodes a body as the `Content-Transfer-Encoding` header of its header
/// block says, and returns its octets.
pub fn decode_body(body: &str, headers: &str) -> (r: Vec<u8>)
    ensures
        r@ == decoded_body(body@, headers@),
{
    decode_chars(&chars_of(body), &chars_of(headers))
}

/// `s` trimmed and without surrounding quotes.
pub(crate) fn unquote(s: &Vec<char>) -> (r: Vec<char>)
    ensures
        r@ == unquoted(s@),
{
    let a = trim(s);
    let b = strip_chars(&a, Strip::Char('"'));
    strip_chars(&b, Strip::Char('\''))
}

/// The value of the parameter that `key` introduces in `value`.
pub(crate) fn parameter_chars(value: &Vec<char>, key: &str) -> (r: Option<Vec<char>>)
    ensures
        match r {
            Some(v) => parameter(value@, key@) == Some(v@),
            None => parameter(value@, key@) is None,
        },
{
    match text_after_marker(value, &chars_of(key)) {
        Some(found) => Some(unquote(&found)),
        None => None,
    }
}

/// The file name of the part with these headers and this content type.
pub(crate) fn filename_chars(headers: &Vec<char>, content_type: &Vec<char>) -> (r: Option<Vec<char>>)
    ensures
        match r {
            Some(v) => filename_of(headers@, content_type@) == Some(v@),
            None => filename_of(headers@, content_type@) is None,
        },
{
    let disposition = header_chars(headers, "content-disposition");
    match parameter_chars(&disposition, "filename=") {
        Some(name) => Some(name),
        None => match text_after_marker_folded(content_type, &chars_of("name=")) {
            Some(found) => Some(unquote(&found)),
            None => None,
        },
    }
}

/// Finds the file name of an attachment part, given its headers and its
/// content type as written.
pub fn extract_filename(headers: &str, content_type: &str) -> (r: Option<String>)
    ensures
        match r {
            Some(v) => filename_of(headers@, content_type@) == Some(v@),
            None => filename_of(headers@, content_type@) is None,
        },
{
    match filename_chars(&chars_of(headers), &chars_of(content_type)) {
        Some(name) => Some(string_of(&name)),
        None => None,
    }
}

/// A binary part of a message, its content in base64 for transport.
#[derive(Debug, Clone)]
pub struct Attachment {
    pub filename: String,
    pub content: String,
    pub content_type: Option<String>,
}

/// What an `Attachment` holds, as plain texts.
pub struct AttachmentView {
    pub filename: Seq<char>,
    pub content: Seq<char>,
    pub content_type: Option<Seq<char>>,
}

impl View for Attachment {
    type V = AttachmentView;

    open spec fn view(&self) -> AttachmentView {
        AttachmentView {
            filename: self.filename@,
            content: self.content@,
            content_type: match self.content_type {
                Some(t) => Some(t@),
                None => None,
            },
        }
    }
}

/// What the headers of a part make of it.
#[derive(Debug)]
pub enum PartKind {
    /// A part that belongs nowhere: an attachment without a file name.
    Dropped,
    /// Plain text.
    Text,
    /// HTML.
    Html,
    /// An attachment, with its file name and its content type as written.
    File { filename: Vec<char>, content_type: Vec<char> },
}

/// What a `PartKind` holds, as plain texts.
pub enum PartKindView {
    Dropped,
    Text,
    Html,
    File { filename: Seq<char>, content_type: Seq<char> },
}

impl View for PartKind {
    type V = PartKindView;

    open spec fn view(&self) -> PartKindView {
        match self {
            PartKind::Dropped => PartKindView::Dropped,
            PartKind::Text => PartKindView::Text,
            PartKind::Html => PartKindView::Html,
            PartKind::File { filename, content_type } => PartKindView::File {
                filename: filename@,
                content_type: content_type@,
            },
        }
    }
}

/// Whether a part with these headers is handled as an attachment: its
/// `Content-Disposition` says `attachment`, or its content type has a
/// `name=` parameter, or its content type is neither `text/plain` nor
/// `text/html`. Header values are compared in lower case.
pub open spec fn is_attachment(headers: Seq<char>) -> bool {
    let content_type = lowered(header_value(headers, "content-type"@));
    ||| contains(lowered(header_value(headers, "content-disposition"@)), "attachment"@)
    ||| contains(content_type, "name="@)
    ||| (!contains(content_type, "text/plain"@) && !contains(content_type, "text/html"@))
}

/// The kind of the part with these headers. An attachment takes its file
/// name from the headers, as written there, and is dropped where there is
/// none; any other part is HTML if its content type says `text/html`,
/// else plain text.
pub open spec fn part_kind(headers: Seq<char>) -> PartKindView {
    let written = header_value(headers, "content-type"@);
    if is_attachment(headers) {
        match filename_of(headers, written) {
            Some(filename) => PartKindView::File { filename, content_type: written },
            None => PartKindView::Dropped,
        }
    } else if contains(lowered(written), "text/html"@) {
        PartKindView::Html
    } else {
        PartKindView::Text
    }
}

/// A part of a multipart body after decoding.
#[derive(Debug)]
pub enum Part {
    /// Nothing to keep: an empty segment, the closing segment, a segment
    /// without a blank line, or a dropped attachment.
    Skipped,
    Text(Vec<char>),
    Html(Vec<char>),
    File(Attachment),
}

/// What a `Part` holds, as plain texts.
pub enum PartView {
    Skipped,
    Text(Seq<char>),
    Html(Seq<char>),
    File(AttachmentView),
}

impl View for Part {
    type V = PartView;

    open spec fn view(&self) -> PartView {
        match self {
            Part::Skipped => PartView::Skipped,
            Part::Text(t) => PartView::Text(t@),
            Part::Html(t) => PartView::Html(t@),
            Part::File(a) => PartView::File(a@),
        }
    }
}

/// What is kept of the decoded octets of a part of kind `kind`: for an
/// attachment the octets themselves, in base64; for any other part the
/// text that they are read as.
pub open spec fn part_content(kind: PartKindView, octets: Seq<u8>) -> Seq<char> {
    match kind {
        PartKindView::File { .. } => base64_encoded(octets),
        _ => text_of(octets),
    }
}

/// The part that a part of kind `kind` becomes, given what is kept of its
/// content.
pub open spec fn part_with(kind: PartKindView, content: Seq<char>) -> PartView {
    match kind {
        PartKindView::Dropped => PartView::Skipped,
        PartKindView::Text => PartView::Text(content),
        PartKindView::Html => PartView::Html(content),
        PartKindView::File { filename, content_type } => PartView::File(
            AttachmentView { filename, content, content_type: Some(content_type) },
        ),
    }
}

/// The part that one segment between two delimiters holds.
pub open spec fn part_of(segment: Seq<char>) -> PartView {
    let part = trimmed(segment);
    if part.len() == 0 || part == "--"@ {
        PartView::Skipped
    } else {
        match headers_and_body(part) {
            None => PartView::Skipped,
            Some((headers, body)) => {
                let kind = part_kind(headers);
                part_with(kind, part_content(kind, decoded_body(body, headers)))
            },
        }
    }
}

/// The plain-text parts among `parts`, in order.
pub open spec fn texts_in(parts: Seq<PartView>) -> Seq<Seq<char>>
    decreases parts.len(),
{
    if parts.len() == 0 {
        Seq::empty()
    } else {
        let before = texts_in(parts.drop_last());
        match parts.last() {
            PartView::Text(t) => before.push(t),
            _ => before,
        }
    }
}

/// The HTML parts among `parts`, in order.
pub open spec fn htmls_in(parts: Seq<PartView>) -> Seq<Seq<char>>
    decreases parts.len(),
{
    if parts.len() == 0 {
        Seq::empty()
    } else {
        let before = htmls_in(parts.drop_last());
        match parts.last() {
            PartView::Html(t) => before.push(t),
            _ => before,
        }
    }
}

/// The attachments among `parts`, in order.
pub open spec fn files_in(parts: Seq<PartView>) -> Seq<AttachmentView>
    decreases parts.len(),
{
    if parts.len() == 0 {
        Seq::empty()
    } else {
        let before = files_in(parts.drop_last());
        match parts.last() {
            PartView::File(a) => before.push(a),
            _ => before,
        }
    }
}

/// The decoded content of a message.
pub struct ContentView {
    pub text: Option<Seq<char>>,
    pub html: Option<Seq<char>>,
    pub attachments: Option<Seq<AttachmentView>>,
}

/// The delimiter between the parts of a multipart body: two hyphens and the
/// `boundary=` parameter of the `Content-Type` header of `headers`; `None`
/// where that header has no such parameter.
pub open spec fn delimiter(headers: Seq<char>) -> Option<Seq<char>> {
    match parameter(header_value(headers, "content-type"@), "boundary="@) {
        Some(boundary) => Some("--"@ + boundary),
        None => None,
    }
}

/// The parts of `body` between the occurrences of `delim`.
pub open spec fn parts_of(body: Seq<char>, delim: Seq<char>) -> Seq<PartView> {
    let segments = split_on(body, delim);
    Seq::new(segments.len(), |i: int| part_of(segments[i]))
}

/// The content of the given parts: the texts joined by a blank line, the
/// HTML parts joined by `<br><br>`, and the attachments; each is `None`
/// where there is no such part.
pub open spec fn content_from(parts: Seq<PartView>) -> ContentView {
    let texts = texts_in(parts);
    let htmls = htmls_in(parts);
    let files = files_in(parts);
    ContentView {
        text: if texts.len() == 0 {
            None
        } else {
            Some(joined(texts, "\n\n"@))
        },
        html: if htmls.len() == 0 {
            None
        } else {
            Some(joined(htmls, "<br><br>"@))
        },
        attachments: if files.len() == 0 {
            None
        } else {
            Some(files)
        },
    }
}

/// The content of a multipart message with the given body and header
/// block. Without a boundary the whole body is one plain text.
pub open spec fn multipart_content(body: Seq<char>, headers: Seq<char>) -> ContentView {
    match delimiter(headers) {
        None => ContentView { text: Some(body), html: None, attachments: None },
        Some(delim) => content_from(parts_of(body, delim)),
    }
}

/// The content of the raw message `raw`. A message without a blank line
/// is one plain text; one whose content type begins with `multipart/` is
/// taken apart; any other is decoded as a whole and its octets read as
/// text, as HTML if its content type says `text/html`, else as plain text.
pub open spec fn content_of(raw: Seq<char>) -> ContentView {
    match headers_and_body(raw) {
        None => ContentView { text: Some(raw), html: None, attachments: None },
        Some((headers, body)) => {
            let content_type = lowered(header_value(headers, "content-type"@));
            if starts_with(content_type, "multipart/"@) {
                multipart_content(body, headers)
            } else if contains(content_type, "text/html"@) {
                ContentView {
                    text: None,
                    html: Some(text_of(decoded_body(body, headers))),
                    attachments: None,
                }
            } else {
                ContentView {
                    text: Some(text_of(decoded_body(body, headers))),
                    html: None,
                    attachments: None,
                }
            }
        },
    }
}

/// The views of the attachments in `v`.
pub open spec fn attachment_views(v: Seq<Attachment>) -> Seq<AttachmentView> {
    Seq::new(v.len(), |i: int| v[i]@)
}

/// What a decoded message holds, as plain texts.
pub open spec fn content_view(
    r: (Option<String>, Option<String>, Option<Vec<Attachment>>),
) -> ContentView {
    ContentView {
        text: match r.0 {
            Some(t) => Some(t@),
            None => None,
        },
        html: match r.1 {
            Some(t) => Some(t@),
            None => None,
        },
        attachments: match r.2 {
            Some(a) => Some(attachment_views(a@)),
            None => None,
        },
    }
}

/// Classifies a part by its headers.
pub fn classify_part(headers: &Vec<char>) -> (r: PartKind)
    ensures
        r@ == part_kind(headers@),
{
    let written = header_chars(headers, "content-type");
    let content_type = to_lower(&written);
    let disposition = to_lower(&header_chars(headers, "content-disposition"));
    let is_html = includes(&content_type, &chars_of("text/html"));
    let attached = includes(&disposition, &chars_of("attachment")) || includes(
        &content_type,
        &chars_of("name="),
    ) || (!includes(&content_type, &chars_of("text/plain")) && !is_html);
    if attached {
        match filename_chars(headers, &written) {
            Some(filename) => PartKind::File { filename, content_type: written },
            None => PartKind::Dropped,
        }
    } else if is_html {
        PartKind::Html
    } else {
        PartKind::Text
    }
}

/// Builds the part of the given kind from what is kept of its content:
/// its text, or for an attachment its octets in base64.
pub fn assemble_part(kind: PartKind, content: String) -> (r: Part)
    ensures
        r@ == part_with(kind@, content@),
{
    match kind {
        PartKind::Dropped => Part::Skipped,
        PartKind::Text => Part::Text(chars_of(content.as_str())),
        PartKind::Html => Part::Html(chars_of(content.as_str())),
        PartKind::File { filename, content_type } => Part::File(
            Attachment {
                filename: string_of(&filename),
                content,
                content_type: Some(string_of(&content_type)),
            },
        ),
    }
}

/// Decodes one segment of a multipart body.
pub fn decode_part(segment: &Vec<char>) -> (r: Part)
    ensures
        r@ == part_of(segment@),
{
    let part = trim(segment);
    if part.len() == 0 || same(&part, &chars_of("--")) {
        return Part::Skipped;
    }
    match split_chars(&part) {
        None => Part::Skipped,
        Some((headers, body)) => {
            let kind = classify_part(&headers);
            let octets = decode_chars(&body, &headers);
            let content = match kind {
                PartKind::File { .. } => base64_encode(&octets),
                _ => octets_to_text(&octets),
            };
            assemble_part(kind, content)
        },
    }
}

/// The delimiter that the headers of a multipart message declare.
pub(crate) fn find_delimiter(headers: &Vec<char>) -> (r: Option<Vec<char>>)
    ensures
        match r {
            Some(d) => delimiter(headers@) == Some(d@) && d.len() > 0,
            None => delimiter(headers@) is None,
        },
{
    match parameter_chars(&header_chars(headers, "content-type"), "boundary=") {
        Some(boundary) => {
            let mut delim = chars_of("--");
            proof {
                reveal_strlit("--");
            }
            append(&mut delim, &boundary);
            Some(delim)
        },
        None => None,
    }
}

/// Sorts a decoded part into the list that it belongs to.
fn sort_part(
    part: Part,
    texts: &mut Vec<Vec<char>>,
    htmls: &mut Vec<Vec<char>>,
    files: &mut Vec<Attachment>,
    Ghost(before): Ghost<Seq<PartView>>,
)
    requires
        views(old(texts)@) == texts_in(before),
        views(old(htmls)@) == htmls_in(before),
        attachment_views(old(files)@) == files_in(before),
    ensures
        views(final(texts)@) == texts_in(before.push(part@)),
        views(final(htmls)@) == htmls_in(before.push(part@)),
        attachment_views(final(files)@) == files_in(before.push(part@)),
{
    proof {
        assert(before.push(part@).drop_last() =~= before);
    }
    match part {
        Part::Skipped => {},
        Part::Text(t) => {
            assert(views(texts@.push(t)) =~= views(texts@).push(t@));
            texts.push(t);
        },
        Part::Html(t) => {
            assert(views(htmls@.push(t)) =~= views(htmls@).push(t@));
            htmls.push(t);
        },
        Part::File(a) => {
            assert(attachment_views(files@.push(a)) =~= attachment_views(files@).push(a@));
            files.push(a);
        },
    }
}

/// The content of a multipart message with this body and header block.
pub(crate) fn multipart_chars(body: &Vec<char>, headers: &Vec<char>) -> (r: (
    Option<String>,
    Option<String>,
    Option<Vec<Attachment>>,
))
    ensures
        content_view(r) == multipart_content(body@, headers@),
{
    match find_delimiter(headers) {
        None => (Some(string_of(body)), None, None),
        Some(delim) => {
            let segments = split(body, &delim);
            let ghost all = parts_of(body@, delim@);
            let mut texts: Vec<Vec<char>> = Vec::new();
            let mut htmls: Vec<Vec<char>> = Vec::new();
            let mut files: Vec<Attachment> = Vec::new();
            assert(all.take(0) =~= Seq::<PartView>::empty());
            assert(views(texts@) =~= Seq::<Seq<char>>::empty());
            assert(views(htmls@) =~= Seq::<Seq<char>>::empty());
            assert(attachment_views(files@) =~= Seq::<AttachmentView>::empty());
            let mut i: usize = 0;
            while i < segments.len()
                invariant
                    i <= segments.len(),
                    all == parts_of(body@, delim@),
                    views(segments@) == split_on(body@, delim@),
                    views(texts@) == texts_in(all.take(i as int)),
                    views(htmls@) == htmls_in(all.take(i as int)),
                    attachment_views(files@) == files_in(all.take(i as int)),
                decreases segments.len() - i,
            {
                let part = decode_part(&segments[i]);
                proof {
                    assert(views(segments@)[i as int] == segments@[i as int]@);
                    assert(all.take(i + 1) =~= all.take(i as int).push(part@));
                }
                sort_part(part, &mut texts, &mut htmls, &mut files, Ghost(all.take(i as int)));
                i += 1;
            }
            assert(all.take(i as int) =~= all);
            let text = if texts.len() == 0 {
                None
            } else {
                Some(string_of(&join(&texts, &chars_of("\n\n"))))
            };
            let html = if htmls.len() == 0 {
                None
            } else {
                Some(string_of(&join(&htmls, &chars_of("<br><br>"))))
            };
            let attachments = if files.len() == 0 {
                None
            } else {
                Some(files)
            };
            (text, html, attachments)
        },
    }
}

/// Takes a multipart body apart.
pub fn parse_multipart(body: &str, headers: &str) -> (r: (
    Option<String>,
    Option<String>,
    Option<Vec<Attachment>>,
))
    ensures
        content_view(r) == multipart_content(body@, headers@),
{
    multipart_chars(&chars_of(body), &chars_of(headers))
}

/// Decodes a raw message into its text, its HTML and its attachments.
pub fn parse_email(raw_data: &str) -> (r: (Option<String>, Option<String>, Option<Vec<Attachment>>))
    ensures
        content_view(r) == content_of(raw_data@),
{
    let raw = chars_of(raw_data);
    match split_chars(&raw) {
        None => (Some(string_of(&raw)), None, None),
        Some((headers, body)) => {
            let content_type = to_lower(&header_chars(&headers, "content-type"));
            if has_prefix(&content_type, &chars_of("multipart/")) {
                multipart_chars(&body, &headers)
            } else {
                let decoded = octets_to_text(&decode_chars(&body, &headers));
                if includes(&content_type, &chars_of("text/html")) {
                    (None, Some(decoded), None)
                } else {
                    (Some(decoded), None, None)
                }
            }
        },
    }
}

/// The octets of a text are read as that text.
pub proof fn lemma_text_of_octets(text: Seq<char>)
    ensures
        text_of(encode_utf8(text)) == text,
{
    vstd::utf8::encode_utf8_valid_utf8(text);
    vstd::utf8::encode_utf8_decode_utf8(text);
}

/// The octets of two texts in a row are the octets of the one, then those
/// of the other.
pub proof fn lemma_octets_concat(a: Seq<char>, b: Seq<char>)
    ensures
        encode_utf8(a + b) == encode_utf8(a) + encode_utf8(b),
    decreases a.len(),
{
    if a.len() == 0 {
        assert(a + b =~= b);
        assert(encode_utf8(a) + encode_utf8(b) =~= encode_utf8(b));
    } else {
        assert((a + b).drop_first() =~= a.drop_first() + b);
        lemma_octets_concat(a.drop_first(), b);
        let first = vstd::utf8::encode_scalar(a[0] as u32);
        assert(first + (encode_utf8(a.drop_first()) + encode_utf8(b)) =~= (first + encode_utf8(
            a.drop_first(),
        )) + encode_utf8(b));
    }
}

/// A body that is declared base64 and is not base64 comes back as it
/// was: nothing is lost and nothing is cut off.
pub proof fn law_invalid_base64_unchanged(body: Seq<char>, headers: Seq<char>)
    requires
        lowered(header_value(headers, "content-transfer-encoding"@)) == "base64"@,
        base64_decoded(without_breaks(body)) is None,
    ensures
        decoded_body(body, headers) == encode_utf8(body),
        text_of(decoded_body(body, headers)) == body,
{
    reveal_strlit("base64");
    reveal_strlit("quoted-printable");
    assert("base64"@.len() != "quoted-printable"@.len());
    lemma_text_of_octets(body);
}

/// A body under any transfer encoding but quoted-printable and base64, or
/// under none, is read as the text that it is.
pub proof fn law_unencoded_body_unchanged(body: Seq<char>, headers: Seq<char>)
    requires
        lowered(header_value(headers, "content-transfer-encoding"@)) != "quoted-printable"@,
        lowered(header_value(headers, "content-transfer-encoding"@)) != "base64"@,
    ensures
        text_of(decoded_body(body, headers)) == body,
{
    lemma_text_of_octets(body);
}

/// The octets of a base64 attachment come back as they were encoded:
/// what is kept of them is their base64 text again.
pub proof fn law_binary_content_survives(
    body: Seq<char>,
    headers: Seq<char>,
    kind: PartKindView,
    octets: Seq<u8>,
)
    requires
        lowered(header_value(headers, "content-transfer-encoding"@)) == "base64"@,
        base64_decoded(without_breaks(body)) == Some(octets),
        kind is File,
    ensures
        part_content(kind, decoded_body(body, headers)) == base64_encoded(octets),
{
    reveal_strlit("base64");
    reveal_strlit("quoted-printable");
    assert("base64"@.len() != "quoted-printable"@.len());
}

/// A multipart message whose content type declares no boundary decodes to
/// its whole body as plain text, without HTML and without attachments.
pub proof fn law_missing_boundary(raw: Seq<char>, headers: Seq<char>, body: Seq<char>)
    requires
        headers_and_body(raw) == Some((headers, body)),
        starts_with(lowered(header_value(headers, "content-type"@)), "multipart/"@),
        after_marker(header_value(headers, "content-type"@), "boundary="@) is None,
    ensures
        content_of(raw) == (ContentView { text: Some(body), html: None, attachments: None }),
{
}

/// The file name that a `name=` parameter gives is cut from the content
/// type as written, whatever the case of `name=` and of the name.
pub proof fn law_file_name_as_written(headers: Seq<char>, content_type: Seq<char>, k: int)
    requires
        parameter(header_value(headers, "content-disposition"@), "filename="@) is None,
        find(lowered(content_type), "name="@) == Some(k),
        find_from(lowered(content_type), "name="@, k + 5) is None,
    ensures
        filename_of(headers, content_type) == Some(
            unquoted(content_type.subrange(k + 5, content_type.len() as int)),
        ),
{
    reveal_strlit("name=");
}

/// Decoding from a position on depends only on what stands from there on.
pub proof fn lemma_qp_suffix(before: Seq<char>, rest: Seq<char>, i: int)
    requires
        0 <= i <= rest.len(),
    ensures
        qp_scan(before + rest, before.len() + i) == qp_scan(rest, i),
    decreases rest.len() - i,
{
    let s = before + rest;
    let k = before.len() as int;
    assert(forall|j: int| 0 <= j < rest.len() ==> s[k + j] == rest[j]);
    if i < rest.len() {
        if rest[i] != '=' {
            lemma_qp_suffix(before, rest, i + 1);
        } else if i + 2 < rest.len() && rest[i + 1] == '\r' && rest[i + 2] == '\n' {
            lemma_qp_suffix(before, rest, i + 3);
        } else if i + 1 < rest.len() && rest[i + 1] == '\n' {
            lemma_qp_suffix(before, rest, i + 2);
        } else if i + 2 < rest.len() && hex_digit(rest[i + 1]) is Some && hex_digit(rest[i + 2])
            is Some {
            lemma_qp_suffix(before, rest, i + 3);
        } else if i + 3 <= rest.len() {
            lemma_qp_suffix(before, rest, i + 3);
            assert(s.subrange(k + i, k + i + 3) =~= rest.subrange(i, i + 3));
        } else {
            assert(s.subrange(k + i, s.len() as int) =~= rest.subrange(i, rest.len() as int));
        }
    }
}

/// A run of characters without `=` is copied as its octets.
pub proof fn lemma_qp_run(s: Seq<char>, i: int, j: int)
    requires
        0 <= i <= j <= s.len(),
        forall|k: int| i <= k < j ==> s[k] != '=',
    ensures
        qp_scan(s, i) == encode_utf8(s.subrange(i, j)) + qp_scan(s, j),
    decreases j - i,
{
    if i < j {
        lemma_qp_run(s, i + 1, j);
        lemma_octets_concat(seq![s[i]], s.subrange(i + 1, j));
        assert(seq![s[i]] + s.subrange(i + 1, j) =~= s.subrange(i, j));
        assert(encode_utf8(seq![s[i]]) + (encode_utf8(s.subrange(i + 1, j)) + qp_scan(s, j))
            =~= (encode_utf8(seq![s[i]]) + encode_utf8(s.subrange(i + 1, j))) + qp_scan(s, j));
    } else {
        assert(s.subrange(i, j) =~= Seq::<char>::empty());
        assert(encode_utf8(s.subrange(i, j)) + qp_scan(s, j) =~= qp_scan(s, j));
    }
}

/// After text without `=`, an `=` with two hexadecimal digits becomes the
/// one octet that they write, and decoding goes on behind it.
pub proof fn law_qp_octet(plain: Seq<char>, hi: char, lo: char, rest: Seq<char>)
    requires
        forall|j: int| 0 <= j < plain.len() ==> plain[j] != '=',
        hex_digit(hi) is Some,
        hex_digit(lo) is Some,
    ensures
        qp_octets(plain + seq!['=', hi, lo] + rest) == encode_utf8(plain) + seq![octet(hi, lo)]
            + qp_octets(rest),
{
    let token = seq!['=', hi, lo];
    let tail = token + rest;
    let s = plain + tail;
    assert(plain + token + rest =~= s);
    assert forall|k: int| 0 <= k < plain.len() implies s[k] != '=' by {
        assert(s[k] == plain[k]);
    }
    lemma_qp_run(s, 0, plain.len() as int);
    assert(s.subrange(0, plain.len() as int) =~= plain);
    lemma_qp_suffix(plain, tail, 0);
    lemma_qp_suffix(token, rest, 0);
    assert(tail[0] == '=' && tail[1] == hi && tail[2] == lo);
    assert(encode_utf8(plain) + (seq![octet(hi, lo)] + qp_scan(rest, 0)) =~= encode_utf8(plain)
        + seq![octet(hi, lo)] + qp_scan(rest, 0));
}

/// After text without `=`, an `=` before CRLF or before LF is a soft line
/// break: it leaves nothing, and decoding goes on behind it.
pub proof fn law_qp_soft_break(plain: Seq<char>, rest: Seq<char>)
    requires
        forall|j: int| 0 <= j < plain.len() ==> plain[j] != '=',
    ensures
        qp_octets(plain + seq!['=', '\r', '\n'] + rest) == encode_utf8(plain) + qp_octets(rest),
        qp_octets(plain + seq!['=', '\n'] + rest) == encode_utf8(plain) + qp_octets(rest),
{
    {
        let token = seq!['=', '\r', '\n'];
        let tail = token + rest;
        let s = plain + tail;
        assert(plain + token + rest =~= s);
        assert forall|k: int| 0 <= k < plain.len() implies s[k] != '=' by {
            assert(s[k] == plain[k]);
        }
        lemma_qp_run(s, 0, plain.len() as int);
        assert(s.subrange(0, plain.len() as int) =~= plain);
        lemma_qp_suffix(plain, tail, 0);
        lemma_qp_suffix(token, rest, 0);
        assert(tail[0] == '=' && tail[1] == '\r' && tail[2] == '\n');
    }
    {
        let token = seq!['=', '\n'];
        let tail = token + rest;
        let s = plain + tail;
        assert(plain + token + rest =~= s);
        assert forall|k: int| 0 <= k < plain.len() implies s[k] != '=' by {
            assert(s[k] == plain[k]);
        }
        lemma_qp_run(s, 0, plain.len() as int);
        assert(s.subrange(0, plain.len() as int) =~= plain);
        lemma_qp_suffix(plain, tail, 0);
        lemma_qp_suffix(token, rest, 0);
        assert(tail[0] == '=' && tail[1] == '\n');
    }
}

/// Quoted-printable text that stands for the octets of a text decodes to
/// that text.
pub proof fn law_qp_text(input: Seq<char>, text: Seq<char>)
    requires
        qp_octets(input) == encode_utf8(text),
    ensures
        text_of(qp_octets(input)) == text,
{
    lemma_text_of_octets(text);
}

/// The two octets `C3 A9`, each written as `=XX`, are the one character
/// U+00E9: after any text without `=`, `=C3=A9` decodes to that text and
/// an e with acute accent, so `Caf=C3=A9` to `Caf` and that character.
pub proof fn law_qp_two_octets_one_character(plain: Seq<char>)
    requires
        forall|j: int| 0 <= j < plain.len() ==> plain[j] != '=',
    ensures
        qp_octets(plain + seq!['=', 'C', '3', '=', 'A', '9']) == encode_utf8(
            plain + seq!['\u{e9}'],
        ),
        text_of(qp_octets(plain + seq!['=', 'C', '3', '=', 'A', '9'])) == plain + seq!['\u{e9}'],
{
    let input = plain + seq!['=', 'C', '3', '=', 'A', '9'];
    let second = seq!['=', 'A', '9'];
    let none = Seq::<char>::empty();
    assert(input =~= plain + seq!['=', 'C', '3'] + second);
    law_qp_octet(plain, 'C', '3', second);
    assert(second =~= none + seq!['=', 'A', '9'] + none);
    law_qp_octet(none, 'A', '9', none);
    assert(encode_utf8(none) =~= Seq::<u8>::empty());
    assert(qp_octets(none) =~= Seq::<u8>::empty());
    assert(octet('C', '3') == 0xC3u8);
    assert(octet('A', '9') == 0xA9u8);
    assert(qp_octets(input) =~= encode_utf8(plain) + seq![0xC3u8, 0xA9u8]);
    let e: u32 = 0xE9;
    assert(0xC0u8 | ((e >> 6) & 0x1F) as u8 == 0xC3u8) by (bit_vector)
        requires
            e == 0xE9u32,
    ;
    assert(0x80u8 | (e & 0x3F) as u8 == 0xA9u8) by (bit_vector)
        requires
            e == 0xE9u32,
    ;
    assert('\u{e9}' as u32 == e);
    assert(seq!['\u{e9}'].drop_first() =~= Seq::<char>::empty());
    assert(encode_utf8(seq!['\u{e9}']) =~= seq![0xC3u8, 0xA9u8]);
    lemma_octets_concat(plain, seq!['\u{e9}']);
    law_qp_text(input, plain + seq!['\u{e9}']);
}

} // verus!
