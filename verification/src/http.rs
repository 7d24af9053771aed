//! The heads of requests and responses, as far as a transfer needs HTTP.

use crate::crypto::CRYPTO_MODE;
use crate::digits;
use crate::encoding;
use crate::names;
use crate::text;
use crate::text::Trim;
use vstd::hash_map::StringHashMap;
use vstd::prelude::*;
use vstd::utf8::*;

verus! {

/// The name and version of the transfer protocol.
pub const PROTOCOL: &'static str = "file-sharer.v2";

/// The name and the value in a header line: what stands before and behind the first colon,
/// without white space at the ends, and the name in lower case.
pub open spec fn header_of(line: Seq<char>) -> Option<(Seq<char>, Seq<char>)> {
    let colon = text::find_from(line, ':', 0);
    if colon < line.len() {
        Some(
            (
                text::lowered(text::trimmed(line.take(colon), Trim::White)),
                text::trimmed(line.skip(colon + 1), Trim::White),
            ),
        )
    } else {
        None
    }
}

/// Whether a line ends a head: an empty one, or the end of the input, where there is no line.
pub open spec fn ends_head(line: Seq<char>) -> bool {
    line.len() == 0 || line == "\r\n"@ || line == "\n"@
}

/// What has been read of the head of a request.
#[verifier::ext_equal]
pub struct HeadView {
    pub request_line: Option<Seq<char>>,
    pub headers: Map<Seq<char>, Seq<char>>,
    pub complete: bool,
}

/// The head of which nothing has been read.
pub open spec fn empty_head() -> HeadView {
    HeadView { request_line: None, headers: Map::empty(), complete: false }
}

/// A head after another line of it, the line end included. The first line is the request line;
/// then come headers, of which a later one of the same name counts, up to the line that ends the
/// head.
pub open spec fn after_line(head: HeadView, line: Seq<char>) -> HeadView {
    match head.request_line {
        None => HeadView {
            request_line: Some(text::trimmed_end(line, Trim::White)),
            headers: head.headers,
            complete: head.complete,
        },
        Some(_) => if head.complete {
            head
        } else if ends_head(line) {
            HeadView {
                request_line: head.request_line,
                headers: head.headers,
                complete: true,
            }
        } else {
            match header_of(line) {
                Some((name, value)) => HeadView {
                    request_line: head.request_line,
                    headers: head.headers.insert(name, value),
                    complete: false,
                },
                None => head,
            }
        },
    }
}

/// A head after the lines of a text, each of which ends behind a line feed.
#[verifier::opaque]
pub open spec fn after_text(head: HeadView, input: Seq<char>) -> HeadView
    decreases input.len(),
{
    let end = text::find_from(input, '\n', 0);
    if input.len() == 0 {
        head
    } else if end < 0 || end >= input.len() {
        after_line(head, input)
    } else {
        after_text(after_line(head, input.take(end + 1)), input.skip(end + 1))
    }
}

/// The headers of a head by their texts.
pub open spec fn header_texts(headers: Map<Seq<char>, String>) -> Map<Seq<char>, Seq<char>> {
    headers.map_values(|value: String| value@)
}

/// The value of a header, if there is one of that name, in lower case.
pub open spec fn header_in(headers: Map<Seq<char>, Seq<char>>, name: Seq<char>) -> Option<
    Seq<char>,
> {
    if headers.contains_key(name) {
        Some(headers[name])
    } else {
        None
    }
}

/// An optional text by its view.
pub open spec fn optional_view(value: Option<String>) -> Option<Seq<char>> {
    match value {
        Some(string) => Some(string@),
        None => None,
    }
}

/// The value of a header, if there is one of that name, in lower case.
pub fn header_value(headers: &StringHashMap<String>, name: &str) -> (value: Option<String>)
    ensures
        optional_view(value) == header_in(header_texts(headers@), name@),
{
    match headers.get(name) {
        Some(value) => Some(value.clone()),
        None => None,
    }
}

/// The head of a request, read line by line.
pub struct RequestHead {
    request_line: Option<String>,
    headers: StringHashMap<String>,
    complete: bool,
}

impl View for RequestHead {
    type V = HeadView;

    closed spec fn view(&self) -> HeadView {
        HeadView {
            request_line: optional_view(self.request_line),
            headers: header_texts(self.headers@),
            complete: self.complete,
        }
    }
}

impl RequestHead {
    /// A head of which nothing has been read.
    pub fn new() -> (head: RequestHead)
        ensures
            head@ == empty_head(),
    {
        let head = RequestHead {
            request_line: None,
            headers: StringHashMap::new(),
            complete: false,
        };
        assert(head@.headers =~= Map::<Seq<char>, Seq<char>>::empty());
        head
    }

    /// Reads the next line, with its line end; an empty one stands for the end of the input.
    pub fn read_line(&mut self, line: &str)
        ensures
            final(self)@ == after_line(old(self)@, line@),
    {
        if self.request_line.is_none() {
            self.request_line = Some(text::trim_white_end(line));
            return ;
        }
        if self.complete {
            return ;
        }
        let chars = text::chars_of(line);
        if chars.len() == 0 || text::same_text(line, "\r\n") || text::same_text(line, "\n") {
            self.complete = true;
            return ;
        }
        let colon: usize = text::find(&chars, ':');
        if colon < chars.len() {
            let ghost before = header_texts(self.headers@);
            let name = text::text_of(&chars, 0, colon);
            let value = text::text_of(&chars, colon + 1, chars.len());
            proof {
                assert(chars@.subrange(0, colon as int) =~= line@.take(colon as int));
                assert(chars@.subrange(colon + 1, chars@.len() as int) =~= line@.skip(colon + 1));
            }
            let key = text::ascii_lowercase(text::trim_white(name.as_str()).as_str());
            let held = text::trim_white(value.as_str());
            let ghost key_text = key@;
            let ghost held_text = held@;
            self.headers.insert(key, held);
            assert(header_texts(self.headers@) =~= before.insert(key_text, held_text));
        }
    }

    /// Whether the line that ends the head has been read.
    pub fn is_complete(&self) -> (yes: bool)
        ensures
            yes == self@.complete,
    {
        self.complete
    }

    /// Whether the request line begins with a text.
    pub fn asks(&self, start: &str) -> (yes: bool)
        ensures
            yes == asks_for(self@, start@),
    {
        match &self.request_line {
            Some(line) => text::begins_with(line.as_str(), start),
            None => text::same_text("", start),
        }
    }

    /// The value of a header, if there is one of that name, in lower case.
    pub fn header(&self, name: &str) -> (value: Option<String>)
        ensures
            optional_view(value) == header_in(self@.headers, name@),
    {
        header_value(&self.headers, name)
    }
}

/// Whether the request line of a head begins with a text; one that was not read is empty.
pub open spec fn asks_for(head: HeadView, start: Seq<char>) -> bool {
    match head.request_line {
        Some(line) => start.is_prefix_of(line),
        None => start == ""@,
    }
}

/// A response: its status, the words for it, and the body.
pub struct Response {
    pub status: u16,
    pub reason: String,
    pub body: String,
}

/// A response by its texts.
pub struct ResponseView {
    pub status: u16,
    pub reason: Seq<char>,
    pub body: Seq<char>,
}

impl View for Response {
    type V = ResponseView;

    open spec fn view(&self) -> ResponseView {
        ResponseView { status: self.status, reason: self.reason@, body: self.body@ }
    }
}

/// The headers that every response has, up to the length of its body.
pub const RESPONSE_HEADERS: &'static str =
    "\r\nAccess-Control-Allow-Origin: *\r\nAccess-Control-Allow-Methods: POST, OPTIONS\r\nAccess-Control-Allow-Headers: Content-Type, X-File-Sharer-Protocol, X-Sender-Id, X-Sender-Name, X-File-Name, X-Transfer-Id, X-Crypto-Mode, X-Crypto-Sender-Public, X-Crypto-Nonce, X-Crypto-Mac\r\nContent-Type: application/json; charset=utf-8\r\nContent-Length: ";

/// The text of a response: the status line, headers that let a web page of any origin ask, the
/// length of the body in bytes, and the body.
pub open spec fn response_text(response: ResponseView) -> Seq<char> {
    "HTTP/1.1 "@ + digits::decimal(response.status as nat) + " "@ + response.reason
        + RESPONSE_HEADERS@ + digits::decimal(encode_utf8(response.body).len())
        + "\r\nConnection: close\r\n\r\n"@ + response.body
}

impl Response {
    /// A response of a status, the words for it, and a body.
    pub fn new(status: u16, reason: &str, body: &str) -> (response: Response)
        ensures
            response@ == (ResponseView { status, reason: reason@, body: body@ }),
    {
        Response { status, reason: reason.to_string(), body: body.to_string() }
    }

    /// The text of the response.
    pub fn text(&self) -> (out: String)
        ensures
            out@ == response_text(self@),
    {
        let mut out = "HTTP/1.1 ".to_string();
        digits::push_decimal(&mut out, self.status as u64);
        out.append(" ");
        out.append(self.reason.as_str());
        out.append(RESPONSE_HEADERS);
        digits::push_decimal(&mut out, self.body.as_str().as_bytes().len() as u64);
        out.append("\r\nConnection: close\r\n\r\n");
        out.append(self.body.as_str());
        out
    }
}

/// The body that tells of an error.
pub open spec fn error_body(error: Seq<char>) -> Seq<char> {
    "{\"ok\":false,\"error\":\""@ + names::json_text(error) + "\"}"@
}

/// The body that tells of an error.
pub fn error_body_text(error: &str) -> (body: String)
    ensures
        body@ == error_body(error@),
{
    let mut body = "{\"ok\":false,\"error\":\"".to_string();
    body.append(names::json_escape(error).as_str());
    body.append("\"}");
    body
}

/// The first line of a text, without its line end, or nothing if the text is empty.
pub open spec fn first_line(input: Seq<char>) -> Option<Seq<char>> {
    let end = text::find_from(input, '\n', 0);
    if input.len() == 0 {
        None
    } else if end < input.len() && end > 0 && input[end - 1] == '\r' {
        Some(input.take(end - 1))
    } else {
        Some(input.take(end))
    }
}

/// What a sender makes of the answer to an upload: an error, unless the status is 200.
pub open spec fn refusal(response: Seq<char>) -> Option<Seq<char>> {
    if "HTTP/1.1 200"@.is_prefix_of(response) {
        None
    } else {
        Some(
            "接收端拒绝："@ + match first_line(response) {
                Some(line) => line,
                None => "无响应"@,
            },
        )
    }
}

/// What a sender makes of the answer to an upload: an error, unless the status is 200.
pub fn upload_refusal(response: &str) -> (error: Option<String>)
    ensures
        optional_view(error) == refusal(response@),
{
    if text::begins_with(response, "HTTP/1.1 200") {
        return None;
    }
    let chars = text::chars_of(response);
    if chars.len() == 0 {
        return Some(text::concat("接收端拒绝：", "无响应"));
    }
    let mut end: usize = text::find(&chars, '\n');
    assert(chars@.subrange(0, end as int) =~= response@.take(end as int));
    if end < chars.len() && end > 0 && chars[end - 1] == '\r' {
        end = end - 1;
        assert(chars@.subrange(0, end as int) =~= response@.take(end as int));
    }
    let line = text::text_of(&chars, 0, end);
    Some(text::concat("接收端拒绝：", line.as_str()))
}

/// What the head of an upload tells of it.
#[verifier::ext_equal]
pub struct UploadView {
    pub address: Seq<char>,
    pub length: u64,
    pub sender_id: Seq<char>,
    pub sender_name: Seq<char>,
    pub file_name: Seq<char>,
    pub transfer_id: Seq<char>,
    pub sender_public: Seq<char>,
    pub nonce: Seq<char>,
    pub mac: Seq<char>,
}

/// What the head of an upload tells of it: the receiver's address, the length of the file, who
/// sends it, its name, the transfer's name, and what the receiver needs to decrypt and check it.
pub struct UploadHead {
    pub address: String,
    pub length: u64,
    pub sender_id: String,
    pub sender_name: String,
    pub file_name: String,
    pub transfer_id: String,
    pub sender_public: String,
    pub nonce: String,
    pub mac: String,
}

impl View for UploadHead {
    type V = UploadView;

    open spec fn view(&self) -> UploadView {
        UploadView {
            address: self.address@,
            length: self.length,
            sender_id: self.sender_id@,
            sender_name: self.sender_name@,
            file_name: self.file_name@,
            transfer_id: self.transfer_id@,
            sender_public: self.sender_public@,
            nonce: self.nonce@,
            mac: self.mac@,
        }
    }
}

/// A header line.
pub open spec fn header_line(name: Seq<char>, value: Seq<char>) -> Seq<char> {
    name + ": "@ + value + "\r\n"@
}

/// A text as it travels in a header.
pub open spec fn percent(value: Seq<char>) -> Seq<char> {
    names::percent_text(encode_utf8(value))
}

/// The text of the head of an upload.
pub open spec fn upload_text(head: UploadView) -> Seq<char> {
    "POST /upload HTTP/1.1\r\n"@ + header_line("Host"@, head.address) + header_line(
        "Content-Length"@,
        digits::decimal(head.length as nat),
    ) + header_line("X-File-Sharer-Protocol"@, PROTOCOL@) + header_line(
        "X-Sender-Id"@,
        head.sender_id,
    ) + header_line("X-Sender-Name"@, percent(head.sender_name)) + header_line(
        "X-File-Name"@,
        percent(head.file_name),
    ) + header_line("X-Transfer-Id"@, percent(head.transfer_id)) + header_line(
        "X-Crypto-Mode"@,
        CRYPTO_MODE@,
    ) + header_line("X-Crypto-Sender-Public"@, head.sender_public) + header_line(
        "X-Crypto-Nonce"@,
        head.nonce,
    ) + header_line("X-Crypto-Mac"@, head.mac) + header_line("Connection"@, "close"@) + "\r\n"@
}

/// Appends a header line.
fn push_header(out: &mut String, name: &str, value: &str)
    ensures
        final(out)@ == old(out)@ + header_line(name@, value@),
{
    out.append(name);
    out.append(": ");
    out.append(value);
    out.append("\r\n");
    assert(out@ =~= old(out)@ + header_line(name@, value@));
}

impl UploadHead {
    /// The text of the head.
    pub fn text(&self) -> (out: String)
        ensures
            out@ == upload_text(self@),
    {
        let mut out = "POST /upload HTTP/1.1\r\n".to_string();
        push_header(&mut out, "Host", self.address.as_str());
        push_header(&mut out, "Content-Length", digits::decimal_text(self.length).as_str());
        push_header(&mut out, "X-File-Sharer-Protocol", PROTOCOL);
        push_header(&mut out, "X-Sender-Id", self.sender_id.as_str());
        let sender_name = names::percent_encode(self.sender_name.as_str());
        push_header(&mut out, "X-Sender-Name", sender_name.as_str());
        let file_name = names::percent_encode(self.file_name.as_str());
        push_header(&mut out, "X-File-Name", file_name.as_str());
        let transfer_id = names::percent_encode(self.transfer_id.as_str());
        push_header(&mut out, "X-Transfer-Id", transfer_id.as_str());
        push_header(&mut out, "X-Crypto-Mode", CRYPTO_MODE);
        push_header(&mut out, "X-Crypto-Sender-Public", self.sender_public.as_str());
        push_header(&mut out, "X-Crypto-Nonce", self.nonce.as_str());
        push_header(&mut out, "X-Crypto-Mac", self.mac.as_str());
        push_header(&mut out, "Connection", "close");
        out.append("\r\n");
        out
    }
}

/// Whether a text has no line feed in it.
pub open spec fn is_one_line(value: Seq<char>) -> bool {
    forall|index: int| 0 <= index < value.len() ==> #[trigger] value[index] != '\n'
}

/// Whether a text is made of characters of which none is white space.
pub open spec fn is_solid(value: Seq<char>) -> bool {
    forall|index: int| 0 <= index < value.len() ==> !text::is_white(#[trigger] value[index])
}

/// Whether a text can be the name of a header.
spec fn is_name(name: Seq<char>) -> bool {
    name.len() > 0 && forall|index: int|
        0 <= index < name.len() ==> !text::is_white(#[trigger] name[index]) && name[index] != ':'
}

/// What a reader takes for the value of a header.
spec fn value_read(value: Seq<char>) -> Seq<char> {
    text::trimmed(" "@ + value + "\r\n"@, Trim::White)
}

/// A text of one line that stands before others is read first.
proof fn lemma_line_is_read(head: HeadView, line: Seq<char>, rest: Seq<char>)
    requires
        line.len() > 0,
        line.last() == '\n',
        is_one_line(line.drop_last()),
    ensures
        after_text(head, line + rest) == after_text(after_line(head, line), rest),
{
    reveal(after_text);
    let input = line + rest;
    let end = line.len() - 1;
    assert forall|index: int| 0 <= index < end implies input[index] != '\n' by {
        assert(input[index] == line.drop_last()[index]);
    }
    text::lemma_find_from(input, '\n', 0, end);
    assert(input.take(end + 1) =~= line);
    assert(input.skip(end + 1) =~= rest);
}

/// A header line is read as a header of its name in lower case.
proof fn lemma_header_is_read(
    head: HeadView,
    name: Seq<char>,
    low: Seq<char>,
    value: Seq<char>,
    rest: Seq<char>,
)
    requires
        head.request_line is Some,
        !head.complete,
        is_name(name),
        text::lowered(name) == low,
        is_one_line(value),
    ensures
        after_text(head, header_line(name, value) + rest) == after_text(
            HeadView {
                request_line: head.request_line,
                headers: head.headers.insert(low, value_read(value)),
                complete: false,
            },
            rest,
        ),
{
    reveal_strlit(": ");
    reveal_strlit(" ");
    reveal_strlit("\r\n");
    reveal_strlit("\n");
    let line = header_line(name, value);
    assert forall|index: int| 0 <= index < line.drop_last().len() implies #[trigger] line.drop_last()[
    index] != '\n' by {
        if index < name.len() {
            assert(line[index] == name[index]);
        } else if index < name.len() + 2 {
        } else if index < name.len() + 2 + value.len() {
            assert(line[index] == value[index - name.len() - 2]);
        }
    }
    lemma_line_is_read(head, line, rest);
    assert(line[name.len() as int] == ':');
    assert forall|index: int| 0 <= index < name.len() implies line[index] != ':' by {
        assert(line[index] == name[index]);
    }
    text::lemma_find_from(line, ':', 0, name.len() as int);
    assert(line.take(name.len() as int) =~= name);
    text::lemma_trimmed_id(name, Trim::White);
    assert(line.skip(name.len() as int + 1) =~= " "@ + value + "\r\n"@);
    assert(line.len() > 2);
}

/// A value without white space is read as it was written.
proof fn lemma_solid_value(value: Seq<char>)
    requires
        is_solid(value),
    ensures
        value_read(value) == value,
{
    reveal_strlit(" ");
    reveal_strlit("\r\n");
    let written = " "@ + value + "\r\n"@;
    assert(written.skip(1) =~= value + "\r\n"@);
    if value.len() > 0 {
        let front = value + "\r\n"@;
        assert(front[0] == value[0]);
        assert(text::trimmed_start(front, Trim::White) == front);
        assert(text::trimmed_start(written, Trim::White) == front);
        assert(front.drop_last().last() == '\r');
        assert(front.drop_last().drop_last() =~= value);
        assert(text::trimmed_end(front.drop_last(), Trim::White) == text::trimmed_end(
            value,
            Trim::White,
        ));
    } else {
        let front = value + "\r\n"@;
        assert(front.skip(1).skip(1) =~= value);
        assert(front.skip(1)[0] == '\n');
        assert(text::trimmed_start(value, Trim::White) == value);
        assert(text::trimmed_start(front.skip(1), Trim::White) == value);
        assert(text::trimmed_start(front, Trim::White) == value);
        assert(text::trimmed_start(written, Trim::White) == value);
    }
}

/// A text without white space is of one line.
proof fn lemma_solid_is_one_line(value: Seq<char>)
    requires
        is_solid(value),
    ensures
        is_one_line(value),
{
}

/// Numbers, percent-encoded texts and base64 texts have no white space.
proof fn lemma_written_values_are_solid(number: nat, name: Seq<char>, code: Seq<char>)
    ensures
        is_solid(digits::decimal(number)),
        is_solid(percent(name)),
        encoding::is_base64(code) ==> is_solid(code),
{
    digits::lemma_decimal_digits(number);
    names::lemma_percent_chars(encode_utf8(name));
    let decimal = digits::decimal(number);
    assert forall|index: int| 0 <= index < decimal.len() implies !text::is_white(
        #[trigger] decimal[index],
    ) by {
        assert(digits::is_digit(decimal[index]));
    }
    let encoded = percent(name);
    assert forall|index: int| 0 <= index < encoded.len() implies !text::is_white(
        #[trigger] encoded[index],
    ) by {
        assert(names::is_header_char(encoded[index]));
    }
    if encoding::is_base64(code) {
        assert forall|index: int| 0 <= index < code.len() implies !text::is_white(
            #[trigger] code[index],
        ) by {
            assert(encoding::is_base64_char(code[index]));
        }
    }
}

/// The name of a header, and what it is read as.
spec fn is_read_as(name: Seq<char>, low: Seq<char>) -> bool {
    is_name(name) && text::lowered(name) == low
}

/// The names of the headers of an upload, and what they are read as.
proof fn lemma_header_names()
    ensures
        is_read_as("Host"@, "host"@),
        is_read_as("Content-Length"@, "content-length"@),
        is_read_as("X-File-Sharer-Protocol"@, "x-file-sharer-protocol"@),
        is_read_as("X-Sender-Id"@, "x-sender-id"@),
        is_read_as("X-Sender-Name"@, "x-sender-name"@),
        is_read_as("X-File-Name"@, "x-file-name"@),
        is_read_as("X-Transfer-Id"@, "x-transfer-id"@),
        is_read_as("X-Crypto-Mode"@, "x-crypto-mode"@),
        is_read_as("X-Crypto-Sender-Public"@, "x-crypto-sender-public"@),
        is_read_as("X-Crypto-Nonce"@, "x-crypto-nonce"@),
        is_read_as("X-Crypto-Mac"@, "x-crypto-mac"@),
        is_read_as("Connection"@, "connection"@),
{
    reveal_strlit("Host");
    reveal_strlit("host");
    assert(text::lowered("Host"@) =~= "host"@);
    reveal_strlit("Content-Length");
    reveal_strlit("content-length");
    assert(text::lowered("Content-Length"@) =~= "content-length"@);
    reveal_strlit("X-File-Sharer-Protocol");
    reveal_strlit("x-file-sharer-protocol");
    assert(text::lowered("X-File-Sharer-Protocol"@) =~= "x-file-sharer-protocol"@);
    reveal_strlit("X-Sender-Id");
    reveal_strlit("x-sender-id");
    assert(text::lowered("X-Sender-Id"@) =~= "x-sender-id"@);
    reveal_strlit("X-Sender-Name");
    reveal_strlit("x-sender-name");
    assert(text::lowered("X-Sender-Name"@) =~= "x-sender-name"@);
    reveal_strlit("X-File-Name");
    reveal_strlit("x-file-name");
    assert(text::lowered("X-File-Name"@) =~= "x-file-name"@);
    reveal_strlit("X-Transfer-Id");
    reveal_strlit("x-transfer-id");
    assert(text::lowered("X-Transfer-Id"@) =~= "x-transfer-id"@);
    reveal_strlit("X-Crypto-Mode");
    reveal_strlit("x-crypto-mode");
    assert(text::lowered("X-Crypto-Mode"@) =~= "x-crypto-mode"@);
    reveal_strlit("X-Crypto-Sender-Public");
    reveal_strlit("x-crypto-sender-public");
    assert(text::lowered("X-Crypto-Sender-Public"@) =~= "x-crypto-sender-public"@);
    reveal_strlit("X-Crypto-Nonce");
    reveal_strlit("x-crypto-nonce");
    assert(text::lowered("X-Crypto-Nonce"@) =~= "x-crypto-nonce"@);
    reveal_strlit("X-Crypto-Mac");
    reveal_strlit("x-crypto-mac");
    assert(text::lowered("X-Crypto-Mac"@) =~= "x-crypto-mac"@);
    reveal_strlit("Connection");
    reveal_strlit("connection");
    assert(text::lowered("Connection"@) =~= "connection"@);
}

/// The names that are read differ in their lengths or in their third characters.
proof fn lemma_header_names_differ()
    ensures
        "host"@.len() == 4 && "host"@[2] == 's',
        "content-length"@.len() == 14 && "content-length"@[2] == 'n',
        "x-file-sharer-protocol"@.len() == 22 && "x-file-sharer-protocol"@[2] == 'f',
        "x-sender-id"@.len() == 11 && "x-sender-id"@[2] == 's',
        "x-sender-name"@.len() == 13 && "x-sender-name"@[2] == 's',
        "x-file-name"@.len() == 11 && "x-file-name"@[2] == 'f',
        "x-transfer-id"@.len() == 13 && "x-transfer-id"@[2] == 't',
        "x-crypto-mode"@.len() == 13 && "x-crypto-mode"@[2] == 'c',
        "x-crypto-sender-public"@.len() == 22 && "x-crypto-sender-public"@[2] == 'c',
        "x-crypto-nonce"@.len() == 14 && "x-crypto-nonce"@[2] == 'c',
        "x-crypto-mac"@.len() == 12 && "x-crypto-mac"@[2] == 'c',
        "connection"@.len() == 10 && "connection"@[2] == 'n',
{
    reveal_strlit("host");
    reveal_strlit("content-length");
    reveal_strlit("x-file-sharer-protocol");
    reveal_strlit("x-sender-id");
    reveal_strlit("x-sender-name");
    reveal_strlit("x-file-name");
    reveal_strlit("x-transfer-id");
    reveal_strlit("x-crypto-mode");
    reveal_strlit("x-crypto-sender-public");
    reveal_strlit("x-crypto-nonce");
    reveal_strlit("x-crypto-mac");
    reveal_strlit("connection");
}

/// A head with one more header.
spec fn with(head: HeadView, name: Seq<char>, value: Seq<char>) -> HeadView {
    HeadView {
        request_line: head.request_line,
        headers: head.headers.insert(name, value),
        complete: head.complete,
    }
}

/// What a receiver reads of the head of an upload.
pub open spec fn reads_as(head: HeadView, upload: UploadView) -> bool {
    &&& head.complete
    &&& head.request_line == Some("POST /upload HTTP/1.1"@)
    &&& header_in(head.headers, "content-length"@) == Some(digits::decimal(upload.length as nat))
    &&& header_in(head.headers, "x-file-sharer-protocol"@) == Some(PROTOCOL@)
    &&& header_in(head.headers, "x-sender-name"@) == Some(percent(upload.sender_name))
    &&& header_in(head.headers, "x-file-name"@) == Some(percent(upload.file_name))
    &&& header_in(head.headers, "x-transfer-id"@) == Some(percent(upload.transfer_id))
    &&& header_in(head.headers, "x-crypto-mode"@) == Some(CRYPTO_MODE@)
    &&& header_in(head.headers, "x-crypto-sender-public"@) == Some(upload.sender_public)
    &&& header_in(head.headers, "x-crypto-nonce"@) == Some(upload.nonce)
    &&& header_in(head.headers, "x-crypto-mac"@) == Some(upload.mac)
}

/// The headers of an upload, as they are read.
spec fn headers_read(upload: UploadView) -> HeadView {
    let start = HeadView {
        request_line: Some("POST /upload HTTP/1.1"@),
        headers: Map::empty(),
        complete: false,
    };
    let h1 = with(start, "host"@, value_read(upload.address));
    let h2 = with(h1, "content-length"@, digits::decimal(upload.length as nat));
    let h3 = with(h2, "x-file-sharer-protocol"@, PROTOCOL@);
    let h4 = with(h3, "x-sender-id"@, value_read(upload.sender_id));
    let h5 = with(h4, "x-sender-name"@, percent(upload.sender_name));
    let h6 = with(h5, "x-file-name"@, percent(upload.file_name));
    let h7 = with(h6, "x-transfer-id"@, percent(upload.transfer_id));
    let h8 = with(h7, "x-crypto-mode"@, CRYPTO_MODE@);
    let h9 = with(h8, "x-crypto-sender-public"@, upload.sender_public);
    let h10 = with(h9, "x-crypto-nonce"@, upload.nonce);
    let h11 = with(h10, "x-crypto-mac"@, upload.mac);
    with(h11, "connection"@, "close"@)
}

/// A header with a value without white space is read as it was written.
proof fn lemma_solid_header_is_read(
    head: HeadView,
    name: Seq<char>,
    low: Seq<char>,
    value: Seq<char>,
    rest: Seq<char>,
)
    requires
        head.request_line is Some,
        !head.complete,
        is_read_as(name, low),
        is_solid(value),
    ensures
        after_text(head, header_line(name, value) + rest) == after_text(
            with(head, low, value),
            rest,
        ),
{
    lemma_solid_is_one_line(value);
    lemma_solid_value(value);
    lemma_header_is_read(head, name, low, value, rest);
}

/// Reading the head of an upload gives its headers.
proof fn lemma_upload_is_read(upload: UploadView)
    requires
        is_one_line(upload.address),
        is_one_line(upload.sender_id),
        encoding::is_base64(upload.sender_public),
        encoding::is_base64(upload.nonce),
        encoding::is_base64(upload.mac),
    ensures
        after_text(empty_head(), upload_text(upload)) == (HeadView {
            request_line: headers_read(upload).request_line,
            headers: headers_read(upload).headers,
            complete: true,
        }),
{
    lemma_header_names();
    lemma_written_values_are_solid(upload.length as nat, upload.sender_name, upload.sender_public);
    lemma_written_values_are_solid(0, upload.file_name, upload.nonce);
    lemma_written_values_are_solid(0, upload.transfer_id, upload.mac);
    assert(is_solid(PROTOCOL@)) by {
        reveal_strlit("file-sharer.v2");
    }
    assert(is_solid(CRYPTO_MODE@)) by {
        reveal_strlit("dh-sha256-stream-v1");
    }
    assert(is_solid("close"@)) by {
        reveal_strlit("close");
    }

    let l0 = "POST /upload HTTP/1.1\r\n"@;
    let l1 = header_line("Host"@, upload.address);
    let l2 = header_line("Content-Length"@, digits::decimal(upload.length as nat));
    let l3 = header_line("X-File-Sharer-Protocol"@, PROTOCOL@);
    let l4 = header_line("X-Sender-Id"@, upload.sender_id);
    let l5 = header_line("X-Sender-Name"@, percent(upload.sender_name));
    let l6 = header_line("X-File-Name"@, percent(upload.file_name));
    let l7 = header_line("X-Transfer-Id"@, percent(upload.transfer_id));
    let l8 = header_line("X-Crypto-Mode"@, CRYPTO_MODE@);
    let l9 = header_line("X-Crypto-Sender-Public"@, upload.sender_public);
    let l10 = header_line("X-Crypto-Nonce"@, upload.nonce);
    let l11 = header_line("X-Crypto-Mac"@, upload.mac);
    let l12 = header_line("Connection"@, "close"@);
    let end = "\r\n"@;

    let p1 = l0 + l1;
    let p2 = p1 + l2;
    let p3 = p2 + l3;
    let p4 = p3 + l4;
    let p5 = p4 + l5;
    let p6 = p5 + l6;
    let p7 = p6 + l7;
    let p8 = p7 + l8;
    let p9 = p8 + l9;
    let p10 = p9 + l10;
    let p11 = p10 + l11;
    let p12 = p11 + l12;
    assert(upload_text(upload) == p12 + end);

    let r12 = l12 + end;
    let r11 = l11 + r12;
    let r10 = l10 + r11;
    let r9 = l9 + r10;
    let r8 = l8 + r9;
    let r7 = l7 + r8;
    let r6 = l6 + r7;
    let r5 = l5 + r6;
    let r4 = l4 + r5;
    let r3 = l3 + r4;
    let r2 = l2 + r3;
    let r1 = l1 + r2;
    lemma_regroup(p11, l12, end);
    lemma_regroup(p10, l11, r12);
    lemma_regroup(p9, l10, r11);
    lemma_regroup(p8, l9, r10);
    lemma_regroup(p7, l8, r9);
    lemma_regroup(p6, l7, r8);
    lemma_regroup(p5, l6, r7);
    lemma_regroup(p4, l5, r6);
    lemma_regroup(p3, l4, r5);
    lemma_regroup(p2, l3, r4);
    lemma_regroup(p1, l2, r3);
    lemma_regroup(l0, l1, r2);
    assert(upload_text(upload) == l0 + r1);

    let start = HeadView {
        request_line: Some("POST /upload HTTP/1.1"@),
        headers: Map::empty(),
        complete: false,
    };
    assert(after_text(empty_head(), l0 + r1) == after_text(start, r1)) by {
        lemma_request_line_is_read(r1);
    }
    let h1 = with(start, "host"@, value_read(upload.address));
    lemma_header_is_read(start, "Host"@, "host"@, upload.address, r2);
    let h2 = with(h1, "content-length"@, digits::decimal(upload.length as nat));
    lemma_solid_header_is_read(
        h1,
        "Content-Length"@,
        "content-length"@,
        digits::decimal(upload.length as nat),
        r3,
    );
    let h3 = with(h2, "x-file-sharer-protocol"@, PROTOCOL@);
    lemma_solid_header_is_read(
        h2,
        "X-File-Sharer-Protocol"@,
        "x-file-sharer-protocol"@,
        PROTOCOL@,
        r4,
    );
    let h4 = with(h3, "x-sender-id"@, value_read(upload.sender_id));
    lemma_header_is_read(h3, "X-Sender-Id"@, "x-sender-id"@, upload.sender_id, r5);
    let h5 = with(h4, "x-sender-name"@, percent(upload.sender_name));
    lemma_solid_header_is_read(
        h4,
        "X-Sender-Name"@,
        "x-sender-name"@,
        percent(upload.sender_name),
        r6,
    );
    let h6 = with(h5, "x-file-name"@, percent(upload.file_name));
    lemma_solid_header_is_read(h5, "X-File-Name"@, "x-file-name"@, percent(upload.file_name), r7);
    let h7 = with(h6, "x-transfer-id"@, percent(upload.transfer_id));
    lemma_solid_header_is_read(
        h6,
        "X-Transfer-Id"@,
        "x-transfer-id"@,
        percent(upload.transfer_id),
        r8,
    );
    let h8 = with(h7, "x-crypto-mode"@, CRYPTO_MODE@);
    lemma_solid_header_is_read(h7, "X-Crypto-Mode"@, "x-crypto-mode"@, CRYPTO_MODE@, r9);
    let h9 = with(h8, "x-crypto-sender-public"@, upload.sender_public);
    lemma_solid_header_is_read(
        h8,
        "X-Crypto-Sender-Public"@,
        "x-crypto-sender-public"@,
        upload.sender_public,
        r10,
    );
    let h10 = with(h9, "x-crypto-nonce"@, upload.nonce);
    lemma_solid_header_is_read(h9, "X-Crypto-Nonce"@, "x-crypto-nonce"@, upload.nonce, r11);
    let h11 = with(h10, "x-crypto-mac"@, upload.mac);
    lemma_solid_header_is_read(h10, "X-Crypto-Mac"@, "x-crypto-mac"@, upload.mac, r12);
    let h12 = with(h11, "connection"@, "close"@);
    lemma_solid_header_is_read(h11, "Connection"@, "connection"@, "close"@, end);
    assert(h12 == headers_read(upload));
    lemma_end_is_read(h12);
}

/// Concatenation does not depend on the grouping.
proof fn lemma_regroup(first: Seq<char>, second: Seq<char>, third: Seq<char>)
    ensures
        first + second + third == first + (second + third),
{
    assert(first + second + third =~= first + (second + third));
}

/// The request line of an upload is read first.
proof fn lemma_request_line_is_read(rest: Seq<char>)
    ensures
        after_text(empty_head(), "POST /upload HTTP/1.1\r\n"@ + rest) == after_text(
            HeadView {
                request_line: Some("POST /upload HTTP/1.1"@),
                headers: Map::empty(),
                complete: false,
            },
            rest,
        ),
{
    reveal_strlit("POST /upload HTTP/1.1\r\n");
    reveal_strlit("POST /upload HTTP/1.1");
    let line = "POST /upload HTTP/1.1\r\n"@;
    lemma_line_is_read(empty_head(), line, rest);
    assert(line.drop_last().last() == '\r');
    assert(line.drop_last().drop_last() =~= "POST /upload HTTP/1.1"@);
    assert(text::trimmed_end(line.drop_last(), Trim::White) == text::trimmed_end(
        line.drop_last().drop_last(),
        Trim::White,
    ));
}

/// An empty line ends a head.
proof fn lemma_end_is_read(head: HeadView)
    requires
        head.request_line is Some,
        !head.complete,
    ensures
        after_text(head, "\r\n"@) == (HeadView {
            request_line: head.request_line,
            headers: head.headers,
            complete: true,
        }),
{
    reveal(after_text);
    reveal_strlit("\r\n");
    let line = "\r\n"@;
    lemma_line_is_read(head, line, Seq::empty());
    assert(line + Seq::<char>::empty() =~= line);
}

/// A receiver reads of an upload's head what the sender wrote into it, if the address and the
/// sender's id have no line feed in them and the keys and codes are base64.
pub proof fn law_upload_head_is_read_back(upload: UploadView)
    requires
        is_one_line(upload.address),
        is_one_line(upload.sender_id),
        encoding::is_base64(upload.sender_public),
        encoding::is_base64(upload.nonce),
        encoding::is_base64(upload.mac),
    ensures
        reads_as(after_text(empty_head(), upload_text(upload)), upload),
{
    lemma_upload_is_read(upload);
    lemma_header_names_differ();
}

/// What is said of a response is what stands in its fields.
pub proof fn law_response_is_told_as_it_is(response: Response)
    ensures
        response@.status == response.status,
        response@.reason == response.reason@,
        response@.body == response.body@,
{
}

/// What is said of the head of an upload is what stands in its fields.
pub proof fn law_upload_head_is_told_as_it_is(head: UploadHead)
    ensures
        head@.address == head.address@,
        head@.length == head.length,
        head@.sender_id == head.sender_id@,
        head@.sender_name == head.sender_name@,
        head@.file_name == head.file_name@,
        head@.transfer_id == head.transfer_id@,
        head@.sender_public == head.sender_public@,
        head@.nonce == head.nonce@,
        head@.mac == head.mac@,
{
}

/// A text that may be missing is missing exactly if there is none.
pub proof fn law_missing_text_is_missing(value: Option<String>)
    ensures
        value is None ==> optional_view(value) is None,
        value matches Some(known) ==> optional_view(value) == Some(known@),
{
}

/// A header line is parted at its first colon: the name stands before it, without white space at the
/// ends and in lower case, and the value behind it, without white space at the ends. A line without a
/// colon holds no header.
pub proof fn law_header_line_is_parted_at_the_first_colon(name: Seq<char>, value: Seq<char>)
    requires
        !name.contains(':'),
    ensures
        header_of(name + seq![':'] + value) == Some(
            (
                text::lowered(text::trimmed(name, Trim::White)),
                text::trimmed(value, Trim::White),
            ),
        ),
        header_of(name) is None,
{
    let line = name + seq![':'] + value;
    assert forall|index: int| 0 <= index < name.len() implies #[trigger] line[index] != ':' by {
        assert(line[index] == name[index]);
        assert(name.contains(name[index]));
    }
    text::lemma_find_from(line, ':', 0, name.len() as int);
    assert(line.take(name.len() as int) =~= name);
    assert(line.skip(name.len() as int + 1) =~= value);
    text::law_first_mark_is_found(name, ':', 0);
    let place = text::find_from(name, ':', 0);
    if place < name.len() {
        assert(name.contains(name[place]));
    }
}

/// A head is read line by line. The first line is the request line, without the white space at its
/// end. An empty line, or no line, ends the head, and what comes after that is not read. Any other
/// line is a header, which counts in place of an earlier one of the same name, or nothing.
pub proof fn law_head_is_read_line_by_line(head: HeadView, line: Seq<char>)
    ensures
        ({
            let after = after_line(head, line);
            let ends = line == Seq::<char>::empty() || line == seq!['\r', '\n'] || line == seq![
                '\n',
            ];
            &&& head.request_line is None ==> {
                &&& after.request_line == Some(text::trimmed_end(line, Trim::White))
                &&& after.headers == head.headers
                &&& after.complete == head.complete
            }
            &&& head.request_line is Some && head.complete ==> after == head
            &&& head.request_line is Some && !head.complete ==> {
                &&& after.request_line == head.request_line
                &&& after.complete == ends
                &&& ends ==> after.headers == head.headers
                &&& !ends && header_of(line) is None ==> after.headers == head.headers
                &&& header_of(line) matches Some(pair) ==> !ends ==> after.headers
                    == head.headers.insert(pair.0, pair.1)
            }
        }),
        empty_head().request_line is None,
        empty_head().headers == Map::<Seq<char>, Seq<char>>::empty(),
        !empty_head().complete,
{
    reveal_strlit("\r\n");
    reveal_strlit("\n");
    assert("\r\n"@ =~= seq!['\r', '\n']);
    assert("\n"@ =~= seq!['\n']);
    assert(line.len() == 0 ==> line =~= Seq::<char>::empty());
}

/// A header has the value that was read last for its name, if any was, and a request line asks for
/// something if it begins with it.
pub proof fn law_head_is_asked_for_what_was_read(head: HeadView, name: Seq<char>, start: Seq<char>)
    ensures
        head.headers.contains_key(name) ==> header_in(head.headers, name) == Some(
            head.headers[name],
        ),
        !head.headers.contains_key(name) ==> header_in(head.headers, name) is None,
        head.request_line matches Some(line) ==> (asks_for(head, start) <==> start.is_prefix_of(
            line,
        )),
        head.request_line is None ==> (asks_for(head, start) <==> start.len() == 0),
{
    reveal_strlit("");
    assert(start.len() == 0 ==> start =~= ""@);
}

/// The text of a response has the status and the words for it in its first line, lets a page of any
/// origin ask, says how many bytes the body has, and ends in the body.
pub proof fn law_response_is_written_in_full(response: ResponseView)
    ensures
        response_text(response) == "HTTP/1.1 "@ + digits::decimal(response.status as nat) + " "@
            + response.reason
            + "\r\nAccess-Control-Allow-Origin: *\r\nAccess-Control-Allow-Methods: POST, OPTIONS\r\nAccess-Control-Allow-Headers: Content-Type, X-File-Sharer-Protocol, X-Sender-Id, X-Sender-Name, X-File-Name, X-Transfer-Id, X-Crypto-Mode, X-Crypto-Sender-Public, X-Crypto-Nonce, X-Crypto-Mac\r\nContent-Type: application/json; charset=utf-8\r\nContent-Length: "@
            + digits::decimal(encode_utf8(response.body).len()) + "\r\nConnection: close\r\n\r\n"@
            + response.body,
{
}

/// The body that tells of an error holds it as a JSON string.
pub proof fn law_error_is_told_in_the_body(error: Seq<char>)
    ensures
        error_body(error) == "{\"ok\":false,\"error\":\""@ + names::json_text(error) + "\"}"@,
{
}

/// An answer with the status 200 is no refusal. Any other is, and is told with its first line, which
/// ends before a line feed or before a carriage return and a line feed, or with the words for no
/// answer if it is empty.
pub proof fn law_refusal_is_told_with_its_first_line(line: Seq<char>, rest: Seq<char>)
    requires
        !line.contains('\n'),
    ensures
        refusal("HTTP/1.1 200"@ + rest) is None,
        ({
            let bare = line;
            let ended = line + seq!['\n'] + rest;
            let returned = line + seq!['\r', '\n'] + rest;
            let told = Some("接收端拒绝："@ + line);
            &&& !"HTTP/1.1 200"@.is_prefix_of(bare) ==> refusal(bare) == (if line.len() > 0 {
                told
            } else {
                Some("接收端拒绝："@ + "无响应"@)
            })
            &&& !"HTTP/1.1 200"@.is_prefix_of(ended) && (line.len() == 0 || line.last() != '\r')
                ==> refusal(ended) == told
            &&& !"HTTP/1.1 200"@.is_prefix_of(returned) ==> refusal(returned) == told
        }),
{
    let start = "HTTP/1.1 200"@;
    assert((start + rest).subrange(0, start.len() as int) =~= start);
    let ended = line + seq!['\n'] + rest;
    let returned = line + seq!['\r', '\n'] + rest;
    let size = line.len() as int;
    assert forall|index: int| 0 <= index < size implies line[index] != '\n' by {
        assert(line.contains(line[index]));
    }
    assert forall|index: int| 0 <= index < size implies ended[index] == line[index]
        && returned[index] == line[index] by {}
    text::law_first_mark_is_found(line, '\n', 0);
    text::lemma_find_from(ended, '\n', 0, size);
    text::lemma_find_from(returned, '\n', 0, size + 1);
    assert(line.take(size) =~= line);
    assert(ended.take(size) =~= line);
    assert(returned.take(size) =~= line);
    if size > 0 {
        assert(ended[size - 1] == line.last());
    }
}

/// The head of an upload is this text, with the names percent-encoded and the keys and the code as
/// they are.
pub proof fn law_upload_head_is_written_in_full(head: UploadView)
    ensures
        upload_text(head) == "POST /upload HTTP/1.1\r\nHost: "@ + head.address
            + "\r\nContent-Length: "@ + digits::decimal(head.length as nat)
            + "\r\nX-File-Sharer-Protocol: file-sharer.v2\r\nX-Sender-Id: "@ + head.sender_id
            + "\r\nX-Sender-Name: "@ + names::percent_text(encode_utf8(head.sender_name))
            + "\r\nX-File-Name: "@ + names::percent_text(encode_utf8(head.file_name))
            + "\r\nX-Transfer-Id: "@ + names::percent_text(encode_utf8(head.transfer_id))
            + "\r\nX-Crypto-Mode: dh-sha256-stream-v1\r\nX-Crypto-Sender-Public: "@
            + head.sender_public + "\r\nX-Crypto-Nonce: "@ + head.nonce + "\r\nX-Crypto-Mac: "@
            + head.mac + "\r\nConnection: close\r\n\r\n"@,
{
    reveal_strlit("POST /upload HTTP/1.1\r\nHost: ");
    reveal_strlit("POST /upload HTTP/1.1\r\n");
    reveal_strlit("Host");
    reveal_strlit(": ");
    reveal_strlit("\r\n");
    assert("POST /upload HTTP/1.1\r\nHost: "@ =~= "POST /upload HTTP/1.1\r\n"@ + "Host"@ + ": "@);
    reveal_strlit("\r\nContent-Length: ");
    reveal_strlit("Content-Length");
    assert("\r\nContent-Length: "@ =~= "\r\n"@ + "Content-Length"@ + ": "@);
    reveal_strlit("\r\nX-File-Sharer-Protocol: file-sharer.v2\r\nX-Sender-Id: ");
    reveal_strlit("X-File-Sharer-Protocol");
    reveal_strlit("file-sharer.v2");
    reveal_strlit("X-Sender-Id");
    assert("\r\nX-File-Sharer-Protocol: file-sharer.v2\r\nX-Sender-Id: "@ =~= "\r\n"@
        + "X-File-Sharer-Protocol"@ + ": "@ + "file-sharer.v2"@ + "\r\n"@ + "X-Sender-Id"@ + ": "@);
    reveal_strlit("\r\nX-Sender-Name: ");
    reveal_strlit("X-Sender-Name");
    assert("\r\nX-Sender-Name: "@ =~= "\r\n"@ + "X-Sender-Name"@ + ": "@);
    reveal_strlit("\r\nX-File-Name: ");
    reveal_strlit("X-File-Name");
    assert("\r\nX-File-Name: "@ =~= "\r\n"@ + "X-File-Name"@ + ": "@);
    reveal_strlit("\r\nX-Transfer-Id: ");
    reveal_strlit("X-Transfer-Id");
    assert("\r\nX-Transfer-Id: "@ =~= "\r\n"@ + "X-Transfer-Id"@ + ": "@);
    reveal_strlit("\r\nX-Crypto-Mode: dh-sha256-stream-v1\r\nX-Crypto-Sender-Public: ");
    reveal_strlit("X-Crypto-Mode");
    reveal_strlit("dh-sha256-stream-v1");
    reveal_strlit("X-Crypto-Sender-Public");
    assert("\r\nX-Crypto-Mode: dh-sha256-stream-v1\r\nX-Crypto-Sender-Public: "@ =~= "\r\n"@
        + "X-Crypto-Mode"@ + ": "@ + "dh-sha256-stream-v1"@ + "\r\n"@ + "X-Crypto-Sender-Public"@
        + ": "@);
    reveal_strlit("\r\nX-Crypto-Nonce: ");
    reveal_strlit("X-Crypto-Nonce");
    assert("\r\nX-Crypto-Nonce: "@ =~= "\r\n"@ + "X-Crypto-Nonce"@ + ": "@);
    reveal_strlit("\r\nX-Crypto-Mac: ");
    reveal_strlit("X-Crypto-Mac");
    assert("\r\nX-Crypto-Mac: "@ =~= "\r\n"@ + "X-Crypto-Mac"@ + ": "@);
    reveal_strlit("\r\nConnection: close\r\n\r\n");
    reveal_strlit("Connection");
    reveal_strlit("close");
    assert("\r\nConnection: close\r\n\r\n"@ =~= "\r\n"@ + "Connection"@ + ": "@ + "close"@ + "\r\n"@
        + "\r\n"@);
    lemma_upload_pieces(
        head.address,
        digits::decimal(head.length as nat),
        head.sender_id,
        names::percent_text(encode_utf8(head.sender_name)),
        names::percent_text(encode_utf8(head.file_name)),
        names::percent_text(encode_utf8(head.transfer_id)),
        head.sender_public,
        head.nonce,
        head.mac,
    );
}

/// The pieces of the head of an upload can be joined in any grouping.
proof fn lemma_upload_pieces(
    address: Seq<char>,
    length: Seq<char>,
    sender_id: Seq<char>,
    sender_name: Seq<char>,
    file_name: Seq<char>,
    transfer_id: Seq<char>,
    sender_public: Seq<char>,
    nonce: Seq<char>,
    mac: Seq<char>,
)
    ensures
        "POST /upload HTTP/1.1\r\n"@ + header_line("Host"@, address) + header_line(
            "Content-Length"@,
            length,
        ) + header_line("X-File-Sharer-Protocol"@, "file-sharer.v2"@) + header_line(
            "X-Sender-Id"@,
            sender_id,
        ) + header_line("X-Sender-Name"@, sender_name) + header_line("X-File-Name"@, file_name)
            + header_line("X-Transfer-Id"@, transfer_id) + header_line(
            "X-Crypto-Mode"@,
            "dh-sha256-stream-v1"@,
        ) + header_line("X-Crypto-Sender-Public"@, sender_public) + header_line(
            "X-Crypto-Nonce"@,
            nonce,
        ) + header_line("X-Crypto-Mac"@, mac) + header_line("Connection"@, "close"@) + "\r\n"@ == (
        "POST /upload HTTP/1.1\r\n"@ + "Host"@ + ": "@) + address + ("\r\n"@ + "Content-Length"@
            + ": "@) + length + ("\r\n"@ + "X-File-Sharer-Protocol"@ + ": "@ + "file-sharer.v2"@
            + "\r\n"@ + "X-Sender-Id"@ + ": "@) + sender_id + ("\r\n"@ + "X-Sender-Name"@ + ": "@)
            + sender_name + ("\r\n"@ + "X-File-Name"@ + ": "@) + file_name + ("\r\n"@
            + "X-Transfer-Id"@ + ": "@) + transfer_id + ("\r\n"@ + "X-Crypto-Mode"@ + ": "@
            + "dh-sha256-stream-v1"@ + "\r\n"@ + "X-Crypto-Sender-Public"@ + ": "@) + sender_public
            + ("\r\n"@ + "X-Crypto-Nonce"@ + ": "@) + nonce + ("\r\n"@ + "X-Crypto-Mac"@ + ": "@)
            + mac + ("\r\n"@ + "Connection"@ + ": "@ + "close"@ + "\r\n"@ + "\r\n"@),
{
    assert forall|a: Seq<char>, b: Seq<char>, c: Seq<char>| #[trigger]
        (a + (b + c)) == (a + b) + c by {
        assert(a + (b + c) =~= (a + b) + c);
    }
}

} // verus!
