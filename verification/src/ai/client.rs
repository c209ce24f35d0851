//! The conversation with the language-model server: message records, the
//! checks applied to each reply, the decoding of streamed replies, and the
//! tool-calling conversation.
//!
//! Requests and replies travel over HTTP outside this library; the library
//! decides what is sent and what each reply means.

use vstd::prelude::*;
use vstd::utf8::encode_utf8;
use vstd::string::StringSliceAdditionalSpecFns;
use crate::text::{
    chars_of, decimal, push_decimal, string_from, trim, trim_chars, split_lines, lines_of,
};
use crate::tools::protocol::{
    call_views, has_calls_spec, has_tool_calls, parse_tool_calls, strip_spec, strip_tool_blocks,
    tool_calls_spec, ToolCall as ScriptCall,
};

verus! {

#[verifier::external_type_specification]
#[verifier::external_body]
pub struct ExJsonValue(serde_json::Value);

/// A reply of the text-generation endpoint.
#[derive(Debug)]
pub struct GenerateResponse {
    pub response: String,
    pub done: bool,
    pub context: Vec<i64>,
}

/// A function the model asked to call through the chat endpoint.
#[derive(Debug)]
pub struct ToolFunction {
    pub name: String,
    pub arguments: serde_json::Value,
}

/// A tool call the model made through the chat endpoint.
#[derive(Debug)]
pub struct ToolCall {
    pub function: ToolFunction,
}

/// A chat message.
#[derive(Debug)]
pub struct ChatMessage {
    pub role: String,
    pub content: String,
    pub tool_calls: Option<Vec<ToolCall>>,
}

/// A reply of the chat endpoint.
#[derive(Debug)]
pub struct ChatResponse {
    pub message: ChatMessage,
    pub done: bool,
}

/// A message as a value: role and content.
pub type MessageV = (Seq<char>, Seq<char>);

impl View for ChatMessage {
    type V = MessageV;

    open spec fn view(&self) -> MessageV {
        (self.role@, self.content@)
    }
}

/// The values of a sequence of messages.
pub open spec fn message_views(v: Seq<ChatMessage>) -> Seq<MessageV> {
    v.map_values(|m: ChatMessage| m@)
}

impl ChatMessage {
    /// A plain message, without tool calls.
    pub fn new(role: &str, content: &str) -> (m: ChatMessage)
        ensures
            m@ == (role@, content@),
            m.tool_calls is None,
    {
        ChatMessage { role: String::from_str(role), content: String::from_str(content), tool_calls: None }
    }

    /// A copy of the role and content, without tool calls.
    pub fn plain_copy(&self) -> (m: ChatMessage)
        ensures
            m@ == self@,
            m.tool_calls is None,
    {
        ChatMessage { role: self.role.clone(), content: self.content.clone(), tool_calls: None }
    }
}

/// `s` without trailing copies of `c` (std's `str::trim_end_matches` on a character).
pub open spec fn trim_end_char(s: Seq<char>, c: char) -> Seq<char>
    decreases s.len(),
{
    if s.len() > 0 && s.last() == c {
        trim_end_char(s.drop_last(), c)
    } else {
        s
    }
}

/// `s` without leading copies of `c`.
pub open spec fn trim_start_char(s: Seq<char>, c: char) -> Seq<char>
    decreases s.len(),
{
    if s.len() > 0 && s[0] == c {
        trim_start_char(s.drop_first(), c)
    } else {
        s
    }
}

fn trim_end_char_exec(cs: &[char], c: char) -> (r: Vec<char>)
    ensures
        r@ == trim_end_char(cs@, c),
{
    let mut k = cs.len();
    assert(cs@.take(cs@.len() as int) =~= cs@);
    while k > 0 && cs[k - 1] == c
        invariant
            k <= cs@.len(),
            trim_end_char(cs@, c) == trim_end_char(cs@.take(k as int), c),
        decreases k,
    {
        proof {
            assert(cs@.take(k as int).drop_last() =~= cs@.take(k - 1));
        }
        k = k - 1;
    }
    assert(cs@.take(cs@.len() as int) =~= cs@);
    crate::text::copy_range(cs, 0, k)
}

fn trim_start_char_exec(cs: &[char], c: char) -> (r: Vec<char>)
    ensures
        r@ == trim_start_char(cs@, c),
{
    let mut k: usize = 0;
    assert(cs@.skip(0) =~= cs@);
    while k < cs.len() && cs[k] == c
        invariant
            k <= cs@.len(),
            trim_start_char(cs@, c) == trim_start_char(cs@.skip(k as int), c),
        decreases cs@.len() - k,
    {
        proof {
            assert(cs@.skip(k as int).drop_first() =~= cs@.skip(k + 1));
        }
        k = k + 1;
    }
    crate::text::copy_range(cs, k, cs.len())
}

/// The base address of the server: the configured one without trailing slashes.
pub fn base_url_of(endpoint: &str) -> (r: String)
    ensures
        r@ == trim_end_char(endpoint@, '/'),
{
    let cs = chars_of(endpoint);
    let t = trim_end_char_exec(&cs, '/');
    string_from(&t)
}

/// Whether an HTTP status signals success.
pub open spec fn is_success(status: u16) -> bool {
    200 <= status <= 299
}

/// Whether the body carried a non-empty error from the server.
pub open spec fn reported(error: Option<&str>) -> bool {
    error is Some && error->0@.len() > 0
}

/// The message for a server-reported error.
pub open spec fn server_error_message(e: Seq<char>) -> Seq<char> {
    "Ollama: "@ + e
}

/// Whether `m` is the message for an unsuccessful status whose body starts
/// with the bytes of `raw` up to `limit`.
pub open spec fn http_error_message(status: u16, raw: Seq<char>, limit: nat, m: Seq<char>) -> bool {
    let b = encode_utf8(raw);
    let n = if b.len() < limit { b.len() } else { limit };
    exists|p: Seq<char>| encode_utf8(p) == b.take(n as int) && m == "Ollama HTTP "@ + decimal(status as nat) + ": "@ + p
}

/// The text of `raw` up to `limit` bytes, when that is a character boundary.
fn byte_prefix(raw: &str, limit: usize) -> (p: &str)
    requires
        encode_utf8(raw@).len() <= limit || vstd::utf8::is_char_boundary(encode_utf8(raw@), limit as int),
    ensures
        encode_utf8(p@) == encode_utf8(raw@).take(
            if encode_utf8(raw@).len() < limit { encode_utf8(raw@).len() as int } else { limit as int },
        ),
{
    proof {
        vstd::utf8::encode_utf8_valid_utf8(raw@);
        vstd::utf8::is_char_boundary_start_end_of_seq(encode_utf8(raw@));
    }
    if raw.is_char_boundary(limit) {
        let (p, _) = raw.split_at(limit);
        assert(encode_utf8(raw@).take(limit as int) =~= encode_utf8(raw@).subrange(0, limit as int));
        p
    } else {
        assert(encode_utf8(raw@).take(encode_utf8(raw@).len() as int) =~= encode_utf8(raw@));
        raw
    }
}

/// What a reply means before its body is read: an error the server reported
/// in its body (when not empty) wins; else an unsuccessful status is an error
/// that quotes up to 200 bytes of the body; else the body is to be read.
pub fn check_reply(status: u16, raw: &str, error: Option<&str>) -> (r: Result<(), String>)
    requires
        !reported(error) && !is_success(status) && encode_utf8(raw@).len() > 200
            ==> vstd::utf8::is_char_boundary(encode_utf8(raw@), 200),
    ensures
        reported(error) ==> (r matches Err(m) && m@ == server_error_message(error->0@)),
        !reported(error) && !is_success(status) ==> (r matches Err(m) && http_error_message(status, raw@, 200, m@)),
        !reported(error) && is_success(status) ==> r is Ok,
{
    if let Some(e) = error {
        if !e.is_empty() {
            let mut m = String::from_str("Ollama: ");
            m.append(e);
            return Err(m);
        }
    }
    if !(200 <= status && status <= 299) {
        let p = byte_prefix(raw, 200);
        let mut m = String::from_str("Ollama HTTP ");
        push_decimal(&mut m, status as u64);
        m.append(": ");
        m.append(p);
        return Err(m);
    }
    Ok(())
}

/// What a reply without a status check means: an error the server reported
/// in its body (when not empty), else the body is to be read.
pub fn check_error_body(error: Option<&str>) -> (r: Result<(), String>)
    ensures
        reported(error) ==> (r matches Err(m) && m@ == server_error_message(error->0@)),
        !reported(error) ==> r is Ok,
{
    if let Some(e) = error {
        if !e.is_empty() {
            let mut m = String::from_str("Ollama: ");
            m.append(e);
            return Err(m);
        }
    }
    Ok(())
}

/// The token that ends a streamed answer.
pub const DONE_TOKEN: &'static str = "__DONE__";

/// What std's `String::from_utf8_lossy` gives for some bytes.
pub uninterp spec fn lossy_text(b: Seq<u8>) -> Seq<char>;

/// The text of some bytes, with invalid sequences replaced
/// (std's `String::from_utf8_lossy`); the contract claims only that the result
/// is a function of the bytes.
#[verifier::external_body]
pub(crate) fn text_of_bytes(b: &[u8]) -> (r: String)
    ensures
        r@ == lossy_text(b@),
{
    String::from_utf8_lossy(b).to_string()
}

/// The fields of a streamed JSON line that the reader uses.
#[derive(Debug)]
pub struct StreamFields {
    pub error: Option<String>,
    pub done: Option<bool>,
    pub response: Option<String>,
}

/// A streamed line's fields as values.
pub type StreamFieldsV = (Option<Seq<char>>, Option<bool>, Option<Seq<char>>);

/// The view of an optional string.
pub open spec fn opt_view(o: Option<String>) -> Option<Seq<char>> {
    match o {
        Some(s) => Some(s@),
        None => None,
    }
}

impl View for StreamFields {
    type V = StreamFieldsV;

    open spec fn view(&self) -> StreamFieldsV {
        (opt_view(self.error), self.done, opt_view(self.response))
    }
}

/// What serde_json makes of a streamed line: `None` when it is not JSON, else
/// the string `error`, the boolean `done` and the string `response` members.
pub uninterp spec fn stream_fields(line: Seq<char>) -> Option<StreamFieldsV>;

/// Parse one streamed line as JSON (serde_json's `from_str` into a `Value`)
/// and pick its `error`, `done` and `response` members when they have the
/// expected type; the contract claims only that the result is a function of
/// the line.
#[verifier::external_body]
pub(crate) fn parse_stream_line(line: &str) -> (r: Option<StreamFields>)
    ensures
        r matches Some(f) ==> stream_fields(line@) == Some(f@),
        r is None ==> stream_fields(line@) is None,
{
    let v: serde_json::Value = serde_json::from_str(line).ok()?;
    Some(StreamFields {
        error: v.get("error").and_then(|x| x.as_str()).map(|x| x.to_string()),
        done: v.get("done").and_then(|x| x.as_bool()),
        response: v.get("response").and_then(|x| x.as_str()).map(|x| x.to_string()),
    })
}

/// What one streamed line is worth: the messages to pass on and whether the
/// stream ends here.  An error ends it; `done` passes on the end token; a
/// non-empty `response` is passed on.
pub open spec fn line_messages(f: Option<StreamFieldsV>) -> (Seq<Seq<char>>, bool) {
    match f {
        None => (seq![], false),
        Some(v) => match v.0 {
            Some(e) => (seq!["Error: "@ + e + "\n"@, DONE_TOKEN@], true),
            None => if v.1 == Some(true) {
                (seq![DONE_TOKEN@], false)
            } else {
                match v.2 {
                    Some(t) => if t.len() > 0 { (seq![t], false) } else { (seq![], false) },
                    None => (seq![], false),
                }
            },
        },
    }
}

/// What a complete raw line (its bytes, line feed included) is worth.
pub open spec fn raw_line_messages(b: Seq<u8>) -> (Seq<Seq<char>>, bool) {
    let t = trim(lossy_text(b));
    if t.len() == 0 {
        (seq![], false)
    } else {
        line_messages(stream_fields(t))
    }
}

/// The position of the first line feed in `b`, if any.
pub open spec fn first_newline(b: Seq<u8>) -> Option<int> {
    if exists|i: int| 0 <= i < b.len() && b[i] == 10u8 && forall|j: int| 0 <= j < i ==> b[j] != 10u8 {
        Some(choose|i: int| 0 <= i < b.len() && b[i] == 10u8 && forall|j: int| 0 <= j < i ==> b[j] != 10u8)
    } else {
        None
    }
}

/// Consume the complete lines of `b`: the messages they are worth, whether
/// one ended the stream, and the bytes left over.
pub open spec fn consume(b: Seq<u8>) -> (Seq<Seq<char>>, bool, Seq<u8>)
    decreases b.len(),
{
    match first_newline(b) {
        None => (seq![], false, b),
        Some(i) => if i < 0 || i >= b.len() {
            (seq![], false, b)
        } else {
            let (m, stop) = raw_line_messages(b.take(i + 1));
            if stop {
                (m, true, b.skip(i + 1))
            } else {
                let (m2, stop2, rest) = consume(b.skip(i + 1));
                (m + m2, stop2, rest)
            }
        },
    }
}

proof fn lemma_first_newline_prefix(x: Seq<u8>, y: Seq<u8>)
    requires
        first_newline(x) is Some,
    ensures
        first_newline(x + y) == first_newline(x),
{
    let i = first_newline(x)->0;
    let xy = x + y;
    assert(0 <= i < x.len() && x[i] == 10u8 && forall|j: int| 0 <= j < i ==> x[j] != 10u8);
    assert(xy[i] == 10u8);
    assert(forall|j: int| 0 <= j < i ==> xy[j] != 10u8);
    assert(0 <= i < xy.len() && xy[i] == 10u8 && forall|j: int| 0 <= j < i ==> xy[j] != 10u8);
    let k = choose|k: int| 0 <= k < xy.len() && xy[k] == 10u8 && forall|j: int| 0 <= j < k ==> xy[j] != 10u8;
    assert(k == i) by {
        if k < i {
            assert(xy[k] == x[k]);
        } else if k > i {
            assert(xy[i] != 10u8);
        }
    }
}

proof fn lemma_consume_append(x: Seq<u8>, y: Seq<u8>)
    requires
        !consume(x).1,
    ensures
        consume(x + y) == (consume(x).0 + consume(consume(x).2 + y).0, consume(consume(x).2 + y).1,
            consume(consume(x).2 + y).2),
    decreases x.len(),
{
    match first_newline(x) {
        None => {
            assert(consume(x).0 =~= seq![]);
            assert(consume(x).2 == x);
            assert(consume(x).0 + consume(x + y).0 =~= consume(x + y).0);
        },
        Some(i) => {
            lemma_first_newline_prefix(x, y);
            let xy = x + y;
            assert(xy.take(i + 1) =~= x.take(i + 1));
            assert(xy.skip(i + 1) =~= x.skip(i + 1) + y);
            let first = raw_line_messages(x.take(i + 1));
            assert(!first.1);
            lemma_consume_append(x.skip(i + 1), y);
            let inner = consume(x.skip(i + 1));
            let tail = consume(inner.2 + y);
            assert(consume(x) == (first.0 + inner.0, inner.1, inner.2));
            assert(consume(xy) == (first.0 + consume(x.skip(i + 1) + y).0, consume(x.skip(i + 1) + y).1,
                consume(x.skip(i + 1) + y).2));
            assert(first.0 + (inner.0 + tail.0) =~= (first.0 + inner.0) + tail.0);
        },
    }
}

/// A reply decodes to the same messages however its bytes are cut into
/// chunks: feeding `a` then `b` (the first not ending the stream) gives, in
/// order, the messages that feeding `a` and `b` at once gives, and leaves the
/// same bytes pending.
pub proof fn law_stream_chunking(pending: Seq<u8>, a: Seq<u8>, b: Seq<u8>)
    requires
        !consume(pending + a).1,
    ensures
        consume(pending + (a + b)) == (consume(pending + a).0 + consume(consume(pending + a).2 + b).0,
            consume(consume(pending + a).2 + b).1, consume(consume(pending + a).2 + b).2),
{
    lemma_consume_append(pending + a, b);
    assert((pending + a) + b =~= pending + (a + b));
}

/// The views of a sequence of strings.
pub open spec fn strs(v: Seq<String>) -> Seq<Seq<char>> {
    v.map_values(|x: String| x@)
}

/// Turns the bytes of a streamed reply into the messages to pass on.
pub struct StreamDecoder {
    buf: Vec<u8>,
}

/// Append the strings of `b` to `a`.
fn append_all(a: &mut Vec<String>, b: Vec<String>)
    ensures
        strs(final(a)@) == strs(old(a)@) + strs(b@),
{
    let ghost a0 = strs(a@);
    let mut b = b;
    let ghost bv = strs(b@);
    let mut i: usize = 0;
    let mut rest: Vec<String> = Vec::new();
    while b.len() > 0
        invariant
            strs(a@) + strs(b@) == a0 + bv,
        decreases b@.len(),
    {
        let x = b.remove(0);
        proof {
            assert(strs(a@.push(x)) =~= strs(a@).push(x@));
        }
        let ghost bb = b@;
        a.push(x);
        assert(strs(a@) + strs(b@) =~= a0 + bv);
    }
    assert(strs(b@) =~= seq![]);
    assert(strs(a@) =~= strs(a@) + strs(b@));
}

/// The messages for one raw line.
fn raw_line_step(line: &[u8]) -> (r: (Vec<String>, bool))
    ensures
        (strs(r.0@), r.1) == raw_line_messages(line@),
{
    let text = text_of_bytes(line);
    let t = trim_chars(&chars_of(text.as_str()));
    let mut out: Vec<String> = Vec::new();
    if t.len() == 0 {
        assert(strs(out@) =~= seq![]);
        return (out, false);
    }
    let ts = string_from(&t);
    match parse_stream_line(ts.as_str()) {
        None => {
            assert(strs(out@) =~= seq![]);
            (out, false)
        },
        Some(f) => match f.error {
            Some(e) => {
                let mut m = String::from_str("Error: ");
                m.append(e.as_str());
                m.append("\n");
                out.push(m);
                out.push(String::from_str(DONE_TOKEN));
                assert(strs(out@) =~= seq!["Error: "@ + e@ + "\n"@, DONE_TOKEN@]);
                (out, true)
            },
            None => {
                if f.done == Some(true) {
                    out.push(String::from_str(DONE_TOKEN));
                    assert(strs(out@) =~= seq![DONE_TOKEN@]);
                } else if let Some(t) = f.response {
                    if !t.as_str().is_empty() {
                        let ghost tv = t@;
                        out.push(t);
                        assert(strs(out@) =~= seq![tv]);
                    } else {
                        assert(strs(out@) =~= seq![]);
                    }
                } else {
                    assert(strs(out@) =~= seq![]);
                }
                (out, false)
            },
        },
    }
}

impl StreamDecoder {
    /// The bytes received but not yet part of a complete line.
    pub closed spec fn pending(&self) -> Seq<u8> {
        self.buf@
    }

    /// A decoder that has received nothing.
    pub fn new() -> (d: Self)
        ensures
            d.pending() == Seq::<u8>::empty(),
    {
        StreamDecoder { buf: Vec::new() }
    }

    /// Take in a chunk of the reply: the messages its complete lines are worth,
    /// and whether the stream ends (on an error line).
    pub fn feed(&mut self, chunk: &[u8]) -> (r: (Vec<String>, bool))
        ensures
            (strs(r.0@), r.1, final(self).pending()) == consume(old(self).pending() + chunk@),
    {
        let mut b: Vec<u8> = Vec::new();
        std::mem::swap(&mut b, &mut self.buf);
        let mut i: usize = 0;
        while i < chunk.len()
            invariant
                0 <= i <= chunk@.len(),
                b@ == old(self).pending() + chunk@.take(i as int),
            decreases chunk@.len() - i,
        {
            b.push(chunk[i]);
            i = i + 1;
            assert(chunk@.take(i as int) =~= chunk@.take(i - 1).push(chunk@[i - 1]));
        }
        assert(chunk@.take(chunk@.len() as int) =~= chunk@);
        let ghost all = b@;
        let mut out: Vec<String> = Vec::new();
        loop
            invariant
                all == old(self).pending() + chunk@,
                ({
                    let (m, stop, rest) = consume(b@);
                    consume(all) == (strs(out@) + m, stop, rest)
                }),
            decreases b@.len(),
        {
            let mut pos: usize = 0;
            while pos < b.len() && b[pos] != 10u8
                invariant
                    pos <= b@.len(),
                    forall|j: int| 0 <= j < pos ==> b@[j] != 10u8,
                decreases b@.len() - pos,
            {
                pos = pos + 1;
            }
            if pos == b.len() {
                proof {
                    if first_newline(b@) is Some {
                        let k = choose|k: int| 0 <= k < b@.len() && b@[k] == 10u8 && forall|j: int| 0 <= j < k ==> b@[j] != 10u8;
                        assert(b@[k] != 10u8);
                    }
                    assert(strs(out@) + seq![] =~= strs(out@));
                }
                self.buf = b;
                return (out, false);
            }
            proof {
                let k = choose|k: int| 0 <= k < b@.len() && b@[k] == 10u8 && forall|j: int| 0 <= j < k ==> b@[j] != 10u8;
                assert(0 <= pos < b@.len() && b@[pos as int] == 10u8 && forall|j: int| 0 <= j < pos ==> b@[j] != 10u8);
                if k < pos {
                    assert(b@[k] != 10u8);
                } else if k > pos {
                    assert(b@[pos as int] != 10u8);
                }
                assert(first_newline(b@) == Some(pos as int));
            }
            let ghost bb = b@;
            let rest = b.split_off(pos + 1);
            let line = b;
            let ghost lv = line@;
            let (msgs, stop) = raw_line_step(&line);
            let ghost mv = strs(msgs@);
            let ghost before = strs(out@);
            append_all(&mut out, msgs);
            b = rest;
            proof {
                assert(lv =~= bb.take(pos + 1));
                assert(b@ =~= bb.skip(pos + 1));
            }
            if stop {
                proof {
                    assert(consume(bb) == (mv, true, b@));
                    assert(strs(out@) == before + mv);
                }
                self.buf = b;
                return (out, true);
            }
            proof {
                let (m2, stop2, rest2) = consume(b@);
                assert(consume(bb) == (mv + m2, stop2, rest2));
                assert(before + (mv + m2) =~= strs(out@) + m2);
            }
        }
    }

    /// The messages that close a stream: an error for an unsuccessful status,
    /// then the end token.
    pub fn finish(status: u16) -> (r: Vec<String>)
        ensures
            strs(r@) == if is_success(status) {
                seq![DONE_TOKEN@]
            } else {
                seq!["Error: Ollama HTTP "@ + decimal(status as nat) + "\n"@, DONE_TOKEN@]
            },
    {
        let mut out: Vec<String> = Vec::new();
        if !(200 <= status && status <= 299) {
            let mut m = String::from_str("Error: Ollama HTTP ");
            push_decimal(&mut m, status as u64);
            m.append("\n");
            out.push(m);
        }
        out.push(String::from_str(DONE_TOKEN));
        assert(strs(out@) =~= if is_success(status) {
            seq![DONE_TOKEN@]
        } else {
            seq!["Error: Ollama HTTP "@ + decimal(status as nat) + "\n"@, DONE_TOKEN@]
        });
        out
    }
}

// ---------------------------------------------------------------------------
// Session descriptions
// ---------------------------------------------------------------------------

/// The opening of the prompt that asks for a session description.
pub const DESCRIPTION_PROMPT_HEAD: &'static str = "Summarize this conversation topic in ONE short sentence (max 100 characters).\n\n";

/// One message as it appears in the description prompt.
pub open spec fn message_line(m: MessageV) -> Seq<char> {
    "["@ + m.0 + "]: "@ + m.1 + "\n"@
}

/// The messages of the description prompt, from position `i` on.
pub open spec fn message_lines(ms: Seq<MessageV>, i: int) -> Seq<char>
    decreases ms.len() - i,
{
    if i < 0 || i >= ms.len() {
        seq![]
    } else {
        message_line(ms[i]) + message_lines(ms, i + 1)
    }
}

/// The prompt that asks for a one-sentence description of a conversation.
pub open spec fn description_prompt_spec(ms: Seq<MessageV>) -> Seq<char> {
    DESCRIPTION_PROMPT_HEAD@ + message_lines(ms, 0) + "\nDescription: "@
}

/// The prompt that asks for a one-sentence description of a conversation.
pub fn description_prompt(messages: &[ChatMessage]) -> (r: String)
    ensures
        r@ == description_prompt_spec(message_views(messages@)),
{
    let ghost ms = message_views(messages@);
    let mut s = String::from_str(DESCRIPTION_PROMPT_HEAD);
    let ghost head = s@;
    let mut i: usize = 0;
    while i < messages.len()
        invariant
            0 <= i <= messages@.len(),
            ms == message_views(messages@),
            s@ + message_lines(ms, i as int) == head + message_lines(ms, 0),
        decreases messages@.len() - i,
    {
        let ghost before = s@;
        let m = &messages[i];
        s.append("[");
        s.append(m.role.as_str());
        s.append("]: ");
        s.append(m.content.as_str());
        s.append("\n");
        proof {
            assert(ms[i as int] == m@);
            assert(s@ =~= before + message_line(ms[i as int]));
            assert(before + message_lines(ms, i as int) =~= s@ + message_lines(ms, i + 1));
        }
        i = i + 1;
    }
    s.append("\nDescription: ");
    assert(s@ =~= description_prompt_spec(ms));
    s
}

/// A reply trimmed of white space, then of double quotes, then of white space.
pub open spec fn cleaned_reply(raw: Seq<char>) -> Seq<char> {
    trim(trim_start_char(trim_end_char(trim(raw), '"'), '"'))
}

/// `r` is the description made of a reply: the cleaned reply when its UTF-8
/// form has at most 120 bytes, else its first 117 bytes and `...`.
pub open spec fn is_description_of(raw: Seq<char>, r: Seq<char>) -> bool {
    let d = cleaned_reply(raw);
    if encode_utf8(d).len() <= 120 {
        r == d
    } else {
        exists|p: Seq<char>| encode_utf8(p) == encode_utf8(d).take(117) && r == p + "..."@
    }
}

/// The description made of the model's reply.
pub fn clean_description(raw: &str) -> (r: String)
    requires
        encode_utf8(cleaned_reply(raw@)).len() > 120 ==> vstd::utf8::is_char_boundary(
            encode_utf8(cleaned_reply(raw@)),
            117,
        ),
    ensures
        is_description_of(raw@, r@),
{
    let a = trim_chars(&chars_of(raw));
    let b = trim_end_char_exec(&a, '"');
    let c = trim_start_char_exec(&b, '"');
    let d = trim_chars(&c);
    let ds = string_from(&d);
    if ds.as_str().as_bytes().len() > 120 {
        let p = byte_prefix(ds.as_str(), 117);
        let mut r = String::from_str(p);
        r.append("...");
        assert(encode_utf8(p@) == encode_utf8(ds@).take(117));
        r
    } else {
        ds
    }
}

// ---------------------------------------------------------------------------
// Prompts
// ---------------------------------------------------------------------------

/// The instructions that open a daily digest prompt.
pub const DIGEST_PROMPT: &'static str = "You are a personal news briefing assistant. Below are recent articles from the user's feeds. Create a concise daily digest with:\n1. A 1-sentence overview of the day's main theme\n2. Grouped summaries by topic (3-5 bullet points per group)\n3. A 'why this matters' takeaway for the most important story\n\nArticles:\n\n";

/// What the digest says when no entry has a summary.
pub const NO_DIGEST: &'static str = "No articles with summaries to digest.";

/// The digest lines of entries from position `i` on: `- title: summary` for
/// each entry with a non-empty summary (`Untitled` when it has no title).
pub open spec fn digest_lines(es: Seq<crate::types::Entry>, i: int) -> Seq<Seq<char>>
    decreases es.len() - i,
{
    if i < 0 || i >= es.len() {
        seq![]
    } else {
        let sm = crate::text::opt_text(es[i].summary);
        if sm.len() == 0 {
            digest_lines(es, i + 1)
        } else {
            seq!["- "@ + crate::text::opt_or(es[i].title, "Untitled"@) + ": "@ + sm] + digest_lines(es, i + 1)
        }
    }
}

/// Pieces joined with a separator between neighbours.
pub open spec fn join(v: Seq<Seq<char>>, sep: Seq<char>) -> Seq<char>
    decreases v.len(),
{
    if v.len() == 0 {
        seq![]
    } else if v.len() == 1 {
        v[0]
    } else {
        join(v.drop_last(), sep) + sep + v.last()
    }
}

/// Join strings with a separator.
pub fn join_strings(v: &Vec<String>, sep: &str) -> (r: String)
    ensures
        r@ == join(strs(v@), sep@),
{
    let ghost sv = strs(v@);
    let mut s = String::new();
    let mut i: usize = 0;
    while i < v.len()
        invariant
            0 <= i <= v@.len(),
            sv == strs(v@),
            s@ == join(sv.take(i as int), sep@),
        decreases v@.len() - i,
    {
        let ghost before = s@;
        if i > 0 {
            s.append(sep);
        }
        s.append(v[i].as_str());
        proof {
            let t = sv.take(i + 1);
            assert(t.drop_last() =~= sv.take(i as int));
            assert(t.last() == v@[i as int]@);
            if i == 0 {
                assert(s@ =~= t[0]);
            }
        }
        i = i + 1;
    }
    assert(sv.take(v@.len() as int) =~= sv);
    s
}

/// The prompt for a daily digest of `es`, or `None` when no entry has a summary.
pub open spec fn digest_prompt_spec(es: Seq<crate::types::Entry>) -> Option<Seq<char>> {
    let lines = digest_lines(es, 0);
    if lines.len() == 0 {
        None
    } else {
        Some(DIGEST_PROMPT@ + join(lines, "\n"@))
    }
}

/// The prompt for a daily digest of the entries, or `None` when no entry has a
/// summary (the digest is then [`NO_DIGEST`]).
pub fn digest_prompt(entries: &[crate::types::Entry]) -> (r: Option<String>)
    ensures
        r is Some <==> digest_prompt_spec(entries@) is Some,
        r matches Some(p) ==> p@ == digest_prompt_spec(entries@)->0,
{
    let ghost es = entries@;
    let mut lines: Vec<String> = Vec::new();
    let mut i: usize = entries.len();
    while i > 0
        invariant
            i <= es.len(),
            es == entries@,
            strs(lines@) == digest_lines(es, i as int),
        decreases i,
    {
        i = i - 1;
        let e = &entries[i];
        let has_summary = match &e.summary {
            Some(x) => !x.as_str().is_empty(),
            None => false,
        };
        if has_summary {
            let mut l = String::from_str("- ");
            crate::text::push_opt_or(&mut l, &e.title, "Untitled");
            l.append(": ");
            crate::text::push_opt_or(&mut l, &e.summary, "");
            proof {
                assert(l@ == "- "@ + crate::text::opt_or(es[i as int].title, "Untitled"@) + ": "@ + crate::text::opt_text(es[i as int].summary));
                assert(strs(seq![l] + lines@) =~= seq![l@] + strs(lines@));
            }
            lines.insert(0, l);
        }
    }
    if lines.len() == 0 {
        return None;
    }
    let body = join_strings(&lines, "\n");
    let mut p = String::from_str(DIGEST_PROMPT);
    p.append(body.as_str());
    Some(p)
}

/// The instructions that open a summary prompt.
pub const SUMMARY_PROMPT: &'static str = "Summarize the following article in 3-5 concise bullet points. Focus on the key arguments, findings, and conclusions. Be factual and objective.\n\nArticle:\n";

/// The prompt for summarising an article.
pub fn summary_prompt(content: &str) -> (r: String)
    ensures
        r@ == SUMMARY_PROMPT@ + content@,
{
    let mut p = String::from_str(SUMMARY_PROMPT);
    p.append(content);
    p
}

// ---------------------------------------------------------------------------
// The tool-calling conversation
// ---------------------------------------------------------------------------

/// How many rounds of tool calls a conversation may take before the model
/// must answer.
pub const MAX_TOOL_ROUNDS: usize = 8;

/// What a reply of the model leads to.
#[derive(Debug)]
pub enum ReplyStep {
    /// The reply is the answer; the string is the closing status.
    Final(String),
    /// The reply asks for these tools to be run, in order.
    Tools(Vec<ScriptCall>),
}

/// A conversation in which the model may run tool scripts through the text
/// protocol: each reply that holds tool blocks is answered with the tools'
/// output, until a reply holds none or `MAX_TOOL_ROUNDS` rounds have run;
/// after that the model's next reply is the answer as it stands.
pub struct ToolChat {
    messages: Vec<ChatMessage>,
    summary: Vec<String>,
    output: String,
    rounds: usize,
}

/// The closing status: `done`, or `done: ` and the tool summaries.
pub open spec fn final_status_spec(summary: Seq<Seq<char>>) -> Seq<char> {
    if summary.len() == 0 {
        "done"@
    } else {
        "done: "@ + join(summary, ", "@)
    }
}

/// The tool output as shown to the model: its first 8000 bytes and a
/// truncation mark when it is longer.
pub open spec fn is_shown_output(o: Seq<char>, shown: Seq<char>) -> bool {
    if encode_utf8(o).len() > 8000 {
        exists|p: Seq<char>| encode_utf8(p) == encode_utf8(o).take(8000) && shown == p + "...\n[truncated]"@
    } else {
        shown == o
    }
}

/// Whether no message carries tool calls.
pub open spec fn all_plain(ms: Seq<ChatMessage>) -> bool {
    forall|i: int| 0 <= i < ms.len() ==> (#[trigger] ms[i]).tool_calls is None
}

impl ToolChat {
    /// The messages so far.
    pub closed spec fn history(&self) -> Seq<MessageV> {
        message_views(self.messages@)
    }

    /// The summaries of the tools run so far.
    pub closed spec fn summaries(&self) -> Seq<Seq<char>> {
        strs(self.summary@)
    }

    /// The output collected in the current round.
    pub closed spec fn round_output(&self) -> Seq<char> {
        self.output@
    }

    /// Whether every message is plain text.
    pub closed spec fn plain(&self) -> bool {
        all_plain(self.messages@)
    }

    /// How many rounds of tool calls have been closed.
    pub closed spec fn rounds(&self) -> nat {
        self.rounds as nat
    }

    /// A conversation of the system prompt, the earlier messages and the user's prompt.
    pub fn new(system: &str, user_prompt: &str, history: &[ChatMessage]) -> (c: Self)
        ensures
            c.history() == seq![("system"@, system@)] + message_views(history@) + seq![("user"@, user_prompt@)],
            c.summaries() == Seq::<Seq<char>>::empty(),
            c.round_output() == Seq::<char>::empty(),
            c.plain(),
            c.rounds() == 0,
    {
        let mut messages: Vec<ChatMessage> = Vec::new();
        messages.push(ChatMessage::new("system", system));
        let mut i: usize = 0;
        while i < history.len()
            invariant
                0 <= i <= history@.len(),
                message_views(messages@) == seq![("system"@, system@)] + message_views(history@).take(i as int),
                all_plain(messages@),
            decreases history@.len() - i,
        {
            let m = history[i].plain_copy();
            proof {
                assert(message_views(messages@.push(m)) =~= message_views(messages@).push(m@));
                assert(message_views(history@).take(i + 1) =~= message_views(history@).take(i as int).push(history@[i as int]@));
            }
            messages.push(m);
            i = i + 1;
        }
        let u = ChatMessage::new("user", user_prompt);
        proof {
            assert(message_views(messages@.push(u)) =~= message_views(messages@).push(u@));
            assert(message_views(history@).take(history@.len() as int) =~= message_views(history@));
        }
        messages.push(u);
        let summary: Vec<String> = Vec::new();
        assert(strs(summary@) =~= Seq::<Seq<char>>::empty());
        ToolChat { messages, summary, output: String::new(), rounds: 0 }
    }

    /// Whether another round of tool calls may run; once none may, the
    /// model's next reply is the answer, whatever it holds.
    pub fn rounds_left(&self) -> (b: bool)
        ensures
            b == (self.rounds() < MAX_TOOL_ROUNDS),
    {
        self.rounds < MAX_TOOL_ROUNDS
    }

    /// The messages to send to the model.
    pub fn messages(&self) -> (r: &Vec<ChatMessage>)
        ensures
            message_views(r@) == self.history(),
    {
        &self.messages
    }

    /// The closing status: `done`, or `done: ` and the tool summaries.
    pub fn final_status(&self) -> (r: String)
        ensures
            r@ == final_status_spec(self.summaries()),
    {
        if self.summary.len() == 0 {
            String::from_str("done")
        } else {
            let j = join_strings(&self.summary, ", ");
            let mut r = String::from_str("done: ");
            r.append(j.as_str());
            r
        }
    }

    /// Take in a reply of the model.  A reply without tool blocks is the
    /// answer.  Otherwise its text outside the blocks, when not empty, joins
    /// the conversation as the assistant's, and its calls are to be run.
    pub fn on_reply(&mut self, reply: &str) -> (step: ReplyStep)
        ensures
            !has_calls_spec(reply@) ==> (step matches ReplyStep::Final(st) && st@ == final_status_spec(old(self).summaries())
                && final(self).history() == old(self).history()
                && final(self).round_output() == old(self).round_output()),
            has_calls_spec(reply@) ==> (step matches ReplyStep::Tools(calls)
                && call_views(calls@) == tool_calls_spec(reply@)
                && final(self).history() == old(self).history() + (if strip_spec(reply@).len() > 0 {
                    seq![("assistant"@, strip_spec(reply@))]
                } else {
                    seq![]
                })
                && final(self).round_output() == Seq::<char>::empty()),
            final(self).summaries() == old(self).summaries(),
            final(self).rounds() == old(self).rounds(),
            old(self).plain() ==> final(self).plain(),
    {
        if !has_tool_calls(reply) {
            return ReplyStep::Final(self.final_status());
        }
        let calls = parse_tool_calls(reply);
        let clean = strip_tool_blocks(reply);
        if !clean.as_str().is_empty() {
            let m = ChatMessage::new("assistant", clean.as_str());
            proof {
                assert(message_views(self.messages@.push(m)) =~= message_views(self.messages@).push(m@));
            }
            self.messages.push(m);
        } else {
            assert(self.history() + seq![] =~= self.history());
        }
        self.output = String::new();
        ReplyStep::Tools(calls)
    }

    /// Note that a call is about to run: its status label.
    pub fn begin_call(&mut self, call: &ScriptCall) -> (label: String)
        ensures
            label@ == call.name@ + " "@ + call.args@,
            final(self).round_output() == old(self).round_output() + "Tool: "@ + call.name@ + " "@ + call.args@ + "\n"@,
            final(self).history() == old(self).history(),
            final(self).summaries() == old(self).summaries(),
            final(self).rounds() == old(self).rounds(),
            old(self).plain() ==> final(self).plain(),
    {
        self.output.append("Tool: ");
        self.output.append(call.name.as_str());
        self.output.append(" ");
        self.output.append(call.args.as_str());
        self.output.append("\n");
        let mut label = call.name.clone();
        label.append(" ");
        label.append(call.args.as_str());
        label
    }

    /// Take in what a call gave: its output, or an error.  Returns the status
    /// to show.
    pub fn end_call(&mut self, call: &ScriptCall, result: &Result<String, String>) -> (status: String)
        requires
            result matches Ok(o) ==> (encode_utf8(o@).len() > 8000 ==> vstd::utf8::is_char_boundary(encode_utf8(o@), 8000)),
        ensures
            result matches Ok(o) ==> ({
                let lines = lines_of(o@).len();
                let bytes = encode_utf8(o@).len();
                &&& status@ == call.name@ + ": "@ + decimal(lines) + " lines, "@ + decimal(bytes) + " bytes"@
                &&& final(self).summaries() == old(self).summaries().push(call.name@ + " ("@ + decimal(lines) + " lines)"@)
                &&& exists|shown: Seq<char>| is_shown_output(o@, shown) && final(self).round_output() == old(self).round_output() + shown + "\n---\n"@
            }),
            result matches Err(e) ==> ({
                &&& status@ == call.name@ + ": ERROR"@
                &&& final(self).summaries() == old(self).summaries().push(call.name@ + " failed"@)
                &&& final(self).round_output() == old(self).round_output() + "ERROR: "@ + e@ + "\n"@ + "\n---\n"@
            }),
            final(self).history() == old(self).history(),
            final(self).rounds() == old(self).rounds(),
            old(self).plain() ==> final(self).plain(),
    {
        match result {
            Ok(o) => {
                let bytes = o.as_str().as_bytes().len();
                let lines = split_lines(&chars_of(o.as_str())).len();
                let ghost before = self.output@;
                if bytes > 8000 {
                    let p = byte_prefix(o.as_str(), 8000);
                    self.output.append(p);
                    self.output.append("...\n[truncated]");
                    proof {
                        assert(is_shown_output(o@, p@ + "...\n[truncated]"@));
                        assert(self.output@ =~= before + (p@ + "...\n[truncated]"@));
                    }
                } else {
                    self.output.append(o.as_str());
                    assert(is_shown_output(o@, o@));
                }
                let ghost mid = self.output@;
                self.output.append("\n---\n");
                proof {
                    assert(exists|shown: Seq<char>| is_shown_output(o@, shown) && mid == before + shown);
                    let shown = choose|shown: Seq<char>| is_shown_output(o@, shown) && mid == before + shown;
                    assert(self.output@ =~= before + shown + "\n---\n"@);
                }
                let mut sm = call.name.clone();
                sm.append(" (");
                push_decimal(&mut sm, lines as u64);
                sm.append(" lines)");
                proof {
                    assert(strs(self.summary@.push(sm)) =~= strs(self.summary@).push(sm@));
                }
                self.summary.push(sm);
                let mut st = call.name.clone();
                st.append(": ");
                push_decimal(&mut st, lines as u64);
                st.append(" lines, ");
                push_decimal(&mut st, bytes as u64);
                st.append(" bytes");
                st
            },
            Err(e) => {
                self.output.append("ERROR: ");
                self.output.append(e.as_str());
                self.output.append("\n");
                self.output.append("\n---\n");
                let mut sm = call.name.clone();
                sm.append(" failed");
                proof {
                    assert(strs(self.summary@.push(sm)) =~= strs(self.summary@).push(sm@));
                }
                self.summary.push(sm);
                let mut st = call.name.clone();
                st.append(": ERROR");
                st
            },
        }
    }

    /// Close a round, one of those still allowed: the collected output joins
    /// the conversation as the user's.
    pub fn end_round(&mut self)
        requires
            old(self).rounds() < MAX_TOOL_ROUNDS,
        ensures
            final(self).history() == old(self).history().push(("user"@, "Tool execution results:\n"@ + old(self).round_output())),
            final(self).summaries() == old(self).summaries(),
            final(self).rounds() == old(self).rounds() + 1,
            old(self).plain() ==> final(self).plain(),
    {
        let mut content = String::from_str("Tool execution results:\n");
        content.append(self.output.as_str());
        let m = ChatMessage { role: String::from_str("user"), content, tool_calls: None };
        proof {
            assert(message_views(self.messages@.push(m)) =~= message_views(self.messages@).push(m@));
        }
        self.messages.push(m);
        self.rounds = self.rounds + 1;
    }
}

} // verus!
