//! Messages of the hook bridge: one header line, then the hook's raw JSON.
//!
//! The header is `nebula-hook/1 source=<s> pane=<n>`. The bridge never
//! re-encodes the payload; all reading of it happens here.

use vstd::prelude::*;

use crate::ai_hook::codex;
use crate::text;
use crate::unicode;

verus! {

/// What a lifecycle event means for the pane's turn state.
#[derive(Debug, Clone, Copy, PartialEq, Eq, Structural)]
pub enum AiHookKind {
    /// The user submitted a prompt: a turn is running.
    PromptSubmit,
    /// The turn finished; the CLI waits for the next instruction.
    TurnDone,
    /// The CLI needs the user NOW (permission prompt, idle reminder).
    NeedsAttention,
}

/// A typed AI-CLI lifecycle event, parsed from one pipe connection.
#[derive(Debug)]
pub struct AiHookEvent {
    /// Pane hosting the CLI; `None` falls back to the focused pane (only happens
    /// when the environment was stripped along the way).
    pub pane: Option<u64>,
    /// The name of the tool, which becomes the toast title.
    pub source: String,
    pub kind: AiHookKind,
    /// Human text when the event carries one.
    pub message: Option<String>,
}

/// A lifecycle event as a value.
pub struct HookEvent {
    pub pane: Option<u64>,
    pub source: Seq<char>,
    pub kind: AiHookKind,
    pub message: Option<Seq<char>>,
}

impl AiHookEvent {
    pub open spec fn value(self) -> HookEvent {
        HookEvent {
            pane: self.pane,
            source: self.source@,
            kind: self.kind,
            message: codex::optional_text(self.message),
        }
    }
}

/// The longest message that is kept whole.
pub const MESSAGE_MAX: usize = 300;

/// A text cut to a number of characters, with an ellipsis where it was longer.
pub open spec fn shortened(s: Seq<char>, max_chars: nat) -> Seq<char> {
    if s.len() <= max_chars {
        s
    } else {
        s.take(max_chars as int).push('…')
    }
}

/// Char-boundary-safe cut with an ellipsis (toast bodies are small).
pub fn truncate(s: &str, max_chars: usize) -> (r: String)
    ensures
        r@ == shortened(s@, max_chars as nat),
{
    let v = text::chars_of(s);
    if v.len() <= max_chars {
        return s.to_owned();
    }
    let mut cut = text::string_of_range(v.as_slice(), 0, max_chars);
    cut.push('…');
    assert(cut@ =~= shortened(s@, max_chars as nat));
    cut
}

/// The payload key that names the event and the one that holds the message.
/// `hooks_tool` is the name of the tool whose hooks report in its own format.
pub open spec fn payload_keys(hooks_tool: Seq<char>, source: Seq<char>) -> Option<(Seq<char>, Seq<char>)> {
    if source == hooks_tool {
        Some(("hook_event_name"@, "message"@))
    } else if source == "codex"@ {
        Some(("type"@, "last-assistant-message"@))
    } else if source == "opencode"@ {
        Some(("kind"@, "message"@))
    } else {
        None
    }
}

pub open spec fn short_message(message: Option<Seq<char>>) -> Option<Seq<char>> {
    match message {
        Some(m) => Some(shortened(m, MESSAGE_MAX as nat)),
        None => None,
    }
}

/// What an event of a tool means, and the message it carries. Events that would
/// only produce noise mean nothing.
pub open spec fn meaning(
    hooks_tool: Seq<char>,
    source: Seq<char>,
    event: Option<Seq<char>>,
    message: Option<Seq<char>>,
) -> Option<(AiHookKind, Option<Seq<char>>)> {
    match event {
        None => None,
        Some(event) => if source == hooks_tool {
            if event == "UserPromptSubmit"@ {
                Some((AiHookKind::PromptSubmit, None))
            } else if event == "Stop"@ {
                Some((AiHookKind::TurnDone, None))
            } else if event == "Notification"@ {
                Some((AiHookKind::NeedsAttention, message))
            } else {
                None
            }
        } else if source == "codex"@ {
            if event == "agent-turn-complete"@ {
                Some((AiHookKind::TurnDone, short_message(message)))
            } else {
                None
            }
        } else if source == "opencode"@ {
            if event == "prompt"@ {
                Some((AiHookKind::PromptSubmit, None))
            } else if event == "done"@ {
                Some((AiHookKind::TurnDone, None))
            } else if event == "attention"@ {
                Some((AiHookKind::NeedsAttention, short_message(message)))
            } else {
                None
            }
        } else {
            None
        },
    }
}

pub open spec fn optional_str(s: Option<&str>) -> Option<Seq<char>> {
    match s {
        Some(s) => Some(s@),
        None => None,
    }
}

fn keep_message(message: Option<&str>) -> (r: Option<String>)
    ensures
        codex::optional_text(r) == optional_str(message),
{
    match message {
        Some(m) => Some(m.to_owned()),
        None => None,
    }
}

fn cut_message(message: Option<&str>) -> (r: Option<String>)
    ensures
        codex::optional_text(r) == short_message(optional_str(message)),
{
    match message {
        Some(m) => Some(truncate(m, MESSAGE_MAX)),
        None => None,
    }
}

/// A classified event as a value.
pub open spec fn classified(r: Option<(AiHookKind, Option<String>)>) -> Option<
    (AiHookKind, Option<Seq<char>>),
> {
    match r {
        Some((kind, message)) => Some((kind, codex::optional_text(message))),
        None => None,
    }
}

/// What an event of a tool means, and the message it carries.
pub fn classify(
    hooks_tool: &str,
    source: &str,
    event: Option<&str>,
    message: Option<&str>,
) -> (r: Option<(AiHookKind, Option<String>)>)
    ensures
        classified(r) == meaning(
            hooks_tool@,
            source@,
            optional_str(event),
            optional_str(message),
        ),
{
    let event: &str = match event {
        Some(event) => event,
        None => return None,
    };
    if text::str_eq(source, hooks_tool) {
        if text::str_eq(event, "UserPromptSubmit") {
            Some((AiHookKind::PromptSubmit, None))
        } else if text::str_eq(event, "Stop") {
            Some((AiHookKind::TurnDone, None))
        } else if text::str_eq(event, "Notification") {
            Some((AiHookKind::NeedsAttention, keep_message(message)))
        } else {
            None
        }
    } else if text::str_eq(source, "codex") {
        if text::str_eq(event, "agent-turn-complete") {
            Some((AiHookKind::TurnDone, cut_message(message)))
        } else {
            None
        }
    } else if text::str_eq(source, "opencode") {
        if text::str_eq(event, "prompt") {
            Some((AiHookKind::PromptSubmit, None))
        } else if text::str_eq(event, "done") {
            Some((AiHookKind::TurnDone, None))
        } else if text::str_eq(event, "attention") {
            Some((AiHookKind::NeedsAttention, cut_message(message)))
        } else {
            None
        }
    } else {
        None
    }
}

/// The string under a key of a JSON object, where the bytes are JSON, hold an
/// object, and have a string there.
pub uninterp spec fn json_text(raw: Seq<u8>, key: Seq<char>) -> Option<Seq<char>>;

/// `serde_json`: parses `raw` with `from_slice` and reads the string under
/// `key` with `Value::get` and `Value::as_str`.
#[verifier::external_body]
fn read_json_text(raw: &[u8], key: &str) -> (r: Option<String>)
    ensures
        codex::optional_text(r) == json_text(raw@, key@),
{
    let payload: serde_json::Value = serde_json::from_slice(raw).ok()?;
    payload.get(key).and_then(serde_json::Value::as_str).map(str::to_owned)
}

/// `std::str::from_utf8`: the text that bytes encode, where they are UTF-8.
#[verifier::external_body]
fn decode(b: &[u8]) -> (r: Option<String>)
    ensures
        r is Some <==> vstd::utf8::valid_utf8(b@),
        r matches Some(s) ==> s@ == vstd::utf8::decode_utf8(b@),
{
    std::str::from_utf8(b).ok().map(str::to_owned)
}

/// The name and the value of a `name=value` field, split at the first `=`.
pub open spec fn split_field(field: Seq<char>) -> Option<(Seq<char>, Seq<char>)> {
    match text::find_from(field, seq!['='], 0) {
        Some(i) => Some((field.take(i), field.skip(i + 1))),
        None => None,
    }
}

/// The fields of a header line.
pub struct Header {
    pub source: Option<Seq<char>>,
    pub pane: Option<u64>,
}

/// The header that fields make: a later field overrides an earlier one, and a
/// pane that is no number is as good as none.
pub open spec fn header_of(fields: Seq<Seq<char>>) -> Header
    decreases fields.len(),
{
    if fields.len() == 0 {
        Header { source: None, pane: None }
    } else {
        let before = header_of(fields.drop_last());
        match split_field(fields.last()) {
            Some((name, value)) => if name == "source"@ {
                Header { source: Some(value), pane: before.pane }
            } else if name == "pane"@ {
                Header { source: before.source, pane: text::number(value) }
            } else {
                before
            },
            None => before,
        }
    }
}

/// Where the first line of a message ends.
pub open spec fn line_end(b: Seq<u8>) -> nat
    decreases b.len(),
{
    if b.len() == 0 || b[0] == 10 {
        0
    } else {
        1 + line_end(b.drop_first())
    }
}

/// The event that a header and a payload report.
pub open spec fn event_of(fields: Seq<Seq<char>>, raw: Seq<u8>, hooks_tool: Seq<char>) -> Option<
    HookEvent,
> {
    if fields.len() == 0 || fields[0] != "nebula-hook/1"@ {
        None
    } else {
        let header = header_of(fields.drop_first());
        match header.source {
            None => None,
            Some(source) => match payload_keys(hooks_tool, source) {
                None => None,
                Some((event_key, message_key)) => match meaning(
                    hooks_tool,
                    source,
                    json_text(raw, event_key),
                    json_text(raw, message_key),
                ) {
                    None => None,
                    Some((kind, message)) => Some(
                        HookEvent { pane: header.pane, source, kind, message },
                    ),
                },
            },
        }
    }
}

/// The event that a message reports.
pub open spec fn envelope(bytes: Seq<u8>, hooks_tool: Seq<char>) -> Option<HookEvent> {
    let nl = line_end(bytes) as int;
    if nl >= bytes.len() || !vstd::utf8::valid_utf8(bytes.take(nl)) {
        None
    } else {
        event_of(
            unicode::words(vstd::utf8::decode_utf8(bytes.take(nl))),
            bytes.skip(nl + 1),
            hooks_tool,
        )
    }
}

/// The fields of a header line, as read.
pub struct HeaderFields {
    pub source: Option<String>,
    pub pane: Option<u64>,
}

impl HeaderFields {
    pub open spec fn value(self) -> Header {
        Header { source: codex::optional_text(self.source), pane: self.pane }
    }
}

pub open spec fn texts(v: Seq<Vec<char>>) -> Seq<Seq<char>> {
    v.map_values(|w: Vec<char>| w@)
}

/// The header that fields make, from the second one on.
pub fn read_header(fields: &Vec<Vec<char>>) -> (r: HeaderFields)
    requires
        fields@.len() > 0,
    ensures
        r.value() == header_of(texts(fields@).drop_first()),
{
    let ghost rest = texts(fields@).drop_first();
    let mut source: Option<String> = None;
    let mut pane: Option<u64> = None;
    let mut i: usize = 1;
    assert(rest.take(0) =~= Seq::empty());
    while i < fields.len()
        invariant
            1 <= i <= fields@.len(),
            rest == texts(fields@).drop_first(),
            header_of(rest.take(i - 1)) == (Header { source: codex::optional_text(source), pane }),
        decreases fields@.len() - i,
    {
        let field: &Vec<char> = &fields[i];
        proof {
            assert(rest.take(i as int).drop_last() =~= rest.take(i - 1));
            assert(rest.take(i as int).last() == field@);
            text::lemma_find_from(field@, seq!['='], 0);
        }
        let equals = text::chars_of("=");
        proof {
            reveal_strlit("=");
            assert(equals@ =~= seq!['=']);
        }
        if let Some(at) = text::find(field.as_slice(), equals.as_slice()) {
            let len: usize = field.len();
            let name = text::string_of_range(field.as_slice(), 0, at);
            let value = text::chars_of_range(field.as_slice(), at + 1, len);
            assert(name@ =~= field@.take(at as int));
            assert(value@ =~= field@.skip(at + 1));
            if text::str_eq(name.as_str(), "source") {
                source = Some(text::string_of(value.as_slice()));
            } else if text::str_eq(name.as_str(), "pane") {
                pane = text::parse_number(value.as_slice());
            }
        }
        i += 1;
    }
    assert(rest.take(i - 1) =~= rest);
    HeaderFields { source, pane }
}

fn find_line_end(b: &[u8]) -> (r: usize)
    ensures
        r == line_end(b@),
        r <= b@.len(),
{
    let mut i: usize = 0;
    assert(b@.skip(0) =~= b@);
    while i < b.len() && b[i] != 10
        invariant
            i <= b@.len(),
            line_end(b@) == i + line_end(b@.skip(i as int)),
        decreases b@.len() - i,
    {
        assert(b@.skip(i as int).drop_first() =~= b@.skip(i + 1));
        i += 1;
    }
    i
}

fn keys_of(hooks_tool: &str, source: &str) -> (r: Option<(&'static str, &'static str)>)
    ensures
        payload_keys(hooks_tool@, source@) == match r {
            Some((event, message)) => Some((event@, message@)),
            None => None,
        },
{
    if text::str_eq(source, hooks_tool) {
        Some(("hook_event_name", "message"))
    } else if text::str_eq(source, "codex") {
        Some(("type", "last-assistant-message"))
    } else if text::str_eq(source, "opencode") {
        Some(("kind", "message"))
    } else {
        None
    }
}

fn borrowed(s: &Option<String>) -> (r: Option<&str>)
    ensures
        optional_str(r) == codex::optional_text(*s),
{
    match s {
        Some(s) => Some(s.as_str()),
        None => None,
    }
}

pub open spec fn optional_event(e: Option<AiHookEvent>) -> Option<HookEvent> {
    match e {
        Some(e) => Some(e.value()),
        None => None,
    }
}

/// Parses one pipe message: a header line, then the hook's raw JSON payload.
pub fn parse_envelope(bytes: &[u8], hooks_tool: &str) -> (r: Option<AiHookEvent>)
    ensures
        optional_event(r) == envelope(bytes@, hooks_tool@),
{
    let nl: usize = find_line_end(bytes);
    if nl == bytes.len() {
        return None;
    }
    let line = vstd::slice::slice_subrange(bytes, 0, nl);
    let raw = vstd::slice::slice_subrange(bytes, nl + 1, bytes.len());
    assert(line@ =~= bytes@.take(nl as int));
    assert(raw@ =~= bytes@.skip(nl + 1));
    let header = match decode(line) {
        Some(header) => header,
        None => return None,
    };
    let fields = unicode::split_words(text::chars_of(header.as_str()).as_slice());
    if fields.len() == 0 {
        return None;
    }
    assert(texts(fields@)[0] == fields@[0]@);
    if !text::same(fields[0].as_slice(), text::chars_of("nebula-hook/1").as_slice()) {
        return None;
    }
    let header = read_header(&fields);
    let source = match header.source {
        Some(source) => source,
        None => return None,
    };
    let (event_key, message_key) = match keys_of(hooks_tool, source.as_str()) {
        Some(keys) => keys,
        None => return None,
    };
    let event = read_json_text(raw, event_key);
    let message = read_json_text(raw, message_key);
    match classify(hooks_tool, source.as_str(), borrowed(&event), borrowed(&message)) {
        Some((kind, message)) => Some(AiHookEvent { pane: header.pane, source, kind, message }),
        None => None,
    }
}

/// Nothing legitimate holds more bytes than this.
pub const MESSAGE_CAP: usize = 1048576;

/// What a message holds once some chunks were read, and whether to read on:
/// not after an empty chunk, and not beyond the cap.
pub open spec fn received(chunks: Seq<Seq<u8>>) -> (Seq<u8>, bool)
    decreases chunks.len(),
{
    if chunks.len() == 0 {
        (Seq::empty(), true)
    } else {
        let (message, more) = received(chunks.drop_last());
        if more {
            (message + chunks.last(), reads_on(message, chunks.last()))
        } else {
            (message, false)
        }
    }
}

pub open spec fn reads_on(message: Seq<u8>, chunk: Seq<u8>) -> bool {
    chunk.len() > 0 && message.len() + chunk.len() <= MESSAGE_CAP
}

/// Adds what was read last to a message, and tells whether to read on: not after
/// the end, and not beyond the cap.
pub fn receive(message: &mut Vec<u8>, chunk: &[u8]) -> (more: bool)
    requires
        old(message)@.len() + chunk@.len() <= usize::MAX,
    ensures
        final(message)@ == old(message)@ + chunk@,
        more == reads_on(old(message)@, chunk@),
{
    message.extend_from_slice(chunk);
    assert(message@ =~= old(message)@ + chunk@);
    chunk.len() > 0 && message.len() <= MESSAGE_CAP
}

/// However much a sender writes, at most one chunk is kept beyond the cap.
pub proof fn law_messages_are_bounded(chunks: Seq<Seq<u8>>, chunk_size: nat)
    requires
        forall|i: int| 0 <= i < chunks.len() ==> (#[trigger] chunks[i]).len() <= chunk_size,
    ensures
        received(chunks).0.len() <= MESSAGE_CAP + chunk_size,
        received(chunks).1 ==> received(chunks).0.len() <= MESSAGE_CAP,
    decreases chunks.len(),
{
    if chunks.len() > 0 {
        law_messages_are_bounded(chunks.drop_last(), chunk_size);
    }
}

proof fn lemma_split_at(name: Seq<char>, value: Seq<char>, i: int)
    requires
        0 <= i <= name.len(),
        forall|j: int| 0 <= j < name.len() ==> name[j] != '=',
    ensures
        text::find_from(name + seq!['='] + value, seq!['='], i) == Some(name.len() as int),
    decreases name.len() - i,
{
    let s = name + seq!['='] + value;
    assert(s.subrange(i, i + 1)[0] == s[i]);
    if i < name.len() {
        assert(seq!['='][0] == '=');
        lemma_split_at(name, value, i + 1);
    } else {
        assert(s.subrange(i, i + 1) =~= seq!['=']);
    }
}

pub open spec fn field(name: Seq<char>, value: Seq<char>) -> Seq<char> {
    name + seq!['='] + value
}

/// What the bridge writes into the header is what is read from it.
pub proof fn law_headers_read_back(source: Seq<char>, pane: u64)
    ensures
        header_of(
            seq![field("source"@, source), field("pane"@, text::digits_of(pane as nat))],
        ).source == Some(source),
        header_of(
            seq![field("source"@, source), field("pane"@, text::digits_of(pane as nat))],
        ).pane == Some(pane),
{
    reveal_strlit("source");
    reveal_strlit("pane");
    assert("source"@.len() == 6);
    assert("pane"@.len() == 4);
    let digits = text::digits_of(pane as nat);
    let f0 = field("source"@, source);
    let f1 = field("pane"@, digits);
    let fields = seq![f0, f1];
    lemma_split_at("source"@, source, 0);
    lemma_split_at("pane"@, digits, 0);
    assert(f0.take(6) =~= "source"@);
    assert(f0.skip(7) =~= source);
    assert(f1.take(4) =~= "pane"@);
    assert(f1.skip(5) =~= digits);
    text::law_numbers_read_back(pane);
    let one = fields.drop_last();
    assert(one =~= seq![f0]);
    assert(one.drop_last() =~= Seq::empty());
    assert(header_of(one).source == Some(source));
    assert(fields.last() == f1);
    assert(split_field(f1) == Some(("pane"@, digits)));
}

/// Only the tools that we know report events, and never with a long text of an
/// assistant.
pub proof fn law_only_known_tools_report(
    hooks_tool: Seq<char>,
    source: Seq<char>,
    event: Option<Seq<char>>,
    message: Option<Seq<char>>,
)
    ensures
        meaning(hooks_tool, source, event, message) is Some ==> payload_keys(hooks_tool, source)
            is Some,
        source != hooks_tool ==> (meaning(hooks_tool, source, event, message) matches Some((_, Some(m)))
            ==> m.len() <= MESSAGE_MAX + 1),
{
}

} // verus!
