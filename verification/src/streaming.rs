//! The chat-completion stream: each chunk of the transport is read line by
//! line for `data:` payloads, a payload is decoded as a chat-completion
//! delta, and the payload `[DONE]` ends the stream.

use crate::error::{ClientError, ClientResult, HttpFailure};
use crate::json::{json_document, parse_json, JsonValue};
use crate::sse::{complete_records, pending, FrameAssembler};
use crate::text::{
    chars_of, has_prefix, lines, same_text, split_lines, starts_with, string_of, sub_vec,
    texts_of, trim, trimmed,
};
use vstd::prelude::*;
use vstd::utf8::{decode_utf8, valid_utf8};

verus! {

/// What a delta adds to a message.
#[derive(Debug, Clone)]
pub struct ChatCompletionChunkDelta {
    pub role: Option<String>,
    pub content: Option<String>,
}

/// One choice of a chunk.
#[derive(Debug, Clone)]
pub struct ChatCompletionChunkChoice {
    pub index: u32,
    pub delta: ChatCompletionChunkDelta,
    pub finish_reason: Option<String>,
}

/// One increment of a chat completion.
#[derive(Debug, Clone)]
pub struct ChatCompletionChunk {
    pub id: String,
    pub object: String,
    pub created: u64,
    pub model: String,
    pub choices: Vec<ChatCompletionChunkChoice>,
}

/// What one chunk of the transport was read as.
#[derive(Debug, Clone)]
pub struct StreamChunk {
    /// The text of the chunk as it came.
    pub raw: String,
    /// The delta that its payload holds, if it holds one.
    pub chunk: Option<ChatCompletionChunk>,
    /// Whether the chunk ends the stream.
    pub is_done: bool,
}

/// A `ChatCompletionChunkDelta` as a value.
pub struct DeltaModel {
    pub role: Option<Seq<char>>,
    pub content: Option<Seq<char>>,
}

/// A `ChatCompletionChunkChoice` as a value.
pub struct ChoiceModel {
    pub index: u32,
    pub delta: DeltaModel,
    pub finish_reason: Option<Seq<char>>,
}

/// A `ChatCompletionChunk` as a value.
pub struct ChunkModel {
    pub id: Seq<char>,
    pub object: Seq<char>,
    pub created: u64,
    pub model: Seq<char>,
    pub choices: Seq<ChoiceModel>,
}

/// A `StreamChunk` as a value.
pub struct StreamChunkModel {
    pub raw: Seq<char>,
    pub chunk: Option<ChunkModel>,
    pub is_done: bool,
}

/// The text of an optional string.
pub open spec fn text_of_option(o: Option<String>) -> Option<Seq<char>> {
    match o {
        Some(s) => Some(s@),
        None => None,
    }
}

impl View for ChatCompletionChunkDelta {
    type V = DeltaModel;

    open spec fn view(&self) -> DeltaModel {
        DeltaModel { role: text_of_option(self.role), content: text_of_option(self.content) }
    }
}

impl View for ChatCompletionChunkChoice {
    type V = ChoiceModel;

    open spec fn view(&self) -> ChoiceModel {
        ChoiceModel {
            index: self.index,
            delta: self.delta@,
            finish_reason: text_of_option(self.finish_reason),
        }
    }
}

impl View for ChatCompletionChunk {
    type V = ChunkModel;

    open spec fn view(&self) -> ChunkModel {
        ChunkModel {
            id: self.id@,
            object: self.object@,
            created: self.created,
            model: self.model@,
            choices: self.choices@.map_values(|c: ChatCompletionChunkChoice| c@),
        }
    }
}

impl View for StreamChunk {
    type V = StreamChunkModel;

    open spec fn view(&self) -> StreamChunkModel {
        StreamChunkModel {
            raw: self.raw@,
            chunk: match self.chunk {
                Some(c) => Some(c@),
                None => None,
            },
            is_done: self.is_done,
        }
    }
}

/// The member `key` of `v` read as an optional string: absent when the
/// member is missing or `null`. Nothing when it holds anything but a string.
pub open spec fn optional_text(v: JsonValue, key: Seq<char>) -> Option<Option<Seq<char>>> {
    match v.member(key) {
        None => Some(None),
        Some(JsonValue::Null) => Some(None),
        Some(JsonValue::Text(t)) => Some(Some(t@)),
        Some(_) => None,
    }
}

/// The member `key` of `v` read as a string that has to be there.
pub open spec fn required_text(v: JsonValue, key: Seq<char>) -> Option<Seq<char>> {
    match v.member(key) {
        Some(JsonValue::Text(t)) => Some(t@),
        _ => None,
    }
}

/// The member `key` of `v` read as an integer from 0 to `u64::MAX` that has
/// to be there.
pub open spec fn required_unsigned(v: JsonValue, key: Seq<char>) -> Option<u64> {
    match v.member(key) {
        Some(JsonValue::Number(n)) => n.unsigned,
        _ => None,
    }
}

/// `v` read as a delta: an object whose `role` and `content` are optional
/// strings.
pub open spec fn delta_model(v: JsonValue) -> Option<DeltaModel> {
    if v is Object && optional_text(v, "role"@) is Some && optional_text(v, "content"@) is Some {
        Some(
            DeltaModel {
                role: optional_text(v, "role"@)->0,
                content: optional_text(v, "content"@)->0,
            },
        )
    } else {
        None
    }
}

/// `v` read as a choice: an object with an `index` that fits 32 bits, a
/// `delta`, and an optional string `finish_reason`.
pub open spec fn choice_model(v: JsonValue) -> Option<ChoiceModel> {
    if v is Object && required_unsigned(v, "index"@) is Some && required_unsigned(v, "index"@)->0
        <= u32::MAX && v.member("delta"@) is Some && delta_model(v.member("delta"@)->0) is Some
        && optional_text(v, "finish_reason"@) is Some {
        Some(
            ChoiceModel {
                index: required_unsigned(v, "index"@)->0 as u32,
                delta: delta_model(v.member("delta"@)->0)->0,
                finish_reason: optional_text(v, "finish_reason"@)->0,
            },
        )
    } else {
        None
    }
}

/// `items` read as choices, which each of them has to be.
pub open spec fn choices_model(items: Seq<JsonValue>) -> Option<Seq<ChoiceModel>> {
    if forall|i: int| 0 <= i < items.len() ==> choice_model(#[trigger] items[i]) is Some {
        Some(Seq::new(items.len(), |i: int| choice_model(items[i])->0))
    } else {
        None
    }
}

/// `v` read as a chat-completion delta object: an object with the strings
/// `id`, `object` and `model`, the integer `created`, and an array `choices`
/// of choices. Other members are passed over.
pub open spec fn chunk_model(v: JsonValue) -> Option<ChunkModel> {
    if v is Object && required_text(v, "id"@) is Some && required_text(v, "object"@) is Some
        && required_unsigned(v, "created"@) is Some && required_text(v, "model"@) is Some
        && v.member("choices"@) is Some && v.member("choices"@)->0 is Array && choices_model(
        v.member("choices"@)->0->Array_0@,
    ) is Some {
        Some(
            ChunkModel {
                id: required_text(v, "id"@)->0,
                object: required_text(v, "object"@)->0,
                created: required_unsigned(v, "created"@)->0,
                model: required_text(v, "model"@)->0,
                choices: choices_model(v.member("choices"@)->0->Array_0@)->0,
            },
        )
    } else {
        None
    }
}

/// Whether reading succeeded with exactly this optional string.
pub open spec fn is_optional_text(r: Option<Option<String>>, m: Option<Option<Seq<char>>>) -> bool {
    match m {
        Some(t) => r is Some && text_of_option(r->0) == t,
        None => r is None,
    }
}

/// Reads the member `key` of `v` as an optional string.
fn read_optional_text(v: &JsonValue, key: &str) -> (r: Option<Option<String>>)
    ensures
        is_optional_text(r, optional_text(*v, key@)),
{
    match v.get(key) {
        None => Some(None),
        Some(JsonValue::Null) => Some(None),
        Some(JsonValue::Text(t)) => Some(Some(t.clone())),
        Some(_) => None,
    }
}

/// Reads the member `key` of `v` as a string that has to be there.
fn read_required_text(v: &JsonValue, key: &str) -> (r: Option<String>)
    ensures
        text_of_option(r) == required_text(*v, key@),
{
    match v.get(key) {
        Some(JsonValue::Text(t)) => Some(t.clone()),
        _ => None,
    }
}

/// Reads the member `key` of `v` as an unsigned integer that has to be
/// there.
fn read_required_unsigned(v: &JsonValue, key: &str) -> (r: Option<u64>)
    ensures
        r == required_unsigned(*v, key@),
{
    match v.get(key) {
        Some(JsonValue::Number(n)) => n.unsigned,
        _ => None,
    }
}

/// Reads `v` as a delta.
pub fn decode_delta(v: &JsonValue) -> (r: Option<ChatCompletionChunkDelta>)
    ensures
        match delta_model(*v) {
            Some(m) => r is Some && r->0@ == m,
            None => r is None,
        },
{
    if !v.is_object() {
        return None;
    }
    let role = match read_optional_text(v, "role") {
        Some(t) => t,
        None => { return None; },
    };
    let content = match read_optional_text(v, "content") {
        Some(t) => t,
        None => { return None; },
    };
    Some(ChatCompletionChunkDelta { role, content })
}

/// Reads `v` as a choice.
pub fn decode_choice(v: &JsonValue) -> (r: Option<ChatCompletionChunkChoice>)
    ensures
        match choice_model(*v) {
            Some(m) => r is Some && r->0@ == m,
            None => r is None,
        },
{
    if !v.is_object() {
        return None;
    }
    let index: u32 = match read_required_unsigned(v, "index") {
        Some(n) => {
            if n > 0xFFFF_FFFF {
                return None;
            }
            n as u32
        },
        None => { return None; },
    };
    let delta = match v.get("delta") {
        Some(d) => match decode_delta(d) {
            Some(delta) => delta,
            None => { return None; },
        },
        None => { return None; },
    };
    let finish_reason = match read_optional_text(v, "finish_reason") {
        Some(t) => t,
        None => { return None; },
    };
    Some(ChatCompletionChunkChoice { index, delta, finish_reason })
}

/// Reads `v` as a chat-completion delta object.
pub fn decode_chunk(v: &JsonValue) -> (r: Option<ChatCompletionChunk>)
    ensures
        match chunk_model(*v) {
            Some(m) => r is Some && r->0@ == m,
            None => r is None,
        },
{
    if !v.is_object() {
        return None;
    }
    let id = match read_required_text(v, "id") {
        Some(t) => t,
        None => { return None; },
    };
    let object = match read_required_text(v, "object") {
        Some(t) => t,
        None => { return None; },
    };
    let created = match read_required_unsigned(v, "created") {
        Some(n) => n,
        None => { return None; },
    };
    let model = match read_required_text(v, "model") {
        Some(t) => t,
        None => { return None; },
    };
    let items = match v.get("choices") {
        Some(JsonValue::Array(items)) => items,
        _ => { return None; },
    };
    let mut choices: Vec<ChatCompletionChunkChoice> = Vec::new();
    let mut i: usize = 0;
    while i < items.len()
        invariant
            i <= items.len(),
            choices.len() == i,
            v.member("choices"@) == Some(JsonValue::Array(*items)),
            forall|k: int| 0 <= k < i ==> choice_model(#[trigger] items@[k]) is Some,
            forall|k: int| 0 <= k < i ==> (#[trigger] choices@[k])@ == choice_model(items@[k])->0,
        decreases items.len() - i,
    {
        match decode_choice(&items[i]) {
            Some(c) => {
                choices.push(c);
            },
            None => {
                return None;
            },
        }
        i += 1;
    }
    let chunk = ChatCompletionChunk { id, object, created, model, choices };
    proof {
        assert(chunk@.choices =~= choices_model(items@)->0);
    }
    Some(chunk)
}

/// What the lines of one chunk come to: the payload that counts, and
/// whether the end of the stream was announced.
pub struct ChatScan {
    pub data: Seq<char>,
    pub done: bool,
}

/// Reads `lines` in order, with `data` the payload seen so far. Each line
/// is taken without the white space around it. A line `data: ` with a
/// payload replaces the payload seen so far; the payload `[DONE]` announces
/// the end, and no line behind it is read. Other lines change nothing.
pub open spec fn chat_scan(lines: Seq<Seq<char>>, data: Seq<char>) -> ChatScan
    decreases lines.len(),
{
    if lines.len() == 0 {
        ChatScan { data, done: false }
    } else {
        let line = trim(lines[0]);
        if has_prefix(line, "data: "@) {
            let payload = line.skip("data: "@.len() as int);
            if payload == "[DONE]"@ {
                ChatScan { data, done: true }
            } else {
                chat_scan(lines.drop_first(), payload)
            }
        } else {
            chat_scan(lines.drop_first(), data)
        }
    }
}

/// Whether `payload` can open a JSON object: it begins with an opening
/// brace, or with white space that JSON allows before one.
pub open spec fn may_open_object(payload: Seq<char>) -> bool {
    payload.len() > 0 && (payload[0] == '{' || crate::json::is_json_space(payload[0]))
}

/// The payloads of a heartbeat and of a keep-alive cannot open a JSON
/// object, so no chunk read from one carries a delta.
pub proof fn lemma_pings_open_no_object()
    ensures
        !may_open_object("ping"@),
        !may_open_object("keep-alive"@),
        !may_open_object(Seq::empty()),
{
    reveal_strlit("ping");
    reveal_strlit("keep-alive");
}

/// The delta that `payload` holds: none for the empty payload, for text
/// that is no JSON document, and for a document that is no delta object.
pub open spec fn payload_model(payload: Seq<char>) -> Option<ChunkModel> {
    if payload.len() == 0 {
        None
    } else {
        match json_document(payload) {
            Some(v) => chunk_model(v),
            None => None,
        }
    }
}

/// What the chunk `text` is read as. A chunk that announces the end is
/// terminal and carries no delta; any other chunk carries the delta of its
/// last payload, if that payload holds one.
pub open spec fn chat_chunk_model(text: Seq<char>) -> StreamChunkModel {
    let scan = chat_scan(lines(text), Seq::empty());
    if scan.done {
        StreamChunkModel { raw: text, chunk: None, is_done: true }
    } else {
        StreamChunkModel { raw: text, chunk: payload_model(scan.data), is_done: false }
    }
}

/// Lines of which one is `data: [DONE]`, white space around it or not,
/// announce the end.
pub proof fn lemma_done_line_ends_scan(ls: Seq<Seq<char>>, data: Seq<char>, k: int)
    requires
        0 <= k < ls.len(),
        trim(ls[k]) == "data: [DONE]"@,
    ensures
        chat_scan(ls, data).done,
    decreases ls.len(),
{
    reveal_strlit("data: [DONE]");
    reveal_strlit("data: ");
    reveal_strlit("[DONE]");
    let line = trim(ls[0]);
    if k == 0 {
        assert(line.subrange(0, 6) =~= "data: "@);
        assert(line.skip(6) =~= "[DONE]"@);
    } else {
        let rest = ls.drop_first();
        assert(rest[k - 1] == ls[k]);
        if has_prefix(line, "data: "@) {
            let payload = line.skip("data: "@.len() as int);
            if payload != "[DONE]"@ {
                lemma_done_line_ends_scan(rest, payload, k - 1);
            }
        } else {
            lemma_done_line_ends_scan(rest, data, k - 1);
        }
    }
}

/// A chunk with the payload `[DONE]` is read as one terminal chunk that
/// carries no delta.
pub proof fn lemma_done_is_terminal(text: Seq<char>, k: int)
    requires
        0 <= k < lines(text).len(),
        trim(lines(text)[k]) == "data: [DONE]"@,
    ensures
        chat_chunk_model(text).is_done,
        chat_chunk_model(text).chunk is None,
{
    lemma_done_line_ends_scan(lines(text), Seq::empty(), k);
}

/// Reads the lines of `text` for `data:` payloads: the payload that counts,
/// and whether the end of the stream was announced.
pub fn scan_chat_lines(text: &str) -> (r: (String, bool))
    ensures
        r.0@ == chat_scan(lines(text@), Seq::empty()).data,
        r.1 == chat_scan(lines(text@), Seq::empty()).done,
{
    let chars = chars_of(text);
    let all = split_lines(&chars);
    let prefix = chars_of("data: ");
    let done_mark = chars_of("[DONE]");
    let mut data: Vec<char> = Vec::new();
    let mut i: usize = 0;
    let ghost ls = lines(text@);
    proof {
        assert(ls.skip(0) =~= ls);
    }
    while i < all.len()
        invariant
            i <= all.len(),
            ls == lines(text@),
            all.len() == ls.len(),
            forall|k: int| 0 <= k < all.len() ==> (#[trigger] all[k])@ == ls[k],
            prefix@ == "data: "@,
            done_mark@ == "[DONE]"@,
            chat_scan(ls, Seq::empty()) == chat_scan(ls.skip(i as int), data@),
        decreases all.len() - i,
    {
        let line = trimmed(&all[i]);
        proof {
            assert(ls.skip(i as int)[0] == ls[i as int]);
            assert(ls.skip(i as int).drop_first() =~= ls.skip(i + 1));
        }
        if starts_with(&line, &prefix) {
            let payload = sub_vec(&line, prefix.len(), line.len());
            proof {
                assert(payload@ =~= line@.skip(prefix@.len() as int));
            }
            if same_text(&payload, &done_mark) {
                return (string_of(&data), true);
            }
            data = payload;
        }
        i += 1;
    }
    (string_of(&data), false)
}

/// Reads the payload of a chunk as a delta, if it holds one.
pub fn decode_payload(payload: &str) -> (r: Option<ChatCompletionChunk>)
    ensures
        match payload_model(payload@) {
            Some(m) => r is Some && r->0@ == m,
            None => r is None,
        },
        r is Some ==> may_open_object(payload@),
{
    if payload.unicode_len() == 0 {
        return None;
    }
    match parse_json(payload) {
        Ok(v) => decode_chunk(&v),
        Err(_) => None,
    }
}

/// Reads one chunk of the transport, given as text. This never fails: a
/// payload that holds no delta gives a chunk without one, and so does text
/// without a payload. A chunk carries a
/// delta only if its payload can open a JSON object, so a keep-alive or a
/// heartbeat never does.
pub fn parse_sse_chunk(text: &str) -> (r: ClientResult<StreamChunk>)
    ensures
        r matches Ok(c) && c@ == chat_chunk_model(text@) && (c.chunk is Some ==> may_open_object(
            chat_scan(lines(text@), Seq::empty()).data,
        )),
{
    let (data, done) = scan_chat_lines(text);
    if done {
        return Ok(StreamChunk { raw: text.to_owned(), chunk: None, is_done: true });
    }
    let chunk = decode_payload(data.as_str());
    Ok(StreamChunk { raw: text.to_owned(), chunk, is_done: false })
}

/// The chunks that `ls` give, one for each `data: ` line in order, up to
/// and including the first that announces the end. Each line is taken
/// without the white space around it; the chunk keeps the line as it came.
pub open spec fn line_chunks(ls: Seq<Seq<char>>) -> Seq<StreamChunkModel>
    decreases ls.len(),
{
    if ls.len() == 0 {
        Seq::empty()
    } else {
        let line = trim(ls[0]);
        if has_prefix(line, "data: "@) {
            let payload = line.skip("data: "@.len() as int);
            if payload == "[DONE]"@ {
                seq![StreamChunkModel { raw: ls[0], chunk: None, is_done: true }]
            } else {
                seq![StreamChunkModel { raw: ls[0], chunk: payload_model(payload), is_done: false }]
                    + line_chunks(ls.drop_first())
            }
        } else {
            line_chunks(ls.drop_first())
        }
    }
}

/// The chunks that `chunks` are as values.
pub open spec fn chunk_views(chunks: Seq<StreamChunk>) -> Seq<StreamChunkModel> {
    chunks.map_values(|c: StreamChunk| c@)
}

/// Of the chunks that lines give, only the last can be terminal: nothing
/// is read behind the line that announces the end.
pub proof fn lemma_terminal_chunk_is_last(ls: Seq<Seq<char>>, k: int)
    requires
        0 <= k < line_chunks(ls).len() - 1,
    ensures
        !line_chunks(ls)[k].is_done,
    decreases ls.len(),
{
    if ls.len() > 0 {
        let line = trim(ls[0]);
        if has_prefix(line, "data: "@) {
            let payload = line.skip("data: "@.len() as int);
            if payload != "[DONE]"@ {
                if k > 0 {
                    lemma_terminal_chunk_is_last(ls.drop_first(), k - 1);
                }
            }
        } else {
            lemma_terminal_chunk_is_last(ls.drop_first(), k);
        }
    }
}

/// Lines announce the end exactly where their last chunk is terminal, and a
/// terminal chunk carries no delta.
pub proof fn lemma_terminal_chunk_agrees(ls: Seq<Seq<char>>, data: Seq<char>)
    ensures
        chat_scan(ls, data).done == (line_chunks(ls).len() > 0 && line_chunks(ls).last().is_done),
        forall|k: int|
            0 <= k < line_chunks(ls).len() && (#[trigger] line_chunks(ls)[k]).is_done
                ==> line_chunks(ls)[k].chunk is None,
    decreases ls.len(),
{
    if ls.len() > 0 {
        let line = trim(ls[0]);
        let rest = ls.drop_first();
        if has_prefix(line, "data: "@) {
            let payload = line.skip("data: "@.len() as int);
            if payload != "[DONE]"@ {
                lemma_terminal_chunk_agrees(rest, payload);
                let head = seq![
                    StreamChunkModel { raw: ls[0], chunk: payload_model(payload), is_done: false },
                ];
                assert(line_chunks(ls) == head + line_chunks(rest));
                assert forall|k: int|
                    0 <= k < line_chunks(ls).len() && (#[trigger] line_chunks(ls)[k]).is_done
                    implies line_chunks(ls)[k].chunk is None by {
                    if k > 0 {
                        assert(line_chunks(ls)[k] == line_chunks(rest)[k - 1]);
                    }
                }
                if line_chunks(rest).len() > 0 {
                    assert(line_chunks(ls).last() == line_chunks(rest).last());
                }
            }
        } else {
            lemma_terminal_chunk_agrees(rest, data);
        }
    }
}

/// Lines of which one is `data: [DONE]` give exactly one terminal chunk:
/// their last chunk, which carries no delta.
pub proof fn lemma_done_gives_one_terminal_chunk(ls: Seq<Seq<char>>, k: int)
    requires
        0 <= k < ls.len(),
        trim(ls[k]) == "data: [DONE]"@,
    ensures
        line_chunks(ls).len() > 0,
        line_chunks(ls).last().is_done,
        line_chunks(ls).last().chunk is None,
        forall|j: int|
            0 <= j < line_chunks(ls).len() - 1 ==> !(#[trigger] line_chunks(ls)[j]).is_done,
{
    lemma_done_line_ends_scan(ls, Seq::empty(), k);
    lemma_terminal_chunk_agrees(ls, Seq::empty());
    assert forall|j: int| 0 <= j < line_chunks(ls).len() - 1 implies !(#[trigger] line_chunks(
        ls,
    )[j]).is_done by {
        lemma_terminal_chunk_is_last(ls, j);
    }
}

/// Reads the lines of one chunk of the transport, given as text: one chunk
/// for each `data: ` line, up to and including the first that announces the
/// end. A payload that holds no delta gives a chunk without one.
pub fn parse_sse_lines(text: &str) -> (out: Vec<StreamChunk>)
    ensures
        chunk_views(out@) == line_chunks(lines(text@)),
        forall|k: int| 0 <= k < out.len() - 1 ==> !(#[trigger] out[k]).is_done,
        forall|k: int|
            0 <= k < out.len() && (#[trigger] out[k]).chunk is Some ==> may_open_object(
                trim(out[k].raw@).skip("data: "@.len() as int),
            ),
{
    let chars = chars_of(text);
    let all = split_lines(&chars);
    let prefix = chars_of("data: ");
    let done_mark = chars_of("[DONE]");
    let mut out: Vec<StreamChunk> = Vec::new();
    let mut i: usize = 0;
    let ghost ls = lines(text@);
    proof {
        assert(ls.skip(0) =~= ls);
        assert(chunk_views(out@) + line_chunks(ls) =~= line_chunks(ls));
    }
    while i < all.len()
        invariant
            i <= all.len(),
            ls == lines(text@),
            all.len() == ls.len(),
            forall|k: int| 0 <= k < all.len() ==> (#[trigger] all[k])@ == ls[k],
            prefix@ == "data: "@,
            done_mark@ == "[DONE]"@,
            chunk_views(out@) + line_chunks(ls.skip(i as int)) == line_chunks(ls),
            forall|k: int| 0 <= k < out.len() ==> !(#[trigger] out[k]).is_done,
            forall|k: int|
                0 <= k < out.len() && (#[trigger] out[k]).chunk is Some ==> may_open_object(
                    trim(out[k].raw@).skip("data: "@.len() as int),
                ),
        decreases all.len() - i,
    {
        let line = trimmed(&all[i]);
        let ghost before = chunk_views(out@);
        let ghost rest = line_chunks(ls.skip(i + 1));
        proof {
            assert(ls.skip(i as int)[0] == ls[i as int]);
            assert(ls.skip(i as int).drop_first() =~= ls.skip(i + 1));
        }
        if starts_with(&line, &prefix) {
            let payload = sub_vec(&line, prefix.len(), line.len());
            proof {
                assert(payload@ =~= line@.skip(prefix@.len() as int));
            }
            let raw = string_of(&all[i]);
            if same_text(&payload, &done_mark) {
                let chunk = StreamChunk { raw, chunk: None, is_done: true };
                proof {
                    assert(chunk_views(out@.push(chunk)) =~= before.push(chunk@));
                    assert(before.push(chunk@) =~= before + seq![chunk@]);
                }
                out.push(chunk);
                return out;
            }
            let delta = decode_payload(string_of(&payload).as_str());
            let chunk = StreamChunk { raw, chunk: delta, is_done: false };
            proof {
                assert(chunk_views(out@.push(chunk)) =~= before.push(chunk@));
                assert(before.push(chunk@) + rest =~= before + (seq![chunk@] + rest));
            }
            out.push(chunk);
        }
        i += 1;
    }
    proof {
        assert(chunk_views(out@) + Seq::<StreamChunkModel>::empty() =~= chunk_views(out@));
    }
    out
}

/// The blocks of `buffer`: its complete records, then what follows the
/// last blank line.
pub open spec fn blocks(buffer: Seq<char>) -> Seq<Seq<char>> {
    complete_records(buffer).push(pending(buffer))
}

/// What `blocks` are read as, one chunk for each block that holds more than
/// white space.
pub open spec fn block_models(blocks: Seq<Seq<char>>) -> Seq<StreamChunkModel>
    decreases blocks.len(),
{
    if blocks.len() == 0 {
        Seq::empty()
    } else if trim(blocks.last()).len() == 0 {
        block_models(blocks.drop_last())
    } else {
        block_models(blocks.drop_last()).push(chat_chunk_model(blocks.last()))
    }
}

/// Reads a whole buffer: it is cut at blank lines, and each block that
/// holds more than white space is read as one chunk, in order.
pub fn parse_sse_buffer(buffer: &str) -> (out: Vec<ClientResult<StreamChunk>>)
    ensures
        out.len() == block_models(blocks(buffer@)).len(),
        forall|k: int|
            0 <= k < out.len() ==> (#[trigger] out[k] matches Ok(c) && c@ == block_models(
                blocks(buffer@),
            )[k]),
{
    let mut assembler = FrameAssembler::new();
    let mut all = assembler.push_text(buffer);
    all.push(assembler.pending_text());
    let ghost bs = blocks(buffer@);
    proof {
        assert(Seq::<char>::empty() + buffer@ =~= buffer@);
        assert(texts_of(all@) =~= bs);
    }
    let mut out: Vec<ClientResult<StreamChunk>> = Vec::new();
    let mut i: usize = 0;
    while i < all.len()
        invariant
            i <= all.len(),
            texts_of(all@) == bs,
            out.len() == block_models(bs.take(i as int)).len(),
            forall|k: int|
                0 <= k < out.len() ==> (#[trigger] out[k] matches Ok(c) && c@ == block_models(
                    bs.take(i as int),
                )[k]),
        decreases all.len() - i,
    {
        let block = all[i].as_str();
        proof {
            assert(texts_of(all@)[i as int] == all@[i as int]@);
            assert(bs.take(i + 1).drop_last() =~= bs.take(i as int));
            assert(bs.take(i + 1).last() == block@);
        }
        let chars = chars_of(block);
        if trimmed(&chars).len() != 0 {
            out.push(parse_sse_chunk(block));
        }
        i += 1;
    }
    proof {
        assert(bs.take(all.len() as int) =~= bs);
    }
    out
}

/// The text that `bytes` are read as when sequences that are not valid
/// UTF-8 are replaced by U+FFFD.
pub uninterp spec fn lossy_text(bytes: Seq<u8>) -> Seq<char>;

/// Reads `bytes` as text, whatever they hold.
///
/// Trusted: calls `String::from_utf8_lossy`, whose result depends on the
/// bytes alone (`lossy_text`) and is the text that they encode where they
/// are valid UTF-8.
#[verifier::external_body]
fn text_of_bytes(bytes: &[u8]) -> (r: String)
    ensures
        r@ == lossy_text(bytes@),
        valid_utf8(bytes@) ==> r@ == decode_utf8(bytes@),
{
    String::from_utf8_lossy(bytes).into_owned()
}

/// What the transport delivers: a chunk of the body, or its failure.
pub type TransportItem = Result<Vec<u8>, HttpFailure>;

/// What a stream hands to its reader: a chunk, or a failure.
pub type ItemModel = Result<StreamChunkModel, ClientError>;

/// The item that `r` is.
pub open spec fn item_of(r: ClientResult<StreamChunk>) -> ItemModel {
    match r {
        Ok(c) => Ok(c@),
        Err(e) => Err(e),
    }
}

/// The items that `out` are, in order.
pub open spec fn items_of(out: Seq<ClientResult<StreamChunk>>) -> Seq<ItemModel> {
    out.map_values(|r: ClientResult<StreamChunk>| item_of(r))
}

/// The items that one delivery of the transport gives: a chunk of the body
/// is read as text and gives the chunks of its lines, a failure gives
/// itself as an HTTP error.
pub open spec fn delivery_items(item: TransportItem) -> Seq<ItemModel> {
    match item {
        Ok(bytes) => line_chunks(lines(lossy_text(bytes@))).map_values(
            |c: StreamChunkModel| Ok::<StreamChunkModel, ClientError>(c),
        ),
        Err(f) => seq![Err::<StreamChunkModel, ClientError>(ClientError::HttpError(f))],
    }
}

/// The items that `deliveries` give, in order.
pub open spec fn stream_items(deliveries: Seq<TransportItem>) -> Seq<ItemModel>
    decreases deliveries.len(),
{
    if deliveries.len() == 0 {
        Seq::empty()
    } else {
        delivery_items(deliveries[0]) + stream_items(deliveries.drop_first())
    }
}

/// Whether collecting stops at `item`: at a failure and at the chunk that
/// announces the end.
pub open spec fn stops_collection(item: ItemModel) -> bool {
    match item {
        Ok(m) => m.is_done,
        Err(_) => true,
    }
}

/// The position of the first item at which collecting stops, or the number
/// of items.
pub open spec fn first_stop(items: Seq<ItemModel>) -> int
    decreases items.len(),
{
    if items.len() == 0 {
        0
    } else if stops_collection(items[0]) {
        0
    } else {
        1 + first_stop(items.drop_first())
    }
}

/// How many items collecting pulls: all up to and including the one at
/// which it stops.
pub open spec fn pulled(items: Seq<ItemModel>) -> int {
    let n = first_stop(items);
    if n < items.len() {
        n + 1
    } else {
        n
    }
}

/// The text that a chunk contributes: the content of the delta of its first
/// choice, if it has all of these.
pub open spec fn content_of(m: StreamChunkModel) -> Seq<char> {
    match m.chunk {
        Some(c) => if c.choices.len() > 0 {
            match c.choices[0].delta.content {
                Some(t) => t,
                None => Seq::empty(),
            }
        } else {
            Seq::empty()
        },
        None => Seq::empty(),
    }
}

/// The content of the first `n` items, joined in order. An item that is a
/// failure contributes nothing.
pub open spec fn joined_content(items: Seq<ItemModel>, n: int) -> Seq<char>
    decreases n,
{
    if n <= 0 || n > items.len() {
        Seq::empty()
    } else {
        joined_content(items, n - 1) + match items[n - 1] {
            Ok(m) => content_of(m),
            Err(_) => Seq::empty(),
        }
    }
}

/// Whether collecting `items` ends in chunks rather than in a failure.
pub open spec fn collects(items: Seq<ItemModel>) -> bool {
    first_stop(items) < items.len() ==> items[first_stop(items)] is Ok
}

/// What collecting `items` gives: the items pulled, which are all chunks,
/// or the failure at which collecting stopped.
pub open spec fn collected(items: Seq<ItemModel>, r: ClientResult<Vec<StreamChunk>>) -> bool {
    match r {
        Ok(chunks) => collects(items) && chunks.len() == pulled(items) && forall|k: int|
            0 <= k < chunks.len() ==> items[k] is Ok && (#[trigger] chunks[k])@ == items[k]->Ok_0,
        Err(e) => !collects(items) && items[first_stop(items)] == Err::<
            StreamChunkModel,
            ClientError,
        >(e),
    }
}

/// The first stop lies within the items, stops collecting where it is an
/// item, and has no item before it that does.
pub proof fn lemma_first_stop_bounds(items: Seq<ItemModel>)
    ensures
        0 <= first_stop(items) <= items.len(),
        first_stop(items) < items.len() ==> stops_collection(items[first_stop(items)]),
        forall|k: int| 0 <= k < first_stop(items) ==> !stops_collection(#[trigger] items[k]),
    decreases items.len(),
{
    if items.len() > 0 && !stops_collection(items[0]) {
        let rest = items.drop_first();
        lemma_first_stop_bounds(rest);
        assert forall|k: int| 0 <= k < first_stop(items) implies !stops_collection(
            #[trigger] items[k],
        ) by {
            if k > 0 {
                assert(rest[k - 1] == items[k]);
            }
        }
    }
}

/// The first stop is where an item stops collecting and none before it does.
pub proof fn lemma_first_stop_is(items: Seq<ItemModel>, n: int)
    requires
        0 <= n <= items.len(),
        forall|k: int| 0 <= k < n ==> !stops_collection(#[trigger] items[k]),
        n < items.len() ==> stops_collection(items[n]),
    ensures
        first_stop(items) == n,
{
    lemma_first_stop_bounds(items);
    let m = first_stop(items);
    if m < n {
        assert(!stops_collection(items[m]));
    } else if n < m {
        assert(stops_collection(items[n]));
    }
}

/// A copy of `f`.
fn copy_failure(f: &HttpFailure) -> (c: HttpFailure)
    ensures
        c == *f,
{
    HttpFailure {
        message: f.message.clone(),
        is_timeout: f.is_timeout,
        is_connect: f.is_connect,
        status: f.status,
    }
}

/// Reads one delivery of the transport: the items that it gives, in order.
pub fn read_transport_item(item: &TransportItem) -> (out: Vec<ClientResult<StreamChunk>>)
    ensures
        items_of(out@) == delivery_items(*item),
{
    let mut out: Vec<ClientResult<StreamChunk>> = Vec::new();
    match item {
        Ok(bytes) => {
            let text = text_of_bytes(bytes.as_slice());
            let chunks = parse_sse_lines(text.as_str());
            let ghost models = chunk_views(chunks@);
            for chunk in it: chunks
                invariant
                    chunk_views(it.seq()) == models,
                    models == line_chunks(lines(lossy_text(bytes@))),
                    *item == Ok::<Vec<u8>, HttpFailure>(*bytes),
                    out.len() == it.index(),
                    forall|k: int|
                        0 <= k < out.len() ==> item_of(#[trigger] out[k]) == Ok::<
                            StreamChunkModel,
                            ClientError,
                        >(models[k]),
            {
                proof {
                    assert(chunk_views(it.seq())[it.index() as int] == chunk@);
                }
                out.push(Ok(chunk));
            }
            proof {
                assert(out.len() == models.len());
                assert(items_of(out@) =~= delivery_items(*item));
            }
        },
        Err(f) => {
            out.push(Err(ClientError::HttpError(copy_failure(f))));
            proof {
                assert(items_of(out@) =~= delivery_items(*item));
            }
        },
    }
    out
}

/// A chat completion as it streams in: what the transport delivered, read
/// one item at a time on demand.
pub struct ChatCompletionStream {
    /// What was delivered and has not been read, the next delivery last.
    deliveries: Vec<TransportItem>,
    /// The items of the delivery last read that are still to be handed
    /// out, the next one last.
    waiting: Vec<ClientResult<StreamChunk>>,
}

impl ChatCompletionStream {
    /// The items that have not been read.
    pub closed spec fn remaining(self) -> Seq<ItemModel> {
        items_of(self.waiting@.reverse()) + stream_items(self.deliveries@.reverse())
    }

    /// A stream over what the transport delivered, in order.
    pub fn new(deliveries: Vec<TransportItem>) -> (s: Self)
        ensures
            s.remaining() == stream_items(deliveries@),
    {
        let waiting: Vec<ClientResult<StreamChunk>> = Vec::new();
        let ghost all = deliveries@;
        let deliveries = reversed(deliveries);
        proof {
            assert(deliveries@.reverse() =~= all);
            assert(items_of(waiting@.reverse()) =~= Seq::<ItemModel>::empty());
            assert(Seq::<ItemModel>::empty() + stream_items(all) =~= stream_items(all));
        }
        ChatCompletionStream { deliveries, waiting }
    }

    /// Reads the next item, if there is one.
    pub fn next(&mut self) -> (r: Option<ClientResult<StreamChunk>>)
        ensures
            old(self).remaining().len() == 0 ==> r is None && final(self).remaining() == old(
                self,
            ).remaining(),
            old(self).remaining().len() > 0 ==> r is Some && item_of(r->0) == old(
                self,
            ).remaining()[0] && final(self).remaining() == old(self).remaining().drop_first(),
    {
        while self.waiting.len() == 0 && self.deliveries.len() > 0
            invariant
                self.remaining() == old(self).remaining(),
            decreases self.deliveries.len(),
        {
            let ghost before = self.deliveries@;
            let ghost rest = before.reverse();
            match self.deliveries.pop() {
                Some(delivery) => {
                    let read = read_transport_item(&delivery);
                    proof {
                        assert(rest[0] == delivery);
                        assert(rest.drop_first() =~= self.deliveries@.reverse());
                        assert(items_of(self.waiting@.reverse()) =~= Seq::<ItemModel>::empty());
                        assert(Seq::<ItemModel>::empty() + stream_items(rest) =~= stream_items(
                            rest,
                        ));
                    }
                    self.waiting = reversed(read);
                    proof {
                        assert(self.waiting@.reverse() =~= read@);
                    }
                },
                None => {},
            }
        }
        let ghost before = self.waiting@;
        let ghost later = stream_items(self.deliveries@.reverse());
        let r = self.waiting.pop();
        proof {
            if r is Some {
                assert(before.reverse()[0] == r->0);
                assert(self.waiting@.reverse() =~= before.reverse().drop_first());
                assert(items_of(before.reverse())[0] == item_of(r->0));
                assert(items_of(self.waiting@.reverse()) =~= items_of(
                    before.reverse(),
                ).drop_first());
                assert((items_of(before.reverse()) + later).drop_first() =~= items_of(
                    before.reverse(),
                ).drop_first() + later);
            } else {
                assert(before.len() == 0);
                assert(self.deliveries@.reverse().len() == 0);
                assert(items_of(before.reverse()) =~= Seq::<ItemModel>::empty());
            }
        }
        r
    }

    /// Reads on until a chunk announces the end, an item fails, or nothing
    /// is left, and hands out the chunks read, the terminal one included. A
    /// failure is handed out in their place. Nothing behind the item at
    /// which reading stopped is read.
    pub fn pull_until_done(&mut self) -> (r: ClientResult<Vec<StreamChunk>>)
        ensures
            final(self).remaining() == old(self).remaining().skip(pulled(old(self).remaining())),
            collected(old(self).remaining(), r),
    {
        let ghost items = self.remaining();
        let mut chunks: Vec<StreamChunk> = Vec::new();
        proof {
            assert(items.skip(0) =~= items);
        }
        loop
            invariant
                items == old(self).remaining(),
                chunks.len() <= items.len(),
                self.remaining() == items.skip(chunks.len() as int),
                forall|k: int| 0 <= k < chunks.len() ==> !stops_collection(#[trigger] items[k]),
                forall|k: int|
                    0 <= k < chunks.len() ==> items[k] is Ok && (#[trigger] chunks[k])@
                        == items[k]->Ok_0,
            decreases items.len() - chunks.len(),
        {
            let ghost n = chunks.len() as int;
            match self.next() {
                None => {
                    proof {
                        lemma_first_stop_is(items, n);
                    }
                    return Ok(chunks);
                },
                Some(Err(e)) => {
                    proof {
                        assert(items.skip(n)[0] == items[n]);
                        lemma_first_stop_is(items, n);
                        assert(items.skip(n).drop_first() =~= items.skip(n + 1));
                    }
                    return Err(e);
                },
                Some(Ok(chunk)) => {
                    proof {
                        assert(items.skip(n)[0] == items[n]);
                        assert(items.skip(n).drop_first() =~= items.skip(n + 1));
                    }
                    let is_done = chunk.is_done;
                    chunks.push(chunk);
                    if is_done {
                        proof {
                            lemma_first_stop_is(items, n);
                        }
                        return Ok(chunks);
                    }
                },
            }
        }
    }

    /// Collects the chunks of the stream up to and including the one that
    /// announces the end, or all of them where none does. The first item
    /// that fails before that is the result instead.
    pub fn collect(self) -> (r: ClientResult<Vec<StreamChunk>>)
        ensures
            collected(self.remaining(), r),
    {
        let mut s = self;
        s.pull_until_done()
    }

    /// Collects the content of the stream: what the chunks up to the one
    /// that announces the end contribute, joined in order. The first item
    /// that fails before that is the result instead.
    pub fn collect_text(self) -> (r: ClientResult<String>)
        ensures
            match r {
                Ok(text) => collects(self.remaining()) && text@ == joined_content(
                    self.remaining(),
                    pulled(self.remaining()),
                ),
                Err(e) => !collects(self.remaining()) && self.remaining()[first_stop(
                    self.remaining(),
                )] == Err::<StreamChunkModel, ClientError>(e),
            },
    {
        let ghost items = self.remaining();
        let mut s = self;
        let chunks = match s.pull_until_done() {
            Ok(chunks) => chunks,
            Err(e) => { return Err(e); },
        };
        let mut text: Vec<char> = Vec::new();
        let mut i: usize = 0;
        proof {
            lemma_first_stop_bounds(items);
        }
        while i < chunks.len()
            invariant
                i <= chunks.len() <= items.len(),
                forall|k: int|
                    0 <= k < chunks.len() ==> items[k] is Ok && (#[trigger] chunks[k])@
                        == items[k]->Ok_0,
                text@ == joined_content(items, i as int),
            decreases chunks.len() - i,
        {
            let ghost before = text@;
            match &chunks[i].chunk {
                Some(c) => {
                    if c.choices.len() > 0 {
                        match &c.choices[0].delta.content {
                            Some(t) => {
                                crate::text::push_str(&mut text, t.as_str());
                            },
                            None => {},
                        }
                    }
                },
                None => {},
            }
            proof {
                let m = chunks[i as int]@;
                assert(m == items[i as int]->Ok_0);
                if let Some(c) = chunks[i as int].chunk {
                    if c.choices.len() > 0 {
                        assert(c@.choices[0] == c.choices@[0]@);
                    }
                }
                assert(text@ =~= before + content_of(m));
            }
            i += 1;
        }
        Ok(string_of(&text))
    }
}

/// `v` back to front.
fn reversed<T>(v: Vec<T>) -> (out: Vec<T>)
    ensures
        out@ == v@.reverse(),
{
    let mut v = v;
    let ghost all = v@;
    let mut out: Vec<T> = Vec::new();
    while v.len() > 0
        invariant
            v.len() <= all.len(),
            v@ == all.take(v.len() as int),
            out.len() == all.len() - v.len(),
            forall|k: int| 0 <= k < out.len() ==> out@[k] == all[all.len() - 1 - k],
        decreases v.len(),
    {
        let ghost n = v.len() as int;
        let last = v.pop();
        proof {
            assert(v@ =~= all.take(n - 1));
        }
        match last {
            Some(x) => {
                out.push(x);
            },
            None => {},
        }
    }
    proof {
        assert(out@ =~= all.reverse());
    }
    out
}

} // verus!
