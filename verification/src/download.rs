//! The download-progress stream: records of a server-sent event stream are
//! classified, keep-alives and heartbeats are absorbed, and each data record
//! is read as one progress event.

use crate::client::{streaming_header_model, streaming_headers, Method, PlanModel, RequestPlan};
use crate::error::{ClientError, ClientResult};
use crate::json::{json_document, parse_json, JsonValue};
use crate::sse::{chunk_text, complete_records, pending, FrameAssembler};
use crate::text::{
    chars_of, contains, ends_with, find, has_prefix, has_suffix, lines, push_str, same_text,
    split_lines, starts_with, string_of, sub_vec, texts_of,
};
use vstd::prelude::*;

verus! {

/// The identifier that the server gives a download.
pub type DownloadId = String;

/// The time limit of the request that opens a progress stream, in seconds.
pub const PROGRESS_TIMEOUT_SECS: u64 = 120;

/// What a record of the stream is, where it is anything.
#[derive(Debug)]
pub enum ParsedSseEvent {
    /// A progress event, with its payload.
    DownloadEvent(String),
    /// A keep-alive of the connection.
    KeepAlive,
    /// A heartbeat of the server.
    Heartbeat,
}

/// A `ParsedSseEvent` as a value.
pub enum EventModel {
    Download(Seq<char>),
    KeepAlive,
    Heartbeat,
}

impl View for ParsedSseEvent {
    type V = EventModel;

    open spec fn view(&self) -> EventModel {
        match self {
            ParsedSseEvent::DownloadEvent(p) => EventModel::Download(p@),
            ParsedSseEvent::KeepAlive => EventModel::KeepAlive,
            ParsedSseEvent::Heartbeat => EventModel::Heartbeat,
        }
    }
}

/// One progress event of a download: the JSON object that the server sent.
#[derive(Debug, PartialEq, Eq)]
pub struct DownloadEvent {
    pub payload: JsonValue,
}

/// What follows `prefix` on the last of `ls` that begins with it.
pub open spec fn last_field(ls: Seq<Seq<char>>, prefix: Seq<char>) -> Option<Seq<char>>
    decreases ls.len(),
{
    if ls.len() == 0 {
        None
    } else if has_prefix(ls.last(), prefix) {
        Some(ls.last().skip(prefix.len() as int))
    } else {
        last_field(ls.drop_last(), prefix)
    }
}

/// Whether one of `ls` is a comment, that is begins with a colon.
pub open spec fn has_comment(ls: Seq<Seq<char>>) -> bool
    decreases ls.len(),
{
    if ls.len() == 0 {
        false
    } else {
        has_prefix(ls.last(), seq![':']) || has_comment(ls.drop_last())
    }
}

/// What a record with this event label, this data and, or not, a comment
/// line is. The first of these that applies decides:
/// the label `heartbeat` with the data `ping` is a heartbeat;
/// no label with the data `keep-alive` is a keep-alive;
/// data from an opening to a closing brace is a progress event, whatever
/// the label;
/// no label, no or empty data and a comment line is a keep-alive.
/// Anything else is not recognized.
pub open spec fn classify_fields(
    event: Option<Seq<char>>,
    data: Option<Seq<char>>,
    comment: bool,
) -> Option<EventModel> {
    if event == Some("heartbeat"@) && data == Some("ping"@) {
        Some(EventModel::Heartbeat)
    } else if event is None && data == Some("keep-alive"@) {
        Some(EventModel::KeepAlive)
    } else if data is Some && has_prefix(data->0, seq!['{']) && has_suffix(data->0, seq!['}']) {
        Some(EventModel::Download(data->0))
    } else if event is None && (data is None || data->0.len() == 0) && comment {
        Some(EventModel::KeepAlive)
    } else {
        None
    }
}

/// What the record `record` is. Its label is what follows `event: ` on the
/// last line that begins so, its data what follows `data: ` on the last
/// line that begins so.
pub open spec fn classify(record: Seq<char>) -> Option<EventModel> {
    classify_fields(
        last_field(lines(record), "event: "@),
        last_field(lines(record), "data: "@),
        has_comment(lines(record)),
    )
}

/// What a stream hands to its reader.
pub enum ItemModel {
    /// A progress event with this payload.
    Event(JsonValue),
    /// The payload of a data record was no JSON document.
    ParseFailure,
    /// The transport failed, with this description.
    StreamFailure(Seq<char>),
}

/// Whether `r` is the item `m`.
pub open spec fn item_is(r: ClientResult<DownloadEvent>, m: ItemModel) -> bool {
    match m {
        ItemModel::Event(v) => r == Ok::<DownloadEvent, ClientError>(DownloadEvent { payload: v }),
        ItemModel::ParseFailure => r matches Err(ClientError::ParseError(_)),
        ItemModel::StreamFailure(d) => r matches Err(ClientError::StreamError(m)) && m@
            == "Stream error: "@ + d,
    }
}

/// Whether each of `out` is the item of `items` at its place.
pub open spec fn items_are(out: Seq<ClientResult<DownloadEvent>>, items: Seq<ItemModel>) -> bool {
    out.len() == items.len() && forall|k: int|
        0 <= k < out.len() ==> item_is(#[trigger] out[k], items[k])
}

/// The items that `records` give, in order. A progress event gives its
/// payload as an event. A payload that is no JSON document gives a parse
/// failure, and no record behind it gives anything. Keep-alives, heartbeats
/// and records that are not recognized give nothing.
pub open spec fn record_items(records: Seq<Seq<char>>) -> Seq<ItemModel>
    decreases records.len(),
{
    if records.len() == 0 {
        Seq::empty()
    } else {
        match classify(records[0]) {
            Some(EventModel::Download(p)) => match json_document(p) {
                Some(v) => seq![ItemModel::Event(v)] + record_items(records.drop_first()),
                None => seq![ItemModel::ParseFailure],
            },
            _ => record_items(records.drop_first()),
        }
    }
}

/// Whether `records` hold a progress event whose payload is no JSON
/// document.
pub open spec fn records_fail(records: Seq<Seq<char>>) -> bool
    decreases records.len(),
{
    if records.len() == 0 {
        false
    } else {
        match classify(records[0]) {
            Some(EventModel::Download(p)) => match json_document(p) {
                Some(v) => records_fail(records.drop_first()),
                None => true,
            },
            _ => records_fail(records.drop_first()),
        }
    }
}

/// Whether a transport failure with this description is the connection
/// going away, which ends a stream in the ordinary way.
pub open spec fn is_benign_end(description: Seq<char>) -> bool {
    contains(description, "connection closed"@) || contains(description, "stream ended"@)
        || contains(description, "connection reset"@)
}

/// A record that is no progress event gives no item.
pub proof fn lemma_absorbed_record(record: Seq<char>, rest: Seq<Seq<char>>)
    requires
        !(classify(record) matches Some(EventModel::Download(_))),
    ensures
        record_items(seq![record] + rest) == record_items(rest),
        records_fail(seq![record] + rest) == records_fail(rest),
{
    let all = seq![record] + rest;
    assert(all[0] == record);
    assert(all.drop_first() =~= rest);
}

/// A heartbeat, that is a record with the label `heartbeat` and the data
/// `ping`, is classified as one and gives no item.
pub proof fn lemma_heartbeat_is_absorbed(record: Seq<char>, rest: Seq<Seq<char>>)
    requires
        last_field(lines(record), "event: "@) == Some("heartbeat"@),
        last_field(lines(record), "data: "@) == Some("ping"@),
    ensures
        classify(record) == Some(EventModel::Heartbeat),
        record_items(seq![record] + rest) == record_items(rest),
{
    lemma_absorbed_record(record, rest);
}

/// What the transport reports to a stream.
#[derive(Debug)]
pub enum TransportEvent {
    /// A chunk of the response body.
    Chunk(Vec<u8>),
    /// A failure, with its description.
    Failed(String),
    /// The end of the response body.
    Closed,
}

/// The progress stream of one download.
pub struct DownloadProgressStream {
    sse_url: String,
    download_id: DownloadId,
    assembler: FrameAssembler,
    finished: bool,
}

impl DownloadProgressStream {
    /// The text that is held back for the next chunk.
    pub closed spec fn held_back(self) -> Seq<char> {
        self.assembler@
    }

    /// Whether the stream has ended.
    pub closed spec fn ended(self) -> bool {
        self.finished
    }

    /// The address of the stream.
    pub closed spec fn address(self) -> Seq<char> {
        self.sse_url@
    }

    /// The download that the stream reports on.
    pub closed spec fn id(self) -> Seq<char> {
        self.download_id@
    }

    /// The items that `event` gives in a stream that holds `held` back. A
    /// chunk gives the items of the records that it completes. A failure
    /// that is the connection going away gives nothing, any other failure
    /// one stream failure. The end gives nothing: what is held back is
    /// dropped.
    pub open spec fn items_of(held: Seq<char>, event: TransportEvent) -> Seq<ItemModel> {
        match event {
            TransportEvent::Chunk(bytes) => record_items(
                complete_records(held + chunk_text(bytes@)),
            ),
            TransportEvent::Failed(d) => if is_benign_end(d@) {
                Seq::empty()
            } else {
                seq![ItemModel::StreamFailure(d@)]
            },
            TransportEvent::Closed => Seq::empty(),
        }
    }

    /// Whether `event` ends a stream that holds `held` back: the end and
    /// every failure do, a chunk does where a payload in it is no JSON
    /// document.
    pub open spec fn ends_at(held: Seq<char>, event: TransportEvent) -> bool {
        match event {
            TransportEvent::Chunk(bytes) => records_fail(
                complete_records(held + chunk_text(bytes@)),
            ),
            _ => true,
        }
    }

    /// The stream of the download `download_id` at `sse_url`, with nothing
    /// received.
    pub fn new(sse_url: String, download_id: DownloadId) -> (r: ClientResult<Self>)
        ensures
            r matches Ok(s) && s.address() == sse_url@ && s.id() == download_id@ && !s.ended()
                && s.held_back() == Seq::<char>::empty(),
    {
        Ok(
            DownloadProgressStream {
                sse_url,
                download_id,
                assembler: FrameAssembler::new(),
                finished: false,
            },
        )
    }

    /// The download that the stream reports on.
    pub fn download_id(&self) -> (id: &DownloadId)
        ensures
            id@ == self.id(),
    {
        &self.download_id
    }

    /// The address of the stream.
    pub fn sse_url(&self) -> (url: &String)
        ensures
            url@ == self.address(),
    {
        &self.sse_url
    }

    /// The request that opens the stream: a GET of its address that asks
    /// for a stream of events. It is made once and never retried.
    pub fn request(&self) -> (plan: RequestPlan)
        ensures
            plan@ == (PlanModel {
                method: Method::Get,
                url: self.address(),
                headers: streaming_header_model(),
                streaming: true,
            }),
    {
        RequestPlan {
            method: Method::Get,
            url: self.sse_url.clone(),
            headers: streaming_headers(),
            streaming: true,
        }
    }

    /// Whether the stream has ended.
    pub fn is_finished(&self) -> (b: bool)
        ensures
            b == self.ended(),
    {
        self.finished
    }

    /// What the record `event_data` is, where it is anything.
    pub fn parse_sse_event(event_data: &str) -> (r: Option<ParsedSseEvent>)
        ensures
            match classify(event_data@) {
                Some(m) => r is Some && r->0@ == m,
                None => r is None,
            },
    {
        let chars = chars_of(event_data);
        let all = split_lines(&chars);
        let event_prefix = chars_of("event: ");
        let data_prefix = chars_of("data: ");
        let mut colon: Vec<char> = Vec::new();
        colon.push(':');
        let mut event_type: Option<Vec<char>> = None;
        let mut data: Option<Vec<char>> = None;
        let mut comment = false;
        let ghost ls = lines(event_data@);
        let mut i: usize = 0;
        proof {
            assert(colon@ =~= seq![':']);
        }
        while i < all.len()
            invariant
                i <= all.len(),
                ls == lines(event_data@),
                all.len() == ls.len(),
                forall|k: int| 0 <= k < all.len() ==> (#[trigger] all[k])@ == ls[k],
                event_prefix@ == "event: "@,
                data_prefix@ == "data: "@,
                colon@ == seq![':'],
                option_text(event_type) == last_field(ls.take(i as int), "event: "@),
                option_text(data) == last_field(ls.take(i as int), "data: "@),
                comment == has_comment(ls.take(i as int)),
            decreases all.len() - i,
        {
            let line = &all[i];
            proof {
                assert(ls.take(i + 1).drop_last() =~= ls.take(i as int));
                assert(ls.take(i + 1).last() == line@);
            }
            if starts_with(line, &event_prefix) {
                let value = sub_vec(line, event_prefix.len(), line.len());
                proof {
                    assert(value@ =~= line@.skip(event_prefix@.len() as int));
                }
                event_type = Some(value);
            }
            if starts_with(line, &data_prefix) {
                let value = sub_vec(line, data_prefix.len(), line.len());
                proof {
                    assert(value@ =~= line@.skip(data_prefix@.len() as int));
                }
                data = Some(value);
            }
            if starts_with(line, &colon) {
                comment = true;
            }
            i += 1;
        }
        proof {
            assert(ls.take(all.len() as int) =~= ls);
        }
        let heartbeat = chars_of("heartbeat");
        let ping = chars_of("ping");
        let keep_alive = chars_of("keep-alive");
        let mut open: Vec<char> = Vec::new();
        open.push('{');
        let mut close: Vec<char> = Vec::new();
        close.push('}');
        proof {
            assert(open@ =~= seq!['{']);
            assert(close@ =~= seq!['}']);
        }
        let is_heartbeat = match (&event_type, &data) {
            (Some(e), Some(d)) => same_text(e, &heartbeat) && same_text(d, &ping),
            _ => false,
        };
        if is_heartbeat {
            return Some(ParsedSseEvent::Heartbeat);
        }
        let is_keep_alive = match (&event_type, &data) {
            (None, Some(d)) => same_text(d, &keep_alive),
            _ => false,
        };
        if is_keep_alive {
            return Some(ParsedSseEvent::KeepAlive);
        }
        match &data {
            Some(d) => {
                if starts_with(d, &open) && ends_with(d, &close) {
                    return Some(ParsedSseEvent::DownloadEvent(string_of(d)));
                }
            },
            None => {},
        }
        let no_data = match &data {
            Some(d) => d.len() == 0,
            None => true,
        };
        if event_type.is_none() && no_data && comment {
            return Some(ParsedSseEvent::KeepAlive);
        }
        None
    }

    /// Whether a transport failure with this description is the connection
    /// going away.
    pub fn is_connection_end(description: &str) -> (b: bool)
        ensures
            b == is_benign_end(description@),
    {
        let d = chars_of(description);
        let closed = chars_of("connection closed");
        let ended = chars_of("stream ended");
        let reset = chars_of("connection reset");
        find(&d, &closed).is_some() || find(&d, &ended).is_some() || find(&d, &reset).is_some()
    }

    /// Reads `records` in order and hands out their items. Reading stops
    /// behind a payload that is no JSON document; whether it did is the
    /// second result.
    pub fn read_records(records: &Vec<String>) -> (r: (Vec<ClientResult<DownloadEvent>>, bool))
        ensures
            items_are(r.0@, record_items(texts_of(records@))),
            r.1 == records_fail(texts_of(records@)),
    {
        let ghost all = texts_of(records@);
        let mut out: Vec<ClientResult<DownloadEvent>> = Vec::new();
        let ghost mut given: Seq<ItemModel> = Seq::empty();
        let mut i: usize = 0;
        proof {
            assert(all.skip(0) =~= all);
            assert(given + record_items(all) =~= record_items(all));
        }
        while i < records.len()
            invariant
                i <= records.len(),
                all == texts_of(records@),
                items_are(out@, given),
                given + record_items(all.skip(i as int)) == record_items(all),
                records_fail(all.skip(i as int)) == records_fail(all),
            decreases records.len() - i,
        {
            let ghost rest = all.skip(i as int);
            proof {
                assert(rest[0] == records@[i as int]@);
                assert(rest.drop_first() =~= all.skip(i + 1));
            }
            match Self::parse_sse_event(records[i].as_str()) {
                Some(ParsedSseEvent::DownloadEvent(payload)) => {
                    match parse_json(payload.as_str()) {
                        Ok(v) => {
                            proof {
                                let item = ItemModel::Event(v);
                                let tail = record_items(all.skip(i + 1));
                                assert(given.push(item) + tail =~= given + (seq![item] + tail));
                                given = given.push(item);
                            }
                            out.push(Ok(DownloadEvent { payload: v }));
                        },
                        Err(e) => {
                            proof {
                                assert(given.push(ItemModel::ParseFailure) =~= given
                                    + seq![ItemModel::ParseFailure]);
                                given = given.push(ItemModel::ParseFailure);
                            }
                            out.push(Err(e));
                            return (out, true);
                        },
                    }
                },
                _ => {},
            }
            i += 1;
        }
        proof {
            assert(given + Seq::<ItemModel>::empty() =~= given);
        }
        (out, false)
    }

    /// Takes in what the transport reports and hands out the items that it
    /// gives, in order. A stream that has ended stays as it is and gives
    /// nothing.
    pub fn step(&mut self, event: TransportEvent) -> (out: Vec<ClientResult<DownloadEvent>>)
        ensures
            final(self).address() == old(self).address(),
            final(self).id() == old(self).id(),
            old(self).ended() ==> out@.len() == 0 && final(self).ended() && final(self).held_back()
                == old(self).held_back(),
            !old(self).ended() ==> items_are(out@, Self::items_of(old(self).held_back(), event))
                && final(self).ended() == Self::ends_at(old(self).held_back(), event),
            !old(self).ended() ==> (event matches TransportEvent::Chunk(bytes) ==> pending(
                old(self).held_back() + chunk_text(bytes@),
            ) == final(self).held_back()),
    {
        if self.finished {
            return Vec::new();
        }
        match event {
            TransportEvent::Chunk(bytes) => {
                let records = self.assembler.push_chunk(bytes.as_slice());
                let (out, failed) = Self::read_records(&records);
                self.finished = failed;
                out
            },
            TransportEvent::Failed(description) => {
                self.finished = true;
                let mut out: Vec<ClientResult<DownloadEvent>> = Vec::new();
                if !Self::is_connection_end(description.as_str()) {
                    let mut m: Vec<char> = Vec::new();
                    push_str(&mut m, "Stream error: ");
                    push_str(&mut m, description.as_str());
                    out.push(Err(ClientError::StreamError(string_of(&m))));
                }
                out
            },
            TransportEvent::Closed => {
                self.finished = true;
                Vec::new()
            },
        }
    }
}

/// The text of an optional run of characters.
pub open spec fn option_text(o: Option<Vec<char>>) -> Option<Seq<char>> {
    match o {
        Some(v) => Some(v@),
        None => None,
    }
}

} // verus!
