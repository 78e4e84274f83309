//! Relaying of a backend event stream.
//!
//! The rewrite relay turns backend events into chat-completion chunks and ends
//! every stream with the `[DONE]` sentinel, after an error as well. The
//! pass-through relay copies events and adds nothing. Both take the upstream
//! bytes in any pieces and give back the bytes to send downstream; a silent
//! stream is kept alive by comments.
use crate::bytes;
use crate::json;
use crate::json::Json;
use crate::json::JsonView;
use crate::sse;
use crate::sse::ReaderView;
use crate::sse::SseEventReader;
use crate::transform;
use crate::transform::Outcome;
use crate::transform::SSETransformer;
use crate::transform::TransformError;
use crate::transform::TransformResult;
use crate::transform::TransformerView;
use vstd::prelude::*;
use vstd::utf8::encode_utf8;

pub mod laws;

verus! {

/// How a relay keeps a stream alive.
#[derive(Debug, Clone)]
pub struct RelayConfig {
    /// Milliseconds without a write after which a comment is sent; zero sends
    /// none.
    pub keepalive_interval: u64,
}

impl Default for RelayConfig {
    /// Fifteen seconds.
    fn default() -> (r: Self)
        ensures
            r.keepalive_interval == 15000,
    {
        RelayConfig { keepalive_interval: 15000 }
    }
}

/// How many milliseconds to wait for upstream data before a comment is sent,
/// when nothing was written for `idle`; `None` where none is sent.
pub open spec fn ping_wait(interval: u64, idle: u64) -> Option<u64> {
    if interval == 0 {
        None
    } else if idle >= interval {
        Some(0u64)
    } else {
        Some((interval - idle) as u64)
    }
}

impl RelayConfig {
    /// How many milliseconds to wait for upstream data before a comment is
    /// sent, when nothing was written for `idle`; `None` where none is sent.
    pub fn wait_before_ping(&self, idle: u64) -> (r: Option<u64>)
        ensures
            r == ping_wait(self.keepalive_interval, idle),
    {
        if self.keepalive_interval == 0 {
            None
        } else if idle >= self.keepalive_interval {
            Some(0)
        } else {
            Some(self.keepalive_interval - idle)
        }
    }
}

/// The comment that keeps a stream alive.
pub open spec fn ping() -> Seq<u8> {
    seq![58u8, 32u8, 112u8, 105u8, 110u8, 103u8, 10u8, 10u8]
}

/// The comment that keeps a stream alive: `: ping`.
pub fn ping_frame() -> (r: Vec<u8>)
    ensures
        r@ == ping(),
{
    let mut out: Vec<u8> = Vec::new();
    out.push(58);
    out.push(32);
    out.push(112);
    out.push(105);
    out.push(110);
    out.push(103);
    out.push(10);
    out.push(10);
    proof {
        assert(out@ =~= ping());
    }
    out
}

/// Why a relay ended early.
#[derive(Debug)]
pub enum RelayError {
    /// The upstream could not be read.
    UpstreamRead(String),
    /// The client is gone.
    DownstreamWrite(String),
    /// An event could not be transformed.
    Transform(TransformError),
}

impl RelayError {
    /// The message of the error.
    pub open spec fn text(&self) -> Seq<char> {
        match self {
            RelayError::UpstreamRead(m) => "upstream read error: "@ + m@,
            RelayError::DownstreamWrite(m) => "downstream write error: "@ + m@,
            RelayError::Transform(e) => "transform error: "@ + e.text(),
        }
    }

    /// The message of the error.
    pub fn message(&self) -> (r: String)
        ensures
            r@ == self.text(),
    {
        match self {
            RelayError::UpstreamRead(m) => {
                let mut out: String = "upstream read error: ".to_owned();
                out.append(m.as_str());
                out
            },
            RelayError::DownstreamWrite(m) => {
                let mut out: String = "downstream write error: ".to_owned();
                out.append(m.as_str());
                out
            },
            RelayError::Transform(e) => {
                let mut out: String = "transform error: ".to_owned();
                out.append(e.message().as_str());
                out
            },
        }
    }
}

/// The last frame of every rewritten stream.
pub open spec fn done_frame() -> Seq<u8> {
    sse::data_frame(transform::done_marker())
}

/// The payload that tells the client of an error.
pub open spec fn error_payload(message: Seq<char>) -> Seq<u8> {
    encode_utf8(
        json::json_text(
            JsonView::Object(map!["error"@ => JsonView::Text("stream error: "@ + message)]),
        ),
    )
}

/// The frame that tells the client of an error.
pub open spec fn error_frame(message: Seq<char>) -> Seq<u8> {
    sse::data_frame(error_payload(message))
}

/// What a failure to read the upstream sends downstream: nothing once the relay
/// is closed.
pub open spec fn failure_output(closed: bool, message: Seq<char>) -> Seq<u8> {
    if closed {
        Seq::empty()
    } else {
        error_frame(message) + done_frame()
    }
}

/// A chat-completion chunk.
pub open spec fn is_chunk(v: JsonView) -> bool {
    json::text_field(v, "object"@) == Some("chat.completion.chunk"@)
}

/// What follows an event.
pub enum Verdict {
    /// The next event.
    Continue,
    /// The end: the upstream said so.
    Stop,
    /// The end: the event is invalid, with this message.
    Fail(Seq<char>),
}

/// The message for an invalid event.
pub open spec fn invalid_message(m: Seq<char>) -> Seq<char> {
    "invalid upstream JSON chunk: "@ + m
}

/// JSON without a text `type` is an event of no known kind, not an error.
pub open spec fn is_typeless(event: Seq<u8>) -> bool {
    match json::json_parse(event) {
        Ok(v) => json::text_field(v, "type"@) is None,
        Err(m) => false,
    }
}

/// A chunk that comes from upstream goes through unchanged.
pub open spec fn passed_through(value: Result<JsonView, Seq<char>>, event: Seq<u8>) -> Seq<u8> {
    match value {
        Ok(v) => if is_chunk(v) {
            sse::data_frame(bytes::trimmed(event))
        } else {
            Seq::empty()
        },
        Err(m) => Seq::empty(),
    }
}

/// What an event sends downstream.
pub open spec fn event_output(t: TransformerView, event: Seq<u8>) -> Seq<u8> {
    match transform::outcome(t, event) {
        Outcome::Done => done_frame(),
        Outcome::Emitted(chunks) => sse::data_frames(transform::all_chunk_bytes(chunks)),
        Outcome::Swallowed => passed_through(json::json_parse(bytes::trimmed(event)), event),
        Outcome::Invalid(m) => if is_typeless(event) {
            passed_through(json::json_parse(event), event)
        } else {
            error_frame(invalid_message(m)) + done_frame()
        },
    }
}

/// The payload of a chunk that comes from upstream.
pub open spec fn passed_payload(value: Result<JsonView, Seq<char>>, event: Seq<u8>) -> Seq<Seq<u8>> {
    match value {
        Ok(v) => if is_chunk(v) {
            seq![bytes::trimmed(event)]
        } else {
            Seq::empty()
        },
        Err(m) => Seq::empty(),
    }
}

/// The payloads of the frames that an event sends downstream.
pub open spec fn event_payloads(t: TransformerView, event: Seq<u8>) -> Seq<Seq<u8>> {
    match transform::outcome(t, event) {
        Outcome::Done => seq![transform::done_marker()],
        Outcome::Emitted(chunks) => transform::all_chunk_bytes(chunks),
        Outcome::Swallowed => passed_payload(json::json_parse(bytes::trimmed(event)), event),
        Outcome::Invalid(m) => if is_typeless(event) {
            passed_payload(json::json_parse(event), event)
        } else {
            seq![error_payload(invalid_message(m)), transform::done_marker()]
        },
    }
}

/// The end marker is among the payloads of an event only as the last, and then
/// the event ends the stream.
pub open spec fn marks_only_the_end(t: TransformerView, event: Seq<u8>) -> bool {
    forall|i: int|
        0 <= i < event_payloads(t, event).len() && #[trigger] event_payloads(t, event)[i]
            == transform::done_marker() ==> i == event_payloads(t, event).len() - 1 && !(
        event_verdict(t, event) is Continue)
}

/// What follows an event.
pub open spec fn event_verdict(t: TransformerView, event: Seq<u8>) -> Verdict {
    match transform::outcome(t, event) {
        Outcome::Done => Verdict::Stop,
        Outcome::Emitted(chunks) => Verdict::Continue,
        Outcome::Swallowed => Verdict::Continue,
        Outcome::Invalid(m) => if is_typeless(event) {
            Verdict::Continue
        } else {
            Verdict::Fail(m)
        },
    }
}

/// A rewrite relay in mathematical form, apart from its reader.
pub struct RunView {
    pub transformer: TransformerView,
    pub closed: bool,
}

/// The relay after an event.
pub open spec fn after_event(s: RunView, event: Seq<u8>) -> RunView {
    if s.closed {
        s
    } else {
        RunView {
            transformer: transform::after_data(s.transformer, event),
            closed: !(event_verdict(s.transformer, event) is Continue),
        }
    }
}

/// The relay after several events.
pub open spec fn after_events(s: RunView, events: Seq<Seq<u8>>) -> RunView
    decreases events.len(),
{
    if events.len() == 0 {
        s
    } else {
        after_event(after_events(s, events.drop_last()), events.last())
    }
}

/// What several events send downstream: nothing once the relay is closed.
pub open spec fn events_output(s: RunView, events: Seq<Seq<u8>>) -> Seq<u8>
    decreases events.len(),
{
    if events.len() == 0 {
        Seq::empty()
    } else {
        let before = after_events(s, events.drop_last());
        events_output(s, events.drop_last()) + (if before.closed {
            Seq::empty()
        } else {
            event_output(before.transformer, events.last())
        })
    }
}

/// The payloads of the frames that several events send downstream.
pub open spec fn events_payloads(s: RunView, events: Seq<Seq<u8>>) -> Seq<Seq<u8>>
    decreases events.len(),
{
    if events.len() == 0 {
        Seq::empty()
    } else {
        let before = after_events(s, events.drop_last());
        events_payloads(s, events.drop_last()) + (if before.closed {
            Seq::empty()
        } else {
            event_payloads(before.transformer, events.last())
        })
    }
}

/// The end marker is among the payloads of several events only as the last, and
/// then it is these events that end the stream.
pub open spec fn mark_only_the_end(s: RunView, events: Seq<Seq<u8>>) -> bool {
    forall|i: int|
        0 <= i < events_payloads(s, events).len() && #[trigger] events_payloads(s, events)[i]
            == transform::done_marker() ==> i == events_payloads(s, events).len() - 1
            && after_events(s, events).closed
}

/// The message with which several events fail, if they do.
pub open spec fn events_error(s: RunView, events: Seq<Seq<u8>>) -> Option<Seq<char>>
    decreases events.len(),
{
    if events.len() == 0 {
        None
    } else {
        let before = after_events(s, events.drop_last());
        if before.closed {
            events_error(s, events.drop_last())
        } else {
            match event_verdict(before.transformer, events.last()) {
                Verdict::Fail(m) => Some(m),
                _ => events_error(s, events.drop_last()),
            }
        }
    }
}

/// What an event became, in mathematical form: the frames that it emitted, or
/// why it emitted none.
pub enum ResultView {
    Emitted(Seq<Seq<u8>>),
    Swallowed,
    Done,
}

/// What an event became, in mathematical form.
pub open spec fn result_view(r: TransformResult) -> ResultView {
    match r {
        TransformResult::Emitted(frames) => ResultView::Emitted(bytes::views(frames@)),
        TransformResult::Swallowed => ResultView::Swallowed,
        TransformResult::Done => ResultView::Done,
    }
}

/// An event that was transformed, for observers: its payload and what it
/// became.
#[derive(Debug)]
pub struct Seen {
    pub event: Vec<u8>,
    pub result: TransformResult,
}

/// What observers are told of an event: nothing of one that is invalid.
pub open spec fn event_seen(t: TransformerView, event: Seq<u8>) -> Seq<(Seq<u8>, ResultView)> {
    match transform::outcome(t, event) {
        Outcome::Done => seq![(event, ResultView::Done)],
        Outcome::Emitted(chunks) => seq![
            (event, ResultView::Emitted(transform::all_chunk_bytes(chunks))),
        ],
        Outcome::Swallowed => seq![(event, ResultView::Swallowed)],
        Outcome::Invalid(m) => Seq::empty(),
    }
}

/// What observers are told of several events.
pub open spec fn events_seen(s: RunView, events: Seq<Seq<u8>>) -> Seq<(Seq<u8>, ResultView)>
    decreases events.len(),
{
    if events.len() == 0 {
        Seq::empty()
    } else {
        let before = after_events(s, events.drop_last());
        events_seen(s, events.drop_last()) + (if before.closed {
            Seq::empty()
        } else {
            event_seen(before.transformer, events.last())
        })
    }
}

/// What observers were told.
pub open spec fn seen_views(seen: Seq<Seen>) -> Seq<(Seq<u8>, ResultView)> {
    seen.map_values(|x: Seen| (x.event@, result_view(x.result)))
}

/// What a relay gives back for a piece of input.
#[derive(Debug)]
pub struct RelayOutput {
    /// The bytes to send downstream.
    pub bytes: Vec<u8>,
    /// The error that ended the stream, if one did; its frames are among the
    /// bytes.
    pub error: Option<TransformError>,
    /// The events that were transformed.
    pub seen: Vec<Seen>,
}

/// Rewrites one backend stream.
pub struct RewriteRelay {
    pub reader: SseEventReader,
    pub transformer: SSETransformer,
    /// The stream was ended; nothing more is sent.
    pub closed: bool,
}

/// Appends an error frame and the sentinel.
fn push_error_end(out: &mut Vec<u8>, message: &str)
    ensures
        final(out)@ == old(out)@ + (error_frame(message@) + done_frame()),
        error_payload(message@) != transform::done_marker(),
{
    let ghost start = out@;
    let mut text: String = "stream error: ".to_owned();
    text.append(message);
    let payload = Json::object().with("error", Json::Text(text)).to_text();
    proof {
        crate::text::lemma_encoding_of_brace(payload@);
    }
    sse::push_data_frame(out, payload.as_str().as_bytes());
    push_done(out);
    proof {
        assert(out@ =~= start + (error_frame(message@) + done_frame()));
    }
}

/// Appends the sentinel.
fn push_done(out: &mut Vec<u8>)
    ensures
        final(out)@ == old(out)@ + done_frame(),
{
    let mut marker: Vec<u8> = Vec::new();
    marker.push(91);
    marker.push(68);
    marker.push(79);
    marker.push(78);
    marker.push(69);
    marker.push(93);
    proof {
        assert(marker@ =~= transform::done_marker());
    }
    sse::push_data_frame(out, marker.as_slice());
}

/// Whether a value is a chat-completion chunk.
pub fn is_openai_chunk(value: &Json) -> (r: bool)
    ensures
        r == is_chunk(value@),
{
    match value.get_str("object") {
        Some(t) => crate::text::same(t, "chat.completion.chunk"),
        None => false,
    }
}

/// Appends the frames of chunks.
fn push_frames(out: &mut Vec<u8>, frames: &Vec<Vec<u8>>, chunks: Ghost<Seq<JsonView>>)
    requires
        transform::good_frames(frames@, chunks@),
    ensures
        final(out)@ == old(out)@ + sse::data_frames(transform::all_chunk_bytes(chunks@)),
{
    let ghost start = out@;
    let ghost all = transform::all_chunk_bytes(chunks@);
    let mut i: usize = 0;
    proof {
        assert(start + sse::data_frames(all.take(0)) =~= start);
    }
    while i < frames.len()
        invariant
            i <= frames@.len(),
            transform::good_frames(frames@, chunks@),
            all == transform::all_chunk_bytes(chunks@),
            out@ == start + sse::data_frames(all.take(i as int)),
        decreases frames@.len() - i,
    {
        proof {
            assert(transform::good_frame(frames@[i as int], chunks@[i as int]));
            assert(all[i as int] == frames@[i as int]@);
            assert(all.take(i + 1).drop_last() =~= all.take(i as int));
            assert(all.take(i + 1).last() == all[i as int]);
        }
        sse::push_data_frame(out, frames[i].as_slice());
        i += 1;
        proof {
            assert(start + sse::data_frames(all.take(i - 1)) + sse::data_frame(all[i - 1]) =~= start
                + sse::data_frames(all.take(i as int)));
        }
    }
    proof {
        assert(all.take(i as int) =~= all);
    }
}

/// Appends an event that is a chunk itself.
pub fn push_passed_through(out: &mut Vec<u8>, value: &Result<Json, String>, event: &[u8])
    ensures
        final(out)@ == old(out)@ + passed_through(
            match *value {
                Ok(j) => Ok(j@),
                Err(m) => Err(m@),
            },
            event@,
        ),
{
    proof {
        assert(out@ + Seq::<u8>::empty() =~= out@);
    }
    match value {
        Ok(j) => if is_openai_chunk(j) {
            let trimmed: Vec<u8> = bytes::trim_ascii(event);
            sse::push_data_frame(out, trimmed.as_slice());
        },
        Err(_) => {},
    }
}

impl RewriteRelay {
    /// The relay in mathematical form, apart from its reader.
    pub open spec fn run(&self) -> RunView {
        RunView { transformer: self.transformer@, closed: self.closed }
    }

    /// A relay for a stream of this model.
    pub fn new(model: &str) -> (r: Self)
        ensures
            r.reader@ == sse::fresh(),
            r.run() == (RunView { transformer: transform::fresh(model@), closed: false }),
    {
        RewriteRelay {
            reader: SseEventReader::new(),
            transformer: SSETransformer::new(model),
            closed: false,
        }
    }

    /// Handles one event of an open relay.
    fn handle_event(&mut self, event: &Vec<u8>, out: &mut RelayOutput)
        requires
            !old(self).closed,
        ensures
            final(self).reader == old(self).reader,
            final(self).run() == after_event(old(self).run(), event@),
            final(out).bytes@ == old(out).bytes@ + event_output(old(self).transformer@, event@),
            seen_views(final(out).seen@) == seen_views(old(out).seen@) + event_seen(
                old(self).transformer@,
                event@,
            ),
            match event_verdict(old(self).transformer@, event@) {
                Verdict::Fail(m) => final(out).error matches Some(TransformError::InvalidJson(t))
                    && t@ == m,
                _ => final(out).error == old(out).error,
            },
            marks_only_the_end(old(self).transformer@, event@),
    {
        let ghost t = self.transformer@;
        let ghost told = seen_views(out.seen@);
        proof {
            assert(told + Seq::<(Seq<u8>, ResultView)>::empty() =~= told);
        }
        match self.transformer.transform(event.as_slice()) {
            Ok(TransformResult::Done) => {
                out.seen.push(
                    Seen { event: bytes::copy(event.as_slice()), result: TransformResult::Done },
                );
                push_done(&mut out.bytes);
                self.closed = true;
                proof {
                    assert(seen_views(out.seen@) =~= told + event_seen(t, event@));
                }
            },
            Ok(TransformResult::Emitted(frames)) => {
                let ghost chunks = transform::outcome(t, event@)->Emitted_0;
                push_frames(&mut out.bytes, &frames, Ghost(chunks));
                proof {
                    assert(bytes::views(frames@) =~= transform::all_chunk_bytes(chunks)) by {
                        assert forall|i: int| 0 <= i < frames@.len() implies bytes::views(
                            frames@,
                        )[i] == transform::all_chunk_bytes(chunks)[i] by {
                            assert(transform::good_frame(frames@[i], chunks[i]));
                        }
                    }
                    assert forall|i: int| 0 <= i < event_payloads(t, event@).len() implies #[trigger]
                    event_payloads(t, event@)[i] != transform::done_marker() by {
                        assert(transform::good_frame(frames@[i], chunks[i]));
                    }
                }
                out.seen.push(
                    Seen {
                        event: bytes::copy(event.as_slice()),
                        result: TransformResult::Emitted(frames),
                    },
                );
                proof {
                    assert(seen_views(out.seen@) =~= told + event_seen(t, event@));
                }
            },
            Ok(TransformResult::Swallowed) => {
                out.seen.push(
                    Seen {
                        event: bytes::copy(event.as_slice()),
                        result: TransformResult::Swallowed,
                    },
                );
                let trimmed: Vec<u8> = bytes::trim_ascii(event.as_slice());
                let value: Result<Json, String> = json::parse(trimmed.as_slice());
                push_passed_through(&mut out.bytes, &value, event.as_slice());
                proof {
                    assert(seen_views(out.seen@) =~= told + event_seen(t, event@));
                }
            },
            Err(e) => {
                let value: Result<Json, String> = json::parse(event.as_slice());
                let typeless: bool = match &value {
                    Ok(j) => j.get_str("type").is_none(),
                    Err(_) => false,
                };
                if typeless {
                    push_passed_through(&mut out.bytes, &value, event.as_slice());
                } else {
                    push_error_end(&mut out.bytes, e.message().as_str());
                    self.closed = true;
                    out.error = Some(e);
                }
            },
        }
    }

    /// Handles events until one ends the stream.
    fn handle_events(&mut self, events: &Vec<Vec<u8>>, out: &mut RelayOutput)
        requires
            old(out).bytes@.len() == 0,
            old(out).seen@.len() == 0,
            old(out).error is None,
        ensures
            final(self).reader == old(self).reader,
            final(self).run() == after_events(old(self).run(), bytes::views(events@)),
            final(out).bytes@ == events_output(old(self).run(), bytes::views(events@)),
            seen_views(final(out).seen@) == events_seen(old(self).run(), bytes::views(events@)),
            match events_error(old(self).run(), bytes::views(events@)) {
                Some(m) => final(out).error matches Some(TransformError::InvalidJson(t)) && t@ == m,
                None => final(out).error is None,
            },
            mark_only_the_end(old(self).run(), bytes::views(events@)),
    {
        let ghost s = self.run();
        let ghost all = bytes::views(events@);
        let mut i: usize = 0;
        proof {
            assert(out.bytes@ =~= events_output(s, all.take(0)));
            assert(seen_views(out.seen@) =~= events_seen(s, all.take(0)));
        }
        while i < events.len()
            invariant
                i <= events@.len(),
                all == bytes::views(events@),
                self.reader == old(self).reader,
                self.run() == after_events(s, all.take(i as int)),
                out.bytes@ == events_output(s, all.take(i as int)),
                seen_views(out.seen@) == events_seen(s, all.take(i as int)),
                match events_error(s, all.take(i as int)) {
                    Some(m) => out.error matches Some(TransformError::InvalidJson(t)) && t@ == m,
                    None => out.error is None,
                },
                mark_only_the_end(s, all.take(i as int)),
            decreases events@.len() - i,
        {
            proof {
                assert(all.take(i + 1).drop_last() =~= all.take(i as int));
                assert(all.take(i + 1).last() == events@[i as int]@);
            }
            if !self.closed {
                self.handle_event(&events[i], out);
                proof {
                    lemma_one_more_event(s, all.take(i + 1));
                }
            } else {
                proof {
                    lemma_one_more_event(s, all.take(i + 1));
                    assert(out.bytes@ + Seq::<u8>::empty() =~= out.bytes@);
                    assert(seen_views(out.seen@) + Seq::<(Seq<u8>, ResultView)>::empty()
                        =~= seen_views(out.seen@));
                }
            }
            i += 1;
        }
        proof {
            assert(all.take(i as int) =~= all);
        }
    }

    /// Takes a piece of the upstream.
    pub fn feed(&mut self, input: &[u8]) -> (r: RelayOutput)
        ensures
            final(self).reader@ == sse::read_all(old(self).reader@, input@),
            ({
                let events = sse::read_events(old(self).reader@, input@);
                &&& final(self).run() == after_events(old(self).run(), events)
                &&& r.bytes@ == events_output(old(self).run(), events)
                &&& seen_views(r.seen@) == events_seen(old(self).run(), events)
                &&& match events_error(old(self).run(), events) {
                    Some(m) => r.error matches Some(TransformError::InvalidJson(t)) && t@ == m,
                    None => r.error is None,
                }
                &&& mark_only_the_end(old(self).run(), events)
            }),
    {
        let mut out = RelayOutput { bytes: Vec::new(), error: None, seen: Vec::new() };
        let events: Vec<Vec<u8>> = self.reader.feed(input);
        self.handle_events(&events, &mut out);
        out
    }

    /// Takes the end of the upstream: an event that is still open counts, and
    /// the sentinel is sent where it was not yet.
    pub fn finish(&mut self) -> (r: RelayOutput)
        ensures
            final(self).closed,
            ({
                let events = sse::last_event(old(self).reader@);
                let after = after_events(old(self).run(), events);
                &&& r.bytes@ == events_output(old(self).run(), events) + (if after.closed {
                    Seq::empty()
                } else {
                    done_frame()
                })
                &&& seen_views(r.seen@) == events_seen(old(self).run(), events)
                &&& match events_error(old(self).run(), events) {
                    Some(m) => r.error matches Some(TransformError::InvalidJson(t)) && t@ == m,
                    None => r.error is None,
                }
                &&& mark_only_the_end(old(self).run(), events)
            }),
    {
        let mut out = RelayOutput { bytes: Vec::new(), error: None, seen: Vec::new() };
        let mut events: Vec<Vec<u8>> = Vec::new();
        match self.reader.finish() {
            Some(e) => events.push(e),
            None => {},
        }
        proof {
            assert(bytes::views(events@) =~= sse::last_event(old(self).reader@));
        }
        self.handle_events(&events, &mut out);
        proof {
            assert(out.bytes@ + Seq::<u8>::empty() =~= out.bytes@);
        }
        if !self.closed {
            push_done(&mut out.bytes);
            self.closed = true;
        }
        out
    }

    /// Takes a failure to read the upstream: the client is told, and the
    /// sentinel is sent, where the stream is still open.
    pub fn fail(&mut self, message: &str) -> (r: Vec<u8>)
        ensures
            final(self).closed,
            r@ == failure_output(old(self).closed, message@),
    {
        let mut out: Vec<u8> = Vec::new();
        if !self.closed {
            push_error_end(&mut out, message);
            self.closed = true;
            proof {
                assert(out@ =~= error_frame(message@) + done_frame());
            }
        }
        out
    }
}

/// The relay of a stream of this model before its first event.
pub open spec fn fresh_run(model: Seq<char>) -> RunView {
    RunView { transformer: transform::fresh(model), closed: false }
}

/// What a whole upstream is rewritten to.
pub open spec fn rewritten(input: Seq<u8>, model: Seq<char>) -> Seq<u8> {
    let events = sse::stream_events(input);
    events_output(fresh_run(model), events) + (if after_events(fresh_run(model), events).closed {
        Seq::empty()
    } else {
        done_frame()
    })
}

/// One more event keeps the end marker last.
proof fn lemma_one_more_event(s: RunView, events: Seq<Seq<u8>>)
    requires
        events.len() > 0,
        mark_only_the_end(s, events.drop_last()),
        after_events(s, events.drop_last()).closed || marks_only_the_end(
            after_events(s, events.drop_last()).transformer,
            events.last(),
        ),
    ensures
        mark_only_the_end(s, events),
{
    let before = after_events(s, events.drop_last());
    let a = events_payloads(s, events.drop_last());
    let all = events_payloads(s, events);
    if before.closed {
        assert(all =~= a);
    } else {
        let b = event_payloads(before.transformer, events.last());
        assert forall|i: int|
            0 <= i < all.len() && #[trigger] all[i] == transform::done_marker() implies i
            == all.len() - 1 && after_events(s, events).closed by {
            if i < a.len() {
                assert(a[i] == all[i]);
            } else {
                assert(b[i - a.len()] == all[i]);
            }
        }
    }
}

/// The payloads of events in two groups are those of the events in one.
proof fn lemma_payloads_in_two(s: RunView, a: Seq<Seq<u8>>, b: Seq<Seq<u8>>)
    ensures
        events_payloads(s, a + b) == events_payloads(s, a) + events_payloads(
            after_events(s, a),
            b,
        ),
    decreases b.len(),
{
    if b.len() == 0 {
        assert(a + b =~= a);
        assert(events_payloads(s, a) + Seq::<Seq<u8>>::empty() =~= events_payloads(s, a));
    } else {
        assert((a + b).drop_last() =~= a + b.drop_last());
        assert((a + b).last() == b.last());
        lemma_payloads_in_two(s, a, b.drop_last());
        lemma_events_in_two(s, a, b.drop_last());
        let before = after_events(after_events(s, a), b.drop_last());
        let p: Seq<Seq<u8>> = if before.closed {
            Seq::empty()
        } else {
            event_payloads(before.transformer, b.last())
        };
        assert(events_payloads(s, a) + events_payloads(after_events(s, a), b.drop_last()) + p
            =~= events_payloads(s, a) + (events_payloads(after_events(s, a), b.drop_last()) + p));
    }
}

/// One payload makes one frame.
proof fn lemma_one_frame(p: Seq<u8>)
    ensures
        sse::data_frames(seq![p]) == sse::data_frame(p),
{
    assert(seq![p].drop_last() =~= Seq::<Seq<u8>>::empty());
    assert(sse::data_frames(Seq::<Seq<u8>>::empty()) =~= Seq::<u8>::empty());
    assert(Seq::<u8>::empty() + sse::data_frame(p) =~= sse::data_frame(p));
}

/// What an event sends is its payloads, framed.
proof fn lemma_event_frames(t: TransformerView, event: Seq<u8>)
    ensures
        event_output(t, event) == sse::data_frames(event_payloads(t, event)),
{
    lemma_one_frame(transform::done_marker());
    lemma_one_frame(bytes::trimmed(event));
    match transform::outcome(t, event) {
        Outcome::Invalid(m) => {
            let e = error_payload(invalid_message(m));
            lemma_one_frame(e);
            lemma_frames_in_two(seq![e], seq![transform::done_marker()]);
            assert(seq![e] + seq![transform::done_marker()] =~= seq![e, transform::done_marker()]);
        },
        _ => {},
    }
}

/// What several events send is their payloads, framed.
proof fn lemma_events_frames(s: RunView, events: Seq<Seq<u8>>)
    ensures
        events_output(s, events) == sse::data_frames(events_payloads(s, events)),
    decreases events.len(),
{
    if events.len() > 0 {
        lemma_events_frames(s, events.drop_last());
        let before = after_events(s, events.drop_last());
        let a = events_payloads(s, events.drop_last());
        if before.closed {
            assert(a + Seq::<Seq<u8>>::empty() =~= a);
            assert(events_output(s, events.drop_last()) + Seq::<u8>::empty() =~= events_output(
                s,
                events.drop_last(),
            ));
        } else {
            lemma_event_frames(before.transformer, events.last());
            lemma_frames_in_two(a, event_payloads(before.transformer, events.last()));
        }
    }
}

/// The payloads of the frames that a whole upstream is rewritten to.
pub open spec fn rewritten_payloads(input: Seq<u8>, model: Seq<char>) -> Seq<Seq<u8>> {
    let events = sse::stream_events(input);
    events_payloads(fresh_run(model), events) + (if after_events(
        fresh_run(model),
        events,
    ).closed {
        Seq::empty()
    } else {
        seq![transform::done_marker()]
    })
}

/// Where events close the relay, the last payload is the end marker.
proof fn lemma_closing_payload(s: RunView, events: Seq<Seq<u8>>)
    requires
        !s.closed,
        after_events(s, events).closed,
    ensures
        events_payloads(s, events).len() > 0,
        events_payloads(s, events).last() == transform::done_marker(),
    decreases events.len(),
{
    let rest = events.drop_last();
    if after_events(s, rest).closed {
        lemma_closing_payload(s, rest);
        assert(events_payloads(s, events) =~= events_payloads(s, rest));
    }
}

/// A rewritten stream is a row of frames, and the last of them is the end
/// marker.
pub proof fn law_rewritten_stream_is_framed(input: Seq<u8>, model: Seq<char>)
    ensures
        rewritten(input, model) == sse::data_frames(rewritten_payloads(input, model)),
        rewritten_payloads(input, model).len() > 0,
        rewritten_payloads(input, model).last() == transform::done_marker(),
{
    let s = fresh_run(model);
    let events = sse::stream_events(input);
    let a = events_payloads(s, events);
    lemma_events_frames(s, events);
    if after_events(s, events).closed {
        lemma_closing_payload(s, events);
        assert(a + Seq::<Seq<u8>>::empty() =~= a);
        assert(events_output(s, events) + Seq::<u8>::empty() =~= events_output(s, events));
    } else {
        lemma_one_frame(transform::done_marker());
        lemma_frames_in_two(a, seq![transform::done_marker()]);
    }
}

/// Events in two groups go as events in one.
proof fn lemma_events_in_two(s: RunView, a: Seq<Seq<u8>>, b: Seq<Seq<u8>>)
    ensures
        after_events(s, a + b) == after_events(after_events(s, a), b),
        events_output(s, a + b) == events_output(s, a) + events_output(after_events(s, a), b),
        events_seen(s, a + b) == events_seen(s, a) + events_seen(after_events(s, a), b),
        events_error(s, a + b) == (match events_error(after_events(s, a), b) {
            Some(m) => Some(m),
            None => events_error(s, a),
        }),
    decreases b.len(),
{
    if b.len() == 0 {
        assert(a + b =~= a);
        assert(events_output(s, a) + Seq::<u8>::empty() =~= events_output(s, a));
        assert(events_seen(s, a) + Seq::<(Seq<u8>, ResultView)>::empty() =~= events_seen(s, a));
    } else {
        assert((a + b).drop_last() =~= a + b.drop_last());
        assert((a + b).last() == b.last());
        lemma_events_in_two(s, a, b.drop_last());
        let mid = after_events(s, a);
        let before = after_events(mid, b.drop_last());
        let o: Seq<u8> = if before.closed {
            Seq::empty()
        } else {
            event_output(before.transformer, b.last())
        };
        assert(events_output(s, a) + events_output(mid, b.drop_last()) + o =~= events_output(s, a)
            + (events_output(mid, b.drop_last()) + o));
        let e: Seq<(Seq<u8>, ResultView)> = if before.closed {
            Seq::empty()
        } else {
            event_seen(before.transformer, b.last())
        };
        assert(events_seen(s, a) + events_seen(mid, b.drop_last()) + e =~= events_seen(s, a) + (
        events_seen(mid, b.drop_last()) + e));
    }
}

/// A relay that is closed stays as it is and fails no more.
proof fn lemma_closed_stays(s: RunView, events: Seq<Seq<u8>>)
    requires
        s.closed,
    ensures
        after_events(s, events) == s,
        events_output(s, events) == Seq::<u8>::empty(),
        events_seen(s, events) == Seq::<(Seq<u8>, ResultView)>::empty(),
        events_error(s, events) is None,
    decreases events.len(),
{
    if events.len() > 0 {
        lemma_closed_stays(s, events.drop_last());
        assert(Seq::<u8>::empty() + Seq::<u8>::empty() =~= Seq::<u8>::empty());
        assert(Seq::<(Seq<u8>, ResultView)>::empty() + Seq::<(Seq<u8>, ResultView)>::empty()
            =~= Seq::<(Seq<u8>, ResultView)>::empty());
    }
}

/// A relay that is closed has no payload to send.
proof fn lemma_closed_is_silent(s: RunView, events: Seq<Seq<u8>>)
    requires
        s.closed,
    ensures
        events_payloads(s, events) == Seq::<Seq<u8>>::empty(),
    decreases events.len(),
{
    if events.len() > 0 {
        lemma_closed_is_silent(s, events.drop_last());
        lemma_closed_stays(s, events.drop_last());
        assert(Seq::<Seq<u8>>::empty() + Seq::<Seq<u8>>::empty() =~= Seq::<Seq<u8>>::empty());
    }
}

/// Feeding two pieces of the upstream sends what feeding them as one sends.
pub proof fn law_feeding_in_pieces(r: ReaderView, s: RunView, a: Seq<u8>, b: Seq<u8>)
    ensures
        ({
            let first = sse::read_events(r, a);
            let second = sse::read_events(sse::read_all(r, a), b);
            let whole = sse::read_events(r, a + b);
            let mid = after_events(s, first);
            &&& events_output(s, whole) == events_output(s, first) + events_output(mid, second)
            &&& after_events(s, whole) == after_events(mid, second)
        }),
{
    sse::law_reading_in_pieces(r, a, b);
    lemma_events_in_two(s, sse::read_events(r, a), sse::read_events(sse::read_all(r, a), b));
}

/// `tail` is the end of `s`.
pub open spec fn ends_in(s: Seq<u8>, tail: Seq<u8>) -> bool {
    s.len() >= tail.len() && s.skip(s.len() - tail.len()) == tail
}

/// What is appended is the end.
proof fn lemma_ends_in(a: Seq<u8>, tail: Seq<u8>)
    ensures
        ends_in(a + tail, tail),
{
    assert((a + tail).skip(a.len() as int) =~= tail);
}

/// Where events close the relay, what they send ends in the sentinel, and in
/// an error frame and the sentinel where they fail.
proof fn lemma_closing_output(s: RunView, events: Seq<Seq<u8>>)
    requires
        !s.closed,
        after_events(s, events).closed,
    ensures
        ends_in(events_output(s, events), done_frame()),
        match events_error(s, events) {
            Some(m) => ends_in(
                events_output(s, events),
                error_frame(invalid_message(m)) + done_frame(),
            ),
            None => true,
        },
    decreases events.len(),
{
    let rest = events.drop_last();
    let before = after_events(s, rest);
    let sent = events_output(s, rest);
    if before.closed {
        lemma_closing_output(s, rest);
        assert(sent + Seq::<u8>::empty() =~= sent);
    } else {
        lemma_open_has_no_error(s, rest);
        match event_verdict(before.transformer, events.last()) {
            Verdict::Continue => {},
            Verdict::Stop => {
                lemma_ends_in(sent, done_frame());
            },
            Verdict::Fail(m) => {
                let e = error_frame(invalid_message(m));
                lemma_ends_in(sent, e + done_frame());
                assert(sent + (e + done_frame()) =~= (sent + e) + done_frame());
                lemma_ends_in(sent + e, done_frame());
            },
        }
    }
}

/// An open relay has not failed.
proof fn lemma_open_has_no_error(s: RunView, events: Seq<Seq<u8>>)
    requires
        !after_events(s, events).closed,
    ensures
        events_error(s, events) is None,
    decreases events.len(),
{
    if events.len() > 0 {
        let before = after_events(s, events.drop_last());
        if before.closed {
        } else {
            lemma_open_has_no_error(s, events.drop_last());
        }
    }
}

/// Every rewritten stream ends in the sentinel, whatever the upstream sent,
/// and an error frame comes right before it where an event was invalid.
pub proof fn law_rewritten_stream_ends_in_done(input: Seq<u8>, model: Seq<char>)
    ensures
        ends_in(rewritten(input, model), done_frame()),
        match events_error(fresh_run(model), sse::stream_events(input)) {
            Some(m) => ends_in(
                rewritten(input, model),
                error_frame(invalid_message(m)) + done_frame(),
            ),
            None => true,
        },
{
    let s = fresh_run(model);
    let events = sse::stream_events(input);
    let sent = events_output(s, events);
    if after_events(s, events).closed {
        lemma_closing_output(s, events);
        assert(sent + Seq::<u8>::empty() =~= sent);
    } else {
        lemma_open_has_no_error(s, events);
        lemma_ends_in(sent, done_frame());
    }
}

/// What comes after an upstream `[DONE]` is not relayed.
pub proof fn law_nothing_follows_done(
    model: Seq<char>,
    before: Seq<Seq<u8>>,
    last: Seq<u8>,
    later: Seq<Seq<u8>>,
)
    requires
        bytes::trimmed(last) == transform::done_marker(),
    ensures
        events_output(fresh_run(model), before.push(last) + later) == events_output(
            fresh_run(model),
            before.push(last),
        ),
        after_events(fresh_run(model), before.push(last)).closed,
{
    let s = fresh_run(model);
    let upto = before.push(last);
    assert(upto.drop_last() =~= before);
    let mid = after_events(s, before);
    assert(transform::outcome(mid.transformer, last) is Done);
    lemma_events_in_two(s, upto, later);
    lemma_closed_stays(after_events(s, upto), later);
    assert(events_output(s, upto) + Seq::<u8>::empty() =~= events_output(s, upto));
}

/// Rewrites a whole upstream into chat-completion chunks.
pub fn rewrite_sse_stream(upstream: &[u8], model: &str) -> (r: (Vec<u8>, Result<(), RelayError>))
    ensures
        r.0@ == rewritten(upstream@, model@),
        match events_error(fresh_run(model@), sse::stream_events(upstream@)) {
            Some(m) => r.1 matches Err(RelayError::Transform(TransformError::InvalidJson(t)))
                && t@ == m,
            None => r.1 is Ok,
        },
        forall|i: int|
            0 <= i < rewritten_payloads(upstream@, model@).len() - 1 ==> #[trigger]
            rewritten_payloads(upstream@, model@)[i] != transform::done_marker(),
{
    let (bytes, result, _seen): (Vec<u8>, Result<(), RelayError>, Vec<Seen>) =
        rewrite_sse_stream_with_callback(upstream, model);
    (bytes, result)
}

/// Rewrites a whole upstream into chat-completion chunks, and tells what
/// became of each event.
pub fn rewrite_sse_stream_with_callback(upstream: &[u8], model: &str) -> (r: (
    Vec<u8>,
    Result<(), RelayError>,
    Vec<Seen>,
))
    ensures
        r.0@ == rewritten(upstream@, model@),
        match events_error(fresh_run(model@), sse::stream_events(upstream@)) {
            Some(m) => r.1 matches Err(RelayError::Transform(TransformError::InvalidJson(t)))
                && t@ == m,
            None => r.1 is Ok,
        },
        seen_views(r.2@) == events_seen(fresh_run(model@), sse::stream_events(upstream@)),
        forall|i: int|
            0 <= i < rewritten_payloads(upstream@, model@).len() - 1 ==> #[trigger]
            rewritten_payloads(upstream@, model@)[i] != transform::done_marker(),
{
    let mut relay = RewriteRelay::new(model);
    let ghost s = relay.run();
    let first = relay.feed(upstream);
    let ghost a = sse::read_events(sse::fresh(), upstream@);
    let ghost b = sse::last_event(relay.reader@);
    let ghost mid = relay.run();
    let last = relay.finish();
    proof {
        lemma_events_in_two(s, a, b);
        assert(sse::stream_events(upstream@) == a + b);
        if mid.closed {
            lemma_closed_stays(mid, b);
            lemma_closed_is_silent(mid, b);
        }
        lemma_payloads_in_two(s, a, b);
        let first_part = events_payloads(s, a);
        let second_part = events_payloads(mid, b);
        let all = rewritten_payloads(upstream@, model@);
        assert forall|i: int| 0 <= i < all.len() - 1 implies #[trigger] all[i]
            != transform::done_marker() by {
            if i < first_part.len() {
                assert(all[i] == first_part[i]);
            } else if i < first_part.len() + second_part.len() {
                assert(all[i] == second_part[i - first_part.len()]);
            }
        }
    }
    let mut bytes: Vec<u8> = first.bytes;
    bytes::append(&mut bytes, last.bytes.as_slice());
    proof {
        let end: Seq<u8> = if after_events(mid, b).closed {
            Seq::empty()
        } else {
            done_frame()
        };
        assert(events_output(s, a) + (events_output(mid, b) + end) =~= events_output(s, a)
            + events_output(mid, b) + end);
    }
    let mut seen: Vec<Seen> = first.seen;
    let mut more: Vec<Seen> = last.seen;
    let ghost seen0 = seen@;
    let ghost more0 = more@;
    seen.append(&mut more);
    proof {
        assert(seen_views(seen@) =~= seen_views(seen0) + seen_views(more0));
        if !mid.closed {
            lemma_open_has_no_error(s, a);
        }
    }
    let result: Result<(), RelayError> = match first.error {
        Some(e) => Err(RelayError::Transform(e)),
        None => match last.error {
            Some(e) => Err(RelayError::Transform(e)),
            None => Ok(()),
        },
    };
    (bytes, result, seen)
}

/// What an event becomes in a pass-through relay: an empty one is dropped, and
/// the sentinel is sent without white space around it.
pub open spec fn copied_event(event: Seq<u8>) -> Seq<Seq<u8>> {
    if bytes::trimmed(event) == transform::done_marker() {
        seq![transform::done_marker()]
    } else if event.len() == 0 {
        Seq::empty()
    } else {
        seq![event]
    }
}

/// What events become in a pass-through relay.
pub open spec fn copied_events(events: Seq<Seq<u8>>) -> Seq<Seq<u8>>
    decreases events.len(),
{
    if events.len() == 0 {
        Seq::empty()
    } else {
        copied_events(events.drop_last()) + copied_event(events.last())
    }
}

/// Copies the events of one backend stream.
pub struct PassThroughRelay {
    pub reader: SseEventReader,
}

/// Appends a frame for each event.
fn push_copied(out: &mut Vec<u8>, events: &Vec<Vec<u8>>)
    ensures
        final(out)@ == old(out)@ + sse::data_frames(copied_events(bytes::views(events@))),
{
    let ghost start = out@;
    let ghost all = bytes::views(events@);
    let mut i: usize = 0;
    proof {
        assert(start + sse::data_frames(copied_events(all.take(0))) =~= start);
    }
    while i < events.len()
        invariant
            i <= events@.len(),
            all == bytes::views(events@),
            out@ == start + sse::data_frames(copied_events(all.take(i as int))),
        decreases events@.len() - i,
    {
        let ghost before = copied_events(all.take(i as int));
        proof {
            assert(all.take(i + 1).drop_last() =~= all.take(i as int));
            assert(all.take(i + 1).last() == events@[i as int]@);
            assert(before + Seq::<Seq<u8>>::empty() =~= before);
        }
        let trimmed: Vec<u8> = bytes::trim_ascii(events[i].as_slice());
        if transform::is_done_marker(trimmed.as_slice()) {
            sse::push_data_frame(out, trimmed.as_slice());
        } else if events[i].len() > 0 {
            sse::push_data_frame(out, events[i].as_slice());
        }
        proof {
            let e = copied_event(events@[i as int]@);
            if e.len() > 0 {
                assert((before + e).drop_last() =~= before);
                assert((before + e).last() == e[0]);
                assert(start + sse::data_frames(before) + sse::data_frame(e[0]) =~= start
                    + sse::data_frames(before + e));
            }
        }
        i += 1;
    }
    proof {
        assert(all.take(i as int) =~= all);
    }
}

impl PassThroughRelay {
    /// A relay that has read nothing.
    pub fn new() -> (r: Self)
        ensures
            r.reader@ == sse::fresh(),
    {
        PassThroughRelay { reader: SseEventReader::new() }
    }

    /// Takes a piece of the upstream.
    pub fn feed(&mut self, input: &[u8]) -> (r: Vec<u8>)
        ensures
            final(self).reader@ == sse::read_all(old(self).reader@, input@),
            r@ == sse::data_frames(copied_events(sse::read_events(old(self).reader@, input@))),
    {
        let events: Vec<Vec<u8>> = self.reader.feed(input);
        let mut out: Vec<u8> = Vec::new();
        push_copied(&mut out, &events);
        proof {
            assert(out@ =~= sse::data_frames(copied_events(bytes::views(events@))));
        }
        out
    }

    /// Takes the end of the upstream: an event that is still open counts, and
    /// nothing is added.
    pub fn finish(&mut self) -> (r: Vec<u8>)
        ensures
            final(self).reader@ == sse::fresh(),
            r@ == sse::data_frames(copied_events(sse::last_event(old(self).reader@))),
    {
        let mut events: Vec<Vec<u8>> = Vec::new();
        match self.reader.finish() {
            Some(e) => events.push(e),
            None => {},
        }
        proof {
            assert(bytes::views(events@) =~= sse::last_event(old(self).reader@));
        }
        let mut out: Vec<u8> = Vec::new();
        push_copied(&mut out, &events);
        proof {
            assert(out@ =~= sse::data_frames(copied_events(bytes::views(events@))));
        }
        out
    }
}

/// Frames in two groups are frames in one.
proof fn lemma_frames_in_two(a: Seq<Seq<u8>>, b: Seq<Seq<u8>>)
    ensures
        sse::data_frames(a + b) == sse::data_frames(a) + sse::data_frames(b),
    decreases b.len(),
{
    if b.len() == 0 {
        assert(a + b =~= a);
        assert(sse::data_frames(a) + Seq::<u8>::empty() =~= sse::data_frames(a));
    } else {
        assert((a + b).drop_last() =~= a + b.drop_last());
        lemma_frames_in_two(a, b.drop_last());
        assert(sse::data_frames(a) + sse::data_frames(b.drop_last()) + sse::data_frame(b.last())
            =~= sse::data_frames(a) + (sse::data_frames(b.drop_last()) + sse::data_frame(
            b.last(),
        )));
    }
}

/// Events in two groups are copied as events in one.
proof fn lemma_copied_in_two(a: Seq<Seq<u8>>, b: Seq<Seq<u8>>)
    ensures
        copied_events(a + b) == copied_events(a) + copied_events(b),
    decreases b.len(),
{
    if b.len() == 0 {
        assert(a + b =~= a);
        assert(copied_events(a) + Seq::<Seq<u8>>::empty() =~= copied_events(a));
    } else {
        assert((a + b).drop_last() =~= a + b.drop_last());
        lemma_copied_in_two(a, b.drop_last());
        assert(copied_events(a) + copied_events(b.drop_last()) + copied_event(b.last())
            =~= copied_events(a) + (copied_events(b.drop_last()) + copied_event(b.last())));
    }
}

/// Copies the events of a whole upstream; nothing is added at its end.
pub fn pass_through_sse_stream(upstream: &[u8]) -> (r: Vec<u8>)
    ensures
        r@ == sse::data_frames(copied_events(sse::stream_events(upstream@))),
{
    let mut relay = PassThroughRelay::new();
    let mut out: Vec<u8> = relay.feed(upstream);
    let ghost a = sse::read_events(sse::fresh(), upstream@);
    let ghost b = sse::last_event(relay.reader@);
    let last: Vec<u8> = relay.finish();
    bytes::append(&mut out, last.as_slice());
    proof {
        lemma_copied_in_two(a, b);
        lemma_frames_in_two(copied_events(a), copied_events(b));
        assert(sse::stream_events(upstream@) == a + b);
    }
    out
}

/// A client reads from a pass-through relay the events that the relay read,
/// where no line of them ends in a carriage return.
pub proof fn law_passed_through_events_are_read_back(input: Seq<u8>)
    requires
        forall|i: int|
            0 <= i < copied_events(sse::stream_events(input)).len() ==> sse::no_trailing_cr(
                #[trigger] copied_events(sse::stream_events(input))[i],
            ),
    ensures
        sse::stream_events(sse::data_frames(copied_events(sse::stream_events(input))))
            == copied_events(sse::stream_events(input)),
{
    sse::law_frames_are_read_back(copied_events(sse::stream_events(input)));
}

/// A comment that keeps the stream alive is no event to a client.
pub proof fn law_ping_is_no_event()
    ensures
        sse::read_all(sse::fresh(), ping()) == sse::fresh(),
        sse::read_events(sse::fresh(), ping()) == Seq::<Seq<u8>>::empty(),
{
    let p = ping();
    reveal_with_fuel(sse::read_all, 9);
    reveal_with_fuel(sse::read_events, 9);
    assert(p.drop_last() =~= p.take(7));
    assert(p.take(7).drop_last() =~= p.take(6));
    assert(p.take(6).drop_last() =~= p.take(5));
    assert(p.take(5).drop_last() =~= p.take(4));
    assert(p.take(4).drop_last() =~= p.take(3));
    assert(p.take(3).drop_last() =~= p.take(2));
    assert(p.take(2).drop_last() =~= p.take(1));
    assert(p.take(1).drop_last() =~= p.take(0));
    let line = sse::read_all(sse::fresh(), p.take(6)).line;
    assert(line =~= p.take(6));
    assert(sse::bare(line) == line);
    assert(line.take(5) =~= p.take(5));
    assert(line.take(5)[0] != sse::data_field()[0]);
    assert(sse::line_data(line) == Seq::<Seq<u8>>::empty());
    sse::lemma_not_blank(line);
    let s7 = sse::read_all(sse::fresh(), p.take(7));
    assert(s7.data =~= Seq::<Seq<u8>>::empty());
    assert(sse::is_boundary(s7.line));
}

/// A chunk that comes from upstream goes through unchanged, and the stream goes
/// on.
pub proof fn law_chunk_passes_through(s: RunView, event: Seq<u8>, v: JsonView)
    requires
        !s.closed,
        transform::outcome(s.transformer, event) is Swallowed,
        json::json_parse(bytes::trimmed(event)) == Ok::<JsonView, Seq<char>>(v),
        is_chunk(v),
    ensures
        event_output(s.transformer, event) == sse::data_frame(bytes::trimmed(event)),
        !after_event(s, event).closed,
{
}

/// An event that cannot be read ends the stream: the client gets an error and
/// then the sentinel.
pub proof fn law_invalid_event_is_told(s: RunView, event: Seq<u8>, m: Seq<char>)
    requires
        !s.closed,
        transform::outcome(s.transformer, event) == transform::Outcome::Invalid(m),
        !is_typeless(event),
    ensures
        event_output(s.transformer, event) == error_frame(invalid_message(m)) + done_frame(),
        after_event(s, event).closed,
        events_error(s, seq![event]) == Some(m),
{
    let events = seq![event];
    assert(events.drop_last() =~= Seq::<Seq<u8>>::empty());
    assert(events.last() == event);
    assert(after_events(s, events.drop_last()) == s);
}

} // verus!
