//! What a relay sends for what it receives.
//!
//! The laws speak of the events that come in and of the bytes that go out.
use super::RelayError;
use super::ResultView;
use super::RunView;
use crate::bytes;
use crate::json;
use crate::json::JsonView;
use crate::relay;
use crate::sse;
use crate::transform;
use crate::transform::Outcome;
use crate::transform::TransformError;
use vstd::prelude::*;
use vstd::utf8::encode_utf8;

verus! {

/// The sentinel `[DONE]`.
pub open spec fn sentinel() -> Seq<u8> {
    seq!['[' as u8, 'D' as u8, 'O' as u8, 'N' as u8, 'E' as u8, ']' as u8]
}

/// The sentinel as it is sent.
pub open spec fn end() -> Seq<u8> {
    sse::laws::data_name().push(' ' as u8) + sentinel() + seq!['\n' as u8, '\n' as u8]
}

/// What the client gets where the stream breaks off: the message under `error`,
/// and the sentinel.
pub open spec fn broken_off(message: Seq<char>) -> Seq<u8> {
    sse::data_frame(
        encode_utf8(
            json::json_text(
                JsonView::Object(map!["error"@ => JsonView::Text("stream error: "@ + message)]),
            ),
        ),
    ) + end()
}

/// JSON that is a chat-completion chunk already.
pub open spec fn is_chunk(data: Seq<u8>) -> bool {
    json::json_parse(data) matches Ok(v) && json::text_field(v, "object"@) == Some(
        "chat.completion.chunk"@,
    )
}

/// JSON without a text under `type`.
pub open spec fn has_no_type(data: Seq<u8>) -> bool {
    json::json_parse(data) matches Ok(v) && json::text_field(v, "type"@) is None
}

/// The sentinel as it is sent is the frame of the sentinel.
proof fn lemma_end()
    ensures
        relay::done_frame() == end(),
        transform::done_marker() == sentinel(),
{
    assert(transform::done_marker() =~= sentinel());
    assert(sse::laws::is_line(sentinel()));
    sse::laws::law_frame_is_written(sentinel(), Seq::empty());
}

/// The stream goes on after an event, with this more sent.
pub open spec fn goes_on(s: RunView, events: Seq<Seq<u8>>, e: Seq<u8>, more: Seq<u8>) -> bool {
    let before = relay::after_events(s, events);
    let after = relay::after_events(s, events.push(e));
    &&& relay::events_output(s, events.push(e)) == relay::events_output(s, events) + more
    &&& relay::events_error(s, events.push(e)) == relay::events_error(s, events)
    &&& !after.closed
    &&& after.transformer == transform::after_data(before.transformer, e)
}

/// One more event.
proof fn lemma_push(s: RunView, events: Seq<Seq<u8>>, e: Seq<u8>)
    ensures
        events.push(e).drop_last() == events,
        events.push(e).last() == e,
{
    assert(events.push(e).drop_last() =~= events);
}

/// Before the first event nothing is sent and nobody is told anything.
pub proof fn law_no_events_no_output(s: RunView)
    ensures
        relay::events_output(s, Seq::empty()) == Seq::<u8>::empty(),
        relay::after_events(s, Seq::empty()) == s,
        relay::events_error(s, Seq::empty()) is None,
        relay::events_seen(s, Seq::empty()) == Seq::<(Seq<u8>, ResultView)>::empty(),
{
}

/// Once the stream is closed, an event is neither sent nor told of.
pub proof fn law_closed_stream_stays_closed(s: RunView, events: Seq<Seq<u8>>, e: Seq<u8>)
    requires
        relay::after_events(s, events).closed,
    ensures
        relay::events_output(s, events.push(e)) == relay::events_output(s, events),
        relay::after_events(s, events.push(e)) == relay::after_events(s, events),
        relay::events_error(s, events.push(e)) == relay::events_error(s, events),
        relay::events_seen(s, events.push(e)) == relay::events_seen(s, events),
{
    lemma_push(s, events, e);
    let out = relay::events_output(s, events);
    assert(out + Seq::<u8>::empty() =~= out);
    let seen = relay::events_seen(s, events);
    assert(seen + Seq::<(Seq<u8>, ResultView)>::empty() =~= seen);
}

/// The sentinel of the upstream is sent on and closes the stream without an
/// error.
pub proof fn law_sentinel_closes_the_stream(s: RunView, events: Seq<Seq<u8>>, e: Seq<u8>)
    requires
        !relay::after_events(s, events).closed,
        bytes::trimmed(e) == sentinel(),
    ensures
        relay::events_output(s, events.push(e)) == relay::events_output(s, events) + end(),
        relay::after_events(s, events.push(e)).closed,
        relay::events_error(s, events.push(e)) == relay::events_error(s, events),
        relay::events_seen(s, events.push(e)) == relay::events_seen(s, events).push(
            (e, ResultView::Done),
        ),
{
    lemma_push(s, events, e);
    lemma_end();
    let seen = relay::events_seen(s, events);
    assert(seen + seq![(e, ResultView::Done)] =~= seen.push((e, ResultView::Done)));
}

/// The chunks that an event becomes are sent, each in a frame of its own, and
/// the stream goes on.
pub proof fn law_chunks_are_sent(s: RunView, events: Seq<Seq<u8>>, e: Seq<u8>, chunks: Seq<JsonView>)
    requires
        !relay::after_events(s, events).closed,
        transform::outcome(relay::after_events(s, events).transformer, e) == Outcome::Emitted(
            chunks,
        ),
    ensures
        goes_on(s, events, e, sse::data_frames(transform::all_chunk_bytes(chunks))),
        transform::all_chunk_bytes(chunks).len() == chunks.len(),
        relay::events_seen(s, events.push(e)) == relay::events_seen(s, events).push(
            (e, ResultView::Emitted(transform::all_chunk_bytes(chunks))),
        ),
{
    lemma_push(s, events, e);
    let seen = relay::events_seen(s, events);
    let told = (e, ResultView::Emitted(transform::all_chunk_bytes(chunks)));
    assert(seen + seq![told] =~= seen.push(told));
}

/// An event that becomes nothing is sent on where it is a chunk already, without
/// the white space around it; otherwise nothing is sent. The stream goes on.
pub proof fn law_foreign_chunk_is_sent_on(s: RunView, events: Seq<Seq<u8>>, e: Seq<u8>)
    requires
        !relay::after_events(s, events).closed,
        transform::outcome(relay::after_events(s, events).transformer, e) is Swallowed,
    ensures
        is_chunk(bytes::trimmed(e)) ==> goes_on(s, events, e, sse::data_frame(bytes::trimmed(e))),
        !is_chunk(bytes::trimmed(e)) ==> goes_on(s, events, e, Seq::empty()),
        relay::events_seen(s, events.push(e)) == relay::events_seen(s, events).push(
            (e, ResultView::Swallowed),
        ),
{
    lemma_push(s, events, e);
    let seen = relay::events_seen(s, events);
    assert(seen + seq![(e, ResultView::Swallowed)] =~= seen.push((e, ResultView::Swallowed)));
}

/// JSON without a type is no error: it is sent on where it is a chunk, and the
/// stream goes on.
pub proof fn law_json_without_type_is_no_error(s: RunView, events: Seq<Seq<u8>>, e: Seq<u8>)
    requires
        !relay::after_events(s, events).closed,
        transform::outcome(relay::after_events(s, events).transformer, e) is Invalid,
        has_no_type(e),
    ensures
        is_chunk(e) ==> goes_on(s, events, e, sse::data_frame(bytes::trimmed(e))),
        !is_chunk(e) ==> goes_on(s, events, e, Seq::empty()),
        relay::events_seen(s, events.push(e)) == relay::events_seen(s, events),
{
    lemma_push(s, events, e);
    let seen = relay::events_seen(s, events);
    assert(seen + Seq::<(Seq<u8>, ResultView)>::empty() =~= seen);
}

/// An event that cannot be read closes the stream: the client is told why and
/// gets the sentinel, and the relay fails with the message of the parser.
pub proof fn law_unreadable_event_breaks_the_stream_off(
    s: RunView,
    events: Seq<Seq<u8>>,
    e: Seq<u8>,
    m: Seq<char>,
)
    requires
        !relay::after_events(s, events).closed,
        transform::outcome(relay::after_events(s, events).transformer, e) == Outcome::Invalid(m),
        !has_no_type(e),
    ensures
        relay::events_output(s, events.push(e)) == relay::events_output(s, events) + broken_off(
            "invalid upstream JSON chunk: "@ + m,
        ),
        relay::after_events(s, events.push(e)).closed,
        relay::events_error(s, events.push(e)) == Some(m),
        relay::events_seen(s, events.push(e)) == relay::events_seen(s, events),
{
    lemma_push(s, events, e);
    lemma_end();
    let seen = relay::events_seen(s, events);
    assert(seen + Seq::<(Seq<u8>, ResultView)>::empty() =~= seen);
}

/// A chunk is written as the text of its JSON.
pub proof fn law_chunk_is_written(chunks: Seq<JsonView>, i: int)
    requires
        0 <= i < chunks.len(),
    ensures
        transform::all_chunk_bytes(chunks)[i] == encode_utf8(
            json::ordered_text(chunks[i], transform::openai::member_order()),
        ),
{
}

/// A whole upstream is rewritten event by event, from a stream that is open; the
/// sentinel follows where the events have not closed the stream.
pub proof fn law_whole_upstream_is_rewritten(input: Seq<u8>, model: Seq<char>)
    ensures
        ({
            let s = RunView { transformer: transform::fresh(model), closed: false };
            let events = sse::stream_events(input);
            relay::rewritten(input, model) == relay::events_output(s, events) + (
            if relay::after_events(s, events).closed {
                Seq::empty()
            } else {
                end()
            })
        }),
{
    lemma_end();
}

/// A failure to read the upstream is told to the client of an open stream, with
/// the sentinel after it; a closed stream stays closed.
pub proof fn law_failure_is_told(message: Seq<char>)
    ensures
        relay::failure_output(false, message) == broken_off(message),
        relay::failure_output(true, message) == Seq::<u8>::empty(),
{
    lemma_end();
}

/// A relay that passes events through copies each as it is, in their order; it
/// leaves out empty ones and takes the white space off a sentinel.
pub proof fn law_events_are_copied(events: Seq<Seq<u8>>, e: Seq<u8>)
    ensures
        relay::copied_events(Seq::empty()) == Seq::<Seq<u8>>::empty(),
        relay::copied_events(events.push(e)) == (if bytes::trimmed(e) == sentinel() {
            relay::copied_events(events).push(sentinel())
        } else if e.len() == 0 {
            relay::copied_events(events)
        } else {
            relay::copied_events(events).push(e)
        }),
{
    assert(events.push(e).drop_last() =~= events);
    lemma_end();
    let copied = relay::copied_events(events);
    assert(copied + seq![e] =~= copied.push(e));
    assert(copied + seq![sentinel()] =~= copied.push(sentinel()));
    assert(copied + Seq::<Seq<u8>>::empty() =~= copied);
}

/// The comment that keeps a stream alive is `: ping` and a blank line.
pub proof fn law_ping_is_a_comment()
    ensures
        relay::ping() == seq![
            ':' as u8,
            ' ' as u8,
            'p' as u8,
            'i' as u8,
            'n' as u8,
            'g' as u8,
            '\n' as u8,
            '\n' as u8,
        ],
{
}

/// A comment is due when nothing was written for the whole interval, neither
/// earlier nor later; an interval of zero asks for none.
pub proof fn law_ping_is_due_after_the_interval(interval: u64, idle: u64)
    ensures
        relay::ping_wait(interval, idle) is None <==> interval == 0,
        relay::ping_wait(interval, idle) matches Some(wait) ==> {
            &&& idle <= interval ==> idle + wait == interval
            &&& idle > interval ==> wait == 0
        },
{
}

/// An error of a relay tells which side failed, and why.
pub proof fn law_relay_error_is_told(m: String, e: TransformError)
    ensures
        RelayError::UpstreamRead(m).text() == "upstream read error: "@ + m@,
        RelayError::DownstreamWrite(m).text() == "downstream write error: "@ + m@,
        RelayError::Transform(e).text() == "transform error: "@ + e.text(),
        TransformError::InvalidJson(m).text() == "invalid upstream JSON chunk: "@ + m@,
        TransformError::MarshalError(m).text() == "failed to marshal chunk: "@ + m@,
{
}

} // verus!
