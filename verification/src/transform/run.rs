//! What holds over a whole response.
//!
//! A run is the events of one response, each with its sequence number: no new
//! response begins in it.
use super::openai;
use super::upstream::EventView;
use super::upstream::ItemView;
use super::TransformerView;
use crate::json;
use crate::json::JsonView;
use crate::transform;
use vstd::prelude::*;

verus! {

/// The transformer after events.
pub open spec fn after_run(
    t: TransformerView,
    events: Seq<(Option<u64>, EventView)>,
) -> TransformerView
    decreases events.len(),
{
    if events.len() == 0 {
        t
    } else {
        transform::after_event(after_run(t, events.drop_last()), events.last().1)
    }
}

/// The chunks that events become.
pub open spec fn run_chunks(
    t: TransformerView,
    events: Seq<(Option<u64>, EventView)>,
) -> Seq<JsonView>
    decreases events.len(),
{
    if events.len() == 0 {
        Seq::empty()
    } else {
        run_chunks(t, events.drop_last()) + transform::event_chunks(
            after_run(t, events.drop_last()),
            events.last().0,
            events.last().1,
        )
    }
}

/// Events of one response: no new one begins among them.
pub open spec fn one_response(events: Seq<(Option<u64>, EventView)>) -> bool {
    forall|i: int| 0 <= i < events.len() ==> !((#[trigger] events[i]).1 is ResponseCreated)
}

/// The delta of a chunk's choice.
pub open spec fn delta_of(c: JsonView) -> Option<JsonView> {
    match json::array_field(c, "choices"@) {
        Some(choices) => if choices.len() > 0 {
            json::field(choices[0], "delta"@)
        } else {
            None
        },
        None => None,
    }
}

/// A chunk that announces the role.
pub open spec fn announces_role(c: JsonView) -> bool {
    delta_of(c) matches Some(d) && json::field(d, "role"@) is Some
}

/// The role is announced where it was not sent before, and then no more; nothing
/// else changes by it.
pub proof fn law_role_is_sent_once(t: TransformerView, first: Option<u64>, second: Option<u64>)
    ensures
        transform::role_chunk(t, first) is Some <==> !t.role_sent,
        transform::role_chunk(t, first) matches Some(c) ==> delta_of(c) == Some(
            JsonView::Object(map!["role"@ => JsonView::Text("assistant"@)]),
        ),
        transform::role_chunk(transform::after_role(t), second) is None,
        transform::after_role(t).role_sent,
        transform::after_role(t) == (TransformerView { role_sent: true, ..t }),
{
    lemma_delta_of(t, first, transform::text_delta("role"@, "assistant"@), None, None);
}

/// The delta of a chunk is the one that it was made with.
proof fn lemma_delta_of(
    t: TransformerView,
    seq: Option<u64>,
    delta: JsonView,
    finish: Option<Seq<char>>,
    usage: Option<JsonView>,
)
    ensures
        delta_of(transform::chunk(t, seq, delta, finish, usage)) == Some(delta),
{
    reveal_strlit("choices");
    reveal_strlit("usage");
    reveal_strlit("delta");
    reveal_strlit("index");
    reveal_strlit("finish_reason");
    assert("choices"@.len() != "usage"@.len());
    assert("delta"@[0] != "index"@[0]);
    assert("delta"@.len() != "finish_reason"@.len());
    let choice = JsonView::Object(
        map![
            "index"@ => openai::int_json(0),
            "delta"@ => delta,
            "finish_reason"@ => openai::text_or_null(finish),
        ],
    );
    let c = transform::chunk(t, seq, delta, finish, usage);
    assert(json::array_field(c, "choices"@) == Some(seq![choice]));
    assert(json::field(choice, "delta"@) == Some(delta));
}

/// Of the chunks of an event only the first can announce the role, and then it
/// was not sent before and is sent after.
proof fn lemma_event_role(t: TransformerView, seq: Option<u64>, e: EventView, i: int)
    requires
        0 <= i < transform::event_chunks(t, seq, e).len(),
        announces_role(transform::event_chunks(t, seq, e)[i]),
    ensures
        i == 0,
        !t.role_sent,
        transform::after_event(t, e).role_sent,
{
    reveal_strlit("role");
    reveal_strlit("content");
    reveal_strlit("reasoning_content");
    reveal_strlit("tool_calls");
    assert("role"@.len() == 4);
    assert("content"@.len() == 7);
    assert("reasoning_content"@.len() == 17);
    assert("tool_calls"@.len() == 10);
    let c = transform::event_chunks(t, seq, e)[i];
    lemma_delta_of(t, seq, transform::text_delta("role"@, "assistant"@), None, None);
    match e {
        EventView::ResponseCreated { id } => {},
        EventView::OutputTextDelta { delta } => {
            lemma_delta_of(t, seq, transform::text_delta("content"@, delta), None, None);
        },
        EventView::ResponseCompleted { usage } => {
            lemma_delta_of(
                t,
                seq,
                JsonView::Object(Map::empty()),
                Some(
                    if t.saw_tool_calls {
                        "tool_calls"@
                    } else {
                        "stop"@
                    },
                ),
                Some(
                    match usage {
                        Some(u) => u.usage().json(),
                        None => transform::zero_usage().json(),
                    },
                ),
            );
        },
        EventView::OutputItemAdded { item } => {
            if item matches Some(i) && transform::is_call(i) {
                let i = item->0;
                lemma_delta_of(
                    t,
                    seq,
                    transform::call_delta(
                        transform::index_of(t, i.id),
                        transform::call_id_of(i),
                        i.name,
                    ),
                    None,
                    None,
                );
            }
        },
        EventView::FunctionCallArgumentsDelta { item_id, delta } => {
            lemma_delta_of(
                t,
                seq,
                transform::arguments_delta(t.tool_index[item_id], delta),
                None,
                None,
            );
        },
        EventView::Reasoning { content } => {
            if content is Some {
                lemma_delta_of(
                    t,
                    seq,
                    transform::text_delta("reasoning_content"@, content->0),
                    None,
                    None,
                );
            }
        },
        EventView::Other => {},
    }
}

/// An event that begins no new response does not take the role back.
proof fn lemma_role_stays(t: TransformerView, events: Seq<(Option<u64>, EventView)>)
    requires
        one_response(events),
    ensures
        t.role_sent ==> after_run(t, events).role_sent,
        forall|i: int|
            0 <= i < run_chunks(t, events).len() && announces_role(
                #[trigger] run_chunks(t, events)[i],
            ) ==> !t.role_sent && after_run(t, events).role_sent,
    decreases events.len(),
{
    if events.len() > 0 {
        let prev = events.drop_last();
        let last = events.last();
        assert(one_response(prev)) by {
            assert forall|i: int| 0 <= i < prev.len() implies !((#[trigger]
            prev[i]).1 is ResponseCreated) by {
                assert(prev[i] == events[i]);
            }
        }
        assert(!(events[events.len() - 1].1 is ResponseCreated));
        lemma_role_stays(t, prev);
        let mid = after_run(t, prev);
        let a = run_chunks(t, prev);
        let b = transform::event_chunks(mid, last.0, last.1);
        assert forall|i: int|
            0 <= i < run_chunks(t, events).len() && announces_role(
                #[trigger] run_chunks(t, events)[i],
            ) implies !t.role_sent && after_run(t, events).role_sent by {
            if i < a.len() {
                assert(run_chunks(t, events)[i] == a[i]);
            } else {
                assert(run_chunks(t, events)[i] == b[i - a.len()]);
                lemma_event_role(mid, last.0, last.1, i - a.len());
            }
        }
    }
}

/// At most one chunk of a response announces the role, and none where it was
/// announced before.
pub proof fn law_one_role_per_response(t: TransformerView, events: Seq<(Option<u64>, EventView)>)
    requires
        one_response(events),
    ensures
        forall|i: int, j: int|
            0 <= i < j < run_chunks(t, events).len() ==> !(announces_role(
                #[trigger] run_chunks(t, events)[i],
            ) && announces_role(#[trigger] run_chunks(t, events)[j])),
        t.role_sent ==> forall|i: int|
            0 <= i < run_chunks(t, events).len() ==> !announces_role(
                #[trigger] run_chunks(t, events)[i],
            ),
    decreases events.len(),
{
    lemma_role_stays(t, events);
    if events.len() > 0 {
        let prev = events.drop_last();
        let last = events.last();
        assert(one_response(prev)) by {
            assert forall|i: int| 0 <= i < prev.len() implies !((#[trigger]
            prev[i]).1 is ResponseCreated) by {
                assert(prev[i] == events[i]);
            }
        }
        law_one_role_per_response(t, prev);
        lemma_role_stays(t, prev);
        let mid = after_run(t, prev);
        let a = run_chunks(t, prev);
        let b = transform::event_chunks(mid, last.0, last.1);
        let all = run_chunks(t, events);
        assert forall|i: int, j: int| 0 <= i < j < all.len() implies !(announces_role(
            #[trigger] all[i],
        ) && announces_role(#[trigger] all[j])) by {
            if announces_role(all[i]) && announces_role(all[j]) {
                if j < a.len() {
                    assert(all[i] == a[i]);
                    assert(all[j] == a[j]);
                } else {
                    assert(all[j] == b[j - a.len()]);
                    lemma_event_role(mid, last.0, last.1, j - a.len());
                    assert(i < a.len());
                    assert(all[i] == a[i]);
                }
            }
        }
    }
}

/// The tool call that an event announces.
pub open spec fn announced(e: EventView) -> Option<ItemView> {
    match e {
        EventView::OutputItemAdded { item } => match item {
            Some(i) => if transform::is_call(i) {
                Some(i)
            } else {
                None
            },
            None => None,
        },
        _ => None,
    }
}

/// The ids of the tool calls that events announce, by first appearance.
pub open spec fn called_ids(events: Seq<(Option<u64>, EventView)>) -> Seq<Seq<char>>
    decreases events.len(),
{
    if events.len() == 0 {
        Seq::empty()
    } else {
        let before = called_ids(events.drop_last());
        match announced(events.last().1) {
            Some(i) => if before.contains(i.id) {
                before
            } else {
                before.push(i.id)
            },
            None => before,
        }
    }
}

/// The indexes that a transformer has given are the places in a list of ids.
pub open spec fn indexes_are(t: TransformerView, ids: Seq<Seq<char>>) -> bool {
    &&& t.next_tool_index == ids.len()
    &&& forall|id: Seq<char>| #[trigger] t.tool_index.dom().contains(id) <==> ids.contains(id)
    &&& forall|k: int|
        0 <= k < ids.len() ==> t.tool_index.dom().contains(#[trigger] ids[k])
            && t.tool_index[ids[k]] == k
}

/// A list of ids by first appearance is no longer than the events, and holds no
/// id twice.
proof fn lemma_called_ids(events: Seq<(Option<u64>, EventView)>)
    ensures
        called_ids(events).len() <= events.len(),
        called_ids(events).no_duplicates(),
    decreases events.len(),
{
    if events.len() > 0 {
        lemma_called_ids(events.drop_last());
    }
}

/// The ids of the first events come first.
proof fn lemma_called_prefix(events: Seq<(Option<u64>, EventView)>, n: int)
    requires
        0 <= n <= events.len(),
    ensures
        called_ids(events.take(n)).len() <= called_ids(events).len(),
        called_ids(events).take(called_ids(events.take(n)).len() as int) == called_ids(
            events.take(n),
        ),
    decreases events.len(),
{
    if n == events.len() {
        assert(events.take(n) =~= events);
        assert(called_ids(events).take(called_ids(events).len() as int) =~= called_ids(events));
    } else {
        let prev = events.drop_last();
        lemma_called_prefix(prev, n);
        assert(prev.take(n) =~= events.take(n));
        let k = called_ids(events.take(n)).len() as int;
        assert(called_ids(events).take(k) =~= called_ids(prev).take(k));
    }
}

/// Over a run the indexes are the places of the ids by first appearance.
proof fn lemma_indexes_are(t: TransformerView, events: Seq<(Option<u64>, EventView)>)
    requires
        one_response(events),
        t.tool_index == Map::<Seq<char>, usize>::empty(),
        t.next_tool_index == 0,
        events.len() <= usize::MAX,
    ensures
        indexes_are(after_run(t, events), called_ids(events)),
        after_run(t, events).tool_index.dom().finite(),
        after_run(t, events).tool_index.len() == called_ids(events).len(),
        after_run(t, events).saw_tool_calls == (t.saw_tool_calls || called_ids(events).len() > 0),
    decreases events.len(),
{
    if events.len() == 0 {
        assert(after_run(t, events).tool_index.dom() =~= Set::<Seq<char>>::empty());
    } else {
        let prev = events.drop_last();
        assert(one_response(prev)) by {
            assert forall|i: int| 0 <= i < prev.len() implies !((#[trigger]
            prev[i]).1 is ResponseCreated) by {
                assert(prev[i] == events[i]);
            }
        }
        assert(!(events[events.len() - 1].1 is ResponseCreated));
        lemma_indexes_are(t, prev);
        lemma_called_ids(prev);
        let mid = after_run(t, prev);
        let ids = called_ids(prev);
        let e = events.last().1;
        match announced(e) {
            Some(i) => {
                let u = transform::after_call(mid, i);
                assert(after_run(t, events) == u);
                if ids.contains(i.id) {
                    assert(mid.tool_index.dom().contains(i.id));
                    assert(u.tool_index =~= mid.tool_index);
                    let k = choose|k: int| 0 <= k < ids.len() && ids[k] == i.id;
                    assert(ids[k] == i.id);
                    assert(ids.len() > 0);
                } else {
                    assert(!mid.tool_index.dom().contains(i.id));
                    let now = ids.push(i.id);
                    assert forall|id: Seq<char>| #[trigger]
                        u.tool_index.dom().contains(id) <==> now.contains(id) by {
                        if now.contains(id) {
                            let k = choose|k: int| 0 <= k < now.len() && now[k] == id;
                            if k < ids.len() {
                                assert(ids[k] == id);
                                assert(ids.contains(id));
                            }
                        }
                        if ids.contains(id) {
                            let k = choose|k: int| 0 <= k < ids.len() && ids[k] == id;
                            assert(now[k] == id);
                        }
                        assert(now[ids.len() as int] == i.id);
                    }
                    assert forall|k: int| 0 <= k < now.len() implies u.tool_index.dom().contains(
                        #[trigger] now[k],
                    ) && u.tool_index[now[k]] == k by {
                        if k < ids.len() {
                            assert(now[k] == ids[k]);
                            assert(ids.contains(ids[k]));
                        }
                    }
                }
            },
            None => {
                assert(after_run(t, events).tool_index == mid.tool_index);
            },
        }
    }
}

/// Over a response that starts fresh, the index of a tool call is the place of
/// its item by first appearance, and an item that is announced again keeps its
/// index. The next free index is the number of items, and the response calls
/// tools as soon as there is one.
pub proof fn law_index_is_the_rank_of_the_item(
    t: TransformerView,
    events: Seq<(Option<u64>, EventView)>,
    m: int,
)
    requires
        one_response(events),
        t.tool_index == Map::<Seq<char>, usize>::empty(),
        t.next_tool_index == 0,
        !t.saw_tool_calls,
        events.len() <= usize::MAX,
        0 <= m < events.len(),
    ensures
        ({
            let u = after_run(t, events);
            let ids = called_ids(events);
            &&& ids.no_duplicates()
            &&& u.next_tool_index == ids.len()
            &&& u.tool_index.len() == ids.len()
            &&& u.saw_tool_calls == (ids.len() > 0)
            &&& forall|k: int|
                0 <= k < ids.len() ==> u.tool_index.dom().contains(#[trigger] ids[k])
                    && u.tool_index[ids[k]] == k
        }),
        announced(events[m].1) matches Some(i) ==> {
            let before = after_run(t, events.take(m));
            let ids = called_ids(events);
            &&& ids.contains(i.id)
            &&& transform::event_chunks(before, events[m].0, events[m].1).last()
                == transform::chunk(
                before,
                events[m].0,
                transform::call_delta(
                    ids.index_of(i.id) as usize,
                    if i.call_id.len() == 0 {
                        "call_"@ + i.id
                    } else {
                        i.call_id
                    },
                    i.name,
                ),
                None,
                None,
            )
        },
{
    lemma_indexes_are(t, events);
    lemma_called_ids(events);
    let part = events.take(m);
    let more = events.take(m + 1);
    assert(more.drop_last() =~= part);
    assert(more.last() == events[m]);
    assert(one_response(part)) by {
        assert forall|i: int| 0 <= i < part.len() implies !((#[trigger]
        part[i]).1 is ResponseCreated) by {
            assert(part[i] == events[i]);
        }
    }
    lemma_indexes_are(t, part);
    lemma_called_prefix(events, m + 1);
    if announced(events[m].1) is Some {
        let i = announced(events[m].1)->0;
        let before = after_run(t, part);
        let early = called_ids(part);
        let now = called_ids(more);
        let ids = called_ids(events);
        let k: int = if early.contains(i.id) {
            choose|k: int| 0 <= k < early.len() && early[k] == i.id
        } else {
            early.len() as int
        };
        if early.contains(i.id) {
            assert(before.tool_index.dom().contains(early[k]));
        } else {
            assert(!before.tool_index.dom().contains(i.id));
        }
        assert(transform::index_of(before, i.id) == k);
        assert(now[k] == i.id);
        assert(ids.take(now.len() as int)[k] == ids[k]);
        assert(ids[k] == i.id);
        assert(ids.index_of(i.id) == k);
    }
}

} // verus!
