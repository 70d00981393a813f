//! Server-sent events: what a chunk of a streamed response says about token
//! usage. The chunk itself is relayed as it is.
use crate::json::Json;
use crate::json::JsonValue;
use crate::json::json_of_text;
use crate::json::parse_json;
use crate::metrics::MetricEvent;
use crate::metrics::MetricEventView;
use crate::metrics::events_view;
use crate::metrics::token_events;
use crate::metrics::track_token_usage;
use crate::text::chars_of;
use crate::text::string_of;
use crate::text::text_of;
use crate::text::trim;
use crate::text::trim_bounds;
use crate::text::utf8_lossy;
use vstd::prelude::*;

verus! {

/// Two line feeds stand at `i`.
pub open spec fn separator_at(text: Seq<char>, i: int) -> bool {
    0 <= i && i + 1 < text.len() && text[i] == '\n' && text[i + 1] == '\n'
}

/// The least index from `from` on at which two line feeds stand, or the
/// length of the text where there is none.
pub open spec fn find_separator(text: Seq<char>, from: int) -> int
    decreases text.len() - from,
{
    if from < 0 || from + 1 >= text.len() {
        text.len() as int
    } else if separator_at(text, from) {
        from
    } else {
        find_separator(text, from + 1)
    }
}

/// The events of `text[from..]`: the pieces between pairs of line feeds,
/// found from left to right.
pub open spec fn split_from(text: Seq<char>, from: int) -> Seq<Seq<char>>
    decreases text.len() - from,
{
    if from < 0 || from > text.len() {
        Seq::empty()
    } else {
        let i = find_separator(text, from);
        if i < from || i + 1 >= text.len() {
            seq![text.subrange(from, text.len() as int)]
        } else {
            let rest = split_from(text, i + 2);
            seq![text.subrange(from, i)] + rest
        }
    }
}

/// The events of a chunk: the pieces between pairs of line feeds.
pub open spec fn split_events(text: Seq<char>) -> Seq<Seq<char>> {
    split_from(text, 0)
}

/// `text` begins with `prefix`.
pub open spec fn has_prefix(text: Seq<char>, prefix: Seq<char>) -> bool {
    text.len() >= prefix.len() && text.subrange(0, prefix.len() as int) == prefix
}

/// The trimmed event without a leading `data: `.
pub open spec fn event_data(event: Seq<char>) -> Seq<char> {
    let t = trim(event);
    if has_prefix(t, "data: "@) {
        t.subrange("data: "@.len() as int, t.len() as int)
    } else {
        t
    }
}

/// The JSON text of an event, if it has one: an event whose data is empty or
/// `[DONE]` has none.
pub open spec fn event_payload(event: Seq<char>) -> Option<Seq<char>> {
    let data = event_data(event);
    if data.len() == 0 || data == "[DONE]"@ {
        None
    } else {
        Some(data)
    }
}

/// The updates that a parsed payload calls for. One that could not be
/// parsed calls for none.
pub open spec fn parsed_updates(
    parsed: Result<JsonValue, Seq<char>>,
    llm_name: Seq<char>,
) -> Seq<MetricEventView> {
    match parsed {
        Ok(json) => token_events(json, llm_name),
        Err(_) => Seq::empty(),
    }
}

/// The updates that one event calls for.
pub open spec fn event_updates(event: Seq<char>, llm_name: Seq<char>) -> Seq<MetricEventView> {
    match event_payload(event) {
        Some(payload) => parsed_updates(json_of_text(payload), llm_name),
        None => Seq::empty(),
    }
}

/// The updates that a list of events calls for, in order.
pub open spec fn events_updates(events: Seq<Seq<char>>, llm_name: Seq<char>) -> Seq<
    MetricEventView,
>
    decreases events.len(),
{
    if events.len() == 0 {
        Seq::empty()
    } else {
        events_updates(events.drop_last(), llm_name) + event_updates(events.last(), llm_name)
    }
}

/// The updates that the text of a chunk calls for.
pub open spec fn chunk_updates(text: Seq<char>, llm_name: Seq<char>) -> Seq<MetricEventView> {
    events_updates(split_events(text), llm_name)
}

/// The pieces of `text` that a list of bounds cuts out.
pub open spec fn pieces(text: Seq<char>, bounds: Seq<(usize, usize)>) -> Seq<Seq<char>> {
    Seq::new(bounds.len(), |i: int| text.subrange(bounds[i].0 as int, bounds[i].1 as int))
}

proof fn lemma_find_separator_skip(text: Seq<char>, from: int)
    requires
        0 <= from,
        from + 1 < text.len(),
        !separator_at(text, from),
    ensures
        find_separator(text, from) == find_separator(text, from + 1),
{
}

proof fn lemma_find_separator_bounds(text: Seq<char>, from: int)
    requires
        0 <= from,
    ensures
        from <= find_separator(text, from) || find_separator(text, from) == text.len(),
        find_separator(text, from) < text.len() ==> separator_at(text, find_separator(text, from)),
    decreases text.len() - from,
{
    if from + 1 < text.len() && !separator_at(text, from) {
        lemma_find_separator_bounds(text, from + 1);
    }
}

/// The bounds of the events of a chunk.
pub(crate) fn split_bounds(chars: &Vec<char>) -> (r: Vec<(usize, usize)>)
    ensures
        pieces(chars@, r@) == split_events(chars@),
        forall|k: int| 0 <= k < r@.len() ==> (#[trigger] r@[k]).0 <= r@[k].1 <= chars@.len(),
{
    let n = chars.len();
    let mut bounds: Vec<(usize, usize)> = Vec::new();
    let mut start: usize = 0;
    let mut i: usize = 0;
    proof {
        assert(pieces(chars@, bounds@) =~= Seq::<Seq<char>>::empty());
    }
    while i < n && i + 1 < n
        invariant
            n == chars@.len(),
            start <= i <= n,
            find_separator(chars@, start as int) == find_separator(chars@, i as int),
            split_events(chars@) == pieces(chars@, bounds@) + split_from(chars@, start as int),
            forall|k: int|
                0 <= k < bounds@.len() ==> (#[trigger] bounds@[k]).0 <= bounds@[k].1 <= chars@.len(),
        decreases n - i,
    {
        if chars[i] == '\n' && chars[i + 1] == '\n' {
            proof {
                assert(separator_at(chars@, i as int));
                assert(find_separator(chars@, start as int) == i);
                assert(pieces(chars@, bounds@.push((start, i))) =~= pieces(chars@, bounds@) + seq![
                    chars@.subrange(start as int, i as int),
                ]);
            }
            bounds.push((start, i));
            start = i + 2;
            i = i + 2;
        } else {
            proof {
                lemma_find_separator_skip(chars@, i as int);
            }
            i = i + 1;
        }
    }
    proof {
        assert(find_separator(chars@, i as int) == n);
        assert(pieces(chars@, bounds@.push((start, n))) =~= pieces(chars@, bounds@) + seq![
            chars@.subrange(start as int, n as int),
        ]);
    }
    bounds.push((start, n));
    bounds
}

/// `chars[lo..hi]` begins with `prefix`.
fn range_has_prefix(chars: &Vec<char>, lo: usize, hi: usize, prefix: &Vec<char>) -> (r: bool)
    requires
        lo <= hi <= chars.len(),
    ensures
        r == has_prefix(chars@.subrange(lo as int, hi as int), prefix@),
{
    if hi - lo < prefix.len() {
        return false;
    }
    let ghost text = chars@.subrange(lo as int, hi as int);
    let mut k: usize = 0;
    while k < prefix.len()
        invariant
            k <= prefix.len(),
            lo <= hi <= chars.len(),
            hi - lo >= prefix.len(),
            text == chars@.subrange(lo as int, hi as int),
            forall|t: int| 0 <= t < k ==> #[trigger] text[t] == prefix@[t],
        decreases prefix.len() - k,
    {
        if chars[lo + k] != prefix[k] {
            assert(text.subrange(0, prefix@.len() as int)[k as int] != prefix@[k as int]);
            return false;
        }
        k = k + 1;
    }
    assert(text.subrange(0, prefix@.len() as int) =~= prefix@);
    true
}

/// `chars[lo..hi]` is `other`.
fn range_is(chars: &Vec<char>, lo: usize, hi: usize, other: &Vec<char>) -> (r: bool)
    requires
        lo <= hi <= chars.len(),
    ensures
        r == (chars@.subrange(lo as int, hi as int) == other@),
{
    if hi - lo != other.len() {
        assert(chars@.subrange(lo as int, hi as int).len() != other@.len());
        return false;
    }
    let r = range_has_prefix(chars, lo, hi, other);
    assert(chars@.subrange(lo as int, hi as int).subrange(0, other@.len() as int)
        =~= chars@.subrange(lo as int, hi as int));
    r
}

/// The JSON text of the event `chars[lo..hi]`, if it has one.
pub(crate) fn payload_of(chars: &Vec<char>, lo: usize, hi: usize) -> (r: Option<String>)
    requires
        lo <= hi <= chars.len(),
    ensures
        r is Some == event_payload(chars@.subrange(lo as int, hi as int)) is Some,
        r is Some ==> r->0@ == event_payload(chars@.subrange(lo as int, hi as int))->0,
{
    let (a, b) = trim_bounds(chars, lo, hi);
    let prefix = chars_of("data: ");
    let done = chars_of("[DONE]");
    let ghost t = chars@.subrange(a as int, b as int);
    let from: usize = if range_has_prefix(chars, a, b, &prefix) {
        a + prefix.len()
    } else {
        a
    };
    assert(chars@.subrange(from as int, b as int) =~= event_data(
        chars@.subrange(lo as int, hi as int),
    )) by {
        if has_prefix(t, "data: "@) {
            assert(t.subrange("data: "@.len() as int, t.len() as int) =~= chars@.subrange(
                from as int,
                b as int,
            ));
        }
    }
    if from == b || range_is(chars, from, b, &done) {
        None
    } else {
        Some(string_of(chars, from, b))
    }
}

/// The views of a list of strings.
pub open spec fn texts_view(texts: Seq<String>) -> Seq<Seq<char>> {
    texts.map_values(|t: String| t@)
}

/// The events of the text of a chunk: the pieces between pairs of line
/// feeds.
pub fn events_of(text: &str) -> (r: Vec<String>)
    ensures
        texts_view(r@) == split_events(text@),
{
    let chars = chars_of(text);
    let bounds = split_bounds(&chars);
    let mut out: Vec<String> = Vec::new();
    let mut i: usize = 0;
    while i < bounds.len()
        invariant
            i <= bounds.len(),
            chars@ == text@,
            pieces(chars@, bounds@) == split_events(chars@),
            forall|k: int|
                0 <= k < bounds@.len() ==> (#[trigger] bounds@[k]).0 <= bounds@[k].1 <= chars@.len(),
            out@.len() == i,
            forall|k: int| 0 <= k < i ==> (#[trigger] out@[k])@ == split_events(chars@)[k],
        decreases bounds.len() - i,
    {
        let (lo, hi) = bounds[i];
        assert(pieces(chars@, bounds@)[i as int] == chars@.subrange(lo as int, hi as int));
        out.push(string_of(&chars, lo, hi));
        i = i + 1;
    }
    assert(texts_view(out@) =~= split_events(text@));
    out
}

/// The JSON text of an event, if it has one.
pub fn payload_from(event: &str) -> (r: Option<String>)
    ensures
        r is Some == event_payload(event@) is Some,
        r is Some ==> r->0@ == event_payload(event@)->0,
{
    let chars = chars_of(event);
    assert(chars@.subrange(0, chars.len() as int) == chars@);
    payload_of(&chars, 0, chars.len())
}

/// The updates that a parsed payload calls for.
pub fn updates_for_parsed(parsed: &Result<Json, String>, llm_name: &str) -> (r: Vec<MetricEvent>)
    ensures
        events_view(r@) == parsed_updates(
            match parsed {
                Ok(j) => Ok(j@),
                Err(e) => Err(e@),
            },
            llm_name@,
        ),
{
    match parsed {
        Ok(json) => track_token_usage(json, llm_name),
        Err(_) => {
            let none: Vec<MetricEvent> = Vec::new();
            assert(events_view(none@) =~= Seq::<MetricEventView>::empty());
            none
        },
    }
}

/// The updates of `llm_token_usage{llm_name, ..}` that a chunk of a streamed
/// response calls for. Each event of the chunk that holds a JSON text with
/// an object `usage` gives three; an event that cannot be parsed gives none.
pub fn scan_chunk(chunk: &[u8], llm_name: &str) -> (r: Vec<MetricEvent>)
    ensures
        events_view(r@) == chunk_updates(text_of(chunk@), llm_name@),
{
    let text = utf8_lossy(chunk);
    let chars = chars_of(text.as_str());
    let bounds = split_bounds(&chars);
    let ghost events = split_events(chars@);
    let mut out: Vec<MetricEvent> = Vec::new();
    let mut i: usize = 0;
    proof {
        assert(events.take(0) =~= Seq::<Seq<char>>::empty());
        assert(events_view(out@) =~= Seq::<MetricEventView>::empty());
    }
    while i < bounds.len()
        invariant
            i <= bounds.len(),
            events == split_events(chars@),
            pieces(chars@, bounds@) == events,
            forall|k: int|
                0 <= k < bounds@.len() ==> (#[trigger] bounds@[k]).0 <= bounds@[k].1 <= chars@.len(),
            events_view(out@) == events_updates(events.take(i as int), llm_name@),
        decreases bounds.len() - i,
    {
        let (lo, hi) = bounds[i];
        let ghost event = events[i as int];
        assert(event == chars@.subrange(lo as int, hi as int));
        let mut updates: Vec<MetricEvent> = match payload_of(&chars, lo, hi) {
            Some(payload) => {
                let parsed = parse_json(payload.as_str());
                updates_for_parsed(&parsed, llm_name)
            },
            None => {
                let none: Vec<MetricEvent> = Vec::new();
                assert(events_view(none@) =~= Seq::<MetricEventView>::empty());
                none
            },
        };
        proof {
            assert(events_view(updates@) == event_updates(event, llm_name@));
            assert(events.take(i + 1).drop_last() =~= events.take(i as int));
            assert(events.take(i + 1).last() == event);
            assert(events_view(out@ + updates@) =~= events_view(out@) + events_view(updates@));
        }
        out.append(&mut updates);
        i = i + 1;
    }
    proof {
        assert(events.take(bounds.len() as int) =~= events);
    }
    out
}

} // verus!
