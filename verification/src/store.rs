//! What the relay keeps on disk: the keys of its records, how long metrics are
//! kept and in what order events are read.

use vstd::prelude::*;
use crate::ids::{id_text, law_id_texts_differ, lemma_uuid_text_len, uuid_text, NodeId};
use crate::metadata::{lemma_text_order_by_parts, lemma_text_order_total, text_before};
use crate::model::{ControlEvent, NodeMetric};
use crate::text::{
    digit_char, digits_value, has_prefix, joined, law_padded_stands_for_its_number,
    lemma_padded_len, padded, padded_text, strip_prefix,
};

verus! {

/// How long metrics are kept: three days, in milliseconds.
pub const METRIC_RETENTION_MS: i64 = 259_200_000;

/// The key of the tokens.
pub fn token_state_key() -> (r: &'static str)
    ensures
        r@ == "state"@,
{
    "state"
}

/// A number in 20 characters with leading zeros; the sign of a negative one is
/// the first of them.
pub open spec fn signed_text(n: int) -> Seq<char> {
    if n >= 0 {
        padded_text(n as nat, 20)
    } else {
        "-"@ + padded_text((-n) as nat, 19)
    }
}

fn signed(n: i64) -> (r: String)
    ensures
        r@ == signed_text(n as int),
{
    if n >= 0 {
        padded(n as u64, 20)
    } else {
        let size: u64 = (-(n as i128)) as u64;
        let digits = padded(size, 19);
        joined("-", digits.as_str())
    }
}

/// The key of a metric: its node, the time of recording and the number of the
/// heartbeat.
pub open spec fn metric_key_text(metric: NodeMetric) -> Seq<char> {
    uuid_text(metric.node_id.0) + ":"@ + signed_text(metric.recorded_at_unix_ms as int) + ":"@
        + padded_text(metric.snapshot.sequence as nat, 20)
}

/// The key of a metric.
pub fn metric_key(metric: &NodeMetric) -> (r: String)
    ensures
        r@ == metric_key_text(*metric),
{
    let mut out = id_text(metric.node_id.0);
    let time = signed(metric.recorded_at_unix_ms);
    let sequence = padded(metric.snapshot.sequence, 20);
    out.append(":");
    out.append(time.as_str());
    out.append(":");
    out.append(sequence.as_str());
    out
}

/// Whether a key is that of a metric of the node.
pub open spec fn belongs_to(key: Seq<char>, node_id: NodeId) -> bool {
    has_prefix(key, uuid_text(node_id.0) + ":"@)
}

/// Whether a key is that of a metric of the node.
pub fn is_metric_of(key: &str, node_id: NodeId) -> (r: bool)
    ensures
        r == belongs_to(key@, node_id),
{
    let mut prefix = id_text(node_id.0);
    prefix.append(":");
    strip_prefix(key, prefix.as_str()).is_some()
}

/// The key of an event: its time, which counts as zero before 1970, and its
/// identifier.
pub open spec fn event_key_text(event: ControlEvent) -> Seq<char> {
    let time = if event.occurred_at_unix_ms > 0 {
        event.occurred_at_unix_ms as nat
    } else {
        0
    };
    padded_text(time, 20) + ":"@ + uuid_text(event.event_id.0)
}

/// The key of an event.
pub fn event_key(event: &ControlEvent) -> (r: String)
    ensures
        r@ == event_key_text(*event),
{
    let time: u64 = if event.occurred_at_unix_ms > 0 {
        event.occurred_at_unix_ms as u64
    } else {
        0
    };
    let mut out = padded(time, 20);
    let id = id_text(event.event_id.0);
    out.append(":");
    out.append(id.as_str());
    out
}

/// The time before which metrics are dropped when one is recorded at `now`.
pub open spec fn cutoff(now: i64) -> i64 {
    if now - METRIC_RETENTION_MS < i64::MIN {
        i64::MIN
    } else {
        (now - METRIC_RETENTION_MS) as i64
    }
}

/// The time before which metrics are dropped.
pub fn retention_cutoff(now: i64) -> (r: i64)
    ensures
        r == cutoff(now),
{
    let at: i128 = now as i128 - METRIC_RETENTION_MS as i128;
    if at < i64::MIN as i128 {
        i64::MIN
    } else {
        at as i64
    }
}

/// A stored metric: its key, and what the stored bytes say, if they can be read.
#[derive(Debug)]
pub struct StoredMetric {
    pub key: String,
    pub metric: Option<NodeMetric>,
}

/// Whether a stored metric is dropped when one is recorded at `now`. One that
/// cannot be read is kept.
pub open spec fn is_expired(stored: StoredMetric, now: i64) -> bool {
    stored.metric matches Some(metric) && metric.recorded_at_unix_ms < cutoff(now)
}

/// The keys of the stored metrics that are dropped, in the order in which they
/// are stored.
pub open spec fn expired(stored: Seq<StoredMetric>, now: i64) -> Seq<Seq<char>>
    decreases stored.len(),
{
    if stored.len() == 0 {
        seq![]
    } else {
        let before = expired(stored.drop_last(), now);
        if is_expired(stored.last(), now) {
            before.push(stored.last().key@)
        } else {
            before
        }
    }
}

/// The keys of the stored metrics that are dropped when one is recorded at
/// `now`.
pub fn expired_keys(stored: &Vec<StoredMetric>, now: i64) -> (r: Vec<String>)
    ensures
        r@.map_values(|s: String| s@) == expired(stored@, now),
{
    let limit: i64 = retention_cutoff(now);
    let mut out: Vec<String> = Vec::new();
    assert(out@.map_values(|s: String| s@) =~= expired(stored@.take(0), now));
    let mut i: usize = 0;
    while i < stored.len()
        invariant
            i <= stored@.len(),
            limit == cutoff(now),
            out@.map_values(|s: String| s@) == expired(stored@.take(i as int), now),
        decreases stored@.len() - i,
    {
        let ghost before = out@;
        assert(stored@.take(i + 1).drop_last() =~= stored@.take(i as int));
        let dropped = match &stored[i].metric {
            Some(metric) => metric.recorded_at_unix_ms < limit,
            None => false,
        };
        if dropped {
            out.push(stored[i].key.clone());
            assert(out@.map_values(|s: String| s@) =~= before.map_values(|s: String| s@).push(
                stored@[i as int].key@,
            ));
        }
        i += 1;
    }
    assert(stored@.take(i as int) =~= stored@);
    out
}

/// The keys that are dropped are those of the readable metrics that were
/// recorded too long ago.
pub proof fn law_expired_keys(stored: Seq<StoredMetric>, now: i64, key: Seq<char>)
    ensures
        expired(stored, now).contains(key) <==> exists|i: int|
            0 <= i < stored.len() && is_expired(#[trigger] stored[i], now) && stored[i].key@ == key,
    decreases stored.len(),
{
    if stored.len() > 0 {
        let before = stored.drop_last();
        law_expired_keys(before, now, key);
        let all = expired(stored, now);
        let some = expired(before, now);
        if some.contains(key) {
            let i = choose|i: int|
                0 <= i < before.len() && is_expired(#[trigger] before[i], now) && before[i].key@
                    == key;
            assert(stored[i] == before[i]);
            let j = choose|j: int| 0 <= j < some.len() && some[j] == key;
            assert(all[j] == key);
        }
        if is_expired(stored.last(), now) {
            assert(all[some.len() as int] == stored.last().key@);
        }
        if exists|i: int|
            0 <= i < stored.len() && is_expired(#[trigger] stored[i], now) && stored[i].key@
                == key {
            let i = choose|i: int|
                0 <= i < stored.len() && is_expired(#[trigger] stored[i], now) && stored[i].key@
                    == key;
            if i < before.len() {
                assert(before[i] == stored[i]);
            }
        }
        if all.contains(key) && !some.contains(key) {
            let j = choose|j: int| 0 <= j < all.len() && all[j] == key;
            if j < some.len() {
                assert(some[j] == key);
            }
            assert(is_expired(stored[stored.len() - 1], now));
        }
    }
}

/// Metrics are kept for three days: when one is recorded, a stored metric that
/// can be read is dropped exactly if it was recorded more than three days
/// before, and one that cannot be read is kept.
pub proof fn law_metrics_are_kept_three_days(stored: Seq<StoredMetric>, now: i64, i: int)
    requires
        0 <= i < stored.len(),
        forall|a: int, b: int|
            0 <= a < b < stored.len() ==> #[trigger] stored[a].key@ != #[trigger] stored[b].key@,
    ensures
        expired(stored, now).contains(stored[i].key@) <==> stored[i].metric is Some
            && stored[i].metric->0.recorded_at_unix_ms < now - METRIC_RETENTION_MS,
{
    law_expired_keys(stored, now, stored[i].key@);
    if exists|j: int|
        0 <= j < stored.len() && is_expired(#[trigger] stored[j], now) && stored[j].key@
            == stored[i].key@ {
        let j = choose|j: int|
            0 <= j < stored.len() && is_expired(#[trigger] stored[j], now) && stored[j].key@
                == stored[i].key@;
        assert(j == i);
    }
}

/// What `n` decimal digits can tell apart.
pub open spec fn ten_to(n: nat) -> nat
    decreases n,
{
    if n == 0 {
        1
    } else {
        10 * ten_to((n - 1) as nat)
    }
}

/// Zero-padded numbers of one width are ordered as texts as they are as numbers.
proof fn lemma_padded_order(a: nat, b: nat, width: nat)
    requires
        a < ten_to(width),
        b < ten_to(width),
    ensures
        text_before(padded_text(a, width), padded_text(b, width)) <==> a < b,
        padded_text(a, width) == padded_text(b, width) <==> a == b,
    decreases width,
{
    if width > 0 {
        let w = (width - 1) as nat;
        lemma_padded_order(a / 10, b / 10, w);
        lemma_padded_len(a / 10, w);
        lemma_padded_len(b / 10, w);
        let (p, q) = (padded_text(a / 10, w), padded_text(b / 10, w));
        let (c, d) = (digit_char((a % 10) as int), digit_char((b % 10) as int));
        assert(padded_text(a, width) =~= p + seq![c]);
        assert(padded_text(b, width) =~= q + seq![d]);
        lemma_text_order_by_parts(p, q, seq![c], seq![d]);
        reveal_with_fuel(text_before, 2);
        assert(text_before(seq![c], seq![d]) <==> a % 10 < b % 10);
        assert(padded_text(a, width).drop_last() =~= p);
        assert(padded_text(b, width).drop_last() =~= q);
        assert(padded_text(a, width).last() == c);
        assert(padded_text(b, width).last() == d);
    }
}

/// A zero-padded number begins with a digit.
proof fn lemma_padded_digit(n: nat, width: nat)
    requires
        width > 0,
    ensures
        padded_text(n, width).len() == width,
        padded_text(n, width)[0] != '-',
    decreases width,
{
    lemma_padded_len(n, width);
    if width > 1 {
        lemma_padded_digit(n / 10, (width - 1) as nat);
        lemma_padded_len(n / 10, (width - 1) as nat);
    }
}

proof fn lemma_signed_once(a: i64, b: i64)
    ensures
        signed_text(a as int).len() == 20,
        signed_text(a as int) == signed_text(b as int) ==> a == b,
{
    reveal_with_fuel(ten_to, 21);
    reveal_strlit("-");
    let (s, t) = (signed_text(a as int), signed_text(b as int));
    if a >= 0 {
        lemma_padded_digit(a as nat, 20);
    } else {
        lemma_padded_len((-a) as nat, 19);
    }
    if b >= 0 {
        lemma_padded_digit(b as nat, 20);
    } else {
        lemma_padded_len((-b) as nat, 19);
    }
    if s == t {
        if a >= 0 && b >= 0 {
            lemma_padded_order(a as nat, b as nat, 20);
        } else if a < 0 && b < 0 {
            assert(s.skip(1) =~= padded_text((-a) as nat, 19));
            assert(t.skip(1) =~= padded_text((-b) as nat, 19));
            lemma_padded_order((-a) as nat, (-b) as nat, 19);
        } else {
            assert(s[0] == t[0]);
        }
    }
}

/// Metrics of different nodes, times or heartbeats have different keys, so that
/// none overwrites another.
pub proof fn law_metric_keys_differ(a: NodeMetric, b: NodeMetric)
    requires
        metric_key_text(a) == metric_key_text(b),
    ensures
        a.node_id == b.node_id,
        a.recorded_at_unix_ms == b.recorded_at_unix_ms,
        a.snapshot.sequence == b.snapshot.sequence,
{
    reveal_strlit(":");
    reveal_with_fuel(ten_to, 21);
    lemma_uuid_text_len(a.node_id.0);
    lemma_uuid_text_len(b.node_id.0);
    lemma_signed_once(a.recorded_at_unix_ms, b.recorded_at_unix_ms);
    lemma_signed_once(b.recorded_at_unix_ms, a.recorded_at_unix_ms);
    let (s, t) = (metric_key_text(a), metric_key_text(b));
    lemma_padded_len(a.snapshot.sequence as nat, 20);
    lemma_padded_len(b.snapshot.sequence as nat, 20);
    assert(s.subrange(0, 36) =~= uuid_text(a.node_id.0));
    assert(t.subrange(0, 36) =~= uuid_text(b.node_id.0));
    assert(s.subrange(37, 57) =~= signed_text(a.recorded_at_unix_ms as int));
    assert(t.subrange(37, 57) =~= signed_text(b.recorded_at_unix_ms as int));
    assert(s.subrange(58, 78) =~= padded_text(a.snapshot.sequence as nat, 20));
    assert(t.subrange(58, 78) =~= padded_text(b.snapshot.sequence as nat, 20));
    law_id_texts_differ(a.node_id.0, b.node_id.0);
    lemma_padded_order(a.snapshot.sequence as nat, b.snapshot.sequence as nat, 20);
}

/// A metric is listed for its own node and for no other.
pub proof fn law_metric_is_listed_for_its_node(metric: NodeMetric, node_id: NodeId)
    ensures
        belongs_to(metric_key_text(metric), node_id) <==> metric.node_id == node_id,
{
    reveal_strlit(":");
    let key = metric_key_text(metric);
    let prefix = uuid_text(node_id.0) + ":"@;
    lemma_uuid_text_len(metric.node_id.0);
    lemma_uuid_text_len(node_id.0);
    assert(key.take(37) =~= uuid_text(metric.node_id.0) + ":"@);
    assert(key.take(37).take(36) =~= uuid_text(metric.node_id.0));
    assert(prefix.take(36) =~= uuid_text(node_id.0));
    if belongs_to(key, node_id) {
        law_id_texts_differ(metric.node_id.0, node_id.0);
    }
}

/// The keys of the metrics of one node are in the order of their times, and for
/// one time in the order of their heartbeats, from 1970 on.
pub proof fn law_metric_keys_follow_time(a: NodeMetric, b: NodeMetric)
    requires
        a.node_id == b.node_id,
        a.recorded_at_unix_ms >= 0,
        b.recorded_at_unix_ms >= 0,
    ensures
        text_before(metric_key_text(a), metric_key_text(b)) <==> {
            ||| a.recorded_at_unix_ms < b.recorded_at_unix_ms
            ||| a.recorded_at_unix_ms == b.recorded_at_unix_ms && a.snapshot.sequence
                < b.snapshot.sequence
        },
{
    reveal_strlit(":");
    reveal_with_fuel(ten_to, 21);
    let (ta, tb) = (a.recorded_at_unix_ms as nat, b.recorded_at_unix_ms as nat);
    let (na, nb) = (a.snapshot.sequence as nat, b.snapshot.sequence as nat);
    let head = uuid_text(a.node_id.0) + ":"@;
    let (sa, sb) = (padded_text(ta, 20), padded_text(tb, 20));
    let (qa, qb) = (padded_text(na, 20), padded_text(nb, 20));
    lemma_padded_len(ta, 20);
    lemma_padded_len(tb, 20);
    lemma_padded_order(ta, tb, 20);
    lemma_padded_order(na, nb, 20);
    assert(metric_key_text(a) =~= head + (sa + (":"@ + qa)));
    assert(metric_key_text(b) =~= head + (sb + (":"@ + qb)));
    lemma_text_order_by_parts(head, head, sa + (":"@ + qa), sb + (":"@ + qb));
    lemma_text_order_by_parts(sa, sb, ":"@ + qa, ":"@ + qb);
    lemma_text_order_by_parts(":"@, ":"@, qa, qb);
    lemma_text_order_total(head, head);
    lemma_text_order_total(":"@, ":"@);
}

/// Different events have different keys.
pub proof fn law_event_keys_differ(a: ControlEvent, b: ControlEvent)
    requires
        event_key_text(a) == event_key_text(b),
    ensures
        a.event_id == b.event_id,
{
    reveal_strlit(":");
    let (s, t) = (event_key_text(a), event_key_text(b));
    lemma_uuid_text_len(a.event_id.0);
    lemma_uuid_text_len(b.event_id.0);
    let ta = if a.occurred_at_unix_ms > 0 {
        a.occurred_at_unix_ms as nat
    } else {
        0
    };
    let tb = if b.occurred_at_unix_ms > 0 {
        b.occurred_at_unix_ms as nat
    } else {
        0
    };
    lemma_padded_len(ta, 20);
    lemma_padded_len(tb, 20);
    assert(s.subrange(21, 57) =~= uuid_text(a.event_id.0));
    assert(t.subrange(21, 57) =~= uuid_text(b.event_id.0));
    law_id_texts_differ(a.event_id.0, b.event_id.0);
}

/// Where an event goes in a list that has the newest events first: behind all
/// that are not older.
pub open spec fn with_event(listed: Seq<ControlEvent>, event: ControlEvent) -> Seq<ControlEvent>
    decreases listed.len(),
{
    if listed.len() > 0 && listed.last().occurred_at_unix_ms < event.occurred_at_unix_ms {
        with_event(listed.drop_last(), event).push(listed.last())
    } else {
        listed.push(event)
    }
}

/// Events with the newest first; those of one time stay in their order.
pub open spec fn newest_first(events: Seq<ControlEvent>) -> Seq<ControlEvent>
    decreases events.len(),
{
    if events.len() == 0 {
        seq![]
    } else {
        with_event(newest_first(events.drop_last()), events.last())
    }
}

/// Puts an event in its place.
fn place_event(listed: &mut Vec<ControlEvent>, event: ControlEvent)
    ensures
        final(listed)@ == with_event(old(listed)@, event),
{
    let ghost start = listed@;
    let mut at: usize = listed.len();
    assert(start.take(at as int) =~= start);
    assert(start.skip(at as int) =~= seq![]);
    assert(with_event(start, event) =~= with_event(start.take(at as int), event) + start.skip(
        at as int,
    ));
    while at > 0 && listed[at - 1].occurred_at_unix_ms < event.occurred_at_unix_ms
        invariant
            start == old(listed)@,
            listed@ == start,
            at <= listed@.len(),
            with_event(start, event) == with_event(start.take(at as int), event) + start.skip(
                at as int,
            ),
        decreases at,
    {
        proof {
            let shorter = start.take(at as int);
            assert(shorter.drop_last() =~= start.take(at - 1));
            assert(start.skip(at - 1) =~= seq![start[at - 1]] + start.skip(at as int));
            assert(with_event(shorter, event) + start.skip(at as int) =~= with_event(
                start.take(at - 1),
                event,
            ) + start.skip(at - 1));
        }
        at -= 1;
    }
    assert(start.take(at as int).push(event) + start.skip(at as int) =~= start.insert(
        at as int,
        event,
    ));
    listed.insert(at, event);
}

/// The newest events, at most `limit` of them, with the newest first; those of
/// one time stay in the order in which they are stored.
pub fn recent_events(events: &Vec<ControlEvent>, limit: usize) -> (r: Vec<ControlEvent>)
    ensures
        r@ == (if limit < events@.len() {
            newest_first(events@).take(limit as int)
        } else {
            newest_first(events@)
        }),
{
    let mut out: Vec<ControlEvent> = Vec::new();
    assert(out@ =~= newest_first(events@.take(0)));
    let mut i: usize = 0;
    while i < events.len()
        invariant
            i <= events@.len(),
            out@ == newest_first(events@.take(i as int)),
        decreases events@.len() - i,
    {
        assert(events@.take(i + 1).drop_last() =~= events@.take(i as int));
        place_event(&mut out, events[i]);
        i += 1;
    }
    assert(events@.take(i as int) =~= events@);
    proof {
        law_newest_first(events@);
        newest_first(events@).to_multiset_ensures();
        events@.to_multiset_ensures();
    }
    out.truncate(limit);
    out
}

/// Whether no event stands behind an older one.
pub open spec fn is_newest_first(listed: Seq<ControlEvent>) -> bool {
    forall|i: int, j: int|
        0 <= i < j < listed.len() ==> #[trigger] listed[i].occurred_at_unix_ms
            >= #[trigger] listed[j].occurred_at_unix_ms
}

/// Putting an event in its place keeps the list in order, and keeps the events
/// of each time in their order.
proof fn lemma_with_event(listed: Seq<ControlEvent>, event: ControlEvent)
    requires
        is_newest_first(listed),
    ensures
        is_newest_first(with_event(listed, event)),
        with_event(listed, event).to_multiset() == listed.to_multiset().insert(event),
        with_event(listed, event).len() == listed.len() + 1,
        forall|i: int|
            0 <= i <= listed.len() ==> {
                ||| #[trigger] with_event(listed, event)[i] == event
                ||| listed.contains(with_event(listed, event)[i])
            },
    decreases listed.len(),
{
    broadcast use vstd::seq_lib::group_to_multiset_ensures;

    let after = with_event(listed, event);
    if listed.len() > 0 && listed.last().occurred_at_unix_ms < event.occurred_at_unix_ms {
        let front = listed.drop_last();
        lemma_with_event(front, event);
        let placed = with_event(front, event);
        assert(after == placed.push(listed.last()));
        assert(listed =~= front.push(listed.last()));
        assert(after.to_multiset() =~= listed.to_multiset().insert(event));
        assert forall|i: int| 0 <= i <= listed.len() implies {
            ||| #[trigger] after[i] == event
            ||| listed.contains(after[i])
        } by {
            if i < placed.len() {
                assert(after[i] == placed[i]);
                if placed[i] != event {
                    let j = choose|j: int| 0 <= j < front.len() && front[j] == placed[i];
                    assert(listed[j] == after[i]);
                }
            } else {
                assert(listed[listed.len() - 1] == after[i]);
            }
        }
        assert forall|i: int, j: int| 0 <= i < j < after.len() implies #[trigger]
        after[i].occurred_at_unix_ms >= #[trigger] after[j].occurred_at_unix_ms by {
            if j == placed.len() {
                assert(after[i] == placed[i]);
                if placed[i] != event {
                    let k = choose|k: int| 0 <= k < front.len() && front[k] == placed[i];
                    assert(listed[k].occurred_at_unix_ms >= listed[listed.len()
                        - 1].occurred_at_unix_ms);
                }
            } else {
                assert(placed[i].occurred_at_unix_ms >= placed[j].occurred_at_unix_ms);
            }
        }
    } else {
        assert(after.to_multiset() =~= listed.to_multiset().insert(event));
        assert forall|i: int| 0 <= i <= listed.len() implies {
            ||| #[trigger] after[i] == event
            ||| listed.contains(after[i])
        } by {
            if i < listed.len() {
                assert(listed[i] == after[i]);
            }
        }
        assert forall|i: int, j: int| 0 <= i < j < after.len() implies #[trigger]
        after[i].occurred_at_unix_ms >= #[trigger] after[j].occurred_at_unix_ms by {
            if j == listed.len() {
                if i < listed.len() - 1 {
                    assert(listed[i].occurred_at_unix_ms >= listed[listed.len()
                        - 1].occurred_at_unix_ms);
                }
            } else {
                assert(listed[i].occurred_at_unix_ms >= listed[j].occurred_at_unix_ms);
            }
        }
    }
}

/// The newest events come first, and none is lost or made up.
pub proof fn law_newest_first(events: Seq<ControlEvent>)
    ensures
        is_newest_first(newest_first(events)),
        newest_first(events).to_multiset() == events.to_multiset(),
        newest_first(events).len() == events.len(),
    decreases events.len(),
{
    broadcast use vstd::seq_lib::group_to_multiset_ensures;

    if events.len() > 0 {
        let before = events.drop_last();
        law_newest_first(before);
        lemma_with_event(newest_first(before), events.last());
        assert(events =~= before.push(events.last()));
        assert(newest_first(events).to_multiset() =~= events.to_multiset());
    } else {
        assert(newest_first(events) =~= events);
    }
}

/// The events of one time, in their order.
pub open spec fn at_time(events: Seq<ControlEvent>, time: i64) -> Seq<ControlEvent>
    decreases events.len(),
{
    if events.len() == 0 {
        seq![]
    } else if events.last().occurred_at_unix_ms == time {
        at_time(events.drop_last(), time).push(events.last())
    } else {
        at_time(events.drop_last(), time)
    }
}

proof fn lemma_with_event_at_time(listed: Seq<ControlEvent>, event: ControlEvent, time: i64)
    ensures
        at_time(with_event(listed, event), time) == (if event.occurred_at_unix_ms == time {
            at_time(listed, time).push(event)
        } else {
            at_time(listed, time)
        }),
    decreases listed.len(),
{
    if listed.len() > 0 && listed.last().occurred_at_unix_ms < event.occurred_at_unix_ms {
        let placed = with_event(listed.drop_last(), event);
        lemma_with_event_at_time(listed.drop_last(), event, time);
        assert(placed.push(listed.last()).drop_last() =~= placed);
    } else {
        assert(listed.push(event).drop_last() =~= listed);
    }
}

/// Events of one time are read in the order in which they are stored.
pub proof fn law_same_time_keeps_order(events: Seq<ControlEvent>, time: i64)
    ensures
        at_time(newest_first(events), time) == at_time(events, time),
    decreases events.len(),
{
    if events.len() > 0 {
        law_same_time_keeps_order(events.drop_last(), time);
        lemma_with_event_at_time(newest_first(events.drop_last()), events.last(), time);
    }
}

/// Metrics are kept for three days.
pub proof fn law_retention_is_three_days(now: i64)
    ensures
        now - 3 * 24 * 60 * 60 * 1000 >= i64::MIN ==> cutoff(now) == now - 3 * 24 * 60 * 60 * 1000,
        now - 3 * 24 * 60 * 60 * 1000 < i64::MIN ==> cutoff(now) == i64::MIN,
{
}

/// The key of a metric tells its node, when it was recorded, from 1970 on, and
/// the number of its heartbeat.
pub proof fn law_metric_key_tells_the_metric(metric: NodeMetric)
    requires
        metric.recorded_at_unix_ms >= 0,
    ensures
        ({
            let key = metric_key_text(metric);
            &&& key.len() == 78
            &&& key.take(36) == uuid_text(metric.node_id.0)
            &&& key[36] == ':' && key[57] == ':'
            &&& digits_value(key.subrange(37, 57)) == metric.recorded_at_unix_ms
            &&& digits_value(key.subrange(58, 78)) == metric.snapshot.sequence
        }),
{
    reveal_strlit(":");
    lemma_uuid_text_len(metric.node_id.0);
    let time = metric.recorded_at_unix_ms as u64;
    law_padded_stands_for_its_number(time);
    law_padded_stands_for_its_number(metric.snapshot.sequence);
    let key = metric_key_text(metric);
    assert(key.take(36) =~= uuid_text(metric.node_id.0));
    assert(key.subrange(37, 57) =~= padded_text(time as nat, 20));
    assert(key.subrange(58, 78) =~= padded_text(metric.snapshot.sequence as nat, 20));
}

/// The key of an event tells when it happened, from 1970 on, and which event it
/// is.
pub proof fn law_event_key_tells_the_event(event: ControlEvent)
    ensures
        ({
            let key = event_key_text(event);
            &&& key.len() == 57
            &&& key[20] == ':'
            &&& key.skip(21) == uuid_text(event.event_id.0)
            &&& event.occurred_at_unix_ms >= 0 ==> digits_value(key.take(20))
                == event.occurred_at_unix_ms
            &&& event.occurred_at_unix_ms < 0 ==> digits_value(key.take(20)) == 0
        }),
{
    reveal_strlit(":");
    lemma_uuid_text_len(event.event_id.0);
    let time: u64 = if event.occurred_at_unix_ms > 0 {
        event.occurred_at_unix_ms as u64
    } else {
        0
    };
    law_padded_stands_for_its_number(time);
    let key = event_key_text(event);
    assert(key.take(20) =~= padded_text(time as nat, 20));
    assert(key.skip(21) =~= uuid_text(event.event_id.0));
}

/// Of the newest events none that is left out is newer than one that is kept.
pub proof fn law_the_newest_are_kept(events: Seq<ControlEvent>, limit: int, i: int, j: int)
    requires
        0 <= i < limit <= j < events.len(),
    ensures
        newest_first(events).len() == events.len(),
        newest_first(events)[i].occurred_at_unix_ms >= newest_first(events)[j].occurred_at_unix_ms,
{
    law_newest_first(events);
}

} // verus!
