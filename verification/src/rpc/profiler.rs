//! Measurements as JSON.

use vstd::prelude::*;

use crate::json::{
    json_array, json_null, json_object, json_string, json_tree, json_trees, json_u64, map_insert,
    map_new, no_members, JsonTree,
};
use crate::keyed::{
    comes_before, lemma_text_before_is_strict, lemma_text_before_is_total,
    lemma_text_before_is_transitive, text_before,
};
use crate::text::same_text;

verus! {

/// How far back a summary looks, in seconds.
pub const WINDOW_SECONDS: u64 = 60;

/// The shortest series, in seconds.
pub const MIN_SERIES_SECONDS: u64 = 1;

/// The longest series, in seconds.
pub const MAX_SERIES_SECONDS: u64 = 3600;

/// What is measured.
#[derive(Debug, Clone, Copy, PartialEq, Eq, Structural)]
pub enum Subject {
    Plugin,
    Driver,
}

impl Subject {
    pub open spec fn name(self) -> Seq<char> {
        match self {
            Subject::Plugin => "plugin"@,
            Subject::Driver => "driver"@,
        }
    }

    /// The name of the subject in responses.
    pub fn as_str(&self) -> (r: &'static str)
        ensures
            r@ == self.name(),
    {
        match self {
            Subject::Plugin => "plugin",
            Subject::Driver => "driver",
        }
    }
}

/// What was measured of a subject within a second. Readings are there only if
/// something was read.
#[derive(Debug, Clone, Copy, PartialEq, Eq)]
pub struct SecondBucket {
    pub calls: u64,
    pub errors: u64,
    pub sum_us: u64,
    pub max_us: u64,
    pub queue_len: Option<u64>,
    pub memory_bytes: Option<u64>,
    pub dropped_events: Option<u64>,
    pub dropped_bus: Option<u64>,
}

/// What was measured within one second.
#[derive(Debug, Clone, Copy)]
pub struct TimedBucket {
    pub second: u64,
    pub bucket: SecondBucket,
}

/// What was measured of one subject.
#[derive(Debug)]
pub struct Series {
    pub subject: Subject,
    pub id: String,
    pub buckets: Vec<TimedBucket>,
}

/// All measurements that are kept, and how many got lost.
#[derive(Debug)]
pub struct Ring {
    pub series: Vec<Series>,
    pub lost: u64,
}

/// What was measured within a second, if anything was: the last entry for it.
pub open spec fn bucket_at(buckets: Seq<TimedBucket>, second: int) -> Option<SecondBucket>
    decreases buckets.len(),
{
    if buckets.len() == 0 {
        None
    } else if buckets.last().second == second {
        Some(buckets.last().bucket)
    } else {
        bucket_at(buckets.drop_last(), second)
    }
}

/// What was measured within each second from one up to, and without, another.
pub open spec fn window_of(buckets: Seq<TimedBucket>, from: u64, to: u64) -> Seq<Option<SecondBucket>> {
    Seq::new(
        if from <= to {
            (to - from) as nat
        } else {
            0
        },
        |i: int| bucket_at(buckets, from + i),
    )
}

impl Series {
    fn at(&self, second: u64) -> (r: Option<SecondBucket>)
        ensures
            r == bucket_at(self.buckets@, second as int),
    {
        let mut i: usize = self.buckets.len();
        assert(self.buckets@.take(i as int) =~= self.buckets@);
        while i > 0
            invariant
                i <= self.buckets.len(),
                bucket_at(self.buckets@, second as int) == bucket_at(
                    self.buckets@.take(i as int),
                    second as int,
                ),
            decreases i,
        {
            assert(self.buckets@.take(i as int).drop_last() =~= self.buckets@.take(i - 1));
            if self.buckets[i - 1].second == second {
                return Some(self.buckets[i - 1].bucket);
            }
            i = i - 1;
        }
        None
    }

    /// What was measured within each second from one up to, and without, another.
    pub fn window(&self, from: u64, to: u64) -> (r: Vec<Option<SecondBucket>>)
        ensures
            r@ == window_of(self.buckets@, from, to),
    {
        let mut window: Vec<Option<SecondBucket>> = Vec::new();
        let mut second: u64 = from;
        while second < to
            invariant
                from <= second,
                second <= to || from > to && second == from,
                window.len() == second - from,
                forall|j: int|
                    0 <= j < window.len() ==> #[trigger] window@[j] == bucket_at(
                        self.buckets@,
                        from + j,
                    ),
            decreases to - second,
        {
            window.push(self.at(second));
            second = second + 1;
        }
        assert(window@ =~= window_of(self.buckets@, from, to));
        window
    }
}

impl Ring {
    /// Nothing measured.
    pub fn new() -> (r: Ring)
        ensures
            r.series.len() == 0,
            r.lost == 0,
    {
        Ring { series: Vec::new(), lost: 0 }
    }

    /// What was measured of a subject within each second from one up to, and
    /// without, another: nothing if it is not known.
    pub open spec fn window_for(self, subject: Subject, id: Seq<char>, from: u64, to: u64) -> Seq<
        Option<SecondBucket>,
    > {
        window_of(measured(self.series@, subject, id), from, to)
    }

    /// Whether a summary can hold the sums over its window.
    pub open spec fn summable(self, now_sec: u64) -> bool {
        forall|i: int| #![trigger self.series@[i]]
            0 <= i < self.series.len() ==> sums_fit(
                self.window_for(
                    self.series@[i].subject,
                    self.series@[i].id@,
                    back_by(now_sec, WINDOW_SECONDS),
                    now_sec,
                ),
            )
    }

    /// Whether a summary can hold the sums over its window.
    pub fn can_sum(&self, now_sec: u64) -> (r: bool)
        ensures
            r == self.summable(now_sec),
    {
        let from = if now_sec < WINDOW_SECONDS {
            0
        } else {
            now_sec - WINDOW_SECONDS
        };
        let mut i: usize = 0;
        while i < self.series.len()
            invariant
                i <= self.series.len(),
                from == back_by(now_sec, WINDOW_SECONDS),
                forall|j: int| #![trigger self.series@[j]]
                    0 <= j < i ==> sums_fit(
                        self.window_for(
                            self.series@[j].subject,
                            self.series@[j].id@,
                            from,
                            now_sec,
                        ),
                    ),
            decreases self.series.len() - i,
        {
            let series = &self.series[i];
            let window = self.window(series.subject, series.id.as_str(), from, now_sec);
            if !window_fits(&window) {
                assert(!sums_fit(
                    self.window_for(
                        self.series@[i as int].subject,
                        self.series@[i as int].id@,
                        from,
                        now_sec,
                    ),
                ));
                return false;
            }
            i = i + 1;
        }
        true
    }

    /// The measurements of a subject within a time.
    pub fn window(&self, subject: Subject, id: &str, from: u64, to: u64) -> (r: Vec<
        Option<SecondBucket>,
    >)
        ensures
            r@ == self.window_for(subject, id@, from, to),
    {
        let mut i: usize = 0;
        assert(self.series@.skip(0) =~= self.series@);
        while i < self.series.len()
            invariant
                i <= self.series.len(),
                measured(self.series@, subject, id@) == measured(
                    self.series@.skip(i as int),
                    subject,
                    id@,
                ),
            decreases self.series.len() - i,
        {
            assert(self.series@.skip(i as int).drop_first() =~= self.series@.skip(i + 1));
            if self.series[i].subject == subject && same_text(self.series[i].id.as_str(), id) {
                return self.series[i].window(from, to);
            }
            i = i + 1;
        }
        let none = Series { subject, id: id.to_owned(), buckets: Vec::new() };
        assert(none.buckets@ =~= seq![]);
        none.window(from, to)
    }
}

/// What was measured of a subject: the first series under its name.
pub open spec fn measured(series: Seq<Series>, subject: Subject, id: Seq<char>) -> Seq<TimedBucket>
    decreases series.len(),
{
    if series.len() == 0 {
        seq![]
    } else if series[0].subject == subject && series[0].id@ == id {
        series[0].buckets@
    } else {
        measured(series.drop_first(), subject, id)
    }
}

/// What the measurements of a window come to. Calls add up; of readings the last
/// counts.
pub struct WindowFoldView {
    pub calls: nat,
    pub errors: nat,
    pub sum_us: nat,
    pub max_us: nat,
    pub queue_len: nat,
    pub memory_bytes: nat,
    pub dropped_events: nat,
    pub dropped_bus: nat,
}

/// The last of two readings, of which the later may be absent.
pub open spec fn latest(earlier: nat, later: Option<u64>) -> nat {
    match later {
        Some(reading) => reading as nat,
        None => earlier,
    }
}

/// What the measurements of a window come to.
pub open spec fn folded(window: Seq<Option<SecondBucket>>) -> WindowFoldView
    decreases window.len(),
{
    if window.len() == 0 {
        WindowFoldView {
            calls: 0,
            errors: 0,
            sum_us: 0,
            max_us: 0,
            queue_len: 0,
            memory_bytes: 0,
            dropped_events: 0,
            dropped_bus: 0,
        }
    } else {
        let before = folded(window.drop_last());
        match window.last() {
            Some(b) => WindowFoldView {
                calls: before.calls + b.calls as nat,
                errors: before.errors + b.errors as nat,
                sum_us: before.sum_us + b.sum_us as nat,
                max_us: if before.max_us >= b.max_us {
                    before.max_us
                } else {
                    b.max_us as nat
                },
                queue_len: latest(before.queue_len, b.queue_len),
                memory_bytes: latest(before.memory_bytes, b.memory_bytes),
                dropped_events: latest(before.dropped_events, b.dropped_events),
                dropped_bus: latest(before.dropped_bus, b.dropped_bus),
            },
            None => before,
        }
    }
}

/// Whether the sums over a window can be held.
pub open spec fn sums_fit(window: Seq<Option<SecondBucket>>) -> bool {
    let sums = folded(window);
    sums.calls <= u64::MAX && sums.errors <= u64::MAX && sums.sum_us <= u64::MAX
}

/// What the measurements of a window come to.
#[derive(Debug)]
pub struct WindowFold {
    pub calls: u64,
    pub errors: u64,
    pub sum_us: u64,
    pub max_us: u64,
    pub queue_len: u64,
    pub memory_bytes: u64,
    pub dropped_events: u64,
    pub dropped_bus: u64,
}

impl View for WindowFold {
    type V = WindowFoldView;

    open spec fn view(&self) -> WindowFoldView {
        WindowFoldView {
            calls: self.calls as nat,
            errors: self.errors as nat,
            sum_us: self.sum_us as nat,
            max_us: self.max_us as nat,
            queue_len: self.queue_len as nat,
            memory_bytes: self.memory_bytes as nat,
            dropped_events: self.dropped_events as nat,
            dropped_bus: self.dropped_bus as nat,
        }
    }
}

fn later_reading(earlier: u64, later: Option<u64>) -> (r: u64)
    ensures
        r == latest(earlier as nat, later),
{
    match later {
        Some(reading) => reading,
        None => earlier,
    }
}

proof fn lemma_sums_grow(window: Seq<Option<SecondBucket>>, i: int)
    requires
        0 <= i <= window.len(),
    ensures
        folded(window.take(i)).calls <= folded(window).calls,
        folded(window.take(i)).errors <= folded(window).errors,
        folded(window.take(i)).sum_us <= folded(window).sum_us,
    decreases window.len() - i,
{
    if i < window.len() {
        lemma_sums_grow(window, i + 1);
        assert(window.take(i + 1).drop_last() =~= window.take(i));
    } else {
        assert(window.take(i) =~= window);
    }
}

/// What the measurements of a window come to.
pub fn fold_window(window: &Vec<Option<SecondBucket>>) -> (r: WindowFold)
    requires
        sums_fit(window@),
    ensures
        r@ == folded(window@),
{
    let mut fold = WindowFold {
        calls: 0,
        errors: 0,
        sum_us: 0,
        max_us: 0,
        queue_len: 0,
        memory_bytes: 0,
        dropped_events: 0,
        dropped_bus: 0,
    };
    let mut i: usize = 0;
    while i < window.len()
        invariant
            i <= window.len(),
            sums_fit(window@),
            fold@ == folded(window@.take(i as int)),
        decreases window.len() - i,
    {
        proof {
            assert(window@.take(i + 1).drop_last() =~= window@.take(i as int));
            lemma_sums_grow(window@, i + 1);
        }
        match window[i] {
            Some(b) => {
                fold = WindowFold {
                    calls: fold.calls + b.calls,
                    errors: fold.errors + b.errors,
                    sum_us: fold.sum_us + b.sum_us,
                    max_us: if fold.max_us >= b.max_us {
                        fold.max_us
                    } else {
                        b.max_us
                    },
                    queue_len: later_reading(fold.queue_len, b.queue_len),
                    memory_bytes: later_reading(fold.memory_bytes, b.memory_bytes),
                    dropped_events: later_reading(fold.dropped_events, b.dropped_events),
                    dropped_bus: later_reading(fold.dropped_bus, b.dropped_bus),
                };
            },
            None => {},
        }
        i = i + 1;
    }
    assert(window@.take(window.len() as int) =~= window@);
    fold
}

/// Whether the sums over a window can be held.
fn window_fits(window: &Vec<Option<SecondBucket>>) -> (r: bool)
    ensures
        r == sums_fit(window@),
{
    let mut calls: u64 = 0;
    let mut errors: u64 = 0;
    let mut sum_us: u64 = 0;
    let mut i: usize = 0;
    while i < window.len()
        invariant
            i <= window.len(),
            calls == folded(window@.take(i as int)).calls,
            errors == folded(window@.take(i as int)).errors,
            sum_us == folded(window@.take(i as int)).sum_us,
        decreases window.len() - i,
    {
        proof {
            assert(window@.take(i + 1).drop_last() =~= window@.take(i as int));
            lemma_sums_grow(window@, i + 1);
        }
        match window[i] {
            Some(b) => match (
                calls.checked_add(b.calls),
                errors.checked_add(b.errors),
                sum_us.checked_add(b.sum_us),
            ) {
                (Some(more_calls), Some(more_errors), Some(more_us)) => {
                    calls = more_calls;
                    errors = more_errors;
                    sum_us = more_us;
                },
                _ => {
                    return false;
                },
            },
            None => {},
        }
        i = i + 1;
    }
    assert(window@.take(window.len() as int) =~= window@);
    true
}

/// The mean of calls' times, rounded down: nothing if there were no calls.
pub open spec fn mean(sum: nat, calls: nat) -> nat {
    if calls == 0 {
        0
    } else {
        sum / calls
    }
}

/// The mean of calls' times.
pub fn avg_us(sum_us: u64, calls: u64) -> (r: u64)
    ensures
        r == mean(sum_us as nat, calls as nat),
{
    if calls == 0 {
        0
    } else {
        sum_us / calls
    }
}

/// What a summary says of a subject.
pub open spec fn subject_tree(subject: Subject, id: Seq<char>, fold: WindowFoldView) -> JsonTree {
    JsonTree::Object(
        no_members().insert("subject"@, JsonTree::Text(subject.name())).insert(
            "id"@,
            JsonTree::Text(id),
        ).insert("calls_1m"@, JsonTree::Int(fold.calls as int)).insert(
            "avg_us_1m"@,
            JsonTree::Int(mean(fold.sum_us, fold.calls) as int),
        ).insert("max_us_1m"@, JsonTree::Int(fold.max_us as int)).insert(
            "errors_1m"@,
            JsonTree::Int(fold.errors as int),
        ).insert("queue_len"@, JsonTree::Int(fold.queue_len as int)).insert(
            "dropped"@,
            JsonTree::Object(
                no_members().insert("events"@, JsonTree::Int(fold.dropped_events as int)).insert(
                    "busDeliveries"@,
                    JsonTree::Int(fold.dropped_bus as int),
                ),
            ),
        ).insert("memory_bytes"@, JsonTree::Int(fold.memory_bytes as int)),
    )
}

fn subject_summary_json(subject: Subject, id: &str, fold: &WindowFold) -> (r: serde_json::Value)
    ensures
        json_tree(r) == subject_tree(subject, id@, fold@),
{
    let mut dropped = map_new();
    map_insert(&mut dropped, "events", json_u64(fold.dropped_events));
    map_insert(&mut dropped, "busDeliveries", json_u64(fold.dropped_bus));
    let mut members = map_new();
    map_insert(&mut members, "subject", json_string(subject.as_str()));
    map_insert(&mut members, "id", json_string(id));
    map_insert(&mut members, "calls_1m", json_u64(fold.calls));
    map_insert(&mut members, "avg_us_1m", json_u64(avg_us(fold.sum_us, fold.calls)));
    map_insert(&mut members, "max_us_1m", json_u64(fold.max_us));
    map_insert(&mut members, "errors_1m", json_u64(fold.errors));
    map_insert(&mut members, "queue_len", json_u64(fold.queue_len));
    map_insert(&mut members, "dropped", json_object(dropped));
    map_insert(&mut members, "memory_bytes", json_u64(fold.memory_bytes));
    json_object(members)
}

/// Where something with an id belongs among ids in order: after all that do not
/// come after it.
pub open spec fn slot_for(ids: Seq<Seq<char>>, id: Seq<char>) -> int
    decreases ids.len(),
{
    if ids.len() == 0 || !text_before(id, ids.last()) {
        ids.len() as int
    } else {
        slot_for(ids.drop_last(), id)
    }
}

/// The places of ids in ascending order. What comes first stays first among equal
/// ids.
pub open spec fn order_of(ids: Seq<Seq<char>>) -> Seq<int>
    decreases ids.len(),
{
    if ids.len() == 0 {
        seq![]
    } else {
        let before = order_of(ids.drop_last());
        let sorted = before.map_values(|i: int| ids[i]);
        before.insert(slot_for(sorted, ids.last()), ids.len() - 1)
    }
}

proof fn lemma_slot(ids: Seq<Seq<char>>, id: Seq<char>)
    ensures
        0 <= slot_for(ids, id) <= ids.len(),
        forall|i: int| slot_for(ids, id) <= i < ids.len() ==> text_before(id, #[trigger] ids[i]),
        slot_for(ids, id) > 0 ==> !text_before(id, ids[slot_for(ids, id) - 1]),
    decreases ids.len(),
{
    if ids.len() > 0 && text_before(id, ids.last()) {
        lemma_slot(ids.drop_last(), id);
        assert forall|i: int| slot_for(ids, id) <= i < ids.len() implies text_before(
            id,
            #[trigger] ids[i],
        ) by {
            if i < ids.len() - 1 {
                assert(ids.drop_last()[i] == ids[i]);
            }
        }
    }
}

/// The order of ids names every place once, and no id comes before one that
/// stands ahead of it.
pub proof fn law_summaries_are_in_order(ids: Seq<Seq<char>>)
    ensures
        order_of(ids).len() == ids.len(),
        forall|i: int| 0 <= i < ids.len() ==> 0 <= #[trigger] order_of(ids)[i] < ids.len(),
        forall|i: int, j: int|
            0 <= i < j < ids.len() ==> #[trigger] order_of(ids)[i] != #[trigger] order_of(ids)[j]
                && !text_before(ids[order_of(ids)[j]], ids[order_of(ids)[i]]),
    decreases ids.len(),
{
    if ids.len() > 0 {
        let rest = ids.drop_last();
        law_summaries_are_in_order(rest);
        let before = order_of(rest);
        let sorted = before.map_values(|i: int| ids[i]);
        let id = ids.last();
        let slot = slot_for(sorted, id);
        let all = order_of(ids);
        lemma_slot(sorted, id);
        assert(all == before.insert(slot, ids.len() - 1));
        assert forall|i: int| 0 <= i < rest.len() implies sorted[i] == #[trigger] rest[before[i]] by {
            assert(0 <= before[i] < rest.len());
        }
        assert forall|i: int| 0 <= i < ids.len() implies 0 <= #[trigger] all[i] < ids.len() by {
            if i < slot {
                assert(all[i] == before[i]);
                assert(0 <= before[i] < rest.len());
            } else if i > slot {
                assert(all[i] == before[i - 1]);
                assert(0 <= before[i - 1] < rest.len());
            }
        }
        assert forall|i: int, j: int| 0 <= i < j < ids.len() implies #[trigger] all[i]
            != #[trigger] all[j] && !text_before(ids[all[j]], ids[all[i]]) by {
            let a = if i < slot {
                i
            } else {
                i - 1
            };
            let b = if j < slot {
                j
            } else {
                j - 1
            };
            if i != slot {
                assert(all[i] == before[a] && 0 <= before[a] < rest.len());
                assert(ids[all[i]] == sorted[a]);
            }
            if j != slot {
                assert(all[j] == before[b] && 0 <= before[b] < rest.len());
                assert(ids[all[j]] == sorted[b]);
            }
            if i == slot {
                assert(text_before(id, sorted[b]));
                lemma_text_before_is_strict(id, sorted[b]);
            } else if j == slot {
                assert(!text_before(id, sorted[slot - 1]));
                if a < slot - 1 {
                    assert(before[a] != before[slot - 1]);
                    assert(!text_before(rest[before[slot - 1]], rest[before[a]]));
                    lemma_text_before_is_total(sorted[a], sorted[slot - 1]);
                    if text_before(id, sorted[a]) {
                        if sorted[a] != sorted[slot - 1] {
                            lemma_text_before_is_transitive(id, sorted[a], sorted[slot - 1]);
                        }
                    }
                }
            } else {
                assert(before[a] != before[b]);
                assert(!text_before(rest[before[b]], rest[before[a]]));
            }
        }
    }
}

/// The ids of series.
pub open spec fn series_ids(series: Seq<Series>) -> Seq<Seq<char>> {
    series.map_values(|one: Series| one.id@)
}

fn places_in_order(series: &Vec<Series>) -> (r: Vec<usize>)
    ensures
        r@.map_values(|i: usize| i as int) == order_of(series_ids(series@)),
{
    let ghost ids = series_ids(series@);
    let mut places: Vec<usize> = Vec::new();
    let mut i: usize = 0;
    assert(places@.map_values(|i: usize| i as int) =~= order_of(ids.take(0)));
    while i < series.len()
        invariant
            i <= series.len(),
            ids == series_ids(series@),
            places@.map_values(|i: usize| i as int) == order_of(ids.take(i as int)),
        decreases series.len() - i,
    {
        let ghost before = order_of(ids.take(i as int));
        let ghost taken = ids.take(i + 1);
        let ghost sorted = before.map_values(|k: int| taken[k]);
        proof {
            law_summaries_are_in_order(ids.take(i as int));
            assert(taken.drop_last() =~= ids.take(i as int));
        }
        let mut slot: usize = places.len();
        assert(sorted.take(slot as int) =~= sorted);
        assert forall|k: int| 0 <= k < places.len() implies #[trigger] places@[k] < i by {
            assert(before[k] == places@[k]);
        }
        while slot > 0 && comes_before(
            series[i].id.as_str(),
            series[places[slot - 1]].id.as_str(),
        )
            invariant
                i < series.len(),
                slot <= places.len(),
                places.len() == i,
                ids == series_ids(series@),
                taken == ids.take(i + 1),
                before == places@.map_values(|i: usize| i as int),
                sorted == before.map_values(|k: int| taken[k]),
                forall|k: int| 0 <= k < places.len() ==> #[trigger] places@[k] < i,
                slot_for(sorted, ids[i as int]) == slot_for(
                    sorted.take(slot as int),
                    ids[i as int],
                ),
            decreases slot,
        {
            assert(sorted.take(slot as int).drop_last() =~= sorted.take(slot - 1));
            assert(sorted[slot - 1] == taken[before[slot - 1]]);
            assert(sorted[slot - 1] == series@[places@[slot - 1] as int].id@);
            slot = slot - 1;
        }
        proof {
            if slot > 0 {
                assert(sorted[slot - 1] == taken[before[slot - 1]]);
                assert(sorted[slot - 1] == series@[places@[slot - 1] as int].id@);
            }
            assert(slot_for(sorted, ids[i as int]) == slot);
        }
        places.insert(slot, i);
        assert(places@.map_values(|i: usize| i as int) =~= before.insert(slot as int, i as int));
        i = i + 1;
    }
    assert(ids.take(series.len() as int) =~= ids);
    places
}

/// A summary of the last minute before a moment: the subjects in ascending order of
/// their ids.
pub open spec fn summary_tree(ring: Ring, now_sec: u64) -> JsonTree {
    let from = back_by(now_sec, WINDOW_SECONDS);
    let order = order_of(series_ids(ring.series@));
    JsonTree::Object(
        no_members().insert("profilerLost"@, JsonTree::Int(ring.lost as int)).insert(
            "subjects"@,
            JsonTree::Array(
                order.map_values(
                    |i: int|
                        subject_tree(
                            ring.series@[i].subject,
                            ring.series@[i].id@,
                            folded(
                                ring.window_for(
                                    ring.series@[i].subject,
                                    ring.series@[i].id@,
                                    from,
                                    now_sec,
                                ),
                            ),
                        ),
                ),
            ),
        ),
    )
}

/// So many seconds before a moment, but not before the beginning.
pub open spec fn back_by(now_sec: u64, seconds: u64) -> u64 {
    if now_sec < seconds {
        0
    } else {
        (now_sec - seconds) as u64
    }
}

/// A summary of the last minute before a moment, as JSON.
pub fn summary_json(ring: &Ring, now_sec: u64) -> (r: serde_json::Value)
    requires
        ring.summable(now_sec),
    ensures
        json_tree(r) == summary_tree(*ring, now_sec),
{
    let from = if now_sec < WINDOW_SECONDS {
        0
    } else {
        now_sec - WINDOW_SECONDS
    };
    let places = places_in_order(&ring.series);
    let ghost ids = series_ids(ring.series@);
    let ghost order = order_of(ids);
    proof {
        law_summaries_are_in_order(ids);
    }
    let ghost all = order.map_values(
        |i: int|
            subject_tree(
                ring.series@[i].subject,
                ring.series@[i].id@,
                folded(
                    ring.window_for(
                        ring.series@[i].subject,
                        ring.series@[i].id@,
                        from,
                        now_sec,
                    ),
                ),
            ),
    );
    let mut subjects: Vec<serde_json::Value> = Vec::new();
    let mut i: usize = 0;
    while i < places.len()
        invariant
            i <= places.len(),
            from == back_by(now_sec, WINDOW_SECONDS),
            places.len() == ring.series.len(),
            order == places@.map_values(|i: usize| i as int),
            forall|k: int| 0 <= k < order.len() ==> 0 <= #[trigger] order[k] < ring.series.len(),
            forall|k: int| #![trigger ring.series@[k]]
                0 <= k < ring.series.len() ==> sums_fit(
                    ring.window_for(ring.series@[k].subject, ring.series@[k].id@, from, now_sec),
                ),
            all == order.map_values(
                |i: int|
                    subject_tree(
                        ring.series@[i].subject,
                        ring.series@[i].id@,
                        folded(
                            ring.window_for(
                                ring.series@[i].subject,
                                ring.series@[i].id@,
                                from,
                                now_sec,
                            ),
                        ),
                    ),
            ),
            subjects.len() == i,
            forall|k: int| 0 <= k < i ==> json_tree(#[trigger] subjects@[k]) == all[k],
        decreases places.len() - i,
    {
        assert(order[i as int] == places@[i as int]);
        let one = &ring.series[places[i]];
        let window = ring.window(one.subject, one.id.as_str(), from, now_sec);
        let fold = fold_window(&window);
        subjects.push(subject_summary_json(one.subject, one.id.as_str(), &fold));
        i = i + 1;
    }
    assert(json_trees(subjects@) =~= all);
    let mut members = map_new();
    map_insert(&mut members, "profilerLost", json_u64(ring.lost));
    map_insert(&mut members, "subjects", json_array(subjects));
    json_object(members)
}

/// A reading that may be absent.
pub open spec fn reading_tree(reading: Option<u64>) -> JsonTree {
    match reading {
        Some(reading) => JsonTree::Int(reading as int),
        None => JsonTree::Null,
    }
}

/// What a series says of a second.
pub open spec fn point_tree(bucket: Option<SecondBucket>) -> JsonTree {
    match bucket {
        Some(b) => JsonTree::Object(
            no_members().insert("calls"@, JsonTree::Int(b.calls as int)).insert(
                "avg_us"@,
                JsonTree::Int(mean(b.sum_us as nat, b.calls as nat) as int),
            ).insert("max_us"@, JsonTree::Int(b.max_us as int)).insert(
                "errors"@,
                JsonTree::Int(b.errors as int),
            ).insert("queue_len"@, reading_tree(b.queue_len)).insert(
                "memory_bytes"@,
                reading_tree(b.memory_bytes),
            ),
        ),
        None => JsonTree::Null,
    }
}

fn reading_json(reading: Option<u64>) -> (r: serde_json::Value)
    ensures
        json_tree(r) == reading_tree(reading),
{
    match reading {
        Some(reading) => json_u64(reading),
        None => json_null(),
    }
}

fn point_json(bucket: &Option<SecondBucket>) -> (r: serde_json::Value)
    ensures
        json_tree(r) == point_tree(*bucket),
{
    match bucket {
        Some(b) => {
            let mut members = map_new();
            map_insert(&mut members, "calls", json_u64(b.calls));
            map_insert(&mut members, "avg_us", json_u64(avg_us(b.sum_us, b.calls)));
            map_insert(&mut members, "max_us", json_u64(b.max_us));
            map_insert(&mut members, "errors", json_u64(b.errors));
            map_insert(&mut members, "queue_len", reading_json(b.queue_len));
            map_insert(&mut members, "memory_bytes", reading_json(b.memory_bytes));
            json_object(members)
        },
        None => json_null(),
    }
}

/// The length of a series that is asked for: at least a second and at most an hour.
pub open spec fn series_length(seconds: u64) -> u64 {
    if seconds < MIN_SERIES_SECONDS {
        MIN_SERIES_SECONDS
    } else if seconds > MAX_SERIES_SECONDS {
        MAX_SERIES_SECONDS
    } else {
        seconds
    }
}

/// The measurements of a subject second by second, up to a moment.
pub open spec fn series_tree(
    ring: Ring,
    subject: Subject,
    id: Seq<char>,
    seconds: u64,
    now_sec: u64,
) -> JsonTree {
    let from = back_by(now_sec, series_length(seconds));
    JsonTree::Object(
        no_members().insert("from_ts"@, JsonTree::Int(from as int)).insert(
            "step"@,
            JsonTree::Int(1),
        ).insert(
            "points"@,
            JsonTree::Array(
                ring.window_for(subject, id, from, now_sec).map_values(
                    |bucket: Option<SecondBucket>| point_tree(bucket),
                ),
            ),
        ),
    )
}

/// The measurements of a subject second by second, up to a moment, as JSON.
pub fn series_json(ring: &Ring, subject: Subject, id: &str, seconds: u64, now_sec: u64) -> (r:
    serde_json::Value)
    ensures
        json_tree(r) == series_tree(*ring, subject, id@, seconds, now_sec),
{
    let length: u64 = if seconds < MIN_SERIES_SECONDS {
        MIN_SERIES_SECONDS
    } else if seconds > MAX_SERIES_SECONDS {
        MAX_SERIES_SECONDS
    } else {
        seconds
    };
    let from_ts: u64 = if now_sec < length {
        0
    } else {
        now_sec - length
    };
    let window = ring.window(subject, id, from_ts, now_sec);
    let mut points: Vec<serde_json::Value> = Vec::new();
    let mut i: usize = 0;
    while i < window.len()
        invariant
            i <= window.len(),
            points.len() == i,
            forall|j: int|
                0 <= j < i ==> json_tree(#[trigger] points@[j]) == point_tree(window@[j]),
        decreases window.len() - i,
    {
        points.push(point_json(&window[i]));
        i = i + 1;
    }
    assert(json_trees(points@) =~= window@.map_values(
        |bucket: Option<SecondBucket>| point_tree(bucket),
    ));
    let mut members = map_new();
    map_insert(&mut members, "from_ts", json_u64(from_ts));
    map_insert(&mut members, "step", json_u64(1));
    map_insert(&mut members, "points", json_array(points));
    json_object(members)
}

/// A series has a point for every second, and at most an hour of them.
pub proof fn law_series_have_a_point_a_second(
    ring: Ring,
    subject: Subject,
    id: Seq<char>,
    seconds: u64,
    now_sec: u64,
)
    requires
        now_sec >= MAX_SERIES_SECONDS,
    ensures
        series_tree(ring, subject, id, seconds, now_sec) matches JsonTree::Object(members)
            && members["points"@] matches JsonTree::Array(points) && points.len()
            == series_length(seconds),
{
    reveal_strlit("from_ts");
    reveal_strlit("step");
    reveal_strlit("points");
    assert("points"@.len() == 6 && "step"@.len() == 4 && "from_ts"@.len() == 7);
}

/// The calls, the errors and the time of a window are the sums over its buckets.
pub proof fn law_calls_errors_and_times_add_up(window: Seq<Option<SecondBucket>>)
    ensures
        folded(window).calls == window.fold_left(
            0int,
            |sum: int, bucket: Option<SecondBucket>|
                match bucket {
                    Some(b) => sum + b.calls,
                    None => sum,
                },
        ),
        folded(window).errors == window.fold_left(
            0int,
            |sum: int, bucket: Option<SecondBucket>|
                match bucket {
                    Some(b) => sum + b.errors,
                    None => sum,
                },
        ),
        folded(window).sum_us == window.fold_left(
            0int,
            |sum: int, bucket: Option<SecondBucket>|
                match bucket {
                    Some(b) => sum + b.sum_us,
                    None => sum,
                },
        ),
    decreases window.len(),
{
    reveal_with_fuel(Seq::fold_left, 2);
    if window.len() > 0 {
        law_calls_errors_and_times_add_up(window.drop_last());
    }
}

/// The longest time of a window is that of one of its buckets, and no bucket has a longer
/// one. Without a bucket it is 0.
pub proof fn law_the_longest_time_is_the_maximum(window: Seq<Option<SecondBucket>>)
    ensures
        forall|i: int|
            0 <= i < window.len() && (#[trigger] window[i]) is Some ==> folded(window).max_us
                >= window[i]->0.max_us,
        (exists|i: int| 0 <= i < window.len() && (#[trigger] window[i]) is Some) ==> exists|i: int|
            0 <= i < window.len() && (#[trigger] window[i]) is Some && folded(window).max_us
                == window[i]->0.max_us,
        (forall|i: int| 0 <= i < window.len() ==> (#[trigger] window[i]) is None) ==> folded(
            window,
        ).max_us == 0,
    decreases window.len(),
{
    if window.len() > 0 {
        let rest = window.drop_last();
        let last = window.len() - 1;
        law_the_longest_time_is_the_maximum(rest);
        assert forall|i: int| 0 <= i < window.len() && (#[trigger] window[i]) is Some implies folded(
            window,
        ).max_us >= window[i]->0.max_us by {
            if i < last {
                assert(rest[i] == window[i]);
            }
        }
        if exists|i: int| 0 <= i < window.len() && (#[trigger] window[i]) is Some {
            if exists|i: int| 0 <= i < rest.len() && (#[trigger] rest[i]) is Some {
                let i = choose|i: int|
                    0 <= i < rest.len() && (#[trigger] rest[i]) is Some && folded(rest).max_us
                        == rest[i]->0.max_us;
                assert(window[i] == rest[i]);
                assert(window[last] is Some || folded(window).max_us == window[i]->0.max_us);
            } else {
                assert forall|i: int| 0 <= i < rest.len() implies (#[trigger] rest[i]) is None by {}
                let i = choose|i: int| 0 <= i < window.len() && (#[trigger] window[i]) is Some;
                if i < last {
                    assert(rest[i] == window[i]);
                }
                assert(window[last] is Some);
            }
        }
        if forall|i: int| 0 <= i < window.len() ==> (#[trigger] window[i]) is None {
            assert forall|i: int| 0 <= i < rest.len() implies (#[trigger] rest[i]) is None by {
                assert(window[i] == rest[i]);
            }
            assert(window[last] is None);
        }
    }
}

/// The last queue length within a window counts, and without any it is 0.
pub proof fn law_the_last_queue_length_counts(window: Seq<Option<SecondBucket>>)
    ensures
        forall|i: int| #![trigger window[i]]
            0 <= i < window.len() && window[i] is Some && window[i]->0.queue_len is Some && (
            forall|j: int|
                i < j < window.len() && (#[trigger] window[j]) is Some ==> window[j]->0.queue_len
                    is None) ==> folded(window).queue_len == window[i]->0.queue_len->0,
        (forall|i: int|
            0 <= i < window.len() && (#[trigger] window[i]) is Some ==> window[i]->0.queue_len is None)
            ==> folded(window).queue_len == 0,
    decreases window.len(),
{
    if window.len() > 0 {
        let rest = window.drop_last();
        let last = window.len() - 1;
        law_the_last_queue_length_counts(rest);
        assert forall|i: int| #![trigger window[i]]
            0 <= i < window.len() && window[i] is Some && window[i]->0.queue_len is Some && (forall|
                j: int,
            |
                i < j < window.len() && (#[trigger] window[j]) is Some ==> window[j]->0.queue_len
                    is None) implies folded(window).queue_len == window[i]->0.queue_len->0 by {
            if i < last {
                assert(rest[i] == window[i]);
                assert(window[last] is Some ==> window[last]->0.queue_len is None);
                assert forall|j: int| i < j < rest.len() && (#[trigger] rest[j]) is Some implies rest[j]->0.queue_len
                    is None by {
                    assert(window[j] == rest[j]);
                }
            }
        }
        if forall|i: int|
            0 <= i < window.len() && (#[trigger] window[i]) is Some ==> window[i]->0.queue_len is None {
            assert forall|i: int| 0 <= i < rest.len() && (#[trigger] rest[i]) is Some implies rest[i]->0.queue_len
                is None by {
                assert(window[i] == rest[i]);
            }
            assert(window[last] is Some ==> window[last]->0.queue_len is None);
        }
    }
}

/// The last memory reading within a window counts, and without any it is 0.
pub proof fn law_the_last_memory_reading_counts(window: Seq<Option<SecondBucket>>)
    ensures
        forall|i: int| #![trigger window[i]]
            0 <= i < window.len() && window[i] is Some && window[i]->0.memory_bytes is Some && (
            forall|j: int|
                i < j < window.len() && (#[trigger] window[j]) is Some ==> window[j]->0.memory_bytes
                    is None) ==> folded(window).memory_bytes == window[i]->0.memory_bytes->0,
        (forall|i: int|
            0 <= i < window.len() && (#[trigger] window[i]) is Some ==> window[i]->0.memory_bytes is None)
            ==> folded(window).memory_bytes == 0,
    decreases window.len(),
{
    if window.len() > 0 {
        let rest = window.drop_last();
        let last = window.len() - 1;
        law_the_last_memory_reading_counts(rest);
        assert forall|i: int| #![trigger window[i]]
            0 <= i < window.len() && window[i] is Some && window[i]->0.memory_bytes is Some && (forall|
                j: int,
            |
                i < j < window.len() && (#[trigger] window[j]) is Some ==> window[j]->0.memory_bytes
                    is None) implies folded(window).memory_bytes == window[i]->0.memory_bytes->0 by {
            if i < last {
                assert(rest[i] == window[i]);
                assert(window[last] is Some ==> window[last]->0.memory_bytes is None);
                assert forall|j: int| i < j < rest.len() && (#[trigger] rest[j]) is Some implies rest[j]->0.memory_bytes
                    is None by {
                    assert(window[j] == rest[j]);
                }
            }
        }
        if forall|i: int|
            0 <= i < window.len() && (#[trigger] window[i]) is Some ==> window[i]->0.memory_bytes is None {
            assert forall|i: int| 0 <= i < rest.len() && (#[trigger] rest[i]) is Some implies rest[i]->0.memory_bytes
                is None by {
                assert(window[i] == rest[i]);
            }
            assert(window[last] is Some ==> window[last]->0.memory_bytes is None);
        }
    }
}

/// The last count of dropped events within a window counts, and without any it is 0.
pub proof fn law_the_last_count_of_dropped_events_counts(window: Seq<Option<SecondBucket>>)
    ensures
        forall|i: int| #![trigger window[i]]
            0 <= i < window.len() && window[i] is Some && window[i]->0.dropped_events is Some && (
            forall|j: int|
                i < j < window.len() && (#[trigger] window[j]) is Some ==> window[j]->0.dropped_events
                    is None) ==> folded(window).dropped_events == window[i]->0.dropped_events->0,
        (forall|i: int|
            0 <= i < window.len() && (#[trigger] window[i]) is Some ==> window[i]->0.dropped_events is None)
            ==> folded(window).dropped_events == 0,
    decreases window.len(),
{
    if window.len() > 0 {
        let rest = window.drop_last();
        let last = window.len() - 1;
        law_the_last_count_of_dropped_events_counts(rest);
        assert forall|i: int| #![trigger window[i]]
            0 <= i < window.len() && window[i] is Some && window[i]->0.dropped_events is Some && (forall|
                j: int,
            |
                i < j < window.len() && (#[trigger] window[j]) is Some ==> window[j]->0.dropped_events
                    is None) implies folded(window).dropped_events == window[i]->0.dropped_events->0 by {
            if i < last {
                assert(rest[i] == window[i]);
                assert(window[last] is Some ==> window[last]->0.dropped_events is None);
                assert forall|j: int| i < j < rest.len() && (#[trigger] rest[j]) is Some implies rest[j]->0.dropped_events
                    is None by {
                    assert(window[j] == rest[j]);
                }
            }
        }
        if forall|i: int|
            0 <= i < window.len() && (#[trigger] window[i]) is Some ==> window[i]->0.dropped_events is None {
            assert forall|i: int| 0 <= i < rest.len() && (#[trigger] rest[i]) is Some implies rest[i]->0.dropped_events
                is None by {
                assert(window[i] == rest[i]);
            }
            assert(window[last] is Some ==> window[last]->0.dropped_events is None);
        }
    }
}

/// The last count of dropped deliveries within a window counts, and without any it is 0.
pub proof fn law_the_last_count_of_dropped_deliveries_counts(window: Seq<Option<SecondBucket>>)
    ensures
        forall|i: int| #![trigger window[i]]
            0 <= i < window.len() && window[i] is Some && window[i]->0.dropped_bus is Some && (
            forall|j: int|
                i < j < window.len() && (#[trigger] window[j]) is Some ==> window[j]->0.dropped_bus
                    is None) ==> folded(window).dropped_bus == window[i]->0.dropped_bus->0,
        (forall|i: int|
            0 <= i < window.len() && (#[trigger] window[i]) is Some ==> window[i]->0.dropped_bus is None)
            ==> folded(window).dropped_bus == 0,
    decreases window.len(),
{
    if window.len() > 0 {
        let rest = window.drop_last();
        let last = window.len() - 1;
        law_the_last_count_of_dropped_deliveries_counts(rest);
        assert forall|i: int| #![trigger window[i]]
            0 <= i < window.len() && window[i] is Some && window[i]->0.dropped_bus is Some && (forall|
                j: int,
            |
                i < j < window.len() && (#[trigger] window[j]) is Some ==> window[j]->0.dropped_bus
                    is None) implies folded(window).dropped_bus == window[i]->0.dropped_bus->0 by {
            if i < last {
                assert(rest[i] == window[i]);
                assert(window[last] is Some ==> window[last]->0.dropped_bus is None);
                assert forall|j: int| i < j < rest.len() && (#[trigger] rest[j]) is Some implies rest[j]->0.dropped_bus
                    is None by {
                    assert(window[j] == rest[j]);
                }
            }
        }
        if forall|i: int|
            0 <= i < window.len() && (#[trigger] window[i]) is Some ==> window[i]->0.dropped_bus is None {
            assert forall|i: int| 0 <= i < rest.len() && (#[trigger] rest[i]) is Some implies rest[i]->0.dropped_bus
                is None by {
                assert(window[i] == rest[i]);
            }
            assert(window[last] is Some ==> window[last]->0.dropped_bus is None);
        }
    }
}

/// The mean is the time per call, rounded down: that many times the calls is no more than
/// the sum, and one more would be. Without calls it is 0.
pub proof fn law_the_mean_is_the_time_per_call(sum: nat, calls: nat)
    ensures
        calls > 0 ==> mean(sum, calls) * calls <= sum < (mean(sum, calls) + 1) * calls,
        calls == 0 ==> mean(sum, calls) == 0,
{
    if calls > 0 {
        let q = mean(sum, calls) as int;
        vstd::arithmetic::div_mod::lemma_fundamental_div_mod(sum as int, calls as int);
        vstd::arithmetic::mul::lemma_mul_is_commutative(q, calls as int);
        vstd::arithmetic::mul::lemma_mul_is_distributive_add_other_way(calls as int, q, 1);
    }
}

/// A window has a place for each second from its beginning on, without its end. There stands
/// the last that was recorded for that second, and nothing if nothing was.
pub proof fn law_a_window_has_the_last_of_each_second(
    buckets: Seq<TimedBucket>,
    from: u64,
    to: u64,
    i: int,
)
    requires
        from <= to,
        0 <= i < to - from,
    ensures
        window_of(buckets, from, to).len() == to - from,
        forall|k: int| #![trigger buckets[k]]
            0 <= k < buckets.len() && buckets[k].second == from + i && (forall|j: int|
                k < j < buckets.len() ==> (#[trigger] buckets[j]).second != from + i) ==> window_of(
                buckets,
                from,
                to,
            )[i] == Some(buckets[k].bucket),
        (forall|k: int| 0 <= k < buckets.len() ==> (#[trigger] buckets[k]).second != from + i)
            ==> window_of(buckets, from, to)[i] is None,
{
    lemma_bucket_at(buckets, from + i);
}

proof fn lemma_bucket_at(buckets: Seq<TimedBucket>, second: int)
    ensures
        forall|k: int| #![trigger buckets[k]]
            0 <= k < buckets.len() && buckets[k].second == second && (forall|j: int|
                k < j < buckets.len() ==> (#[trigger] buckets[j]).second != second) ==> bucket_at(
                buckets,
                second,
            ) == Some(buckets[k].bucket),
        (forall|k: int| 0 <= k < buckets.len() ==> (#[trigger] buckets[k]).second != second)
            ==> bucket_at(buckets, second) is None,
    decreases buckets.len(),
{
    if buckets.len() > 0 {
        let rest = buckets.drop_last();
        let last = buckets.len() - 1;
        lemma_bucket_at(rest, second);
        assert forall|k: int| #![trigger buckets[k]]
            0 <= k < buckets.len() && buckets[k].second == second && (forall|j: int|
                k < j < buckets.len() ==> (#[trigger] buckets[j]).second != second) implies bucket_at(
            buckets,
            second,
        ) == Some(buckets[k].bucket) by {
            if k < last {
                assert(rest[k] == buckets[k]);
                assert(buckets[last].second != second);
                assert forall|j: int| k < j < rest.len() implies (#[trigger] rest[j]).second
                    != second by {
                    assert(buckets[j] == rest[j]);
                }
            }
        }
        if forall|k: int| 0 <= k < buckets.len() ==> (#[trigger] buckets[k]).second != second {
            assert forall|k: int| 0 <= k < rest.len() implies (#[trigger] rest[k]).second
                != second by {
                assert(buckets[k] == rest[k]);
            }
            assert(buckets[last].second != second);
        }
    }
}

/// What was measured of a subject is the first series of its kind and name, and nothing if
/// there is none.
pub proof fn law_the_first_series_of_a_name_counts(
    series: Seq<Series>,
    subject: Subject,
    id: Seq<char>,
)
    ensures
        forall|k: int| #![trigger series[k]]
            0 <= k < series.len() && series[k].subject == subject && series[k].id@ == id && (
            forall|j: int|
                0 <= j < k ==> (#[trigger] series[j]).subject != subject || series[j].id@ != id)
                ==> measured(series, subject, id) == series[k].buckets@,
        (forall|k: int|
            0 <= k < series.len() ==> (#[trigger] series[k]).subject != subject || series[k].id@
                != id) ==> measured(series, subject, id).len() == 0,
    decreases series.len(),
{
    if series.len() > 0 {
        let rest = series.drop_first();
        law_the_first_series_of_a_name_counts(rest, subject, id);
        assert forall|k: int| #![trigger series[k]]
            0 <= k < series.len() && series[k].subject == subject && series[k].id@ == id && (
            forall|j: int|
                0 <= j < k ==> (#[trigger] series[j]).subject != subject || series[j].id@ != id) implies measured(
        series, subject, id) == series[k].buckets@ by {
            if k > 0 {
                assert(series[0].subject != subject || series[0].id@ != id);
                assert(rest[k - 1] == series[k]);
                assert forall|j: int| 0 <= j < k - 1 implies (#[trigger] rest[j]).subject != subject
                    || rest[j].id@ != id by {
                    assert(rest[j] == series[j + 1]);
                }
            }
        }
        if forall|k: int|
            0 <= k < series.len() ==> (#[trigger] series[k]).subject != subject || series[k].id@
                != id {
            assert(series[0].subject != subject || series[0].id@ != id);
            assert forall|j: int| 0 <= j < rest.len() implies (#[trigger] rest[j]).subject
                != subject || rest[j].id@ != id by {
                assert(rest[j] == series[j + 1]);
            }
        }
    }
}

/// A summary looks back for a minute, or to the beginning: it has a subject for every
/// series, each with what that time comes to.
pub proof fn law_a_summary_covers_the_last_minute(ring: Ring, now_sec: u64, k: int)
    requires
        0 <= k < ring.series.len(),
    ensures
        summary_tree(ring, now_sec) matches JsonTree::Object(members) && {
            &&& members.dom() =~= set!["profilerLost"@, "subjects"@]
            &&& members["profilerLost"@] == JsonTree::Int(ring.lost as int)
            &&& members["subjects"@] matches JsonTree::Array(subjects) && {
                &&& subjects.len() == ring.series.len()
                &&& exists|i: int, from: u64|
                    {
                        &&& 0 <= i < ring.series.len()
                        &&& from + 60 == now_sec || from == 0 && now_sec < 60
                        &&& subjects[k] == subject_tree(
                            ring.series@[i].subject,
                            ring.series@[i].id@,
                            folded(
                                #[trigger] ring.window_for(
                                    ring.series@[i].subject,
                                    ring.series@[i].id@,
                                    from,
                                    now_sec,
                                ),
                            ),
                        )
                    }
            }
        },
{
    reveal_strlit("profilerLost");
    reveal_strlit("subjects");
    assert("profilerLost"@.len() == 12 && "subjects"@.len() == 8);
    let ids = series_ids(ring.series@);
    law_summaries_are_in_order(ids);
    let i = order_of(ids)[k];
    let from = back_by(now_sec, WINDOW_SECONDS);
    let window = ring.window_for(ring.series@[i].subject, ring.series@[i].id@, from, now_sec);
    assert(0 <= i < ring.series.len());
}

/// A series goes back as many seconds as are asked for, but at least one and at most an
/// hour, and not before the beginning. Its points are the seconds from then on.
pub proof fn law_a_series_goes_back_as_asked(
    ring: Ring,
    subject: Subject,
    id: Seq<char>,
    seconds: u64,
    now_sec: u64,
    i: int,
)
    requires
        0 <= i < now_sec,
    ensures
        series_tree(ring, subject, id, seconds, now_sec) matches JsonTree::Object(members) && {
            &&& members.dom() =~= set!["from_ts"@, "step"@, "points"@]
            &&& members["step"@] == JsonTree::Int(1)
            &&& members["from_ts"@] matches JsonTree::Int(from) && {
                &&& 0 <= from <= now_sec
                &&& 1 <= seconds <= 3600 && seconds <= now_sec ==> from == now_sec - seconds
                &&& seconds == 0 ==> from == now_sec - 1
                &&& seconds > 3600 && now_sec >= 3600 ==> from == now_sec - 3600
                &&& seconds <= 3600 && seconds > now_sec || seconds > 3600 && now_sec < 3600
                    ==> from == 0
                &&& members["points"@] matches JsonTree::Array(points) && {
                    &&& points.len() == now_sec - from
                    &&& i < points.len() ==> points[i] == point_tree(
                        ring.window_for(subject, id, from as u64, now_sec)[i],
                    )
                }
            }
        },
{
    reveal_strlit("from_ts");
    reveal_strlit("step");
    reveal_strlit("points");
    assert("points"@.len() == 6 && "step"@.len() == 4 && "from_ts"@.len() == 7);
}

/// A point of a series says what was measured within its second, and nothing of a second
/// without a measurement.
pub proof fn law_a_point_says_what_was_measured(bucket: Option<SecondBucket>)
    ensures
        bucket is None ==> point_tree(bucket) == JsonTree::Null,
        bucket matches Some(b) ==> (point_tree(bucket) matches JsonTree::Object(members) && {
            &&& members.dom() =~= set![
                "calls"@,
                "avg_us"@,
                "max_us"@,
                "errors"@,
                "queue_len"@,
                "memory_bytes"@,
            ]
            &&& members["calls"@] == JsonTree::Int(b.calls as int)
            &&& members["max_us"@] == JsonTree::Int(b.max_us as int)
            &&& members["errors"@] == JsonTree::Int(b.errors as int)
            &&& b.calls > 0 ==> members["avg_us"@] == JsonTree::Int(
                b.sum_us as int / b.calls as int,
            )
            &&& b.calls == 0 ==> members["avg_us"@] == JsonTree::Int(0)
            &&& b.queue_len matches Some(n) ==> members["queue_len"@] == JsonTree::Int(n as int)
            &&& b.queue_len is None ==> members["queue_len"@] == JsonTree::Null
            &&& b.memory_bytes matches Some(n) ==> members["memory_bytes"@] == JsonTree::Int(
                n as int,
            )
            &&& b.memory_bytes is None ==> members["memory_bytes"@] == JsonTree::Null
        }),
{
    reveal_strlit("calls");
    reveal_strlit("avg_us");
    reveal_strlit("max_us");
    reveal_strlit("errors");
    reveal_strlit("queue_len");
    reveal_strlit("memory_bytes");
    assert("calls"@.len() == 5 && "queue_len"@.len() == 9 && "memory_bytes"@.len() == 12);
    assert("avg_us"@.len() == 6 && "max_us"@.len() == 6 && "errors"@.len() == 6);
    assert("avg_us"@[0] != "max_us"@[0] && "avg_us"@[0] != "errors"@[0] && "max_us"@[0]
        != "errors"@[0]);
}

/// What a summary says of a subject: its kind and name, and what the window comes to.
pub proof fn law_a_subject_is_summed_up(subject: Subject, id: Seq<char>, fold: WindowFoldView)
    ensures
        subject_tree(subject, id, fold) matches JsonTree::Object(members) && {
            &&& members["subject"@] == JsonTree::Text(
                match subject {
                    Subject::Plugin => "plugin"@,
                    Subject::Driver => "driver"@,
                },
            )
            &&& members["id"@] == JsonTree::Text(id)
            &&& members["calls_1m"@] == JsonTree::Int(fold.calls as int)
            &&& fold.calls > 0 ==> members["avg_us_1m"@] == JsonTree::Int(
                fold.sum_us as int / fold.calls as int,
            )
            &&& fold.calls == 0 ==> members["avg_us_1m"@] == JsonTree::Int(0)
            &&& members["max_us_1m"@] == JsonTree::Int(fold.max_us as int)
            &&& members["errors_1m"@] == JsonTree::Int(fold.errors as int)
            &&& members["queue_len"@] == JsonTree::Int(fold.queue_len as int)
            &&& members["memory_bytes"@] == JsonTree::Int(fold.memory_bytes as int)
            &&& members["dropped"@] matches JsonTree::Object(dropped) && {
                &&& dropped["events"@] == JsonTree::Int(fold.dropped_events as int)
                &&& dropped["busDeliveries"@] == JsonTree::Int(fold.dropped_bus as int)
            }
        },
{
    reveal_strlit("subject");
    reveal_strlit("id");
    reveal_strlit("calls_1m");
    reveal_strlit("avg_us_1m");
    reveal_strlit("max_us_1m");
    reveal_strlit("errors_1m");
    reveal_strlit("queue_len");
    reveal_strlit("memory_bytes");
    reveal_strlit("dropped");
    reveal_strlit("events");
    reveal_strlit("busDeliveries");
    assert("events"@.len() == 6 && "busDeliveries"@.len() == 13);
    assert("subject"@.len() == 7 && "dropped"@.len() == 7 && "subject"@[0] != "dropped"@[0]);
    assert("id"@.len() == 2 && "calls_1m"@.len() == 8 && "memory_bytes"@.len() == 12);
    assert("avg_us_1m"@.len() == 9 && "max_us_1m"@.len() == 9 && "errors_1m"@.len() == 9
        && "queue_len"@.len() == 9);
    assert("avg_us_1m"@[0] == 'a' && "max_us_1m"@[0] == 'm' && "errors_1m"@[0] == 'e'
        && "queue_len"@[0] == 'q');
}

} // verus!
