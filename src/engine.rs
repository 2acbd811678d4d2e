use vstd::prelude::*;
use vstd::multiset::Multiset;
use crate::clock::{
    clock_now, cron_accepts, local_time_of_day, next_occurrence, LATEST_SUPPORTED_TIME,
};
use crate::config::FreemindConfig;
use crate::filter_lemmas::{lemma_filter_empty, lemma_filter_insert, lemma_filter_none, lemma_filter_single};
use crate::record::{AppElement, due_key, time_key, effective_time, lead_minutes, with_effective};

verus! {

broadcast use vstd::seq_lib::group_to_multiset_ensures;

/// Records ascending by nominal due time, a missing due time counting as zero.
pub open spec fn sorted_by_due(s: Seq<AppElement>) -> bool {
    forall|i: int, j: int| 0 <= i < j < s.len() ==> due_key(s[i]) <= due_key(s[j])
}

/// The records of `s` whose due key is `k`, in their order in `s`.
pub open spec fn with_due_key(s: Seq<AppElement>, k: u32) -> Seq<AppElement> {
    s.filter(|e: AppElement| due_key(e) == k)
}

/// The records of `s` whose time key is `k`, in their order in `s`.
pub open spec fn with_time_key(s: Seq<AppElement>, k: u32) -> Seq<AppElement> {
    s.filter(|e: AppElement| time_key(e) == k)
}

/// The preparation lead of `e` in seconds, zero where it has none.
pub open spec fn lead_seconds(e: AppElement) -> int {
    match lead_minutes(e) {
        Some(m) => m as int * 60,
        None => 0,
    }
}

/// The effective time of `e` when its recurrence rule gave no occurrence.
pub open spec fn plain_effective(e: AppElement) -> Option<u32> {
    effective_time(e.due, None, lead_minutes(e))
}

/// Whether `e` has no recurrence rule that cron accepts.
pub open spec fn rule_unusable(e: AppElement) -> bool {
    match e.repeats {
        Some(r) => !cron_accepts(r@),
        None => true,
    }
}

/// `n` is `o` with its effective time computed: from the nominal due time
/// alone where the rule is unusable, and otherwise from the due time and some
/// occurrence of the rule (which one depends on the clock and the machine's
/// time zone), or from the due time alone where the rule yields none.
pub open spec fn computed_one(o: AppElement, n: AppElement) -> bool {
    &&& rule_unusable(o) ==> n == with_effective(o, plain_effective(o))
    &&& (n == with_effective(o, plain_effective(o)) || exists|t: i64|
        n == #[trigger] with_effective(o, effective_time(o.due, Some(t), lead_minutes(o))))
}

/// `new` is `old` with every record's effective time computed.
pub open spec fn computed_all(old: Seq<AppElement>, new: Seq<AppElement>) -> bool {
    &&& new.len() == old.len()
    &&& forall|i: int| 0 <= i < old.len() ==> computed_one(old[i], #[trigger] new[i])
}

/// Whether `e` carries an alert and its effective time lies in the half-open
/// window of `minutes` minutes that starts at `now`.
pub open spec fn in_alert_window(e: AppElement, now: u32, minutes: u16) -> bool {
    &&& e.alert.is_some()
    &&& e.takes_place_on matches Some(t) && now <= t && t < now as int + minutes as int * 60
}

/// Whether some record of `s` is in the alert window.
pub open spec fn any_in_alert_window(s: Seq<AppElement>, now: u32, minutes: u16) -> bool {
    exists|i: int| 0 <= i < s.len() && in_alert_window(#[trigger] s[i], now, minutes)
}

/// Whether the effective time of `e` lies in `[start, end]`.
pub open spec fn in_span(e: AppElement, start: u32, end: u32) -> bool {
    e.takes_place_on matches Some(t) && start <= t && t <= end
}

/// The records of `s` whose effective time lies in `[start, end]`, in order.
pub open spec fn within_span(s: Seq<AppElement>, start: u32, end: u32) -> Seq<AppElement>
    decreases s.len(),
{
    if s.len() == 0 {
        Seq::empty()
    } else {
        let rest = within_span(s.drop_last(), start, end);
        if in_span(s.last(), start, end) {
            rest.push(s.last())
        } else {
            rest
        }
    }
}

/// Records ascending by effective time.
pub open spec fn sorted_by_time(s: Seq<AppElement>) -> bool {
    forall|i: int, j: int| 0 <= i < j < s.len() ==> time_key(s[i]) <= time_key(s[j])
}

/// The records behind a sequence of references.
pub open spec fn deref_all(s: Seq<&AppElement>) -> Seq<AppElement> {
    s.map_values(|e: &AppElement| *e)
}

/// A timestamp brought into `u32`, with `fallback` for one outside its range.
pub open spec fn to_u32_or(t: i64, fallback: u32) -> u32 {
    if 0 <= t <= u32::MAX {
        t as u32
    } else {
        fallback
    }
}

/// `r` holds the records of `s` due between the local day's bounds `first`
/// and `last`, records of equal effective time in their order in `s`; and
/// nothing where either bound is unknown.
pub open spec fn is_today_result(
    r: Seq<AppElement>,
    s: Seq<AppElement>,
    first: Option<i64>,
    last: Option<i64>,
) -> bool {
    match (first, last) {
        (Some(f), Some(l)) => {
            let w = within_span(s, to_u32_or(f, 0), to_u32_or(l, u32::MAX));
            &&& r.to_multiset() == w.to_multiset()
            &&& forall|k: u32| #[trigger] with_time_key(r, k) == with_time_key(w, k)
            &&& forall|x: AppElement| #[trigger]
                r.contains(x) <==> (s.contains(x) && in_span(
                    x,
                    to_u32_or(f, 0),
                    to_u32_or(l, u32::MAX),
                ))
        },
        _ => r.len() == 0,
    }
}

/// The last second of a day, counted from midnight.
pub const LAST_SECOND_OF_DAY: u32 = 86399;

/// A record is among those of `s` due in `[start, end]` exactly when it is a
/// record of `s` whose effective time lies in that span.
pub proof fn lemma_within_span_contains(s: Seq<AppElement>, start: u32, end: u32, e: AppElement)
    ensures
        within_span(s, start, end).contains(e) <==> (s.contains(e) && in_span(e, start, end)),
    decreases s.len(),
{
    if s.len() > 0 {
        let init = s.drop_last();
        lemma_within_span_contains(init, start, end, e);
        assert(s =~= init.push(s.last()));
        let rest = within_span(init, start, end);
        if s.contains(e) && e != s.last() {
            let i = choose|i: int| 0 <= i < s.len() && s[i] == e;
            assert(init[i] == e);
        }
        if in_span(s.last(), start, end) {
            assert(rest.push(s.last()).last() == s.last());
            if rest.push(s.last()).contains(e) && e != s.last() {
                let i = choose|i: int| 0 <= i < rest.len() + 1 && rest.push(s.last())[i] == e;
                assert(rest[i] == e);
            }
            if rest.contains(e) {
                let i = choose|i: int| 0 <= i < rest.len() && rest[i] == e;
                assert(rest.push(s.last())[i] == e);
            }
        }
        if init.contains(e) {
            let i = choose|i: int| 0 <= i < init.len() && init[i] == e;
            assert(s[i] == e);
        }
        assert(s[s.len() - 1] == s.last());
    }
}

/// The day's span is closed at both ends: of the records of `s`, today's
/// result `r` for a local day from `first` to `last` (23:59:59) holds one
/// whose effective time is `last` and not one whose effective time is the
/// second after it; it holds one whose effective time is `first` and not one
/// whose effective time is the second before it.
pub proof fn law_day_bounds_inclusive(
    r: Seq<AppElement>,
    s: Seq<AppElement>,
    first: i64,
    last: i64,
    e: AppElement,
)
    requires
        is_today_result(r, s, Some(first), Some(last)),
        s.contains(e),
        0 <= first <= last <= u32::MAX,
    ensures
        e.takes_place_on == Some(last as u32) ==> r.contains(e),
        e.takes_place_on == Some((last + 1) as u32) && last < u32::MAX ==> !r.contains(e),
        e.takes_place_on == Some(first as u32) ==> r.contains(e),
        e.takes_place_on == Some((first - 1) as u32) && first > 0 ==> !r.contains(e),
{
}

/// A record with neither due time nor preparation lead whose rule's next
/// occurrence is `t` (a `u32` timestamp) has `t` as its effective time.
pub proof fn law_occurrence_alone_is_effective_time(o: AppElement, t: i64)
    requires
        o.due.is_none(),
        lead_minutes(o).is_none(),
        0 <= t <= u32::MAX,
    ensures
        effective_time(o.due, Some(t), lead_minutes(o)) == Some(t as u32),
{
}

/// A recurrence rule that cron does not accept is ignored: the record gets the
/// effective time it would get with no rule at all, which is its nominal due
/// time (less the preparation lead), and none where it has no due time either.
pub proof fn law_unusable_rule_is_ignored(o: AppElement, n: AppElement)
    requires
        computed_one(o, n),
        o.repeats matches Some(r) && !cron_accepts(r@),
    ensures
        n == with_effective(o, plain_effective(AppElement { repeats: None, ..o })),
        n.takes_place_on == effective_time(o.due, None, lead_minutes(o)),
        o.due.is_none() ==> n.takes_place_on.is_none(),
        o.due matches Some(d) ==> (lead_seconds(o) <= d ==> n.takes_place_on == Some(
            (d - lead_seconds(o)) as u32,
        )),
{
}

/// The first second of the local day holding `now` that exists on the local
/// clock, searched forward from midnight.
fn first_local_second(now: i64) -> (r: Option<i64>)
    requires
        0 <= now <= LATEST_SUPPORTED_TIME,
{
    let mut second: u32 = 0;
    loop
        invariant
            second <= LAST_SECOND_OF_DAY,
            0 <= now <= LATEST_SUPPORTED_TIME,
        decreases LAST_SECOND_OF_DAY - second,
    {
        let t = local_time_of_day(now, second);
        if t.is_some() || second == LAST_SECOND_OF_DAY {
            return t;
        }
        second = second + 1;
    }
}

/// The last second of the local day holding `now` that exists on the local
/// clock, searched backward from 23:59:59.
fn last_local_second(now: i64) -> (r: Option<i64>)
    requires
        0 <= now <= LATEST_SUPPORTED_TIME,
{
    let mut second: u32 = LAST_SECOND_OF_DAY;
    loop
        invariant
            second <= LAST_SECOND_OF_DAY,
            0 <= now <= LATEST_SUPPORTED_TIME,
        decreases second,
    {
        let t = local_time_of_day(now, second);
        if t.is_some() || second == 0 {
            return t;
        }
        second = second - 1;
    }
}

/// The collection of records and the registry it came from.
pub struct FreemindState {
    pub config: FreemindConfig,
    pub elements: Vec<AppElement>,
}

impl FreemindState {
    pub fn new(config: FreemindConfig) -> (r: FreemindState)
        ensures
            r.config == config,
            r.elements@ == Seq::<AppElement>::empty(),
    {
        FreemindState { config, elements: Vec::new() }
    }

    pub fn elements(&self) -> (r: &Vec<AppElement>)
        ensures
            r@ == self.elements@,
    {
        &self.elements
    }

    /// Orders the records by nominal due time, keeping records of equal key in
    /// their order.
    #[verifier::rlimit(40)]
    pub fn sort_by_due(&mut self)
        ensures
            final(self).config == old(self).config,
            sorted_by_due(final(self).elements@),
            final(self).elements@.to_multiset() == old(self).elements@.to_multiset(),
            forall|k: u32|
                #[trigger] with_due_key(final(self).elements@, k) == with_due_key(
                    old(self).elements@,
                    k,
                ),
    {
        let mut rest: Vec<AppElement> = Vec::new();
        std::mem::swap(&mut self.elements, &mut rest);
        proof {
            assert forall|k: u32|
                #[trigger] with_due_key(old(self).elements@, k) == with_due_key(rest@, k)
                    + with_due_key(self.elements@, k) by {
                lemma_filter_empty(self.elements@, |e: AppElement| due_key(e) == k);
                assert(rest@ + Seq::<AppElement>::empty() =~= rest@);
            }
        }
        while rest.len() > 0
            invariant
                self.config == old(self).config,
                sorted_by_due(self.elements@),
                self.elements@.to_multiset().add(rest@.to_multiset())
                    == old(self).elements@.to_multiset(),
                forall|k: u32|
                    #[trigger] with_due_key(old(self).elements@, k) == with_due_key(rest@, k)
                        + with_due_key(self.elements@, k),
            decreases rest.len(),
        {
            let ghost before = rest@;
            let ghost sorted = self.elements@;
            let x = rest.pop().unwrap();
            proof {
                assert(before =~= rest@.push(x));
            }
            let key = x.due_or_zero();
            let mut pos: usize = 0;
            while pos < self.elements.len() && self.elements[pos].due_or_zero() < key
                invariant
                    self.elements@ == sorted,
                    pos <= sorted.len(),
                    forall|k: int| 0 <= k < pos ==> due_key(#[trigger] sorted[k]) < key,
                decreases sorted.len() - pos,
            {
                pos = pos + 1;
            }
            self.elements.insert(pos, x);
            proof {
                let s = self.elements@;
                assert(s =~= sorted.insert(pos as int, x));
                assert forall|i: int, j: int| 0 <= i < j < s.len() implies due_key(s[i])
                    <= due_key(s[j]) by {
                    if pos < sorted.len() {
                        assert(due_key(sorted[pos as int]) >= key);
                    }
                }
                assert(self.elements@.to_multiset().add(rest@.to_multiset())
                    =~= old(self).elements@.to_multiset());
                assert forall|k: u32|
                    #[trigger] with_due_key(old(self).elements@, k) == with_due_key(rest@, k)
                        + with_due_key(self.elements@, k) by {
                    let p = |e: AppElement| due_key(e) == k;
                    lemma_filter_insert(sorted, pos as int, x, p);
                    lemma_filter_single(x, p);
                    Seq::filter_distributes_over_add(rest@, seq![x], p);
                    assert(before =~= rest@ + seq![x]);
                    let lo = sorted.subrange(0, pos as int);
                    let hi = sorted.subrange(pos as int, sorted.len() as int);
                    if k == key {
                        lemma_filter_none(lo, p);
                        assert(Seq::<AppElement>::empty() + seq![x] + hi.filter(p) =~= seq![x]
                            + (Seq::<AppElement>::empty() + hi.filter(p)));
                        assert(rest@.filter(p) + seq![x] + with_due_key(sorted, k) =~= rest@.filter(p)
                            + (seq![x] + with_due_key(sorted, k)));
                    } else {
                        assert(lo.filter(p) + Seq::<AppElement>::empty() =~= lo.filter(p));
                        assert(rest@.filter(p) + Seq::<AppElement>::empty() =~= rest@.filter(p));
                    }
                }
            }
        }
        proof {
            assert(rest@ =~= Seq::<AppElement>::empty());
            assert forall|k: u32|
                #[trigger] with_due_key(self.elements@, k) == with_due_key(old(self).elements@, k) by {
                lemma_filter_empty(rest@, |e: AppElement| due_key(e) == k);
                assert(Seq::<AppElement>::empty() + with_due_key(self.elements@, k) =~= with_due_key(self.elements@, k));
            }
            assert(rest@.to_multiset() =~= Multiset::empty());
            assert(self.elements@.to_multiset() =~= old(self).elements@.to_multiset());
        }
    }

    /// Makes `records` the collection, ordered by nominal due time.
    pub fn replace(&mut self, records: Vec<AppElement>)
        ensures
            final(self).config == old(self).config,
            sorted_by_due(final(self).elements@),
            final(self).elements@.to_multiset() == records@.to_multiset(),
            forall|k: u32|
                #[trigger] with_due_key(final(self).elements@, k) == with_due_key(records@, k),
    {
        self.elements = records;
        self.sort_by_due();
    }

    /// Sets every record's effective time from the given next occurrences of
    /// their recurrence rules, one per record, in order.
    pub fn compute_takes_place_with(&mut self, next: &Vec<Option<i64>>)
        requires
            next.len() == old(self).elements.len(),
        ensures
            final(self).config == old(self).config,
            final(self).elements.len() == old(self).elements.len(),
            forall|i: int|
                0 <= i < old(self).elements.len() ==> #[trigger] final(self).elements[i]
                    == with_effective(
                    old(self).elements[i],
                    effective_time(
                        old(self).elements[i].due,
                        next[i],
                        lead_minutes(old(self).elements[i]),
                    ),
                ),
    {
        let n = self.elements.len();
        let mut i: usize = 0;
        while i < n
            invariant
                self.config == old(self).config,
                self.elements.len() == n,
                n == old(self).elements.len(),
                n == next.len(),
                i <= n,
                forall|k: int|
                    0 <= k < i ==> #[trigger] self.elements[k] == with_effective(
                        old(self).elements[k],
                        effective_time(
                            old(self).elements[k].due,
                            next[k],
                            lead_minutes(old(self).elements[k]),
                        ),
                    ),
                forall|k: int| i <= k < n ==> #[trigger] self.elements[k] == old(self).elements[k],
            decreases n - i,
        {
            let t = self.elements[i].effective_time_with(next[i]);
            self.elements[i].takes_place_on = t;
            i = i + 1;
        }
    }

    /// Computes every record's effective time, with recurrence rules expanded
    /// after `now` (seconds since the epoch). A `now` before the epoch or past
    /// the year 9999 expands no rule.
    pub fn compute_takes_place(&mut self, now: i64)
        ensures
            final(self).config == old(self).config,
            computed_all(old(self).elements@, final(self).elements@),
            !(0 <= now <= LATEST_SUPPORTED_TIME) ==> forall|i: int|
                0 <= i < old(self).elements.len() ==> #[trigger] final(self).elements@[i]
                    == with_effective(old(self).elements@[i], plain_effective(old(self).elements@[i])),
    {
        let n = self.elements.len();
        let mut i: usize = 0;
        while i < n
            invariant
                self.config == old(self).config,
                self.elements.len() == n,
                n == old(self).elements.len(),
                i <= n,
                forall|k: int|
                    0 <= k < i ==> computed_one(old(self).elements[k], #[trigger] self.elements[k]),
                !(0 <= now <= LATEST_SUPPORTED_TIME) ==> forall|k: int|
                    0 <= k < i ==> #[trigger] self.elements[k] == with_effective(
                        old(self).elements[k],
                        plain_effective(old(self).elements[k]),
                    ),
                forall|k: int| i <= k < n ==> #[trigger] self.elements[k] == old(self).elements[k],
            decreases n - i,
        {
            let next = match &self.elements[i].repeats {
                Some(rule) => if 0 <= now && now <= LATEST_SUPPORTED_TIME {
                    next_occurrence(rule.as_str(), now)
                } else {
                    None
                },
                None => None,
            };
            let t = self.elements[i].effective_time_with(next);
            let ghost o = self.elements[i as int];
            self.elements[i].takes_place_on = t;
            proof {
                if let Some(v) = next {
                    assert(self.elements[i as int] == with_effective(
                        o,
                        effective_time(o.due, Some(v), lead_minutes(o)),
                    ));
                }
            }
            i = i + 1;
        }
        proof {
            assert forall|k: int| 0 <= k < n implies computed_one(
                old(self).elements@[k],
                #[trigger] self.elements@[k],
            ) by {
                assert(self.elements[k] == self.elements@[k]);
            }
        }
    }

    /// Whether some record carries an alert and has its effective time within
    /// `minutes` minutes from `now`, the start included and the end excluded.
    pub fn alert_within(&self, minutes: u16, now: u32) -> (r: bool)
        ensures
            r == any_in_alert_window(self.elements@, now, minutes),
    {
        let end: u64 = now as u64 + minutes as u64 * 60;
        let mut i: usize = 0;
        while i < self.elements.len()
            invariant
                i <= self.elements.len(),
                end == now as int + minutes as int * 60,
                forall|k: int| 0 <= k < i ==> !in_alert_window(#[trigger] self.elements@[k], now, minutes),
            decreases self.elements.len() - i,
        {
            let e = &self.elements[i];
            if e.alert.is_some() {
                if let Some(t) = e.takes_place_on {
                    if now <= t && (t as u64) < end {
                        assert(in_alert_window(self.elements@[i as int], now, minutes));
                        return true;
                    }
                }
            }
            i = i + 1;
        }
        false
    }

    /// Computes effective times at `now`, then tells whether an alert is due
    /// within `minutes` minutes from `now`.
    pub fn needs_trigger_at(&mut self, minutes: u16, now: u32) -> (r: bool)
        ensures
            final(self).config == old(self).config,
            computed_all(old(self).elements@, final(self).elements@),
            r == any_in_alert_window(final(self).elements@, now, minutes),
    {
        self.compute_takes_place(now as i64);
        self.alert_within(minutes, now)
    }

    /// `needs_trigger_at` at the current time; a clock outside the range of
    /// `u32` counts as zero.
    pub fn needs_trigger(&mut self, minutes: u16) -> (r: bool)
        ensures
            final(self).config == old(self).config,
            computed_all(old(self).elements@, final(self).elements@),
            exists|now: u32| r == any_in_alert_window(final(self).elements@, now, minutes),
    {
        let clock = clock_now();
        let now: u32 = if 0 <= clock && clock <= u32::MAX as i64 {
            clock as u32
        } else {
            0
        };
        self.needs_trigger_at(minutes, now)
    }

    /// The records whose effective time lies in `[start, end]`, ascending by
    /// effective time, records of equal time in collection order.
    pub fn due_between(&self, start: u32, end: u32) -> (r: Vec<&AppElement>)
        ensures
            sorted_by_time(deref_all(r@)),
            deref_all(r@).to_multiset() == within_span(self.elements@, start, end).to_multiset(),
            forall|k: u32|
                #[trigger] with_time_key(deref_all(r@), k) == with_time_key(
                    within_span(self.elements@, start, end),
                    k,
                ),
            forall|x: AppElement| #[trigger]
                deref_all(r@).contains(x) <==> (self.elements@.contains(x) && in_span(
                    x,
                    start,
                    end,
                )),
    {
        let mut result: Vec<&AppElement> = Vec::new();
        let mut i: usize = 0;
        proof {
            assert(deref_all(result@) =~= Seq::<AppElement>::empty());
            assert(self.elements@.subrange(0, 0) =~= Seq::<AppElement>::empty());
            assert forall|k: u32|
                #[trigger] with_time_key(deref_all(result@), k) == with_time_key(
                    within_span(self.elements@.subrange(0, 0), start, end),
                    k,
                ) by {
                lemma_filter_empty(deref_all(result@), |e: AppElement| time_key(e) == k);
            }
        }
        while i < self.elements.len()
            invariant
                i <= self.elements.len(),
                sorted_by_time(deref_all(result@)),
                deref_all(result@).to_multiset() == within_span(
                    self.elements@.subrange(0, i as int),
                    start,
                    end,
                ).to_multiset(),
                forall|k: u32|
                    #[trigger] with_time_key(deref_all(result@), k) == with_time_key(
                        within_span(self.elements@.subrange(0, i as int), start, end),
                        k,
                    ),
            decreases self.elements.len() - i,
        {
            let e = &self.elements[i];
            proof {
                assert(self.elements@.subrange(0, i + 1).drop_last() =~= self.elements@.subrange(
                    0,
                    i as int,
                ));
            }
            match e.takes_place_on {
                Some(t) => {
                    if start <= t && t <= end {
                        let ghost prev = deref_all(result@);
                        let mut pos: usize = result.len();
                        while pos > 0 && result[pos - 1].time_or_zero() > t
                            invariant
                                deref_all(result@) == prev,
                                pos <= prev.len(),
                                forall|k: int| pos <= k < prev.len() ==> time_key(#[trigger] prev[k]) > t,
                            decreases pos,
                        {
                            pos = pos - 1;
                        }
                        result.insert(pos, e);
                        proof {
                            let s = deref_all(result@);
                            assert(s =~= prev.insert(pos as int, *e));
                            assert forall|a: int, b: int| 0 <= a < b < s.len() implies time_key(s[a])
                                <= time_key(s[b]) by {
                                if pos > 0 {
                                    assert(time_key(prev[pos - 1]) <= t);
                                }
                            }
                            let w = within_span(self.elements@.subrange(0, i as int), start, end);
                            assert(time_key(*e) == t);
                            assert forall|k: u32|
                                #[trigger] with_time_key(s, k) == with_time_key(w.push(*e), k) by {
                                let p = |y: AppElement| time_key(y) == k;
                                lemma_filter_insert(prev, pos as int, *e, p);
                                lemma_filter_single(*e, p);
                                Seq::filter_distributes_over_add(w, seq![*e], p);
                                assert(w.push(*e) =~= w + seq![*e]);
                                let lo = prev.subrange(0, pos as int);
                                let hi = prev.subrange(pos as int, prev.len() as int);
                                assert(with_time_key(prev, k) == with_time_key(w, k));
                                if k == t {
                                    assert forall|j: int| 0 <= j < hi.len() implies !p(
                                        #[trigger] hi[j],
                                    ) by {
                                        assert(hi[j] == prev[pos + j]);
                                    }
                                    lemma_filter_none(hi, p);
                                    assert(lo.filter(p) + seq![*e] + Seq::<AppElement>::empty()
                                        =~= (lo.filter(p) + Seq::<AppElement>::empty()) + seq![*e]);
                                } else {
                                    assert(lo.filter(p) + Seq::<AppElement>::empty() + hi.filter(p)
                                        =~= lo.filter(p) + hi.filter(p));
                                    assert(w.filter(p) + Seq::<AppElement>::empty() =~= w.filter(p));
                                }
                            }
                        }
                    }
                },
                None => {},
            }
            i = i + 1;
        }
        proof {
            assert(self.elements@.subrange(0, i as int) =~= self.elements@);
            assert forall|x: AppElement| #[trigger]
                deref_all(result@).contains(x) <==> (self.elements@.contains(x) && in_span(
                    x,
                    start,
                    end,
                )) by {
                lemma_within_span_contains(self.elements@, start, end, x);
                vstd::seq_lib::to_multiset_contains(deref_all(result@), x);
                vstd::seq_lib::to_multiset_contains(within_span(self.elements@, start, end), x);
            }
        }
        result
    }

    /// The records due on a local day whose first and last second (23:59:59)
    /// are `first` and `last`, as `due_between` gives them; none where either is
    /// unknown.
    pub fn today_from_bounds(&self, first: Option<i64>, last: Option<i64>) -> (r: Vec<&AppElement>)
        ensures
            sorted_by_time(deref_all(r@)),
            is_today_result(deref_all(r@), self.elements@, first, last),
    {
        match (first, last) {
            (Some(first), Some(last)) => {
                let start: u32 = if 0 <= first && first <= u32::MAX as i64 {
                    first as u32
                } else {
                    0
                };
                let end: u32 = if 0 <= last && last <= u32::MAX as i64 {
                    last as u32
                } else {
                    u32::MAX
                };
                self.due_between(start, end)
            },
            _ => Vec::new(),
        }
    }

    /// Computes effective times at `now`, then returns the records due on the
    /// local calendar day that holds `now`, ascending by effective time. The
    /// day runs from its first second that exists locally (midnight, or the
    /// first second after a clock change that skips it) to its last (23:59:59,
    /// or the last second before a skipped end). A `now` before the epoch or
    /// past the year 9999 has no local day here, and nothing is due.
    pub fn get_today_at(&mut self, now: i64) -> (r: Vec<&AppElement>)
        ensures
            final(self).config == old(self).config,
            computed_all(old(self).elements@, final(self).elements@),
            sorted_by_time(deref_all(r@)),
            exists|first: Option<i64>, last: Option<i64>|
                is_today_result(deref_all(r@), final(self).elements@, first, last),
            !(0 <= now <= LATEST_SUPPORTED_TIME) ==> r@.len() == 0,
    {
        self.compute_takes_place(now);
        if 0 <= now && now <= LATEST_SUPPORTED_TIME {
            let first = first_local_second(now);
            let last = last_local_second(now);
            self.today_from_bounds(first, last)
        } else {
            let r = self.today_from_bounds(None, None);
            assert(is_today_result(deref_all(r@), self.elements@, None, None));
            r
        }
    }

    /// `get_today_at` at the current time.
    pub fn get_today(&mut self) -> (r: Vec<&AppElement>)
        ensures
            final(self).config == old(self).config,
            computed_all(old(self).elements@, final(self).elements@),
            sorted_by_time(deref_all(r@)),
            exists|first: Option<i64>, last: Option<i64>|
                is_today_result(deref_all(r@), final(self).elements@, first, last),
    {
        let now = clock_now();
        self.get_today_at(now)
    }
}

} // verus!
