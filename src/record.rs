use vstd::prelude::*;

verus! {

/// Optional preparation step attached to a record.
pub struct Preparation {
    pub description: Option<String>,
    /// Lead time in minutes.
    pub time: Option<u32>,
}

/// One task or event entry of the registry.
pub struct AppElement {
    /// Effective time, derived by the engine; `None` until computed.
    pub takes_place_on: Option<u32>,
    pub id: Option<u16>,
    pub title: String,
    pub description: String,
    pub due: Option<u32>,
    pub repeats: Option<String>,
    pub preparation: Option<Preparation>,
    pub location: Option<String>,
    pub alert: Option<String>,
}

/// The view of an optional string: its characters, or nothing.
pub open spec fn opt_text(s: Option<String>) -> Seq<char> {
    match s {
        Some(v) => v@,
        None => Seq::empty(),
    }
}

/// The key that orders records by nominal due time: a missing due time counts as zero.
pub open spec fn due_key(e: AppElement) -> u32 {
    match e.due {
        Some(d) => d,
        None => 0,
    }
}

/// The key that orders records by effective time: a missing one counts as zero.
pub open spec fn time_key(e: AppElement) -> u32 {
    match e.takes_place_on {
        Some(t) => t,
        None => 0,
    }
}

/// The preparation lead time in minutes, if the record has one.
pub open spec fn lead_minutes(e: AppElement) -> Option<u32> {
    match e.preparation {
        Some(p) => p.time,
        None => None,
    }
}

/// The nominal time of a record: its due time, or the earlier of its due time
/// and the next occurrence of its recurrence rule. An occurrence outside the
/// range of `u32` timestamps counts as no occurrence.
pub open spec fn nominal_time(due: Option<u32>, next: Option<i64>) -> Option<u32> {
    match next {
        Some(t) => if 0 <= t <= u32::MAX {
            match due {
                Some(d) => Some(if d <= t { d } else { t as u32 }),
                None => Some(t as u32),
            }
        } else {
            due
        },
        None => due,
    }
}

/// The effective time: the nominal time pulled earlier by the preparation lead.
/// A lead that reaches before the epoch leaves no effective time.
pub open spec fn effective_time(due: Option<u32>, next: Option<i64>, lead: Option<u32>) -> Option<u32> {
    match nominal_time(due, next) {
        None => None,
        Some(n) => match lead {
            None => Some(n),
            Some(m) => if m as int * 60 <= n as int {
                Some((n as int - m as int * 60) as u32)
            } else {
                None
            },
        },
    }
}

/// The record with its effective time set to `t` and every other field kept.
pub open spec fn with_effective(e: AppElement, t: Option<u32>) -> AppElement {
    AppElement { takes_place_on: t, ..e }
}

/// Whole minutes from `now` until `t`, rounded toward zero.
pub open spec fn minutes_between(now: int, t: int) -> int {
    let d = t - now;
    if d >= 0 {
        d / 60
    } else {
        -((-d) / 60)
    }
}

/// The nominal time behind an effective time `t`: the time with the
/// preparation lead added back.
pub open spec fn nominal_of(e: AppElement, t: u32) -> int {
    t as int + match lead_minutes(e) {
        Some(m) => m as int * 60,
        None => 0int,
    }
}

impl AppElement {
    /// A fresh record whose effective time has not been computed yet.
    pub fn new(
        id: Option<u16>,
        title: String,
        description: String,
        due: Option<u32>,
        repeats: Option<String>,
        preparation: Option<Preparation>,
        location: Option<String>,
        alert: Option<String>,
    ) -> (r: AppElement)
        ensures
            r.takes_place_on.is_none(),
            r.id == id,
            r.title == title,
            r.description == description,
            r.due == due,
            r.repeats == repeats,
            r.preparation == preparation,
            r.location == location,
            r.alert == alert,
    {
        AppElement {
            takes_place_on: None,
            id,
            title,
            description,
            due,
            repeats,
            preparation,
            location,
            alert,
        }
    }

    /// The location, or the empty string when there is none.
    pub fn location(&self) -> (r: &str)
        ensures
            r@ == opt_text(self.location),
    {
        match &self.location {
            Some(val) => val.as_str(),
            None => {
                proof {
                    reveal_strlit("");
                }
                ""
            },
        }
    }

    /// The nominal due time, with zero standing for a missing one.
    pub fn due_or_zero(&self) -> (r: u32)
        ensures
            r == due_key(*self),
    {
        match self.due {
            Some(d) => d,
            None => 0,
        }
    }

    /// The effective time, with zero standing for a missing one.
    pub fn time_or_zero(&self) -> (r: u32)
        ensures
            r == time_key(*self),
    {
        match self.takes_place_on {
            Some(t) => t,
            None => 0,
        }
    }

    /// The preparation lead time in minutes, if any.
    pub fn lead_time(&self) -> (r: Option<u32>)
        ensures
            r == lead_minutes(*self),
    {
        match &self.preparation {
            Some(p) => p.time,
            None => None,
        }
    }

    /// The effective time of this record, given the next occurrence of its
    /// recurrence rule (`None` where it has no usable rule or no occurrence).
    pub fn effective_time_with(&self, next: Option<i64>) -> (r: Option<u32>)
        ensures
            r == effective_time(self.due, next, lead_minutes(*self)),
    {
        let nominal: Option<u32> = match next {
            Some(t) => if 0 <= t && t <= u32::MAX as i64 {
                let n = t as u32;
                match self.due {
                    Some(d) => Some(if d <= n { d } else { n }),
                    None => Some(n),
                }
            } else {
                self.due
            },
            None => self.due,
        };
        match nominal {
            None => None,
            Some(n) => match self.lead_time() {
                None => Some(n),
                Some(m) => {
                    let lead: u64 = m as u64 * 60;
                    if lead <= n as u64 {
                        Some((n as u64 - lead) as u32)
                    } else {
                        None
                    }
                },
            },
        }
    }

    /// The nominal time behind the effective time: the effective time with the
    /// preparation lead added back.
    pub fn nominal_timestamp(&self) -> (r: Option<i64>)
        ensures
            r == match self.takes_place_on {
                Some(t) => Some(nominal_of(*self, t) as i64),
                None => None::<i64>,
            },
            r matches Some(n) ==> 0 <= n <= 300_000_000_000,
    {
        match self.takes_place_on {
            Some(t) => {
                let lead: i64 = match self.lead_time() {
                    Some(m) => m as i64 * 60,
                    None => 0,
                };
                Some(t as i64 + lead)
            },
            None => None,
        }
    }

    /// The local wall-clock time (`HH:MM`) at which the event itself takes
    /// place: the nominal time, with the preparation lead added back to the
    /// effective time. `None` before effective times are computed.
    ///
    /// Shown times and `timedelta` both speak of the event itself; the
    /// effective time (the time to start preparing) decides alerts and which
    /// records are due.
    pub fn timepoint(&self) -> (r: Option<String>)
        ensures
            self.takes_place_on.is_none() ==> r.is_none(),
            self.takes_place_on.is_some() ==> r.is_some(),
            r matches Some(s) ==> crate::clock::is_clock_text(s@),
    {
        match self.nominal_timestamp() {
            Some(ts) => crate::clock::local_clock_text(ts),
            None => None,
        }
    }

    /// Whole minutes from `now` until the event itself takes place (its
    /// nominal time, as `timepoint` shows it), rounded toward zero; `None`
    /// where there is no effective time.
    pub fn timedelta(&self, now: u32) -> (r: Option<i64>)
        ensures
            r == match self.takes_place_on {
                Some(t) => Some(minutes_between(now as int, nominal_of(*self, t)) as i64),
                None => None::<i64>,
            },
    {
        match self.nominal_timestamp() {
            Some(n) => {
                let d: i64 = n - now as i64;
                Some(d / 60)
            },
            None => None,
        }
    }

    pub fn description(&self) -> (r: &str)
        ensures
            r@ == self.description@,
    {
        self.description.as_str()
    }
}

/// Records are the same record when both carry an id and the ids agree; a
/// record without an id equals no record, itself included.
impl PartialEq for AppElement {
    fn eq(&self, other: &AppElement) -> (r: bool) {
        match self.id {
            Some(id) => match other.id {
                Some(o) => id == o,
                None => false,
            },
            None => false,
        }
    }
}

impl vstd::std_specs::cmp::PartialEqSpecImpl for AppElement {
    open spec fn obeys_eq_spec() -> bool {
        true
    }

    open spec fn eq_spec(&self, other: &AppElement) -> bool {
        self.id matches Some(id) && other.id == Some(id)
    }
}

} // verus!
