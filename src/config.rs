use vstd::prelude::*;

use std::path::PathBuf;

use crate::error::{Fault, ScheduleError};
use crate::time::{minute_of_day_of, parse_time, Time, Weekday};

verus! {

#[verifier::external_type_specification]
#[verifier::external_body]
pub struct ExPathBuf(PathBuf);

/// General settings: the lateness tolerance in minutes and the browser command.
#[derive(Clone, Debug)]
pub struct Settings {
    pub time: u32,
    pub browser: String,
}

/// A weekly schedule: for each weekday, its slots as pairs of a clock-time string
/// and a meeting name or alias, in the order in which they were written.
#[derive(Clone, Debug)]
pub struct Schedule {
    pub monday: Option<Vec<(String, String)>>,
    pub tuesday: Option<Vec<(String, String)>>,
    pub wednesday: Option<Vec<(String, String)>>,
    pub thursday: Option<Vec<(String, String)>>,
    pub friday: Option<Vec<(String, String)>>,
    pub saturday: Option<Vec<(String, String)>>,
    pub sunday: Option<Vec<(String, String)>>,
}

/// A meeting of the directory: its name, its default URL, its aliases, and a URL for
/// each weekday on which the default does not apply.
#[derive(Clone, Debug)]
pub struct Meeting {
    pub name: String,
    pub url: String,
    pub aliases: Option<Vec<String>>,
    pub monday: Option<String>,
    pub tuesday: Option<String>,
    pub wednesday: Option<String>,
    pub thursday: Option<String>,
    pub friday: Option<String>,
    pub saturday: Option<String>,
    pub sunday: Option<String>,
}

/// A whole configuration: settings, weekly schedule and meeting directory.
#[derive(Clone, Debug)]
pub struct Config {
    pub settings: Settings,
    pub schedule: Schedule,
    pub meetings: Option<Vec<Meeting>>,
}

impl Schedule {
    pub open spec fn day_spec(&self, w: Weekday) -> Option<Vec<(String, String)>> {
        match w {
            Weekday::Mon => self.monday,
            Weekday::Tue => self.tuesday,
            Weekday::Wed => self.wednesday,
            Weekday::Thu => self.thursday,
            Weekday::Fri => self.friday,
            Weekday::Sat => self.saturday,
            Weekday::Sun => self.sunday,
        }
    }

    /// The slots of weekday `w`; none when the day is absent.
    pub open spec fn entries(&self, w: Weekday) -> Seq<(String, String)> {
        match self.day_spec(w) {
            Some(v) => v@,
            None => Seq::empty(),
        }
    }

    /// The slots of one weekday, as stored.
    pub fn day(&self, w: Weekday) -> (r: &Option<Vec<(String, String)>>)
        ensures
            *r == self.day_spec(w),
    {
        match w {
            Weekday::Mon => &self.monday,
            Weekday::Tue => &self.tuesday,
            Weekday::Wed => &self.wednesday,
            Weekday::Thu => &self.thursday,
            Weekday::Fri => &self.friday,
            Weekday::Sat => &self.saturday,
            Weekday::Sun => &self.sunday,
        }
    }
}

impl Meeting {
    pub open spec fn override_for(&self, w: Weekday) -> Option<String> {
        match w {
            Weekday::Mon => self.monday,
            Weekday::Tue => self.tuesday,
            Weekday::Wed => self.wednesday,
            Weekday::Thu => self.thursday,
            Weekday::Fri => self.friday,
            Weekday::Sat => self.saturday,
            Weekday::Sun => self.sunday,
        }
    }

    /// The effective URL on weekday `w`: its override if there is one, else the default.
    pub open spec fn url_for(&self, w: Weekday) -> Seq<char> {
        match self.override_for(w) {
            Some(u) => u@,
            None => self.url@,
        }
    }

    pub open spec fn alias_seq(&self) -> Seq<String> {
        match self.aliases {
            Some(v) => v@,
            None => Seq::empty(),
        }
    }

    /// `k` is this meeting's name or one of its aliases.
    pub open spec fn answers(&self, k: Seq<char>) -> bool {
        self.name@ == k || exists|i: int| 0 <= i < self.alias_seq().len() && self.alias_seq()[i]@ == k
    }

    /// The lookup keys of this meeting: its name, then its aliases in order.
    pub open spec fn keys(&self) -> Seq<Seq<char>> {
        seq![self.name@] + self.alias_seq().map_values(|a: String| a@)
    }

    /// Gets the URL of the meeting for a day of the week.
    pub fn get_url(&self, w: &Weekday) -> (r: String)
        ensures
            r@ == self.url_for(*w),
    {
        let weekday_specific = match w {
            Weekday::Sun => &self.sunday,
            Weekday::Mon => &self.monday,
            Weekday::Tue => &self.tuesday,
            Weekday::Wed => &self.wednesday,
            Weekday::Thu => &self.thursday,
            Weekday::Fri => &self.friday,
            Weekday::Sat => &self.saturday,
        };
        match weekday_specific {
            Some(url) => url.clone(),
            None => self.url.clone(),
        }
    }

    /// Whether `k` is this meeting's name or one of its aliases.
    pub fn answers_to(&self, k: &String) -> (r: bool)
        ensures
            r == self.answers(k@),
    {
        if self.name.eq(k) {
            return true;
        }
        match &self.aliases {
            None => false,
            Some(v) => {
                let mut i: usize = 0;
                while i < v.len()
                    invariant
                        i <= v@.len(),
                        self.alias_seq() == v@,
                        self.name@ != k@,
                        forall|j: int| 0 <= j < i ==> v@[j]@ != k@,
                    decreases v.len() - i,
                {
                    if v[i].eq(k) {
                        return true;
                    }
                    i += 1;
                }
                false
            },
        }
    }
}

/// Index of the meeting that `k` resolves to: the last one in the directory that
/// answers to it, as with a map filled in directory order.
pub open spec fn lookup(ms: Seq<Meeting>, k: Seq<char>) -> Option<int>
    decreases ms.len(),
{
    if ms.len() == 0 {
        None
    } else if ms.last().answers(k) {
        Some(ms.len() - 1)
    } else {
        lookup(ms.drop_last(), k)
    }
}

/// Every lookup key of the directory, meeting by meeting, name before aliases.
pub open spec fn all_keys(ms: Seq<Meeting>) -> Seq<Seq<char>>
    decreases ms.len(),
{
    if ms.len() == 0 {
        Seq::empty()
    } else {
        all_keys(ms.drop_last()) + ms.last().keys()
    }
}

/// Every time string of the slots parses.
pub open spec fn all_parse(es: Seq<(String, String)>) -> bool {
    forall|i: int| 0 <= i < es.len() ==> parse_time(#[trigger] es[i].0@) is Some
}

/// Slot `i` holds the first time string that does not parse.
pub open spec fn first_unparsable(es: Seq<(String, String)>, i: int) -> bool {
    0 <= i < es.len() && parse_time(es[i].0@) is None && forall|j: int|
        0 <= j < i ==> parse_time(#[trigger] es[j].0@) is Some
}

/// The slot selected at time `limit` (now plus tolerance): among the slots that start
/// no later than `limit`, one with the latest start, and of those the last written.
pub open spec fn pick(es: Seq<(String, String)>, limit: int) -> Option<int>
    decreases es.len(),
{
    if es.len() == 0 {
        None
    } else {
        let b = pick(es.drop_last(), limit);
        let m = minute_of_day_of(es.last().0@);
        if m <= limit && match b {
            Some(j) => minute_of_day_of(es[j].0@) <= m,
            None => true,
        } {
            Some(es.len() - 1)
        } else {
            b
        }
    }
}

proof fn lemma_pick_bounds(es: Seq<(String, String)>, limit: int)
    ensures
        pick(es, limit) matches Some(i) ==> 0 <= i < es.len() && minute_of_day_of(es[i].0@)
            <= limit,
    decreases es.len(),
{
    if es.len() > 0 {
        lemma_pick_bounds(es.drop_last(), limit);
    }
}

impl Config {
    /// The meetings of the directory; none when it is absent.
    pub open spec fn directory(&self) -> Seq<Meeting> {
        match self.meetings {
            Some(v) => v@,
            None => Seq::empty(),
        }
    }

    /// The effective URL on weekday `w` of the meeting that `k` names, if any.
    pub open spec fn url_of(&self, k: Seq<char>, w: Weekday) -> Option<Seq<char>> {
        match lookup(self.directory(), k) {
            Some(i) => Some(self.directory()[i].url_for(w)),
            None => None,
        }
    }

    /// What resolving on weekday `today` at time `limit` (now plus tolerance) gives: the
    /// first unparsable time string of the day as an error; else nothing when no slot
    /// qualifies; else the selected slot's meeting URL for `today`, or an error when the
    /// slot names no meeting.
    pub open spec fn resolution(
        &self,
        today: Weekday,
        limit: int,
        r: Result<Option<String>, ScheduleError>,
    ) -> bool {
        let es = self.schedule.entries(today);
        if !all_parse(es) {
            r matches Err(e) && exists|i: int|
                first_unparsable(es, i) && e@ == Fault::UnparsableTime(es[i].0@)
        } else {
            match pick(es, limit) {
                None => r matches Ok(None),
                Some(i) => match self.url_of(es[i].1@, today) {
                    Some(u) => (r matches Ok(Some(x)) && x@ == u),
                    None => (r matches Err(e) && e@ == Fault::DanglingReference(es[i].1@)),
                },
            }
        }
    }

    /// Finds the meeting that a name or alias resolves to.
    pub fn find_meeting(&self, k: &String) -> (r: Option<usize>)
        ensures
            r matches Some(i) ==> lookup(self.directory(), k@) == Some(i as int) && i
                < self.directory().len(),
            r is None ==> lookup(self.directory(), k@) is None,
    {
        match &self.meetings {
            None => None,
            Some(ms) => {
                let mut i: usize = ms.len();
                proof {
                    assert(ms@.take(i as int) =~= ms@);
                }
                while i > 0
                    invariant
                        i <= ms@.len(),
                        self.directory() == ms@,
                        lookup(ms@, k@) == lookup(ms@.take(i as int), k@),
                    decreases i,
                {
                    proof {
                        assert(ms@.take(i as int).drop_last() =~= ms@.take(i - 1));
                    }
                    if ms[i - 1].answers_to(k) {
                        return Some(i - 1);
                    }
                    i -= 1;
                }
                None
            },
        }
    }

    /// The minute of day and meeting of each slot of weekday `w`, in schedule order;
    /// fails on the first time string that does not parse.
    pub fn meetings_today(&self, w: Weekday) -> (r: Result<Vec<(u32, String)>, ScheduleError>)
        ensures
            r is Ok <==> all_parse(self.schedule.entries(w)),
            r matches Ok(v) ==> v@.len() == self.schedule.entries(w).len() && forall|i: int|
                0 <= i < v@.len() ==> (#[trigger] v@[i]).0 as int == minute_of_day_of(
                    self.schedule.entries(w)[i].0@,
                ) && v@[i].1@ == self.schedule.entries(w)[i].1@,
            r matches Err(e) ==> exists|i: int|
                first_unparsable(self.schedule.entries(w), i) && e@ == Fault::UnparsableTime(
                    self.schedule.entries(w)[i].0@,
                ),
    {
        let mut out: Vec<(u32, String)> = Vec::new();
        match self.schedule.day(w) {
            None => Ok(out),
            Some(es) => {
                let mut i: usize = 0;
                while i < es.len()
                    invariant
                        i <= es@.len(),
                        self.schedule.entries(w) == es@,
                        out@.len() == i,
                        forall|j: int| 0 <= j < i ==> parse_time(#[trigger] es@[j].0@) is Some,
                        forall|j: int|
                            0 <= j < i ==> (#[trigger] out@[j]).0 as int == minute_of_day_of(
                                es@[j].0@,
                            ) && out@[j].1@ == es@[j].1@,
                    decreases es.len() - i,
                {
                    match Time::from(es[i].0.clone()) {
                        Ok(t) => {
                            out.push((t.to_int(), es[i].1.clone()));
                        },
                        Err(e) => {
                            assert(first_unparsable(es@, i as int));
                            return Err(e);
                        },
                    }
                    i += 1;
                }
                Ok(out)
            },
        }
    }

    /// The URL of the meeting to join now: of today's slots that start no later than
    /// `now + tolerance`, one with the latest start, the last written on a tie.
    /// `Ok(None)` when no slot qualifies.
    pub fn resolve_now(&self, today: Weekday, now: u32, tolerance: u32) -> (r: Result<
        Option<String>,
        ScheduleError,
    >)
        ensures
            self.resolution(today, now + tolerance, r),
    {
        let ghost es = self.schedule.entries(today);
        let ghost limit = now + tolerance;
        let slots = match self.meetings_today(today) {
            Ok(v) => v,
            Err(e) => return Err(e),
        };
        let limit_exec: u64 = now as u64 + tolerance as u64;
        let mut best: Option<usize> = None;
        let mut i: usize = 0;
        while i < slots.len()
            invariant
                i <= slots@.len(),
                slots@.len() == es.len(),
                limit_exec == limit,
                forall|j: int|
                    0 <= j < slots@.len() ==> (#[trigger] slots@[j]).0 as int == minute_of_day_of(
                        es[j].0@,
                    ) && slots@[j].1@ == es[j].1@,
                best == match pick(es.take(i as int), limit) {
                    Some(j) => Some(j as usize),
                    None => None::<usize>,
                },
                best matches Some(b) ==> b < i,
            decreases slots.len() - i,
        {
            proof {
                let p = es.take(i + 1);
                assert(p.drop_last() =~= es.take(i as int));
                lemma_pick_bounds(es.take(i as int), limit);
                if let Some(b) = pick(es.take(i as int), limit) {
                    assert(p[b] == es[b]);
                }
            }
            let m = slots[i].0;
            let take = match best {
                None => m as u64 <= limit_exec,
                Some(b) => m as u64 <= limit_exec && slots[b].0 <= m,
            };
            if take {
                best = Some(i);
            }
            i += 1;
        }
        proof {
            assert(es.take(i as int) =~= es);
            lemma_pick_bounds(es, limit);
        }
        match best {
            None => Ok(None),
            Some(b) => match self.find_meeting(&slots[b].1) {
                None => Err(ScheduleError::DanglingReference(slots[b].1.clone())),
                Some(k) => {
                    let ms = self.meetings.as_ref().unwrap();
                    Ok(Some(ms[k].get_url(&today)))
                },
            },
        }
    }
}


/// Key `j` repeats a key that comes before it.
pub open spec fn dup_at(ks: Seq<Seq<char>>, j: int) -> bool {
    exists|i: int| 0 <= i < j && ks[i] == ks[j]
}

/// Key `j` is the first key that repeats an earlier one.
pub open spec fn first_dup(ks: Seq<Seq<char>>, j: int) -> bool {
    0 <= j < ks.len() && dup_at(ks, j) && forall|j2: int| 0 <= j2 < j ==> !dup_at(ks, j2)
}

/// No key occurs twice.
pub open spec fn distinct_keys(ks: Seq<Seq<char>>) -> bool {
    forall|j: int| 0 <= j < ks.len() ==> !dup_at(ks, j)
}

/// A scheduled slot: its weekday, time string and meeting name or alias.
pub type SlotView = (Weekday, Seq<char>, Seq<char>);

pub open spec fn slot_views(v: Seq<(Weekday, String, String)>) -> Seq<SlotView> {
    v.map_values(|t: (Weekday, String, String)| (t.0, t.1@, t.2@))
}

pub open spec fn day_views(es: Seq<(String, String)>, w: Weekday) -> Seq<SlotView> {
    es.map_values(|e: (String, String)| (w, e.0@, e.1@))
}

/// Every time string of the slots parses.
pub open spec fn times_ok(sl: Seq<SlotView>) -> bool {
    forall|i: int| 0 <= i < sl.len() ==> parse_time(#[trigger] sl[i].1) is Some
}

/// Slot `i` holds the first time string that does not parse.
pub open spec fn first_bad_time(sl: Seq<SlotView>, i: int) -> bool {
    0 <= i < sl.len() && parse_time(sl[i].1) is None && forall|j: int|
        0 <= j < i ==> parse_time(#[trigger] sl[j].1) is Some
}

/// Every slot names a meeting of the directory.
pub open spec fn refs_ok(ms: Seq<Meeting>, sl: Seq<SlotView>) -> bool {
    forall|i: int| 0 <= i < sl.len() ==> lookup(ms, #[trigger] sl[i].2) is Some
}

/// Slot `i` is the first to name no meeting of the directory.
pub open spec fn first_bad_ref(ms: Seq<Meeting>, sl: Seq<SlotView>, i: int) -> bool {
    0 <= i < sl.len() && lookup(ms, sl[i].2) is None && forall|j: int|
        0 <= j < i ==> lookup(ms, #[trigger] sl[j].2) is Some
}

/// The error that reports the first repeated key.
pub open spec fn alias_fault(ks: Seq<Seq<char>>, e: Fault) -> bool {
    exists|j: int| first_dup(ks, j) && e == Fault::DuplicateAlias(ks[j])
}

/// The error that reports the first slot naming no meeting.
pub open spec fn ref_fault(ms: Seq<Meeting>, sl: Seq<SlotView>, e: Fault) -> bool {
    exists|i: int| first_bad_ref(ms, sl, i) && e == Fault::UnknownMeetingReference(sl[i].0, sl[i].2)
}

/// The error that reports the first slot whose time string does not parse.
pub open spec fn time_fault(sl: Seq<SlotView>, e: Fault) -> bool {
    exists|i: int| first_bad_time(sl, i) && e == Fault::InvalidTimeString(sl[i].0, sl[i].1)
}

fn push_day(out: &mut Vec<(Weekday, String, String)>, w: Weekday, day: &Option<Vec<(String, String)>>)
    ensures
        slot_views(final(out)@) == slot_views(old(out)@) + day_views(
            match day {
                Some(v) => v@,
                None => Seq::empty(),
            },
            w,
        ),
{
    if let Some(es) = day {
        let mut i: usize = 0;
        while i < es.len()
            invariant
                i <= es@.len(),
                slot_views(out@) =~= slot_views(old(out)@) + day_views(es@.take(i as int), w),
            decreases es.len() - i,
        {
            let ghost prev = out@;
            out.push((w, es[i].0.clone(), es[i].1.clone()));
            proof {
                assert(slot_views(out@) =~= slot_views(prev).push(
                    (w, es@[i as int].0@, es@[i as int].1@),
                ));
                assert(day_views(es@.take(i + 1), w) =~= day_views(es@.take(i as int), w).push(
                    (w, es@[i as int].0@, es@[i as int].1@),
                ));
            }
            i += 1;
        }
        proof {
            assert(es@.take(i as int) =~= es@);
        }
    } else {
        assert(day_views(Seq::empty(), w) =~= Seq::empty());
        assert(slot_views(out@) + Seq::empty() =~= slot_views(out@));
    }
}

impl Schedule {
    /// Every slot of the week, Monday to Sunday, each day's in written order.
    pub open spec fn week(&self) -> Seq<SlotView> {
        day_views(self.entries(Weekday::Mon), Weekday::Mon) + day_views(
            self.entries(Weekday::Tue),
            Weekday::Tue,
        ) + day_views(self.entries(Weekday::Wed), Weekday::Wed) + day_views(
            self.entries(Weekday::Thu),
            Weekday::Thu,
        ) + day_views(self.entries(Weekday::Fri), Weekday::Fri) + day_views(
            self.entries(Weekday::Sat),
            Weekday::Sat,
        ) + day_views(self.entries(Weekday::Sun), Weekday::Sun)
    }

    /// Lists every slot of the week with its weekday, Monday to Sunday.
    pub fn slots(&self) -> (r: Vec<(Weekday, String, String)>)
        ensures
            slot_views(r@) == self.week(),
    {
        let mut out: Vec<(Weekday, String, String)> = Vec::new();
        assert(slot_views(out@) =~= Seq::empty());
        push_day(&mut out, Weekday::Mon, &self.monday);
        push_day(&mut out, Weekday::Tue, &self.tuesday);
        push_day(&mut out, Weekday::Wed, &self.wednesday);
        push_day(&mut out, Weekday::Thu, &self.thursday);
        push_day(&mut out, Weekday::Fri, &self.friday);
        push_day(&mut out, Weekday::Sat, &self.saturday);
        push_day(&mut out, Weekday::Sun, &self.sunday);
        assert(slot_views(out@) =~= self.week());
        out
    }

    /// Checks that every time string of the schedule is a clock time; reports the first
    /// one that is not.
    pub fn check_schedule(&self) -> (r: Result<(), ScheduleError>)
        ensures
            r is Ok <==> times_ok(self.week()),
            r matches Err(e) ==> time_fault(self.week(), e@),
    {
        let sl = self.slots();
        let ghost sv = self.week();
        let mut i: usize = 0;
        while i < sl.len()
            invariant
                i <= sl@.len(),
                slot_views(sl@) == sv,
                sv == self.week(),
                sv.len() == sl@.len(),
                forall|j: int| 0 <= j < i ==> parse_time(#[trigger] sv[j].1) is Some,
            decreases sl.len() - i,
        {
            assert(sv[i as int] == (sl@[i as int].0, sl@[i as int].1@, sl@[i as int].2@));
            if Time::from(sl[i].1.clone()).is_err() {
                assert(parse_time(sv[i as int].1) is None);
                assert(first_bad_time(sv, i as int));
                let e = ScheduleError::InvalidTimeString(sl[i].0, sl[i].1.clone());
                assert(e@ == Fault::InvalidTimeString(sv[i as int].0, sv[i as int].1));
                assert(time_fault(sv, e@));
                return Err(e);
            }
            i += 1;
        }
        Ok(())
    }
}

impl Config {
    /// Every lookup key of the directory.
    pub open spec fn keys(&self) -> Seq<Seq<char>> {
        all_keys(self.directory())
    }

    /// Lists every meeting name and alias, meeting by meeting, name first.
    pub fn lookup_keys(&self) -> (r: Vec<String>)
        ensures
            r@.map_values(|k: String| k@) == self.keys(),
    {
        let mut out: Vec<String> = Vec::new();
        let ghost ms = self.directory();
        if let Some(v) = &self.meetings {
            let mut i: usize = 0;
            assert(out@.map_values(|k: String| k@) =~= all_keys(ms.take(0)));
            while i < v.len()
                invariant
                    i <= v@.len(),
                    ms == v@,
                    out@.map_values(|k: String| k@) == all_keys(ms.take(i as int)),
                decreases v.len() - i,
            {
                let m = &v[i];
                let ghost base = out@.map_values(|k: String| k@);
                out.push(m.name.clone());
                let ghost ali = m.alias_seq();
                if let Some(a) = &m.aliases {
                    let mut j: usize = 0;
                    while j < a.len()
                        invariant
                            j <= a@.len(),
                            ali == a@,
                            out@.map_values(|k: String| k@) =~= base + seq![m.name@]
                                + ali.take(j as int).map_values(|k: String| k@),
                        decreases a.len() - j,
                    {
                        let ghost prev = out@;
                        out.push(a[j].clone());
                        proof {
                            assert(out@.map_values(|k: String| k@) =~= prev.map_values(
                                |k: String| k@,
                            ).push(a@[j as int]@));
                            assert(ali.take(j + 1).map_values(|k: String| k@) =~= ali.take(
                                j as int,
                            ).map_values(|k: String| k@).push(ali[j as int]@));
                        }
                        j += 1;
                    }
                    assert(ali.take(j as int) =~= ali);
                } else {
                    assert(out@.map_values(|k: String| k@) =~= base + seq![m.name@]
                        + ali.map_values(|k: String| k@));
                }
                proof {
                    assert(ms.take(i + 1).drop_last() =~= ms.take(i as int));
                    assert(m.keys() =~= seq![m.name@] + ali.map_values(|k: String| k@));
                }
                i += 1;
            }
            assert(ms.take(i as int) =~= ms);
        } else {
            assert(out@.map_values(|k: String| k@) =~= Seq::empty());
        }
        out
    }

    /// Checks that no meeting name or alias is used twice; reports the first repeat.
    pub fn check_aliases(&self) -> (r: Result<(), ScheduleError>)
        ensures
            r is Ok <==> distinct_keys(self.keys()),
            r matches Err(e) ==> alias_fault(self.keys(), e@),
    {
        let ks = self.lookup_keys();
        let ghost kv = self.keys();
        assert(kv.len() == ks@.len());
        let mut j: usize = 0;
        while j < ks.len()
            invariant
                j <= ks@.len(),
                kv == ks@.map_values(|k: String| k@),
                kv == self.keys(),
                kv.len() == ks@.len(),
                forall|j2: int| 0 <= j2 < j ==> !dup_at(kv, j2),
            decreases ks.len() - j,
        {
            let mut i: usize = 0;
            while i < j
                invariant
                    i <= j < ks@.len(),
                    kv == ks@.map_values(|k: String| k@),
                    kv == self.keys(),
                    kv.len() == ks@.len(),
                    forall|j2: int| 0 <= j2 < j ==> !dup_at(kv, j2),
                    forall|i2: int| 0 <= i2 < i ==> kv[i2] != kv[j as int],
                decreases j - i,
            {
                assert(kv[i as int] == ks@[i as int]@ && kv[j as int] == ks@[j as int]@);
                if ks[i].eq(&ks[j]) {
                    assert(dup_at(kv, j as int));
                    assert(first_dup(kv, j as int));
                    let e = ScheduleError::DuplicateAlias(ks[j].clone());
                    assert(alias_fault(kv, e@));
                    return Err(e);
                }
                i += 1;
            }
            assert(!dup_at(kv, j as int));
            j += 1;
        }
        Ok(())
    }

    /// Checks that every slot of the schedule names a meeting of the directory;
    /// reports the first one that does not.
    pub fn check_meetings(&self) -> (r: Result<(), ScheduleError>)
        ensures
            r is Ok <==> refs_ok(self.directory(), self.schedule.week()),
            r matches Err(e) ==> ref_fault(self.directory(), self.schedule.week(), e@),
    {
        let sl = self.schedule.slots();
        let ghost sv = self.schedule.week();
        let ghost ms = self.directory();
        let mut i: usize = 0;
        while i < sl.len()
            invariant
                i <= sl@.len(),
                slot_views(sl@) == sv,
                sv == self.schedule.week(),
                sv.len() == sl@.len(),
                ms == self.directory(),
                forall|j: int| 0 <= j < i ==> lookup(ms, #[trigger] sv[j].2) is Some,
            decreases sl.len() - i,
        {
            assert(sv[i as int] == (sl@[i as int].0, sl@[i as int].1@, sl@[i as int].2@));
            if self.find_meeting(&sl[i].2).is_none() {
                assert(lookup(ms, sv[i as int].2) is None);
                assert(first_bad_ref(ms, sv, i as int));
                let e = ScheduleError::UnknownMeetingReference(sl[i].0, sl[i].2.clone());
                assert(e@ == Fault::UnknownMeetingReference(sv[i as int].0, sv[i as int].2));
                assert(ref_fault(ms, sv, e@));
                return Err(e);
            }
            i += 1;
        }
        Ok(())
    }

    /// Validates the configuration: unique names and aliases, then references from the
    /// schedule, then time strings; reports the first failure of the first check that
    /// fails.
    pub fn check_syntax(&self) -> (r: Result<(), ScheduleError>)
        ensures
            r is Ok <==> distinct_keys(self.keys()) && refs_ok(
                self.directory(),
                self.schedule.week(),
            ) && times_ok(self.schedule.week()),
            r matches Err(e) ==> if !distinct_keys(self.keys()) {
                alias_fault(self.keys(), e@)
            } else if !refs_ok(self.directory(), self.schedule.week()) {
                ref_fault(self.directory(), self.schedule.week(), e@)
            } else {
                time_fault(self.schedule.week(), e@)
            },
    {
        self.check_aliases()?;
        self.check_meetings()?;
        self.schedule.check_schedule()
    }

    /// The URL on weekday `w` of the meeting that a name or alias names.
    pub fn resolve_alias(&self, alias: &String, w: Weekday) -> (r: Result<String, ScheduleError>)
        ensures
            match self.url_of(alias@, w) {
                Some(u) => (r matches Ok(x) && x@ == u),
                None => (r matches Err(e) && e@ == Fault::UnknownAlias(alias@)),
            },
    {
        match self.find_meeting(alias) {
            None => Err(ScheduleError::UnknownAlias(alias.clone())),
            Some(k) => {
                let ms = self.meetings.as_ref().unwrap();
                Ok(ms[k].get_url(&w))
            },
        }
    }
}


/// Relies on `std::path::Path::exists`: whether something is at the path on disk. Nothing
/// is promised of the answer, which depends on the file system.
#[verifier::external_body]
fn path_exists(p: &PathBuf) -> bool {
    p.exists()
}

/// Whether a configuration file is present at `configpath`.
pub fn config_exists(configpath: &PathBuf) -> bool {
    path_exists(configpath)
}

/// `all_keys` of a prefix of the directory is a prefix of `all_keys` of the directory.
pub proof fn lemma_keys_prefix(ms: Seq<Meeting>, n: int)
    requires
        0 <= n <= ms.len(),
    ensures
        all_keys(ms.take(n)).len() <= all_keys(ms).len(),
        forall|p: int|
            0 <= p < all_keys(ms.take(n)).len() ==> all_keys(ms)[p] == all_keys(ms.take(n))[p],
    decreases ms.len(),
{
    if n == ms.len() {
        assert(ms.take(n) =~= ms);
    } else {
        let d = ms.drop_last();
        assert(ms.take(n) =~= d.take(n));
        lemma_keys_prefix(d, n);
    }
}

/// Each key of meeting `a` stands in the block of `all_keys` that meeting `a` fills.
proof fn lemma_key_position(ms: Seq<Meeting>, a: int, k: Seq<char>) -> (p: int)
    requires
        0 <= a < ms.len(),
        ms[a].answers(k),
    ensures
        all_keys(ms.take(a)).len() <= p < all_keys(ms.take(a + 1)).len(),
        p < all_keys(ms).len(),
        all_keys(ms)[p] == k,
{
    let t = ms.take(a + 1);
    assert(t.drop_last() =~= ms.take(a));
    assert(t.last() == ms[a]);
    let base = all_keys(ms.take(a));
    let ks = ms[a].keys();
    let q: int = if ms[a].name@ == k {
        0
    } else {
        let i = choose|i: int| 0 <= i < ms[a].alias_seq().len() && ms[a].alias_seq()[i]@ == k;
        i + 1
    };
    assert(ks[q] == k);
    lemma_keys_prefix(ms, a + 1);
    base.len() + q
}

/// Every key of the directory resolves to a meeting.
pub proof fn lemma_key_resolves(ms: Seq<Meeting>, p: int)
    requires
        0 <= p < all_keys(ms).len(),
    ensures
        lookup(ms, all_keys(ms)[p]) is Some,
    decreases ms.len(),
{
    let d = ms.drop_last();
    let n = all_keys(d).len();
    let k = all_keys(ms)[p];
    if p < n {
        lemma_key_resolves(d, p);
        assert(all_keys(d)[p] == k);
    } else {
        let q = p - n;
        let m = ms.last();
        assert(m.keys()[q] == k);
        if q > 0 {
            assert(m.alias_seq()[q - 1]@ == k);
        }
        assert(m.answers(k));
    }
}

/// Two different meetings that answer to the same key make the directory's keys
/// repeat, whichever of the two comes first.
pub proof fn lemma_shared_key_detected(ms: Seq<Meeting>, a: int, b: int, k: Seq<char>)
    requires
        0 <= a < ms.len(),
        0 <= b < ms.len(),
        a != b,
        ms[a].answers(k),
        ms[b].answers(k),
    ensures
        !distinct_keys(all_keys(ms)),
{
    let (lo, hi) = if a < b {
        (a, b)
    } else {
        (b, a)
    };
    let p = lemma_key_position(ms, lo, k);
    let q = lemma_key_position(ms, hi, k);
    let t = ms.take(hi);
    assert(t.take(lo + 1) =~= ms.take(lo + 1));
    lemma_keys_prefix(t, lo + 1);
    assert(dup_at(all_keys(ms), q));
}

/// A meeting's URL on a weekday is that day's override when it has one, and its
/// default URL on every other day.
pub proof fn lemma_weekday_override(m: Meeting, w: Weekday)
    ensures
        m.override_for(w) matches Some(u) ==> m.url_for(w) == u@,
        m.override_for(w) is None ==> m.url_for(w) == m.url@,
{
}

/// A weekday without slots selects nothing and reports no error.
pub proof fn lemma_empty_day(c: Config, today: Weekday, limit: int)
    requires
        c.schedule.entries(today).len() == 0,
    ensures
        forall|r: Result<Option<String>, ScheduleError>|
            c.resolution(today, limit, r) <==> r matches Ok(None),
{
}

impl Config {
    /// Creates the starting configuration: a five-minute tolerance, `firefox`, an
    /// empty slot list on every weekday, and one sample meeting with two aliases.
    pub fn default() -> (r: Config)
        ensures
            r.settings.time == 5,
            r.settings.browser@ == "firefox"@,
            forall|w: Weekday| #[trigger] r.schedule.day_spec(w) matches Some(v) && v@.len() == 0,
            r.directory().len() == 1,
            r.directory()[0].name@ == "sample"@,
            r.directory()[0].url@ == "https://www.youtube.com/watch?v=dQw4w9WgXcQ"@,
            r.directory()[0].alias_seq().len() == 2,
            r.directory()[0].alias_seq()[0]@ == "s"@,
            r.directory()[0].alias_seq()[1]@ == "sp"@,
            forall|w: Weekday| #[trigger] r.directory()[0].override_for(w) is None,
    {
        let mut aliases: Vec<String> = Vec::new();
        aliases.push("s".to_owned());
        aliases.push("sp".to_owned());
        let sample = Meeting {
            name: "sample".to_owned(),
            url: "https://www.youtube.com/watch?v=dQw4w9WgXcQ".to_owned(),
            aliases: Some(aliases),
            monday: None,
            tuesday: None,
            wednesday: None,
            thursday: None,
            friday: None,
            saturday: None,
            sunday: None,
        };
        let mut meetings: Vec<Meeting> = Vec::new();
        meetings.push(sample);
        Config {
            settings: Settings { browser: "firefox".to_owned(), time: 5 },
            schedule: Schedule {
                monday: Some(Vec::new()),
                tuesday: Some(Vec::new()),
                wednesday: Some(Vec::new()),
                thursday: Some(Vec::new()),
                friday: Some(Vec::new()),
                saturday: Some(Vec::new()),
                sunday: Some(Vec::new()),
            },
            meetings: Some(meetings),
        }
    }

    /// The browser command.
    pub fn browser(&self) -> (r: String)
        ensures
            r@ == self.settings.browser@,
    {
        self.settings.browser.clone()
    }

    /// The lateness tolerance, in minutes.
    pub fn time_threshold(&self) -> (r: u32)
        ensures
            r == self.settings.time,
    {
        self.settings.time
    }

    /// The weekly schedule.
    pub fn schedule(&self) -> (r: &Schedule)
        ensures
            r == &self.schedule,
    {
        &self.schedule
    }

    /// The meeting directory.
    pub fn meetings(&self) -> (r: &Option<Vec<Meeting>>)
        ensures
            r == &self.meetings,
    {
        &self.meetings
    }

    /// Each meeting name and alias, in directory order, with the URL on weekday `w` of
    /// the meeting it resolves to.
    pub fn aliases_to_hashmap(&self, w: Weekday) -> (r: Vec<(String, String)>)
        ensures
            r@.len() == self.keys().len(),
            forall|i: int|
                0 <= i < r@.len() ==> (#[trigger] r@[i]).0@ == self.keys()[i] && self.url_of(
                    self.keys()[i],
                    w,
                ) == Some(r@[i].1@),
    {
        let ks = self.lookup_keys();
        let ghost kv = self.keys();
        let mut out: Vec<(String, String)> = Vec::new();
        let mut i: usize = 0;
        while i < ks.len()
            invariant
                i <= ks@.len(),
                kv == ks@.map_values(|k: String| k@),
                kv == self.keys(),
                kv.len() == ks@.len(),
                out@.len() == i,
                forall|j: int|
                    0 <= j < i ==> (#[trigger] out@[j]).0@ == kv[j] && self.url_of(kv[j], w)
                        == Some(out@[j].1@),
            decreases ks.len() - i,
        {
            proof {
                assert(kv[i as int] == ks@[i as int]@);
                lemma_key_resolves(self.directory(), i as int);
            }
            let k = self.find_meeting(&ks[i]).unwrap();
            let ms = self.meetings.as_ref().unwrap();
            out.push((ks[i].clone(), ms[k].get_url(&w)));
            i += 1;
        }
        out
    }

    /// The URL of the meeting to join, by the local clock and weekday read now, with
    /// the configured tolerance.
    pub fn resolve_current(&self) -> (r: Result<Option<String>, ScheduleError>)
        ensures
            exists|w: Weekday, m: int|
                0 <= m < 1440 && #[trigger] self.resolution(w, m + self.settings.time, r),
    {
        let today = Weekday::today();
        let now = Time::now();
        let r = self.resolve_now(today, now, self.settings.time);
        assert(self.resolution(today, now + self.settings.time, r));
        r
    }
}

} // verus!
