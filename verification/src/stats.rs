use vstd::prelude::*;

use crate::calendar::{
    lemma_date_text_injective, lemma_day_number_injective, lemma_month_prefix_matches_same_month,
    lemma_weekday_shift,
    add_days, date_text, day_number_in_range, format_date, weekday_from_monday,
    year_month_text, CalendarDate,
};
use crate::clock::{is_local_day_result, local_today};
use crate::text::{has_prefix, str_starts_with};

verus! {

/// One weekday of the usage popover: its name, its date, the report entry that
/// holds its cost (if any) and whether it is today.
#[derive(Debug)]
pub struct DayPlan {
    pub name: String,
    pub date: CalendarDate,
    pub entry: Option<usize>,
    pub is_today: bool,
}

/// What the usage popover shows, with each cost given as the index of the
/// daily report entry that holds it. The totals are the sums of those costs:
/// `month_entries` in order for the month, the seven days in order for the week.
#[derive(Debug)]
pub struct StatsPlan {
    pub available: bool,
    pub has_data: bool,
    pub month_entries: Vec<usize>,
    pub today_entry: Option<usize>,
    pub days: Vec<DayPlan>,
}

/// The index of the last entry whose period is `key`: the entry a map built
/// from the report in order keeps for that key.
pub open spec fn last_index_of(periods: Seq<String>, key: Seq<char>) -> Option<usize>
    decreases periods.len(),
{
    if periods.len() == 0 {
        None
    } else if periods.last()@ == key {
        Some((periods.len() - 1) as usize)
    } else {
        last_index_of(periods.drop_last(), key)
    }
}

/// The index of the first entry whose period is `key`.
pub open spec fn first_index_of(periods: Seq<String>, key: Seq<char>) -> Option<usize>
    decreases periods.len(),
{
    if periods.len() == 0 {
        None
    } else {
        match first_index_of(periods.drop_last(), key) {
            Some(j) => Some(j),
            None => if periods.last()@ == key {
                Some((periods.len() - 1) as usize)
            } else {
                None
            },
        }
    }
}

/// The indices, in increasing order, of the entries whose period starts with `prefix`.
pub open spec fn indices_with_prefix(periods: Seq<String>, prefix: Seq<char>) -> Seq<usize>
    decreases periods.len(),
{
    if periods.len() == 0 {
        Seq::empty()
    } else {
        let earlier = indices_with_prefix(periods.drop_last(), prefix);
        if has_prefix(periods.last()@, prefix) {
            earlier.push((periods.len() - 1) as usize)
        } else {
            earlier
        }
    }
}

/// The name of the `i`-th day of a week that starts on Monday.
pub open spec fn weekday_name(i: int) -> Seq<char> {
    if i == 0 {
        "Monday"@
    } else if i == 1 {
        "Tuesday"@
    } else if i == 2 {
        "Wednesday"@
    } else if i == 3 {
        "Thursday"@
    } else if i == 4 {
        "Friday"@
    } else if i == 5 {
        "Saturday"@
    } else {
        "Sunday"@
    }
}

/// The day number of the `i`-th day of the Monday-to-Sunday week that holds `today`.
pub open spec fn week_day_number(today: CalendarDate, i: int) -> int {
    today.day_number() - today.weekday_index() + i
}

/// Every day of the week that holds `today` lies in the supported range of dates.
pub open spec fn week_in_range(today: CalendarDate) -> bool {
    day_number_in_range(week_day_number(today, 0)) && day_number_in_range(
        week_day_number(today, 6),
    )
}

impl DayPlan {
    /// This is the `i`-th day of the week that holds `today`, for the report `periods`.
    pub open spec fn describes(self, periods: Seq<String>, today: CalendarDate, i: int) -> bool {
        &&& self.name@ == weekday_name(i)
        &&& self.date.is_valid()
        &&& self.date.day_number() == week_day_number(today, i)
        &&& self.entry == last_index_of(periods, date_text(self.date))
        &&& self.is_today == (date_text(self.date) == date_text(today))
    }
}

impl StatsPlan {
    /// This is the popover's content for the report `periods` on the day `today`.
    pub open spec fn is_plan_for(
        self,
        available: bool,
        has_data: bool,
        periods: Seq<String>,
        today: CalendarDate,
    ) -> bool {
        &&& self.available == available
        &&& self.has_data == has_data
        &&& self.month_entries@ == indices_with_prefix(periods, year_month_text(today))
        &&& self.today_entry == last_index_of(periods, date_text(today))
        &&& self.days@.len() == 7
        &&& forall|i: int| 0 <= i < 7 ==> #[trigger] self.days@[i].describes(periods, today, i)
    }
}

/// The entry that holds the cost of the day `key`: the last one with that period.
pub fn last_entry_for(periods: &Vec<String>, key: &String) -> (r: Option<usize>)
    ensures
        r == last_index_of(periods@, key@),
{
    let mut found: Option<usize> = None;
    let mut i: usize = 0;
    while i < periods.len()
        invariant
            i <= periods.len(),
            found == last_index_of(periods@.take(i as int), key@),
        decreases periods.len() - i,
    {
        proof {
            assert(periods@.take(i + 1).drop_last() =~= periods@.take(i as int));
        }
        if periods[i] == *key {
            found = Some(i);
        }
        i += 1;
    }
    proof {
        assert(periods@.take(periods.len() as int) =~= periods@);
    }
    found
}

/// The first entry whose period is `key`.
pub fn first_entry_for(periods: &Vec<String>, key: &String) -> (r: Option<usize>)
    ensures
        r == first_index_of(periods@, key@),
{
    let mut found: Option<usize> = None;
    let mut i: usize = 0;
    while i < periods.len()
        invariant
            i <= periods.len(),
            found == first_index_of(periods@.take(i as int), key@),
        decreases periods.len() - i,
    {
        proof {
            assert(periods@.take(i + 1).drop_last() =~= periods@.take(i as int));
        }
        if found.is_none() && periods[i] == *key {
            found = Some(i);
        }
        i += 1;
    }
    proof {
        assert(periods@.take(periods.len() as int) =~= periods@);
    }
    found
}

/// The entries whose period starts with `prefix`, in report order.
pub fn entries_with_prefix(periods: &Vec<String>, prefix: &String) -> (r: Vec<usize>)
    ensures
        r@ == indices_with_prefix(periods@, prefix@),
{
    let mut found: Vec<usize> = Vec::new();
    let mut i: usize = 0;
    while i < periods.len()
        invariant
            i <= periods.len(),
            found@ == indices_with_prefix(periods@.take(i as int), prefix@),
        decreases periods.len() - i,
    {
        proof {
            assert(periods@.take(i + 1).drop_last() =~= periods@.take(i as int));
        }
        if str_starts_with(periods[i].as_str(), prefix.as_str()) {
            found.push(i);
        }
        i += 1;
    }
    proof {
        assert(periods@.take(periods.len() as int) =~= periods@);
    }
    found
}

/// The name of the `i`-th day of a week that starts on Monday.
pub fn weekday_name_text(i: usize) -> (r: String)
    requires
        i < 7,
    ensures
        r@ == weekday_name(i as int),
{
    if i == 0 {
        String::from_str("Monday")
    } else if i == 1 {
        String::from_str("Tuesday")
    } else if i == 2 {
        String::from_str("Wednesday")
    } else if i == 3 {
        String::from_str("Thursday")
    } else if i == 4 {
        String::from_str("Friday")
    } else if i == 5 {
        String::from_str("Saturday")
    } else {
        String::from_str("Sunday")
    }
}

/// The popover's content for the report `periods` on the day `today`: the
/// month's entries, today's entry, and the Monday-to-Sunday week that holds
/// today. `None` when a day of that week lies outside the supported dates.
pub fn plan_stats(
    available: bool,
    has_data: bool,
    periods: &Vec<String>,
    today: &CalendarDate,
) -> (r: Option<StatsPlan>)
    requires
        today.is_valid(),
    ensures
        r is Some <==> week_in_range(*today),
        r matches Some(p) ==> p.is_plan_for(available, has_data, periods@, *today),
{
    let today_text = format_date(today, "%Y-%m-%d");
    let month_prefix = format_date(today, "%Y-%m");
    let month_entries = entries_with_prefix(periods, &month_prefix);
    let today_entry = last_entry_for(periods, &today_text);
    let from_monday = weekday_from_monday(today);
    let week_start = match add_days(today, -(from_monday as i32)) {
        Some(d) => d,
        None => return None,
    };
    let mut days: Vec<DayPlan> = Vec::new();
    let mut i: usize = 0;
    while i < 7
        invariant
            i <= 7,
            today.is_valid(),
            today_text@ == date_text(*today),
            week_start.is_valid(),
            week_start.day_number() == week_day_number(*today, 0),
            day_number_in_range(week_day_number(*today, 0)),
            i > 0 ==> day_number_in_range(week_day_number(*today, i - 1)),
            days@.len() == i,
            forall|j: int| 0 <= j < i ==> #[trigger] days@[j].describes(periods@, *today, j),
        decreases 7 - i,
    {
        let date = match add_days(&week_start, i as i32) {
            Some(d) => d,
            None => return None,
        };
        let text = format_date(&date, "%Y-%m-%d");
        let entry = last_entry_for(periods, &text);
        let is_today = text == today_text;
        days.push(DayPlan { name: weekday_name_text(i), date, entry, is_today });
        i += 1;
    }
    Some(StatsPlan { available, has_data, month_entries, today_entry, days })
}

/// Why the popover's content for the current day could not be worked out.
#[derive(Clone, Copy, Debug, PartialEq, Eq, Structural)]
pub enum StatsError {
    /// The clock reads too far from the epoch for a local day to be found.
    NoLocalDate,
    /// A day of the week that holds today lies outside the supported dates.
    WeekOutOfRange,
}

/// `r` is the popover's content, or why there is none, for the report
/// `periods` on the local day `day` (`None` when no local day was found).
pub open spec fn is_stats_result(
    r: Result<StatsPlan, StatsError>,
    available: bool,
    has_data: bool,
    periods: Seq<String>,
    day: Option<CalendarDate>,
) -> bool {
    match day {
        None => r == Err::<StatsPlan, StatsError>(StatsError::NoLocalDate),
        Some(today) => match r {
            Ok(p) => week_in_range(today) && p.is_plan_for(available, has_data, periods, today),
            Err(e) => e == StatsError::WeekOutOfRange && !week_in_range(today),
        },
    }
}

/// The popover's content for the report `periods` on the local day `day`:
/// `NoLocalDate` when no day was found, `WeekOutOfRange` when the week that
/// holds it leaves the supported dates.
pub fn stats_for_day(
    available: bool,
    has_data: bool,
    periods: &Vec<String>,
    day: Option<CalendarDate>,
) -> (r: Result<StatsPlan, StatsError>)
    requires
        day matches Some(d) ==> d.is_valid(),
    ensures
        is_stats_result(r, available, has_data, periods@, day),
{
    match day {
        Some(today) => match plan_stats(available, has_data, periods, &today) {
            Some(plan) => Ok(plan),
            None => Err(StatsError::WeekOutOfRange),
        },
        None => Err(StatsError::NoLocalDate),
    }
}

/// The popover's content for the report `periods` on the current local day.
pub fn compute_stats(available: bool, has_data: bool, periods: &Vec<String>) -> (r: Result<
    StatsPlan,
    StatsError,
>)
    ensures
        exists|day: Option<CalendarDate>, timestamp: Option<(i64, u32)>|
            #![trigger is_local_day_result(day, timestamp), is_stats_result(r, available, has_data, periods@, day)]
            is_local_day_result(day, timestamp) && is_stats_result(
                r,
                available,
                has_data,
                periods@,
                day,
            ),
{
    let day = local_today();
    let r = stats_for_day(available, has_data, periods, day);
    proof {
        let timestamp = choose|t: Option<(i64, u32)>| #[trigger] is_local_day_result(day, t);
        assert(is_local_day_result(day, timestamp) && is_stats_result(
            r,
            available,
            has_data,
            periods@,
            day,
        ));
    }
    r
}

/// The report entry whose cost titles the tray icon on the day `today`: the
/// first entry for that day.
pub fn title_entry_for(periods: &Vec<String>, today: &CalendarDate) -> (r: Option<usize>)
    requires
        today.is_valid(),
    ensures
        r == first_index_of(periods@, date_text(*today)),
{
    let today_text = format_date(today, "%Y-%m-%d");
    first_entry_for(periods, &today_text)
}

/// `r` is the title entry, or why there is none, for the report `periods` on
/// the local day `day` (`None` when no local day was found).
pub open spec fn is_title_result(
    r: Result<Option<usize>, StatsError>,
    periods: Seq<String>,
    day: Option<CalendarDate>,
) -> bool {
    match day {
        None => r == Err::<Option<usize>, StatsError>(StatsError::NoLocalDate),
        Some(today) => r == Ok::<Option<usize>, StatsError>(
            first_index_of(periods, date_text(today)),
        ),
    }
}

/// The report entry whose cost titles the tray icon on the current local day:
/// the first entry for that day.
pub fn todays_title_entry(periods: &Vec<String>) -> (r: Result<Option<usize>, StatsError>)
    ensures
        exists|day: Option<CalendarDate>, timestamp: Option<(i64, u32)>|
            #![trigger is_local_day_result(day, timestamp), is_title_result(r, periods@, day)]
            is_local_day_result(day, timestamp) && is_title_result(r, periods@, day),
{
    let day = local_today();
    let r = match day {
        Some(today) => Ok(title_entry_for(periods, &today)),
        None => Err(StatsError::NoLocalDate),
    };
    proof {
        let timestamp = choose|t: Option<(i64, u32)>| #[trigger] is_local_day_result(day, t);
        assert(is_local_day_result(day, timestamp) && is_title_result(r, periods@, day));
    }
    r
}

} // verus!

verus! {

/// A map built from the report in order keeps, for each day, the last entry
/// with that period: the entry found is one with that period and no later entry
/// has it; none is found only when no entry has it.
pub proof fn lemma_last_index_of(periods: Seq<String>, key: Seq<char>)
    requires
        periods.len() <= usize::MAX,
    ensures
        match last_index_of(periods, key) {
            Some(j) => j < periods.len() && periods[j as int]@ == key && forall|i: int|
                j < i < periods.len() ==> #[trigger] periods[i]@ != key,
            None => forall|i: int| 0 <= i < periods.len() ==> #[trigger] periods[i]@ != key,
        },
    decreases periods.len(),
{
    if periods.len() > 0 {
        lemma_last_index_of(periods.drop_last(), key);
        assert forall|i: int| 0 <= i < periods.len() - 1 implies periods.drop_last()[i]
            == #[trigger] periods[i] by {}
    }
}

/// The entry that titles the tray icon is the first one with the day's period.
pub proof fn lemma_first_index_of(periods: Seq<String>, key: Seq<char>)
    requires
        periods.len() <= usize::MAX,
    ensures
        match first_index_of(periods, key) {
            Some(j) => j < periods.len() && periods[j as int]@ == key && forall|i: int|
                0 <= i < j ==> #[trigger] periods[i]@ != key,
            None => forall|i: int| 0 <= i < periods.len() ==> #[trigger] periods[i]@ != key,
        },
    decreases periods.len(),
{
    if periods.len() > 0 {
        lemma_first_index_of(periods.drop_last(), key);
        assert forall|i: int| 0 <= i < periods.len() - 1 implies periods.drop_last()[i]
            == #[trigger] periods[i] by {}
    }
}

/// The month's entries are exactly the entries whose period starts with the
/// month's `%Y-%m` text, each once, in report order.
pub proof fn lemma_indices_with_prefix(periods: Seq<String>, prefix: Seq<char>)
    requires
        periods.len() <= usize::MAX,
    ensures
        forall|k: int|
            0 <= k < indices_with_prefix(periods, prefix).len() ==> {
                let j = #[trigger] indices_with_prefix(periods, prefix)[k];
                j < periods.len() && has_prefix(periods[j as int]@, prefix)
            },
        forall|i: int|
            0 <= i < periods.len() && has_prefix(#[trigger] periods[i]@, prefix)
                ==> indices_with_prefix(periods, prefix).contains(i as usize),
        forall|a: int, b: int|
            0 <= a < b < indices_with_prefix(periods, prefix).len() ==> #[trigger] indices_with_prefix(
                periods,
                prefix,
            )[a] < #[trigger] indices_with_prefix(periods, prefix)[b],
    decreases periods.len(),
{
    if periods.len() > 0 {
        let earlier = periods.drop_last();
        lemma_indices_with_prefix(earlier, prefix);
        let e = indices_with_prefix(earlier, prefix);
        let r = indices_with_prefix(periods, prefix);
        assert forall|i: int| 0 <= i < periods.len() - 1 implies earlier[i] == #[trigger] periods[i] by {}
        assert forall|i: int|
            0 <= i < periods.len() && has_prefix(#[trigger] periods[i]@, prefix) implies r.contains(
            i as usize,
        ) by {
            if i < periods.len() - 1 {
                assert(has_prefix(earlier[i]@, prefix));
                let k = choose|k: int| 0 <= k < e.len() && e[k] == i as usize;
                assert(r[k] == i as usize);
            } else {
                assert(r[r.len() - 1] == i as usize);
            }
        }
    }
}

/// The popover's week runs from Monday to Sunday around today: seven
/// consecutive days, the `i`-th falling `i` days after a Monday; the one day
/// marked as today is today, and its entry is today's entry.
pub proof fn lemma_week_layout(
    plan: StatsPlan,
    available: bool,
    has_data: bool,
    periods: Seq<String>,
    today: CalendarDate,
)
    requires
        today.is_valid(),
        plan.is_plan_for(available, has_data, periods, today),
    ensures
        forall|i: int| 0 <= i < 7 ==> (#[trigger] plan.days@[i]).date.weekday_index() == i,
        forall|i: int|
            0 <= i < 6 ==> (#[trigger] plan.days@[i + 1]).date.day_number() == plan.days@[i].date.day_number()
                + 1,
        forall|i: int| 0 <= i < 7 ==> ((#[trigger] plan.days@[i]).is_today <==> i == today.weekday_index()),
        plan.days@[today.weekday_index()].date == today,
        plan.days@[today.weekday_index()].entry == plan.today_entry,
{
    let k = today.weekday_index();
    assert forall|i: int| 0 <= i < 7 implies (#[trigger] plan.days@[i]).date.weekday_index() == i by {
        assert(plan.days@[i].describes(periods, today, i));
        lemma_weekday_shift(today.day_number(), i);
    }
    assert forall|i: int| 0 <= i < 6 implies (#[trigger] plan.days@[i + 1]).date.day_number()
        == plan.days@[i].date.day_number() + 1 by {
        assert(plan.days@[i].describes(periods, today, i));
        assert(plan.days@[i + 1].describes(periods, today, i + 1));
    }
    assert forall|i: int| 0 <= i < 7 implies ((#[trigger] plan.days@[i]).is_today <==> i == k) by {
        let d = plan.days@[i];
        assert(d.describes(periods, today, i));
        if i == k {
            lemma_day_number_injective(d.date, today);
        } else if date_text(d.date) == date_text(today) {
            lemma_date_text_injective(d.date, today);
        }
    }
    assert(plan.days@[k].describes(periods, today, k));
    lemma_day_number_injective(plan.days@[k].date, today);
}

} // verus!

verus! {

/// When the report holds at most one entry for a day, the tray title and the
/// popover take that day's cost from the same entry.
pub proof fn lemma_title_entry_matches_popover(periods: Seq<String>, key: Seq<char>)
    requires
        periods.len() <= usize::MAX,
        forall|i: int, j: int|
            0 <= i < j < periods.len() && #[trigger] periods[i]@ == key ==> #[trigger] periods[j]@
                != key,
    ensures
        first_index_of(periods, key) == last_index_of(periods, key),
{
    lemma_first_index_of(periods, key);
    lemma_last_index_of(periods, key);
}

} // verus!

verus! {

/// An entry dated by a day counts toward the month's total exactly when that
/// day lies in today's month of today's year.
pub proof fn lemma_month_entries_are_this_month(
    plan: StatsPlan,
    available: bool,
    has_data: bool,
    periods: Seq<String>,
    today: CalendarDate,
    i: int,
    day: CalendarDate,
)
    requires
        today.is_valid(),
        plan.is_plan_for(available, has_data, periods, today),
        periods.len() <= usize::MAX,
        0 <= i < periods.len(),
        day.is_valid(),
        periods[i]@ == date_text(day),
    ensures
        plan.month_entries@.contains(i as usize) <==> (day.year == today.year && day.month
            == today.month),
{
    let prefix = year_month_text(today);
    lemma_indices_with_prefix(periods, prefix);
    lemma_month_prefix_matches_same_month(today, day);
    let r = indices_with_prefix(periods, prefix);
    if r.contains(i as usize) {
        let k = choose|k: int| 0 <= k < r.len() && r[k] == i as usize;
        assert(has_prefix(periods[r[k] as int]@, prefix));
    }
}

} // verus!
