//! The calendar's state: the date picked, the month on show, the pages of years
//! to choose from, and the rules by which clicks change them.

use chrono::NaiveDate;
use vstd::prelude::*;

verus! {

/// Whether the calendar picks one date or a range of dates.
#[derive(Clone, Copy, Debug, PartialEq, Eq)]
pub enum Mode {
    Single,
    Range,
}

impl Default for Mode {
    fn default() -> (r: Self)
        ensures
            r == Mode::Single,
    {
        Mode::Single
    }
}

/// What the calendar's body lists: the days of a month, the months of a year, or
/// a page of years.
#[derive(Clone, Copy, Debug, PartialEq, Eq)]
pub enum ViewMode {
    Day,
    Month,
    Year,
}

impl ViewMode {
    /// Whether the days of a month are listed.
    pub fn is_day(&self) -> (r: bool)
        ensures
            r == (*self is Day),
    {
        matches!(self, Self::Day)
    }

    /// Whether the months of a year are listed.
    pub fn is_month(&self) -> (r: bool)
        ensures
            r == (*self is Month),
    {
        matches!(self, Self::Month)
    }

    /// Whether a page of years is listed.
    pub fn is_year(&self) -> (r: bool)
        ensures
            r == (*self is Year),
    {
        matches!(self, Self::Year)
    }
}

/// A day, by year, month (1 to 12) and day of the month.
#[derive(Clone, Copy, Debug, PartialEq, Eq)]
pub struct Day {
    pub year: i32,
    pub month: u8,
    pub day: u8,
}

impl Day {
    /// Whether the month is one of the twelve.
    pub open spec fn valid(self) -> bool {
        1 <= self.month <= 12
    }

    /// Whether `self` comes before `other`.
    pub open spec fn precedes(self, other: Day) -> bool {
        self.year < other.year || (self.year == other.year && (self.month < other.month || (
        self.month == other.month && self.day < other.day)))
    }

    /// Whether `self` comes before `other`.
    pub fn before(&self, other: &Day) -> (r: bool)
        ensures
            r == self.precedes(*other),
    {
        self.year < other.year || (self.year == other.year && (self.month < other.month || (
        self.month == other.month && self.day < other.day)))
    }

    /// Whether `self` and `other` are the same day.
    pub fn same(&self, other: &Day) -> (r: bool)
        ensures
            r == (*self == *other),
    {
        self.year == other.year && self.month == other.month && self.day == other.day
    }
}

/// What is picked in the calendar: a day, or a range of days by its two ends.
#[derive(Clone, Copy, Debug, PartialEq, Eq)]
pub enum Date {
    Single(Option<Day>),
    Range(Option<Day>, Option<Day>),
}

impl From<Day> for Date {
    /// The single date that is `day`.
    fn from(day: Day) -> (r: Date)
    {
        Date::Single(Some(day))
    }
}

impl vstd::std_specs::convert::FromSpecImpl<Day> for Date {
    open spec fn obeys_from_spec() -> bool {
        true
    }

    open spec fn from_spec(day: Day) -> Date {
        Date::Single(Some(day))
    }
}

impl From<(Day, Day)> for Date {
    /// The range from the first day of `ends` to the second.
    fn from(ends: (Day, Day)) -> (r: Date)
    {
        Date::Range(Some(ends.0), Some(ends.1))
    }
}

impl vstd::std_specs::convert::FromSpecImpl<(Day, Day)> for Date {
    open spec fn obeys_from_spec() -> bool {
        true
    }

    open spec fn from_spec(ends: (Day, Day)) -> Date {
        Date::Range(Some(ends.0), Some(ends.1))
    }
}

impl Date {
    /// The day that the calendar turns to when this date is set: the day of a
    /// single date, the start of a range.
    pub open spec fn anchor(self) -> Option<Day> {
        match self {
            Date::Single(d) => d,
            Date::Range(start, _) => start,
        }
    }

    /// Whether every day that the date holds has a month of the twelve.
    pub open spec fn valid(self) -> bool {
        match self {
            Date::Single(d) => d is Some ==> d->0.valid(),
            Date::Range(start, end) => (start is Some ==> start->0.valid()) && (end is Some
                ==> end->0.valid()),
        }
    }

    /// Whether `v` is highlighted: it is the day picked, or one end of the range.
    pub open spec fn highlights(self, v: Day) -> bool {
        match self {
            Date::Single(d) => d == Some(v),
            Date::Range(start, end) => start == Some(v) || end == Some(v),
        }
    }

    /// Whether `v` is the day picked, or one end of the range picked.
    pub fn is_active(&self, v: &Day) -> (r: bool)
        ensures
            r == self.highlights(*v),
    {
        match self {
            Date::Single(d) => Self::holds(d, v),
            Date::Range(start, end) => Self::holds(start, v) || Self::holds(end, v),
        }
    }

    fn holds(slot: &Option<Day>, v: &Day) -> (r: bool)
        ensures
            r == (*slot == Some(*v)),
    {
        match slot {
            Some(d) => d.same(v),
            None => false,
        }
    }

    /// Whether a day is picked: the day of a single date, the start of a range.
    pub fn is_some(&self) -> (r: bool)
        ensures
            r == self.anchor().is_some(),
    {
        match self {
            Date::Single(Some(_)) => true,
            Date::Range(Some(_), _) => true,
            _ => false,
        }
    }

    /// The date written out as `format` says: the day of a single date; both
    /// ends of a range that has both, with ` - ` between them. Nothing for a
    /// date that lacks a day, nor where a day cannot be written.
    pub open spec fn written(self, format: Seq<char>) -> Option<Seq<char>> {
        match self {
            Date::Single(Some(d)) => written_day(d, format),
            Date::Range(Some(start), Some(end)) => match (
                written_day(start, format),
                written_day(end, format),
            ) {
                (Some(a), Some(b)) => Some(joined(a, b)),
                _ => None,
            },
            _ => None,
        }
    }

    /// The date written out as `format` says, in the format language of
    /// `strftime`. `None` for a date that lacks a day, and where a day does
    /// not exist or the format cannot be applied to a day.
    pub fn format(&self, format: &str) -> (r: Option<String>)
        ensures
            text_of(r) == self.written(format@),
    {
        match self {
            Date::Single(Some(d)) => write_day(d, format),
            Date::Range(Some(start), Some(end)) => {
                let a = write_day(start, format);
                let b = write_day(end, format);
                match (a, b) {
                    (Some(a), Some(b)) => Some(join_range(a.as_str(), b.as_str())),
                    _ => None,
                }
            },
            _ => None,
        }
    }
}

/// What `chrono` writes for the day `year`-`month`-`day` under the format
/// string `format`; `None` where there is no such day or `chrono` does not
/// accept the format for a day.
pub uninterp spec fn chrono_format(y: int, m: int, d: int, format: Seq<char>) -> Option<Seq<char>>;

/// The day `d` written out as `format` says.
pub open spec fn written_day(d: Day, format: Seq<char>) -> Option<Seq<char>> {
    chrono_format(d.year as int, d.month as int, d.day as int, format)
}

/// The characters of an optional string.
pub open spec fn text_of(s: Option<String>) -> Option<Seq<char>> {
    match s {
        Some(s) => Some(s@),
        None => None,
    }
}

/// Two days written out, as the two ends of a range.
pub open spec fn joined(start: Seq<char>, end: Seq<char>) -> Seq<char> {
    start + seq![' ', '-', ' '] + end
}

/// Makes a `chrono::NaiveDate` with `NaiveDate::from_ymd_opt` and writes it with
/// `NaiveDate::format` into a string. Trusted: the result is a function of the
/// day and the format alone, named `chrono_format`. It is `None` where
/// `from_ymd_opt` finds no such day, or where writing fails, as it does for a
/// format that is malformed or asks for a time of day.
#[verifier::external_body]
fn write_day(day: &Day, format: &str) -> (r: Option<String>)
    ensures
        text_of(r) == chrono_format(day.year as int, day.month as int, day.day as int, format@),
{
    let date = NaiveDate::from_ymd_opt(day.year, u32::from(day.month), u32::from(day.day))?;
    let mut text = String::new();
    date.format(format).write_to(&mut text).ok()?;
    Some(text)
}

/// The two ends of a range, written out, with ` - ` between them.
pub fn join_range(start: &str, end: &str) -> (r: String)
    ensures
        r@ == joined(start@, end@),
{
    let mut r = start.to_owned();
    proof {
        reveal_strlit(" - ");
    }
    r.append(" - ");
    r.append(end);
    proof {
        assert(" - "@ =~= seq![' ', '-', ' ']);
    }
    r
}

/// The name under which the catalogue of messages lists a month's name; the
/// empty name for a month that is not of the twelve.
pub open spec fn month_key_of(month: int) -> Seq<char> {
    if month == 1 {
        "Calendar.month.January"@
    } else if month == 2 {
        "Calendar.month.February"@
    } else if month == 3 {
        "Calendar.month.March"@
    } else if month == 4 {
        "Calendar.month.April"@
    } else if month == 5 {
        "Calendar.month.May"@
    } else if month == 6 {
        "Calendar.month.June"@
    } else if month == 7 {
        "Calendar.month.July"@
    } else if month == 8 {
        "Calendar.month.August"@
    } else if month == 9 {
        "Calendar.month.September"@
    } else if month == 10 {
        "Calendar.month.October"@
    } else if month == 11 {
        "Calendar.month.November"@
    } else if month == 12 {
        "Calendar.month.December"@
    } else {
        ""@
    }
}

/// The name under which the catalogue of messages lists the name of `month`.
pub fn month_key(month: u8) -> (r: &'static str)
    ensures
        r@ == month_key_of(month as int),
{
    match month {
        1 => "Calendar.month.January",
        2 => "Calendar.month.February",
        3 => "Calendar.month.March",
        4 => "Calendar.month.April",
        5 => "Calendar.month.May",
        6 => "Calendar.month.June",
        7 => "Calendar.month.July",
        8 => "Calendar.month.August",
        9 => "Calendar.month.September",
        10 => "Calendar.month.October",
        11 => "Calendar.month.November",
        12 => "Calendar.month.December",
        _ => "",
    }
}

/// The names under which the catalogue of messages lists the names of the
/// twelve months, January first.
pub fn month_keys() -> (r: Vec<&'static str>)
    ensures
        r@.len() == 12,
        forall|i: int| 0 <= i < 12 ==> (#[trigger] r@[i])@ == month_key_of(i + 1),
{
    let mut r: Vec<&'static str> = Vec::new();
    let mut month: u8 = 1;
    while month <= 12
        invariant
            1 <= month <= 13,
            r@.len() == month - 1,
            forall|i: int| 0 <= i < r@.len() ==> (#[trigger] r@[i])@ == month_key_of(i + 1),
        decreases 13 - month,
    {
        r.push(month_key(month));
        month = month + 1;
    }
    r
}

/// What the calendar tells those who listen to it.
#[derive(Clone, Copy, Debug, PartialEq, Eq)]
pub enum CalendarEvent {
    /// A click on a day was answered, and this is the date picked after it.
    Selected(Date),
}

/// The number of pages that the years from `from` up to, not including, `to` fill.
pub open spec fn page_count(from: int, to: int) -> nat {
    if to <= from {
        0
    } else {
        ((to - from + 19) / 20) as nat
    }
}

/// Page `p` of the years from `from` up to `to`: twenty years, fewer on the last page.
pub open spec fn page(from: int, to: int, p: int) -> Seq<i32> {
    let first = from + 20 * p;
    let len = if to - first < 20 {
        to - first
    } else {
        20
    };
    Seq::new(len as nat, |i: int| (first + i) as i32)
}

/// The years from `from` up to, not including, `to`, in pages of twenty.
pub open spec fn pages(from: int, to: int) -> Seq<Seq<i32>> {
    Seq::new(page_count(from, to), |p: int| page(from, to, p))
}

/// The page on which `year` stands among the years from `from` up to `to`; the
/// first page where it is not among them.
pub open spec fn page_of(from: int, to: int, year: int) -> nat {
    if from <= year < to {
        ((year - from) / 20) as nat
    } else {
        0
    }
}

/// What a calendar holds, as values.
pub struct CalendarView {
    pub date: Date,
    pub view_mode: ViewMode,
    pub mode: Mode,
    /// The year and the month (1 to 12) on show.
    pub year: int,
    pub month: int,
    /// The years to choose from, in pages.
    pub years: Seq<Seq<i32>>,
    /// The page of years on show.
    pub year_page: int,
}

impl CalendarView {
    /// The month on show and the months of the days picked are of the twelve,
    /// and the page on show exists or is the first.
    pub open spec fn valid(self) -> bool {
        &&& 1 <= self.month <= 12
        &&& self.date.valid()
        &&& 0 <= self.year_page
        &&& self.year_page == 0 || self.year_page < self.years.len()
    }

    /// The month before the one on show, in the year before where that was January.
    pub open spec fn prev_month(self) -> Self {
        if self.month == 1 {
            CalendarView { month: 12, year: self.year - 1, ..self }
        } else {
            CalendarView { month: self.month - 1, ..self }
        }
    }

    /// The month after the one on show, in the year after where that was December.
    pub open spec fn next_month(self) -> Self {
        if self.month == 12 {
            CalendarView { month: 1, year: self.year + 1, ..self }
        } else {
            CalendarView { month: self.month + 1, ..self }
        }
    }

    /// Whether a page of years lies before the one on show.
    pub open spec fn has_prev_year_page(self) -> bool {
        self.year_page > 0
    }

    /// Whether a page of years lies behind the one on show.
    pub open spec fn has_next_year_page(self) -> bool {
        self.year_page < self.years.len() - 1
    }

    /// `date` picked. Where it holds a day, the calendar turns to that day's
    /// month and takes the mode that the date has.
    pub open spec fn set_date(self, date: Date) -> Self {
        match date.anchor() {
            Some(d) => CalendarView {
                date,
                mode: if date is Single {
                    Mode::Single
                } else {
                    Mode::Range
                },
                month: d.month as int,
                year: d.year as int,
                ..self
            },
            None => CalendarView { date, ..self },
        }
    }

    /// The date that a click on `day` picks. Picking a single date, it is that
    /// day. Picking a range of which only the start is set, and `day` lies
    /// behind the start, it is the range from the start to `day`. Else it is the
    /// date as it was.
    pub open spec fn picked(self, day: Day) -> Date {
        match self.mode {
            Mode::Single => Date::Single(Some(day)),
            Mode::Range => match self.date {
                Date::Range(Some(start), None) if start.precedes(day) => Date::Range(
                    Some(start),
                    Some(day),
                ),
                _ => self.date,
            },
        }
    }

    /// The calendar after a click on `day`.
    pub open spec fn pick(self, day: Day) -> Self {
        if self.picked(day) == self.date && self.mode is Range {
            self
        } else {
            self.set_date(self.picked(day))
        }
    }

    /// The view after a click on the button that stands for `target`: that
    /// view, or the days again where it was on show already.
    pub open spec fn toggle(self, target: ViewMode) -> Self {
        if self.view_mode == target {
            CalendarView { view_mode: ViewMode::Day, ..self }
        } else {
            CalendarView { view_mode: target, ..self }
        }
    }
}

/// The state of a calendar.
pub struct Calendar {
    date: Date,
    view_mode: ViewMode,
    mode: Mode,
    current_year: i32,
    current_month: u8,
    years: Vec<Vec<i32>>,
    year_page: usize,
}

/// The years of each page, as values.
pub open spec fn deep(years: Vec<Vec<i32>>) -> Seq<Seq<i32>> {
    Seq::new(years@.len(), |p: int| years@[p]@)
}

impl View for Calendar {
    type V = CalendarView;

    closed spec fn view(&self) -> CalendarView {
        CalendarView {
            date: self.date,
            view_mode: self.view_mode,
            mode: self.mode,
            year: self.current_year as int,
            month: self.current_month as int,
            years: deep(self.years),
            year_page: self.year_page as int,
        }
    }
}

/// The years from `from` up to, not including, `to`, in pages of twenty.
pub fn year_pages(from: i32, to: i32) -> (years: Vec<Vec<i32>>)
    ensures
        deep(years) == pages(from as int, to as int),
{
    let mut years: Vec<Vec<i32>> = Vec::new();
    let end: i64 = to as i64;
    let mut first: i64 = from as i64;
    while first < end
        invariant
            end == to,
            from <= first,
            first < end ==> first == from + 20 * years@.len(),
            first >= end ==> years@.len() == page_count(from as int, to as int),
            years@.len() <= page_count(from as int, to as int),
            forall|p: int|
                0 <= p < years@.len() ==> (#[trigger] years@[p])@ == page(
                    from as int,
                    to as int,
                    p,
                ),
        decreases end - first,
    {
        let stop: i64 = if end - first < 20 {
            end
        } else {
            first + 20
        };
        let mut page: Vec<i32> = Vec::new();
        let mut year: i64 = first;
        while year < stop
            invariant
                first <= year <= stop <= end,
                end == to,
                from <= first,
                page@.len() == year - first,
                forall|i: int| 0 <= i < page@.len() ==> #[trigger] page@[i] == (first + i) as i32,
            decreases stop - year,
        {
            page.push(year as i32);
            year = year + 1;
        }
        proof {
            assert(page@ =~= self::page(from as int, to as int, years@.len() as int));
            assert(years@.len() < page_count(from as int, to as int));
        }
        years.push(page);
        first = stop;
    }
    proof {
        assert(deep(years) =~= pages(from as int, to as int));
    }
    years
}

impl Calendar {
    /// Whether the calendar is in a state that its operations keep it in.
    pub open spec fn wf(&self) -> bool {
        self@.valid()
    }

    /// A calendar that picks a single date, has none picked yet, and shows the
    /// days of the given month, with the years from fifty before to fifty
    /// after `year` to choose from.
    pub fn new(year: i32, month: u8) -> (r: Self)
        requires
            1 <= month <= 12,
            i32::MIN + 50 <= year <= i32::MAX - 50,
        ensures
            r@ == (CalendarView {
                date: Date::Single(None),
                view_mode: ViewMode::Day,
                mode: Mode::Single,
                year: year as int,
                month: month as int,
                years: pages(year - 50, year + 50),
                year_page: 2,
            }),
            r.wf(),
    {
        let calendar = Calendar {
            date: Date::Single(None),
            view_mode: ViewMode::Day,
            mode: Mode::Single,
            current_year: year,
            current_month: month,
            years: Vec::new(),
            year_page: 0,
        };
        calendar.year_range((year - 50, year + 50))
    }

    /// This calendar, picking a single date or a range as `mode` says.
    pub fn mode(self, mode: Mode) -> (r: Self)
        ensures
            r@ == (CalendarView { mode, ..self@ }),
    {
        let mut calendar = self;
        calendar.mode = mode;
        calendar
    }

    /// Picks `date`. Where it holds a day, the calendar turns to that day's
    /// month, and picks single dates or ranges as the date is one.
    pub fn set_date(&mut self, date: Date)
        requires
            old(self).wf(),
            date.valid(),
        ensures
            final(self)@ == old(self)@.set_date(date),
            final(self).wf(),
    {
        self.date = date;
        match date {
            Date::Single(Some(day)) => {
                self.mode = Mode::Single;
                self.current_month = day.month;
                self.current_year = day.year;
            },
            Date::Range(Some(start), _) => {
                self.mode = Mode::Range;
                self.current_month = start.month;
                self.current_year = start.year;
            },
            _ => {},
        }
    }

    /// The date picked.
    pub fn date(&self) -> (r: Date)
        ensures
            r == self@.date,
    {
        self.date
    }

    /// This calendar with the years from `range.0` up to, not including,
    /// `range.1` to choose from, in pages of twenty, turned to the page on which
    /// the year on show stands; to the first page where it is not among them.
    pub fn year_range(self, range: (i32, i32)) -> (r: Self)
        requires
            self.wf(),
        ensures
            r@ == (CalendarView {
                years: pages(range.0 as int, range.1 as int),
                year_page: page_of(range.0 as int, range.1 as int, self@.year) as int,
                ..self@
            }),
            r.wf(),
    {
        let mut calendar = self;
        calendar.years = year_pages(range.0, range.1);
        calendar.year_page = if range.0 <= calendar.current_year && calendar.current_year
            < range.1 {
            ((calendar.current_year as i64 - range.0 as i64) / 20) as usize
        } else {
            0
        };
        calendar
    }

    /// Whether a page of years lies before the one on show.
    pub fn has_prev_year_page(&self) -> (r: bool)
        ensures
            r == self@.has_prev_year_page(),
    {
        self.year_page > 0
    }

    /// Whether a page of years lies behind the one on show.
    pub fn has_next_year_page(&self) -> (r: bool)
        ensures
            r == self@.has_next_year_page(),
    {
        self.years.len() > 0 && self.year_page < self.years.len() - 1
    }

    /// Turns to the page of years before the one on show, where there is one.
    pub fn prev_year_page(&mut self)
        requires
            old(self).wf(),
        ensures
            final(self)@ == (if old(self)@.has_prev_year_page() {
                CalendarView { year_page: old(self)@.year_page - 1, ..old(self)@ }
            } else {
                old(self)@
            }),
            final(self).wf(),
    {
        if !self.has_prev_year_page() {
            return ;
        }
        self.year_page = self.year_page - 1;
    }

    /// Turns to the page of years behind the one on show, where there is one.
    pub fn next_year_page(&mut self)
        requires
            old(self).wf(),
        ensures
            final(self)@ == (if old(self)@.has_next_year_page() {
                CalendarView { year_page: old(self)@.year_page + 1, ..old(self)@ }
            } else {
                old(self)@
            }),
            final(self).wf(),
    {
        if !self.has_next_year_page() {
            return ;
        }
        let pages: usize = self.years.len();
        assert(deep(self.years).len() == pages);
        self.year_page = self.year_page + 1;
    }

    /// Turns to the month before the one on show.
    pub fn prev_month(&mut self)
        requires
            old(self).wf(),
            old(self)@.year > i32::MIN,
        ensures
            final(self)@ == old(self)@.prev_month(),
            final(self).wf(),
    {
        if self.current_month == 1 {
            self.current_month = 12;
            self.current_year = self.current_year - 1;
        } else {
            self.current_month = self.current_month - 1;
        }
    }

    /// Turns to the month after the one on show.
    pub fn next_month(&mut self)
        requires
            old(self).wf(),
            old(self)@.year < i32::MAX,
        ensures
            final(self)@ == old(self)@.next_month(),
            final(self).wf(),
    {
        if self.current_month == 12 {
            self.current_month = 1;
            self.current_year = self.current_year + 1;
        } else {
            self.current_month = self.current_month + 1;
        }
    }

    /// Lists days, months or years, as `mode` says.
    pub fn set_view_mode(&mut self, mode: ViewMode)
        ensures
            final(self)@ == (CalendarView { view_mode: mode, ..old(self)@ }),
    {
        self.view_mode = mode;
    }

    /// Answers a click on the button of the month or of the year: lists what
    /// `target` says, or the days again where that was listed already.
    pub fn toggle_view_mode(&mut self, target: ViewMode)
        ensures
            final(self)@ == old(self)@.toggle(target),
    {
        let listed: bool = match target {
            ViewMode::Day => self.view_mode.is_day(),
            ViewMode::Month => self.view_mode.is_month(),
            ViewMode::Year => self.view_mode.is_year(),
        };
        if listed {
            self.view_mode = ViewMode::Day;
        } else {
            self.view_mode = target;
        }
    }

    /// Answers a click on `day` and returns what to tell those who listen: the
    /// date that is picked after the click.
    pub fn pick(&mut self, day: Day) -> (r: CalendarEvent)
        requires
            old(self).wf(),
            day.valid(),
        ensures
            final(self)@ == old(self)@.pick(day),
            r == CalendarEvent::Selected(final(self)@.date),
            final(self).wf(),
    {
        match self.mode {
            Mode::Single => {
                self.set_date(Date::Single(Some(day)));
            },
            Mode::Range => {
                match self.date {
                    Date::Range(Some(start), None) => {
                        if start.before(&day) {
                            self.set_date(Date::Range(Some(start), Some(day)));
                        }
                    },
                    _ => {},
                }
            },
        }
        CalendarEvent::Selected(self.date)
    }

    /// The name under which the catalogue of messages lists the name of the
    /// month on show.
    pub fn month_name_key(&self) -> (r: &'static str)
        ensures
            r@ == month_key_of(self@.month),
    {
        month_key(self.current_month)
    }

    /// Shows the days of `month`, which counts from 1, of the year on show.
    pub fn select_month(&mut self, month: u8)
        requires
            old(self).wf(),
            1 <= month <= 12,
        ensures
            final(self)@ == (CalendarView {
                month: month as int,
                view_mode: ViewMode::Day,
                ..old(self)@
            }),
            final(self).wf(),
    {
        self.current_month = month;
        self.view_mode = ViewMode::Day;
    }

    /// Shows the days of the month on show in `year`.
    pub fn select_year(&mut self, year: i32)
        requires
            old(self).wf(),
        ensures
            final(self)@ == (CalendarView {
                year: year as int,
                view_mode: ViewMode::Day,
                ..old(self)@
            }),
            final(self).wf(),
    {
        self.current_year = year;
        self.view_mode = ViewMode::Day;
    }

    /// The year on show.
    pub fn current_year(&self) -> (r: i32)
        ensures
            r == self@.year,
    {
        self.current_year
    }

    /// The month on show, from 1 to 12.
    pub fn current_month(&self) -> (r: u8)
        ensures
            r == self@.month,
    {
        self.current_month
    }

    /// What the calendar's body lists.
    pub fn view_mode(&self) -> (r: ViewMode)
        ensures
            r == self@.view_mode,
    {
        self.view_mode
    }

    /// Whether the calendar picks single dates or ranges.
    pub fn picks(&self) -> (r: Mode)
        ensures
            r == self@.mode,
    {
        self.mode
    }

    /// The page of years on show; none where there are no years to choose from.
    pub fn years_on_page(&self) -> (r: Vec<i32>)
        requires
            self.wf(),
        ensures
            r@ == (if self@.year_page < self@.years.len() {
                self@.years[self@.year_page]
            } else {
                Seq::<i32>::empty()
            }),
    {
        if self.year_page < self.years.len() {
            self.years[self.year_page].clone()
        } else {
            Vec::new()
        }
    }
}

} // verus!
