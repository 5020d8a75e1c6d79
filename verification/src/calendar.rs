//! The month grid: days of one month arranged in week rows of seven
//! weekday columns, Monday first.
use vstd::prelude::*;
use vstd::pervasive::VecAdditionalExecFns;
use vstd::arithmetic::div_mod::{
    lemma_basic_div, lemma_div_is_ordered, lemma_fundamental_div_mod,
    lemma_fundamental_div_mod_converse,
};
use crate::dates::{
    days_in_month, valid_date, weekday_of, lemma_weekday_from_first, ymd_is_valid,
    weekday_from_monday, day_before_first_of, MAX_YEAR, MIN_YEAR,
};

verus! {

/// The one way a month grid can fail to be built: the requested year and
/// month, or a first-of-month date derived from them, has no
/// representable date.
#[derive(Debug, Clone, Copy, PartialEq, Eq, Structural)]
pub enum CalendarError {
    InvalidDate,
}

/// English name of the given month (month is 1..=12).
pub open spec fn month_name(month: int) -> Seq<char> {
    if month == 1 {
        "January"@
    } else if month == 2 {
        "February"@
    } else if month == 3 {
        "March"@
    } else if month == 4 {
        "April"@
    } else if month == 5 {
        "May"@
    } else if month == 6 {
        "June"@
    } else if month == 7 {
        "July"@
    } else if month == 8 {
        "August"@
    } else if month == 9 {
        "September"@
    } else if month == 10 {
        "October"@
    } else {
        if month == 11 {
            "November"@
        } else {
            "December"@
        }
    }
}

/// Relies on chrono's `Month::name` and its `num_traits::FromPrimitive`
/// impl: month 1 is named "January" .. month 12 "December".
#[verifier::external_body]
fn month_name_text(month: u32) -> (r: String)
    requires
        1 <= month <= 12,
    ensures
        r@ == month_name(month as int),
{
    <chrono::Month as num_traits::FromPrimitive>::from_u32(month).unwrap().name().to_owned()
}

/// Column of the month's first day: its weekday, numbered from Monday.
pub open spec fn first_weekday(year: int, month: int) -> int {
    weekday_of(year, month, 1)
}

/// Number of week rows the month's grid has.
pub open spec fn grid_row_count(year: int, month: int) -> int {
    (first_weekday(year, month) + days_in_month(year, month) - 1) / 7 + 1
}

/// Value of the cell in week row `r`, weekday column `c`: the day of the
/// month that falls there, or 0 where no day of the month does.
pub open spec fn grid_cell(year: int, month: int, r: int, c: int) -> int {
    let k = r * 7 + c - first_weekday(year, month);
    if 0 <= k < days_in_month(year, month) {
        k + 1
    } else {
        0
    }
}

/// Week row in which day `d` of the month falls.
pub open spec fn row_of(year: int, month: int, d: int) -> int {
    (first_weekday(year, month) + d - 1) / 7
}

/// Weekday column in which day `d` of the month falls.
pub open spec fn col_of(year: int, month: int, d: int) -> int {
    (first_weekday(year, month) + d - 1) % 7
}

/// The month grid of (year, month): the right number of week rows, each
/// of exactly seven cells, each cell holding the day its position calls for.
pub open spec fn is_month_grid(g: Seq<Seq<u8>>, year: int, month: int) -> bool {
    &&& g.len() == grid_row_count(year, month)
    &&& forall|r: int| 0 <= r < g.len() ==> (#[trigger] g[r]).len() == 7
    &&& forall|r: int, c: int|
        0 <= r < g.len() && 0 <= c < 7 ==> (#[trigger] g[r][c]) as int == grid_cell(
            year,
            month,
            r,
            c,
        )
}

/// One month of the calendar, ready to render: the year, the month's
/// name, the day to highlight (0 for none), and the grid of day numbers.
pub struct Calendar {
    pub year: i32,
    pub month_name: String,
    pub today: u32,
    pub days_matrix: Vec<Vec<u8>>,
}

impl Calendar {
    /// The grid as a sequence of week rows of day numbers.
    pub open spec fn grid(&self) -> Seq<Seq<u8>> {
        self.days_matrix@.map_values(|w: Vec<u8>| w@)
    }

    /// Number of days in the month, found without a month-length table:
    /// take the first of the next month (January of the next year after
    /// December) and step one day back.
    pub fn get_last_day_in_month(year: i32, month: u32) -> (r: u32)
        requires
            1 <= month <= 12,
            MIN_YEAR <= year <= MAX_YEAR,
            !(month == 12 && year == MAX_YEAR),
        ensures
            r == days_in_month(year as int, month as int),
    {
        if month < 12 {
            day_before_first_of(year, month + 1)
        } else {
            day_before_first_of(year + 1, 1)
        }
    }

    /// Build the grid for (year, month). Walks the days in order, placing
    /// each in the current week row at its weekday column and opening a
    /// fresh row after each Sunday that is not the month's last day.
    pub fn create_month(year: i32, month: u32, today: u32) -> (r: Result<Calendar, CalendarError>)
        ensures
            r is Ok <==> (1 <= month <= 12 && MIN_YEAR <= year <= MAX_YEAR && !(month == 12
                && year == MAX_YEAR)),
            r matches Err(e) ==> e == CalendarError::InvalidDate,
            r matches Ok(c) ==> {
                &&& c.year == year
                &&& c.today == today
                &&& c.month_name@ == month_name(month as int)
                &&& is_month_grid(c.grid(), year as int, month as int)
            },
    {
        if !ymd_is_valid(year, month, 1) {
            return Err(CalendarError::InvalidDate);
        }
        if month == 12 && year == MAX_YEAR {
            return Err(CalendarError::InvalidDate);
        }
        let n: u32 = Self::get_last_day_in_month(year, month);
        let ghost w1: int = first_weekday(year as int, month as int);
        proof {
            lemma_basic_div(w1, 7);
        }

        let mut weeks: Vec<Vec<u8>> = Vec::new();
        let mut row: Vec<u8> = zero_row();
        let mut day: u32 = 1;
        while day <= n
            invariant
                1 <= day <= n + 1,
                n == days_in_month(year as int, month as int),
                1 <= n <= 31,
                valid_date(year as int, month as int, 1),
                w1 == first_weekday(year as int, month as int),
                0 <= w1 < 7,
                weeks@.len() == (w1 + (if day <= n {
                    day as int
                } else {
                    n as int
                }) - 1) / 7,
                forall|r: int| 0 <= r < weeks@.len() ==> (#[trigger] weeks@[r])@.len() == 7,
                forall|r: int, c: int|
                    0 <= r < weeks@.len() && 0 <= c < 7 ==> (#[trigger] weeks@[r]@[c]) as int
                        == grid_cell(year as int, month as int, r, c),
                row@.len() == 7,
                forall|c: int|
                    0 <= c < 7 ==> (#[trigger] row@[c]) as int == ({
                        let k = weeks@.len() * 7 + c - w1;
                        if 0 <= k <= day - 2 {
                            k + 1
                        } else {
                            0
                        }
                    }),
            decreases n + 1 - day,
        {
            let ghost pos: int = w1 + day - 1;
            let weekday: u32 = weekday_from_monday(year, month, day);
            proof {
                lemma_weekday_from_first(year as int, month as int, day as int);
                lemma_fundamental_div_mod(pos, 7);
                assert(weekday == pos % 7);
                assert(weeks@.len() == pos / 7);
                assert(weeks@.len() * 7 + weekday - w1 == day - 1);
            }
            row.set(weekday as usize, day as u8);
            if weekday == 6 && day < n {
                proof {
                    assert(weeks@.len() * 7 + 6 - w1 == day - 1);
                    lemma_fundamental_div_mod_converse(pos + 1, 7, pos / 7 + 1, 0);
                }
                weeks.push(row);
                row = zero_row();
            } else {
                proof {
                    if day < n {
                        lemma_fundamental_div_mod_converse(pos + 1, 7, pos / 7, pos % 7 + 1);
                    }
                }
            }
            day = day + 1;
        }
        weeks.push(row);

        Ok(Calendar {
            year,
            month_name: month_name_text(month),
            today,
            days_matrix: weeks,
        })
    }
}

/// Law: in a month grid the non-zero cells, read row by row and left to
/// right within a row, are exactly the days 1..=N of the month, with no
/// gap and no repeat, and each sits in the column of its date's weekday
/// (Monday = column 0).
pub proof fn lemma_grid_days(g: Seq<Seq<u8>>, year: int, month: int)
    requires
        1 <= month <= 12,
        is_month_grid(g, year, month),
    ensures
        forall|d: int|
            1 <= d <= days_in_month(year, month) ==> 0 <= #[trigger] row_of(year, month, d)
                < g.len() && 0 <= col_of(year, month, d) < 7 && g[row_of(year, month, d)][col_of(
                year,
                month,
                d,
            )] as int == d,
        forall|r: int, c: int|
            0 <= r < g.len() && 0 <= c < 7 && (#[trigger] g[r][c]) != 0 ==> {
                &&& 1 <= g[r][c] <= days_in_month(year, month)
                &&& r * 7 + c == first_weekday(year, month) + g[r][c] - 1
                &&& c == weekday_of(year, month, g[r][c] as int)
            },
        forall|r1: int, c1: int, r2: int, c2: int|
            0 <= r1 < g.len() && 0 <= c1 < 7 && 0 <= r2 < g.len() && 0 <= c2 < 7 && (#[trigger] g[r1][c1])
                != 0 && (#[trigger] g[r2][c2]) != 0 && r1 * 7 + c1 < r2 * 7 + c2 ==> g[r1][c1]
                < g[r2][c2],
{
    let w1 = first_weekday(year, month);
    let n = days_in_month(year, month);
    assert(0 <= w1 < 7);
    assert forall|d: int| 1 <= d <= n implies 0 <= #[trigger] row_of(year, month, d) < g.len()
        && 0 <= col_of(year, month, d) < 7 && g[row_of(year, month, d)][col_of(
        year,
        month,
        d,
    )] as int == d by {
        let p = w1 + d - 1;
        lemma_fundamental_div_mod(p, 7);
        lemma_div_is_ordered(p, w1 + n - 1, 7);
        lemma_div_is_ordered(0, p, 7);
        assert((p / 7) * 7 + p % 7 - w1 == d - 1);
        assert(g[p / 7][p % 7] as int == grid_cell(year, month, p / 7, p % 7));
    }
    assert forall|r: int, c: int|
        0 <= r < g.len() && 0 <= c < 7 && (#[trigger] g[r][c]) != 0 implies {
        &&& 1 <= g[r][c] <= n
        &&& r * 7 + c == w1 + g[r][c] - 1
        &&& c == weekday_of(year, month, g[r][c] as int)
    } by {
        assert(g[r][c] as int == grid_cell(year, month, r, c));
        let d = g[r][c] as int;
        lemma_weekday_from_first(year, month, d);
        lemma_fundamental_div_mod_converse(w1 + d - 1, 7, r, c);
    }
}

/// Law: the grid is a function of the year and the month alone: any two
/// month grids for the same year and month are equal.
pub proof fn lemma_grid_unique(g1: Seq<Seq<u8>>, g2: Seq<Seq<u8>>, year: int, month: int)
    requires
        is_month_grid(g1, year, month),
        is_month_grid(g2, year, month),
    ensures
        g1 == g2,
{
    assert forall|r: int| 0 <= r < g1.len() implies g1[r] == g2[r] by {
        assert forall|c: int| 0 <= c < 7 implies g1[r][c] == g2[r][c] by {
            assert(g1[r][c] as int == grid_cell(year, month, r, c));
            assert(g2[r][c] as int == grid_cell(year, month, r, c));
        }
        assert(g1[r] =~= g2[r]);
    }
    assert(g1 =~= g2);
}

/// Every cell of a month grid is a day number at most 31 (or 0), and
/// every row has seven cells: the shape the renderer asks for.
pub proof fn lemma_grid_renderable(g: Seq<Seq<u8>>, year: int, month: int)
    requires
        is_month_grid(g, year, month),
    ensures
        forall|r: int| 0 <= r < g.len() ==> (#[trigger] g[r]).len() == 7,
        forall|r: int, c: int|
            0 <= r < g.len() && 0 <= c < 7 ==> (#[trigger] g[r][c]) <= 31,
{
    assert forall|r: int, c: int|
        0 <= r < g.len() && 0 <= c < 7 implies (#[trigger] g[r][c]) <= 31 by {
        assert(g[r][c] as int == grid_cell(year, month, r, c));
    }
}

/// A week row with no day placed yet: seven empty cells.
fn zero_row() -> (r: Vec<u8>)
    ensures
        r@.len() == 7,
        forall|c: int| 0 <= c < 7 ==> (#[trigger] r@[c]) == 0u8,
{
    let mut v: Vec<u8> = Vec::new();
    v.push(0);
    v.push(0);
    v.push(0);
    v.push(0);
    v.push(0);
    v.push(0);
    v.push(0);
    v
}

} // verus!
