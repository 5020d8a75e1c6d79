//! Rendering a built month to text lines: a centered title, a weekday
//! header, and one line per week row, with the cell of the current day
//! passed through the terminal-styling call.
use vstd::prelude::*;
use vstd::string::{StrSliceExecFns, StringExecFns};
use crate::calendar::Calendar;
use colored::Colorize;

verus! {

/// Width, in characters, of the display the title is centered in.
pub const TITLE_WIDTH: usize = 28;

/// The decimal digit characters.
pub open spec fn digit_char(d: int) -> char {
    if d == 0 {
        '0'
    } else if d == 1 {
        '1'
    } else if d == 2 {
        '2'
    } else if d == 3 {
        '3'
    } else if d == 4 {
        '4'
    } else if d == 5 {
        '5'
    } else if d == 6 {
        '6'
    } else if d == 7 {
        '7'
    } else if d == 8 {
        '8'
    } else {
        '9'
    }
}

/// Decimal digits of a non-negative number, most significant first.
pub open spec fn dec_digits(n: int) -> Seq<char>
    decreases n,
{
    if n < 10 {
        seq![digit_char(n)]
    } else {
        dec_digits(n / 10).push(digit_char(n % 10))
    }
}

/// Decimal text of an integer, with a leading minus sign if negative.
pub open spec fn int_text(n: int) -> Seq<char> {
    if n >= 0 {
        dec_digits(n)
    } else {
        seq!['-'] + dec_digits(-n)
    }
}

/// `n` spaces (none if `n` is negative).
pub open spec fn spaces(n: int) -> Seq<char> {
    Seq::new(if n >= 0 { n as nat } else { 0 }, |i: int| ' ')
}

/// `s` centered in a line of `width` characters; with an odd padding the
/// extra space goes to the right, as Rust's center formatting puts it.
pub open spec fn centered(s: Seq<char>, width: int) -> Seq<char> {
    if s.len() >= width {
        s
    } else {
        let pad = width - s.len();
        spaces(pad / 2) + s + spaces(pad - pad / 2)
    }
}

/// The title line's text: the month's name, a dash, the year.
pub open spec fn title_text(name: Seq<char>, year: int) -> Seq<char> {
    name + " - "@ + int_text(year)
}

/// Abbreviated English name of weekday `i`, numbered from Monday = 0.
pub open spec fn weekday_label(i: int) -> Seq<char> {
    if i == 0 {
        "Mon"@
    } else if i == 1 {
        "Tue"@
    } else if i == 2 {
        "Wed"@
    } else if i == 3 {
        "Thu"@
    } else if i == 4 {
        "Fri"@
    } else if i == 5 {
        "Sat"@
    } else {
        "Sun"@
    }
}

/// The header up to column `i`: each weekday label followed by a space.
pub open spec fn header_text(i: int) -> Seq<char>
    decreases i,
{
    if i <= 0 {
        Seq::empty()
    } else {
        header_text(i - 1) + weekday_label(i - 1) + " "@
    }
}

/// The full header line reads "Mon Tue Wed Thu Fri Sat Sun ".
pub proof fn lemma_header_line_text()
    ensures
        header_text(7) == "Mon Tue Wed Thu Fri Sat Sun "@,
{
    reveal_strlit("Mon");
    reveal_strlit("Tue");
    reveal_strlit("Wed");
    reveal_strlit("Thu");
    reveal_strlit("Fri");
    reveal_strlit("Sat");
    reveal_strlit("Sun");
    reveal_strlit(" ");
    reveal_strlit("Mon Tue Wed Thu Fri Sat Sun ");
    assert(header_text(0) == Seq::<char>::empty());
    assert(header_text(1) == header_text(0) + weekday_label(0) + " "@);
    assert(header_text(2) == header_text(1) + weekday_label(1) + " "@);
    assert(header_text(3) == header_text(2) + weekday_label(2) + " "@);
    assert(header_text(4) == header_text(3) + weekday_label(3) + " "@);
    assert(header_text(5) == header_text(4) + weekday_label(4) + " "@);
    assert(header_text(6) == header_text(5) + weekday_label(5) + " "@);
    assert(header_text(7) == header_text(6) + weekday_label(6) + " "@);
    assert(header_text(7) =~= "Mon Tue Wed Thu Fri Sat Sun "@);
}

/// The four-character cell of an empty grid position.
pub open spec fn blank_cell() -> Seq<char> {
    seq![' ', ' ', ' ', ' ']
}

/// The four-character cell of day `d`: the day number right-aligned in
/// two characters, between single spaces.
pub open spec fn cell_text(d: int) -> Seq<char> {
    if d < 10 {
        seq![' ', ' ', digit_char(d), ' ']
    } else {
        seq![' ', digit_char(d / 10), digit_char(d % 10), ' ']
    }
}

/// What may stand in the output for one grid cell: the blank cell for an
/// empty position, the plain day cell for an ordinary day, and for the
/// highlighted day its cell with whatever styling text surrounds it.
pub open spec fn day_cell_ok(day: int, today: int, out: Seq<char>) -> bool {
    if day == 0 {
        out == blank_cell()
    } else if day == today {
        exists|pre: Seq<char>, post: Seq<char>| out == pre + cell_text(day) + post
    } else {
        out == cell_text(day)
    }
}

/// What may stand in the output for one week row: the row's seven cells,
/// each acceptable for its day, concatenated in column order.
pub open spec fn week_line_ok(week: Seq<u8>, today: int, out: Seq<char>) -> bool {
    exists|cells: Seq<Seq<char>>|
        {
            &&& cells.len() == week.len()
            &&& (forall|i: int|
                0 <= i < week.len() ==> day_cell_ok(week[i] as int, today, #[trigger] cells[i]))
            &&& out == cells.flatten()
        }
}

/// A grid the renderer can take: week rows of seven cells, day numbers
/// at most 31.
pub open spec fn renderable_grid(g: Seq<Seq<u8>>) -> bool {
    &&& forall|r: int| 0 <= r < g.len() ==> (#[trigger] g[r]).len() == 7
    &&& forall|r: int, c: int| 0 <= r < g.len() && 0 <= c < 7 ==> (#[trigger] g[r][c]) <= 31
}

/// Relies on colored's `Colorize::black` / `Colorize::on_white` and the
/// `Display` impl of `ColoredString`: the result is the input with the
/// styling text the terminal configuration calls for around it, or the
/// input itself where styling is off.
#[verifier::external_body]
fn style_today_cell(s: &str) -> (r: String)
    requires
        forall|i: int| 0 <= i < s@.len() ==> s@[i] != '\u{1b}',
    ensures
        exists|pre: Seq<char>, post: Seq<char>| r@ == pre + s@ + post,
{
    s.black().on_white().to_string()
}

/// Relies on chrono's `Weekday` `Display` impl and its
/// `num_traits::FromPrimitive` impl: weekday 0 is shown "Mon" .. 6 "Sun".
#[verifier::external_body]
fn weekday_label_text(i: u32) -> (r: String)
    requires
        i < 7,
    ensures
        r@ == weekday_label(i as int),
{
    <chrono::Weekday as num_traits::FromPrimitive>::from_u32(i).unwrap().to_string()
}

/// The single-character text of decimal digit `d`.
fn digit_text(d: u32) -> (r: &'static str)
    requires
        d < 10,
    ensures
        r@ == seq![digit_char(d as int)],
{
    let r = if d == 0 {
        "0"
    } else if d == 1 {
        "1"
    } else if d == 2 {
        "2"
    } else if d == 3 {
        "3"
    } else if d == 4 {
        "4"
    } else if d == 5 {
        "5"
    } else if d == 6 {
        "6"
    } else if d == 7 {
        "7"
    } else if d == 8 {
        "8"
    } else {
        "9"
    };
    proof {
        reveal_strlit("0");
        reveal_strlit("1");
        reveal_strlit("2");
        reveal_strlit("3");
        reveal_strlit("4");
        reveal_strlit("5");
        reveal_strlit("6");
        reveal_strlit("7");
        reveal_strlit("8");
        reveal_strlit("9");
        assert(r@ =~= seq![digit_char(d as int)]);
    }
    r
}

/// Decimal text of a number, most significant digit first.
fn number_text(n: u32) -> (r: String)
    ensures
        r@ == dec_digits(n as int),
    decreases n,
{
    if n < 10 {
        let mut s = String::new();
        s.append(digit_text(n));
        proof {
            assert(s@ =~= dec_digits(n as int));
        }
        s
    } else {
        let mut s = number_text(n / 10);
        s.append(digit_text(n % 10));
        proof {
            assert(s@ =~= dec_digits(n as int));
        }
        s
    }
}

/// Decimal text of the year, with a minus sign for years before year 0.
fn year_text(year: i32) -> (r: String)
    ensures
        r@ == int_text(year as int),
{
    if year >= 0 {
        number_text(year as u32)
    } else {
        let magnitude: i64 = -(year as i64);
        let mut s = String::from_str("-");
        let digits = number_text(magnitude as u32);
        s.append(digits.as_str());
        proof {
            reveal_strlit("-");
            assert(s@ =~= int_text(year as int));
        }
        s
    }
}

/// A line of `n` spaces.
fn spaces_text(n: usize) -> (r: String)
    ensures
        r@ == spaces(n as int),
{
    let mut s = String::new();
    let mut i: usize = 0;
    while i < n
        invariant
            i <= n,
            s@ == spaces(i as int),
        decreases n - i,
    {
        s.append(" ");
        proof {
            reveal_strlit(" ");
            assert(s@ =~= spaces(i as int + 1));
        }
        i = i + 1;
    }
    proof {
        assert(s@ =~= spaces(n as int));
    }
    s
}

/// `s` centered in the display width.
fn centered_line(s: String) -> (r: String)
    ensures
        r@ == centered(s@, TITLE_WIDTH as int),
{
    let n = s.as_str().unicode_len();
    if n >= TITLE_WIDTH {
        s
    } else {
        let pad: usize = TITLE_WIDTH - n;
        let left: usize = pad / 2;
        let right: usize = pad - left;
        let mut r = spaces_text(left);
        r.append(s.as_str());
        let tail = spaces_text(right);
        r.append(tail.as_str());
        proof {
            assert(r@ =~= centered(s@, TITLE_WIDTH as int));
        }
        r
    }
}

/// The header line: the seven weekday labels, each followed by a space.
fn header_line() -> (r: String)
    ensures
        r@ == header_text(7),
{
    let mut s = String::new();
    let mut i: u32 = 0;
    while i < 7
        invariant
            i <= 7,
            s@ == header_text(i as int),
        decreases 7 - i,
    {
        let label = weekday_label_text(i);
        s.append(label.as_str());
        s.append(" ");
        proof {
            reveal_strlit(" ");
            assert(s@ =~= header_text(i as int + 1));
        }
        i = i + 1;
    }
    s
}

/// The four-character cell of a day of the month.
fn day_cell_text(day: u8) -> (r: String)
    requires
        1 <= day <= 31,
    ensures
        r@ == cell_text(day as int),
{
    let mut s = String::from_str(" ");
    if day < 10 {
        s.append(" ");
        s.append(digit_text(day as u32));
    } else {
        s.append(digit_text((day / 10) as u32));
        s.append(digit_text((day % 10) as u32));
    }
    s.append(" ");
    proof {
        reveal_strlit(" ");
        assert(s@ =~= cell_text(day as int));
    }
    s
}

/// The output for one grid cell: blank for 0, the day cell otherwise,
/// styled where the day is the one to highlight.
fn render_day_cell(day: u8, today: u32) -> (r: String)
    requires
        day <= 31,
    ensures
        day_cell_ok(day as int, today as int, r@),
{
    if day == 0 {
        let s = String::from_str("    ");
        proof {
            reveal_strlit("    ");
            assert(s@ =~= blank_cell());
        }
        s
    } else {
        let text = day_cell_text(day);
        if day as u32 == today {
            proof {
                assert forall|i: int| 0 <= i < text@.len() implies text@[i] != '\u{1b}' by {
                    assert(text@ == cell_text(day as int));
                    assert(digit_char((day as int) % 10) != '\u{1b}');
                    assert(digit_char((day as int) / 10) != '\u{1b}');
                    assert(digit_char(day as int) != '\u{1b}');
                }
            }
            let styled = style_today_cell(text.as_str());
            proof {
                let (pre, post) = choose|pre: Seq<char>, post: Seq<char>|
                    styled@ == pre + text@ + post;
                assert(styled@ == pre + cell_text(day as int) + post);
            }
            styled
        } else {
            text
        }
    }
}

/// The text line of one week row: its seven cells in column order.
fn week_line(week: &Vec<u8>, today: u32) -> (r: String)
    requires
        week@.len() == 7,
        forall|i: int| 0 <= i < 7 ==> (#[trigger] week@[i]) <= 31,
    ensures
        week_line_ok(week@, today as int, r@),
{
    let mut s = String::new();
    let ghost mut cells: Seq<Seq<char>> = Seq::empty();
    proof {
        assert(cells.flatten() =~= s@);
    }
    let mut i: usize = 0;
    while i < 7
        invariant
            i <= 7,
            week@.len() == 7,
            forall|j: int| 0 <= j < 7 ==> (#[trigger] week@[j]) <= 31,
            cells.len() == i,
            forall|j: int|
                0 <= j < i ==> day_cell_ok(week@[j] as int, today as int, #[trigger] cells[j]),
            s@ == cells.flatten(),
        decreases 7 - i,
    {
        let cell = render_day_cell(week[i], today);
        s.append(cell.as_str());
        proof {
            cells.lemma_flatten_push(cell@);
            cells = cells.push(cell@);
        }
        i = i + 1;
    }
    proof {
        assert(week_line_ok(week@, today as int, s@));
    }
    s
}

impl Calendar {
    /// The rendered month: a blank line, the centered "name - year"
    /// title, a blank line, the weekday header, one line per week row
    /// with the current day's cell styled, and a final blank line.
    #[verifier::loop_isolation(false)]
    pub fn pretty_print(&self) -> (r: Vec<String>)
        requires
            renderable_grid(self.grid()),
        ensures
            r@.len() == self.grid().len() + 5,
            r@[0]@ == Seq::<char>::empty(),
            r@[1]@ == centered(title_text(self.month_name@, self.year as int), TITLE_WIDTH as int),
            r@[2]@ == Seq::<char>::empty(),
            r@[3]@ == header_text(7),
            forall|i: int|
                0 <= i < self.grid().len() ==> week_line_ok(
                    self.grid()[i],
                    self.today as int,
                    (#[trigger] r@[4 + i])@,
                ),
            r@[r@.len() - 1]@ == Seq::<char>::empty(),
    {
        let mut lines: Vec<String> = Vec::new();
        lines.push(String::new());

        let mut title = self.month_name.clone();
        title.append(" - ");
        let year = year_text(self.year);
        title.append(year.as_str());
        proof {
            reveal_strlit(" - ");
            assert(title@ =~= title_text(self.month_name@, self.year as int));
        }
        lines.push(centered_line(title));
        lines.push(String::new());
        lines.push(header_line());

        let mut i: usize = 0;
        while i < self.days_matrix.len()
            invariant
                i <= self.days_matrix.len(),
                lines@.len() == 4 + i,
                forall|j: int|
                    0 <= j < i ==> week_line_ok(
                        self.grid()[j],
                        self.today as int,
                        (#[trigger] lines@[4 + j])@,
                    ),
                lines@[0]@ == Seq::<char>::empty(),
                lines@[1]@ == centered(
                    title_text(self.month_name@, self.year as int),
                    TITLE_WIDTH as int,
                ),
                lines@[2]@ == Seq::<char>::empty(),
                lines@[3]@ == header_text(7),
            decreases self.days_matrix@.len() - i,
        {
            let week = &self.days_matrix[i];
            proof {
                assert(self.grid()[i as int] == week@);
            }
            lines.push(week_line(week, self.today));
            i = i + 1;
        }
        lines.push(String::new());
        lines
    }
}

} // verus!
