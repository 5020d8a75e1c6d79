use colored::Colorize;
use month_calendar::calendar::Calendar;

#[test]
fn rendered_month_structure() {
    let c = Calendar::create_month(2024, 5, 0).unwrap();
    let lines = c.pretty_print();
    assert_eq!(lines.len(), c.days_matrix.len() + 5);
    assert_eq!(lines[0], "");
    assert_eq!(lines[2], "");
    assert_eq!(lines[3], "Mon Tue Wed Thu Fri Sat Sun ");
    assert_eq!(*lines.last().unwrap(), "");
}

#[test]
fn title_is_centered() {
    let c = Calendar::create_month(2024, 5, 0).unwrap();
    let lines = c.pretty_print();
    // "May - 2024" is 10 characters; 18 spaces of padding, split 9 and 9.
    assert_eq!(lines[1], "         May - 2024         ");
    assert_eq!(lines[1], format!("{: ^28}", "May - 2024"));

    let c = Calendar::create_month(2023, 9, 0).unwrap();
    let lines = c.pretty_print();
    assert_eq!(lines[1], format!("{: ^28}", "September - 2023"));
}

#[test]
fn negative_year_title() {
    let c = Calendar::create_month(-44, 3, 0).unwrap();
    let lines = c.pretty_print();
    assert_eq!(lines[1], format!("{: ^28}", "March - -44"));
}

#[test]
fn january_2024_week_lines_exact() {
    let c = Calendar::create_month(2024, 1, 0).unwrap();
    let lines = c.pretty_print();
    assert_eq!(lines[4], "  1   2   3   4   5   6   7 ");
    assert_eq!(lines[5], "  8   9  10  11  12  13  14 ");
    assert_eq!(lines[8], " 29  30  31                 ");
}

#[test]
fn september_2024_first_week_line() {
    // September 2024 starts on a Sunday: six blank cells, then day 1.
    let c = Calendar::create_month(2024, 9, 0).unwrap();
    let lines = c.pretty_print();
    assert_eq!(lines[4], "                          1 ");
}

#[test]
fn today_cell_is_styled_exactly_once() {
    colored::control::set_override(true);
    let c = Calendar::create_month(2024, 5, 15).unwrap();
    let lines = c.pretty_print();
    let week_lines = &lines[4..lines.len() - 1];
    let styled: Vec<&String> = week_lines.iter().filter(|l| l.contains('\u{1b}')).collect();
    assert_eq!(styled.len(), 1);
    let expected_cell = format!("{}", " 15 ".black().on_white());
    assert!(styled[0].contains(&expected_cell));
    let resets: usize = week_lines.iter().map(|l| l.matches("\u{1b}[0m").count()).sum();
    assert_eq!(resets, 1);
}

#[test]
fn absent_today_styles_nothing() {
    colored::control::set_override(true);
    let c = Calendar::create_month(2024, 5, 40).unwrap();
    let lines = c.pretty_print();
    for line in &lines {
        assert!(!line.contains('\u{1b}'));
    }
}
