use chrono::Datelike;
use month_calendar::calendar::{Calendar, CalendarError};

fn nonzero_row_major(c: &Calendar) -> Vec<u8> {
    let mut days = Vec::new();
    for week in c.days_matrix.iter() {
        for day in week.iter() {
            if *day != 0 {
                days.push(*day);
            }
        }
    }
    days
}

#[test]
fn month_lengths_reference() {
    assert_eq!(Calendar::get_last_day_in_month(2000, 2), 29);
    assert_eq!(Calendar::get_last_day_in_month(1900, 2), 28);
    assert_eq!(Calendar::get_last_day_in_month(2024, 2), 29);
    assert_eq!(Calendar::get_last_day_in_month(2023, 2), 28);
    assert_eq!(Calendar::get_last_day_in_month(2024, 4), 30);
    assert_eq!(Calendar::get_last_day_in_month(2024, 12), 31);
}

#[test]
fn grid_days_are_one_to_n() {
    for &(year, month, n) in &[(2024, 2, 29), (2023, 2, 28), (2000, 2, 29), (1900, 2, 28), (2024, 12, 31)] {
        let c = Calendar::create_month(year, month, 0).unwrap();
        let days = nonzero_row_major(&c);
        let expected: Vec<u8> = (1..=n).collect();
        assert_eq!(days, expected);
    }
}

#[test]
fn rows_have_seven_cells() {
    for &(year, month) in &[(2024, 1), (2024, 2), (2023, 2), (1999, 12), (-44, 3)] {
        let c = Calendar::create_month(year, month, 0).unwrap();
        for week in c.days_matrix.iter() {
            assert_eq!(week.len(), 7);
        }
    }
}

#[test]
fn weekday_columns_match_real_weekdays() {
    for &(year, month) in &[(2024, 2), (2023, 9), (2000, 1)] {
        let c = Calendar::create_month(year, month, 0).unwrap();
        for week in c.days_matrix.iter() {
            for (col, day) in week.iter().enumerate() {
                if *day != 0 {
                    let date = chrono::NaiveDate::from_ymd_opt(year, month, *day as u32).unwrap();
                    assert_eq!(col as u32, date.weekday().num_days_from_monday());
                }
            }
        }
    }
}

#[test]
fn builder_is_deterministic() {
    let a = Calendar::create_month(2024, 3, 7).unwrap();
    let b = Calendar::create_month(2024, 3, 7).unwrap();
    assert_eq!(a.days_matrix, b.days_matrix);
    assert_eq!(a.month_name, b.month_name);
    assert_eq!(a.year, b.year);
    assert_eq!(a.today, b.today);
}

#[test]
fn invalid_month_rejected() {
    assert!(matches!(Calendar::create_month(2024, 0, 1), Err(CalendarError::InvalidDate)));
    assert!(matches!(Calendar::create_month(2024, 13, 1), Err(CalendarError::InvalidDate)));
}

#[test]
fn year_range_boundaries() {
    assert!(Calendar::create_month(262142, 11, 1).is_ok());
    assert!(matches!(Calendar::create_month(262142, 12, 1), Err(CalendarError::InvalidDate)));
    assert!(matches!(Calendar::create_month(262143, 1, 1), Err(CalendarError::InvalidDate)));
    assert!(Calendar::create_month(-262143, 1, 1).is_ok());
    assert!(matches!(Calendar::create_month(-262144, 1, 1), Err(CalendarError::InvalidDate)));
}

#[test]
fn december_rolls_over_to_january() {
    let c = Calendar::create_month(2023, 12, 0).unwrap();
    let days = nonzero_row_major(&c);
    assert_eq!(*days.last().unwrap(), 31);
    assert_eq!(c.month_name, "December");
}

#[test]
fn february_2024_ends_on_thursday_column() {
    let c = Calendar::create_month(2024, 2, 0).unwrap();
    let last_week = c.days_matrix.last().unwrap();
    assert_eq!(last_week[3], 29);
    for col in 4..7 {
        assert_eq!(last_week[col], 0);
    }
}

#[test]
fn february_2023_ends_at_28() {
    let c = Calendar::create_month(2023, 2, 0).unwrap();
    let days = nonzero_row_major(&c);
    assert_eq!(*days.last().unwrap(), 28);
    assert!(!days.contains(&29));
}

#[test]
fn january_2024_first_row_is_full() {
    let c = Calendar::create_month(2024, 1, 0).unwrap();
    assert_eq!(c.days_matrix[0], vec![1, 2, 3, 4, 5, 6, 7]);
}

#[test]
fn first_day_on_sunday_sits_alone_in_first_row() {
    // September 2024 starts on a Sunday.
    let c = Calendar::create_month(2024, 9, 0).unwrap();
    assert_eq!(c.days_matrix[0], vec![0, 0, 0, 0, 0, 0, 1]);
    assert_eq!(c.days_matrix[1], vec![2, 3, 4, 5, 6, 7, 8]);
}

#[test]
fn month_ending_on_sunday_has_no_empty_trailing_row() {
    // 2024-06-30 is a Sunday.
    let c = Calendar::create_month(2024, 6, 0).unwrap();
    let last_week = c.days_matrix.last().unwrap();
    assert_eq!(last_week[6], 30);
}

#[test]
fn month_names_resolved() {
    assert_eq!(Calendar::create_month(2024, 1, 0).unwrap().month_name, "January");
    assert_eq!(Calendar::create_month(2024, 6, 0).unwrap().month_name, "June");
    assert_eq!(Calendar::create_month(2024, 12, 0).unwrap().month_name, "December");
}
