pub mod calendar;
pub mod dates;
pub mod render;
