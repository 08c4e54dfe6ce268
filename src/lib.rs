//! Projection of a compact loop-route timetable onto every physical stop of
//! the route: pattern expansion, alignment on the dense stop path, time
//! interpolation and headsign assignment.

pub mod clock;
pub mod text;
pub mod data;
pub mod align;
pub mod interpolate;
pub mod headsign;
pub mod project;
pub mod catalogue;

pub use data::{get_trips, Pattern, TripInput};
