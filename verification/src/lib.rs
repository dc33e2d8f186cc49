//! Exact 2D analytic geometry for non-vertical straight lines.
//!
//! A line is kept in slope/intercept form `y = m*x + q`, with both
//! coefficients exact rationals, so every contract in this crate states the
//! textbook formula with no rounding involved.

pub mod line;
pub mod rat;

pub use line::get_intercept;
pub use line::get_line_from_point_and_slope;
pub use line::get_line_from_points;
pub use line::get_slope;
pub use line::get_y_from_x;
pub use line::Line;
pub use rat::Rat;
