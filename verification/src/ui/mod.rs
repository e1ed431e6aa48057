//! Terminal presentation: colour codes, value formatting and the text
//! of the reusable display widgets.
pub mod calendar;
pub mod color;
pub mod components;
pub mod format;
