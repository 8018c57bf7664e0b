//! Verified state and decision logic behind a set of accessible UI primitives:
//! roving focus, attribute merging, calendar arithmetic, list reordering,
//! virtualised-list measurement, one-time-password patterns, typeahead keyboard
//! layouts and option selection.

pub mod focus;
pub mod calendar;
pub mod attributes;
pub mod recycle;
pub mod text;
pub mod drag_drop;
pub mod otp;
pub mod text_search;
pub mod selection;
pub mod selectable;
pub mod combobox;
pub mod select;
pub mod navbar;
pub mod menu;
pub mod radio;
pub mod accordion;
pub mod styling;
pub mod date_segment;
pub mod calendar_nav;
pub mod pointer;
pub mod date_picker;
pub mod controlled;
pub mod overlay;
pub mod badge;
