//! A quick application launcher: desktop entries, icon themes and search.
pub mod applications;
pub mod engine;
pub mod execution;
pub mod gui;
pub mod icon_lookup;
pub mod icon_search;
pub mod icons;
pub mod search_order;
pub mod inifile;
pub mod strings;
pub mod utils;
