//! A terminal input layer without the terminal: the ordering, filtering and
//! classification rules that turn decoded terminal signals into one typed
//! input stream, stated as contracts and proved.

pub mod command;
pub mod event;
pub mod filter;
pub mod signal;
pub mod selector;
pub mod input;
pub mod resize;
