//! An iterator adapter that can look one element back and one element ahead.
//!
//! [`PrevPeekable`] wraps any iterator whose items can be cloned. Besides
//! `next`, it offers `peek` (the element the next call of `next` will return),
//! `prev` and `prev_peek` (the element returned just before the last one; once
//! the source is exhausted, the last element returned, for good).

pub mod model;
pub mod prev_peekable;

pub use prev_peekable::PrevPeekable;
