//! Maximum and minimum selection over values whose order may be partial.
//!
//! Every selection follows one policy: the earlier value is kept unless a
//! later one is strictly greater (for a maximum) or strictly less (for a
//! minimum). Equal and incomparable values therefore never displace the
//! value that came first.
//!
//! - [`select`]: between two values.
//! - [`reduce`]: over the items of an iterator, in one pass.
//! - [`compose`]: among two or more values given at once.
//!
//! Each function states its result twice. A relation (`max_selected`,
//! `max_reduced`, `max_composed` and their `min` twins) says which runs
//! of the comparisons can lead to the result, and holds of every type. A
//! function (`select_max`, `reduce_max`, `compose_max`) names the one
//! result where the comparison of the type has a specification, as that
//! of the integers has. The laws in [`reduce_laws`] and [`compose_laws`]
//! say when that result is a maximum or minimum in the usual sense.

pub mod compose;
pub mod compose_laws;
pub mod order;
pub mod reduce;
pub mod reduce_laws;
pub mod select;

pub use compose::{max_many, min_many};
pub use reduce::{partial_max_iter, partial_min_iter};
pub use select::{partial_max, partial_min};
