//! Reusable merge policies for a wrapped inner value.
pub mod first;
pub mod last;
pub mod lines;
pub mod no_merge;
pub mod ordered;
pub mod overridable;

pub use self::first::First;
pub use self::last::Last;
pub use self::lines::Lines;
pub use self::no_merge::NoMerge;
pub use self::ordered::{Order, Ordered};
pub use self::overridable::{Overridable, Priority};
