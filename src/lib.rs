//! Capability traits over sequence containers, with two backends: the
//! growable `Vec<T>` and the bounded `FixedVec<T, N>`. Every operation that
//! needs room reports a shortage through `Error<T>`, handing a rejected
//! value back to the caller; nothing ends the process.
use vstd::prelude::*;

mod collection;
mod error;
mod fixed;
mod growable;
pub mod laws;
mod list;
pub mod model;
pub mod vec_ops;

pub use collection::{Collection, CollectionMut};
pub use error::{CapacityError, Error};
pub use fixed::FixedVec;
pub use list::{List, ListMut, ListResizable, ListSortable};
