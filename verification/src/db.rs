//! Data model of the reading store: the row shapes the store accepts and
//! returns, and the conversions the rest of the system needs around it. The
//! storage engine itself is an external collaborator.
use vstd::prelude::*;

pub mod model;
