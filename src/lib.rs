//! Private objects held as commitments, updated through interactions that
//! register callbacks, with append-only ledgers of commitments, nullifiers
//! and called tickets, and a scan that takes pending callbacks in, natively,
//! in constraint form, or as steps of an incremental proof.

use vstd::prelude::*;

pub mod field;
pub mod hash;
pub mod callbacks;
pub mod user;
pub mod bulletin;
pub mod scan;
pub mod central;
pub mod memory;
pub mod fold;
pub mod service;
pub mod interaction;

verus! {

} // verus!
