//! One function per interactive operation that takes a raw id line: it
//! parses the line and touches the store only when the line denotes an id,
//! exactly as the menu behaves.

use crate::parse::{parse_id, parsed_id};
use crate::store::{StorageError, Store};
use crate::tasks::{spec_complete, spec_delete};
use vstd::prelude::*;

verus! {

/// How an id-taking operation went: applied to the store, rejected before
/// the store was touched, or failed inside the store.
pub enum IdOpResult {
    Applied,
    BadInput,
    StoreFailed(StorageError),
}

/// Completes the task named by a raw id line. On a line that denotes no id
/// the store is untouched and the input is reported bad; otherwise the
/// store completes that id (a no-op when it is not stored), or reports its
/// own failure with the store unchanged.
pub fn complete_from_input(store: &mut Store, raw_id: &str) -> (r: IdOpResult)
    ensures
        match r {
            IdOpResult::Applied => parsed_id(raw_id@) matches Some(v) && final(store)@
                == spec_complete(old(store)@, v),
            IdOpResult::BadInput => parsed_id(raw_id@) is None && final(store)@ == old(store)@,
            IdOpResult::StoreFailed(_) => parsed_id(raw_id@) matches Some(_) && final(store)@
                == old(store)@,
        },
{
    match parse_id(raw_id) {
        Some(id) => match store.complete_task(id) {
            Ok(_) => IdOpResult::Applied,
            Err(e) => IdOpResult::StoreFailed(e),
        },
        None => IdOpResult::BadInput,
    }
}

/// Deletes the task named by a raw id line. On a line that denotes no id
/// the store is untouched and the input is reported bad; otherwise the
/// store deletes that id (a no-op when it is not stored), or reports its
/// own failure with the store unchanged.
pub fn delete_from_input(store: &mut Store, raw_id: &str) -> (r: IdOpResult)
    ensures
        match r {
            IdOpResult::Applied => parsed_id(raw_id@) matches Some(v) && final(store)@
                == spec_delete(old(store)@, v),
            IdOpResult::BadInput => parsed_id(raw_id@) is None && final(store)@ == old(store)@,
            IdOpResult::StoreFailed(_) => parsed_id(raw_id@) matches Some(_) && final(store)@
                == old(store)@,
        },
{
    match parse_id(raw_id) {
        Some(id) => match store.delete_task(id) {
            Ok(_) => IdOpResult::Applied,
            Err(e) => IdOpResult::StoreFailed(e),
        },
        None => IdOpResult::BadInput,
    }
}

} // verus!
