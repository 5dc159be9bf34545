//! The decisions of the macOS Keychain backend. Secrets are generic-password
//! items keyed by service and account (the name). The `SecKeychain*` calls
//! are made by the caller: after each call it hands the status here and is
//! told the next call to make, or the answer.
use vstd::prelude::*;

use crate::error::CredError;

verus! {

/// The status of a search that matched nothing.
pub const ERR_SEC_ITEM_NOT_FOUND: i32 = -25300;

/// The status of adding an item that already exists.
pub const ERR_SEC_DUPLICATE_ITEM: i32 = -25299;

/// The Keychain statuses this backend branches on: item not found is
/// -25300 and duplicate item is -25299.
pub proof fn lemma_keychain_codes()
    ensures
        ERR_SEC_ITEM_NOT_FOUND == -25300,
        ERR_SEC_DUPLICATE_ITEM == -25299,
{
}

/// The error for a failing Security.framework status.
pub fn sec_err(status: i32) -> (e: CredError)
    ensures
        e == CredError::Security(status),
{
    CredError::Security(status)
}

/// Listing is not available on this backend: enumerating keychain items
/// needs a different part of the Security framework.
pub fn entries(_service: &str) -> (r: Result<Vec<String>, CredError>)
    ensures
        r == Err::<Vec<String>, CredError>(CredError::ListingUnsupported),
{
    Err(CredError::ListingUnsupported)
}

/// What `get` answers when the search for the item returned `status` and,
/// on success, the item's `data`.
pub fn get_outcome(status: i32, data: Vec<u8>) -> (r: Result<Option<Vec<u8>>, CredError>)
    ensures
        r == (if status == ERR_SEC_ITEM_NOT_FOUND {
            Ok(None)
        } else if status != 0 {
            Err(CredError::Security(status))
        } else {
            Ok(Some(data))
        }),
{
    if status == ERR_SEC_ITEM_NOT_FOUND {
        return Ok(None);
    }
    if status != 0 {
        return Err(sec_err(status));
    }
    Ok(Some(data))
}

/// The keychain calls that storing a secret may make.
#[derive(Clone, Copy, Debug, PartialEq, Eq, Structural)]
pub enum SetCall {
    /// Add a new generic-password item holding the secret.
    AddItem,
    /// Find the item that already exists.
    FindItem,
    /// Replace the data of the found item with the secret.
    ReplaceData,
}

/// What follows a call made while storing a secret.
#[derive(Debug)]
pub enum SetStep {
    /// Make this call next.
    Call(SetCall),
    /// Storing is over, with this answer.
    Done(Result<(), CredError>),
}

/// The step that follows `call` when it returned `status`: a new item is
/// added; only where it already exists is it found and its data replaced.
pub open spec fn set_transition(call: SetCall, status: i32) -> SetStep {
    match call {
        SetCall::AddItem => if status == 0 {
            SetStep::Done(Ok(()))
        } else if status == ERR_SEC_DUPLICATE_ITEM {
            SetStep::Call(SetCall::FindItem)
        } else {
            SetStep::Done(Err(CredError::Security(status)))
        },
        SetCall::FindItem => if status == 0 {
            SetStep::Call(SetCall::ReplaceData)
        } else {
            SetStep::Done(Err(CredError::Security(status)))
        },
        SetCall::ReplaceData => if status == 0 {
            SetStep::Done(Ok(()))
        } else {
            SetStep::Done(Err(CredError::Security(status)))
        },
    }
}

/// The step that follows `call` when it returned `status`.
pub fn set_step(call: SetCall, status: i32) -> (s: SetStep)
    ensures
        s == set_transition(call, status),
{
    match call {
        SetCall::AddItem => {
            if status == 0 {
                SetStep::Done(Ok(()))
            } else if status == ERR_SEC_DUPLICATE_ITEM {
                SetStep::Call(SetCall::FindItem)
            } else {
                SetStep::Done(Err(sec_err(status)))
            }
        },
        SetCall::FindItem => {
            if status == 0 {
                SetStep::Call(SetCall::ReplaceData)
            } else {
                SetStep::Done(Err(sec_err(status)))
            }
        },
        SetCall::ReplaceData => {
            if status == 0 {
                SetStep::Done(Ok(()))
            } else {
                SetStep::Done(Err(sec_err(status)))
            }
        },
    }
}

/// The answer of storing, starting with `call`, when the calls made return
/// `statuses` in turn; `None` while more calls are due.
pub open spec fn run_set(call: SetCall, statuses: Seq<i32>) -> Option<Result<(), CredError>>
    decreases statuses.len(),
{
    if statuses.len() == 0 {
        None
    } else {
        match set_transition(call, statuses[0]) {
            SetStep::Done(r) => Some(r),
            SetStep::Call(next) => run_set(next, statuses.drop_first()),
        }
    }
}

/// Storing a secret succeeds exactly when the secret was written: either the
/// new item was added, or the existing item was found and its data
/// replaced. It is over after at most three calls, and it fails exactly when
/// the call that ends it returns another status, which the error carries: the
/// add (with any status but the duplicate-item one), or, after a duplicate,
/// the find or the replace.
pub proof fn lemma_set_protocol(statuses: Seq<i32>)
    ensures
        run_set(SetCall::AddItem, statuses) == Some(Ok::<(), CredError>(())) <==> (
        statuses.len() >= 1 && statuses[0] == 0) || (statuses.len() >= 3 && statuses[0]
            == ERR_SEC_DUPLICATE_ITEM && statuses[1] == 0 && statuses[2] == 0),
        statuses.len() >= 3 ==> run_set(SetCall::AddItem, statuses) is Some,
        forall|e: CredError|
            run_set(SetCall::AddItem, statuses) == Some(Err::<(), CredError>(e)) <==> {
                ||| (statuses.len() >= 1 && statuses[0] != 0 && statuses[0]
                    != ERR_SEC_DUPLICATE_ITEM && e == CredError::Security(statuses[0]))
                ||| (statuses.len() >= 2 && statuses[0] == ERR_SEC_DUPLICATE_ITEM && statuses[1]
                    != 0 && e == CredError::Security(statuses[1]))
                ||| (statuses.len() >= 3 && statuses[0] == ERR_SEC_DUPLICATE_ITEM && statuses[1]
                    == 0 && statuses[2] != 0 && e == CredError::Security(statuses[2]))
            },
{
    if statuses.len() >= 1 {
        let s1 = statuses.drop_first();
        if s1.len() >= 1 {
            let s2 = s1.drop_first();
            assert(s1[0] == statuses[1]);
            if s2.len() >= 1 {
                assert(s2[0] == statuses[2]);
            }
            assert(run_set(SetCall::ReplaceData, s2) == (if s2.len() == 0 {
                None
            } else {
                Some(if s2[0] == 0 {
                    Ok(())
                } else {
                    Err(CredError::Security(s2[0]))
                })
            }));
            assert(run_set(SetCall::FindItem, s1) == (if s1[0] == 0 {
                run_set(SetCall::ReplaceData, s2)
            } else {
                Some(Err(CredError::Security(s1[0])))
            }));
        }
        assert(run_set(SetCall::AddItem, statuses) == (if statuses[0] == 0 {
            Some(Ok(()))
        } else if statuses[0] == ERR_SEC_DUPLICATE_ITEM {
            run_set(SetCall::FindItem, s1)
        } else {
            Some(Err(CredError::Security(statuses[0])))
        }));
    }
}

/// The keychain calls that deleting a secret may make.
#[derive(Clone, Copy, Debug, PartialEq, Eq, Structural)]
pub enum DeleteCall {
    /// Find the item.
    FindItem,
    /// Delete the found item.
    DeleteItem,
}

/// What follows a call made while deleting a secret.
#[derive(Debug)]
pub enum DeleteStep {
    /// Make this call next.
    Call(DeleteCall),
    /// Deleting is over, with this answer (whether the item existed).
    Done(Result<bool, CredError>),
}

/// The step that follows `call` when it returned `status`.
pub open spec fn delete_transition(call: DeleteCall, status: i32) -> DeleteStep {
    match call {
        DeleteCall::FindItem => if status == ERR_SEC_ITEM_NOT_FOUND {
            DeleteStep::Done(Ok(false))
        } else if status != 0 {
            DeleteStep::Done(Err(CredError::Security(status)))
        } else {
            DeleteStep::Call(DeleteCall::DeleteItem)
        },
        DeleteCall::DeleteItem => if status != 0 {
            DeleteStep::Done(Err(CredError::Security(status)))
        } else {
            DeleteStep::Done(Ok(true))
        },
    }
}

/// The step that follows `call` when it returned `status`.
pub fn delete_step(call: DeleteCall, status: i32) -> (s: DeleteStep)
    ensures
        s == delete_transition(call, status),
{
    match call {
        DeleteCall::FindItem => {
            if status == ERR_SEC_ITEM_NOT_FOUND {
                DeleteStep::Done(Ok(false))
            } else if status != 0 {
                DeleteStep::Done(Err(sec_err(status)))
            } else {
                DeleteStep::Call(DeleteCall::DeleteItem)
            }
        },
        DeleteCall::DeleteItem => {
            if status != 0 {
                DeleteStep::Done(Err(sec_err(status)))
            } else {
                DeleteStep::Done(Ok(true))
            }
        },
    }
}

/// The answer of deleting, starting with `call`, when the calls made return
/// `statuses` in turn; `None` while more calls are due.
pub open spec fn run_delete(call: DeleteCall, statuses: Seq<i32>) -> Option<Result<bool, CredError>>
    decreases statuses.len(),
{
    if statuses.len() == 0 {
        None
    } else {
        match delete_transition(call, statuses[0]) {
            DeleteStep::Done(r) => Some(r),
            DeleteStep::Call(next) => run_delete(next, statuses.drop_first()),
        }
    }
}

/// Deleting answers `true` exactly when the item was found and deleted, and
/// `false` exactly when no such item exists; it is over after at most two
/// calls, and a failure carries the status of the call that failed.
pub proof fn lemma_delete_protocol(statuses: Seq<i32>)
    ensures
        run_delete(DeleteCall::FindItem, statuses) == Some(Ok::<bool, CredError>(true)) <==> (
        statuses.len() >= 2 && statuses[0] == 0 && statuses[1] == 0),
        run_delete(DeleteCall::FindItem, statuses) == Some(Ok::<bool, CredError>(false)) <==> (
        statuses.len() >= 1 && statuses[0] == ERR_SEC_ITEM_NOT_FOUND),
        statuses.len() >= 2 ==> run_delete(DeleteCall::FindItem, statuses) is Some,
        forall|e: CredError|
            run_delete(DeleteCall::FindItem, statuses) == Some(Err::<bool, CredError>(e)) <==> {
                ||| (statuses.len() >= 1 && statuses[0] != 0 && statuses[0]
                    != ERR_SEC_ITEM_NOT_FOUND && e == CredError::Security(statuses[0]))
                ||| (statuses.len() >= 2 && statuses[0] == 0 && statuses[1] != 0 && e
                    == CredError::Security(statuses[1]))
            },
{
    if statuses.len() >= 1 {
        let s1 = statuses.drop_first();
        if s1.len() >= 1 {
            assert(s1[0] == statuses[1]);
        }
        assert(run_delete(DeleteCall::DeleteItem, s1) == (if s1.len() == 0 {
            None
        } else {
            Some(if s1[0] != 0 {
                Err(CredError::Security(s1[0]))
            } else {
                Ok(true)
            })
        }));
    }
}

} // verus!
