//! The result of an analysis run and the store that hands results across a
//! call boundary by handle.
//!
//! A caller receives a handle, looks the result up through it and releases
//! it once. The null handle stands for a run that produced no result.

use crate::accuracy::Accuracy;
use crate::error::ErrorKind;
use vstd::prelude::*;

verus! {

/// What one analysis run reports.
#[derive(Debug)]
pub struct PredictionResult {
    /// Accuracy of the fitted classifier on the test partition.
    pub svm_accuracy: Accuracy,
    /// Accuracy of the nearest-neighbour classifier on the test partition.
    pub knn_accuracy: Accuracy,
    /// Category that the fitted classifier gives the manual sample.
    pub svm_prediction: String,
    /// Category that the nearest-neighbour classifier gives the manual sample.
    pub knn_prediction: String,
    /// Where the plot was written.
    pub plot_path: String,
    /// Where the fitted model was written.
    pub model_path: String,
}

/// Names a result held by a `ResultStore`. The handle 0 is null: it names
/// no result.
#[derive(Clone, Copy, Debug, PartialEq, Eq, Structural)]
pub struct ResultHandle {
    /// The handle's number; 0 for the null handle.
    pub id: usize,
}

impl ResultHandle {
    /// Whether this is the null handle.
    pub open spec fn is_null(self) -> bool {
        self.id == 0
    }

    /// The null handle.
    pub fn null() -> (handle: ResultHandle)
        ensures
            handle.is_null(),
    {
        ResultHandle { id: 0 }
    }
}

/// Owns the results that were handed out and not yet released.
pub struct ResultStore {
    slots: Vec<Option<PredictionResult>>,
}

impl ResultStore {
    /// The results that are live, by the number of their handle.
    pub closed spec fn view(&self) -> Map<usize, PredictionResult> {
        Map::new(
            |id: usize| 1 <= id <= self.slots.len() && self.slots[id - 1] is Some,
            |id: usize| self.slots[id - 1]->Some_0,
        )
    }

    /// Number of handles issued so far. Handles are numbered from 1 in the
    /// order of issue and never issued again.
    pub closed spec fn issued(&self) -> nat {
        self.slots.len() as nat
    }

    /// Every live handle is one that was issued, and none is null.
    pub proof fn lemma_live_handles_issued(&self, id: usize)
        requires
            self@.contains_key(id),
        ensures
            1 <= id <= self.issued(),
    {
    }

    /// A store that holds no result.
    pub fn new() -> (store: ResultStore)
        ensures
            store@ == Map::<usize, PredictionResult>::empty(),
            store.issued() == 0,
    {
        let store = ResultStore { slots: Vec::new() };
        assert(store@ =~= Map::<usize, PredictionResult>::empty());
        store
    }

    /// Takes ownership of `result` and issues the next handle for it. When
    /// no handle is left the result is dropped and the null handle returned.
    pub fn allocate(&mut self, result: PredictionResult) -> (handle: ResultHandle)
        ensures
            old(self).issued() < usize::MAX ==> {
                &&& handle.id == old(self).issued() + 1
                &&& final(self).issued() == old(self).issued() + 1
                &&& !old(self)@.contains_key(handle.id)
                &&& final(self)@ == old(self)@.insert(handle.id, result)
            },
            old(self).issued() >= usize::MAX ==> {
                &&& handle.is_null()
                &&& final(self).issued() == old(self).issued()
                &&& final(self)@ == old(self)@
            },
    {
        if self.slots.len() == usize::MAX {
            return ResultHandle::null();
        }
        self.slots.push(Some(result));
        let handle = ResultHandle { id: self.slots.len() };
        assert(self@ =~= old(self)@.insert(handle.id, result));
        handle
    }

    /// Hands a run's outcome to the caller: a fresh handle for a result, the
    /// null handle for a failure, whatever its kind.
    pub fn publish(&mut self, outcome: Result<PredictionResult, ErrorKind>) -> (handle:
        ResultHandle)
        ensures
            outcome is Err || old(self).issued() >= usize::MAX ==> {
                &&& handle.is_null()
                &&& final(self).issued() == old(self).issued()
                &&& final(self)@ == old(self)@
            },
            outcome is Ok && old(self).issued() < usize::MAX ==> {
                &&& handle.id == old(self).issued() + 1
                &&& final(self).issued() == old(self).issued() + 1
                &&& !old(self)@.contains_key(handle.id)
                &&& final(self)@ == old(self)@.insert(handle.id, outcome->Ok_0)
            },
    {
        match outcome {
            Ok(result) => self.allocate(result),
            Err(_) => ResultHandle::null(),
        }
    }

    /// The result that `handle` names, while it is live.
    pub fn get(&self, handle: ResultHandle) -> (r: Option<&PredictionResult>)
        ensures
            r is Some <==> self@.contains_key(handle.id),
            r matches Some(result) ==> *result == self@[handle.id],
    {
        if handle.id == 0 || handle.id > self.slots.len() {
            return None;
        }
        self.slots[handle.id - 1].as_ref()
    }
}

/// Releases the result that `handle` names and says whether there was one.
/// The null handle, and a handle that is not live, leave the store as it is.
pub fn free_prediction_result(store: &mut ResultStore, handle: ResultHandle) -> (freed: bool)
    ensures
        freed == old(store)@.contains_key(handle.id),
        final(store)@ == old(store)@.remove(handle.id),
        final(store).issued() == old(store).issued(),
        handle.is_null() ==> !freed && final(store)@ == old(store)@,
{
    if handle.id == 0 || handle.id > store.slots.len() {
        assert(store@ =~= old(store)@.remove(handle.id));
        return false;
    }
    let freed = store.slots[handle.id - 1].is_some();
    store.slots.set(handle.id - 1, None);
    assert(store@ =~= old(store)@.remove(handle.id));
    freed
}

} // verus!
