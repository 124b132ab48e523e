//! A pair of containers keyed by a truth value: "true" things in one,
//! "false" things in the other.

use vstd::prelude::*;

verus! {

pub struct TFVectors<T> {
    pub trues: T,
    pub falses: T,
}

impl<T> TFVectors<T> {
    /// The side selected by a truth value.
    pub open spec fn get_spec(self, truth_value: bool) -> T {
        if truth_value {
            self.trues
        } else {
            self.falses
        }
    }

    pub fn new(trues: T, falses: T) -> (r: Self)
        ensures
            r.trues == trues,
            r.falses == falses,
    {
        Self { trues, falses }
    }

    pub fn get(&self, truth_value: bool) -> (r: &T)
        ensures
            *r == self.get_spec(truth_value),
    {
        if truth_value {
            &self.trues
        } else {
            &self.falses
        }
    }

    pub fn get_mut(&mut self, truth_value: bool) -> (r: &mut T)
        ensures
            *r == old(self).get_spec(truth_value),
            truth_value ==> final(self).trues == *final(r) && final(self).falses == old(
                self,
            ).falses,
            !truth_value ==> final(self).falses == *final(r) && final(self).trues == old(
                self,
            ).trues,
    {
        if truth_value {
            &mut self.trues
        } else {
            &mut self.falses
        }
    }
}

} // verus!
