//! A `Model` maps each `BoolVariable` to a ternary truth value. It is the
//! externally visible result of a successful search.

use vstd::prelude::*;

use crate::lifted_bool::LiftedBool;
use crate::literal::Literal;
use crate::BoolVariable;

verus! {

pub struct Model {
    pub assignments: Vec<LiftedBool>,
}

impl Model {
    pub open spec fn view(self) -> Seq<LiftedBool> {
        self.assignments@
    }

    pub fn new() -> (r: Model)
        ensures
            r@ == Seq::<LiftedBool>::empty(),
    {
        Model { assignments: Vec::new() }
    }

    /// Removes every assignment.
    pub fn clear(&mut self)
        ensures
            final(self)@ == Seq::<LiftedBool>::empty(),
    {
        self.assignments.clear()
    }

    /// Appends the value of the next variable.
    pub fn push(&mut self, value: LiftedBool)
        ensures
            final(self)@ == old(self)@.push(value),
    {
        self.assignments.push(value);
    }

    pub fn len(&self) -> (r: usize)
        ensures
            r == self@.len(),
    {
        self.assignments.len()
    }
}

/// The value the model assigns to a variable.
pub fn value_of_bool_variable(var: BoolVariable, model: &Model) -> (r: LiftedBool)
    requires
        var < model@.len(),
    ensures
        r == model@[var as int],
{
    model.assignments[var]
}

/// The value the model gives a literal: the variable's value, negated for a
/// negated occurrence.
pub fn value_of_literal(literal: Literal, model: &Model) -> (r: LiftedBool)
    requires
        literal.var_spec() < model@.len(),
    ensures
        !literal.sign_spec() ==> r == model@[literal.var_spec()],
        literal.sign_spec() ==> r == model@[literal.var_spec()].negate_spec(),
{
    let result = model.assignments[literal.var()];
    if literal.sign() {
        result.negated()
    } else {
        result
    }
}

} // verus!
