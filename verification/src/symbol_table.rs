//! The datum a symbol table entry stands for: a string, an integer, or
//! nothing.

use vstd::prelude::*;

verus! {

#[derive(Copy, Clone, Debug)]
pub enum SymbolData<'s> {
    Str(&'s str),
    I64(i64),
    Null,
}

impl<'s> SymbolData<'s> {
    pub open spec fn is_null_spec(self) -> bool {
        self is Null
    }

    pub fn is_null(&self) -> (r: bool)
        ensures
            r == self.is_null_spec(),
    {
        match self {
            SymbolData::Null => true,
            _ => false,
        }
    }
}

} // verus!
