//! A two-sequence pairing cursor over parallel vectors of equal length, as
//! `get_col_with_base` hands it out.

use vstd::prelude::*;

use crate::errors::DataTableError;

verus! {

/// Walks two equally long vectors in step, yielding pairs.
#[derive(Debug)]
pub struct ZipIter<'a, T> {
    pub first: &'a Vec<T>,
    pub second: &'a Vec<T>,
    pub index: usize,
}

impl<'a, T: Copy> ZipIter<'a, T> {
    /// Pairs the two vectors, rejecting unequal lengths.
    pub fn new(first: &'a Vec<T>, second: &'a Vec<T>) -> (r: Result<Self, DataTableError>)
        ensures
            match r {
                Ok(z) => first@.len() == second@.len() && z.first@ == first@ && z.second@
                    == second@ && z.index == 0,
                Err(e) => e == DataTableError::InconsistentContainerSize && first@.len()
                    != second@.len(),
            },
    {
        if first.len() != second.len() {
            return Err(DataTableError::InconsistentContainerSize);
        }
        Ok(Self { first, second, index: 0 })
    }

    /// The next pair, advancing the cursor; `None` past the end.
    pub fn next(&mut self) -> (r: Option<(T, T)>)
        requires
            old(self).first@.len() == old(self).second@.len(),
        ensures
            final(self).first == old(self).first,
            final(self).second == old(self).second,
            match r {
                Some(pair) => old(self).index < old(self).first@.len() && final(self).index == old(
                    self,
                ).index + 1 && pair.0 == old(self).first@[old(self).index as int] && pair.1 == old(
                    self,
                ).second@[old(self).index as int],
                None => old(self).index >= old(self).first@.len() && final(self).index == old(
                    self,
                ).index,
            },
    {
        if self.index >= self.first.len() {
            return None;
        }
        self.index += 1;
        Some((self.first[self.index - 1], self.second[self.index - 1]))
    }
}

} // verus!
