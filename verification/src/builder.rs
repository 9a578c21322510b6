//! Accumulates `(name, value)` pairs into per-name buffers and finalizes
//! them into a `DataTable` with uniform column lengths. Column order follows
//! the order in which the names were declared.

use vstd::prelude::*;

use crate::errors::DataTableError;
use crate::table::DataTable;
use crate::util::{find_str, first_index_of, has_duplicate, names_view};
use crate::value::Value;

verus! {

/// A mapping from declared column names to ordered buffers of values.
#[derive(Debug)]
pub struct DataTableBuilder {
    names: Vec<String>,
    buffers: Vec<Vec<Value>>,
}

/// Whether the buffers are non-empty as a set and all of one length.
pub open spec fn uniform_len(bufs: Seq<Seq<Value>>) -> bool {
    bufs.len() > 0 && forall|c: int| 0 <= c < bufs.len() ==> (#[trigger] bufs[c]).len()
        == bufs[0].len()
}

impl DataTableBuilder {
    /// The declared column names, in declaration order.
    pub closed spec fn names(&self) -> Seq<Seq<char>> {
        names_view(self.names@)
    }

    /// The per-column buffers, in declaration order.
    pub closed spec fn bufs(&self) -> Seq<Seq<Value>> {
        self.buffers@.map_values(|b: Vec<Value>| b@)
    }

    /// One buffer per name, and no name declared twice.
    pub closed spec fn wf(&self) -> bool {
        &&& self.buffers@.len() == self.names@.len()
        &&& !has_duplicate(self.names())
    }

    /// Creates a builder with one empty buffer per name, rejecting a
    /// repeated name.
    pub fn new(names: &Vec<String>) -> (r: Result<Self, DataTableError>)
        ensures
            match r {
                Ok(b) => !has_duplicate(names_view(names@)) && b.wf() && b.names() == names_view(
                    names@,
                ) && b.bufs().len() == names@.len() && forall|c: int|
                    0 <= c < names@.len() ==> #[trigger] b.bufs()[c] == Seq::<Value>::empty(),
                Err(e) => e == DataTableError::DuplicateName && has_duplicate(names_view(names@)),
            },
    {
        let mut taken: Vec<String> = Vec::new();
        let mut buffers: Vec<Vec<Value>> = Vec::new();
        let mut i: usize = 0;
        while i < names.len()
            invariant
                0 <= i <= names@.len(),
                taken@.len() == i,
                buffers@.len() == i,
                forall|j: int| 0 <= j < i ==> taken@[j] == names@[j],
                forall|a: int, b: int|
                    0 <= a < b < i ==> #[trigger] names_view(names@)[a] != #[trigger] names_view(
                        names@,
                    )[b],
                forall|c: int| 0 <= c < i ==> (#[trigger] buffers@[c])@.len() == 0,
            decreases names@.len() - i,
        {
            let name = &names[i];
            if find_str(&taken, name.as_str()).is_some() {
                proof {
                    crate::util::lemma_first_index_of(names_view(taken@), name@);
                    let k = first_index_of(names_view(taken@), name@)->Some_0;
                    assert(names_view(names@)[k] == names_view(names@)[i as int]);
                }
                return Err(DataTableError::DuplicateName);
            }
            proof {
                crate::util::lemma_first_index_of(names_view(taken@), name@);
                assert(forall|j: int|
                    0 <= j < i ==> #[trigger] names_view(names@)[j] == names_view(taken@)[j]);
            }
            taken.push(name.clone());
            buffers.push(Vec::new());
            i += 1;
        }
        let b = DataTableBuilder { names: taken, buffers };
        proof {
            assert(b.names() =~= names_view(names@));
            assert(forall|c: int|
                0 <= c < names@.len() ==> #[trigger] b.bufs()[c] =~= Seq::<Value>::empty());
        }
        Ok(b)
    }

    /// Appends `value` to the buffer of the column called `name`, rejecting
    /// an unknown name.
    pub fn add_value(&mut self, name: &str, value: Value) -> (r: Result<(), DataTableError>)
        requires
            old(self).wf(),
        ensures
            final(self).wf(),
            final(self).names() == old(self).names(),
            final(self).bufs().len() == old(self).bufs().len(),
            match r {
                Ok(()) => first_index_of(old(self).names(), name@) matches Some(i)
                    && final(self).bufs()[i] == old(self).bufs()[i].push(value) && forall|c: int|
                    0 <= c < old(self).bufs().len() && c != i ==> #[trigger] final(self).bufs()[c]
                        == old(self).bufs()[c],
                Err(e) => e == DataTableError::InvalidColumnName && first_index_of(
                    old(self).names(),
                    name@,
                ) is None && final(self).bufs() == old(self).bufs(),
            },
    {
        match find_str(&self.names, name) {
            Some(i) => {
                proof {
                    crate::util::lemma_first_index_of(self.names(), name@);
                }
                let buffer = &mut self.buffers[i];
                buffer.push(value);
                proof {
                    assert(forall|c: int|
                        0 <= c < old(self).bufs().len() && c != i ==> #[trigger] self.bufs()[c]
                            =~= old(self).bufs()[c]);
                    assert(self.bufs()[i as int] =~= old(self).bufs()[i as int].push(value));
                }
                Ok(())
            },
            None => Err(DataTableError::InvalidColumnName),
        }
    }

    /// The common length of the buffers, rejecting a builder with no columns
    /// or with buffers of unequal length.
    pub fn get_len(&self) -> (r: Result<usize, DataTableError>)
        ensures
            match r {
                Ok(len) => uniform_len(self.bufs()) && len == self.bufs()[0].len(),
                Err(e) => e == DataTableError::InconsistentBuilderData && !uniform_len(
                    self.bufs(),
                ),
            },
    {
        if self.buffers.len() == 0 {
            return Err(DataTableError::InconsistentBuilderData);
        }
        let len = self.buffers[0].len();
        let mut c: usize = 1;
        while c < self.buffers.len()
            invariant
                1 <= c <= self.bufs().len(),
                len == self.bufs()[0].len(),
                forall|j: int| 0 <= j < c ==> (#[trigger] self.bufs()[j]).len() == len,
            decreases self.bufs().len() - c,
        {
            if self.buffers[c].len() != len {
                assert(self.bufs()[c as int].len() != self.bufs()[0].len());
                return Err(DataTableError::InconsistentBuilderData);
            }
            c += 1;
        }
        Ok(len)
    }

    /// The values of every buffer at `index`, in declaration order,
    /// rejecting an index past any buffer's end.
    pub fn get_row(&self, index: usize) -> (r: Result<Vec<Value>, DataTableError>)
        ensures
            match r {
                Ok(row) => row@.len() == self.bufs().len() && forall|c: int|
                    0 <= c < self.bufs().len() ==> index < (#[trigger] self.bufs()[c]).len()
                        && row@[c] == self.bufs()[c][index as int],
                Err(e) => e == DataTableError::InvalidColumnIndex && exists|c: int|
                    0 <= c < self.bufs().len() && index >= (#[trigger] self.bufs()[c]).len(),
            },
    {
        let mut row: Vec<Value> = Vec::new();
        let mut c: usize = 0;
        while c < self.buffers.len()
            invariant
                0 <= c <= self.bufs().len(),
                row@.len() == c,
                forall|j: int|
                    0 <= j < c ==> index < (#[trigger] self.bufs()[j]).len() && row@[j]
                        == self.bufs()[j][index as int],
            decreases self.bufs().len() - c,
        {
            let buffer = &self.buffers[c];
            if index >= buffer.len() {
                assert(index >= self.bufs()[c as int].len());
                return Err(DataTableError::InvalidColumnIndex);
            }
            row.push(buffer[index]);
            c += 1;
        }
        Ok(row)
    }

    /// Finalizes the builder into a table: the buffers become the value
    /// columns, in declaration order; `base_data_name`, when given, selects
    /// the base column by name.
    pub fn build(self, base_data_name: Option<&str>) -> (r: Result<DataTable, DataTableError>)
        requires
            self.wf(),
        ensures
            match r {
                Ok(t) => uniform_len(self.bufs()) && t.wf() && t.col_count() == self.bufs().len()
                    && t.names() == self.names() && t.row_count() == self.bufs()[0].len() && (
                forall|c: int|
                    0 <= c < self.bufs().len() ==> #[trigger] t.col(c) == self.bufs()[c])
                    && t.base_index() == (match base_data_name {
                    Some(n) => first_index_of(self.names(), n@),
                    None => None::<int>,
                }) && (base_data_name matches Some(n) ==> first_index_of(
                    self.names(),
                    n@,
                ) is Some),
                Err(e) => if !uniform_len(self.bufs()) {
                    e == DataTableError::InconsistentBuilderData
                } else if base_data_name matches Some(n) && first_index_of(
                    self.names(),
                    n@,
                ) is None {
                    e == DataTableError::InvalidBaseName
                } else {
                    false
                },
            },
    {
        let len = match self.get_len() {
            Ok(len) => len,
            Err(e) => {
                return Err(e);
            },
        };
        let columns = self.names.len();
        let mut dt = match base_data_name {
            Some(name) => {
                match DataTable::new_with_base_data_name(columns, &self.names, name) {
                    Ok(dt) => dt,
                    Err(e) => {
                        return Err(e);
                    },
                }
            },
            None => DataTable::new(columns, Some(&self.names), None),
        };
        let mut i: usize = 0;
        while i < len
            invariant
                0 <= i <= len,
                self.wf(),
                uniform_len(self.bufs()),
                len == self.bufs()[0].len(),
                dt.wf(),
                dt.col_count() == self.bufs().len(),
                dt.names() == self.names(),
                dt.row_count() == i,
                dt.base_index() == (match base_data_name {
                    Some(n) => first_index_of(self.names(), n@),
                    None => None::<int>,
                }),
                forall|c: int|
                    0 <= c < self.bufs().len() ==> #[trigger] dt.col(c) == self.bufs()[c].take(
                        i as int,
                    ),
            decreases len - i,
        {
            let row = match self.get_row(i) {
                Ok(row) => row,
                Err(_) => {
                    proof {
                        assert(false);
                    }
                    return Err(DataTableError::InvalidColumnIndex);
                },
            };
            match dt.add_row(row.as_slice()) {
                Ok(()) => {},
                Err(_) => {
                    proof {
                        assert(false);
                    }
                    return Err(DataTableError::InvalidColumnCount);
                },
            }
            proof {
                assert(forall|c: int|
                    0 <= c < self.bufs().len() ==> #[trigger] self.bufs()[c].take(i + 1)
                        =~= self.bufs()[c].take(i as int).push(self.bufs()[c][i as int]));
            }
            i += 1;
        }
        proof {
            assert(forall|c: int|
                0 <= c < self.bufs().len() ==> #[trigger] self.bufs()[c].take(len as int)
                    =~= self.bufs()[c]);
        }
        Ok(dt)
    }
}

} // verus!
