//! The finished column-oriented table: named columns of values plus a base
//! column that serves as the independent axis. The base is either one of the
//! value columns, selected by index, or the auto-generated sequence
//! `0, 1, 2, ...`.

use vstd::prelude::*;

use crate::errors::DataTableError;
use crate::util::{dec_str, find_str, first_index_of, names_view};
use crate::value::{int_value, Value};
use crate::zip::ZipIter;

verus! {

/// A read-only column store with an optional base column.
#[derive(Debug)]
pub struct DataTable {
    value_columns: usize,
    value_rows: usize,
    base_data_index: Option<usize>,
    value_names: Vec<String>,
    value_data: Vec<Vec<Value>>,
    base_data: Vec<Value>,
}

/// The default names `"0", "1", ...` used when a table is built without
/// explicit column names.
pub open spec fn default_names(columns: nat) -> Seq<Seq<char>> {
    Seq::new(columns, |i: int| dec_str(i as nat))
}

impl DataTable {
    /// The number of value columns.
    pub closed spec fn col_count(&self) -> nat {
        self.value_columns as nat
    }

    /// The number of rows appended so far.
    pub closed spec fn row_count(&self) -> nat {
        self.value_rows as nat
    }

    /// The column names, in table order.
    pub closed spec fn names(&self) -> Seq<Seq<char>> {
        names_view(self.value_names@)
    }

    /// The value columns, in table order.
    pub closed spec fn cols(&self) -> Seq<Seq<Value>> {
        self.value_data@.map_values(|c: Vec<Value>| c@)
    }

    /// The values of column `c`.
    pub open spec fn col(&self, c: int) -> Seq<Value> {
        self.cols()[c]
    }

    /// The index of the value column serving as base, if one was selected.
    pub closed spec fn base_index(&self) -> Option<int> {
        match self.base_data_index {
            Some(k) => Some(k as int),
            None => None,
        }
    }

    /// The base column: the selected value column, or `0, 1, 2, ...`.
    pub closed spec fn base(&self) -> Seq<Value> {
        self.base_data@
    }

    /// The structural invariant: columns and names match the column count,
    /// every column has `row_count` values, and the base column is either a
    /// copy of the selected value column or the sequence `0, 1, 2, ...`.
    pub closed spec fn wf(&self) -> bool {
        &&& self.value_data@.len() == self.value_columns
        &&& self.value_names@.len() == self.value_columns
        &&& forall|c: int|
            0 <= c < self.value_columns ==> (#[trigger] self.value_data@[c])@.len()
                == self.value_rows
        &&& self.base_data@.len() == self.value_rows
        &&& match self.base_data_index {
            Some(k) => k < self.value_columns && forall|r: int|
                0 <= r < self.value_rows ==> self.base_data@[r] == (
                #[trigger] self.value_data@[k as int]@[r]),
            None => forall|r: int|
                0 <= r < self.value_rows ==> #[trigger] self.base_data@[r] == int_value(r),
        }
    }

    /// The base value appended by `add_row` given the row `data`.
    pub open spec fn next_base_value(&self, data: Seq<Value>) -> Value {
        match self.base_index() {
            Some(k) => data[k],
            None => int_value(self.row_count() as int),
        }
    }

    /// Creates an empty table. Callers ensure a given base index is in range
    /// and given names match the column count; see the checked variants.
    pub fn new(columns: usize, names: Option<&Vec<String>>, base_data_index: Option<usize>) -> (t:
        Self)
        requires
            base_data_index matches Some(k) ==> k < columns,
            names matches Some(ns) ==> ns@.len() == columns,
        ensures
            t.wf(),
            t.col_count() == columns,
            t.row_count() == 0,
            t.base_index() == (match base_data_index {
                Some(k) => Some(k as int),
                None => None::<int>,
            }),
            t.names() == (match names {
                Some(ns) => names_view(ns@),
                None => default_names(columns as nat),
            }),
            forall|c: int| 0 <= c < columns ==> #[trigger] t.col(c) == Seq::<Value>::empty(),
    {
        let value_names: Vec<String> = match names {
            Some(ns) => ns.clone(),
            None => {
                let mut auto: Vec<String> = Vec::new();
                let mut i: usize = 0;
                while i < columns
                    invariant
                        0 <= i <= columns,
                        auto@.len() == i,
                        forall|j: int| 0 <= j < i ==> (#[trigger] auto@[j])@ == dec_str(j as nat),
                    decreases columns - i,
                {
                    auto.push(crate::util::usize_to_string(i));
                    i += 1;
                }
                auto
            },
        };
        let mut value_data: Vec<Vec<Value>> = Vec::new();
        let mut i: usize = 0;
        while i < columns
            invariant
                0 <= i <= columns,
                value_data@.len() == i,
                forall|j: int| 0 <= j < i ==> (#[trigger] value_data@[j])@.len() == 0,
            decreases columns - i,
        {
            value_data.push(Vec::new());
            i += 1;
        }
        let t = DataTable {
            value_columns: columns,
            value_rows: 0,
            base_data_index,
            value_names,
            value_data,
            base_data: Vec::new(),
        };
        proof {
            assert(t.names() =~= (match names {
                Some(ns) => names_view(ns@),
                None => default_names(columns as nat),
            }));
            assert(forall|c: int|
                0 <= c < columns ==> #[trigger] t.col(c) =~= Seq::<Value>::empty());
        }
        t
    }

    /// Creates an empty table whose base is the value column `base_data_index`,
    /// rejecting an index at or past the column count.
    pub fn new_with_base_data_index(
        columns: usize,
        names: Option<&Vec<String>>,
        base_data_index: usize,
    ) -> (r: Result<Self, DataTableError>)
        requires
            names matches Some(ns) ==> ns@.len() == columns,
        ensures
            match r {
                Ok(t) => base_data_index < columns && t.wf() && t.col_count() == columns
                    && t.row_count() == 0 && t.base_index() == Some(base_data_index as int)
                    && t.names() == (match names {
                    Some(ns) => names_view(ns@),
                    None => default_names(columns as nat),
                }) && forall|c: int|
                    0 <= c < columns ==> #[trigger] t.col(c) == Seq::<Value>::empty(),
                Err(e) => base_data_index >= columns && e == DataTableError::InvalidBaseIndex,
            },
    {
        if base_data_index < columns {
            Ok(Self::new(columns, names, Some(base_data_index)))
        } else {
            Err(DataTableError::InvalidBaseIndex)
        }
    }

    /// Creates an empty table whose base is the value column named
    /// `base_data_name`, rejecting a name that is not among `names`.
    pub fn new_with_base_data_name(
        columns: usize,
        names: &Vec<String>,
        base_data_name: &str,
    ) -> (r: Result<Self, DataTableError>)
        requires
            names@.len() == columns,
        ensures
            match r {
                Ok(t) => t.wf() && t.col_count() == columns && t.row_count() == 0 && t.names()
                    == names_view(names@) && t.base_index() == first_index_of(
                    names_view(names@),
                    base_data_name@,
                ) && first_index_of(names_view(names@), base_data_name@) is Some && forall|c: int|
                    0 <= c < columns ==> #[trigger] t.col(c) == Seq::<Value>::empty(),
                Err(e) => e == DataTableError::InvalidBaseName && first_index_of(
                    names_view(names@),
                    base_data_name@,
                ) is None,
            },
    {
        match find_str(names, base_data_name) {
            Some(index) => {
                proof {
                    crate::util::lemma_first_index_of(names_view(names@), base_data_name@);
                }
                match Self::new_with_base_data_index(columns, Some(names), index) {
                    Ok(t) => Ok(t),
                    Err(_) => {
                        proof {
                            assert(false);
                        }
                        Err(DataTableError::InvalidBaseIndex)
                    },
                }
            },
            None => Err(DataTableError::InvalidBaseName),
        }
    }

    /// Appends one row: one value per column, in table order. The base column
    /// gains the selected column's value, or the previous auto value plus one.
    pub fn add_row(&mut self, data: &[Value]) -> (r: Result<(), DataTableError>)
        requires
            old(self).wf(),
        ensures
            final(self).wf(),
            final(self).col_count() == old(self).col_count(),
            final(self).names() == old(self).names(),
            final(self).base_index() == old(self).base_index(),
            match r {
                Ok(()) => data@.len() == old(self).col_count() && final(self).row_count() == old(
                    self,
                ).row_count() + 1 && final(self).base() == old(self).base().push(
                    old(self).next_base_value(data@),
                ) && forall|c: int|
                    0 <= c < final(self).col_count() ==> #[trigger] final(self).col(c) == old(
                        self,
                    ).col(c).push(data@[c]),
                Err(e) => e == DataTableError::InvalidColumnCount && data@.len() != old(
                    self,
                ).col_count() && final(self).row_count() == old(self).row_count()
                    && final(self).cols() == old(self).cols()
                    && final(self).base() == old(self).base(),
            },
    {
        if data.len() != self.value_columns {
            return Err(DataTableError::InvalidColumnCount);
        }
        let ghost prev = *self;
        let mut c: usize = 0;
        while c < self.value_columns
            invariant
                0 <= c <= self.value_columns,
                data@.len() == self.value_columns,
                self.value_columns == prev.value_columns,
                self.value_rows == prev.value_rows,
                self.base_data_index == prev.base_data_index,
                self.value_names == prev.value_names,
                self.base_data == prev.base_data,
                self.value_data@.len() == prev.value_data@.len(),
                prev.wf(),
                forall|j: int|
                    0 <= j < c ==> (#[trigger] self.value_data@[j])@ == prev.value_data@[j]@.push(
                        data@[j],
                    ),
                forall|j: int|
                    c <= j < self.value_columns ==> #[trigger] self.value_data@[j]
                        == prev.value_data@[j],
            decreases self.value_columns - c,
        {
            let column = &mut self.value_data[c];
            column.push(data[c]);
            c += 1;
        }
        let next = match self.base_data_index {
            Some(base_index) => data[base_index],
            None => {
                if self.base_data.len() == 0 {
                    Value::Num { neg: false, mant: 0, exp: 0 }
                } else {
                    let prev_value = self.base_data[self.base_data.len() - 1];
                    match prev_value {
                        Value::Num { neg, mant, exp } => {
                            assert(prev_value == int_value(prev.value_rows - 1));
                            Value::Num { neg, mant: mant + 1, exp }
                        },
                        _ => {
                            proof {
                                assert(prev_value == int_value(prev.value_rows - 1));
                                assert(false);
                            }
                            Value::Nan
                        },
                    }
                }
            },
        };
        assert(next == prev.next_base_value(data@));
        self.base_data.push(next);
        let rows = self.base_data.len();
        self.value_rows = rows;
        proof {
            assert(self.base() =~= prev.base().push(prev.next_base_value(data@)));
            assert(forall|c: int|
                0 <= c < self.col_count() ==> #[trigger] self.col(c) =~= prev.col(c).push(
                    data@[c],
                ));
            assert(self.names() =~= prev.names());
        }
        Ok(())
    }

    /// The base column: the selected value column, or the auto sequence.
    pub fn get_base_data(&self) -> (r: &Vec<Value>)
        requires
            self.wf(),
        ensures
            r@ =~= self.base(),
    {
        match self.base_data_index {
            Some(index) => {
                let r = &self.value_data[index];
                proof {
                    assert(r@ =~= self.base());
                }
                r
            },
            None => &self.base_data,
        }
    }

    fn check_column_index(&self, index: usize) -> (r: Result<(), DataTableError>)
        ensures
            match r {
                Ok(()) => index < self.col_count(),
                Err(e) => e == DataTableError::InvalidColumnIndex && index >= self.col_count(),
            },
    {
        if index >= self.value_columns {
            Err(DataTableError::InvalidColumnIndex)
        } else {
            Ok(())
        }
    }

    /// The name of column `index`.
    pub fn get_name(&self, index: usize) -> (r: Result<&str, DataTableError>)
        requires
            self.wf(),
        ensures
            match r {
                Ok(s) => index < self.col_count() && s@ == self.names()[index as int],
                Err(e) => e == DataTableError::InvalidColumnIndex && index >= self.col_count(),
            },
    {
        match self.check_column_index(index) {
            Ok(()) => Ok(self.value_names[index].as_str()),
            Err(e) => Err(e),
        }
    }

    /// The values of column `index`, in row order.
    pub fn get_col(&self, index: usize) -> (r: Result<Vec<Value>, DataTableError>)
        requires
            self.wf(),
        ensures
            match r {
                Ok(col) => index < self.col_count() && col@ == self.col(index as int),
                Err(e) => e == DataTableError::InvalidColumnIndex && index >= self.col_count(),
            },
    {
        match self.check_column_index(index) {
            Ok(()) => {
                let col = self.value_data[index].clone();
                proof {
                    assert(col@ =~= self.col(index as int));
                }
                Ok(col)
            },
            Err(e) => Err(e),
        }
    }

    /// The values of the first column named `name`, in row order.
    pub fn get_col_by_name(&self, name: &str) -> (r: Result<Vec<Value>, DataTableError>)
        requires
            self.wf(),
        ensures
            match r {
                Ok(col) => first_index_of(self.names(), name@) matches Some(i) && col@ == self.col(
                    i,
                ),
                Err(e) => e == DataTableError::InvalidColumnName && first_index_of(
                    self.names(),
                    name@,
                ) is None,
            },
    {
        match find_str(&self.value_names, name) {
            Some(index) => {
                proof {
                    crate::util::lemma_first_index_of(self.names(), name@);
                }
                match self.get_col(index) {
                    Ok(col) => Ok(col),
                    Err(_) => {
                        proof {
                            assert(false);
                        }
                        Err(DataTableError::InvalidColumnName)
                    },
                }
            },
            None => Err(DataTableError::InvalidColumnName),
        }
    }

    /// Pairs of `(base value, column value)` for column `index`, as a
    /// two-sequence iterator over the base and the column.
    pub fn get_col_with_base<'a>(&'a self, index: usize) -> (r: Result<
        ZipIter<'a, Value>,
        DataTableError,
    >)
        requires
            self.wf(),
        ensures
            match r {
                Ok(z) => index < self.col_count() && z.first@ == self.base() && z.second@
                    == self.col(index as int) && z.index == 0,
                Err(e) => e == DataTableError::InvalidColumnIndex && index >= self.col_count(),
            },
    {
        match self.check_column_index(index) {
            Ok(()) => {
                let base = self.get_base_data();
                match ZipIter::new(base, &self.value_data[index]) {
                    Ok(z) => Ok(z),
                    Err(_) => {
                        proof {
                            assert(false);
                        }
                        Err(DataTableError::InconsistentContainerSize)
                    },
                }
            },
            Err(e) => Err(e),
        }
    }

    /// `get_col_with_base`, with the column located by name.
    pub fn get_col_by_name_with_base<'a>(&'a self, name: &str) -> (r: Result<
        ZipIter<'a, Value>,
        DataTableError,
    >)
        requires
            self.wf(),
        ensures
            match r {
                Ok(z) => first_index_of(self.names(), name@) matches Some(i) && z.first@
                    == self.base() && z.second@ == self.col(i) && z.index == 0,
                Err(e) => e == DataTableError::InvalidColumnName && first_index_of(
                    self.names(),
                    name@,
                ) is None,
            },
    {
        match find_str(&self.value_names, name) {
            Some(index) => {
                proof {
                    crate::util::lemma_first_index_of(self.names(), name@);
                }
                match self.get_col_with_base(index) {
                    Ok(z) => Ok(z),
                    Err(_) => {
                        proof {
                            assert(false);
                        }
                        Err(DataTableError::InvalidColumnName)
                    },
                }
            },
            None => Err(DataTableError::InvalidColumnName),
        }
    }

    /// Row `index`: the base value first, then each column's value there.
    pub fn get_row(&self, index: usize) -> (r: Result<Vec<Value>, DataTableError>)
        requires
            self.wf(),
        ensures
            match r {
                Ok(row) => index < self.row_count() && row@.len() == self.col_count() + 1
                    && row@[0] == self.base()[index as int] && forall|c: int|
                    0 <= c < self.col_count() ==> row@[c + 1] == #[trigger] self.col(
                        c,
                    )[index as int],
                Err(e) => e == DataTableError::InvalidColumnIndex && index >= self.row_count(),
            },
    {
        if index >= self.value_rows {
            return Err(DataTableError::InvalidColumnIndex);
        }
        let mut row: Vec<Value> = Vec::new();
        let base = self.get_base_data();
        row.push(base[index]);
        let mut c: usize = 0;
        while c < self.value_columns
            invariant
                self.wf(),
                0 <= c <= self.value_columns,
                index < self.value_rows,
                row@.len() == c + 1,
                row@[0] == self.base()[index as int],
                forall|j: int| 0 <= j < c ==> row@[j + 1] == #[trigger] self.col(j)[index as int],
            decreases self.value_columns - c,
        {
            let column = &self.value_data[c];
            row.push(column[index]);
            c += 1;
        }
        Ok(row)
    }

    /// All rows in ascending order; each row holds the value columns only
    /// (the base column is not included).
    pub fn get_rows(&self) -> (r: Vec<Vec<Value>>)
        requires
            self.wf(),
        ensures
            r@.len() == self.row_count(),
            forall|i: int, c: int|
                0 <= i < self.row_count() && 0 <= c < self.col_count() ==> r@[i]@[c]
                    == #[trigger] self.col(c)[i],
            forall|i: int| 0 <= i < self.row_count() ==> (#[trigger] r@[i])@.len()
                == self.col_count(),
    {
        let mut rows: Vec<Vec<Value>> = Vec::new();
        let n = self.get_base_data().len();
        let mut i: usize = 0;
        while i < n
            invariant
                self.wf(),
                n == self.row_count(),
                0 <= i <= n,
                rows@.len() == i,
                forall|k: int, c: int|
                    0 <= k < i && 0 <= c < self.col_count() ==> rows@[k]@[c]
                        == #[trigger] self.col(c)[k],
                forall|k: int| 0 <= k < i ==> (#[trigger] rows@[k])@.len() == self.col_count(),
            decreases n - i,
        {
            let mut row: Vec<Value> = Vec::new();
            let mut c: usize = 0;
            while c < self.value_columns
                invariant
                    self.wf(),
                    i < self.row_count(),
                    0 <= c <= self.value_columns,
                    row@.len() == c,
                    forall|j: int| 0 <= j < c ==> row@[j] == #[trigger] self.col(j)[i as int],
                decreases self.value_columns - c,
            {
                let column = &self.value_data[c];
                row.push(column[i]);
                c += 1;
            }
            rows.push(row);
            i += 1;
        }
        rows
    }

    /// In a well-formed table every value column, and the base column, has
    /// exactly `row_count` values.
    pub proof fn lemma_columns_have_row_count(&self)
        requires
            self.wf(),
        ensures
            self.cols().len() == self.col_count(),
            self.names().len() == self.col_count(),
            forall|c: int|
                0 <= c < self.col_count() ==> (#[trigger] self.col(c)).len() == self.row_count(),
            self.base().len() == self.row_count(),
    {
    }

    /// With no explicit base index, the base column is `0, 1, 2, ...`.
    pub proof fn lemma_auto_base(&self)
        requires
            self.wf(),
            self.base_index() is None,
        ensures
            self.base().len() == self.row_count(),
            forall|r: int|
                0 <= r < self.row_count() ==> #[trigger] self.base()[r] == int_value(r),
    {
    }

    /// With an explicit base index `k`, the base column equals value column
    /// `k` element for element.
    pub proof fn lemma_base_is_selected_column(&self)
        requires
            self.wf(),
            self.base_index() is Some,
        ensures
            match self.base_index() {
                Some(k) => 0 <= k < self.col_count() && self.base() == self.col(k),
                None => false,
            },
    {
        match self.base_index() {
            Some(k) => {
                assert(self.base() =~= self.col(k));
            },
            None => {},
        }
    }

    /// A column located by name is the column at the first index carrying
    /// that name: `get_col_by_name` and `get_col` agree there.
    pub proof fn lemma_name_locates_column(&self, name: Seq<char>)
        requires
            self.wf(),
        ensures
            match first_index_of(self.names(), name) {
                Some(i) => 0 <= i < self.col_count() && self.names()[i] == name && forall|j: int|
                    0 <= j < i ==> self.names()[j] != name,
                None => forall|j: int| 0 <= j < self.col_count() ==> self.names()[j] != name,
            },
    {
        crate::util::lemma_first_index_of(self.names(), name);
    }

    /// The column names in table order.
    pub fn get_names(&self) -> (r: Vec<String>)
        ensures
            names_view(r@) == self.names(),
    {
        let r = self.value_names.clone();
        proof {
            assert(names_view(r@) =~= self.names());
        }
        r
    }
}

} // verus!
