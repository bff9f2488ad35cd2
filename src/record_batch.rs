//! A columnar batch seen as a mapping: its columns are looked up by position
//! or by name, as a scripting interpreter's mapping protocol asks.

use vstd::prelude::*;

verus! {

/// A key that a script hands to the mapping.
#[derive(Debug, PartialEq, Eq)]
pub enum ColumnKey {
    /// A zero-based column position.
    Index(usize),
    /// A column name.
    Name(String),
    /// A key of neither kind; the string renders it.
    Other(String),
}

/// Why a lookup failed.
#[derive(Debug, PartialEq, Eq)]
pub enum MappingError {
    /// No column has this name.
    KeyNotFound { key: String },
    /// The key is neither a name nor a position; `found` renders it.
    TypeMismatch { found: String },
    /// The position is past the last column.
    IndexOutOfRange { index: usize },
}

/// A batch of rows, held as named columns in order.
pub struct PyRecordBatch<V> {
    columns: Vec<(String, V)>,
    num_rows: usize,
}

/// The names of a sequence of named columns.
pub open spec fn names_of<V>(cols: Seq<(String, V)>) -> Seq<Seq<char>> {
    Seq::new(cols.len(), |i: int| cols[i].0@)
}

/// `i` is the first position whose name is `name`.
pub open spec fn first_named(names: Seq<Seq<char>>, name: Seq<char>, i: int) -> bool {
    &&& 0 <= i < names.len()
    &&& names[i] == name
    &&& forall|j: int| 0 <= j < i ==> names[j] != name
}

impl<V> PyRecordBatch<V> {
    /// The named columns, in order.
    pub closed spec fn columns_view(&self) -> Seq<(String, V)> {
        self.columns@
    }

    /// The number of rows.
    pub closed spec fn rows(&self) -> nat {
        self.num_rows as nat
    }

    /// A batch of `num_rows` rows with these columns.
    pub fn new(columns: Vec<(String, V)>, num_rows: usize) -> (r: Self)
        ensures
            r.columns_view() == columns@,
            r.rows() == num_rows,
    {
        PyRecordBatch { columns, num_rows }
    }

    /// The number of rows, which is the mapping's length.
    pub fn len(&self) -> (r: usize)
        ensures
            r == self.rows(),
    {
        self.num_rows
    }

    /// The number of columns.
    pub fn num_columns(&self) -> (r: usize)
        ensures
            r == self.columns_view().len(),
    {
        self.columns.len()
    }

    /// The first position whose column has this name.
    fn position_of(&self, name: &String) -> (r: Option<usize>)
        ensures
            match r {
                Some(i) => first_named(names_of(self.columns_view()), name@, i as int),
                None => !names_of(self.columns_view()).contains(name@),
            },
    {
        let mut i: usize = 0;
        while i < self.columns.len()
            invariant
                i <= self.columns@.len(),
                forall|j: int| 0 <= j < i ==> self.columns@[j].0@ != name@,
            decreases self.columns@.len() - i,
        {
            if self.columns[i].0 == *name {
                return Some(i);
            }
            i = i + 1;
        }
        proof {
            if names_of(self.columns@).contains(name@) {
                let k = choose|k: int|
                    0 <= k < names_of(self.columns@).len() && names_of(self.columns@)[k] == name@;
                assert(self.columns@[k].0@ == name@);
            }
        }
        None
    }

    /// The column that a key designates: the one at a position, or the first
    /// one with a name. An unknown name, a position past the end and a key of
    /// another kind are errors that carry the key.
    pub fn get_item(&self, key: &ColumnKey) -> (r: Result<&V, MappingError>)
        ensures
            match *key {
                ColumnKey::Index(i) => if i < self.columns_view().len() {
                    r == Ok::<&V, MappingError>(&self.columns_view()[i as int].1)
                } else {
                    r == Err::<&V, MappingError>(MappingError::IndexOutOfRange { index: i })
                },
                ColumnKey::Name(n) => if names_of(self.columns_view()).contains(n@) {
                    exists|i: int|
                        first_named(names_of(self.columns_view()), n@, i) && r == Ok::<
                            &V,
                            MappingError,
                        >(&self.columns_view()[i].1)
                } else {
                    r matches Err(MappingError::KeyNotFound { key: k }) && k@ == n@
                },
                ColumnKey::Other(s) => r matches Err(MappingError::TypeMismatch { found }) && found@
                    == s@,
            },
    {
        match key {
            ColumnKey::Index(i) => {
                if *i < self.columns.len() {
                    Ok(&self.columns[*i].1)
                } else {
                    Err(MappingError::IndexOutOfRange { index: *i })
                }
            },
            ColumnKey::Name(n) => match self.position_of(n) {
                Some(i) => Ok(&self.columns[i].1),
                None => Err(MappingError::KeyNotFound { key: n.clone() }),
            },
            ColumnKey::Other(s) => Err(MappingError::TypeMismatch { found: s.clone() }),
        }
    }

    /// The columns in order, which is what iterating the mapping yields.
    pub fn column_values(&self) -> (r: Vec<&V>)
        ensures
            r@.len() == self.columns_view().len(),
            forall|i: int| 0 <= i < r@.len() ==> r@[i] == &self.columns_view()[i].1,
    {
        let mut out: Vec<&V> = Vec::new();
        let mut i: usize = 0;
        while i < self.columns.len()
            invariant
                i <= self.columns@.len(),
                out@.len() == i,
                forall|j: int| 0 <= j < i ==> out@[j] == &self.columns@[j].1,
            decreases self.columns@.len() - i,
        {
            out.push(&self.columns[i].1);
            i = i + 1;
        }
        out
    }
}

} // verus!
