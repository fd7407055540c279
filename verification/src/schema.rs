//! The table schema and the snapshot of its rows.

use vstd::prelude::*;

verus! {

/// The primitive kind that a column declares.
#[derive(Clone, Copy, Debug, PartialEq, Eq, Structural)]
pub enum Kind {
    Bool,
    TinyInt,
    SmallInt,
    Int,
    BigInt,
    TinyUnsigned,
    SmallUnsigned,
    Unsigned,
    BigUnsigned,
    /// A 32-bit floating point number; its values are carried as their bits.
    Float,
    /// A 64-bit floating point number; its values are carried as their bits.
    Double,
    Text,
    /// Any kind that the generator does not manage.
    Unsupported,
}

/// A value that is present in a row.
#[derive(Debug, PartialEq, Eq)]
pub enum Value {
    Bool(bool),
    TinyInt(i8),
    SmallInt(i16),
    Int(i32),
    BigInt(i64),
    TinyUnsigned(u8),
    SmallUnsigned(u16),
    Unsigned(u32),
    BigUnsigned(u64),
    /// The bits of a 32-bit floating point number.
    Float(u32),
    /// The bits of a 64-bit floating point number.
    Double(u64),
    Text(String),
}

/// The mathematical model of a [`Value`].
pub enum ValueSpec {
    Bool(bool),
    TinyInt(i8),
    SmallInt(i16),
    Int(i32),
    BigInt(i64),
    TinyUnsigned(u8),
    SmallUnsigned(u16),
    Unsigned(u32),
    BigUnsigned(u64),
    Float(u32),
    Double(u64),
    Text(Seq<char>),
}

impl ValueSpec {
    /// The kind of column that holds such a value.
    pub open spec fn kind(self) -> Kind {
        match self {
            ValueSpec::Bool(_) => Kind::Bool,
            ValueSpec::TinyInt(_) => Kind::TinyInt,
            ValueSpec::SmallInt(_) => Kind::SmallInt,
            ValueSpec::Int(_) => Kind::Int,
            ValueSpec::BigInt(_) => Kind::BigInt,
            ValueSpec::TinyUnsigned(_) => Kind::TinyUnsigned,
            ValueSpec::SmallUnsigned(_) => Kind::SmallUnsigned,
            ValueSpec::Unsigned(_) => Kind::Unsigned,
            ValueSpec::BigUnsigned(_) => Kind::BigUnsigned,
            ValueSpec::Float(_) => Kind::Float,
            ValueSpec::Double(_) => Kind::Double,
            ValueSpec::Text(_) => Kind::Text,
        }
    }
}

impl View for Value {
    type V = ValueSpec;

    open spec fn view(&self) -> ValueSpec {
        match self {
            Value::Bool(b) => ValueSpec::Bool(*b),
            Value::TinyInt(n) => ValueSpec::TinyInt(*n),
            Value::SmallInt(n) => ValueSpec::SmallInt(*n),
            Value::Int(n) => ValueSpec::Int(*n),
            Value::BigInt(n) => ValueSpec::BigInt(*n),
            Value::TinyUnsigned(n) => ValueSpec::TinyUnsigned(*n),
            Value::SmallUnsigned(n) => ValueSpec::SmallUnsigned(*n),
            Value::Unsigned(n) => ValueSpec::Unsigned(*n),
            Value::BigUnsigned(n) => ValueSpec::BigUnsigned(*n),
            Value::Float(n) => ValueSpec::Float(*n),
            Value::Double(n) => ValueSpec::Double(*n),
            Value::Text(s) => ValueSpec::Text(s@),
        }
    }
}

impl DeepView for Value {
    type V = ValueSpec;

    open spec fn deep_view(&self) -> ValueSpec {
        self@
    }
}

impl Clone for Value {
    fn clone(&self) -> (r: Value)
        ensures
            r@ == self@,
    {
        match self {
            Value::Bool(b) => Value::Bool(*b),
            Value::TinyInt(n) => Value::TinyInt(*n),
            Value::SmallInt(n) => Value::SmallInt(*n),
            Value::Int(n) => Value::Int(*n),
            Value::BigInt(n) => Value::BigInt(*n),
            Value::TinyUnsigned(n) => Value::TinyUnsigned(*n),
            Value::SmallUnsigned(n) => Value::SmallUnsigned(*n),
            Value::Unsigned(n) => Value::Unsigned(*n),
            Value::BigUnsigned(n) => Value::BigUnsigned(*n),
            Value::Float(n) => Value::Float(*n),
            Value::Double(n) => Value::Double(*n),
            Value::Text(s) => Value::Text(s.clone()),
        }
    }
}

impl Value {
    /// Whether the two values are of one kind and equal.
    pub fn same_as(&self, other: &Value) -> (r: bool)
        ensures
            r == (self@ == other@),
    {
        match (self, other) {
            (Value::Bool(a), Value::Bool(b)) => *a == *b,
            (Value::TinyInt(a), Value::TinyInt(b)) => *a == *b,
            (Value::SmallInt(a), Value::SmallInt(b)) => *a == *b,
            (Value::Int(a), Value::Int(b)) => *a == *b,
            (Value::BigInt(a), Value::BigInt(b)) => *a == *b,
            (Value::TinyUnsigned(a), Value::TinyUnsigned(b)) => *a == *b,
            (Value::SmallUnsigned(a), Value::SmallUnsigned(b)) => *a == *b,
            (Value::Unsigned(a), Value::Unsigned(b)) => *a == *b,
            (Value::BigUnsigned(a), Value::BigUnsigned(b)) => *a == *b,
            (Value::Float(a), Value::Float(b)) => *a == *b,
            (Value::Double(a), Value::Double(b)) => *a == *b,
            (Value::Text(a), Value::Text(b)) => *a == *b,
            _ => false,
        }
    }

    /// The kind of column that holds this value.
    pub fn kind(&self) -> (k: Kind)
        ensures
            k == self@.kind(),
    {
        match self {
            Value::Bool(_) => Kind::Bool,
            Value::TinyInt(_) => Kind::TinyInt,
            Value::SmallInt(_) => Kind::SmallInt,
            Value::Int(_) => Kind::Int,
            Value::BigInt(_) => Kind::BigInt,
            Value::TinyUnsigned(_) => Kind::TinyUnsigned,
            Value::SmallUnsigned(_) => Kind::SmallUnsigned,
            Value::Unsigned(_) => Kind::Unsigned,
            Value::BigUnsigned(_) => Kind::BigUnsigned,
            Value::Float(_) => Kind::Float,
            Value::Double(_) => Kind::Double,
            Value::Text(_) => Kind::Text,
        }
    }
}

/// A column of the schema.
#[derive(Debug, PartialEq, Eq)]
pub struct Column {
    /// The name that the schema gives the column.
    pub name: String,
    pub kind: Kind,
    /// Whether the column belongs to the primary key.
    pub primary_key: bool,
}

/// The mathematical model of a [`Column`].
pub struct ColumnSpec {
    pub name: Seq<char>,
    pub kind: Kind,
    pub primary_key: bool,
}

impl View for Column {
    type V = ColumnSpec;

    open spec fn view(&self) -> ColumnSpec {
        ColumnSpec { name: self.name@, kind: self.kind, primary_key: self.primary_key }
    }
}

impl DeepView for Column {
    type V = ColumnSpec;

    open spec fn deep_view(&self) -> ColumnSpec {
        self@
    }
}

/// A row: one cell for each column of the schema, in the schema's order. An
/// absent value is `None`.
pub type Row = Vec<Option<Value>>;

/// The mathematical model of a [`Row`].
pub type RowSpec = Seq<Option<ValueSpec>>;

/// A schema together with a snapshot of the table's rows.
#[derive(Debug, PartialEq, Eq)]
pub struct Table {
    pub columns: Vec<Column>,
    pub rows: Vec<Row>,
}

/// The mathematical model of a [`Table`].
pub struct TableSpec {
    pub columns: Seq<ColumnSpec>,
    pub rows: Seq<RowSpec>,
}

impl View for Table {
    type V = TableSpec;

    open spec fn view(&self) -> TableSpec {
        TableSpec { columns: self.columns.deep_view(), rows: self.rows.deep_view() }
    }
}

/// The largest number of columns that a primary key may have. The lookup
/// constructors number `2^k - 1` for a key of `k` columns, so the key is kept
/// small.
pub const MAX_KEY_COLUMNS: usize = 16;

/// The indices `0`, `1`, .. below `n`, in order.
pub open spec fn indices(n: nat) -> Seq<usize> {
    Seq::new(n, |i: int| i as usize)
}

/// The indices of the primary-key columns, in the schema's order.
pub open spec fn key_columns(columns: Seq<ColumnSpec>) -> Seq<usize> {
    indices(columns.len()).filter(|c: usize| columns[c as int].primary_key)
}

/// Whether the cell of `row` under column `c` holds what the schema allows: a
/// value of the column's kind, or none.
pub open spec fn cell_fits(columns: Seq<ColumnSpec>, row: RowSpec, c: int) -> bool {
    match row[c] {
        Some(v) => v.kind() == columns[c].kind,
        None => true,
    }
}

/// Whether `row` has one cell for each column, each fit for its column.
pub open spec fn row_fits(columns: Seq<ColumnSpec>, row: RowSpec) -> bool {
    &&& row.len() == columns.len()
    &&& forall|c: int| 0 <= c < row.len() ==> cell_fits(columns, row, c)
}

impl TableSpec {
    /// Validity of a table: the primary key has at least one column and at
    /// most `MAX_KEY_COLUMNS`, and every row fits the schema.
    pub open spec fn wf(self) -> bool {
        &&& 0 < key_columns(self.columns).len() <= MAX_KEY_COLUMNS
        &&& forall|r: int|
            0 <= r < self.rows.len() ==> row_fits(self.columns, #[trigger] self.rows[r])
    }
}

impl Table {
    /// The indices of the primary-key columns, in the schema's order.
    pub fn key_columns(&self) -> (keys: Vec<usize>)
        ensures
            keys@ == key_columns(self@.columns),
            forall|j: int| 0 <= j < keys.len() ==> keys[j] < self.columns.len(),
    {
        let ghost all = indices(self.columns.len() as nat);
        let ghost columns = self@.columns;
        let ghost p = |c: usize| columns[c as int].primary_key;
        let mut keys: Vec<usize> = Vec::new();
        let mut c: usize = 0;
        assert(all.take(0).filter(p) =~= Seq::<usize>::empty()) by {
            reveal(Seq::filter);
        }
        while c < self.columns.len()
            invariant
                c <= self.columns.len(),
                all == indices(self.columns.len() as nat),
                columns == self@.columns,
                p == |c: usize| columns[c as int].primary_key,
                keys@ == all.take(c as int).filter(p),
                forall|j: int| 0 <= j < keys.len() ==> keys[j] < c,
            decreases self.columns.len() - c,
        {
            proof {
                assert(all.take(c + 1) =~= all.take(c as int).push(c));
                all.take(c as int).lemma_filter_push(c, p);
            }
            if self.columns[c].primary_key {
                keys.push(c);
            }
            c += 1;
        }
        assert(all.take(self.columns.len() as int) == all);
        keys
    }

    /// Whether the row at `r` fits the schema.
    fn row_is_valid(&self, r: usize) -> (ok: bool)
        requires
            r < self.rows.len(),
        ensures
            ok == row_fits(self@.columns, self@.rows[r as int]),
    {
        let row = &self.rows[r];
        if row.len() != self.columns.len() {
            return false;
        }
        let mut c: usize = 0;
        while c < row.len()
            invariant
                c <= row.len(),
                row.len() == self.columns.len(),
                row == &self.rows[r as int],
                r < self.rows.len(),
                forall|j: int| 0 <= j < c ==> cell_fits(self@.columns, self@.rows[r as int], j),
            decreases row.len() - c,
        {
            let fits = match &row[c] {
                Some(v) => v.kind() == self.columns[c].kind,
                None => true,
            };
            assert(fits == cell_fits(self@.columns, self@.rows[r as int], c as int));
            if !fits {
                return false;
            }
            c += 1;
        }
        true
    }

    /// Whether the table is valid.
    pub fn is_valid(&self) -> (ok: bool)
        ensures
            ok == self@.wf(),
    {
        let keys = self.key_columns();
        if keys.len() == 0 || keys.len() > MAX_KEY_COLUMNS {
            return false;
        }
        let mut r: usize = 0;
        while r < self.rows.len()
            invariant
                r <= self.rows.len(),
                forall|j: int| 0 <= j < r ==> row_fits(self@.columns, #[trigger] self@.rows[j]),
            decreases self.rows.len() - r,
        {
            if !self.row_is_valid(r) {
                return false;
            }
            r += 1;
        }
        true
    }
}

} // verus!
