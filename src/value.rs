use vstd::prelude::*;

verus! {

/// A scalar as it is bound to, or read from, one column.
pub enum SqlValue {
    Null,
    Int(i64),
    UInt(u64),
    SmallInt(i16),
    Bool(bool),
    Text(String),
}

impl SqlValue {
    /// A copy holding the same scalar.
    pub fn duplicate(&self) -> (r: SqlValue)
        ensures
            r == *self,
    {
        match self {
            SqlValue::Null => SqlValue::Null,
            SqlValue::Int(v) => SqlValue::Int(*v),
            SqlValue::UInt(v) => SqlValue::UInt(*v),
            SqlValue::SmallInt(v) => SqlValue::SmallInt(*v),
            SqlValue::Bool(v) => SqlValue::Bool(*v),
            SqlValue::Text(s) => SqlValue::Text(s.clone()),
        }
    }
}

} // verus!
