use vstd::prelude::*;

verus! {

/// A tri-state patch value for one nullable column: leave the column as it
/// is, set it to a value, or set it to null. Distinct from a plain optional,
/// which cannot express "set to null".
pub enum FieldUpdate<T> {
    Unchanged,
    SetTo(T),
    SetNull,
}

impl<T> FieldUpdate<T> {
    /// Whether this patch changes nothing.
    pub fn is_unchanged(&self) -> (r: bool)
        ensures
            r == (self is Unchanged),
    {
        match self {
            FieldUpdate::Unchanged => true,
            _ => false,
        }
    }
}

/// What a tri-state patch makes of a column's current value.
pub open spec fn spec_apply<T>(cur: Option<T>, upd: FieldUpdate<T>) -> Option<T> {
    match upd {
        FieldUpdate::Unchanged => cur,
        FieldUpdate::SetTo(v) => Some(v),
        FieldUpdate::SetNull => None,
    }
}

/// Applies a tri-state patch to a column's current value.
pub fn apply_field<T>(cur: Option<T>, upd: FieldUpdate<T>) -> (r: Option<T>)
    ensures
        r == spec_apply(cur, upd),
{
    match upd {
        FieldUpdate::Unchanged => cur,
        FieldUpdate::SetTo(v) => Some(v),
        FieldUpdate::SetNull => None,
    }
}

/// What joining an optional value with its explicit null flag yields:
/// an explicit null flag wins, then a present value, else nothing changes.
pub open spec fn spec_join<T>(value: Option<T>, is_null: Option<bool>) -> FieldUpdate<T> {
    if is_null == Some(true) {
        FieldUpdate::SetNull
    } else if value is Some {
        FieldUpdate::SetTo(value.unwrap())
    } else {
        FieldUpdate::Unchanged
    }
}

/// Merges values of `Option<T>` and `Option<bool>` into one tri-state patch
/// value, with the null flag taking precedence over a present value.
pub fn join<T>(value: Option<T>, is_null: Option<bool>) -> (r: FieldUpdate<T>)
    ensures
        r == spec_join(value, is_null),
{
    let explicit_null = match is_null {
        Some(b) => b,
        None => false,
    };
    if explicit_null {
        FieldUpdate::SetNull
    } else if let Some(val) = value {
        FieldUpdate::SetTo(val)
    } else {
        FieldUpdate::Unchanged
    }
}

} // verus!
