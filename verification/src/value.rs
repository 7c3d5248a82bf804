use vstd::prelude::*;

verus! {

/// A claim value: one of the scalar shapes a claim can carry inside a token
/// payload, or a composite (array or object) value carried through whole.
/// The null value exists only to be rejected on write.
#[derive(Debug, PartialEq)]
pub enum ClaimValue {
    Null,
    Bool(bool),
    Int(i64),
    Str(String),
    Composite(serde_json::Value),
}

/// The mathematical shape of a claim value.
pub enum ClaimData {
    Null,
    Bool(bool),
    Int(int),
    Str(Seq<char>),
    Composite(serde_json::Value),
}

impl View for ClaimValue {
    type V = ClaimData;

    open spec fn view(&self) -> ClaimData {
        match self {
            ClaimValue::Null => ClaimData::Null,
            ClaimValue::Bool(b) => ClaimData::Bool(*b),
            ClaimValue::Int(i) => ClaimData::Int(*i as int),
            ClaimValue::Str(s) => ClaimData::Str(s@),
            ClaimValue::Composite(v) => ClaimData::Composite(*v),
        }
    }
}

/// Whether a claim value serializes to JSON null: the scalar null, or a
/// composite that is itself the JSON null value.
pub open spec fn data_is_null(d: ClaimData) -> bool {
    match d {
        ClaimData::Null => true,
        ClaimData::Composite(v) => crate::engine::json_is_null(v),
        _ => false,
    }
}

/// The view of a list of (name, value) pairs.
pub open spec fn entries_view(list: Seq<(String, ClaimValue)>) -> Seq<(Seq<char>, ClaimData)> {
    list.map(|i: int, e: (String, ClaimValue)| (e.0@, e.1@))
}

impl ClaimValue {
    /// Whether the value serializes to null, which a claim set refuses to
    /// store.
    pub fn is_null(&self) -> (r: bool)
        ensures
            r == data_is_null(self@),
    {
        match self {
            ClaimValue::Null => true,
            ClaimValue::Composite(v) => crate::engine::value_is_null(v),
            _ => false,
        }
    }

    /// A copy of the value.
    pub fn duplicate(&self) -> (r: ClaimValue)
        ensures
            r@ == self@,
    {
        match self {
            ClaimValue::Null => ClaimValue::Null,
            ClaimValue::Bool(b) => ClaimValue::Bool(*b),
            ClaimValue::Int(i) => ClaimValue::Int(*i),
            ClaimValue::Str(s) => ClaimValue::Str(s.clone()),
            ClaimValue::Composite(v) => ClaimValue::Composite(v.clone()),
        }
    }

    /// The carried string, when the value is a string.
    pub fn as_str(&self) -> (r: Option<&str>)
        ensures
            r is Some <==> self@ is Str,
            r is Some ==> r.unwrap()@ == self@->Str_0,
    {
        match self {
            ClaimValue::Str(s) => Some(s.as_str()),
            _ => None,
        }
    }
}

} // verus!
