//! Parsing of the `editable` query parameter: absent means not editable,
//! the exact value `true` means editable, and anything else falls back to
//! not editable rather than faulting.

use vstd::prelude::*;

verus! {

/// The characters of an optional parameter value.
pub open spec fn param_chars(v: Option<&str>) -> Option<Seq<char>> {
    match v {
        Option::Some(s) => Option::Some(s@),
        Option::None => Option::None,
    }
}

/// What the `editable` flag means: only a present parameter whose value is
/// exactly `true` turns editing on.
pub open spec fn spec_editable(v: Option<Seq<char>>) -> bool {
    v == Option::Some("true"@)
}

/// Reads the `editable` query parameter. An absent parameter and an
/// unparseable value both default to not editable; only the exact value
/// `true` enables editing.
pub fn parse_editable(v: Option<&str>) -> (r: bool)
    ensures
        r == spec_editable(param_chars(v)),
        r <==> (v is Some && v->0@ == "true"@),
{
    match v {
        Option::None => false,
        Option::Some(s) => {
            let lhs: String = s.to_owned();
            let rhs: String = "true".to_owned();
            lhs == rhs
        },
    }
}

} // verus!
