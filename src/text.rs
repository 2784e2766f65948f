use vstd::prelude::*;
use vstd::string::StringExecFns;

verus! {

/// Joins `a`, the separator `sep` and `b` into one new string.
pub fn join_with(a: &str, sep: &str, b: &str) -> (r: String)
    ensures
        r@ == a@ + sep@ + b@,
{
    let r = a.to_owned();
    let r = r.concat(sep);
    r.concat(b)
}

} // verus!
