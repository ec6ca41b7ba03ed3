use vstd::prelude::*;

verus! {

broadcast use vstd::string::group_string_axioms;

pub fn chars_of(s: &str) -> (res: Vec<char>)
    ensures
        res@ == s@,
{
    let mut res: Vec<char> = Vec::new();
    for c in it: s.chars()
        invariant
            res@ == it.seq().take(it.index() as int),
    {
        res.push(c);
    }
    res
}

/// Builds an owned string from scalars; std's `String: FromIterator<&char>`
/// yields exactly the given scalars in order.
#[verifier::external_body]
pub fn string_of(v: &Vec<char>) -> (res: String)
    ensures
        res@ == v@,
{
    String::from_iter(v.iter())
}

} // verus!
