//! Lists of strings.

use vstd::prelude::*;
use vstd::string::StringExecFns;

verus! {

/// A copy of a list of strings.
pub fn copy_strings(values: &Vec<String>) -> (copy: Vec<String>)
    ensures
        copy.deep_view() == values.deep_view(),
{
    let mut copy: Vec<String> = Vec::new();
    assert(copy.deep_view() =~= Seq::empty());
    append_strings(&mut copy, values);
    assert(Seq::<Seq<char>>::empty() + values.deep_view() =~= values.deep_view());
    copy
}

/// Appends copies of the strings of `from` to `into`.
pub fn append_strings(into: &mut Vec<String>, from: &Vec<String>)
    ensures
        final(into).deep_view() == old(into).deep_view() + from.deep_view(),
{
    let ghost start = into.deep_view();
    let mut i: usize = 0;
    assert(into.deep_view() =~= start + from.deep_view().take(0));
    while i < from.len()
        invariant
            i <= from.len(),
            into.deep_view() == start + from.deep_view().take(i as int),
        decreases from.len() - i,
    {
        let ghost before = into.deep_view();
        into.push(from[i].clone());
        assert(into.deep_view() =~= before.push(from.deep_view()[i as int]));
        assert(start + from.deep_view().take(i + 1) =~= before.push(from.deep_view()[i as int]));
        i = i + 1;
    }
    assert(from.deep_view().take(i as int) =~= from.deep_view());
}

/// Whether two texts are the same.
pub fn same_text(a: &str, b: &str) -> (same: bool)
    ensures
        same == (a@ == b@),
{
    String::from_str(a) == String::from_str(b)
}

} // verus!
