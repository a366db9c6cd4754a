use vstd::prelude::*;

verus! {

/// Character-wise equality of two strings.
pub fn str_eq(a: &str, b: &str) -> (r: bool)
    ensures
        r == (a@ == b@),
{
    let n = a.unicode_len();
    if n != b.unicode_len() {
        return false;
    }
    let mut i: usize = 0;
    while i < n
        invariant
            n == a@.len(),
            n == b@.len(),
            i <= n,
            forall|j: int| 0 <= j < i ==> a@[j] == b@[j],
        decreases n - i,
    {
        if a.get_char(i) != b.get_char(i) {
            return false;
        }
        i += 1;
    }
    assert(a@ =~= b@);
    true
}

/// Whether `t` equals one of the strings of `group`.
pub open spec fn group_has(group: Seq<String>, t: Seq<char>) -> bool {
    exists|j: int| 0 <= j < group.len() && (#[trigger] group[j])@ == t
}

/// Membership of a string in a list of strings.
pub fn group_contains(group: &Vec<String>, t: &String) -> (r: bool)
    ensures
        r == group_has(group@, t@),
{
    let mut i: usize = 0;
    while i < group.len()
        invariant
            i <= group.len(),
            forall|j: int| 0 <= j < i ==> (#[trigger] group@[j])@ != t@,
        decreases group.len() - i,
    {
        if group[i] == *t {
            return true;
        }
        i += 1;
    }
    false
}

} // verus!
