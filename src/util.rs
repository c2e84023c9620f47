//! Small helpers.
use vstd::prelude::*;
use vstd::string::StrSliceExecFns;

verus! {

/// Increments a counter and returns its value from before the increment.
pub fn post_inc(value: &mut usize) -> (r: usize)
    requires
        *old(value) < usize::MAX,
    ensures
        r == *old(value),
        *final(value) == *old(value) + 1,
{
    let prev = *value;
    *value = *value + 1;
    prev
}

/// The characters of a string, in order.
pub fn chars_of(s: &str) -> (r: Vec<char>)
    ensures
        r@ == s@,
{
    let n = s.unicode_len();
    let mut out: Vec<char> = Vec::new();
    let mut i: usize = 0;
    while i < n
        invariant
            n == s@.len(),
            i <= n,
            out@ == s@.subrange(0, i as int),
        decreases n - i,
    {
        out.push(s.get_char(i));
        proof {
            assert(out@ =~= s@.subrange(0, i + 1));
        }
        i += 1;
    }
    proof {
        assert(out@ =~= s@);
    }
    out
}

} // verus!
