//! Character-level helpers shared by the parsing and rendering code.
//!
//! The engine works on `Vec<char>` internally so every scan and copy can be
//! verified against the `Seq<char>` views of the strings involved.

use vstd::prelude::*;
use vstd::string::StrSliceExecFns;

verus! {

/// Collects the characters of a string slice into a vector, in order.
pub fn string_to_chars(s: &str) -> (r: Vec<char>)
    ensures
        r@ == s@,
{
    let n = s.unicode_len();
    let mut r: Vec<char> = Vec::new();
    let mut i: usize = 0;
    proof {
        assert(s@.subrange(0, 0) =~= Seq::<char>::empty());
    }
    while i < n
        invariant
            i <= n,
            n == s@.len(),
            r@ == s@.subrange(0, i as int),
        decreases n - i,
    {
        r.push(s.get_char(i));
        proof {
            assert(s@.subrange(0, i as int).push(s@[i as int]) =~= s@.subrange(
                0,
                i as int + 1,
            ));
        }
        i += 1;
    }
    proof {
        assert(s@.subrange(0, n as int) =~= s@);
    }
    r
}

/// Copies the characters of `v` at positions `[from, to)` into a new vector.
pub fn copy_range(v: &Vec<char>, from: usize, to: usize) -> (r: Vec<char>)
    requires
        from <= to <= v@.len(),
    ensures
        r@ == v@.subrange(from as int, to as int),
{
    let mut r: Vec<char> = Vec::new();
    let mut i: usize = from;
    proof {
        assert(v@.subrange(from as int, from as int) =~= Seq::<char>::empty());
    }
    while i < to
        invariant
            from <= i <= to <= v@.len(),
            r@ == v@.subrange(from as int, i as int),
        decreases to - i,
    {
        r.push(v[i]);
        proof {
            assert(v@.subrange(from as int, i as int).push(v@[i as int]) =~= v@.subrange(
                from as int,
                i as int + 1,
            ));
        }
        i += 1;
    }
    r
}

/// Appends every character of `s` to `out`, in order.
pub fn push_str_chars(out: &mut Vec<char>, s: &str)
    ensures
        final(out)@ == old(out)@ + s@,
{
    let n = s.unicode_len();
    let mut i: usize = 0;
    proof {
        assert(old(out)@ + s@.subrange(0, 0) =~= old(out)@);
    }
    while i < n
        invariant
            i <= n,
            n == s@.len(),
            out@ == old(out)@ + s@.subrange(0, i as int),
        decreases n - i,
    {
        out.push(s.get_char(i));
        proof {
            assert((old(out)@ + s@.subrange(0, i as int)).push(s@[i as int]) =~= old(out)@
                + s@.subrange(0, i as int + 1));
        }
        i += 1;
    }
    proof {
        assert(old(out)@ + s@.subrange(0, n as int) =~= old(out)@ + s@);
    }
}

/// Relies on `String`'s `FromIterator<char>` implementation: collecting an
/// iterator of characters yields the string holding exactly those characters
/// in order.
#[verifier::external_body]
pub(crate) fn chars_to_string(v: &Vec<char>) -> (r: String)
    ensures
        r@ == v@,
{
    v.iter().collect()
}

} // verus!
