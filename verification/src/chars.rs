//! Small verified utilities for building and slicing character vectors.

use vstd::prelude::*;
use vstd::string::StrSliceExecFns;

verus! {

/// Append every character of `s` to `out`.
pub fn append_str(out: &mut Vec<char>, s: &str)
    ensures
        final(out)@ == old(out)@ + s@,
{
    let n = s.unicode_len();
    let mut i: usize = 0;
    while i < n
        invariant
            n == s@.len(),
            i <= n,
            out@ == old(out)@ + s@.take(i as int),
        decreases n - i,
    {
        out.push(s.get_char(i));
        proof {
            assert(s@.take(i + 1) =~= s@.take(i as int).push(s@[i as int]));
            assert(old(out)@ + s@.take(i + 1) =~= (old(out)@ + s@.take(i as int)).push(
                s@[i as int],
            ));
        }
        i = i + 1;
    }
    proof {
        assert(s@.take(n as int) =~= s@);
    }
}

/// Copy the characters of `s` into a fresh vector.
pub fn str_to_chars(s: &str) -> (v: Vec<char>)
    ensures
        v@ == s@,
{
    let mut v: Vec<char> = Vec::new();
    append_str(&mut v, s);
    v
}

/// Copy `s[from..to]` into a fresh vector.
pub fn copy_range(s: &[char], from: usize, to: usize) -> (v: Vec<char>)
    requires
        from <= to <= s@.len(),
    ensures
        v@ == s@.subrange(from as int, to as int),
{
    let mut v: Vec<char> = Vec::new();
    let mut i: usize = from;
    while i < to
        invariant
            from <= i <= to <= s@.len(),
            v@ == s@.subrange(from as int, i as int),
        decreases to - i,
    {
        v.push(s[i]);
        proof {
            assert(s@.subrange(from as int, i + 1) =~= s@.subrange(from as int, i as int).push(
                s@[i as int],
            ));
        }
        i = i + 1;
    }
    v
}

/// Append every character of `piece` to `out`.
pub fn append_chars(out: &mut Vec<char>, piece: &Vec<char>)
    ensures
        final(out)@ == old(out)@ + piece@,
{
    let n = piece.len();
    let mut i: usize = 0;
    while i < n
        invariant
            n == piece@.len(),
            i <= n,
            out@ == old(out)@ + piece@.take(i as int),
        decreases n - i,
    {
        out.push(piece[i]);
        proof {
            assert(old(out)@ + piece@.take(i + 1) =~= (old(out)@ + piece@.take(i as int)).push(
                piece@[i as int],
            ));
        }
        i = i + 1;
    }
    proof {
        assert(piece@.take(n as int) =~= piece@);
    }
}

} // verus!
