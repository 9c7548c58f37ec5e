//! Comparisons of strings, character by character.

use vstd::prelude::*;
use vstd::std_specs::iter::IteratorSpec;
use vstd::string::*;

verus! {

/// Whether `s` begins with `prefix`.
pub fn starts_with(s: &str, prefix: &str) -> (b: bool)
    ensures
        b == prefix@.is_prefix_of(s@),
{
    broadcast use group_string_axioms;

    let mut rest = s.chars();
    let mut want = prefix.chars();
    let ghost mut i: int = 0;
    loop
        invariant
            0 <= i <= s@.len(),
            i <= prefix@.len(),
            rest.remaining() == s@.skip(i),
            want.remaining() == prefix@.skip(i),
            s@.take(i) == prefix@.take(i),
        decreases prefix@.len() - i,
    {
        match want.next() {
            None => {
                assert(prefix@.take(i) =~= prefix@);
                assert(s@.subrange(0, prefix@.len() as int) =~= s@.take(i));
                return true;
            },
            Some(w) => {
                assert(w == prefix@[i]);
                match rest.next() {
                    None => {
                        return false;
                    },
                    Some(c) => {
                        assert(c == s@[i]);
                        if c != w {
                            assert(!prefix@.is_prefix_of(s@)) by {
                                if prefix@.is_prefix_of(s@) {
                                    assert(s@.subrange(0, prefix@.len() as int)[i] == s@[i]);
                                }
                            }
                            return false;
                        }
                        proof {
                            assert(s@.skip(i).drop_first() =~= s@.skip(i + 1));
                            assert(prefix@.skip(i).drop_first() =~= prefix@.skip(i + 1));
                            assert(s@.take(i + 1) =~= s@.take(i).push(s@[i]));
                            assert(prefix@.take(i + 1) =~= prefix@.take(i).push(prefix@[i]));
                            i = i + 1;
                        }
                    },
                }
            },
        }
    }
}

/// Whether `a` and `b` hold the same characters.
pub fn same_text(a: &str, b: &str) -> (same: bool)
    ensures
        same == (a@ == b@),
{
    let same = starts_with(a, b) && starts_with(b, a);
    proof {
        if b@.is_prefix_of(a@) && a@.is_prefix_of(b@) {
            assert(a@ =~= b@);
        }
        if a@ == b@ {
            assert(a@.subrange(0, a@.len() as int) =~= a@);
        }
    }
    same
}

} // verus!
