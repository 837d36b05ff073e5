//! Byte strings: comparing and copying them.
use vstd::prelude::*;
use crate::lexer::model::cstr;

verus! {

/// Whether two byte strings are equal (`strcmp(a, b) == 0` on C strings).
pub fn bytes_eq(a: &[u8], b: &[u8]) -> (r: bool)
    ensures
        r == (a@ == b@),
{
    if a.len() != b.len() {
        return false;
    }
    let mut i: usize = 0;
    while i < a.len()
        invariant
            a@.len() == b@.len(),
            0 <= i <= a@.len(),
            forall|k: int| 0 <= k < i ==> a@[k] == b@[k],
        decreases a@.len() - i,
    {
        if a[i] != b[i] {
            return false;
        }
        i = i + 1;
    }
    proof {
        assert(a@ =~= b@);
    }
    true
}

/// A copy of a byte string.
pub fn copy_bytes(a: &[u8]) -> (r: Vec<u8>)
    ensures
        r@ == a@,
{
    let mut r: Vec<u8> = Vec::new();
    let mut i: usize = 0;
    while i < a.len()
        invariant
            0 <= i <= a@.len(),
            r@ == a@.subrange(0, i as int),
        decreases a@.len() - i,
    {
        r.push(a[i]);
        i = i + 1;
        proof {
            assert(r@ =~= a@.subrange(0, i as int));
        }
    }
    proof {
        assert(r@ =~= a@);
    }
    r
}

/// The C string held in a buffer: a copy of the bytes before the first zero byte.
pub fn c_string(a: &[u8]) -> (r: Vec<u8>)
    ensures
        r@ == cstr(a@),
{
    let mut r: Vec<u8> = Vec::new();
    let mut i: usize = 0;
    proof {
        assert(a@.skip(0) =~= a@);
        assert(r@ + cstr(a@) =~= cstr(a@));
    }
    while i < a.len()
        invariant
            0 <= i <= a@.len(),
            cstr(a@) == r@ + cstr(a@.skip(i as int)),
        decreases a@.len() - i,
    {
        let ghost rest = a@.skip(i as int);
        if a[i] == 0 {
            proof {
                assert(cstr(rest) == Seq::<u8>::empty());
                assert(r@ + Seq::<u8>::empty() =~= r@);
            }
            return r;
        }
        proof {
            assert(rest.drop_first() =~= a@.skip(i + 1));
            assert(cstr(rest) == seq![a@[i as int]] + cstr(rest.drop_first()));
        }
        let ghost old_r = r@;
        r.push(a[i]);
        i = i + 1;
        proof {
            assert(r@ =~= old_r + seq![a@[i - 1]]);
            assert(old_r + (seq![a@[i - 1]] + cstr(a@.skip(i as int))) =~= r@ + cstr(a@.skip(i as int)));
        }
    }
    proof {
        assert(a@.skip(i as int) =~= Seq::<u8>::empty());
        assert(r@ + Seq::<u8>::empty() =~= r@);
    }
    r
}

/// The C string that starts at `p` in a buffer: the bytes from `p` on, up to the first zero byte.
pub fn cstr_from(a: &[u8], p: usize) -> (r: Vec<u8>)
    requires
        p <= a@.len(),
    ensures
        r@ == cstr(a@.skip(p as int)),
{
    let mut r: Vec<u8> = Vec::new();
    let mut i: usize = p;
    proof {
        assert(r@ + cstr(a@.skip(p as int)) =~= cstr(a@.skip(p as int)));
    }
    while i < a.len()
        invariant
            p <= i <= a@.len(),
            cstr(a@.skip(p as int)) == r@ + cstr(a@.skip(i as int)),
        decreases a@.len() - i,
    {
        let ghost rest = a@.skip(i as int);
        if a[i] == 0 {
            proof {
                assert(cstr(rest) == Seq::<u8>::empty());
                assert(r@ + Seq::<u8>::empty() =~= r@);
            }
            return r;
        }
        proof {
            assert(rest.drop_first() =~= a@.skip(i + 1));
            assert(cstr(rest) == seq![a@[i as int]] + cstr(rest.drop_first()));
        }
        let ghost old_r = r@;
        r.push(a[i]);
        i = i + 1;
        proof {
            assert(r@ =~= old_r + seq![a@[i - 1]]);
            assert(old_r + (seq![a@[i - 1]] + cstr(a@.skip(i as int))) =~= r@ + cstr(a@.skip(i as int)));
        }
    }
    proof {
        assert(a@.skip(i as int) =~= Seq::<u8>::empty());
        assert(r@ + Seq::<u8>::empty() =~= r@);
    }
    r
}

} // verus!
