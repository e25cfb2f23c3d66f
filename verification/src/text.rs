//! Bridging between `&str`/`String` and character vectors.
//!
//! The protocol layers work over `Vec<char>`, whose view matches the
//! `Seq<char>` view of Rust strings, so a body arriving as `&str` is
//! first spread into characters and a decoded field is folded back into
//! a `String` at the end.

use vstd::prelude::*;

verus! {

broadcast use
    vstd::seq::group_seq_axioms,
    vstd::std_specs::vec::group_vec_axioms,
    vstd::string::group_string_axioms,
;

/// The characters of a string slice, in order.
pub fn str_chars(s: &str) -> (v: Vec<char>)
    ensures
        v@ == s@,
{
    let mut v: Vec<char> = Vec::new();
    for c in it: s.chars()
        invariant
            it.seq() == s@,
            v@ == s@.take(it.index() as int),
    {
        v.push(c);
        proof {
            assert(v@ =~= s@.take(it.index() + 1));
        }
    }
    proof {
        assert(v@ =~= s@);
    }
    v
}

/// An `external_body` wrapper for `String::from_iter`: by its
/// documentation, it builds the string of exactly the given
/// characters, in order.
#[verifier::external_body]
pub fn chars_string(v: Vec<char>) -> (s: String)
    ensures
        s@ == v@,
{
    String::from_iter(v)
}

/// An `external_body` wrapper for `char::from_u32`: by its
/// documentation, it returns the character with the given code point
/// exactly when the code point is a Unicode scalar value.
#[verifier::external_body]
pub(crate) fn char_from_u32(u: u32) -> (r: Option<char>)
    ensures
        is_scalar(u) ==> r == Some(u as char),
        !is_scalar(u) ==> r is None,
{
    char::from_u32(u)
}

/// A Unicode scalar value: what a `char` can hold.
pub open spec fn is_scalar(u: u32) -> bool {
    u < 0xD800 || (0xE000 <= u && u <= 0x10FFFF)
}

/// A copy of a character vector.
pub fn clone_chars(v: &Vec<char>) -> (r: Vec<char>)
    ensures
        r@ == v@,
{
    let mut r: Vec<char> = Vec::new();
    let mut k: usize = 0;
    while k < v.len()
        invariant
            k <= v@.len(),
            r@ == v@.take(k as int),
        decreases v@.len() - k,
    {
        r.push(v[k]);
        proof {
            assert(r@ =~= v@.take(k + 1));
        }
        k = k + 1;
    }
    proof {
        assert(r@ =~= v@);
    }
    r
}

/// Whether a character vector holds exactly the characters of a string
/// slice.
pub fn chars_eq_str(v: &Vec<char>, s: &str) -> (b: bool)
    ensures
        b == (v@ == s@),
{
    let sv = str_chars(s);
    if v.len() != sv.len() {
        proof {
            assert(v@ != s@);
        }
        return false;
    }
    let mut k: usize = 0;
    while k < v.len()
        invariant
            k <= v@.len(),
            v@.len() == sv@.len(),
            sv@ == s@,
            forall|i: int| 0 <= i < k ==> v@[i] == sv@[i],
        decreases v@.len() - k,
    {
        if v[k] != sv[k] {
            proof {
                assert(v@[k as int] != s@[k as int]);
            }
            return false;
        }
        k = k + 1;
    }
    proof {
        assert(v@ =~= s@);
    }
    true
}

} // verus!
