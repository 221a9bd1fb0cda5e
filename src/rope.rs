//! The text store behind a buffer: `jumprope::JumpRope`, addressed in
//! Unicode scalar values, seen by the proofs only through the characters it
//! holds.
use vstd::prelude::*;

use jumprope::JumpRope;

verus! {

#[verifier::external_type_specification]
#[verifier::external_body]
pub struct ExJumpRope(JumpRope);

/// The characters that a rope holds, in order.
pub uninterp spec fn rope_chars(r: JumpRope) -> Seq<char>;

/// Relies on `JumpRope::new`: a fresh rope is empty.
#[verifier::external_body]
pub(crate) fn rope_new() -> (r: JumpRope)
    ensures
        rope_chars(r) == Seq::<char>::empty(),
{
    JumpRope::new()
}

/// Relies on `JumpRope::from` (a new rope into which `s` is inserted at 0):
/// the rope holds exactly the characters of `s`.
#[verifier::external_body]
pub(crate) fn rope_from(s: &str) -> (r: JumpRope)
    ensures
        rope_chars(r) == s@,
{
    JumpRope::from(s)
}

/// Relies on `JumpRope::len_chars`: the length in Unicode scalar values.
#[verifier::external_body]
pub(crate) fn rope_len(r: &JumpRope) -> (n: usize)
    ensures
        n == rope_chars(*r).len(),
{
    r.len_chars()
}

/// Relies on `JumpRope::insert`: `s` is spliced in at character offset `pos`.
#[verifier::external_body]
pub(crate) fn rope_insert(r: &mut JumpRope, pos: usize, s: &str)
    requires
        pos <= rope_chars(*old(r)).len(),
    ensures
        rope_chars(*final(r)) == rope_chars(*old(r)).take(pos as int) + s@ + rope_chars(
            *old(r),
        ).skip(pos as int),
{
    r.insert(pos, s)
}

/// Relies on `JumpRope::remove`: the characters in `[start, end)` are taken out.
#[verifier::external_body]
pub(crate) fn rope_remove(r: &mut JumpRope, start: usize, end: usize)
    requires
        start <= end <= rope_chars(*old(r)).len(),
    ensures
        rope_chars(*final(r)) == rope_chars(*old(r)).take(start as int) + rope_chars(
            *old(r),
        ).skip(end as int),
{
    r.remove(start..end)
}

/// Relies on `JumpRope::slice_chars`: the characters in `[start, end)`,
/// collected into a `String`.
#[verifier::external_body]
pub(crate) fn rope_slice(r: &JumpRope, start: usize, end: usize) -> (s: String)
    requires
        start <= end <= rope_chars(*r).len(),
    ensures
        s@ == rope_chars(*r).subrange(start as int, end as int),
{
    r.slice_chars(start..end).collect::<String>()
}

/// Relies on `JumpRope::to_string`: the whole text as one `String`.
#[verifier::external_body]
pub(crate) fn rope_text(r: &JumpRope) -> (s: String)
    ensures
        s@ == rope_chars(*r),
{
    r.to_string()
}

} // verus!
