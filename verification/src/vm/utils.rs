//! Small helpers shared by the other modules.

use vstd::prelude::*;

verus! {

/// One of two values.
#[derive(Clone, Copy, Debug)]
pub enum Either<L, R> {
    Left(L),
    Right(R),
}

/// Whether two strings hold the same characters.
pub fn str_eq(a: &str, b: &str) -> (r: bool)
    ensures
        r == (a@ == b@),
{
    let x: String = a.to_owned();
    let y: String = b.to_owned();
    x == y
}

} // verus!
