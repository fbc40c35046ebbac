//! Symbol names.

use vstd::prelude::*;

verus! {

/// Whether a symbol is a mangled Swift name: it starts with `$s`.
pub open spec fn spec_is_swift_symbol(symbol: Seq<char>) -> bool {
    symbol.len() >= 2 && symbol[0] == '$' && symbol[1] == 's'
}

pub fn is_swift_symbol(symbol: &str) -> (r: bool)
    ensures
        r == spec_is_swift_symbol(symbol@),
{
    let n = symbol.unicode_len();
    n >= 2 && symbol.get_char(0) == '$' && symbol.get_char(1) == 's'
}

/// The symbol as it is shown; Swift names stay mangled in a build without
/// the Swift runtime.
pub fn demangle_symbol(symbol: &str) -> (r: &str)
    ensures
        r@ == symbol@,
{
    if is_swift_symbol(symbol) {
        demangle_swift_symbol(symbol)
    } else {
        symbol
    }
}

fn demangle_swift_symbol(symbol: &str) -> (r: &str)
    ensures
        r@ == symbol@,
{
    symbol
}

} // verus!
