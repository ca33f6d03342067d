use vstd::prelude::*;

pub mod decl;
pub mod filter;
pub mod laws;
pub mod names;
pub mod render;
pub mod rewrite;

use crate::decl::FnDecl;
use crate::filter::{parse_filter, spec_filter_of};
use crate::rewrite::{transform, spec_transform, CapabilityPair};

verus! {

/// An error in a configuration payload: `pos` is the character index at
/// which the offending token begins.
#[derive(Debug)]
pub struct SyntaxError {
    pub pos: usize,
}

/// Decodes the configuration payload `attr` into an identifier filter and
/// rewrites `item` against the chosen capability pair. Fails, with the
/// position of the offending token, exactly when the payload is malformed;
/// rewriting itself cannot fail.
pub fn transform_with(attr: &str, item: &FnDecl, pair: CapabilityPair) -> (r: Result<
    FnDecl,
    SyntaxError,
>)
    ensures
        (match r {
            Ok(out) => spec_filter_of(attr@) is Ok && out@ == spec_transform(
                item@,
                spec_filter_of(attr@)->Ok_0,
                pair,
            ),
            Err(e) => spec_filter_of(attr@) == Err::<Set<Seq<char>>, nat>(e.pos as nat),
        }),
{
    match parse_filter(attr) {
        Ok(f) => Ok(transform(item, &f, pair)),
        Err(e) => Err(e),
    }
}

/// The transformation against the standard conversion capability pair
/// (`AsRef`/`AsMut`, accessors `as_ref`/`as_mut`).
pub fn auto_ref(attr: &str, item: &FnDecl) -> (r: Result<FnDecl, SyntaxError>)
    ensures
        (match r {
            Ok(out) => spec_filter_of(attr@) is Ok && out@ == spec_transform(
                item@,
                spec_filter_of(attr@)->Ok_0,
                CapabilityPair::Standard,
            ),
            Err(e) => spec_filter_of(attr@) == Err::<Set<Seq<char>>, nat>(e.pos as nat),
        }),
{
    transform_with(attr, item, CapabilityPair::Standard)
}

/// The transformation against the borrow capability pair
/// (`Borrow`/`BorrowMut`, accessors `borrow`/`borrow_mut`).
pub fn auto_borrow(attr: &str, item: &FnDecl) -> (r: Result<FnDecl, SyntaxError>)
    ensures
        (match r {
            Ok(out) => spec_filter_of(attr@) is Ok && out@ == spec_transform(
                item@,
                spec_filter_of(attr@)->Ok_0,
                CapabilityPair::Borrow,
            ),
            Err(e) => spec_filter_of(attr@) == Err::<Set<Seq<char>>, nat>(e.pos as nat),
        }),
{
    transform_with(attr, item, CapabilityPair::Borrow)
}

} // verus!
