//! Outside types that the library carries: the errors of `ureq`,
//! `serde_json` and std's I/O, and the deferred computations of
//! `comp_cat_rs` that the library's traits return: `Io` (one result or an
//! error) and `Stream` (many results).
use vstd::prelude::*;
use comp_cat_rs::effect::io::Io;
use comp_cat_rs::effect::stream::Stream;
use serde_json::Error as JsonError;
use ureq::Error as HttpError;

verus! {

/// `comp_cat_rs::effect::io::Io`, carried as an opaque value: nothing is
/// read from inside it.
#[verifier::external_type_specification]
#[verifier::external_body]
#[verifier::reject_recursive_types(E)]
#[verifier::reject_recursive_types(A)]
pub struct ExIo<E, A>(Io<E, A>);

/// `comp_cat_rs::effect::stream::Stream`, carried as an opaque value.
#[verifier::external_type_specification]
#[verifier::external_body]
#[verifier::reject_recursive_types(E)]
#[verifier::reject_recursive_types(A)]
pub struct ExStream<E, A>(Stream<E, A>);

/// `ureq::Error`, carried as an opaque value.
#[verifier::external_type_specification]
#[verifier::external_body]
pub struct ExHttpError(HttpError);

/// `serde_json::Error`, carried as an opaque value.
#[verifier::external_type_specification]
#[verifier::external_body]
pub struct ExJsonError(JsonError);

/// `std::io::Error`, carried as an opaque value.
#[verifier::external_type_specification]
#[verifier::external_body]
pub struct ExIoError(std::io::Error);

/// `Io::map` of `comp_cat_rs`: a deferred computation that runs `io` and
/// hands its result to `f`.  Nothing is run here, so nothing is claimed of
/// the result; `f` must accept every value.
#[verifier::external_body]
pub(crate) fn io_map<E: 'static, A: 'static, B: 'static, F: FnOnce(A) -> B + 'static>(
    io: Io<E, A>,
    f: F,
) -> Io<E, B>
    requires
        forall|a: A| call_requires(f, (a,)),
{
    io.map(f)
}

/// `Io::suspend` of `comp_cat_rs`: a deferred computation that calls `f`
/// when run.  Nothing is run here, so nothing is claimed of the result.
#[verifier::external_body]
pub(crate) fn io_suspend<E: 'static, A: 'static, F: FnOnce() -> Result<A, E> + 'static>(
    f: F,
) -> Io<E, A>
    requires
        call_requires(f, ()),
{
    Io::suspend(f)
}

} // verus!
