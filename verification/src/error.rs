//! The adapter's own failures, and the text of a ledger's failure.
use crate::types::{status, XcmError, XcmErrorView};
use sp_runtime::DispatchError;
use vstd::prelude::*;

verus! {

/// Asset transaction errors.
pub enum Error {
    /// Failed to match fungible.
    FailedToMatchFungible,
    /// `Location` to `AccountId` conversion failed.
    AccountIdConversionFailed,
    /// `CurrencyId` conversion failed.
    CurrencyIdConversionFailed,
}

impl From<Error> for XcmError {
    fn from(e: Error) -> (r: XcmError) {
        match e {
            Error::FailedToMatchFungible => XcmError::FailedToTransactAsset(
                "FailedToMatchFungible",
            ),
            Error::AccountIdConversionFailed => XcmError::FailedToTransactAsset(
                "AccountIdConversionFailed",
            ),
            Error::CurrencyIdConversionFailed => XcmError::FailedToTransactAsset(
                "CurrencyIdConversionFailed",
            ),
        }
    }
}

impl vstd::std_specs::convert::FromSpecImpl<Error> for XcmError {
    open spec fn obeys_from_spec() -> bool {
        true
    }

    open spec fn from_spec(e: Error) -> XcmError {
        match e {
            Error::FailedToMatchFungible => XcmError::FailedToTransactAsset(
                "FailedToMatchFungible",
            ),
            Error::AccountIdConversionFailed => XcmError::FailedToTransactAsset(
                "AccountIdConversionFailed",
            ),
            Error::CurrencyIdConversionFailed => XcmError::FailedToTransactAsset(
                "CurrencyIdConversionFailed",
            ),
        }
    }
}

/// The reason that each of the adapter's own failures gives.
pub open spec fn error_view(e: Error) -> XcmErrorView {
    XcmErrorView::FailedToTransactAsset(
        match e {
            Error::FailedToMatchFungible => "FailedToMatchFungible"@,
            Error::AccountIdConversionFailed => "AccountIdConversionFailed"@,
            Error::CurrencyIdConversionFailed => "CurrencyIdConversionFailed"@,
        },
    )
}

/// What a service knows, or else the failure that it is not known.
pub fn known<T>(reply: Option<T>, failure: Error) -> (r: Result<T, XcmError>)
    ensures
        match reply {
            Some(value) => r == Ok::<T, XcmError>(value),
            None => r is Err && r->Err_0@ == error_view(failure),
        },
{
    match reply {
        Some(value) => Ok(value),
        None => Err(XcmError::from(failure)),
    }
}

/// The text that `<&'static str>::from` gives for a `DispatchError`.
pub uninterp spec fn dispatch_error_text(err: DispatchError) -> Seq<char>;

/// `<&'static str as From<DispatchError>>::from`: a fixed text for each kind of
/// error, and for the kinds that carry a text of their own, that text. Which
/// text it is, is named and not spelled out.
#[verifier::external_body]
fn dispatch_error_str(err: DispatchError) -> (r: &'static str)
    ensures
        r@ == dispatch_error_text(err),
{
    err.into()
}

/// How a ledger's failure is reported.
pub open spec fn transact_error_view(err: DispatchError) -> XcmErrorView {
    XcmErrorView::FailedToTransactAsset(dispatch_error_text(err))
}

/// Reports a ledger's failure.
pub fn transact_error(err: DispatchError) -> (r: XcmError)
    ensures
        r@ == transact_error_view(err),
{
    XcmError::FailedToTransactAsset(dispatch_error_str(err))
}

/// How a ledger's answer is reported.
pub open spec fn ledger_status(reply: Result<(), DispatchError>) -> Result<(), XcmErrorView> {
    match reply {
        Ok(()) => Ok(()),
        Err(err) => Err(transact_error_view(err)),
    }
}

/// Reports a ledger's answer: its failure, if it failed.
pub fn report(reply: Result<(), DispatchError>) -> (r: Result<(), XcmError>)
    ensures
        status(r) == ledger_status(reply),
{
    match reply {
        Ok(()) => Ok(()),
        Err(err) => Err(transact_error(err)),
    }
}

} // verus!
