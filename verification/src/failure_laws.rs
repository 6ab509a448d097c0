//! What holds of failures: of the errors that tell of them, and of the handlers that
//! refused deposits are put to.
use crate::deposit_fail::{DepositToAlternative, OnDepositFail};
use crate::error::{dispatch_error_text, known, report, transact_error, Error};
use crate::services::{CurrencyCall, Get, MultiCurrency};
use crate::types::{Asset, XcmError, XcmErrorView};
use sp_runtime::DispatchError;
use staging_xcm::v5::Location;
use vstd::prelude::*;

verus! {

/// Errors with the same view are the same kind of error, for the same reason.
pub proof fn law_views_tell_errors_apart(a: XcmError, b: XcmError)
    requires
        a@ == b@,
    ensures
        match (a, b) {
            (XcmError::AssetNotFound, XcmError::AssetNotFound) => true,
            (XcmError::Unimplemented, XcmError::Unimplemented) => true,
            (XcmError::FailedToTransactAsset(x), XcmError::FailedToTransactAsset(y)) => x@ == y@,
            (XcmError::Other(x), XcmError::Other(y)) => x == y,
            _ => false,
        },
{
}

/// Each of the adapter's own failures is a failure to transact that gives the
/// failure's name for its reason.
pub proof fn law_own_failures_give_their_names()
    ensures
        forall|failure: Error, error: XcmError| #[trigger]
            call_ensures(<XcmError as From<Error>>::from, (failure,), error) ==> {
                &&& error matches XcmError::FailedToTransactAsset(text)
                &&& failure is FailedToMatchFungible ==> text@ == "FailedToMatchFungible"@
                &&& failure is AccountIdConversionFailed ==> text@ == "AccountIdConversionFailed"@
                &&& failure is CurrencyIdConversionFailed ==> text@
                    == "CurrencyIdConversionFailed"@
            },
{
}

/// What is known is given as it is, and only what is not known is a failure, with the
/// name of the given one.
pub proof fn law_known_fails_on_nothing_else<T>()
    ensures
        forall|reply: Option<T>, failure: Error, r: Result<T, XcmError>| #[trigger]
            call_ensures(known::<T>, (reply, failure), r) ==> {
                &&& r is Ok <==> reply is Some
                &&& r matches Ok(value) ==> reply == Some(value)
                &&& r matches Err(error) ==> {
                    &&& error matches XcmError::FailedToTransactAsset(text)
                    &&& failure is FailedToMatchFungible ==> text@ == "FailedToMatchFungible"@
                    &&& failure is AccountIdConversionFailed ==> text@
                        == "AccountIdConversionFailed"@
                    &&& failure is CurrencyIdConversionFailed ==> text@
                        == "CurrencyIdConversionFailed"@
                }
            },
{
}

/// A ledger's failure is reported as a failure to transact with the ledger's own
/// text, and its success as success.
pub proof fn law_reports_are_the_ledgers_own()
    ensures
        forall|err: DispatchError, error: XcmError| #[trigger]
            call_ensures(transact_error, (err,), error) ==> {
                &&& error matches XcmError::FailedToTransactAsset(text)
                &&& text@ == dispatch_error_text(err)
            },
        forall|reply: Result<(), DispatchError>, r: Result<(), XcmError>| #[trigger]
            call_ensures(report, (reply,), r) ==> {
                &&& r is Ok <==> reply is Ok
                &&& r matches Err(error) ==> {
                    &&& error matches XcmError::FailedToTransactAsset(text)
                    &&& text@ == dispatch_error_text(reply->Err_0)
                }
            },
{
}

/// The handler `()` never takes a refusal for a success: it passes each on with the
/// ledger's own text.
pub proof fn law_empty_handler_passes_refusals_on<CurrencyId, AccountId, Balance>()
    ensures
        forall|
            handler: &mut (),
            err: DispatchError,
            currency_id: CurrencyId,
            who: &AccountId,
            amount: Balance,
            r: Result<(), XcmError>,
        |
            #[trigger] call_ensures(
                <() as OnDepositFail<CurrencyId, AccountId, Balance>>::on_deposit_currency_fail,
                (handler, err, currency_id, who, amount),
                r,
            ) ==> {
                &&& r matches Err(XcmError::FailedToTransactAsset(text))
                &&& text@ == dispatch_error_text(err)
            },
        forall|
            handler: &mut (),
            err: DispatchError,
            asset: &Asset,
            location: &Location,
            r: Result<(), XcmError>,
        |
            #[trigger] call_ensures(
                <() as OnDepositFail<
                    CurrencyId,
                    AccountId,
                    Balance,
                >>::on_deposit_unknown_asset_fail,
                (handler, err, asset, location),
                r,
            ) ==> {
                &&& r matches Err(XcmError::FailedToTransactAsset(text))
                &&& text@ == dispatch_error_text(err)
            },
{
}

/// A refused currency is deposited once more: the whole amount, in the same
/// currency, to the account that is configured, whoever it was meant for. The answer
/// is that of this second deposit.
pub proof fn law_alternative_takes_the_whole<
    Alternative: Get<AccountId>,
    MultiCurrencyT: MultiCurrency<AccountId, CurrencyId, Balance>,
    CurrencyId: Copy,
    AccountId,
    Balance: Copy,
>()
    ensures
        forall|
            handler: &mut DepositToAlternative<
                Alternative,
                MultiCurrencyT,
                CurrencyId,
                AccountId,
                Balance,
            >,
            err: DispatchError,
            currency_id: CurrencyId,
            who: &AccountId,
            amount: Balance,
            r: Result<(), XcmError>,
        |
            #[trigger] call_ensures(
                <DepositToAlternative<
                    Alternative,
                    MultiCurrencyT,
                    CurrencyId,
                    AccountId,
                    Balance,
                > as OnDepositFail<CurrencyId, AccountId, Balance>>::on_deposit_currency_fail,
                (handler, err, currency_id, who, amount),
                r,
            ) ==> {
                let account = final(handler).accounts().last();
                &&& final(handler).accounts() == handler.accounts().push(account)
                &&& final(handler).ledgers().last() matches CurrencyCall::Deposit {
                    currency_id: currency,
                    who: receiver,
                    amount: deposited,
                    reply,
                }
                &&& final(handler).ledgers() == handler.ledgers().push(
                    final(handler).ledgers().last(),
                )
                &&& currency == currency_id
                &&& receiver == account
                &&& deposited == amount
                &&& r is Ok <==> reply is Ok
                &&& r matches Err(error) ==> {
                    &&& error matches XcmError::FailedToTransactAsset(text)
                    &&& text@ == dispatch_error_text(reply->Err_0)
                }
            },
{
    assert forall|
        before: DepositToAlternative<
            Alternative,
            MultiCurrencyT,
            CurrencyId,
            AccountId,
            Balance,
        >,
        currency_id: CurrencyId,
        amount: Balance,
        after: DepositToAlternative<Alternative, MultiCurrencyT, CurrencyId, AccountId, Balance>,
        reply: Result<(), XcmErrorView>,
    | #[trigger]
        DepositToAlternative::redirected(before, currency_id, amount, after, reply) implies {
        &&& after.accounts() == before.accounts().push(after.accounts().last())
        &&& after.ledgers() == before.ledgers().push(after.ledgers().last())
    } by {
        assert(after.accounts() =~= before.accounts().push(after.accounts().last()));
        assert(after.ledgers() =~= before.ledgers().push(after.ledgers().last()));
    }
}

/// The alternative account is not for unknown assets: their refusal is passed on,
/// and nothing is deposited.
pub proof fn law_alternative_leaves_unknown_assets<
    Alternative: Get<AccountId>,
    MultiCurrencyT: MultiCurrency<AccountId, CurrencyId, Balance>,
    CurrencyId: Copy,
    AccountId,
    Balance: Copy,
>()
    ensures
        forall|
            handler: &mut DepositToAlternative<
                Alternative,
                MultiCurrencyT,
                CurrencyId,
                AccountId,
                Balance,
            >,
            err: DispatchError,
            asset: &Asset,
            location: &Location,
            r: Result<(), XcmError>,
        |
            #[trigger] call_ensures(
                <DepositToAlternative<
                    Alternative,
                    MultiCurrencyT,
                    CurrencyId,
                    AccountId,
                    Balance,
                > as OnDepositFail<CurrencyId, AccountId, Balance>>::on_deposit_unknown_asset_fail,
                (handler, err, asset, location),
                r,
            ) ==> {
                &&& r matches Err(XcmError::FailedToTransactAsset(text))
                &&& text@ == dispatch_error_text(err)
                &&& *final(handler) == *handler
            },
{
}

/// A handler begins with the accounts and the calls that its parts have kept.
pub proof fn law_alternative_begins_with_its_parts<
    Alternative: Get<AccountId>,
    MultiCurrencyT: MultiCurrency<AccountId, CurrencyId, Balance>,
    CurrencyId: Copy,
    AccountId,
    Balance: Copy,
>()
    ensures
        forall|
            alternative: Alternative,
            multi_currency: MultiCurrencyT,
            handler: DepositToAlternative<
                Alternative,
                MultiCurrencyT,
                CurrencyId,
                AccountId,
                Balance,
            >,
        |
            #[trigger] call_ensures(
                DepositToAlternative::new,
                (alternative, multi_currency),
                handler,
            ) ==> {
                &&& handler.accounts() == alternative.made()
                &&& handler.ledgers() == multi_currency.made()
            },
{
}

} // verus!
