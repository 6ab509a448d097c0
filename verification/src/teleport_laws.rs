//! What each operation of the adapter with the check-in hooks enabled does: the
//! hooks let everything in, and assets move as they do without them.
use crate::adapter_laws::{
    lemma_consequences, lemma_handed_over, lemma_passed_on, lemma_receipts, lemma_redirects,
};
use crate::currency_adapter::MultiCurrencyAdapter;
use crate::deposit_fail::{DepositToAlternative, OnDepositFail};
use crate::eager_credit::EagerHolding;
use crate::error::dispatch_error_text;
use crate::history_laws::{
    all_redirected, currency_calls, handed_over, refusals, refused, second_deposits,
    unknown_asset_calls, unknown_refused,
};
use crate::holding::{entries, held};
use crate::laws::{answered, asks_handler, follows, settles};
use crate::services::{
    linked, reached, Convert, ConvertLocation, CurrencyCall, Get, MatchesFungible,
    MultiCurrency, ServiceCall, UnknownAsset, UnknownAssetCall,
};
use crate::teleport_currency_adapter::MultiTeleportCurrencyAdapter;
use crate::types::{status, Asset, Fungibility, XcmError, XcmErrorView};
use staging_xcm::v5::{Location, XcmContext};
use staging_xcm_executor::AssetsInHolding;
use vstd::prelude::*;

verus! {

/// Enabling the hooks changes nothing else about an adapter.
pub proof fn law_teleporting_takes_the_adapter_over<
    MultiCurrencyT: MultiCurrency<AccountId, CurrencyId, Balance>,
    UnknownAssetT: UnknownAsset,
    Match: MatchesFungible<Balance>,
    AccountId,
    AccountIdConvert: ConvertLocation<AccountId>,
    CurrencyId: Copy,
    CurrencyIdConvert: Convert<Asset, Option<CurrencyId>>,
    DepositFailureHandler: OnDepositFail<CurrencyId, AccountId, Balance>,
    Balance: Copy,
>()
    ensures
        forall|
            plain: MultiCurrencyAdapter<
                MultiCurrencyT,
                UnknownAssetT,
                Match,
                AccountId,
                AccountIdConvert,
                CurrencyId,
                CurrencyIdConvert,
                DepositFailureHandler,
                Balance,
            >,
            adapter: MultiTeleportCurrencyAdapter<
                MultiCurrencyT,
                UnknownAssetT,
                Match,
                AccountId,
                AccountIdConvert,
                CurrencyId,
                CurrencyIdConvert,
                DepositFailureHandler,
                Balance,
            >,
        |
            #[trigger] call_ensures(MultiTeleportCurrencyAdapter::new, (plain,), adapter) ==> {
                &&& adapter@ == plain@
                &&& adapter.histories() == plain.histories()
            },
{
}

/// Every asset may be teleported in, and nothing is done for it.
pub proof fn law_teleports_are_let_in<
    MultiCurrencyT: MultiCurrency<AccountId, CurrencyId, Balance>,
    UnknownAssetT: UnknownAsset,
    Match: MatchesFungible<Balance>,
    AccountId,
    AccountIdConvert: ConvertLocation<AccountId>,
    CurrencyId: Copy,
    CurrencyIdConvert: Convert<Asset, Option<CurrencyId>>,
    DepositFailureHandler: OnDepositFail<CurrencyId, AccountId, Balance>,
    Balance: Copy,
>()
    ensures
        forall|
            adapter: &mut MultiTeleportCurrencyAdapter<
                MultiCurrencyT,
                UnknownAssetT,
                Match,
                AccountId,
                AccountIdConvert,
                CurrencyId,
                CurrencyIdConvert,
                DepositFailureHandler,
                Balance,
            >,
            origin: &Location,
            what: &Asset,
            context: &XcmContext,
            r: Result<(), XcmError>,
        |
            #[trigger] call_ensures(
                MultiTeleportCurrencyAdapter::can_check_in,
                (adapter, origin, what, context),
                r,
            ) ==> {
                &&& r is Ok
                &&& *final(adapter) == *adapter
            },
{
}

/// Checking an asset in does nothing.
pub proof fn law_checking_in_does_nothing<
    MultiCurrencyT: MultiCurrency<AccountId, CurrencyId, Balance>,
    UnknownAssetT: UnknownAsset,
    Match: MatchesFungible<Balance>,
    AccountId,
    AccountIdConvert: ConvertLocation<AccountId>,
    CurrencyId: Copy,
    CurrencyIdConvert: Convert<Asset, Option<CurrencyId>>,
    DepositFailureHandler: OnDepositFail<CurrencyId, AccountId, Balance>,
    Balance: Copy,
>()
    ensures
        forall|
            adapter: &mut MultiTeleportCurrencyAdapter<
                MultiCurrencyT,
                UnknownAssetT,
                Match,
                AccountId,
                AccountIdConvert,
                CurrencyId,
                CurrencyIdConvert,
                DepositFailureHandler,
                Balance,
            >,
            origin: &Location,
            what: &Asset,
            context: &XcmContext,
        |
            #[trigger] call_ensures(
                MultiTeleportCurrencyAdapter::check_in,
                (adapter, origin, what, context),
                (),
            ) ==> {
                *final(adapter) == *adapter
            },
{
}

/// What a register held is what the ledgers are handed, asset by asset and in the
/// register's order: each known asset by the amount that it stands for, to the account
/// and in the currency that were found, each other asset as it is. From the first that
/// fails on, the rest is handed back, each as the very imbalance that it was.
pub proof fn law_teleporting_deposit_hands_over_what_the_register_held<
    MultiCurrencyT: MultiCurrency<AccountId, CurrencyId, Balance>,
    UnknownAssetT: UnknownAsset,
    Match: MatchesFungible<Balance>,
    AccountId,
    AccountIdConvert: ConvertLocation<AccountId>,
    CurrencyId: Copy,
    CurrencyIdConvert: Convert<Asset, Option<CurrencyId>>,
    DepositFailureHandler: OnDepositFail<CurrencyId, AccountId, Balance>,
    Balance: Copy,
>()
    ensures
        forall|
            adapter: &mut MultiTeleportCurrencyAdapter<
                MultiCurrencyT,
                UnknownAssetT,
                Match,
                AccountId,
                AccountIdConvert,
                CurrencyId,
                CurrencyIdConvert,
                DepositFailureHandler,
                Balance,
            >,
            what: AssetsInHolding,
            location: &Location,
            context: Option<&XcmContext>,
            r: Result<(), (AssetsInHolding, XcmError)>,
        |
            #[trigger] call_ensures(
                MultiTeleportCurrencyAdapter::deposit_asset,
                (adapter, what, location, context),
                r,
            ) ==> {
                let before = adapter.histories();
                let after = final(adapter).histories();
                let tried = after.accounts.len() - before.accounts.len();
                &&& 0 <= tried <= held(what).len()
                &&& handed_over(held(what).take(tried), *location, before, after)
                &&& r is Ok ==> tried == held(what).len()
                &&& r matches Err((undeposited, _)) ==> {
                    &&& tried >= 1
                    &&& held(undeposited) == held(what).skip(tried - 1)
                    &&& entries(undeposited) == entries(what).skip(tried - 1)
                }
            },
{
    assert forall|
        adapter: &mut MultiTeleportCurrencyAdapter<
            MultiCurrencyT,
            UnknownAssetT,
            Match,
            AccountId,
            AccountIdConvert,
            CurrencyId,
            CurrencyIdConvert,
            DepositFailureHandler,
            Balance,
        >,
        what: AssetsInHolding,
        location: &Location,
        context: Option<&XcmContext>,
        r: Result<(), (AssetsInHolding, XcmError)>,
    |
        #[trigger] call_ensures(
            MultiTeleportCurrencyAdapter::deposit_asset,
            (adapter, what, location, context),
            r,
        ) implies {
        let before = adapter.histories();
        let after = final(adapter).histories();
        let tried = after.accounts.len() - before.accounts.len();
        &&& 0 <= tried <= held(what).len()
        &&& handed_over(held(what).take(tried), *location, before, after)
        &&& r is Ok ==> tried == held(what).len()
        &&& r matches Err((undeposited, _)) ==> {
            &&& tried >= 1
            &&& held(undeposited) == held(what).skip(tried - 1)
            &&& entries(undeposited) == entries(what).skip(tried - 1)
        }
    } by {
        lemma_handed_over(
            what,
            *location,
            adapter.histories(),
            final(adapter)@.skip(adapter@.len() as int),
            final(adapter).histories(),
            r,
        );
    }
}

/// Every deposit is settled or put to the failure handler, whose own answer has the
/// entry settled or is the failure of the whole. The entries settled and those handed
/// back are the register's, in its order. The ledgers have served exactly the calls
/// that are recorded.
pub proof fn law_teleporting_deposit_ends_as_its_calls_do<
    MultiCurrencyT: MultiCurrency<AccountId, CurrencyId, Balance>,
    UnknownAssetT: UnknownAsset,
    Match: MatchesFungible<Balance>,
    AccountId,
    AccountIdConvert: ConvertLocation<AccountId>,
    CurrencyId: Copy,
    CurrencyIdConvert: Convert<Asset, Option<CurrencyId>>,
    DepositFailureHandler: OnDepositFail<CurrencyId, AccountId, Balance>,
    Balance: Copy,
>()
    ensures
        forall|
            adapter: &mut MultiTeleportCurrencyAdapter<
                MultiCurrencyT,
                UnknownAssetT,
                Match,
                AccountId,
                AccountIdConvert,
                CurrencyId,
                CurrencyIdConvert,
                DepositFailureHandler,
                Balance,
            >,
            what: AssetsInHolding,
            location: &Location,
            context: Option<&XcmContext>,
            r: Result<(), (AssetsInHolding, XcmError)>,
        |
            #[trigger] call_ensures(
                MultiTeleportCurrencyAdapter::deposit_asset,
                (adapter, what, location, context),
                r,
            ) ==> {
                let before = adapter.histories();
                let after = final(adapter).histories();
                let calls = final(adapter)@.skip(adapter@.len() as int);
                &&& adapter@.is_prefix_of(final(adapter)@)
                &&& after.ledgers == before.ledgers + currency_calls(calls)
                &&& after.unknown_assets == before.unknown_assets + unknown_asset_calls(calls)
                &&& forall|i: int| 0 <= i < calls.len() ==> #[trigger] follows(calls, i)
                &&& forall|i: int| 0 <= i < calls.len() ==> answered(#[trigger] calls[i])
                &&& match r {
                    Ok(()) => {
                        &&& settles(calls) == entries(what)
                        &&& calls.len() > 0 ==> calls.last() is Settle
                    },
                    Err((undeposited, error)) => {
                        &&& settles(calls) + entries(undeposited) == entries(what)
                        &&& calls.len() > 0
                        &&& match calls.last() {
                            ServiceCall::OnCurrencyFail { reply, .. } => status(reply) == Err::<
                                (),
                                XcmErrorView,
                            >(error@),
                            ServiceCall::OnUnknownAssetFail { reply, .. } => status(reply) == Err::<
                                (),
                                XcmErrorView,
                            >(error@),
                            _ => false,
                        }
                    },
                }
            },
{
    assert forall|
        adapter: &mut MultiTeleportCurrencyAdapter<
            MultiCurrencyT,
            UnknownAssetT,
            Match,
            AccountId,
            AccountIdConvert,
            CurrencyId,
            CurrencyIdConvert,
            DepositFailureHandler,
            Balance,
        >,
        what: AssetsInHolding,
        location: &Location,
        context: Option<&XcmContext>,
        r: Result<(), (AssetsInHolding, XcmError)>,
    |
        #[trigger] call_ensures(
            MultiTeleportCurrencyAdapter::deposit_asset,
            (adapter, what, location, context),
            r,
        ) implies {
        let before = adapter.histories();
        let after = final(adapter).histories();
        let calls = final(adapter)@.skip(adapter@.len() as int);
        &&& adapter@.is_prefix_of(final(adapter)@)
        &&& after.ledgers == before.ledgers + currency_calls(calls)
        &&& after.unknown_assets == before.unknown_assets + unknown_asset_calls(calls)
        &&& forall|i: int| 0 <= i < calls.len() ==> #[trigger] follows(calls, i)
        &&& forall|i: int| 0 <= i < calls.len() ==> answered(#[trigger] calls[i])
        &&& match r {
            Ok(()) => {
                &&& settles(calls) == entries(what)
                &&& calls.len() > 0 ==> calls.last() is Settle
            },
            Err((undeposited, error)) => {
                &&& settles(calls) + entries(undeposited) == entries(what)
                &&& calls.len() > 0
                &&& match calls.last() {
                    ServiceCall::OnCurrencyFail { reply, .. } => status(reply) == Err::<
                        (),
                        XcmErrorView,
                    >(error@),
                    ServiceCall::OnUnknownAssetFail { reply, .. } => status(reply) == Err::<
                        (),
                        XcmErrorView,
                    >(error@),
                    _ => false,
                }
            },
        }
    } by {
        lemma_consequences(
            what,
            *location,
            adapter.histories(),
            final(adapter)@.skip(adapter@.len() as int),
            final(adapter).histories(),
            r,
        );
    }
}

/// If the failure handler is `()`, a register is deposited exactly if nothing was
/// refused, and else the one refusal, in the ledger's own words, is the failure.
pub proof fn law_teleporting_deposit_fails_at_the_first_refusal<
    MultiCurrencyT: MultiCurrency<AccountId, CurrencyId, Balance>,
    UnknownAssetT: UnknownAsset,
    Match: MatchesFungible<Balance>,
    AccountId,
    AccountIdConvert: ConvertLocation<AccountId>,
    CurrencyId: Copy,
    CurrencyIdConvert: Convert<Asset, Option<CurrencyId>>,
    Balance: Copy,
>()
    ensures
        forall|
            adapter: &mut MultiTeleportCurrencyAdapter<
                MultiCurrencyT,
                UnknownAssetT,
                Match,
                AccountId,
                AccountIdConvert,
                CurrencyId,
                CurrencyIdConvert,
                (),
                Balance,
            >,
            what: AssetsInHolding,
            location: &Location,
            context: Option<&XcmContext>,
            r: Result<(), (AssetsInHolding, XcmError)>,
        |
            #[trigger] call_ensures(
                MultiTeleportCurrencyAdapter::deposit_asset,
                (adapter, what, location, context),
                r,
            ) ==> {
                let calls = final(adapter)@.skip(adapter@.len() as int);
                &&& r is Ok ==> forall|i: int|
                    0 <= i < calls.len() ==> !asks_handler(#[trigger] calls[i])
                &&& r matches Err((_, error)) ==> {
                    &&& calls.len() >= 2
                    &&& error matches XcmError::FailedToTransactAsset(text)
                    &&& match calls[calls.len() - 2] {
                        ServiceCall::Currency(CurrencyCall::Deposit { reply, .. }) => {
                            &&& reply is Err
                            &&& text@ == dispatch_error_text(reply->Err_0)
                        },
                        ServiceCall::Unknown(UnknownAssetCall::Deposit { reply, .. }) => {
                            &&& reply is Err
                            &&& text@ == dispatch_error_text(reply->Err_0)
                        },
                        _ => false,
                    }
                }
            },
{
    assert forall|
        adapter: &mut MultiTeleportCurrencyAdapter<
            MultiCurrencyT,
            UnknownAssetT,
            Match,
            AccountId,
            AccountIdConvert,
            CurrencyId,
            CurrencyIdConvert,
            (),
            Balance,
        >,
        what: AssetsInHolding,
        location: &Location,
        context: Option<&XcmContext>,
        r: Result<(), (AssetsInHolding, XcmError)>,
    |
        #[trigger] call_ensures(
            MultiTeleportCurrencyAdapter::deposit_asset,
            (adapter, what, location, context),
            r,
        ) implies {
        let calls = final(adapter)@.skip(adapter@.len() as int);
        &&& r is Ok ==> forall|i: int|
            0 <= i < calls.len() ==> !asks_handler(#[trigger] calls[i])
        &&& r matches Err((_, error)) ==> {
            &&& calls.len() >= 2
            &&& error matches XcmError::FailedToTransactAsset(text)
            &&& match calls[calls.len() - 2] {
                ServiceCall::Currency(CurrencyCall::Deposit { reply, .. }) => {
                    &&& reply is Err
                    &&& text@ == dispatch_error_text(reply->Err_0)
                },
                ServiceCall::Unknown(UnknownAssetCall::Deposit { reply, .. }) => {
                    &&& reply is Err
                    &&& text@ == dispatch_error_text(reply->Err_0)
                },
                _ => false,
            }
        }
    } by {
        lemma_passed_on(
            what,
            *location,
            adapter.histories(),
            final(adapter)@.skip(adapter@.len() as int),
            final(adapter).histories(),
            r,
        );
    }
}

/// If refused deposits go to an alternative account, every currency that is refused is
/// deposited there in full, once and in order, and nothing else is. The whole fails
/// exactly if the last of these is refused as well, or an unknown asset is.
pub proof fn law_teleporting_refused_currencies_go_to_the_alternative<
    MultiCurrencyT: MultiCurrency<AccountId, CurrencyId, Balance>,
    UnknownAssetT: UnknownAsset,
    Match: MatchesFungible<Balance>,
    AccountId,
    AccountIdConvert: ConvertLocation<AccountId>,
    CurrencyId: Copy,
    CurrencyIdConvert: Convert<Asset, Option<CurrencyId>>,
    Alternative: Get<AccountId>,
    LedgersT: MultiCurrency<AccountId, CurrencyId, Balance>,
    Balance: Copy,
>()
    ensures
        forall|
            adapter: &mut MultiTeleportCurrencyAdapter<
                MultiCurrencyT,
                UnknownAssetT,
                Match,
                AccountId,
                AccountIdConvert,
                CurrencyId,
                CurrencyIdConvert,
                DepositToAlternative<Alternative, LedgersT, CurrencyId, AccountId, Balance>,
                Balance,
            >,
            what: AssetsInHolding,
            location: &Location,
            context: Option<&XcmContext>,
            r: Result<(), (AssetsInHolding, XcmError)>,
        |
            #[trigger] call_ensures(
                MultiTeleportCurrencyAdapter::deposit_asset,
                (adapter, what, location, context),
                r,
            ) ==> {
                let before = adapter.histories();
                let after = final(adapter).histories();
                let calls = final(adapter)@.skip(adapter@.len() as int);
                let second = second_deposits(before.handler, after.handler);
                &&& all_redirected(before.handler, refusals(calls), after.handler)
                &&& forall|i: int|
                    0 <= i < second.len() && refused(#[trigger] second[i]) ==> i == second.len() - 1
                        && r is Err
                &&& r is Err <==> {
                    ||| second.len() > 0 && refused(second.last())
                    ||| calls.len() >= 2 && unknown_refused(calls[calls.len() - 2])
                }
            },
{
    assert forall|
        adapter: &mut MultiTeleportCurrencyAdapter<
            MultiCurrencyT,
            UnknownAssetT,
            Match,
            AccountId,
            AccountIdConvert,
            CurrencyId,
            CurrencyIdConvert,
            DepositToAlternative<Alternative, LedgersT, CurrencyId, AccountId, Balance>,
            Balance,
        >,
        what: AssetsInHolding,
        location: &Location,
        context: Option<&XcmContext>,
        r: Result<(), (AssetsInHolding, XcmError)>,
    |
        #[trigger] call_ensures(
            MultiTeleportCurrencyAdapter::deposit_asset,
            (adapter, what, location, context),
            r,
        ) implies {
        let before = adapter.histories();
        let after = final(adapter).histories();
        let calls = final(adapter)@.skip(adapter@.len() as int);
        let second = second_deposits(before.handler, after.handler);
        &&& all_redirected(before.handler, refusals(calls), after.handler)
        &&& forall|i: int|
            0 <= i < second.len() && refused(#[trigger] second[i]) ==> i == second.len() - 1
                && r is Err
        &&& r is Err <==> {
            ||| second.len() > 0 && refused(second.last())
            ||| calls.len() >= 2 && unknown_refused(calls[calls.len() - 2])
        }
    } by {
        lemma_redirects(
            what,
            *location,
            adapter.histories(),
            final(adapter)@.skip(adapter@.len() as int),
            final(adapter).histories(),
            r,
        );
    }
}

/// Minting asks for the currency of the very asset and, if it is known, for its
/// amount, and succeeds exactly if both are known. What is not known is not found
/// here, whatever kind of asset it is.
pub proof fn law_teleporting_minting_needs_currency_and_amount<
    MultiCurrencyT: MultiCurrency<AccountId, CurrencyId, Balance>,
    UnknownAssetT: UnknownAsset,
    Match: MatchesFungible<Balance>,
    AccountId,
    AccountIdConvert: ConvertLocation<AccountId>,
    CurrencyId: Copy,
    CurrencyIdConvert: Convert<Asset, Option<CurrencyId>>,
    DepositFailureHandler: OnDepositFail<CurrencyId, AccountId, Balance>,
    Balance: Copy,
>()
    ensures
        forall|
            adapter: &mut MultiTeleportCurrencyAdapter<
                MultiCurrencyT,
                UnknownAssetT,
                Match,
                AccountId,
                AccountIdConvert,
                CurrencyId,
                CurrencyIdConvert,
                DepositFailureHandler,
                Balance,
            >,
            asset: &Asset,
            context: &XcmContext,
            r: Result<EagerHolding, XcmError>,
        |
            #[trigger] call_ensures(
                MultiTeleportCurrencyAdapter::mint_asset,
                (adapter, asset, context),
                r,
            ) ==> {
                let before = adapter.histories();
                let after = final(adapter).histories();
                let currency = after.currencies.last().1;
                let amount = after.amounts.last().1;
                &&& after.currencies == before.currencies.push((*asset, currency))
                &&& after.amounts == (if currency is Some {
                    before.amounts.push((*asset, amount))
                } else {
                    before.amounts
                })
                &&& r is Ok <==> currency is Some && amount is Some
                &&& r matches Err(error) ==> error is AssetNotFound
            },
{
    reveal_with_fuel(reached, 3);
}

/// What is minted is a receipt for exactly the asset, and no ledger, no account and
/// no handler is asked for anything.
pub proof fn law_teleporting_minting_hands_out_the_asset_and_moves_nothing<
    MultiCurrencyT: MultiCurrency<AccountId, CurrencyId, Balance>,
    UnknownAssetT: UnknownAsset,
    Match: MatchesFungible<Balance>,
    AccountId,
    AccountIdConvert: ConvertLocation<AccountId>,
    CurrencyId: Copy,
    CurrencyIdConvert: Convert<Asset, Option<CurrencyId>>,
    DepositFailureHandler: OnDepositFail<CurrencyId, AccountId, Balance>,
    Balance: Copy,
>()
    ensures
        forall|
            adapter: &mut MultiTeleportCurrencyAdapter<
                MultiCurrencyT,
                UnknownAssetT,
                Match,
                AccountId,
                AccountIdConvert,
                CurrencyId,
                CurrencyIdConvert,
                DepositFailureHandler,
                Balance,
            >,
            asset: &Asset,
            context: &XcmContext,
            r: Result<EagerHolding, XcmError>,
        |
            #[trigger] call_ensures(
                MultiTeleportCurrencyAdapter::mint_asset,
                (adapter, asset, context),
                r,
            ) ==> {
                let before = adapter.histories();
                let after = final(adapter).histories();
                &&& after.accounts == before.accounts
                &&& after.ledgers == before.ledgers
                &&& after.unknown_assets == before.unknown_assets
                &&& after.handler == before.handler
                &&& r matches Ok(EagerHolding::Fungible { id, credit }) ==> *asset == (Asset {
                    id,
                    fun: Fungibility::Fungible(credit.0),
                })
                &&& r matches Ok(EagerHolding::NonFungible(register)) ==> {
                    &&& asset.fun is NonFungible
                    &&& held(register) == seq![*asset]
                }
            },
{
    reveal_with_fuel(reached, 3);
    lemma_receipts();
}

/// A withdrawal asks for the account of the given location, and about nothing but the
/// given asset: its currency if the account is known, and then its amount if the
/// currency is. The failure handler is left alone.
pub proof fn law_teleporting_withdrawal_asks_about_the_asset<
    MultiCurrencyT: MultiCurrency<AccountId, CurrencyId, Balance>,
    UnknownAssetT: UnknownAsset,
    Match: MatchesFungible<Balance>,
    AccountId,
    AccountIdConvert: ConvertLocation<AccountId>,
    CurrencyId: Copy,
    CurrencyIdConvert: Convert<Asset, Option<CurrencyId>>,
    DepositFailureHandler: OnDepositFail<CurrencyId, AccountId, Balance>,
    Balance: Copy,
>()
    ensures
        forall|
            adapter: &mut MultiTeleportCurrencyAdapter<
                MultiCurrencyT,
                UnknownAssetT,
                Match,
                AccountId,
                AccountIdConvert,
                CurrencyId,
                CurrencyIdConvert,
                DepositFailureHandler,
                Balance,
            >,
            asset: &Asset,
            location: &Location,
            context: Option<&XcmContext>,
            r: Result<EagerHolding, XcmError>,
        |
            #[trigger] call_ensures(
                MultiTeleportCurrencyAdapter::withdraw_asset,
                (adapter, asset, location, context),
                r,
            ) ==> {
                let before = adapter.histories();
                let after = final(adapter).histories();
                let account = after.accounts.last().1;
                let currency = after.currencies.last().1;
                &&& after.accounts == before.accounts.push((*location, account))
                &&& after.currencies == (if account is Some {
                    before.currencies.push((*asset, currency))
                } else {
                    before.currencies
                })
                &&& after.amounts == (if account is Some && currency is Some {
                    before.amounts.push((*asset, after.amounts.last().1))
                } else {
                    before.amounts
                })
                &&& after.handler == before.handler
            },
{
    reveal_with_fuel(reached, 6);
    reveal_with_fuel(linked, 6);
}

/// Of a known asset exactly the amount that it stands for is taken, once, from the
/// account that was found, in the currency that was found. The ledgers' answer is
/// the outcome.
pub proof fn law_teleporting_known_assets_are_taken_in_full<
    MultiCurrencyT: MultiCurrency<AccountId, CurrencyId, Balance>,
    UnknownAssetT: UnknownAsset,
    Match: MatchesFungible<Balance>,
    AccountId,
    AccountIdConvert: ConvertLocation<AccountId>,
    CurrencyId: Copy,
    CurrencyIdConvert: Convert<Asset, Option<CurrencyId>>,
    DepositFailureHandler: OnDepositFail<CurrencyId, AccountId, Balance>,
    Balance: Copy,
>()
    ensures
        forall|
            adapter: &mut MultiTeleportCurrencyAdapter<
                MultiCurrencyT,
                UnknownAssetT,
                Match,
                AccountId,
                AccountIdConvert,
                CurrencyId,
                CurrencyIdConvert,
                DepositFailureHandler,
                Balance,
            >,
            asset: &Asset,
            location: &Location,
            context: Option<&XcmContext>,
            r: Result<EagerHolding, XcmError>,
        |
            #[trigger] call_ensures(
                MultiTeleportCurrencyAdapter::withdraw_asset,
                (adapter, asset, location, context),
                r,
            ) ==> {
                let before = adapter.histories();
                let after = final(adapter).histories();
                let account = after.accounts.last().1;
                let currency = after.currencies.last().1;
                let balance = after.amounts.last().1;
                let known = account is Some && currency is Some && balance is Some;
                known ==> {
                    &&& after.unknown_assets == before.unknown_assets
                    &&& after.ledgers.last() matches CurrencyCall::Withdraw {
                        currency_id,
                        who,
                        amount,
                        existence_requirement,
                        reply,
                    }
                    &&& after.ledgers == before.ledgers.push(after.ledgers.last())
                    &&& account == Some(who)
                    &&& currency == Some(currency_id)
                    &&& balance == Some(amount)
                    &&& existence_requirement is AllowDeath
                    &&& r is Ok <==> reply is Ok
                    &&& r matches Err(error) ==> {
                        &&& error matches XcmError::FailedToTransactAsset(text)
                        &&& text@ == dispatch_error_text(reply->Err_0)
                    }
                }
            },
{
    reveal_with_fuel(reached, 6);
    reveal_with_fuel(linked, 6);
}

/// An asset that is not known is taken, once, from the ledger of unknown assets: the
/// very asset, at the very location. If it is not there, the first thing that was
/// not known is the failure.
pub proof fn law_teleporting_unknown_assets_are_taken_as_they_are<
    MultiCurrencyT: MultiCurrency<AccountId, CurrencyId, Balance>,
    UnknownAssetT: UnknownAsset,
    Match: MatchesFungible<Balance>,
    AccountId,
    AccountIdConvert: ConvertLocation<AccountId>,
    CurrencyId: Copy,
    CurrencyIdConvert: Convert<Asset, Option<CurrencyId>>,
    DepositFailureHandler: OnDepositFail<CurrencyId, AccountId, Balance>,
    Balance: Copy,
>()
    ensures
        forall|
            adapter: &mut MultiTeleportCurrencyAdapter<
                MultiCurrencyT,
                UnknownAssetT,
                Match,
                AccountId,
                AccountIdConvert,
                CurrencyId,
                CurrencyIdConvert,
                DepositFailureHandler,
                Balance,
            >,
            asset: &Asset,
            location: &Location,
            context: Option<&XcmContext>,
            r: Result<EagerHolding, XcmError>,
        |
            #[trigger] call_ensures(
                MultiTeleportCurrencyAdapter::withdraw_asset,
                (adapter, asset, location, context),
                r,
            ) ==> {
                let before = adapter.histories();
                let after = final(adapter).histories();
                let account = after.accounts.last().1;
                let currency = after.currencies.last().1;
                let balance = after.amounts.last().1;
                let known = account is Some && currency is Some && balance is Some;
                !known ==> {
                    &&& after.ledgers == before.ledgers
                    &&& after.unknown_assets.last() matches UnknownAssetCall::Withdraw {
                        asset: taken,
                        location: place,
                        reply,
                    }
                    &&& after.unknown_assets == before.unknown_assets.push(
                        after.unknown_assets.last(),
                    )
                    &&& taken == *asset
                    &&& place == *location
                    &&& r is Ok <==> reply is Ok
                    &&& r matches Err(error) ==> {
                        &&& error matches XcmError::FailedToTransactAsset(text)
                        &&& account is None ==> text@ == "AccountIdConversionFailed"@
                        &&& account is Some && currency is None ==> text@
                            == "CurrencyIdConversionFailed"@
                        &&& account is Some && currency is Some ==> text@
                            == "FailedToMatchFungible"@
                    }
                }
            },
{
    reveal_with_fuel(reached, 6);
    reveal_with_fuel(linked, 6);
}

/// What a withdrawal hands out is for exactly the asset that was withdrawn.
pub proof fn law_teleporting_withdrawal_hands_out_the_asset<
    MultiCurrencyT: MultiCurrency<AccountId, CurrencyId, Balance>,
    UnknownAssetT: UnknownAsset,
    Match: MatchesFungible<Balance>,
    AccountId,
    AccountIdConvert: ConvertLocation<AccountId>,
    CurrencyId: Copy,
    CurrencyIdConvert: Convert<Asset, Option<CurrencyId>>,
    DepositFailureHandler: OnDepositFail<CurrencyId, AccountId, Balance>,
    Balance: Copy,
>()
    ensures
        forall|
            adapter: &mut MultiTeleportCurrencyAdapter<
                MultiCurrencyT,
                UnknownAssetT,
                Match,
                AccountId,
                AccountIdConvert,
                CurrencyId,
                CurrencyIdConvert,
                DepositFailureHandler,
                Balance,
            >,
            asset: &Asset,
            location: &Location,
            context: Option<&XcmContext>,
            r: Result<EagerHolding, XcmError>,
        |
            #[trigger] call_ensures(
                MultiTeleportCurrencyAdapter::withdraw_asset,
                (adapter, asset, location, context),
                r,
            ) ==> {
                &&& r matches Ok(EagerHolding::Fungible { id, credit }) ==> *asset == (Asset {
                    id,
                    fun: Fungibility::Fungible(credit.0),
                })
                &&& r matches Ok(EagerHolding::NonFungible(register)) ==> {
                    &&& asset.fun is NonFungible
                    &&& held(register) == seq![*asset]
                }
            },
{
    lemma_receipts();
}

/// A transfer asks for the accounts of the two given locations, and about nothing but
/// the given asset, each in its turn while everything before is known.
pub proof fn law_teleporting_transfer_asks_about_the_asset<
    MultiCurrencyT: MultiCurrency<AccountId, CurrencyId, Balance>,
    UnknownAssetT: UnknownAsset,
    Match: MatchesFungible<Balance>,
    AccountId,
    AccountIdConvert: ConvertLocation<AccountId>,
    CurrencyId: Copy,
    CurrencyIdConvert: Convert<Asset, Option<CurrencyId>>,
    DepositFailureHandler: OnDepositFail<CurrencyId, AccountId, Balance>,
    Balance: Copy,
>()
    ensures
        forall|
            adapter: &mut MultiTeleportCurrencyAdapter<
                MultiCurrencyT,
                UnknownAssetT,
                Match,
                AccountId,
                AccountIdConvert,
                CurrencyId,
                CurrencyIdConvert,
                DepositFailureHandler,
                Balance,
            >,
            asset: &Asset,
            from: &Location,
            to: &Location,
            context: &XcmContext,
            r: Result<Asset, XcmError>,
        |
            #[trigger] call_ensures(
                MultiTeleportCurrencyAdapter::internal_transfer_asset,
                (adapter, asset, from, to, context),
                r,
            ) ==> {
                let before = adapter.histories();
                let after = final(adapter).histories();
                let source = after.accounts[before.accounts.len() as int].1;
                let target = after.accounts.last().1;
                let currency = after.currencies.last().1;
                &&& after.accounts == (if source is Some {
                    before.accounts.push((*from, source)).push((*to, target))
                } else {
                    before.accounts.push((*from, source))
                })
                &&& after.currencies == (if source is Some && target is Some {
                    before.currencies.push((*asset, currency))
                } else {
                    before.currencies
                })
                &&& after.amounts == (if source is Some && target is Some && currency is Some {
                    before.amounts.push((*asset, after.amounts.last().1))
                } else {
                    before.amounts
                })
            },
{
    reveal_with_fuel(reached, 6);
    reveal_with_fuel(linked, 6);
}

/// A transfer that succeeds has moved exactly the amount that the asset it reports
/// stands for, once, from the account found for the one location to the account found
/// for the other. If anything is not known, nothing is moved.
pub proof fn law_teleporting_transfer_moves_what_it_reports<
    MultiCurrencyT: MultiCurrency<AccountId, CurrencyId, Balance>,
    UnknownAssetT: UnknownAsset,
    Match: MatchesFungible<Balance>,
    AccountId,
    AccountIdConvert: ConvertLocation<AccountId>,
    CurrencyId: Copy,
    CurrencyIdConvert: Convert<Asset, Option<CurrencyId>>,
    DepositFailureHandler: OnDepositFail<CurrencyId, AccountId, Balance>,
    Balance: Copy,
>()
    ensures
        forall|
            adapter: &mut MultiTeleportCurrencyAdapter<
                MultiCurrencyT,
                UnknownAssetT,
                Match,
                AccountId,
                AccountIdConvert,
                CurrencyId,
                CurrencyIdConvert,
                DepositFailureHandler,
                Balance,
            >,
            asset: &Asset,
            from: &Location,
            to: &Location,
            context: &XcmContext,
            r: Result<Asset, XcmError>,
        |
            #[trigger] call_ensures(
                MultiTeleportCurrencyAdapter::internal_transfer_asset,
                (adapter, asset, from, to, context),
                r,
            ) ==> {
                let before = adapter.histories();
                let after = final(adapter).histories();
                let source = after.accounts[before.accounts.len() as int].1;
                let target = after.accounts.last().1;
                let currency = after.currencies.last().1;
                let balance = after.amounts.last().1;
                let known = source is Some && target is Some && currency is Some && balance is Some;
                &&& after.unknown_assets == before.unknown_assets
                &&& after.handler == before.handler
                &&& r matches Ok(moved) ==> known && moved == *asset
                &&& !known ==> after.ledgers == before.ledgers
                &&& known ==> {
                    &&& after.ledgers.last() matches CurrencyCall::Transfer {
                        currency_id,
                        from: giver,
                        to: taker,
                        amount,
                        existence_requirement,
                        reply,
                    }
                    &&& after.ledgers == before.ledgers.push(after.ledgers.last())
                    &&& source == Some(giver)
                    &&& target == Some(taker)
                    &&& currency == Some(currency_id)
                    &&& balance == Some(amount)
                    &&& existence_requirement is AllowDeath
                    &&& r is Ok <==> reply is Ok
                }
            },
{
    reveal_with_fuel(reached, 6);
    reveal_with_fuel(linked, 6);
}

/// A transfer that fails reports the first thing that is not known, or else the
/// refusal of the ledgers.
pub proof fn law_teleporting_transfer_fails_with_its_cause<
    MultiCurrencyT: MultiCurrency<AccountId, CurrencyId, Balance>,
    UnknownAssetT: UnknownAsset,
    Match: MatchesFungible<Balance>,
    AccountId,
    AccountIdConvert: ConvertLocation<AccountId>,
    CurrencyId: Copy,
    CurrencyIdConvert: Convert<Asset, Option<CurrencyId>>,
    DepositFailureHandler: OnDepositFail<CurrencyId, AccountId, Balance>,
    Balance: Copy,
>()
    ensures
        forall|
            adapter: &mut MultiTeleportCurrencyAdapter<
                MultiCurrencyT,
                UnknownAssetT,
                Match,
                AccountId,
                AccountIdConvert,
                CurrencyId,
                CurrencyIdConvert,
                DepositFailureHandler,
                Balance,
            >,
            asset: &Asset,
            from: &Location,
            to: &Location,
            context: &XcmContext,
            r: Result<Asset, XcmError>,
        |
            #[trigger] call_ensures(
                MultiTeleportCurrencyAdapter::internal_transfer_asset,
                (adapter, asset, from, to, context),
                r,
            ) ==> {
                let before = adapter.histories();
                let after = final(adapter).histories();
                let source = after.accounts[before.accounts.len() as int].1;
                let target = after.accounts.last().1;
                let currency = after.currencies.last().1;
                let balance = after.amounts.last().1;
                let known = source is Some && target is Some && currency is Some && balance is Some;
                r matches Err(error) ==> {
                    &&& error matches XcmError::FailedToTransactAsset(text)
                    &&& source is None || target is None ==> text@ == "AccountIdConversionFailed"@
                    &&& source is Some && target is Some ==> {
                        &&& currency is None ==> text@ == "CurrencyIdConversionFailed"@
                        &&& currency is Some && balance is None ==> text@
                            == "FailedToMatchFungible"@
                        &&& known ==> {
                            &&& after.ledgers.last() matches CurrencyCall::Transfer { reply, .. }
                            &&& reply is Err
                            &&& text@ == dispatch_error_text(reply->Err_0)
                        }
                    }
                }
            },
{
    reveal_with_fuel(reached, 6);
    reveal_with_fuel(linked, 6);
}

} // verus!
