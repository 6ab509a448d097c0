//! What each operation of the adapter does, told by what its services were asked
//! and by what came out.
use crate::currency_adapter::{joined, register_deposit, MultiCurrencyAdapter};
use crate::deposit_fail::{DepositToAlternative, OnDepositFail};
use crate::eager_credit::EagerHolding;
use crate::error::dispatch_error_text;
use crate::history_laws::{
    all_redirected, currency_calls, handed_over, law_alternative_takes_every_refusal,
    law_ledgers_serve_what_is_recorded, law_register_is_handed_over, refusals, refused,
    second_deposits, unknown_asset_calls, unknown_refused,
};
use crate::holding::{entries, held};
use crate::laws::{
    answered, asks_handler, follows, law_each_call_has_its_consequence,
    law_handler_answers_each_refusal, settles,
};
use crate::services::{
    grew, linked, reached, Convert, ConvertLocation, CurrencyCall, Get, Histories,
    MatchesFungible, MultiCurrency, ServiceCall, Services, UnknownAsset, UnknownAssetCall,
};
use crate::types::{status, Asset, Fungibility, XcmError, XcmErrorView};
use staging_xcm::v5::{Location, XcmContext};
use staging_xcm_executor::AssetsInHolding;
use vstd::prelude::*;

verus! {

/// What a receipt that is for an asset is.
pub(crate) proof fn lemma_receipts()
    ensures
        forall|holding: EagerHolding, asset: Asset| #[trigger]
            holding.is_for(asset) ==> match holding {
                EagerHolding::Fungible { id, credit } => asset == (Asset {
                    id,
                    fun: Fungibility::Fungible(credit.0),
                }),
                EagerHolding::NonFungible(register) => asset.fun is NonFungible && held(register)
                    == seq![asset],
            },
{
    assert forall|holding: EagerHolding, asset: Asset| #[trigger]
        holding.is_for(asset) implies match holding {
        EagerHolding::Fungible { id, credit } => asset == (Asset {
            id,
            fun: Fungibility::Fungible(credit.0),
        }),
        EagerHolding::NonFungible(register) => asset.fun is NonFungible && held(register)
            == seq![asset],
    } by {
        assert(holding.assets()[0] == asset);
    }
}

/// What a register deposit hands over, whatever its runs are.
pub(crate) proof fn lemma_handed_over<
    AccountId,
    CurrencyId,
    Balance,
    Handler: OnDepositFail<CurrencyId, AccountId, Balance>,
>(
    what: AssetsInHolding,
    location: Location,
    before: Histories<AccountId, CurrencyId, Balance, Handler>,
    calls: Seq<ServiceCall<AccountId, CurrencyId, Balance, Handler>>,
    after: Histories<AccountId, CurrencyId, Balance, Handler>,
    r: Result<(), (AssetsInHolding, XcmError)>,
)
    requires
        grew(before, calls, after),
        exists|runs: Seq<Seq<ServiceCall<AccountId, CurrencyId, Balance, Handler>>>|
            calls == joined(runs) && #[trigger] register_deposit(what, location, runs, r),
    ensures
        ({
            let tried = after.accounts.len() - before.accounts.len();
            &&& 0 <= tried <= held(what).len()
            &&& handed_over(held(what).take(tried), location, before, after)
            &&& r is Ok ==> tried == held(what).len()
            &&& r matches Err((undeposited, _)) ==> {
                &&& tried >= 1
                &&& held(undeposited) == held(what).skip(tried - 1)
                &&& entries(undeposited) == entries(what).skip(tried - 1)
            }
        }),
{
    let runs = choose|runs: Seq<Seq<ServiceCall<AccountId, CurrencyId, Balance, Handler>>>|
        calls == joined(runs) && #[trigger] register_deposit(what, location, runs, r);
    law_register_is_handed_over(what, location, before, runs, after, r);
}

/// What the calls of a register deposit lead to, whatever its runs are.
pub(crate) proof fn lemma_consequences<
    AccountId,
    CurrencyId,
    Balance,
    Handler: OnDepositFail<CurrencyId, AccountId, Balance>,
>(
    what: AssetsInHolding,
    location: Location,
    before: Histories<AccountId, CurrencyId, Balance, Handler>,
    calls: Seq<ServiceCall<AccountId, CurrencyId, Balance, Handler>>,
    after: Histories<AccountId, CurrencyId, Balance, Handler>,
    r: Result<(), (AssetsInHolding, XcmError)>,
)
    requires
        grew(before, calls, after),
        exists|runs: Seq<Seq<ServiceCall<AccountId, CurrencyId, Balance, Handler>>>|
            calls == joined(runs) && #[trigger] register_deposit(what, location, runs, r),
    ensures
        ({
            &&& after.ledgers == before.ledgers + currency_calls(calls)
            &&& after.unknown_assets == before.unknown_assets + unknown_asset_calls(calls)
            &&& forall|i: int| 0 <= i < calls.len() ==> #[trigger] follows(calls, i)
            &&& forall|i: int| 0 <= i < calls.len() ==> answered(#[trigger] calls[i])
            &&& match r {
                Ok(()) => {
                    &&& settles(calls) == entries(what)
                    &&& calls.len() > 0 ==> calls.last() is Settle
                },
                Err((undeposited, error)) => {
                    &&& settles(calls) + entries(undeposited) == entries(what)
                    &&& calls.len() > 0
                    &&& match calls.last() {
                        ServiceCall::OnCurrencyFail { reply, .. } => status(reply) == Err::<
                            (),
                            XcmErrorView,
                        >(error@),
                        ServiceCall::OnUnknownAssetFail { reply, .. } => status(reply) == Err::<
                            (),
                            XcmErrorView,
                        >(error@),
                        _ => false,
                    }
                },
            }
        }),
{
    let runs = choose|runs: Seq<Seq<ServiceCall<AccountId, CurrencyId, Balance, Handler>>>|
        calls == joined(runs) && #[trigger] register_deposit(what, location, runs, r);
    law_each_call_has_its_consequence(what, location, runs, r);
    law_handler_answers_each_refusal(what, location, runs, r);
    law_ledgers_serve_what_is_recorded(before, calls, after);
}

/// How a register deposit ends if the handler is `()`, whatever its runs are.
pub(crate) proof fn lemma_passed_on<AccountId, CurrencyId, Balance>(
    what: AssetsInHolding,
    location: Location,
    before: Histories<AccountId, CurrencyId, Balance, ()>,
    calls: Seq<ServiceCall<AccountId, CurrencyId, Balance, ()>>,
    after: Histories<AccountId, CurrencyId, Balance, ()>,
    r: Result<(), (AssetsInHolding, XcmError)>,
)
    requires
        grew(before, calls, after),
        exists|runs: Seq<Seq<ServiceCall<AccountId, CurrencyId, Balance, ()>>>|
            calls == joined(runs) && #[trigger] register_deposit(what, location, runs, r),
    ensures
        ({
            &&& r is Ok ==> forall|i: int|
                0 <= i < calls.len() ==> !asks_handler(#[trigger] calls[i])
            &&& r matches Err((_, error)) ==> {
                &&& calls.len() >= 2
                &&& error matches XcmError::FailedToTransactAsset(text)
                &&& match calls[calls.len() - 2] {
                    ServiceCall::Currency(CurrencyCall::Deposit { reply, .. }) => {
                        &&& reply is Err
                        &&& text@ == dispatch_error_text(reply->Err_0)
                    },
                    ServiceCall::Unknown(UnknownAssetCall::Deposit { reply, .. }) => {
                        &&& reply is Err
                        &&& text@ == dispatch_error_text(reply->Err_0)
                    },
                    _ => false,
                }
            }
        }),
{
    let runs = choose|runs: Seq<Seq<ServiceCall<AccountId, CurrencyId, Balance, ()>>>|
        calls == joined(runs) && #[trigger] register_deposit(what, location, runs, r);
    law_each_call_has_its_consequence(what, location, runs, r);
    law_handler_answers_each_refusal(what, location, runs, r);
    assert forall|i: int| 0 <= i < calls.len() && asks_handler(#[trigger] calls[i]) implies i
        == calls.len() - 1 && r is Err by {
        assert(follows(calls, i));
        assert(answered(calls[i]));
    }
    if r is Err {
        assert(follows(calls, calls.len() - 1));
        assert(follows(calls, calls.len() - 2));
        assert(answered(calls[calls.len() - 1]));
    }
}

/// Where the refusals of a register deposit go, whatever its runs are.
pub(crate) proof fn lemma_redirects<
    AccountId,
    CurrencyId: Copy,
    Balance: Copy,
    Alternative: Get<AccountId>,
    LedgersT: MultiCurrency<AccountId, CurrencyId, Balance>,
>(
    what: AssetsInHolding,
    location: Location,
    before: Histories<
        AccountId,
        CurrencyId,
        Balance,
        DepositToAlternative<Alternative, LedgersT, CurrencyId, AccountId, Balance>,
    >,
    calls: Seq<
        ServiceCall<
            AccountId,
            CurrencyId,
            Balance,
            DepositToAlternative<Alternative, LedgersT, CurrencyId, AccountId, Balance>,
        >,
    >,
    after: Histories<
        AccountId,
        CurrencyId,
        Balance,
        DepositToAlternative<Alternative, LedgersT, CurrencyId, AccountId, Balance>,
    >,
    r: Result<(), (AssetsInHolding, XcmError)>,
)
    requires
        grew(before, calls, after),
        exists|runs: Seq<
            Seq<
                ServiceCall<
                    AccountId,
                    CurrencyId,
                    Balance,
                    DepositToAlternative<Alternative, LedgersT, CurrencyId, AccountId, Balance>,
                >,
            >,
        >|
            calls == joined(runs) && #[trigger] register_deposit(what, location, runs, r),
    ensures
        ({
            let second = second_deposits(before.handler, after.handler);
            &&& all_redirected(before.handler, refusals(calls), after.handler)
            &&& forall|i: int|
                0 <= i < second.len() && refused(#[trigger] second[i]) ==> i == second.len() - 1
                    && r is Err
            &&& r is Err <==> {
                ||| second.len() > 0 && refused(second.last())
                ||| calls.len() >= 2 && unknown_refused(calls[calls.len() - 2])
            }
        }),
{
    let runs = choose|runs: Seq<
        Seq<
            ServiceCall<
                AccountId,
                CurrencyId,
                Balance,
                DepositToAlternative<Alternative, LedgersT, CurrencyId, AccountId, Balance>,
            >,
        >,
    >|
        calls == joined(runs) && #[trigger] register_deposit(what, location, runs, r);
    law_alternative_takes_every_refusal(what, location, before, runs, after, r);
    law_each_call_has_its_consequence(what, location, runs, r);
    if runs.len() > 0 && unknown_refused(runs.last()[3]) && r is Err {
        let run = runs.last();
        assert(run.skip(3)[0] == run[3]);
        assert(calls[calls.len() - 2] == run[3]);
    }
    if calls.len() >= 2 && unknown_refused(calls[calls.len() - 2]) {
        assert(follows(calls, calls.len() - 2));
    }
}

/// What a register held is what the ledgers are handed, asset by asset and in the
/// register's order: each known asset by the amount that it stands for, to the account
/// and in the currency that were found, each other asset as it is. From the first that
/// fails on, the rest is handed back, each as the very imbalance that it was.
pub proof fn law_deposit_hands_over_what_the_register_held<
    MultiCurrencyT: MultiCurrency<AccountId, CurrencyId, Balance>,
    UnknownAssetT: UnknownAsset,
    Match: MatchesFungible<Balance>,
    AccountId,
    AccountIdConvert: ConvertLocation<AccountId>,
    CurrencyId: Copy,
    CurrencyIdConvert: Convert<Asset, Option<CurrencyId>>,
    DepositFailureHandler: OnDepositFail<CurrencyId, AccountId, Balance>,
    Balance: Copy,
>()
    ensures
        forall|
            adapter: &mut MultiCurrencyAdapter<
                MultiCurrencyT,
                UnknownAssetT,
                Match,
                AccountId,
                AccountIdConvert,
                CurrencyId,
                CurrencyIdConvert,
                DepositFailureHandler,
                Balance,
            >,
            what: AssetsInHolding,
            location: &Location,
            context: Option<&XcmContext>,
            r: Result<(), (AssetsInHolding, XcmError)>,
        |
            #[trigger] call_ensures(
                MultiCurrencyAdapter::deposit_asset,
                (adapter, what, location, context),
                r,
            ) ==> {
                let before = adapter.histories();
                let after = final(adapter).histories();
                let tried = after.accounts.len() - before.accounts.len();
                &&& 0 <= tried <= held(what).len()
                &&& handed_over(held(what).take(tried), *location, before, after)
                &&& r is Ok ==> tried == held(what).len()
                &&& r matches Err((undeposited, _)) ==> {
                    &&& tried >= 1
                    &&& held(undeposited) == held(what).skip(tried - 1)
                    &&& entries(undeposited) == entries(what).skip(tried - 1)
                }
            },
{
    assert forall|
        adapter: &mut MultiCurrencyAdapter<
            MultiCurrencyT,
            UnknownAssetT,
            Match,
            AccountId,
            AccountIdConvert,
            CurrencyId,
            CurrencyIdConvert,
            DepositFailureHandler,
            Balance,
        >,
        what: AssetsInHolding,
        location: &Location,
        context: Option<&XcmContext>,
        r: Result<(), (AssetsInHolding, XcmError)>,
    |
        #[trigger] call_ensures(
            MultiCurrencyAdapter::deposit_asset,
            (adapter, what, location, context),
            r,
        ) implies {
        let before = adapter.histories();
        let after = final(adapter).histories();
        let tried = after.accounts.len() - before.accounts.len();
        &&& 0 <= tried <= held(what).len()
        &&& handed_over(held(what).take(tried), *location, before, after)
        &&& r is Ok ==> tried == held(what).len()
        &&& r matches Err((undeposited, _)) ==> {
            &&& tried >= 1
            &&& held(undeposited) == held(what).skip(tried - 1)
            &&& entries(undeposited) == entries(what).skip(tried - 1)
        }
    } by {
        lemma_handed_over(
            what,
            *location,
            adapter.histories(),
            final(adapter)@.skip(adapter@.len() as int),
            final(adapter).histories(),
            r,
        );
    }
}

/// Every deposit is settled or put to the failure handler, whose own answer has the
/// entry settled or is the failure of the whole. The entries settled and those handed
/// back are the register's, in its order. The ledgers have served exactly the calls
/// that are recorded.
pub proof fn law_deposit_ends_as_its_calls_do<
    MultiCurrencyT: MultiCurrency<AccountId, CurrencyId, Balance>,
    UnknownAssetT: UnknownAsset,
    Match: MatchesFungible<Balance>,
    AccountId,
    AccountIdConvert: ConvertLocation<AccountId>,
    CurrencyId: Copy,
    CurrencyIdConvert: Convert<Asset, Option<CurrencyId>>,
    DepositFailureHandler: OnDepositFail<CurrencyId, AccountId, Balance>,
    Balance: Copy,
>()
    ensures
        forall|
            adapter: &mut MultiCurrencyAdapter<
                MultiCurrencyT,
                UnknownAssetT,
                Match,
                AccountId,
                AccountIdConvert,
                CurrencyId,
                CurrencyIdConvert,
                DepositFailureHandler,
                Balance,
            >,
            what: AssetsInHolding,
            location: &Location,
            context: Option<&XcmContext>,
            r: Result<(), (AssetsInHolding, XcmError)>,
        |
            #[trigger] call_ensures(
                MultiCurrencyAdapter::deposit_asset,
                (adapter, what, location, context),
                r,
            ) ==> {
                let before = adapter.histories();
                let after = final(adapter).histories();
                let calls = final(adapter)@.skip(adapter@.len() as int);
                &&& adapter@.is_prefix_of(final(adapter)@)
                &&& after.ledgers == before.ledgers + currency_calls(calls)
                &&& after.unknown_assets == before.unknown_assets + unknown_asset_calls(calls)
                &&& forall|i: int| 0 <= i < calls.len() ==> #[trigger] follows(calls, i)
                &&& forall|i: int| 0 <= i < calls.len() ==> answered(#[trigger] calls[i])
                &&& match r {
                    Ok(()) => {
                        &&& settles(calls) == entries(what)
                        &&& calls.len() > 0 ==> calls.last() is Settle
                    },
                    Err((undeposited, error)) => {
                        &&& settles(calls) + entries(undeposited) == entries(what)
                        &&& calls.len() > 0
                        &&& match calls.last() {
                            ServiceCall::OnCurrencyFail { reply, .. } => status(reply) == Err::<
                                (),
                                XcmErrorView,
                            >(error@),
                            ServiceCall::OnUnknownAssetFail { reply, .. } => status(reply) == Err::<
                                (),
                                XcmErrorView,
                            >(error@),
                            _ => false,
                        }
                    },
                }
            },
{
    assert forall|
        adapter: &mut MultiCurrencyAdapter<
            MultiCurrencyT,
            UnknownAssetT,
            Match,
            AccountId,
            AccountIdConvert,
            CurrencyId,
            CurrencyIdConvert,
            DepositFailureHandler,
            Balance,
        >,
        what: AssetsInHolding,
        location: &Location,
        context: Option<&XcmContext>,
        r: Result<(), (AssetsInHolding, XcmError)>,
    |
        #[trigger] call_ensures(
            MultiCurrencyAdapter::deposit_asset,
            (adapter, what, location, context),
            r,
        ) implies {
        let before = adapter.histories();
        let after = final(adapter).histories();
        let calls = final(adapter)@.skip(adapter@.len() as int);
        &&& adapter@.is_prefix_of(final(adapter)@)
        &&& after.ledgers == before.ledgers + currency_calls(calls)
        &&& after.unknown_assets == before.unknown_assets + unknown_asset_calls(calls)
        &&& forall|i: int| 0 <= i < calls.len() ==> #[trigger] follows(calls, i)
        &&& forall|i: int| 0 <= i < calls.len() ==> answered(#[trigger] calls[i])
        &&& match r {
            Ok(()) => {
                &&& settles(calls) == entries(what)
                &&& calls.len() > 0 ==> calls.last() is Settle
            },
            Err((undeposited, error)) => {
                &&& settles(calls) + entries(undeposited) == entries(what)
                &&& calls.len() > 0
                &&& match calls.last() {
                    ServiceCall::OnCurrencyFail { reply, .. } => status(reply) == Err::<
                        (),
                        XcmErrorView,
                    >(error@),
                    ServiceCall::OnUnknownAssetFail { reply, .. } => status(reply) == Err::<
                        (),
                        XcmErrorView,
                    >(error@),
                    _ => false,
                }
            },
        }
    } by {
        lemma_consequences(
            what,
            *location,
            adapter.histories(),
            final(adapter)@.skip(adapter@.len() as int),
            final(adapter).histories(),
            r,
        );
    }
}

/// If the failure handler is `()`, a register is deposited exactly if nothing was
/// refused, and else the one refusal, in the ledger's own words, is the failure.
pub proof fn law_deposit_fails_at_the_first_refusal<
    MultiCurrencyT: MultiCurrency<AccountId, CurrencyId, Balance>,
    UnknownAssetT: UnknownAsset,
    Match: MatchesFungible<Balance>,
    AccountId,
    AccountIdConvert: ConvertLocation<AccountId>,
    CurrencyId: Copy,
    CurrencyIdConvert: Convert<Asset, Option<CurrencyId>>,
    Balance: Copy,
>()
    ensures
        forall|
            adapter: &mut MultiCurrencyAdapter<
                MultiCurrencyT,
                UnknownAssetT,
                Match,
                AccountId,
                AccountIdConvert,
                CurrencyId,
                CurrencyIdConvert,
                (),
                Balance,
            >,
            what: AssetsInHolding,
            location: &Location,
            context: Option<&XcmContext>,
            r: Result<(), (AssetsInHolding, XcmError)>,
        |
            #[trigger] call_ensures(
                MultiCurrencyAdapter::deposit_asset,
                (adapter, what, location, context),
                r,
            ) ==> {
                let calls = final(adapter)@.skip(adapter@.len() as int);
                &&& r is Ok ==> forall|i: int|
                    0 <= i < calls.len() ==> !asks_handler(#[trigger] calls[i])
                &&& r matches Err((_, error)) ==> {
                    &&& calls.len() >= 2
                    &&& error matches XcmError::FailedToTransactAsset(text)
                    &&& match calls[calls.len() - 2] {
                        ServiceCall::Currency(CurrencyCall::Deposit { reply, .. }) => {
                            &&& reply is Err
                            &&& text@ == dispatch_error_text(reply->Err_0)
                        },
                        ServiceCall::Unknown(UnknownAssetCall::Deposit { reply, .. }) => {
                            &&& reply is Err
                            &&& text@ == dispatch_error_text(reply->Err_0)
                        },
                        _ => false,
                    }
                }
            },
{
    assert forall|
        adapter: &mut MultiCurrencyAdapter<
            MultiCurrencyT,
            UnknownAssetT,
            Match,
            AccountId,
            AccountIdConvert,
            CurrencyId,
            CurrencyIdConvert,
            (),
            Balance,
        >,
        what: AssetsInHolding,
        location: &Location,
        context: Option<&XcmContext>,
        r: Result<(), (AssetsInHolding, XcmError)>,
    |
        #[trigger] call_ensures(
            MultiCurrencyAdapter::deposit_asset,
            (adapter, what, location, context),
            r,
        ) implies {
        let calls = final(adapter)@.skip(adapter@.len() as int);
        &&& r is Ok ==> forall|i: int|
            0 <= i < calls.len() ==> !asks_handler(#[trigger] calls[i])
        &&& r matches Err((_, error)) ==> {
            &&& calls.len() >= 2
            &&& error matches XcmError::FailedToTransactAsset(text)
            &&& match calls[calls.len() - 2] {
                ServiceCall::Currency(CurrencyCall::Deposit { reply, .. }) => {
                    &&& reply is Err
                    &&& text@ == dispatch_error_text(reply->Err_0)
                },
                ServiceCall::Unknown(UnknownAssetCall::Deposit { reply, .. }) => {
                    &&& reply is Err
                    &&& text@ == dispatch_error_text(reply->Err_0)
                },
                _ => false,
            }
        }
    } by {
        lemma_passed_on(
            what,
            *location,
            adapter.histories(),
            final(adapter)@.skip(adapter@.len() as int),
            final(adapter).histories(),
            r,
        );
    }
}

/// If refused deposits go to an alternative account, every currency that is refused is
/// deposited there in full, once and in order, and nothing else is. The whole fails
/// exactly if the last of these is refused as well, or an unknown asset is.
pub proof fn law_refused_currencies_go_to_the_alternative<
    MultiCurrencyT: MultiCurrency<AccountId, CurrencyId, Balance>,
    UnknownAssetT: UnknownAsset,
    Match: MatchesFungible<Balance>,
    AccountId,
    AccountIdConvert: ConvertLocation<AccountId>,
    CurrencyId: Copy,
    CurrencyIdConvert: Convert<Asset, Option<CurrencyId>>,
    Alternative: Get<AccountId>,
    LedgersT: MultiCurrency<AccountId, CurrencyId, Balance>,
    Balance: Copy,
>()
    ensures
        forall|
            adapter: &mut MultiCurrencyAdapter<
                MultiCurrencyT,
                UnknownAssetT,
                Match,
                AccountId,
                AccountIdConvert,
                CurrencyId,
                CurrencyIdConvert,
                DepositToAlternative<Alternative, LedgersT, CurrencyId, AccountId, Balance>,
                Balance,
            >,
            what: AssetsInHolding,
            location: &Location,
            context: Option<&XcmContext>,
            r: Result<(), (AssetsInHolding, XcmError)>,
        |
            #[trigger] call_ensures(
                MultiCurrencyAdapter::deposit_asset,
                (adapter, what, location, context),
                r,
            ) ==> {
                let before = adapter.histories();
                let after = final(adapter).histories();
                let calls = final(adapter)@.skip(adapter@.len() as int);
                let second = second_deposits(before.handler, after.handler);
                &&& all_redirected(before.handler, refusals(calls), after.handler)
                &&& forall|i: int|
                    0 <= i < second.len() && refused(#[trigger] second[i]) ==> i == second.len() - 1
                        && r is Err
                &&& r is Err <==> {
                    ||| second.len() > 0 && refused(second.last())
                    ||| calls.len() >= 2 && unknown_refused(calls[calls.len() - 2])
                }
            },
{
    assert forall|
        adapter: &mut MultiCurrencyAdapter<
            MultiCurrencyT,
            UnknownAssetT,
            Match,
            AccountId,
            AccountIdConvert,
            CurrencyId,
            CurrencyIdConvert,
            DepositToAlternative<Alternative, LedgersT, CurrencyId, AccountId, Balance>,
            Balance,
        >,
        what: AssetsInHolding,
        location: &Location,
        context: Option<&XcmContext>,
        r: Result<(), (AssetsInHolding, XcmError)>,
    |
        #[trigger] call_ensures(
            MultiCurrencyAdapter::deposit_asset,
            (adapter, what, location, context),
            r,
        ) implies {
        let before = adapter.histories();
        let after = final(adapter).histories();
        let calls = final(adapter)@.skip(adapter@.len() as int);
        let second = second_deposits(before.handler, after.handler);
        &&& all_redirected(before.handler, refusals(calls), after.handler)
        &&& forall|i: int|
            0 <= i < second.len() && refused(#[trigger] second[i]) ==> i == second.len() - 1
                && r is Err
        &&& r is Err <==> {
            ||| second.len() > 0 && refused(second.last())
            ||| calls.len() >= 2 && unknown_refused(calls[calls.len() - 2])
        }
    } by {
        lemma_redirects(
            what,
            *location,
            adapter.histories(),
            final(adapter)@.skip(adapter@.len() as int),
            final(adapter).histories(),
            r,
        );
    }
}

/// Minting asks for the currency of the very asset and, if it is known, for its
/// amount, and succeeds exactly if both are known. What is not known is not found
/// here, whatever kind of asset it is.
pub proof fn law_minting_needs_currency_and_amount<
    MultiCurrencyT: MultiCurrency<AccountId, CurrencyId, Balance>,
    UnknownAssetT: UnknownAsset,
    Match: MatchesFungible<Balance>,
    AccountId,
    AccountIdConvert: ConvertLocation<AccountId>,
    CurrencyId: Copy,
    CurrencyIdConvert: Convert<Asset, Option<CurrencyId>>,
    DepositFailureHandler: OnDepositFail<CurrencyId, AccountId, Balance>,
    Balance: Copy,
>()
    ensures
        forall|
            adapter: &mut MultiCurrencyAdapter<
                MultiCurrencyT,
                UnknownAssetT,
                Match,
                AccountId,
                AccountIdConvert,
                CurrencyId,
                CurrencyIdConvert,
                DepositFailureHandler,
                Balance,
            >,
            asset: &Asset,
            context: &XcmContext,
            r: Result<EagerHolding, XcmError>,
        |
            #[trigger] call_ensures(
                MultiCurrencyAdapter::mint_asset,
                (adapter, asset, context),
                r,
            ) ==> {
                let before = adapter.histories();
                let after = final(adapter).histories();
                let currency = after.currencies.last().1;
                let amount = after.amounts.last().1;
                &&& after.currencies == before.currencies.push((*asset, currency))
                &&& after.amounts == (if currency is Some {
                    before.amounts.push((*asset, amount))
                } else {
                    before.amounts
                })
                &&& r is Ok <==> currency is Some && amount is Some
                &&& r matches Err(error) ==> error is AssetNotFound
            },
{
    reveal_with_fuel(reached, 3);
}

/// What is minted is a receipt for exactly the asset, and no ledger, no account and
/// no handler is asked for anything.
pub proof fn law_minting_hands_out_the_asset_and_moves_nothing<
    MultiCurrencyT: MultiCurrency<AccountId, CurrencyId, Balance>,
    UnknownAssetT: UnknownAsset,
    Match: MatchesFungible<Balance>,
    AccountId,
    AccountIdConvert: ConvertLocation<AccountId>,
    CurrencyId: Copy,
    CurrencyIdConvert: Convert<Asset, Option<CurrencyId>>,
    DepositFailureHandler: OnDepositFail<CurrencyId, AccountId, Balance>,
    Balance: Copy,
>()
    ensures
        forall|
            adapter: &mut MultiCurrencyAdapter<
                MultiCurrencyT,
                UnknownAssetT,
                Match,
                AccountId,
                AccountIdConvert,
                CurrencyId,
                CurrencyIdConvert,
                DepositFailureHandler,
                Balance,
            >,
            asset: &Asset,
            context: &XcmContext,
            r: Result<EagerHolding, XcmError>,
        |
            #[trigger] call_ensures(
                MultiCurrencyAdapter::mint_asset,
                (adapter, asset, context),
                r,
            ) ==> {
                let before = adapter.histories();
                let after = final(adapter).histories();
                &&& after.accounts == before.accounts
                &&& after.ledgers == before.ledgers
                &&& after.unknown_assets == before.unknown_assets
                &&& after.handler == before.handler
                &&& r matches Ok(EagerHolding::Fungible { id, credit }) ==> *asset == (Asset {
                    id,
                    fun: Fungibility::Fungible(credit.0),
                })
                &&& r matches Ok(EagerHolding::NonFungible(register)) ==> {
                    &&& asset.fun is NonFungible
                    &&& held(register) == seq![*asset]
                }
            },
{
    reveal_with_fuel(reached, 3);
    lemma_receipts();
}

/// A withdrawal asks for the account of the given location, and about nothing but the
/// given asset: its currency if the account is known, and then its amount if the
/// currency is. The failure handler is left alone.
pub proof fn law_withdrawal_asks_about_the_asset<
    MultiCurrencyT: MultiCurrency<AccountId, CurrencyId, Balance>,
    UnknownAssetT: UnknownAsset,
    Match: MatchesFungible<Balance>,
    AccountId,
    AccountIdConvert: ConvertLocation<AccountId>,
    CurrencyId: Copy,
    CurrencyIdConvert: Convert<Asset, Option<CurrencyId>>,
    DepositFailureHandler: OnDepositFail<CurrencyId, AccountId, Balance>,
    Balance: Copy,
>()
    ensures
        forall|
            adapter: &mut MultiCurrencyAdapter<
                MultiCurrencyT,
                UnknownAssetT,
                Match,
                AccountId,
                AccountIdConvert,
                CurrencyId,
                CurrencyIdConvert,
                DepositFailureHandler,
                Balance,
            >,
            asset: &Asset,
            location: &Location,
            context: Option<&XcmContext>,
            r: Result<EagerHolding, XcmError>,
        |
            #[trigger] call_ensures(
                MultiCurrencyAdapter::withdraw_asset,
                (adapter, asset, location, context),
                r,
            ) ==> {
                let before = adapter.histories();
                let after = final(adapter).histories();
                let account = after.accounts.last().1;
                let currency = after.currencies.last().1;
                &&& after.accounts == before.accounts.push((*location, account))
                &&& after.currencies == (if account is Some {
                    before.currencies.push((*asset, currency))
                } else {
                    before.currencies
                })
                &&& after.amounts == (if account is Some && currency is Some {
                    before.amounts.push((*asset, after.amounts.last().1))
                } else {
                    before.amounts
                })
                &&& after.handler == before.handler
            },
{
    reveal_with_fuel(reached, 6);
    reveal_with_fuel(linked, 6);
}

/// Of a known asset exactly the amount that it stands for is taken, once, from the
/// account that was found, in the currency that was found. The ledgers' answer is
/// the outcome.
pub proof fn law_known_assets_are_taken_in_full<
    MultiCurrencyT: MultiCurrency<AccountId, CurrencyId, Balance>,
    UnknownAssetT: UnknownAsset,
    Match: MatchesFungible<Balance>,
    AccountId,
    AccountIdConvert: ConvertLocation<AccountId>,
    CurrencyId: Copy,
    CurrencyIdConvert: Convert<Asset, Option<CurrencyId>>,
    DepositFailureHandler: OnDepositFail<CurrencyId, AccountId, Balance>,
    Balance: Copy,
>()
    ensures
        forall|
            adapter: &mut MultiCurrencyAdapter<
                MultiCurrencyT,
                UnknownAssetT,
                Match,
                AccountId,
                AccountIdConvert,
                CurrencyId,
                CurrencyIdConvert,
                DepositFailureHandler,
                Balance,
            >,
            asset: &Asset,
            location: &Location,
            context: Option<&XcmContext>,
            r: Result<EagerHolding, XcmError>,
        |
            #[trigger] call_ensures(
                MultiCurrencyAdapter::withdraw_asset,
                (adapter, asset, location, context),
                r,
            ) ==> {
                let before = adapter.histories();
                let after = final(adapter).histories();
                let account = after.accounts.last().1;
                let currency = after.currencies.last().1;
                let balance = after.amounts.last().1;
                let known = account is Some && currency is Some && balance is Some;
                known ==> {
                    &&& after.unknown_assets == before.unknown_assets
                    &&& after.ledgers.last() matches CurrencyCall::Withdraw {
                        currency_id,
                        who,
                        amount,
                        existence_requirement,
                        reply,
                    }
                    &&& after.ledgers == before.ledgers.push(after.ledgers.last())
                    &&& account == Some(who)
                    &&& currency == Some(currency_id)
                    &&& balance == Some(amount)
                    &&& existence_requirement is AllowDeath
                    &&& r is Ok <==> reply is Ok
                    &&& r matches Err(error) ==> {
                        &&& error matches XcmError::FailedToTransactAsset(text)
                        &&& text@ == dispatch_error_text(reply->Err_0)
                    }
                }
            },
{
    reveal_with_fuel(reached, 6);
    reveal_with_fuel(linked, 6);
}

/// An asset that is not known is taken, once, from the ledger of unknown assets: the
/// very asset, at the very location. If it is not there, the first thing that was
/// not known is the failure.
pub proof fn law_unknown_assets_are_taken_as_they_are<
    MultiCurrencyT: MultiCurrency<AccountId, CurrencyId, Balance>,
    UnknownAssetT: UnknownAsset,
    Match: MatchesFungible<Balance>,
    AccountId,
    AccountIdConvert: ConvertLocation<AccountId>,
    CurrencyId: Copy,
    CurrencyIdConvert: Convert<Asset, Option<CurrencyId>>,
    DepositFailureHandler: OnDepositFail<CurrencyId, AccountId, Balance>,
    Balance: Copy,
>()
    ensures
        forall|
            adapter: &mut MultiCurrencyAdapter<
                MultiCurrencyT,
                UnknownAssetT,
                Match,
                AccountId,
                AccountIdConvert,
                CurrencyId,
                CurrencyIdConvert,
                DepositFailureHandler,
                Balance,
            >,
            asset: &Asset,
            location: &Location,
            context: Option<&XcmContext>,
            r: Result<EagerHolding, XcmError>,
        |
            #[trigger] call_ensures(
                MultiCurrencyAdapter::withdraw_asset,
                (adapter, asset, location, context),
                r,
            ) ==> {
                let before = adapter.histories();
                let after = final(adapter).histories();
                let account = after.accounts.last().1;
                let currency = after.currencies.last().1;
                let balance = after.amounts.last().1;
                let known = account is Some && currency is Some && balance is Some;
                !known ==> {
                    &&& after.ledgers == before.ledgers
                    &&& after.unknown_assets.last() matches UnknownAssetCall::Withdraw {
                        asset: taken,
                        location: place,
                        reply,
                    }
                    &&& after.unknown_assets == before.unknown_assets.push(
                        after.unknown_assets.last(),
                    )
                    &&& taken == *asset
                    &&& place == *location
                    &&& r is Ok <==> reply is Ok
                    &&& r matches Err(error) ==> {
                        &&& error matches XcmError::FailedToTransactAsset(text)
                        &&& account is None ==> text@ == "AccountIdConversionFailed"@
                        &&& account is Some && currency is None ==> text@
                            == "CurrencyIdConversionFailed"@
                        &&& account is Some && currency is Some ==> text@
                            == "FailedToMatchFungible"@
                    }
                }
            },
{
    reveal_with_fuel(reached, 6);
    reveal_with_fuel(linked, 6);
}

/// What a withdrawal hands out is for exactly the asset that was withdrawn.
pub proof fn law_withdrawal_hands_out_the_asset<
    MultiCurrencyT: MultiCurrency<AccountId, CurrencyId, Balance>,
    UnknownAssetT: UnknownAsset,
    Match: MatchesFungible<Balance>,
    AccountId,
    AccountIdConvert: ConvertLocation<AccountId>,
    CurrencyId: Copy,
    CurrencyIdConvert: Convert<Asset, Option<CurrencyId>>,
    DepositFailureHandler: OnDepositFail<CurrencyId, AccountId, Balance>,
    Balance: Copy,
>()
    ensures
        forall|
            adapter: &mut MultiCurrencyAdapter<
                MultiCurrencyT,
                UnknownAssetT,
                Match,
                AccountId,
                AccountIdConvert,
                CurrencyId,
                CurrencyIdConvert,
                DepositFailureHandler,
                Balance,
            >,
            asset: &Asset,
            location: &Location,
            context: Option<&XcmContext>,
            r: Result<EagerHolding, XcmError>,
        |
            #[trigger] call_ensures(
                MultiCurrencyAdapter::withdraw_asset,
                (adapter, asset, location, context),
                r,
            ) ==> {
                &&& r matches Ok(EagerHolding::Fungible { id, credit }) ==> *asset == (Asset {
                    id,
                    fun: Fungibility::Fungible(credit.0),
                })
                &&& r matches Ok(EagerHolding::NonFungible(register)) ==> {
                    &&& asset.fun is NonFungible
                    &&& held(register) == seq![*asset]
                }
            },
{
    lemma_receipts();
}

/// A transfer asks for the accounts of the two given locations, and about nothing but
/// the given asset, each in its turn while everything before is known.
pub proof fn law_transfer_asks_about_the_asset<
    MultiCurrencyT: MultiCurrency<AccountId, CurrencyId, Balance>,
    UnknownAssetT: UnknownAsset,
    Match: MatchesFungible<Balance>,
    AccountId,
    AccountIdConvert: ConvertLocation<AccountId>,
    CurrencyId: Copy,
    CurrencyIdConvert: Convert<Asset, Option<CurrencyId>>,
    DepositFailureHandler: OnDepositFail<CurrencyId, AccountId, Balance>,
    Balance: Copy,
>()
    ensures
        forall|
            adapter: &mut MultiCurrencyAdapter<
                MultiCurrencyT,
                UnknownAssetT,
                Match,
                AccountId,
                AccountIdConvert,
                CurrencyId,
                CurrencyIdConvert,
                DepositFailureHandler,
                Balance,
            >,
            asset: &Asset,
            from: &Location,
            to: &Location,
            context: &XcmContext,
            r: Result<Asset, XcmError>,
        |
            #[trigger] call_ensures(
                MultiCurrencyAdapter::internal_transfer_asset,
                (adapter, asset, from, to, context),
                r,
            ) ==> {
                let before = adapter.histories();
                let after = final(adapter).histories();
                let source = after.accounts[before.accounts.len() as int].1;
                let target = after.accounts.last().1;
                let currency = after.currencies.last().1;
                &&& after.accounts == (if source is Some {
                    before.accounts.push((*from, source)).push((*to, target))
                } else {
                    before.accounts.push((*from, source))
                })
                &&& after.currencies == (if source is Some && target is Some {
                    before.currencies.push((*asset, currency))
                } else {
                    before.currencies
                })
                &&& after.amounts == (if source is Some && target is Some && currency is Some {
                    before.amounts.push((*asset, after.amounts.last().1))
                } else {
                    before.amounts
                })
            },
{
    reveal_with_fuel(reached, 6);
    reveal_with_fuel(linked, 6);
}

/// A transfer that succeeds has moved exactly the amount that the asset it reports
/// stands for, once, from the account found for the one location to the account found
/// for the other. If anything is not known, nothing is moved.
pub proof fn law_transfer_moves_what_it_reports<
    MultiCurrencyT: MultiCurrency<AccountId, CurrencyId, Balance>,
    UnknownAssetT: UnknownAsset,
    Match: MatchesFungible<Balance>,
    AccountId,
    AccountIdConvert: ConvertLocation<AccountId>,
    CurrencyId: Copy,
    CurrencyIdConvert: Convert<Asset, Option<CurrencyId>>,
    DepositFailureHandler: OnDepositFail<CurrencyId, AccountId, Balance>,
    Balance: Copy,
>()
    ensures
        forall|
            adapter: &mut MultiCurrencyAdapter<
                MultiCurrencyT,
                UnknownAssetT,
                Match,
                AccountId,
                AccountIdConvert,
                CurrencyId,
                CurrencyIdConvert,
                DepositFailureHandler,
                Balance,
            >,
            asset: &Asset,
            from: &Location,
            to: &Location,
            context: &XcmContext,
            r: Result<Asset, XcmError>,
        |
            #[trigger] call_ensures(
                MultiCurrencyAdapter::internal_transfer_asset,
                (adapter, asset, from, to, context),
                r,
            ) ==> {
                let before = adapter.histories();
                let after = final(adapter).histories();
                let source = after.accounts[before.accounts.len() as int].1;
                let target = after.accounts.last().1;
                let currency = after.currencies.last().1;
                let balance = after.amounts.last().1;
                let known = source is Some && target is Some && currency is Some && balance is Some;
                &&& after.unknown_assets == before.unknown_assets
                &&& after.handler == before.handler
                &&& r matches Ok(moved) ==> known && moved == *asset
                &&& !known ==> after.ledgers == before.ledgers
                &&& known ==> {
                    &&& after.ledgers.last() matches CurrencyCall::Transfer {
                        currency_id,
                        from: giver,
                        to: taker,
                        amount,
                        existence_requirement,
                        reply,
                    }
                    &&& after.ledgers == before.ledgers.push(after.ledgers.last())
                    &&& source == Some(giver)
                    &&& target == Some(taker)
                    &&& currency == Some(currency_id)
                    &&& balance == Some(amount)
                    &&& existence_requirement is AllowDeath
                    &&& r is Ok <==> reply is Ok
                }
            },
{
    reveal_with_fuel(reached, 6);
    reveal_with_fuel(linked, 6);
}

/// A transfer that fails reports the first thing that is not known, or else the
/// refusal of the ledgers.
pub proof fn law_transfer_fails_with_its_cause<
    MultiCurrencyT: MultiCurrency<AccountId, CurrencyId, Balance>,
    UnknownAssetT: UnknownAsset,
    Match: MatchesFungible<Balance>,
    AccountId,
    AccountIdConvert: ConvertLocation<AccountId>,
    CurrencyId: Copy,
    CurrencyIdConvert: Convert<Asset, Option<CurrencyId>>,
    DepositFailureHandler: OnDepositFail<CurrencyId, AccountId, Balance>,
    Balance: Copy,
>()
    ensures
        forall|
            adapter: &mut MultiCurrencyAdapter<
                MultiCurrencyT,
                UnknownAssetT,
                Match,
                AccountId,
                AccountIdConvert,
                CurrencyId,
                CurrencyIdConvert,
                DepositFailureHandler,
                Balance,
            >,
            asset: &Asset,
            from: &Location,
            to: &Location,
            context: &XcmContext,
            r: Result<Asset, XcmError>,
        |
            #[trigger] call_ensures(
                MultiCurrencyAdapter::internal_transfer_asset,
                (adapter, asset, from, to, context),
                r,
            ) ==> {
                let before = adapter.histories();
                let after = final(adapter).histories();
                let source = after.accounts[before.accounts.len() as int].1;
                let target = after.accounts.last().1;
                let currency = after.currencies.last().1;
                let balance = after.amounts.last().1;
                let known = source is Some && target is Some && currency is Some && balance is Some;
                r matches Err(error) ==> {
                    &&& error matches XcmError::FailedToTransactAsset(text)
                    &&& source is None || target is None ==> text@ == "AccountIdConversionFailed"@
                    &&& source is Some && target is Some ==> {
                        &&& currency is None ==> text@ == "CurrencyIdConversionFailed"@
                        &&& currency is Some && balance is None ==> text@
                            == "FailedToMatchFungible"@
                        &&& known ==> {
                            &&& after.ledgers.last() matches CurrencyCall::Transfer { reply, .. }
                            &&& reply is Err
                            &&& text@ == dispatch_error_text(reply->Err_0)
                        }
                    }
                }
            },
{
    reveal_with_fuel(reached, 6);
    reveal_with_fuel(linked, 6);
}

/// No asset may be teleported in: whatever is asked, the answer is that this is not
/// offered, and nothing is done for it.
pub proof fn law_teleports_are_refused<
    MultiCurrencyT: MultiCurrency<AccountId, CurrencyId, Balance>,
    UnknownAssetT: UnknownAsset,
    Match: MatchesFungible<Balance>,
    AccountId,
    AccountIdConvert: ConvertLocation<AccountId>,
    CurrencyId: Copy,
    CurrencyIdConvert: Convert<Asset, Option<CurrencyId>>,
    DepositFailureHandler: OnDepositFail<CurrencyId, AccountId, Balance>,
    Balance: Copy,
>()
    ensures
        forall|
            adapter: &mut MultiCurrencyAdapter<
                MultiCurrencyT,
                UnknownAssetT,
                Match,
                AccountId,
                AccountIdConvert,
                CurrencyId,
                CurrencyIdConvert,
                DepositFailureHandler,
                Balance,
            >,
            origin: &Location,
            what: &Asset,
            context: &XcmContext,
            r: Result<(), XcmError>,
        |
            #[trigger] call_ensures(
                MultiCurrencyAdapter::can_check_in,
                (adapter, origin, what, context),
                r,
            ) ==> {
                &&& r matches Err(XcmError::Unimplemented)
                &&& *final(adapter) == *adapter
            },
{
}

/// The record begins empty, and what the services have kept is what each of them has
/// kept itself.
pub proof fn law_services_begin_with_their_own_histories<
    MultiCurrencyT: MultiCurrency<AccountId, CurrencyId, Balance>,
    UnknownAssetT: UnknownAsset,
    Match: MatchesFungible<Balance>,
    AccountId,
    AccountIdConvert: ConvertLocation<AccountId>,
    CurrencyId: Copy,
    CurrencyIdConvert: Convert<Asset, Option<CurrencyId>>,
    DepositFailureHandler: OnDepositFail<CurrencyId, AccountId, Balance>,
    Balance: Copy,
>()
    ensures
        forall|
            multi_currency: MultiCurrencyT,
            unknown_asset: UnknownAssetT,
            matcher: Match,
            account_id_convert: AccountIdConvert,
            currency_id_convert: CurrencyIdConvert,
            handler: DepositFailureHandler,
            services: Services<
                MultiCurrencyT,
                UnknownAssetT,
                Match,
                AccountId,
                AccountIdConvert,
                CurrencyId,
                CurrencyIdConvert,
                DepositFailureHandler,
                Balance,
            >,
        |
            #[trigger] call_ensures(
                Services::new,
                (
                    multi_currency,
                    unknown_asset,
                    matcher,
                    account_id_convert,
                    currency_id_convert,
                    handler,
                ),
                services,
            ) ==> {
                &&& services@.len() == 0
                &&& services.histories().ledgers == multi_currency.made()
                &&& services.histories().unknown_assets == unknown_asset.made()
                &&& services.histories().amounts == matcher.made()
                &&& services.histories().accounts == account_id_convert.made()
                &&& services.histories().currencies == currency_id_convert.made()
                &&& services.histories().handler == handler
            },
{
}

/// An adapter takes the services over as they are.
pub proof fn law_adapter_takes_the_services_over<
    MultiCurrencyT: MultiCurrency<AccountId, CurrencyId, Balance>,
    UnknownAssetT: UnknownAsset,
    Match: MatchesFungible<Balance>,
    AccountId,
    AccountIdConvert: ConvertLocation<AccountId>,
    CurrencyId: Copy,
    CurrencyIdConvert: Convert<Asset, Option<CurrencyId>>,
    DepositFailureHandler: OnDepositFail<CurrencyId, AccountId, Balance>,
    Balance: Copy,
>()
    ensures
        forall|
            services: Services<
                MultiCurrencyT,
                UnknownAssetT,
                Match,
                AccountId,
                AccountIdConvert,
                CurrencyId,
                CurrencyIdConvert,
                DepositFailureHandler,
                Balance,
            >,
            adapter: MultiCurrencyAdapter<
                MultiCurrencyT,
                UnknownAssetT,
                Match,
                AccountId,
                AccountIdConvert,
                CurrencyId,
                CurrencyIdConvert,
                DepositFailureHandler,
                Balance,
            >,
        |
            #[trigger] call_ensures(MultiCurrencyAdapter::new, (services,), adapter) ==> {
                &&& adapter@ == services@
                &&& adapter.histories() == services.histories()
            },
{
}

} // verus!
