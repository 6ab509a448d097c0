//! What holds of the adapter as a whole, whatever its services answer.
use crate::currency_adapter::{
    deposit_failure, deposit_of, deposit_runs, joined, minting, register_deposit, settled,
    transferral, withdrawal,
};
use crate::deposit_fail::{DepositToAlternative, OnDepositFail};
use crate::eager_credit::{available, saturating_sum};
use crate::error::{ledger_status, transact_error_view};
use crate::holding::{entries, entry_asset, held};
use crate::services::{CurrencyCall, Get, MultiCurrency, ServiceCall, UnknownAssetCall};
use crate::types::{status, Asset, XcmError, XcmErrorView};
use staging_xcm::v5::Location;
use staging_xcm_executor::AssetsInHolding;
use vstd::prelude::*;

verus! {

/// Splitting a receipt and putting the two parts together again gives the
/// receipt back: neither creates or loses any of the amount.
pub proof fn law_take_then_subsume(amount: u128, wanted: u128)
    ensures
        available(amount, wanted) <= amount,
        saturating_sum((amount - available(amount, wanted)) as u128, available(amount, wanted))
            == amount,
{
}

/// Whether the call hands an asset to a ledger to keep.
pub open spec fn is_deposit<AccountId, CurrencyId, Balance, Handler>(
    call: ServiceCall<AccountId, CurrencyId, Balance, Handler>,
) -> bool {
    match call {
        ServiceCall::Currency(served) => served is Deposit,
        ServiceCall::Unknown(served) => served is Deposit,
        _ => false,
    }
}

/// Whether the call took an asset from a ledger.
pub open spec fn took<AccountId, CurrencyId, Balance, Handler>(
    call: ServiceCall<AccountId, CurrencyId, Balance, Handler>,
) -> bool {
    match call {
        ServiceCall::Currency(CurrencyCall::Withdraw { reply, .. }) => reply is Ok,
        ServiceCall::Unknown(UnknownAssetCall::Withdraw { reply, .. }) => reply is Ok,
        _ => false,
    }
}

/// Whether the call moved an asset between two accounts.
pub open spec fn transferred<AccountId, CurrencyId, Balance, Handler>(
    call: ServiceCall<AccountId, CurrencyId, Balance, Handler>,
) -> bool {
    match call {
        ServiceCall::Currency(CurrencyCall::Transfer { reply, .. }) => reply is Ok,
        _ => false,
    }
}

/// Whether the call only asks, and moves nothing.
pub open spec fn only_asks<AccountId, CurrencyId, Balance, Handler>(
    call: ServiceCall<AccountId, CurrencyId, Balance, Handler>,
) -> bool {
    call is AccountOf || call is CurrencyOf || call is AmountOf
}

/// Minting moves nothing, whether it succeeds or not: the asset is issued when
/// it is deposited, and never twice.
pub proof fn law_minting_moves_nothing<AccountId, CurrencyId, Balance, Handler>(
    asset: Asset,
    calls: Seq<ServiceCall<AccountId, CurrencyId, Balance, Handler>>,
    r: Result<(), XcmErrorView>,
)
    requires
        minting(asset, calls, r),
    ensures
        forall|i: int| 0 <= i < calls.len() ==> only_asks(#[trigger] calls[i]),
{
}

/// An asset that cannot be minted here is reported as not found, so that another
/// adapter still gets its turn.
pub proof fn law_minting_leaves_the_rest_to_others<AccountId, CurrencyId, Balance, Handler>(
    asset: Asset,
    calls: Seq<ServiceCall<AccountId, CurrencyId, Balance, Handler>>,
    r: Result<(), XcmErrorView>,
)
    requires
        minting(asset, calls, r),
    ensures
        r matches Err(error) ==> error is AssetNotFound,
{
}

/// Whether the first three calls have found the account, the currency and the
/// amount: whether the asset is known.
pub open spec fn found_known<AccountId, CurrencyId, Balance, Handler>(
    calls: Seq<ServiceCall<AccountId, CurrencyId, Balance, Handler>>,
) -> bool {
    &&& calls[0] matches ServiceCall::AccountOf { reply: account, .. }
    &&& calls[1] matches ServiceCall::CurrencyOf { reply: currency, .. }
    &&& calls[2] matches ServiceCall::AmountOf { reply: balance, .. }
    &&& account is Some
    &&& currency is Some
    &&& balance is Some
}

/// A known asset is withdrawn from the currencies' ledgers, an unknown one from
/// the ledger of unknown assets, and never from both. The currencies' answer on a
/// known asset is final.
pub proof fn law_known_assets_come_from_currencies<AccountId, CurrencyId, Balance, Handler>(
    asset: Asset,
    location: Location,
    calls: Seq<ServiceCall<AccountId, CurrencyId, Balance, Handler>>,
    r: Result<(), XcmErrorView>,
)
    requires
        withdrawal(asset, location, calls, r),
    ensures
        forall|i: int| 0 <= i < calls.len() - 1 ==> only_asks(#[trigger] calls[i]),
        found_known(calls) ==> (calls.last() matches ServiceCall::Currency(
            CurrencyCall::Withdraw { reply, .. },
        ) && r == ledger_status(reply)),
        !found_known(calls) ==> (calls.last() matches ServiceCall::Unknown(
            UnknownAssetCall::Withdraw { reply, .. },
        ) && (r is Ok <==> reply is Ok)),
{
    assert(calls.skip(calls.len() - 1)[0] == calls.last());
}

/// A withdrawal succeeds exactly if one ledger took the asset, and no more than
/// one ever does: a receipt is for work done, and done once.
pub proof fn law_withdrawal_takes_once<AccountId, CurrencyId, Balance, Handler>(
    asset: Asset,
    location: Location,
    calls: Seq<ServiceCall<AccountId, CurrencyId, Balance, Handler>>,
    r: Result<(), XcmErrorView>,
)
    requires
        withdrawal(asset, location, calls, r),
    ensures
        r is Ok <==> took(calls.last()),
        forall|i: int| 0 <= i < calls.len() - 1 ==> !took(#[trigger] calls[i]),
{
    law_known_assets_come_from_currencies(asset, location, calls, r);
}

/// A withdrawal that fails is reported as a failure to transact, never as an
/// asset that another adapter should try.
pub proof fn law_withdrawal_failure_is_final<AccountId, CurrencyId, Balance, Handler>(
    asset: Asset,
    location: Location,
    calls: Seq<ServiceCall<AccountId, CurrencyId, Balance, Handler>>,
    r: Result<(), XcmErrorView>,
)
    requires
        withdrawal(asset, location, calls, r),
    ensures
        r matches Err(error) ==> error is FailedToTransactAsset,
{
}

/// A transfer succeeds exactly if the ledgers moved the asset, which they are
/// asked to do no more than once, and nothing else is moved for it.
pub proof fn law_transfer_moves_once<AccountId, CurrencyId, Balance, Handler>(
    asset: Asset,
    from: Location,
    to: Location,
    calls: Seq<ServiceCall<AccountId, CurrencyId, Balance, Handler>>,
    r: Result<(), XcmErrorView>,
)
    requires
        transferral(asset, from, to, calls, r),
    ensures
        r is Ok <==> transferred(calls.last()),
        forall|i: int| 0 <= i < calls.len() - 1 ==> only_asks(#[trigger] calls[i]),
        calls.last() matches ServiceCall::Currency(served) ==> served is Transfer,
        calls.last() is Currency || only_asks(calls.last()),
{
    if calls.len() >= 3 {
        let rest = calls.skip(2);
        assert(rest.last() == calls.last());
        assert forall|i: int| 0 <= i < calls.len() - 1 implies only_asks(#[trigger] calls[i]) by {
            if i >= 2 {
                assert(rest[i - 2] == calls[i]);
            }
        }
    }
}

/// A transfer that fails is reported as a failure to transact, so that the
/// executor does not fall back to withdrawing and depositing.
pub proof fn law_transfer_failure_is_final<AccountId, CurrencyId, Balance, Handler>(
    asset: Asset,
    from: Location,
    to: Location,
    calls: Seq<ServiceCall<AccountId, CurrencyId, Balance, Handler>>,
    r: Result<(), XcmErrorView>,
)
    requires
        transferral(asset, from, to, calls, r),
    ensures
        r matches Err(error) ==> error is FailedToTransactAsset,
{
}

/// A known asset goes to the currencies' ledgers, an unknown one to the ledger
/// of unknown assets, and never to both. An asset is known if the account of the
/// location and the currency and the amount of the asset are; what is then deposited
/// is that amount, of that currency, to that account. An unknown asset is kept as it
/// is, at the location.
pub proof fn law_known_assets_go_to_currencies<AccountId, CurrencyId, Balance, Handler>(
    asset: Asset,
    location: Location,
    calls: Seq<ServiceCall<AccountId, CurrencyId, Balance, Handler>>,
    r: Result<(), XcmErrorView>,
) where Handler: OnDepositFail<CurrencyId, AccountId, Balance>
    requires
        deposit_of(asset, location, calls, r),
    ensures
        calls[0] matches ServiceCall::AccountOf { location: asked, .. } && asked == location,
        calls[1] matches ServiceCall::CurrencyOf { asset: asked, .. } && asked == asset,
        calls[2] matches ServiceCall::AmountOf { asset: asked, .. } && asked == asset,
        found_known(calls) ==> (calls[3] matches ServiceCall::Currency(
            CurrencyCall::Deposit { currency_id, who, amount, .. },
        ) && calls[0]->AccountOf_reply == Some(who) && calls[1]->CurrencyOf_reply == Some(
            currency_id,
        ) && calls[2]->AmountOf_reply == Some(amount)),
        !found_known(calls) ==> (calls[3] matches ServiceCall::Unknown(
            UnknownAssetCall::Deposit { asset: kept, location: place, .. },
        ) && kept == asset && place == location),
        forall|i: int| 0 <= i < calls.len() && i != 3 ==> !is_deposit(#[trigger] calls[i]),
{
    let rest = calls.skip(3);
    assert(rest[0] == calls[3]);
    assert forall|i: int| 0 <= i < calls.len() && i != 3 implies !is_deposit(
        #[trigger] calls[i],
    ) by {
        if i > 3 {
            assert(rest[i - 3] == calls[i]);
        }
    }
}

/// Whether the call asks the failure handler.
pub open spec fn asks_handler<AccountId, CurrencyId, Balance, Handler>(
    call: ServiceCall<AccountId, CurrencyId, Balance, Handler>,
) -> bool {
    call is OnCurrencyFail || call is OnUnknownAssetFail
}

/// A refused deposit is put to the failure handler exactly once, with what was
/// refused and why, and the handler's answer is the outcome: an answer that its own
/// method gives in the state that it was in. A deposit that is not refused
/// succeeds, and the handler is left alone.
pub proof fn law_handler_decides_on_refusals<AccountId, CurrencyId, Balance, Handler>(
    asset: Asset,
    location: Location,
    calls: Seq<ServiceCall<AccountId, CurrencyId, Balance, Handler>>,
    r: Result<(), XcmErrorView>,
) where Handler: OnDepositFail<CurrencyId, AccountId, Balance>
    requires
        deposit_of(asset, location, calls, r),
    ensures
        forall|i: int| 0 <= i < calls.len() && i != 4 ==> !asks_handler(#[trigger] calls[i]),
        match calls[3] {
            ServiceCall::Currency(
                CurrencyCall::Deposit { currency_id, who, amount, reply: Err(err) },
            ) => {
                &&& calls.len() == 5
                &&& calls[4] matches ServiceCall::OnCurrencyFail {
                    before,
                    err: e,
                    currency_id: c,
                    who: w,
                    amount: a,
                    after,
                    reply,
                }
                &&& e == err
                &&& c == currency_id
                &&& w == who
                &&& a == amount
                &&& exists|handler: &mut Handler|
                    {
                        &&& #[trigger] call_ensures(
                            Handler::on_deposit_currency_fail,
                            (handler, err, currency_id, &who, amount),
                            reply,
                        )
                        &&& *handler == before
                    }
                &&& Handler::answers_currency_fail(
                    before,
                    err,
                    currency_id,
                    who,
                    amount,
                    after,
                    status(reply),
                )
                &&& r == status(reply)
            },
            ServiceCall::Unknown(UnknownAssetCall::Deposit { reply: Err(err), .. }) => {
                &&& calls.len() == 5
                &&& calls[4] matches ServiceCall::OnUnknownAssetFail {
                    before,
                    err: e,
                    asset: a,
                    location: l,
                    reply,
                    ..
                }
                &&& e == err
                &&& a == asset
                &&& l == location
                &&& exists|handler: &mut Handler|
                    {
                        &&& #[trigger] call_ensures(
                            Handler::on_deposit_unknown_asset_fail,
                            (handler, err, &asset, &location),
                            reply,
                        )
                        &&& *handler == before
                    }
                &&& r == status(reply)
            },
            _ => calls.len() == 4 && r is Ok,
        },
{
    let rest = calls.skip(3);
    assert(rest[0] == calls[3]);
    assert(rest.len() == 2 ==> rest[1] == calls[4]);
}

/// A failure to deposit is the ledger's refusal, passed on, if the failure
/// handler is `()`.
pub proof fn law_refusal_is_passed_on<AccountId, CurrencyId, Balance>(
    asset: Asset,
    location: Location,
    calls: Seq<ServiceCall<AccountId, CurrencyId, Balance, ()>>,
    r: Result<(), XcmErrorView>,
)
    requires
        deposit_of(asset, location, calls, r),
    ensures
        match calls[3] {
            ServiceCall::Currency(CurrencyCall::Deposit { reply, .. }) => r == ledger_status(reply),
            ServiceCall::Unknown(UnknownAssetCall::Deposit { reply, .. }) => r == ledger_status(
                reply,
            ),
            _ => false,
        },
{
    assert(calls.skip(3)[0] == calls[3]);
}

/// A register that fails to be deposited fails with the refusal of the ledger
/// that was asked last, if the failure handler is `()`.
pub proof fn law_register_failure_is_the_refusal<AccountId, CurrencyId, Balance>(
    what: AssetsInHolding,
    location: Location,
    runs: Seq<Seq<ServiceCall<AccountId, CurrencyId, Balance, ()>>>,
    undeposited: AssetsInHolding,
    error: XcmError,
)
    requires
        register_deposit(what, location, runs, Err((undeposited, error))),
    ensures
        match runs.last()[3] {
            ServiceCall::Currency(CurrencyCall::Deposit { reply, .. }) => reply matches Err(err)
                && error@ == transact_error_view(err),
            ServiceCall::Unknown(UnknownAssetCall::Deposit { reply, .. }) => reply matches Err(err)
                && error@ == transact_error_view(err),
            _ => false,
        },
{
    let asset = entry_asset(entries(what)[runs.len() - 1]);
    law_known_assets_go_to_currencies(asset, location, runs.last(), Err(error@));
    law_refusal_is_passed_on(asset, location, runs.last(), Err(error@));
}

/// A failure to deposit is reported as a failure to transact, if refused
/// deposits go to an alternative account.
pub proof fn law_alternative_failure_is_final<
    AccountId,
    CurrencyId: Copy,
    Balance: Copy,
    Alternative: Get<AccountId>,
    MultiCurrencyT: MultiCurrency<AccountId, CurrencyId, Balance>,
>(
    asset: Asset,
    location: Location,
    calls: Seq<
        ServiceCall<
            AccountId,
            CurrencyId,
            Balance,
            DepositToAlternative<Alternative, MultiCurrencyT, CurrencyId, AccountId, Balance>,
        >,
    >,
    r: Result<(), XcmErrorView>,
)
    requires
        deposit_of(asset, location, calls, r),
    ensures
        r matches Err(error) ==> error is FailedToTransactAsset,
{
}

/// A register that holds nothing is deposited without a single call.
pub proof fn law_empty_register<AccountId, CurrencyId, Balance, Handler>(
    what: AssetsInHolding,
    location: Location,
    runs: Seq<Seq<ServiceCall<AccountId, CurrencyId, Balance, Handler>>>,
    r: Result<(), (AssetsInHolding, XcmError)>,
) where Handler: OnDepositFail<CurrencyId, AccountId, Balance>
    requires
        register_deposit(what, location, runs, r),
        held(what).len() == 0,
    ensures
        r is Ok,
        joined(runs).len() == 0,
{
}

/// Nothing is lost: what a register held is what was deposited, followed by what
/// was handed back, and each part keeps the register's order.
pub proof fn law_nothing_is_lost<AccountId, CurrencyId, Balance, Handler>(
    what: AssetsInHolding,
    location: Location,
    runs: Seq<Seq<ServiceCall<AccountId, CurrencyId, Balance, Handler>>>,
    undeposited: AssetsInHolding,
    error: XcmError,
) where Handler: OnDepositFail<CurrencyId, AccountId, Balance>
    requires
        register_deposit(what, location, runs, Err((undeposited, error))),
    ensures
        held(what) == held(what).take(runs.len() - 1) + held(undeposited),
        entries(what) == entries(what).take(runs.len() - 1) + entries(undeposited),
        held(undeposited).len() >= 1,
{
    assert(held(what) =~= held(what).take(runs.len() - 1) + held(undeposited));
    assert(entries(what) =~= entries(what).take(runs.len() - 1) + entries(undeposited));
}

/// Depositing what was handed back takes up where the failure was: with the run
/// that failed left out, the two attempts together are one attempt at the whole
/// register.
pub proof fn law_retry_resumes<AccountId, CurrencyId, Balance, Handler>(
    what: AssetsInHolding,
    location: Location,
    first_runs: Seq<Seq<ServiceCall<AccountId, CurrencyId, Balance, Handler>>>,
    undeposited: AssetsInHolding,
    error: XcmError,
    second_runs: Seq<Seq<ServiceCall<AccountId, CurrencyId, Balance, Handler>>>,
    r: Result<(), (AssetsInHolding, XcmError)>,
) where Handler: OnDepositFail<CurrencyId, AccountId, Balance>
    requires
        register_deposit(what, location, first_runs, Err((undeposited, error))),
        register_deposit(undeposited, location, second_runs, r),
    ensures
        register_deposit(what, location, first_runs.drop_last() + second_runs, r),
{
    let done = first_runs.len() - 1;
    let runs = first_runs.drop_last() + second_runs;
    let failure = deposit_failure(r);
    assert forall|i: int|
        0 <= i < runs.len() - (if failure is Some {
            1int
        } else {
            0int
        }) implies settled(entries(what)[i], location, #[trigger] runs[i]) by {
        if i < done {
            assert(runs[i] == first_runs[i]);
        } else {
            assert(runs[i] == second_runs[i - done]);
            assert(entries(what)[i] == entries(undeposited)[i - done]);
        }
    }
    if failure is Some {
        assert(runs.last() == second_runs.last());
    }
    if let Err((left, _)) = r {
        assert(entries(left) =~= entries(what).skip(runs.len() - 1));
        assert(held(left) =~= held(what).skip(runs.len() - 1));
    }
}

/// How many of the calls satisfy a condition.
pub open spec fn count<AccountId, CurrencyId, Balance, Handler>(
    calls: Seq<ServiceCall<AccountId, CurrencyId, Balance, Handler>>,
    condition: spec_fn(ServiceCall<AccountId, CurrencyId, Balance, Handler>) -> bool,
) -> nat
    decreases calls.len(),
{
    if calls.len() == 0 {
        0
    } else {
        count(calls.drop_last(), condition) + (if condition(calls.last()) {
            1nat
        } else {
            0nat
        })
    }
}

proof fn lemma_count_joins<AccountId, CurrencyId, Balance, Handler>(
    a: Seq<ServiceCall<AccountId, CurrencyId, Balance, Handler>>,
    b: Seq<ServiceCall<AccountId, CurrencyId, Balance, Handler>>,
    condition: spec_fn(ServiceCall<AccountId, CurrencyId, Balance, Handler>) -> bool,
)
    ensures
        count(a + b, condition) == count(a, condition) + count(b, condition),
    decreases b.len(),
{
    if b.len() == 0 {
        assert(a + b =~= a);
    } else {
        assert((a + b).drop_last() =~= a + b.drop_last());
        lemma_count_joins(a, b.drop_last(), condition);
    }
}

proof fn lemma_count_none<AccountId, CurrencyId, Balance, Handler>(
    calls: Seq<ServiceCall<AccountId, CurrencyId, Balance, Handler>>,
    condition: spec_fn(ServiceCall<AccountId, CurrencyId, Balance, Handler>) -> bool,
)
    requires
        forall|i: int| 0 <= i < calls.len() ==> !condition(#[trigger] calls[i]),
    ensures
        count(calls, condition) == 0,
    decreases calls.len(),
{
    if calls.len() > 0 {
        assert forall|i: int| 0 <= i < calls.drop_last().len() implies !condition(
            #[trigger] calls.drop_last()[i],
        ) by {
            assert(calls.drop_last()[i] == calls[i]);
        }
        lemma_count_none(calls.drop_last(), condition);
    }
}

proof fn lemma_count_one<AccountId, CurrencyId, Balance, Handler>(
    calls: Seq<ServiceCall<AccountId, CurrencyId, Balance, Handler>>,
    k: int,
    condition: spec_fn(ServiceCall<AccountId, CurrencyId, Balance, Handler>) -> bool,
)
    requires
        0 <= k < calls.len(),
        condition(calls[k]),
        forall|i: int| 0 <= i < calls.len() && i != k ==> !condition(#[trigger] calls[i]),
    ensures
        count(calls, condition) == 1,
{
    let head = calls.take(k);
    let tail = calls.skip(k + 1);
    assert(calls =~= head.push(calls[k]) + tail);
    lemma_count_joins(head.push(calls[k]), tail, condition);
    assert(head.push(calls[k]).drop_last() =~= head);
    lemma_count_none(head, condition);
    lemma_count_none(tail, condition);
}

proof fn lemma_deposit_counts<AccountId, CurrencyId, Balance, Handler>(
    asset: Asset,
    location: Location,
    calls: Seq<ServiceCall<AccountId, CurrencyId, Balance, Handler>>,
    r: Result<(), XcmErrorView>,
) where Handler: OnDepositFail<CurrencyId, AccountId, Balance>
    requires
        deposit_of(asset, location, calls, r),
    ensures
        count(
            calls,
            |call: ServiceCall<AccountId, CurrencyId, Balance, Handler>| is_deposit(call),
        ) == 1,
        count(
            calls,
            |call: ServiceCall<AccountId, CurrencyId, Balance, Handler>| call is Settle,
        ) == 0,
{
    let deposits = |call: ServiceCall<AccountId, CurrencyId, Balance, Handler>| is_deposit(call);
    let settles = |call: ServiceCall<AccountId, CurrencyId, Balance, Handler>| call is Settle;
    law_known_assets_go_to_currencies(asset, location, calls, r);
    lemma_count_one(calls, 3, deposits);
    assert forall|i: int| 0 <= i < calls.len() implies !settles(#[trigger] calls[i]) by {
        if i >= 3 {
            assert(calls.skip(3)[i - 3] == calls[i]);
        }
    }
    lemma_count_none(calls, settles);
}

proof fn lemma_runs_count<AccountId, CurrencyId, Balance, Handler>(
    held_entries: Seq<AssetsInHolding>,
    location: Location,
    runs: Seq<Seq<ServiceCall<AccountId, CurrencyId, Balance, Handler>>>,
) where Handler: OnDepositFail<CurrencyId, AccountId, Balance>
    requires
        forall|i: int|
            0 <= i < runs.len() ==> settled(held_entries[i], location, #[trigger] runs[i]),
    ensures
        count(
            joined(runs),
            |call: ServiceCall<AccountId, CurrencyId, Balance, Handler>| is_deposit(call),
        ) == runs.len(),
        count(
            joined(runs),
            |call: ServiceCall<AccountId, CurrencyId, Balance, Handler>| call is Settle,
        ) == runs.len(),
    decreases runs.len(),
{
    let deposits = |call: ServiceCall<AccountId, CurrencyId, Balance, Handler>| is_deposit(call);
    let settles = |call: ServiceCall<AccountId, CurrencyId, Balance, Handler>| call is Settle;
    if runs.len() > 0 {
        let earlier = runs.drop_last();
        let run = runs.last();
        let entry = held_entries[runs.len() - 1];
        assert(settled(entry, location, run)) by {
            assert(run == runs[runs.len() - 1]);
        }
        assert forall|i: int| 0 <= i < earlier.len() implies settled(
            held_entries[i],
            location,
            #[trigger] earlier[i],
        ) by {
            assert(earlier[i] == runs[i]);
        }
        lemma_runs_count(held_entries, location, earlier);
        lemma_deposit_counts(entry_asset(entry), location, run.drop_last(), Ok(()));
        lemma_count_joins(joined(earlier), run, deposits);
        lemma_count_joins(joined(earlier), run, settles);
    }
}

/// Each asset that is tried is handed to a ledger exactly once, and each entry
/// that was deposited is settled exactly once; entries handed back are not
/// settled.
pub proof fn law_each_asset_is_deposited_once<AccountId, CurrencyId, Balance, Handler>(
    what: AssetsInHolding,
    location: Location,
    runs: Seq<Seq<ServiceCall<AccountId, CurrencyId, Balance, Handler>>>,
    r: Result<(), (AssetsInHolding, XcmError)>,
) where Handler: OnDepositFail<CurrencyId, AccountId, Balance>
    requires
        register_deposit(what, location, runs, r),
    ensures
        count(
            joined(runs),
            |call: ServiceCall<AccountId, CurrencyId, Balance, Handler>| is_deposit(call),
        ) == runs.len(),
        count(
            joined(runs),
            |call: ServiceCall<AccountId, CurrencyId, Balance, Handler>| call is Settle,
        ) == held(what).len() - (match r {
            Ok(()) => 0,
            Err((undeposited, _)) => held(undeposited).len() as int,
        }),
{
    let deposits = |call: ServiceCall<AccountId, CurrencyId, Balance, Handler>| is_deposit(call);
    let settles = |call: ServiceCall<AccountId, CurrencyId, Balance, Handler>| call is Settle;
    match r {
        Ok(()) => {
            lemma_runs_count(entries(what), location, runs);
        },
        Err((_, error)) => {
            let earlier = runs.drop_last();
            assert forall|i: int| 0 <= i < earlier.len() implies settled(
                entries(what)[i],
                location,
                #[trigger] earlier[i],
            ) by {
                assert(earlier[i] == runs[i]);
            }
            lemma_runs_count(entries(what), location, earlier);
            lemma_deposit_counts(
                entry_asset(entries(what)[runs.len() - 1]),
                location,
                runs.last(),
                Err(error@),
            );
            lemma_count_joins(joined(earlier), runs.last(), deposits);
            lemma_count_joins(joined(earlier), runs.last(), settles);
        },
    }
}

/// The calls made for one asset tell where they end and how they ended.
proof fn lemma_deposit_ends<AccountId, CurrencyId, Balance, Handler>(
    asset: Asset,
    location: Location,
    calls: Seq<ServiceCall<AccountId, CurrencyId, Balance, Handler>>,
    a: Seq<ServiceCall<AccountId, CurrencyId, Balance, Handler>>,
    ra: Result<(), XcmErrorView>,
    b: Seq<ServiceCall<AccountId, CurrencyId, Balance, Handler>>,
    rb: Result<(), XcmErrorView>,
) where Handler: OnDepositFail<CurrencyId, AccountId, Balance>
    requires
        a.is_prefix_of(calls),
        b.is_prefix_of(calls),
        deposit_of(asset, location, a, ra),
        deposit_of(asset, location, b, rb),
    ensures
        a == b,
        ra == rb,
{
    assert forall|i: int| 0 <= i < a.len() implies a[i] == calls[i] by {}
    assert forall|i: int| 0 <= i < b.len() implies b[i] == calls[i] by {}
    let a_rest = a.skip(3);
    let b_rest = b.skip(3);
    assert(a_rest.len() >= 1 && b_rest.len() >= 1);
    assert(a_rest[0] == calls[3] && b_rest[0] == calls[3]);
    assert(a_rest.len() == b_rest.len());
    if a_rest.len() == 2 {
        assert(a_rest[1] == calls[4] && b_rest[1] == calls[4]);
    }
    assert(a =~= b);
}

proof fn lemma_joined_first<AccountId, CurrencyId, Balance, Handler>(
    runs: Seq<Seq<ServiceCall<AccountId, CurrencyId, Balance, Handler>>>,
)
    requires
        runs.len() > 0,
    ensures
        joined(runs) == runs[0] + joined(runs.skip(1)),
    decreases runs.len(),
{
    let rest = runs.skip(1);
    if runs.len() == 1 {
        assert(joined(runs.drop_last()).len() == 0);
        assert(joined(rest).len() == 0);
        assert(joined(runs) =~= runs[0]);
        assert(runs[0] + joined(rest) =~= runs[0]);
    } else {
        lemma_joined_first(runs.drop_last());
        assert(runs.drop_last().skip(1) =~= rest.drop_last());
        assert(runs.drop_last()[0] == runs[0]);
        assert(rest.last() == runs.last());
        assert(joined(runs) =~= runs[0] + joined(rest));
    }
}

proof fn lemma_later_runs<AccountId, CurrencyId, Balance, Handler>(
    held_entries: Seq<AssetsInHolding>,
    location: Location,
    runs: Seq<Seq<ServiceCall<AccountId, CurrencyId, Balance, Handler>>>,
    failure: Option<XcmErrorView>,
) where Handler: OnDepositFail<CurrencyId, AccountId, Balance>
    requires
        deposit_runs(held_entries, location, runs, failure),
        runs.len() > (if failure is Some {
            1int
        } else {
            0int
        }),
    ensures
        deposit_runs(held_entries.skip(1), location, runs.skip(1), failure),
{
    let rest = runs.skip(1);
    assert forall|i: int|
        0 <= i < rest.len() - (if failure is Some {
            1int
        } else {
            0int
        }) implies settled(held_entries.skip(1)[i], location, #[trigger] rest[i]) by {
        assert(rest[i] == runs[i + 1]);
    }
    if failure is Some {
        assert(rest.last() == runs.last());
    }
}

proof fn lemma_same_runs<AccountId, CurrencyId, Balance, Handler>(
    held_entries: Seq<AssetsInHolding>,
    location: Location,
    a: Seq<Seq<ServiceCall<AccountId, CurrencyId, Balance, Handler>>>,
    failure_a: Option<XcmErrorView>,
    b: Seq<Seq<ServiceCall<AccountId, CurrencyId, Balance, Handler>>>,
    failure_b: Option<XcmErrorView>,
) where Handler: OnDepositFail<CurrencyId, AccountId, Balance>
    requires
        deposit_runs(held_entries, location, a, failure_a),
        deposit_runs(held_entries, location, b, failure_b),
        joined(a) == joined(b),
    ensures
        a == b,
        failure_a == failure_b,
    decreases held_entries.len(),
{
    if held_entries.len() == 0 {
        assert(a =~= b);
    } else {
        let calls = joined(a);
        let entry = held_entries[0];
        lemma_joined_first(a);
        lemma_joined_first(b);
        let a_fails = failure_a is Some && a.len() == 1;
        let b_fails = failure_b is Some && b.len() == 1;
        let a_deposit = if a_fails {
            a[0]
        } else {
            a[0].drop_last()
        };
        let b_deposit = if b_fails {
            b[0]
        } else {
            b[0].drop_last()
        };
        let a_result: Result<(), XcmErrorView> = if a_fails {
            Err(failure_a->Some_0)
        } else {
            Ok(())
        };
        let b_result: Result<(), XcmErrorView> = if b_fails {
            Err(failure_b->Some_0)
        } else {
            Ok(())
        };
        assert(a_deposit.is_prefix_of(calls));
        assert(b_deposit.is_prefix_of(calls));
        lemma_deposit_ends(
            entry_asset(entry),
            location,
            calls,
            a_deposit,
            a_result,
            b_deposit,
            b_result,
        );
        if a_fails {
            assert(a =~= b);
        } else {
            assert(a[0] =~= a_deposit.push(ServiceCall::Settle { entry }));
            assert(b[0] =~= b_deposit.push(ServiceCall::Settle { entry }));
            assert(joined(a.skip(1)) =~= calls.skip(a[0].len() as int));
            assert(joined(b.skip(1)) =~= calls.skip(b[0].len() as int));
            lemma_later_runs(held_entries, location, a, failure_a);
            lemma_later_runs(held_entries, location, b, failure_b);
            lemma_same_runs(
                held_entries.skip(1),
                location,
                a.skip(1),
                failure_a,
                b.skip(1),
                failure_b,
            );
            assert(a =~= seq![a[0]] + a.skip(1));
            assert(b =~= seq![b[0]] + b.skip(1));
        }
    }
}

/// The calls made for a register, with their answers, leave one outcome only:
/// whether the deposit succeeds, with which error it fails, and what is handed
/// back.
pub proof fn law_calls_decide_the_outcome<AccountId, CurrencyId, Balance, Handler>(
    what: AssetsInHolding,
    location: Location,
    a: Seq<Seq<ServiceCall<AccountId, CurrencyId, Balance, Handler>>>,
    ra: Result<(), (AssetsInHolding, XcmError)>,
    b: Seq<Seq<ServiceCall<AccountId, CurrencyId, Balance, Handler>>>,
    rb: Result<(), (AssetsInHolding, XcmError)>,
) where Handler: OnDepositFail<CurrencyId, AccountId, Balance>
    requires
        register_deposit(what, location, a, ra),
        register_deposit(what, location, b, rb),
        joined(a) == joined(b),
    ensures
        deposit_failure(ra) == deposit_failure(rb),
        match (ra, rb) {
            (Err((left_a, _)), Err((left_b, _))) => entries(left_a) == entries(left_b) && held(
                left_a,
            ) == held(left_b),
            _ => ra is Ok && rb is Ok,
        },
{
    lemma_same_runs(entries(what), location, a, deposit_failure(ra), b, deposit_failure(rb));
}

/// Whether a call is one that depositing a register makes, and is followed by what
/// has to follow it. A question is followed by another call. A deposit that succeeds
/// is followed by settling an entry, a refused one by putting the refusal to the
/// failure handler. A handler that answers with success has the entry settled; one
/// that does not ends it all. The handler is asked only after a refusal, and an entry
/// is settled only after a success.
pub open spec fn follows<AccountId, CurrencyId, Balance, Handler>(
    calls: Seq<ServiceCall<AccountId, CurrencyId, Balance, Handler>>,
    i: int,
) -> bool {
    let next = calls[i + 1];
    let more = i + 1 < calls.len();
    match calls[i] {
        ServiceCall::AccountOf { .. } => more && next is CurrencyOf,
        ServiceCall::CurrencyOf { .. } => more && next is AmountOf,
        ServiceCall::AmountOf { .. } => more && is_deposit(next),
        ServiceCall::Currency(CurrencyCall::Deposit { currency_id, who, amount, reply }) => {
            &&& more
            &&& match reply {
                Ok(()) => next is Settle,
                Err(err) => {
                    &&& next matches ServiceCall::OnCurrencyFail {
                        err: e,
                        currency_id: c,
                        who: w,
                        amount: a,
                        ..
                    }
                    &&& (e, c, w, a) == (err, currency_id, who, amount)
                },
            }
        },
        ServiceCall::Unknown(UnknownAssetCall::Deposit { asset, location, reply }) => {
            &&& more
            &&& match reply {
                Ok(()) => next is Settle,
                Err(err) => {
                    &&& next matches ServiceCall::OnUnknownAssetFail {
                        err: e,
                        asset: a,
                        location: l,
                        ..
                    }
                    &&& (e, a, l) == (err, asset, location)
                },
            }
        },
        ServiceCall::OnCurrencyFail { reply, .. } => {
            &&& i > 0
            &&& calls[i - 1] matches ServiceCall::Currency(
                CurrencyCall::Deposit { reply: refusal, .. },
            )
            &&& refusal is Err
            &&& if reply is Ok {
                more && next is Settle
            } else {
                !more
            }
        },
        ServiceCall::OnUnknownAssetFail { reply, .. } => {
            &&& i > 0
            &&& calls[i - 1] matches ServiceCall::Unknown(
                UnknownAssetCall::Deposit { reply: refusal, .. },
            )
            &&& refusal is Err
            &&& if reply is Ok {
                more && next is Settle
            } else {
                !more
            }
        },
        ServiceCall::Settle { .. } => i > 0 && match calls[i - 1] {
            ServiceCall::Currency(CurrencyCall::Deposit { reply, .. }) => reply is Ok,
            ServiceCall::Unknown(UnknownAssetCall::Deposit { reply, .. }) => reply is Ok,
            ServiceCall::OnCurrencyFail { reply, .. } => reply is Ok,
            ServiceCall::OnUnknownAssetFail { reply, .. } => reply is Ok,
            _ => false,
        },
        _ => false,
    }
}

/// The entries that were settled, in order.
pub open spec fn settles<AccountId, CurrencyId, Balance, Handler>(
    calls: Seq<ServiceCall<AccountId, CurrencyId, Balance, Handler>>,
) -> Seq<AssetsInHolding>
    decreases calls.len(),
{
    if calls.len() == 0 {
        Seq::empty()
    } else {
        let earlier = settles(calls.drop_last());
        match calls.last() {
            ServiceCall::Settle { entry } => earlier.push(entry),
            _ => earlier,
        }
    }
}

proof fn lemma_settles_join<AccountId, CurrencyId, Balance, Handler>(
    a: Seq<ServiceCall<AccountId, CurrencyId, Balance, Handler>>,
    b: Seq<ServiceCall<AccountId, CurrencyId, Balance, Handler>>,
)
    ensures
        settles(a + b) == settles(a) + settles(b),
    decreases b.len(),
{
    if b.len() == 0 {
        assert(a + b =~= a);
        assert(settles(a) + settles(b) =~= settles(a));
    } else {
        assert((a + b).drop_last() =~= a + b.drop_last());
        lemma_settles_join(a, b.drop_last());
        assert(settles(a + b) =~= settles(a) + settles(b));
    }
}

proof fn lemma_no_settles<AccountId, CurrencyId, Balance, Handler>(
    calls: Seq<ServiceCall<AccountId, CurrencyId, Balance, Handler>>,
)
    requires
        forall|i: int| 0 <= i < calls.len() ==> !(#[trigger] calls[i] is Settle),
    ensures
        settles(calls).len() == 0,
    decreases calls.len(),
{
    if calls.len() > 0 {
        assert forall|i: int| 0 <= i < calls.drop_last().len() implies !(
        #[trigger] calls.drop_last()[i] is Settle) by {
            assert(calls.drop_last()[i] == calls[i]);
        }
        lemma_no_settles(calls.drop_last());
    }
}

/// What follows in each of two stretches follows in both together, if the first
/// ends with an entry settled.
proof fn lemma_follows_joins<AccountId, CurrencyId, Balance, Handler>(
    a: Seq<ServiceCall<AccountId, CurrencyId, Balance, Handler>>,
    b: Seq<ServiceCall<AccountId, CurrencyId, Balance, Handler>>,
)
    requires
        a.len() > 0 ==> a.last() is Settle,
        forall|i: int| 0 <= i < a.len() ==> #[trigger] follows(a, i),
        forall|i: int| 0 <= i < b.len() ==> #[trigger] follows(b, i),
    ensures
        forall|i: int| 0 <= i < (a + b).len() ==> #[trigger] follows(a + b, i),
{
    assert forall|i: int| 0 <= i < (a + b).len() implies #[trigger] follows(a + b, i) by {
        if i < a.len() {
            assert(follows(a, i));
            if i + 1 == a.len() {
                assert(a[i] is Settle);
            }
        } else {
            assert(follows(b, i - a.len()));
            if i > a.len() {
                assert((a + b)[i - 1] == b[i - 1 - a.len()]);
            }
            if i + 1 < (a + b).len() {
                assert((a + b)[i + 1] == b[i + 1 - a.len()]);
            }
        }
    }
}

proof fn lemma_deposit_follows<AccountId, CurrencyId, Balance, Handler>(
    asset: Asset,
    location: Location,
    calls: Seq<ServiceCall<AccountId, CurrencyId, Balance, Handler>>,
    r: Result<(), XcmErrorView>,
    settling: Seq<ServiceCall<AccountId, CurrencyId, Balance, Handler>>,
) where Handler: OnDepositFail<CurrencyId, AccountId, Balance>
    requires
        deposit_of(asset, location, calls, r),
        r is Ok ==> settling.len() == 1 && settling[0] is Settle,
        r is Err ==> settling.len() == 0,
    ensures
        forall|i: int|
            0 <= i < (calls + settling).len() ==> #[trigger] follows(calls + settling, i),
        settles(calls).len() == 0,
        r matches Err(error) ==> match calls.last() {
            ServiceCall::OnCurrencyFail { reply, .. } => status(reply) == r,
            ServiceCall::OnUnknownAssetFail { reply, .. } => status(reply) == r,
            _ => false,
        },
{
    let rest = calls.skip(3);
    let all = calls + settling;
    assert(rest[0] == calls[3]);
    assert(rest.len() == 2 ==> rest[1] == calls[4]);
    assert forall|i: int| 0 <= i < all.len() implies #[trigger] follows(all, i) by {
        assert(i < calls.len() ==> all[i] == calls[i]);
        assert(i >= calls.len() ==> all[i] == settling[i - calls.len()]);
        assert(i + 1 < calls.len() ==> all[i + 1] == calls[i + 1]);
        assert(0 < i <= calls.len() ==> all[i - 1] == calls[i - 1]);
        assert(calls.len() <= i + 1 < all.len() ==> all[i + 1] == settling[0]);
    }
    assert forall|i: int| 0 <= i < calls.len() implies !(#[trigger] calls[i] is Settle) by {
        if i >= 3 {
            assert(rest[i - 3] == calls[i]);
        }
    }
    lemma_no_settles(calls);
}

proof fn lemma_runs_follow<AccountId, CurrencyId, Balance, Handler>(
    held_entries: Seq<AssetsInHolding>,
    location: Location,
    runs: Seq<Seq<ServiceCall<AccountId, CurrencyId, Balance, Handler>>>,
) where Handler: OnDepositFail<CurrencyId, AccountId, Balance>
    requires
        runs.len() <= held_entries.len(),
        forall|i: int|
            0 <= i < runs.len() ==> settled(held_entries[i], location, #[trigger] runs[i]),
    ensures
        forall|i: int| 0 <= i < joined(runs).len() ==> #[trigger] follows(joined(runs), i),
        joined(runs).len() > 0 ==> joined(runs).last() is Settle,
        settles(joined(runs)) == held_entries.take(runs.len() as int),
    decreases runs.len(),
{
    if runs.len() == 0 {
        assert(settles(joined(runs)) =~= held_entries.take(0));
    } else {
        let earlier = runs.drop_last();
        let run = runs.last();
        let entry = held_entries[runs.len() - 1];
        assert(settled(entry, location, run)) by {
            assert(run == runs[runs.len() - 1]);
        }
        assert forall|i: int| 0 <= i < earlier.len() implies settled(
            held_entries[i],
            location,
            #[trigger] earlier[i],
        ) by {
            assert(earlier[i] == runs[i]);
        }
        lemma_runs_follow(held_entries, location, earlier);
        let settling = seq![run.last()];
        lemma_deposit_follows(
            entry_asset(entry),
            location,
            run.drop_last(),
            Ok(()),
            settling,
        );
        assert(run =~= run.drop_last() + settling);
        lemma_follows_joins(joined(earlier), run);
        lemma_settles_join(joined(earlier), run);
        assert(settles(run) =~= seq![entry]);
        assert(settles(joined(runs)) =~= held_entries.take(runs.len() as int));
    }
}

/// Step by step, depositing a register does what it has to and nothing else: a
/// deposit is either settled or put to the failure handler, and the handler's
/// answer either has the entry settled or is the failure of the whole. The entries
/// settled are those of the register, in its order, but for those handed back.
pub proof fn law_each_call_has_its_consequence<AccountId, CurrencyId, Balance, Handler>(
    what: AssetsInHolding,
    location: Location,
    runs: Seq<Seq<ServiceCall<AccountId, CurrencyId, Balance, Handler>>>,
    r: Result<(), (AssetsInHolding, XcmError)>,
) where Handler: OnDepositFail<CurrencyId, AccountId, Balance>
    requires
        register_deposit(what, location, runs, r),
    ensures
        forall|i: int| 0 <= i < joined(runs).len() ==> #[trigger] follows(joined(runs), i),
        match r {
            Ok(()) => {
                &&& settles(joined(runs)) == entries(what)
                &&& joined(runs).len() > 0 ==> joined(runs).last() is Settle
            },
            Err((undeposited, error)) => {
                &&& entries(what) == settles(joined(runs)) + entries(undeposited)
                &&& joined(runs).len() > 0
                &&& match joined(runs).last() {
                    ServiceCall::OnCurrencyFail { reply, .. } => status(reply) == Err::<
                        (),
                        XcmErrorView,
                    >(error@),
                    ServiceCall::OnUnknownAssetFail { reply, .. } => status(reply) == Err::<
                        (),
                        XcmErrorView,
                    >(error@),
                    _ => false,
                }
            },
        },
{
    match r {
        Ok(()) => {
            lemma_runs_follow(entries(what), location, runs);
            assert(entries(what).take(runs.len() as int) =~= entries(what));
        },
        Err((undeposited, error)) => {
            let earlier = runs.drop_last();
            let run = runs.last();
            assert forall|i: int| 0 <= i < earlier.len() implies settled(
                entries(what)[i],
                location,
                #[trigger] earlier[i],
            ) by {
                assert(earlier[i] == runs[i]);
            }
            lemma_runs_follow(entries(what), location, earlier);
            let settling: Seq<ServiceCall<AccountId, CurrencyId, Balance, Handler>> = Seq::empty();
            lemma_deposit_follows(
                entry_asset(entries(what)[runs.len() - 1]),
                location,
                run,
                Err(error@),
                settling,
            );
            assert(run =~= run + settling);
            lemma_follows_joins(joined(earlier), run);
            lemma_settles_join(joined(earlier), run);
            assert(joined(runs).last() == run.last());
            assert(entries(what) =~= settles(joined(runs)) + entries(undeposited));
        },
    }
}

/// Whether a call to the failure handler has an answer that the handler's own method
/// gives in the state that it was in.
pub open spec fn answered<AccountId, CurrencyId, Balance, Handler: OnDepositFail<
    CurrencyId,
    AccountId,
    Balance,
>>(call: ServiceCall<AccountId, CurrencyId, Balance, Handler>) -> bool {
    match call {
        ServiceCall::OnCurrencyFail { before, err, currency_id, who, amount, after, reply } => {
            &&& exists|handler: &mut Handler|
                {
                    &&& #[trigger] call_ensures(
                        Handler::on_deposit_currency_fail,
                        (handler, err, currency_id, &who, amount),
                        reply,
                    )
                    &&& *handler == before
                }
            &&& Handler::answers_currency_fail(
                before,
                err,
                currency_id,
                who,
                amount,
                after,
                status(reply),
            )
        },
        ServiceCall::OnUnknownAssetFail { before, err, asset, location, after, reply } => {
            &&& exists|handler: &mut Handler|
                {
                    &&& #[trigger] call_ensures(
                        Handler::on_deposit_unknown_asset_fail,
                        (handler, err, &asset, &location),
                        reply,
                    )
                    &&& *handler == before
                }
            &&& !Handler::answers_unknown_assets() ==> {
                &&& status(reply) == Err::<(), XcmErrorView>(transact_error_view(err))
                &&& after == before
            }
        },
        _ => true,
    }
}

proof fn lemma_deposit_answered<AccountId, CurrencyId, Balance, Handler>(
    asset: Asset,
    location: Location,
    calls: Seq<ServiceCall<AccountId, CurrencyId, Balance, Handler>>,
    r: Result<(), XcmErrorView>,
) where Handler: OnDepositFail<CurrencyId, AccountId, Balance>
    requires
        deposit_of(asset, location, calls, r),
    ensures
        forall|i: int| 0 <= i < calls.len() ==> answered(#[trigger] calls[i]),
{
    let rest = calls.skip(3);
    assert forall|i: int| 0 <= i < calls.len() implies answered(#[trigger] calls[i]) by {
        if i >= 3 {
            assert(rest[i - 3] == calls[i]);
        }
    }
}

proof fn lemma_runs_answered<AccountId, CurrencyId, Balance, Handler>(
    held_entries: Seq<AssetsInHolding>,
    location: Location,
    runs: Seq<Seq<ServiceCall<AccountId, CurrencyId, Balance, Handler>>>,
) where Handler: OnDepositFail<CurrencyId, AccountId, Balance>
    requires
        forall|i: int|
            0 <= i < runs.len() ==> settled(held_entries[i], location, #[trigger] runs[i]),
    ensures
        forall|i: int| 0 <= i < joined(runs).len() ==> answered(#[trigger] joined(runs)[i]),
    decreases runs.len(),
{
    if runs.len() > 0 {
        let earlier = runs.drop_last();
        let run = runs.last();
        let entry = held_entries[runs.len() - 1];
        assert(settled(entry, location, run)) by {
            assert(run == runs[runs.len() - 1]);
        }
        assert forall|i: int| 0 <= i < earlier.len() implies settled(
            held_entries[i],
            location,
            #[trigger] earlier[i],
        ) by {
            assert(earlier[i] == runs[i]);
        }
        lemma_runs_answered(held_entries, location, earlier);
        lemma_deposit_answered(entry_asset(entry), location, run.drop_last(), Ok(()));
        assert forall|i: int| 0 <= i < joined(runs).len() implies answered(
            #[trigger] joined(runs)[i],
        ) by {
            let done = joined(earlier).len();
            if i < done {
                assert(joined(runs)[i] == joined(earlier)[i]);
            } else if i < joined(runs).len() - 1 {
                assert(joined(runs)[i] == run.drop_last()[i - done]);
            } else {
                assert(joined(runs)[i] == run.last());
            }
        }
    }
}

/// Every answer of the failure handler to a refused deposit of a register is the
/// handler's own.
pub proof fn law_handler_answers_each_refusal<AccountId, CurrencyId, Balance, Handler>(
    what: AssetsInHolding,
    location: Location,
    runs: Seq<Seq<ServiceCall<AccountId, CurrencyId, Balance, Handler>>>,
    r: Result<(), (AssetsInHolding, XcmError)>,
) where Handler: OnDepositFail<CurrencyId, AccountId, Balance>
    requires
        register_deposit(what, location, runs, r),
    ensures
        forall|i: int| 0 <= i < joined(runs).len() ==> answered(#[trigger] joined(runs)[i]),
{
    match r {
        Ok(()) => {
            lemma_runs_answered(entries(what), location, runs);
        },
        Err((_, error)) => {
            let earlier = runs.drop_last();
            let run = runs.last();
            assert forall|i: int| 0 <= i < earlier.len() implies settled(
                entries(what)[i],
                location,
                #[trigger] earlier[i],
            ) by {
                assert(earlier[i] == runs[i]);
            }
            lemma_runs_answered(entries(what), location, earlier);
            lemma_deposit_answered(
                entry_asset(entries(what)[runs.len() - 1]),
                location,
                run,
                Err(error@),
            );
            assert forall|i: int| 0 <= i < joined(runs).len() implies answered(
                #[trigger] joined(runs)[i],
            ) by {
                let done = joined(earlier).len();
                if i < done {
                    assert(joined(runs)[i] == joined(earlier)[i]);
                } else {
                    assert(joined(runs)[i] == run[i - done]);
                }
            }
        },
    }
}

} // verus!
