//! What the services themselves have kept after the adapter's work: that what was
//! handed out is issued once, and where refused deposits have gone.
use crate::currency_adapter::{
    deposit_of, joined, minting, register_deposit, settled, withdrawal,
};
use crate::deposit_fail::{DepositToAlternative, OnDepositFail};
use crate::eager_credit::EagerHolding;
use crate::error::ledger_status;
use crate::holding::{entries, entry_asset, held};
use crate::laws::{is_deposit, law_known_assets_come_from_currencies};
use crate::services::{
    grew, linked, reached, CurrencyCall, Get, Histories, MultiCurrency, ServiceCall,
    UnknownAssetCall,
};
use crate::types::{Asset, XcmError, XcmErrorView};
use sp_runtime::DispatchError;
use staging_xcm::v5::Location;
use staging_xcm_executor::AssetsInHolding;
use vstd::prelude::*;

verus! {

/// The calls to the currencies' ledgers that a record holds.
pub open spec fn currency_calls<AccountId, CurrencyId, Balance, Handler>(
    calls: Seq<ServiceCall<AccountId, CurrencyId, Balance, Handler>>,
) -> Seq<CurrencyCall<AccountId, CurrencyId, Balance>>
    decreases calls.len(),
{
    if calls.len() == 0 {
        Seq::empty()
    } else {
        let earlier = currency_calls(calls.drop_last());
        match calls.last() {
            ServiceCall::Currency(served) => earlier.push(served),
            _ => earlier,
        }
    }
}

/// The calls to the ledger of unknown assets that a record holds.
pub open spec fn unknown_asset_calls<AccountId, CurrencyId, Balance, Handler>(
    calls: Seq<ServiceCall<AccountId, CurrencyId, Balance, Handler>>,
) -> Seq<UnknownAssetCall>
    decreases calls.len(),
{
    if calls.len() == 0 {
        Seq::empty()
    } else {
        let earlier = unknown_asset_calls(calls.drop_last());
        match calls.last() {
            ServiceCall::Unknown(served) => earlier.push(served),
            _ => earlier,
        }
    }
}

/// Whatever the adapter does, the ledgers themselves have served exactly the
/// calls that the record holds for them, and no others.
pub proof fn law_ledgers_serve_what_is_recorded<AccountId, CurrencyId, Balance, Handler>(
    from: Histories<AccountId, CurrencyId, Balance, Handler>,
    calls: Seq<ServiceCall<AccountId, CurrencyId, Balance, Handler>>,
    to: Histories<AccountId, CurrencyId, Balance, Handler>,
)
    requires
        grew(from, calls, to),
    ensures
        to.ledgers == from.ledgers + currency_calls(calls),
        to.unknown_assets == from.unknown_assets + unknown_asset_calls(calls),
    decreases calls.len(),
{
    if calls.len() == 0 {
        assert(to.ledgers =~= from.ledgers + currency_calls(calls));
        assert(to.unknown_assets =~= from.unknown_assets + unknown_asset_calls(calls));
    } else {
        let earlier = calls.drop_last();
        law_ledgers_serve_what_is_recorded(from, earlier, reached(from, earlier));
        assert(to.ledgers =~= from.ledgers + currency_calls(calls));
        assert(to.unknown_assets =~= from.unknown_assets + unknown_asset_calls(calls));
    }
}

/// Two records in a row are as good as one: the histories that both have made
/// are those that the whole has made.
pub proof fn law_records_add_up<AccountId, CurrencyId, Balance, Handler>(
    from: Histories<AccountId, CurrencyId, Balance, Handler>,
    a: Seq<ServiceCall<AccountId, CurrencyId, Balance, Handler>>,
    b: Seq<ServiceCall<AccountId, CurrencyId, Balance, Handler>>,
    to: Histories<AccountId, CurrencyId, Balance, Handler>,
)
    ensures
        grew(from, a + b, to) <==> grew(from, a, reached(from, a)) && grew(
            reached(from, a),
            b,
            to,
        ),
        reached(from, a + b) == reached(reached(from, a), b),
    decreases b.len(),
{
    if b.len() == 0 {
        assert(a + b =~= a);
    } else {
        let earlier = b.drop_last();
        assert((a + b).drop_last() =~= a + earlier);
        assert((a + b).last() == b.last());
        law_records_add_up(from, a, earlier, reached(from, a + earlier));
    }
}

/// One call more in a stretch of a record.
proof fn lemma_next_served<AccountId, CurrencyId, Balance, Handler>(
    calls: Seq<ServiceCall<AccountId, CurrencyId, Balance, Handler>>,
    n: int,
)
    requires
        0 <= n < calls.len(),
    ensures
        currency_calls(calls.take(n + 1)) == match calls[n] {
            ServiceCall::Currency(served) => currency_calls(calls.take(n)).push(served),
            _ => currency_calls(calls.take(n)),
        },
        unknown_asset_calls(calls.take(n + 1)) == match calls[n] {
            ServiceCall::Unknown(served) => unknown_asset_calls(calls.take(n)).push(served),
            _ => unknown_asset_calls(calls.take(n)),
        },
{
    assert(calls.take(n + 1).drop_last() =~= calls.take(n));
    assert(calls.take(n + 1).last() == calls[n]);
}

/// What is handed out for an asset, minted or withdrawn, is issued exactly once
/// and in full when it is deposited: if the account, the currency and the amount
/// are known and the currency's ledger agrees, the deposit succeeds, and over
/// both calls the ledgers have been asked for this one deposit and no other. The
/// register may be any that holds what was handed out.
pub proof fn law_receipt_is_issued_once<AccountId, CurrencyId, Balance, Handler>(
    asset: Asset,
    source: Location,
    holding: EagerHolding,
    first_calls: Seq<ServiceCall<AccountId, CurrencyId, Balance, Handler>>,
    what: AssetsInHolding,
    location: Location,
    runs: Seq<Seq<ServiceCall<AccountId, CurrencyId, Balance, Handler>>>,
    r: Result<(), (AssetsInHolding, XcmError)>,
    who: AccountId,
    currency_id: CurrencyId,
    amount: Balance,
) where Handler: OnDepositFail<CurrencyId, AccountId, Balance>
    requires
        minting(asset, first_calls, Ok(())) || withdrawal(asset, source, first_calls, Ok(())),
        holding.is_for(asset),
        held(what) == holding.assets(),
        register_deposit(what, location, runs, r),
        joined(runs)[0] == (ServiceCall::<AccountId, CurrencyId, Balance, Handler>::AccountOf {
            location,
            reply: Some(who),
        }),
        joined(runs)[1] == (ServiceCall::<AccountId, CurrencyId, Balance, Handler>::CurrencyOf {
            asset,
            reply: Some(currency_id),
        }),
        joined(runs)[2] == (ServiceCall::<AccountId, CurrencyId, Balance, Handler>::AmountOf {
            asset,
            reply: Some(amount),
        }),
        joined(runs)[3] matches ServiceCall::Currency(CurrencyCall::Deposit { reply, .. })
            ==> reply == Ok::<(), DispatchError>(()),
    ensures
        r is Ok,
        forall|i: int| 0 <= i < first_calls.len() ==> !is_deposit(#[trigger] first_calls[i]),
        currency_calls(joined(runs)) == seq![
            CurrencyCall::Deposit { currency_id, who, amount, reply: Ok(()) },
        ],
        unknown_asset_calls(joined(runs)).len() == 0,
{
    if withdrawal(asset, source, first_calls, Ok(())) {
        law_known_assets_come_from_currencies(asset, source, first_calls, Ok(()));
    }
    assert(entries(what).len() == 1) by {
        assert(held(what).len() == 1);
    }
    assert(entry_asset(entries(what)[0]) == asset) by {
        assert(held(what)[0] == asset);
    }
    assert(runs.len() == 1);
    let calls = joined(runs);
    assert(calls =~= runs[0]) by {
        assert(joined(runs.drop_last()).len() == 0);
    }
    let deposit = if r is Ok {
        calls.drop_last()
    } else {
        calls
    };
    assert(deposit.skip(3)[0] == calls[3]);
    assert(calls.len() == 5);
    let served = calls[3]->Currency_0;
    assert(served == CurrencyCall::<AccountId, CurrencyId, Balance>::Deposit {
        currency_id,
        who,
        amount,
        reply: Ok(()),
    });
    lemma_next_served(calls, 0);
    lemma_next_served(calls, 1);
    lemma_next_served(calls, 2);
    lemma_next_served(calls, 3);
    lemma_next_served(calls, 4);
    assert(calls.take(5) =~= calls);
    assert(currency_calls(calls) =~= seq![served]);
}

/// The currency and the amount of each deposit that the currencies' ledgers
/// refused.
pub open spec fn refusals<AccountId, CurrencyId, Balance, Handler>(
    calls: Seq<ServiceCall<AccountId, CurrencyId, Balance, Handler>>,
) -> Seq<(CurrencyId, Balance)>
    decreases calls.len(),
{
    if calls.len() == 0 {
        Seq::empty()
    } else {
        let earlier = refusals(calls.drop_last());
        match calls.last() {
            ServiceCall::Currency(
                CurrencyCall::Deposit { currency_id, amount, reply: Err(_), .. },
            ) => earlier.push((currency_id, amount)),
            _ => earlier,
        }
    }
}

/// Whether the calls are deposits of the given amounts to the given accounts, one
/// for each.
pub open spec fn deposits_to<AccountId, CurrencyId, Balance>(
    calls: Seq<CurrencyCall<AccountId, CurrencyId, Balance>>,
    accounts: Seq<AccountId>,
    amounts: Seq<(CurrencyId, Balance)>,
) -> bool {
    &&& calls.len() == accounts.len() == amounts.len()
    &&& forall|i: int|
        0 <= i < calls.len() ==> {
            &&& #[trigger] calls[i] matches CurrencyCall::Deposit {
                currency_id,
                who,
                amount,
                ..
            }
            &&& who == accounts[i]
            &&& currency_id == amounts[i].0
            &&& amount == amounts[i].1
        }
}

/// Whether a call to the currencies' ledgers is a deposit that they refused.
pub open spec fn refused<AccountId, CurrencyId, Balance>(
    call: CurrencyCall<AccountId, CurrencyId, Balance>,
) -> bool {
    call matches CurrencyCall::Deposit { reply, .. } && reply is Err
}

/// Whether a call is a deposit that the ledger of unknown assets refused.
pub open spec fn unknown_refused<AccountId, CurrencyId, Balance, Handler>(
    call: ServiceCall<AccountId, CurrencyId, Balance, Handler>,
) -> bool {
    call matches ServiceCall::Unknown(UnknownAssetCall::Deposit { reply, .. }) && reply is Err
}

/// One call more in a stretch of a record.
proof fn lemma_next_call<AccountId, CurrencyId, Balance, Handler>(
    from: Histories<AccountId, CurrencyId, Balance, Handler>,
    calls: Seq<ServiceCall<AccountId, CurrencyId, Balance, Handler>>,
    n: int,
)
    requires
        0 <= n < calls.len(),
    ensures
        reached(from, calls.take(n + 1)) == reached(from, calls.take(n)).after(calls[n]),
        linked(from, calls.take(n + 1)) <==> linked(from, calls.take(n)) && reached(
            from,
            calls.take(n),
        ).admits(calls[n]),
        refusals(calls.take(n + 1)) == match calls[n] {
            ServiceCall::Currency(
                CurrencyCall::Deposit { currency_id, amount, reply: Err(_), .. },
            ) => refusals(calls.take(n)).push((currency_id, amount)),
            _ => refusals(calls.take(n)),
        },
{
    assert(calls.take(n + 1).drop_last() =~= calls.take(n));
    assert(calls.take(n + 1).last() == calls[n]);
}

/// A currency that the ledgers refuse for the account it is meant for is deposited
/// in full to the alternative account, and the deposit of the asset succeeds
/// exactly if this second deposit does. What is not refused, and what no currency
/// stands for, leaves the alternative account alone.
pub proof fn law_refused_currency_goes_to_the_alternative<
    AccountId,
    CurrencyId: Copy,
    Balance: Copy,
    Alternative: Get<AccountId>,
    MultiCurrencyT: MultiCurrency<AccountId, CurrencyId, Balance>,
>(
    asset: Asset,
    location: Location,
    from: Histories<
        AccountId,
        CurrencyId,
        Balance,
        DepositToAlternative<Alternative, MultiCurrencyT, CurrencyId, AccountId, Balance>,
    >,
    calls: Seq<
        ServiceCall<
            AccountId,
            CurrencyId,
            Balance,
            DepositToAlternative<Alternative, MultiCurrencyT, CurrencyId, AccountId, Balance>,
        >,
    >,
    to: Histories<
        AccountId,
        CurrencyId,
        Balance,
        DepositToAlternative<Alternative, MultiCurrencyT, CurrencyId, AccountId, Balance>,
    >,
    r: Result<(), XcmErrorView>,
)
    requires
        deposit_of(asset, location, calls, r),
        grew(from, calls, to),
    ensures
        match calls[3] {
            ServiceCall::Currency(
                CurrencyCall::Deposit { currency_id, amount, reply: Err(_), .. },
            ) => {
                &&& DepositToAlternative::redirected(
                    from.handler,
                    currency_id,
                    amount,
                    to.handler,
                    r,
                )
                &&& r is Err <==> refused(to.handler.ledgers().last())
                &&& refusals(calls) == seq![(currency_id, amount)]
            },
            ServiceCall::Unknown(UnknownAssetCall::Deposit { reply, .. }) => {
                &&& to.handler == from.handler
                &&& r == ledger_status(reply)
                &&& refusals(calls).len() == 0
            },
            _ => {
                &&& to.handler == from.handler
                &&& r is Ok
                &&& refusals(calls).len() == 0
            },
        },
{
    let rest = calls.skip(3);
    assert(rest[0] == calls[3]);
    assert(rest.len() == 2 ==> rest[1] == calls[4]);
    assert(calls.take(calls.len() as int) =~= calls);
    lemma_next_call(from, calls, 0);
    lemma_next_call(from, calls, 1);
    lemma_next_call(from, calls, 2);
    lemma_next_call(from, calls, 3);
    if calls.len() == 5 {
        lemma_next_call(from, calls, 4);
    }
    if let ServiceCall::Currency(
        CurrencyCall::Deposit { currency_id, amount, reply: Err(_), .. },
    ) = calls[3] {
        assert(refusals(calls) =~= seq![(currency_id, amount)]);
    }
}

proof fn lemma_refusals_join<AccountId, CurrencyId, Balance, Handler>(
    a: Seq<ServiceCall<AccountId, CurrencyId, Balance, Handler>>,
    b: Seq<ServiceCall<AccountId, CurrencyId, Balance, Handler>>,
)
    ensures
        refusals(a + b) == refusals(a) + refusals(b),
    decreases b.len(),
{
    if b.len() == 0 {
        assert(a + b =~= a);
        assert(refusals(a) + refusals(b) =~= refusals(a));
    } else {
        assert((a + b).drop_last() =~= a + b.drop_last());
        lemma_refusals_join(a, b.drop_last());
        assert(refusals(a + b) =~= refusals(a) + refusals(b));
    }
}

/// The calls that a handler's ledgers were asked to serve between two points.
pub open spec fn second_deposits<
    AccountId,
    CurrencyId: Copy,
    Balance: Copy,
    Alternative: Get<AccountId>,
    MultiCurrencyT: MultiCurrency<AccountId, CurrencyId, Balance>,
>(
    before: DepositToAlternative<Alternative, MultiCurrencyT, CurrencyId, AccountId, Balance>,
    after: DepositToAlternative<Alternative, MultiCurrencyT, CurrencyId, AccountId, Balance>,
) -> Seq<CurrencyCall<AccountId, CurrencyId, Balance>> {
    after.ledgers().skip(before.ledgers().len() as int)
}

/// Whether, between two points, a handler has deposited the given amounts to the
/// alternative account, each in full and once, and has done nothing else.
pub open spec fn all_redirected<
    AccountId,
    CurrencyId: Copy,
    Balance: Copy,
    Alternative: Get<AccountId>,
    MultiCurrencyT: MultiCurrency<AccountId, CurrencyId, Balance>,
>(
    before: DepositToAlternative<Alternative, MultiCurrencyT, CurrencyId, AccountId, Balance>,
    amounts: Seq<(CurrencyId, Balance)>,
    after: DepositToAlternative<Alternative, MultiCurrencyT, CurrencyId, AccountId, Balance>,
) -> bool {
    &&& before.accounts().is_prefix_of(after.accounts())
    &&& before.ledgers().is_prefix_of(after.ledgers())
    &&& deposits_to(
        second_deposits(before, after),
        after.accounts().skip(before.accounts().len() as int),
        amounts,
    )
}

/// One redirection more is one amount more.
proof fn lemma_one_more_redirected<
    AccountId,
    CurrencyId: Copy,
    Balance: Copy,
    Alternative: Get<AccountId>,
    MultiCurrencyT: MultiCurrency<AccountId, CurrencyId, Balance>,
>(
    before: DepositToAlternative<Alternative, MultiCurrencyT, CurrencyId, AccountId, Balance>,
    amounts: Seq<(CurrencyId, Balance)>,
    between: DepositToAlternative<Alternative, MultiCurrencyT, CurrencyId, AccountId, Balance>,
    currency_id: CurrencyId,
    amount: Balance,
    after: DepositToAlternative<Alternative, MultiCurrencyT, CurrencyId, AccountId, Balance>,
    reply: Result<(), XcmErrorView>,
)
    requires
        all_redirected(before, amounts, between),
        DepositToAlternative::redirected(
            between,
            currency_id,
            amount,
            after,
            reply,
        ),
    ensures
        all_redirected(before, amounts.push((currency_id, amount)), after),
        second_deposits(before, after) == second_deposits(before, between).push(
            after.ledgers().last(),
        ),
{
    assert(after.accounts() =~= between.accounts().push(after.accounts().last()));
    assert(after.ledgers() =~= between.ledgers().push(after.ledgers().last()));
    assert(second_deposits(before, after) =~= second_deposits(before, between).push(
        after.ledgers().last(),
    ));
    assert(after.accounts().skip(before.accounts().len() as int)
        =~= between.accounts().skip(before.accounts().len() as int).push(
        after.accounts().last(),
    ));
}

/// One asset more, after a stretch in which every refusal was redirected.
proof fn lemma_next_run_redirects<
    AccountId,
    CurrencyId: Copy,
    Balance: Copy,
    Alternative: Get<AccountId>,
    MultiCurrencyT: MultiCurrency<AccountId, CurrencyId, Balance>,
>(
    asset: Asset,
    location: Location,
    from: Histories<
        AccountId,
        CurrencyId,
        Balance,
        DepositToAlternative<Alternative, MultiCurrencyT, CurrencyId, AccountId, Balance>,
    >,
    earlier: Seq<
        ServiceCall<
            AccountId,
            CurrencyId,
            Balance,
            DepositToAlternative<Alternative, MultiCurrencyT, CurrencyId, AccountId, Balance>,
        >,
    >,
    calls: Seq<
        ServiceCall<
            AccountId,
            CurrencyId,
            Balance,
            DepositToAlternative<Alternative, MultiCurrencyT, CurrencyId, AccountId, Balance>,
        >,
    >,
    to: Histories<
        AccountId,
        CurrencyId,
        Balance,
        DepositToAlternative<Alternative, MultiCurrencyT, CurrencyId, AccountId, Balance>,
    >,
    r: Result<(), XcmErrorView>,
)
    requires
        deposit_of(asset, location, calls, r),
        grew(from, earlier + calls, to),
        all_redirected(from.handler, refusals(earlier), reached(from, earlier).handler),
        forall|i: int|
            0 <= i < second_deposits(from.handler, reached(from, earlier).handler).len()
                ==> !refused(
                #[trigger] second_deposits(from.handler, reached(from, earlier).handler)[i],
            ),
    ensures
        all_redirected(from.handler, refusals(earlier + calls), to.handler),
        ({
            let second = second_deposits(from.handler, to.handler);
            &&& forall|i: int|
                0 <= i < second.len() && refused(#[trigger] second[i]) ==> i == second.len() - 1
                    && r is Err
            &&& r is Err <==> {
                ||| second.len() > 0 && refused(second.last())
                ||| unknown_refused(calls[3])
            }
        }),
{
    let between = reached(from, earlier);
    law_records_add_up(from, earlier, calls, to);
    law_refused_currency_goes_to_the_alternative(asset, location, between, calls, to, r);
    lemma_refusals_join(earlier, calls);
    match calls[3] {
        ServiceCall::Currency(
            CurrencyCall::Deposit { currency_id, amount, reply: Err(_), .. },
        ) => {
            lemma_one_more_redirected(
                from.handler,
                refusals(earlier),
                between.handler,
                currency_id,
                amount,
                to.handler,
                r,
            );
            assert(refusals(earlier + calls) =~= refusals(earlier).push((currency_id, amount)));
            let fewer = second_deposits(from.handler, between.handler);
            let second = second_deposits(from.handler, to.handler);
            assert forall|i: int| 0 <= i < second.len() && refused(#[trigger] second[i]) implies i
                == second.len() - 1 && r is Err by {
                if i < second.len() - 1 {
                    assert(second[i] == fewer[i]);
                }
            }
        },
        _ => {
            assert(refusals(earlier + calls) =~= refusals(earlier));
        },
    }
}

/// Settling an entry afterwards changes nothing that the services have kept.
proof fn lemma_settling_keeps<AccountId, CurrencyId, Balance, Handler>(
    from: Histories<AccountId, CurrencyId, Balance, Handler>,
    calls: Seq<ServiceCall<AccountId, CurrencyId, Balance, Handler>>,
    to: Histories<AccountId, CurrencyId, Balance, Handler>,
)
    requires
        grew(from, calls, to),
        calls.len() > 0,
        calls.last() is Settle,
    ensures
        grew(from, calls.drop_last(), to),
        refusals(calls) == refusals(calls.drop_last()),
{
}

proof fn lemma_runs_redirect<
    AccountId,
    CurrencyId: Copy,
    Balance: Copy,
    Alternative: Get<AccountId>,
    MultiCurrencyT: MultiCurrency<AccountId, CurrencyId, Balance>,
>(
    held_entries: Seq<AssetsInHolding>,
    location: Location,
    from: Histories<
        AccountId,
        CurrencyId,
        Balance,
        DepositToAlternative<Alternative, MultiCurrencyT, CurrencyId, AccountId, Balance>,
    >,
    runs: Seq<
        Seq<
            ServiceCall<
                AccountId,
                CurrencyId,
                Balance,
                DepositToAlternative<Alternative, MultiCurrencyT, CurrencyId, AccountId, Balance>,
            >,
        >,
    >,
    to: Histories<
        AccountId,
        CurrencyId,
        Balance,
        DepositToAlternative<Alternative, MultiCurrencyT, CurrencyId, AccountId, Balance>,
    >,
)
    requires
        forall|i: int|
            0 <= i < runs.len() ==> settled(held_entries[i], location, #[trigger] runs[i]),
        grew(from, joined(runs), to),
    ensures
        all_redirected(from.handler, refusals(joined(runs)), to.handler),
        forall|i: int|
            0 <= i < second_deposits(from.handler, to.handler).len() ==> !refused(
                #[trigger] second_deposits(from.handler, to.handler)[i],
            ),
    decreases runs.len(),
{
    if runs.len() > 0 {
        let earlier = runs.drop_last();
        let run = runs.last();
        let entry = held_entries[runs.len() - 1];
        assert(settled(entry, location, run)) by {
            assert(run == runs[runs.len() - 1]);
        }
        assert forall|i: int| 0 <= i < earlier.len() implies settled(
            held_entries[i],
            location,
            #[trigger] earlier[i],
        ) by {
            assert(earlier[i] == runs[i]);
        }
        law_records_add_up(from, joined(earlier), run, to);
        lemma_runs_redirect(
            held_entries,
            location,
            from,
            earlier,
            reached(from, joined(earlier)),
        );
        lemma_settling_keeps(from, joined(runs), to);
        assert(joined(runs).drop_last() =~= joined(earlier) + run.drop_last());
        lemma_next_run_redirects(
            entry_asset(entry),
            location,
            from,
            joined(earlier),
            run.drop_last(),
            to,
            Ok(()),
        );
    }
}

/// However many currencies of a register the ledgers refuse, each is deposited in
/// full to the alternative account, once and in the same order, and nothing else
/// is. The whole deposit fails exactly if the last of these second deposits was
/// refused as well, or the ledger of unknown assets refused; no earlier one was.
pub proof fn law_alternative_takes_every_refusal<
    AccountId,
    CurrencyId: Copy,
    Balance: Copy,
    Alternative: Get<AccountId>,
    MultiCurrencyT: MultiCurrency<AccountId, CurrencyId, Balance>,
>(
    what: AssetsInHolding,
    location: Location,
    from: Histories<
        AccountId,
        CurrencyId,
        Balance,
        DepositToAlternative<Alternative, MultiCurrencyT, CurrencyId, AccountId, Balance>,
    >,
    runs: Seq<
        Seq<
            ServiceCall<
                AccountId,
                CurrencyId,
                Balance,
                DepositToAlternative<Alternative, MultiCurrencyT, CurrencyId, AccountId, Balance>,
            >,
        >,
    >,
    to: Histories<
        AccountId,
        CurrencyId,
        Balance,
        DepositToAlternative<Alternative, MultiCurrencyT, CurrencyId, AccountId, Balance>,
    >,
    r: Result<(), (AssetsInHolding, XcmError)>,
)
    requires
        register_deposit(what, location, runs, r),
        grew(from, joined(runs), to),
    ensures
        all_redirected(from.handler, refusals(joined(runs)), to.handler),
        ({
            let second = second_deposits(from.handler, to.handler);
            &&& forall|i: int|
                0 <= i < second.len() && refused(#[trigger] second[i]) ==> i == second.len() - 1
                    && r is Err
            &&& r is Err <==> {
                ||| second.len() > 0 && refused(second.last())
                ||| runs.len() > 0 && unknown_refused(runs.last()[3])
            }
        }),
{
    match r {
        Ok(()) => {
            lemma_runs_redirect(entries(what), location, from, runs, to);
            if runs.len() > 0 {
                let calls = runs.last().drop_last();
                assert(settled(entries(what)[runs.len() - 1], location, runs[runs.len() - 1]));
                assert(calls.skip(3)[0] == runs.last()[3]);
            }
        },
        Err((_, error)) => {
            let earlier = runs.drop_last();
            assert forall|i: int| 0 <= i < earlier.len() implies settled(
                entries(what)[i],
                location,
                #[trigger] earlier[i],
            ) by {
                assert(earlier[i] == runs[i]);
            }
            law_records_add_up(from, joined(earlier), runs.last(), to);
            lemma_runs_redirect(
                entries(what),
                location,
                from,
                earlier,
                reached(from, joined(earlier)),
            );
            lemma_next_run_redirects(
                entry_asset(entries(what)[runs.len() - 1]),
                location,
                from,
                joined(earlier),
                runs.last(),
                to,
                Err(error@),
            );
        },
    }
}

/// Of assets that were asked about one by one, the deposits that the currencies'
/// ledgers are due: one for each asset whose account, currency and amount were all
/// found.
pub open spec fn currency_share<AccountId, CurrencyId, Balance>(
    accounts: Seq<(Location, Option<AccountId>)>,
    currencies: Seq<(Asset, Option<CurrencyId>)>,
    amounts: Seq<(Asset, Option<Balance>)>,
) -> Seq<(CurrencyId, AccountId, Balance)>
    decreases accounts.len(),
{
    if accounts.len() == 0 {
        Seq::empty()
    } else {
        let earlier = currency_share(
            accounts.drop_last(),
            currencies.drop_last(),
            amounts.drop_last(),
        );
        match (accounts.last().1, currencies.last().1, amounts.last().1) {
            (Some(who), Some(currency_id), Some(amount)) => earlier.push(
                (currency_id, who, amount),
            ),
            _ => earlier,
        }
    }
}

/// Of assets that were asked about one by one, those that the ledger of unknown
/// assets is due: each whose account, currency or amount was not found.
pub open spec fn unknown_share<AccountId, CurrencyId, Balance>(
    assets: Seq<Asset>,
    accounts: Seq<(Location, Option<AccountId>)>,
    currencies: Seq<(Asset, Option<CurrencyId>)>,
    amounts: Seq<(Asset, Option<Balance>)>,
) -> Seq<Asset>
    decreases accounts.len(),
{
    if accounts.len() == 0 {
        Seq::empty()
    } else {
        let earlier = unknown_share(
            assets.drop_last(),
            accounts.drop_last(),
            currencies.drop_last(),
            amounts.drop_last(),
        );
        if accounts.last().1 is Some && currencies.last().1 is Some && amounts.last().1 is Some {
            earlier
        } else {
            earlier.push(assets.last())
        }
    }
}

/// What was added to a history between two points.
pub open spec fn since<T>(before: Seq<T>, after: Seq<T>) -> Seq<T> {
    after.skip(before.len() as int)
}

/// Whether, between two points, each of the assets was asked about at the location,
/// in turn, and went to the ledger that is due it: a known one to the currencies'
/// ledgers, to the account, in the currency and by the amount that were found for
/// it; any other, as it is, to the ledger of unknown assets at the location.
pub open spec fn handed_over<AccountId, CurrencyId, Balance, Handler>(
    assets: Seq<Asset>,
    location: Location,
    before: Histories<AccountId, CurrencyId, Balance, Handler>,
    after: Histories<AccountId, CurrencyId, Balance, Handler>,
) -> bool {
    let accounts = since(before.accounts, after.accounts);
    let currencies = since(before.currencies, after.currencies);
    let amounts = since(before.amounts, after.amounts);
    let ledgers = since(before.ledgers, after.ledgers);
    let unknown_assets = since(before.unknown_assets, after.unknown_assets);
    let known = currency_share(accounts, currencies, amounts);
    let unknown = unknown_share(assets, accounts, currencies, amounts);
    &&& before.accounts.is_prefix_of(after.accounts)
    &&& before.currencies.is_prefix_of(after.currencies)
    &&& before.amounts.is_prefix_of(after.amounts)
    &&& before.ledgers.is_prefix_of(after.ledgers)
    &&& before.unknown_assets.is_prefix_of(after.unknown_assets)
    &&& accounts.len() == currencies.len() == amounts.len() == assets.len()
    &&& forall|i: int| 0 <= i < assets.len() ==> (#[trigger] accounts[i]).0 == location
    &&& forall|i: int| 0 <= i < assets.len() ==> (#[trigger] currencies[i]).0 == assets[i]
    &&& forall|i: int| 0 <= i < assets.len() ==> (#[trigger] amounts[i]).0 == assets[i]
    &&& ledgers.len() == known.len()
    &&& forall|i: int|
        0 <= i < known.len() ==> {
            &&& #[trigger] ledgers[i] matches CurrencyCall::Deposit {
                currency_id,
                who,
                amount,
                ..
            }
            &&& (currency_id, who, amount) == known[i]
        }
    &&& unknown_assets.len() == unknown.len()
    &&& forall|i: int|
        0 <= i < unknown.len() ==> {
            &&& #[trigger] unknown_assets[i] matches UnknownAssetCall::Deposit {
                asset,
                location: place,
                ..
            }
            &&& asset == unknown[i]
            &&& place == location
        }
}

/// One asset more.
proof fn lemma_next_handed_over<AccountId, CurrencyId, Balance, Handler>(
    assets: Seq<Asset>,
    location: Location,
    from: Histories<AccountId, CurrencyId, Balance, Handler>,
    between: Histories<AccountId, CurrencyId, Balance, Handler>,
    asset: Asset,
    calls: Seq<ServiceCall<AccountId, CurrencyId, Balance, Handler>>,
    to: Histories<AccountId, CurrencyId, Balance, Handler>,
    r: Result<(), XcmErrorView>,
) where Handler: OnDepositFail<CurrencyId, AccountId, Balance>
    requires
        handed_over(assets, location, from, between),
        deposit_of(asset, location, calls, r),
        grew(between, calls, to),
    ensures
        handed_over(assets.push(asset), location, from, to),
{
    let rest = calls.skip(3);
    assert(rest[0] == calls[3]);
    assert(rest.len() == 2 ==> rest[1] == calls[4]);
    assert(calls.take(calls.len() as int) =~= calls);
    lemma_next_call(between, calls, 0);
    lemma_next_call(between, calls, 1);
    lemma_next_call(between, calls, 2);
    lemma_next_call(between, calls, 3);
    if calls.len() == 5 {
        lemma_next_call(between, calls, 4);
    }
    let accounts = since(from.accounts, to.accounts);
    let currencies = since(from.currencies, to.currencies);
    let amounts = since(from.amounts, to.amounts);
    assert(accounts =~= since(from.accounts, between.accounts).push(to.accounts.last()));
    assert(currencies =~= since(from.currencies, between.currencies).push(to.currencies.last()));
    assert(amounts =~= since(from.amounts, between.amounts).push(to.amounts.last()));
    assert(accounts.drop_last() =~= since(from.accounts, between.accounts));
    assert(currencies.drop_last() =~= since(from.currencies, between.currencies));
    assert(amounts.drop_last() =~= since(from.amounts, between.amounts));
    assert(assets.push(asset).drop_last() =~= assets);
    if to.ledgers.len() > between.ledgers.len() {
        assert(since(from.ledgers, to.ledgers) =~= since(from.ledgers, between.ledgers).push(
            to.ledgers.last(),
        ));
    } else {
        assert(since(from.unknown_assets, to.unknown_assets) =~= since(
            from.unknown_assets,
            between.unknown_assets,
        ).push(to.unknown_assets.last()));
    }
}

proof fn lemma_runs_hand_over<AccountId, CurrencyId, Balance, Handler>(
    held_entries: Seq<AssetsInHolding>,
    location: Location,
    from: Histories<AccountId, CurrencyId, Balance, Handler>,
    runs: Seq<Seq<ServiceCall<AccountId, CurrencyId, Balance, Handler>>>,
    to: Histories<AccountId, CurrencyId, Balance, Handler>,
) where Handler: OnDepositFail<CurrencyId, AccountId, Balance>
    requires
        runs.len() <= held_entries.len(),
        forall|i: int|
            0 <= i < runs.len() ==> settled(held_entries[i], location, #[trigger] runs[i]),
        grew(from, joined(runs), to),
    ensures
        handed_over(
            Seq::new(runs.len(), |i: int| held(held_entries[i])[0]),
            location,
            from,
            to,
        ),
    decreases runs.len(),
{
    let assets = Seq::new(runs.len(), |i: int| held(held_entries[i])[0]);
    if runs.len() > 0 {
        let earlier = runs.drop_last();
        let run = runs.last();
        let entry = held_entries[runs.len() - 1];
        assert(settled(entry, location, run)) by {
            assert(run == runs[runs.len() - 1]);
        }
        assert forall|i: int| 0 <= i < earlier.len() implies settled(
            held_entries[i],
            location,
            #[trigger] earlier[i],
        ) by {
            assert(earlier[i] == runs[i]);
        }
        let between = reached(from, joined(earlier));
        law_records_add_up(from, joined(earlier), run, to);
        lemma_runs_hand_over(held_entries, location, from, earlier, between);
        lemma_settling_keeps(between, run, to);
        let fewer = Seq::new(earlier.len(), |i: int| held(held_entries[i])[0]);
        lemma_next_handed_over(
            fewer,
            location,
            from,
            between,
            held(entry)[0],
            run.drop_last(),
            to,
            Ok(()),
        );
        assert(assets =~= fewer.push(held(entry)[0]));
    }
}

/// What a register held is what the ledgers were handed, asset by asset, up to the
/// one that failed, and what is handed back is the rest from that one on. Success
/// means that everything was handed over.
pub proof fn law_register_is_handed_over<AccountId, CurrencyId, Balance, Handler>(
    what: AssetsInHolding,
    location: Location,
    from: Histories<AccountId, CurrencyId, Balance, Handler>,
    runs: Seq<Seq<ServiceCall<AccountId, CurrencyId, Balance, Handler>>>,
    to: Histories<AccountId, CurrencyId, Balance, Handler>,
    r: Result<(), (AssetsInHolding, XcmError)>,
) where Handler: OnDepositFail<CurrencyId, AccountId, Balance>
    requires
        register_deposit(what, location, runs, r),
        grew(from, joined(runs), to),
    ensures
        ({
            let tried = to.accounts.len() - from.accounts.len();
            &&& 0 <= tried <= held(what).len()
            &&& handed_over(held(what).take(tried), location, from, to)
            &&& match r {
                Ok(()) => tried == held(what).len(),
                Err((undeposited, _)) => {
                    &&& tried >= 1
                    &&& held(undeposited) == held(what).skip(tried - 1)
                    &&& entries(undeposited) == entries(what).skip(tried - 1)
                },
            }
        }),
{
    match r {
        Ok(()) => {
            lemma_runs_hand_over(entries(what), location, from, runs, to);
            assert(Seq::new(runs.len(), |i: int| held(entries(what)[i])[0]) =~= held(what).take(
                runs.len() as int,
            ));
        },
        Err((_, error)) => {
            let earlier = runs.drop_last();
            let between = reached(from, joined(earlier));
            let entry = entries(what)[runs.len() - 1];
            assert forall|i: int| 0 <= i < earlier.len() implies settled(
                entries(what)[i],
                location,
                #[trigger] earlier[i],
            ) by {
                assert(earlier[i] == runs[i]);
            }
            law_records_add_up(from, joined(earlier), runs.last(), to);
            lemma_runs_hand_over(entries(what), location, from, earlier, between);
            let fewer = Seq::new(earlier.len(), |i: int| held(entries(what)[i])[0]);
            lemma_next_handed_over(
                fewer,
                location,
                from,
                between,
                held(entry)[0],
                runs.last(),
                to,
                Err(error@),
            );
            assert(fewer.push(held(entry)[0]) =~= held(what).take(runs.len() as int));
        },
    }
}

} // verus!
