//! Depositing, withdrawing, minting and transferring.
use crate::deposit_fail::OnDepositFail;
use crate::eager_credit::{eager_holding, EagerHolding};
use crate::error::{error_view, known, ledger_status, report, transact_error_view, Error};
use crate::holding::{
    added, entries, entry_asset, first_asset, held, into_entries, new_register, same_order,
    subsume_assets,
};
use crate::services::{
    grew, stays_true, Convert, ConvertLocation, CurrencyCall, Histories, MatchesFungible,
    MultiCurrency, ServiceCall, Services, UnknownAsset, UnknownAssetCall,
};
use crate::types::{same_place, status, Asset, ExistenceRequirement, XcmError, XcmErrorView};
use staging_xcm::v5::{Location, XcmContext};
use staging_xcm_executor::AssetsInHolding;
use vstd::prelude::*;

verus! {

/// Whether the calls are those of issuing `amount` of a currency to `who`, with
/// the given outcome. What the ledger refuses goes to the failure handler,
/// whose answer then is the outcome: an answer that the handler's own method gives
/// in the state that it was in.
pub open spec fn currency_deposit<AccountId, CurrencyId, Balance, Handler: OnDepositFail<
    CurrencyId,
    AccountId,
    Balance,
>>(
    currency_id: CurrencyId,
    who: AccountId,
    amount: Balance,
    calls: Seq<ServiceCall<AccountId, CurrencyId, Balance, Handler>>,
    r: Result<(), XcmErrorView>,
) -> bool {
    &&& calls.len() >= 1
    &&& calls[0] matches ServiceCall::Currency(
        CurrencyCall::Deposit { currency_id: c, who: w, amount: a, reply },
    )
    &&& c == currency_id
    &&& w == who
    &&& a == amount
    &&& match reply {
        Ok(()) => calls.len() == 1 && r == Ok::<(), XcmErrorView>(()),
        Err(err) => {
            &&& calls.len() == 2
            &&& calls[1] matches ServiceCall::OnCurrencyFail {
                before,
                err: e,
                currency_id: c2,
                who: w2,
                amount: a2,
                after,
                reply: answer,
            }
            &&& e == err
            &&& c2 == currency_id
            &&& w2 == who
            &&& a2 == amount
            &&& r == status(answer)
            &&& exists|handler: &mut Handler|
                {
                    &&& #[trigger] call_ensures(
                        Handler::on_deposit_currency_fail,
                        (handler, err, currency_id, &who, amount),
                        answer,
                    )
                    &&& *handler == before
                }
            &&& Handler::answers_currency_fail(
                before,
                err,
                currency_id,
                who,
                amount,
                after,
                r,
            )
        },
    }
}

/// Whether the calls are those of putting an asset that no currency stands for
/// at a location, with the given outcome. What the ledger of unknown assets
/// refuses goes to the failure handler, whose answer then is the outcome: an answer
/// that the handler's own method gives in the state that it was in.
pub open spec fn unknown_deposit<AccountId, CurrencyId, Balance, Handler: OnDepositFail<
    CurrencyId,
    AccountId,
    Balance,
>>(
    asset: Asset,
    location: Location,
    calls: Seq<ServiceCall<AccountId, CurrencyId, Balance, Handler>>,
    r: Result<(), XcmErrorView>,
) -> bool {
    &&& calls.len() >= 1
    &&& calls[0] matches ServiceCall::Unknown(
        UnknownAssetCall::Deposit { asset: a, location: l, reply },
    )
    &&& a == asset
    &&& l == location
    &&& match reply {
        Ok(()) => calls.len() == 1 && r == Ok::<(), XcmErrorView>(()),
        Err(err) => {
            &&& calls.len() == 2
            &&& calls[1] matches ServiceCall::OnUnknownAssetFail {
                before,
                err: e,
                asset: a2,
                location: l2,
                after,
                reply: answer,
            }
            &&& e == err
            &&& a2 == asset
            &&& l2 == location
            &&& r == status(answer)
            &&& exists|handler: &mut Handler|
                {
                    &&& #[trigger] call_ensures(
                        Handler::on_deposit_unknown_asset_fail,
                        (handler, err, &asset, &location),
                        answer,
                    )
                    &&& *handler == before
                }
            &&& !Handler::answers_unknown_assets() ==> {
                &&& r == Err::<(), XcmErrorView>(transact_error_view(err))
                &&& after == before
            }
        },
    }
}

/// Whether the calls are those of depositing one asset at a location, with the
/// given outcome. The account, the currency and the amount are asked for. If
/// all three are known, the currency's ledger takes the deposit, else the ledger
/// of unknown assets does.
pub open spec fn deposit_of<AccountId, CurrencyId, Balance, Handler: OnDepositFail<
    CurrencyId,
    AccountId,
    Balance,
>>(
    asset: Asset,
    location: Location,
    calls: Seq<ServiceCall<AccountId, CurrencyId, Balance, Handler>>,
    r: Result<(), XcmErrorView>,
) -> bool {
    &&& calls.len() >= 3
    &&& calls[0] matches ServiceCall::AccountOf { location: l, reply: account }
    &&& calls[1] matches ServiceCall::CurrencyOf { asset: a1, reply: currency }
    &&& calls[2] matches ServiceCall::AmountOf { asset: a2, reply: balance }
    &&& l == location
    &&& a1 == asset
    &&& a2 == asset
    &&& match (account, currency, balance) {
        (Some(who), Some(currency_id), Some(amount)) => currency_deposit(
            currency_id,
            who,
            amount,
            calls.skip(3),
            r,
        ),
        _ => unknown_deposit(asset, location, calls.skip(3), r),
    }
}

/// The calls of several runs, one run after the other.
pub open spec fn joined<AccountId, CurrencyId, Balance, Handler>(
    runs: Seq<Seq<ServiceCall<AccountId, CurrencyId, Balance, Handler>>>,
) -> Seq<ServiceCall<AccountId, CurrencyId, Balance, Handler>>
    decreases runs.len(),
{
    if runs.len() == 0 {
        Seq::empty()
    } else {
        joined(runs.drop_last()) + runs.last()
    }
}

/// Whether the calls are those of depositing an entry of a holding register
/// with success: the asset is deposited, and then the entry is dropped.
pub open spec fn settled<AccountId, CurrencyId, Balance, Handler: OnDepositFail<
    CurrencyId,
    AccountId,
    Balance,
>>(
    entry: AssetsInHolding,
    location: Location,
    calls: Seq<ServiceCall<AccountId, CurrencyId, Balance, Handler>>,
) -> bool {
    &&& calls.len() >= 1
    &&& deposit_of(entry_asset(entry), location, calls.drop_last(), Ok(()))
    &&& calls.last() == (ServiceCall::<AccountId, CurrencyId, Balance, Handler>::Settle { entry })
}

/// Whether the runs are those of depositing the entries of a holding register
/// one by one until one of them fails. There is one run for each entry tried, in
/// the register's order. All but the last succeed, and the last does unless
/// there is a failure; then nothing more is tried.
pub open spec fn deposit_runs<AccountId, CurrencyId, Balance, Handler: OnDepositFail<
    CurrencyId,
    AccountId,
    Balance,
>>(
    held_entries: Seq<AssetsInHolding>,
    location: Location,
    runs: Seq<Seq<ServiceCall<AccountId, CurrencyId, Balance, Handler>>>,
    failure: Option<XcmErrorView>,
) -> bool {
    &&& runs.len() <= held_entries.len()
    &&& forall|i: int|
        0 <= i < runs.len() - (if failure is Some {
            1int
        } else {
            0int
        }) ==> settled(held_entries[i], location, #[trigger] runs[i])
    &&& match failure {
        None => runs.len() == held_entries.len(),
        Some(error) => {
            &&& runs.len() >= 1
            &&& deposit_of(
                entry_asset(held_entries[runs.len() - 1]),
                location,
                runs.last(),
                Err(error),
            )
        },
    }
}

/// The failure that an outcome of depositing a register reports.
pub open spec fn deposit_failure(r: Result<(), (AssetsInHolding, XcmError)>) -> Option<
    XcmErrorView,
> {
    match r {
        Ok(()) => None,
        Err((_, error)) => Some(error@),
    }
}

/// Whether the calls are those of depositing a whole register, with the given
/// outcome. Success means that every entry was deposited. On failure the entry
/// that failed and those after it are handed back, each as the very imbalance
/// that it was.
pub open spec fn register_deposit<AccountId, CurrencyId, Balance, Handler: OnDepositFail<
    CurrencyId,
    AccountId,
    Balance,
>>(
    what: AssetsInHolding,
    location: Location,
    runs: Seq<Seq<ServiceCall<AccountId, CurrencyId, Balance, Handler>>>,
    r: Result<(), (AssetsInHolding, XcmError)>,
) -> bool {
    &&& deposit_runs(entries(what), location, runs, deposit_failure(r))
    &&& held(what) == entries(what).map_values(|entry: AssetsInHolding| entry_asset(entry))
    &&& match r {
        Ok(()) => true,
        Err((undeposited, _)) => {
            &&& entries(undeposited) == entries(what).skip(runs.len() - 1)
            &&& held(undeposited) == held(what).skip(runs.len() - 1)
        },
    }
}

/// Whether no two of the single entries take the same place in a register.
spec fn apart(parts: Seq<AssetsInHolding>) -> bool {
    forall|i: int, j: int|
        0 <= i < parts.len() && 0 <= j < parts.len() && i != j ==> !#[trigger] same_place(
            entry_asset(parts[i]),
            entry_asset(parts[j]),
        )
}

/// Whether each of the registers holds a single asset.
spec fn one_asset_each(parts: Seq<AssetsInHolding>) -> bool {
    forall|i: int| 0 <= i < parts.len() ==> held(#[trigger] parts[i]).len() == 1
}

/// Parting a register into entries that hold its assets one by one.
proof fn lemma_entry_assets(register: AssetsInHolding, parts: Seq<AssetsInHolding>)
    requires
        parts.map_values(|entry: AssetsInHolding| held(entry)) == held(register).map_values(
            |asset: Asset| seq![asset],
        ),
    ensures
        one_asset_each(parts),
        held(register) == parts.map_values(|entry: AssetsInHolding| entry_asset(entry)),
{
    let of_parts = parts.map_values(|entry: AssetsInHolding| held(entry));
    let of_register = held(register).map_values(|asset: Asset| seq![asset]);
    assert(parts.len() == of_parts.len() == of_register.len() == held(register).len());
    assert forall|i: int| 0 <= i < parts.len() implies held(#[trigger] parts[i]) == seq![
        held(register)[i],
    ] by {
        assert(of_parts[i] == of_register[i]);
    }
    assert(held(register) =~= parts.map_values(|entry: AssetsInHolding| entry_asset(entry)));
}

/// A register that holds a stretch of another's entries takes the next one at
/// its end.
proof fn lemma_added_last(
    whole: AssetsInHolding,
    all: Seq<AssetsInHolding>,
    from: int,
    to: int,
    smaller: AssetsInHolding,
    larger: AssetsInHolding,
)
    requires
        0 <= from <= to < all.len(),
        held(whole) == all.map_values(|entry: AssetsInHolding| entry_asset(entry)),
        apart(all),
        entries(smaller) == all.subrange(from, to),
        held(smaller) == held(whole).subrange(from, to),
        added(smaller, all[to], larger),
        same_order(held(whole), held(larger)),
    ensures
        entries(larger) == all.subrange(from, to + 1),
        held(larger) == held(whole).subrange(from, to + 1),
{
    let asset = entry_asset(all[to]);
    let k = choose|k: int|
        {
            &&& 0 <= k <= held(smaller).len()
            &&& held(larger) == #[trigger] held(smaller).insert(k, asset)
            &&& entries(larger) == entries(smaller).insert(k, all[to])
        };
    if k < to - from {
        assert(held(whole)[to] == held(larger)[k]);
        assert(held(whole)[from + k] == held(larger)[k + 1]);
    }
    assert(entries(larger) =~= all.subrange(from, to + 1));
    assert(held(larger) =~= held(whole).subrange(from, to + 1));
}

/// The calls made since some point make up one more run.
proof fn lemma_joined_push<AccountId, CurrencyId, Balance, Handler>(
    earlier: Seq<ServiceCall<AccountId, CurrencyId, Balance, Handler>>,
    runs: Seq<Seq<ServiceCall<AccountId, CurrencyId, Balance, Handler>>>,
    calls: Seq<ServiceCall<AccountId, CurrencyId, Balance, Handler>>,
)
    requires
        (earlier + joined(runs)).is_prefix_of(calls),
    ensures
        ({
            let run = calls.skip((earlier + joined(runs)).len() as int);
            calls == earlier + joined(runs.push(run))
        }),
{
    let done = earlier + joined(runs);
    let run = calls.skip(done.len() as int);
    assert(runs.push(run).drop_last() =~= runs);
    assert(calls =~= done + run);
    assert(done + run =~= earlier + (joined(runs) + run));
}

/// Whether the calls are those of withdrawing an asset that is not known, with
/// the given outcome. The ledger of unknown assets is asked, and if it refuses,
/// what was not known is the failure.
pub open spec fn unknown_withdrawal<AccountId, CurrencyId, Balance, Handler>(
    asset: Asset,
    location: Location,
    failure: Error,
    calls: Seq<ServiceCall<AccountId, CurrencyId, Balance, Handler>>,
    r: Result<(), XcmErrorView>,
) -> bool {
    &&& calls.len() == 1
    &&& calls[0] matches ServiceCall::Unknown(
        UnknownAssetCall::Withdraw { asset: a, location: l, reply },
    )
    &&& a == asset
    &&& l == location
    &&& r == match reply {
        Ok(()) => Ok::<(), XcmErrorView>(()),
        Err(_) => Err(error_view(failure)),
    }
}

/// Whether the calls are those of withdrawing `amount` of a currency from `who`,
/// with the given outcome. The currency's ledger decides, and the account may be
/// closed by it.
pub open spec fn currency_withdrawal<AccountId, CurrencyId, Balance, Handler>(
    currency_id: CurrencyId,
    who: AccountId,
    amount: Balance,
    calls: Seq<ServiceCall<AccountId, CurrencyId, Balance, Handler>>,
    r: Result<(), XcmErrorView>,
) -> bool {
    &&& calls.len() == 1
    &&& calls[0] matches ServiceCall::Currency(
        CurrencyCall::Withdraw { currency_id: c, who: w, amount: a, existence_requirement, reply },
    )
    &&& c == currency_id
    &&& w == who
    &&& a == amount
    &&& existence_requirement is AllowDeath
    &&& r == ledger_status(reply)
}

/// Whether the calls are those of withdrawing an asset from a location, with
/// the given outcome. The account, the currency and the amount are asked for in
/// turn. If all three are known, the asset is withdrawn from the currency's
/// ledger. At the first that is not, it is withdrawn from the ledger of unknown
/// assets.
pub open spec fn withdrawal<AccountId, CurrencyId, Balance, Handler>(
    asset: Asset,
    location: Location,
    calls: Seq<ServiceCall<AccountId, CurrencyId, Balance, Handler>>,
    r: Result<(), XcmErrorView>,
) -> bool {
    &&& calls.len() >= 1
    &&& calls[0] matches ServiceCall::AccountOf { location: l, reply: account }
    &&& l == location
    &&& match account {
        None => unknown_withdrawal(
            asset,
            location,
            Error::AccountIdConversionFailed,
            calls.skip(1),
            r,
        ),
        Some(who) => {
            &&& calls.len() >= 2
            &&& calls[1] matches ServiceCall::CurrencyOf { asset: a1, reply: currency }
            &&& a1 == asset
            &&& match currency {
                None => unknown_withdrawal(
                    asset,
                    location,
                    Error::CurrencyIdConversionFailed,
                    calls.skip(2),
                    r,
                ),
                Some(currency_id) => {
                    &&& calls.len() >= 3
                    &&& calls[2] matches ServiceCall::AmountOf { asset: a2, reply: balance }
                    &&& a2 == asset
                    &&& match balance {
                        None => unknown_withdrawal(
                            asset,
                            location,
                            Error::FailedToMatchFungible,
                            calls.skip(3),
                            r,
                        ),
                        Some(amount) => currency_withdrawal(
                            currency_id,
                            who,
                            amount,
                            calls.skip(3),
                            r,
                        ),
                    }
                },
            }
        },
    }
}

/// Whether the calls are those of minting an asset, with the given outcome. An
/// asset whose currency or amount is not known is not found here. Nothing is
/// moved in any case.
pub open spec fn minting<AccountId, CurrencyId, Balance, Handler>(
    asset: Asset,
    calls: Seq<ServiceCall<AccountId, CurrencyId, Balance, Handler>>,
    r: Result<(), XcmErrorView>,
) -> bool {
    &&& calls.len() >= 1
    &&& calls[0] matches ServiceCall::CurrencyOf { asset: a1, reply: currency }
    &&& a1 == asset
    &&& match currency {
        None => {
            &&& calls.len() == 1
            &&& r == Err::<(), XcmErrorView>(XcmErrorView::AssetNotFound)
        },
        Some(_) => {
            &&& calls.len() == 2
            &&& calls[1] matches ServiceCall::AmountOf { asset: a2, reply: balance }
            &&& a2 == asset
            &&& r == match balance {
                None => Err::<(), XcmErrorView>(XcmErrorView::AssetNotFound),
                Some(_) => Ok(()),
            }
        },
    }
}

/// Whether the calls are those of transferring an asset between two locations,
/// with the given outcome. Both accounts, the currency and the amount are asked
/// for in turn, and the first that is not known is the failure. The account may
/// be closed by it.
pub open spec fn transferral<AccountId, CurrencyId, Balance, Handler>(
    asset: Asset,
    from: Location,
    to: Location,
    calls: Seq<ServiceCall<AccountId, CurrencyId, Balance, Handler>>,
    r: Result<(), XcmErrorView>,
) -> bool {
    &&& calls.len() >= 1
    &&& calls[0] matches ServiceCall::AccountOf { location: l1, reply: source }
    &&& l1 == from
    &&& match source {
        None => {
            &&& calls.len() == 1
            &&& r == Err::<(), XcmErrorView>(error_view(Error::AccountIdConversionFailed))
        },
        Some(from_account) => {
            &&& calls.len() >= 2
            &&& calls[1] matches ServiceCall::AccountOf { location: l2, reply: target }
            &&& l2 == to
            &&& match target {
                None => {
                    &&& calls.len() == 2
                    &&& r == Err::<(), XcmErrorView>(error_view(Error::AccountIdConversionFailed))
                },
                Some(to_account) => currency_transferral(
                    asset,
                    from_account,
                    to_account,
                    calls.skip(2),
                    r,
                ),
            }
        },
    }
}

/// Whether the calls are those of transferring an asset between two accounts,
/// with the given outcome.
pub open spec fn currency_transferral<AccountId, CurrencyId, Balance, Handler>(
    asset: Asset,
    from_account: AccountId,
    to_account: AccountId,
    calls: Seq<ServiceCall<AccountId, CurrencyId, Balance, Handler>>,
    r: Result<(), XcmErrorView>,
) -> bool {
    &&& calls.len() >= 1
    &&& calls[0] matches ServiceCall::CurrencyOf { asset: a1, reply: currency }
    &&& a1 == asset
    &&& match currency {
        None => {
            &&& calls.len() == 1
            &&& r == Err::<(), XcmErrorView>(error_view(Error::CurrencyIdConversionFailed))
        },
        Some(currency_id) => {
            &&& calls.len() >= 2
            &&& calls[1] matches ServiceCall::AmountOf { asset: a2, reply: balance }
            &&& a2 == asset
            &&& match balance {
                None => {
                    &&& calls.len() == 2
                    &&& r == Err::<(), XcmErrorView>(error_view(Error::FailedToMatchFungible))
                },
                Some(amount) => {
                    &&& calls.len() == 3
                    &&& calls[2] matches ServiceCall::Currency(
                        CurrencyCall::Transfer {
                            currency_id: c,
                            from,
                            to,
                            amount: a,
                            existence_requirement,
                            reply,
                        },
                    )
                    &&& c == currency_id
                    &&& from == from_account
                    &&& to == to_account
                    &&& a == amount
                    &&& existence_requirement is AllowDeath
                    &&& r == ledger_status(reply)
                },
            }
        },
    }
}

/// The adapter between the executor's holding register and the ledgers.
///
/// If the asset is known, its deposit and withdrawal are handled by
/// `MultiCurrency`, else by `UnknownAsset`. An asset is known if the account, the
/// currency and the amount are. Methods of `DepositFailureHandler` are called on
/// deposit errors. Teleport related functions are unimplemented.
///
/// # Composition constraint
///
/// `MultiCurrency` moves balances eagerly and cannot produce an imbalance, so
/// the entries this adapter puts in the holding register are receipts (see
/// [`EagerCredit`](crate::eager_credit::EagerCredit)) rather than real
/// imbalances. They must not reach a component that pours an arbitrary holding
/// imbalance into a concrete, drop-accounted one, because that turns a receipt
/// into a resolvable credit that was never issued. Pair this adapter with a
/// trader that keeps the register's entries, and leave the asset exchanger unset.
pub struct MultiCurrencyAdapter<
    MultiCurrencyT,
    UnknownAssetT,
    Match,
    AccountId,
    AccountIdConvert,
    CurrencyId,
    CurrencyIdConvert,
    DepositFailureHandler,
    Balance,
> {
    services: Services<
        MultiCurrencyT,
        UnknownAssetT,
        Match,
        AccountId,
        AccountIdConvert,
        CurrencyId,
        CurrencyIdConvert,
        DepositFailureHandler,
        Balance,
    >,
}

impl<
    MultiCurrencyT,
    UnknownAssetT,
    Match,
    AccountId,
    AccountIdConvert,
    CurrencyId,
    CurrencyIdConvert,
    DepositFailureHandler,
    Balance,
> View for MultiCurrencyAdapter<
    MultiCurrencyT,
    UnknownAssetT,
    Match,
    AccountId,
    AccountIdConvert,
    CurrencyId,
    CurrencyIdConvert,
    DepositFailureHandler,
    Balance,
> {
    type V = Seq<ServiceCall<AccountId, CurrencyId, Balance, DepositFailureHandler>>;

    /// The calls made to the services so far, oldest first.
    closed spec fn view(&self) -> Seq<
        ServiceCall<AccountId, CurrencyId, Balance, DepositFailureHandler>,
    > {
        self.services@
    }
}

impl<
    MultiCurrencyT: MultiCurrency<AccountId, CurrencyId, Balance>,
    UnknownAssetT: UnknownAsset,
    Match: MatchesFungible<Balance>,
    AccountId,
    AccountIdConvert: ConvertLocation<AccountId>,
    CurrencyId: Copy,
    CurrencyIdConvert: Convert<Asset, Option<CurrencyId>>,
    DepositFailureHandler: OnDepositFail<CurrencyId, AccountId, Balance>,
    Balance: Copy,
> MultiCurrencyAdapter<
    MultiCurrencyT,
    UnknownAssetT,
    Match,
    AccountId,
    AccountIdConvert,
    CurrencyId,
    CurrencyIdConvert,
    DepositFailureHandler,
    Balance,
> {
    /// What the services have kept.
    pub closed spec fn histories(&self) -> Histories<
        AccountId,
        CurrencyId,
        Balance,
        DepositFailureHandler,
    > {
        self.services.histories()
    }

    /// An adapter that works with the given services.
    pub fn new(
        services: Services<
            MultiCurrencyT,
            UnknownAssetT,
            Match,
            AccountId,
            AccountIdConvert,
            CurrencyId,
            CurrencyIdConvert,
            DepositFailureHandler,
            Balance,
        >,
    ) -> (r: Self)
        ensures
            r@ == services@,
            r.histories() == services.histories(),
    {
        MultiCurrencyAdapter { services }
    }

    /// No asset may be teleported in.
    pub fn can_check_in(
        &mut self,
        _origin: &Location,
        _what: &Asset,
        _context: &XcmContext,
    ) -> (r: Result<(), XcmError>)
        ensures
            status(r) == Err::<(), XcmErrorView>(XcmErrorView::Unimplemented),
            *final(self) == *old(self),
    {
        Err(XcmError::Unimplemented)
    }

    /// Deposits one asset.
    fn deposit_one(&mut self, asset: &Asset, location: &Location) -> (r: Result<(), XcmError>)
        ensures
            old(self)@.is_prefix_of(final(self)@),
            stays_true(
                old(self)@,
                old(self).histories(),
                final(self)@,
                final(self).histories(),
            ),
            deposit_of(*asset, *location, final(self)@.skip(old(self)@.len() as int), status(r)),
            forall|i: int|
                old(self)@.len() <= i < final(self)@.len() ==> (#[trigger] final(self)@[i]
                    matches ServiceCall::OnUnknownAssetFail {
                        before,
                        err,
                        asset,
                        location,
                        after,
                        reply,
                    } ==> exists|handler: &mut DepositFailureHandler|
                    {
                        &&& #[trigger] call_ensures(
                            DepositFailureHandler::on_deposit_unknown_asset_fail,
                            (handler, err, &asset, &location),
                            reply,
                        )
                        &&& *handler == before
                        &&& *final(handler) == after
                    }),
    {
        let account = self.services.account_of(location);
        let currency = self.services.currency_of(asset);
        let balance = self.services.amount_of(asset);
        match (account, currency, balance) {
            // known asset
            (Some(who), Some(currency_id), Some(amount)) => {
                match self.services.deposit(currency_id, &who, amount) {
                    Ok(()) => Ok(()),
                    Err(err) => self.services.on_currency_fail(err, currency_id, &who, amount),
                }
            },
            // unknown asset
            _ => {
                match self.services.unknown_deposit(asset, location) {
                    Ok(()) => Ok(()),
                    Err(err) => {
                        let ghost asked = self@;
                        let answer = self.services.on_unknown_asset_fail(err, asset, location);
                        assert(self@[asked.len() as int] is OnUnknownAssetFail);
                        assert(forall|k: int|
                            0 <= k < asked.len() ==> #[trigger] self@[k] == asked[k]);
                        assert(forall|k: int|
                            old(self)@.len() <= k < asked.len() ==> !(
                            #[trigger] asked[k] is OnUnknownAssetFail));
                        answer
                    },
                }
            },
        }
    }

    /// Deposits everything that a holding register holds to the account of
    /// `location`.
    ///
    /// The assets are deposited one by one, and whatever could not be deposited
    /// is given back, so that the caller can trap or refund it. The answers of the
    /// failure handler to refused unknown assets are those of its own method, which
    /// took it from the state before to the state after.
    pub fn deposit_asset(
        &mut self,
        what: AssetsInHolding,
        location: &Location,
        _context: Option<&XcmContext>,
    ) -> (r: Result<(), (AssetsInHolding, XcmError)>)
        ensures
            old(self)@.is_prefix_of(final(self)@),
            grew(
                old(self).histories(),
                final(self)@.skip(old(self)@.len() as int),
                final(self).histories(),
            ),
            exists|
                runs: Seq<
                    Seq<ServiceCall<AccountId, CurrencyId, Balance, DepositFailureHandler>>,
                >,
            |
                {
                    &&& final(self)@.skip(old(self)@.len() as int) == joined(runs)
                    &&& #[trigger] register_deposit(what, *location, runs, r)
                },
            forall|i: int|
                old(self)@.len() <= i < final(self)@.len() ==> (#[trigger] final(self)@[i]
                    matches ServiceCall::OnUnknownAssetFail {
                        before,
                        err,
                        asset,
                        location,
                        after,
                        reply,
                    } ==> exists|handler: &mut DepositFailureHandler|
                    {
                        &&& #[trigger] call_ensures(
                            DepositFailureHandler::on_deposit_unknown_asset_fail,
                            (handler, err, &asset, &location),
                            reply,
                        )
                        &&& *handler == before
                        &&& *final(handler) == after
                    }),
    {
        let ghost register = what;
        let ghost earlier = self@;
        let ghost kept = self.histories();
        let ghost mut runs: Seq<
            Seq<ServiceCall<AccountId, CurrencyId, Balance, DepositFailureHandler>>,
        > = Seq::empty();

        let mut undeposited = new_register();
        let mut failure: Option<XcmError> = None;

        let parts = into_entries(what);
        let ghost all = parts@;
        proof {
            lemma_entry_assets(register, all);
        }
        for entry in it: parts
            invariant
                it.seq() == all,
                all == entries(register),
                held(register) == all.map_values(|e: AssetsInHolding| entry_asset(e)),
                one_asset_each(all),
                apart(all),
                self@ == earlier + joined(runs),
                forall|i: int|
                    earlier.len() <= i < self@.len() ==> (#[trigger] self@[i]
                        matches ServiceCall::OnUnknownAssetFail {
                            before,
                            err,
                            asset,
                            location,
                            after,
                            reply,
                        } ==> exists|handler: &mut DepositFailureHandler|
                        {
                            &&& #[trigger] call_ensures(
                                DepositFailureHandler::on_deposit_unknown_asset_fail,
                                (handler, err, &asset, &location),
                                reply,
                            )
                            &&& *handler == before
                            &&& *final(handler) == after
                        }),
                grew(kept, self@.skip(earlier.len() as int), self.histories()),
                failure is None ==> runs.len() == it.index(),
                failure is Some ==> 1 <= runs.len() <= it.index(),
                forall|i: int|
                    0 <= i < runs.len() - (if failure is Some {
                        1int
                    } else {
                        0int
                    }) ==> settled(all[i], *location, #[trigger] runs[i]),
                failure is Some ==> deposit_of(
                    entry_asset(all[runs.len() - 1]),
                    *location,
                    runs.last(),
                    Err(failure->Some_0@),
                ),
                entries(undeposited) == (if failure is Some {
                    all.subrange(runs.len() - 1, it.index())
                } else {
                    Seq::empty()
                }),
                held(undeposited) == (if failure is Some {
                    held(register).subrange(runs.len() - 1, it.index())
                } else {
                    Seq::empty()
                }),
        {
            let ghost i = it.index();
            let ghost old_calls = self@;
            let mut deposited = false;
            if failure.is_none() {
                let asset = first_asset(&entry).unwrap();
                match self.deposit_one(&asset, location) {
                    Ok(()) => {
                        deposited = true;
                    },
                    Err(err) => {
                        failure = Some(err);
                        proof {
                            lemma_joined_push(earlier, runs, self@);
                            runs = runs.push(self@.skip(old_calls.len() as int));
                        }
                    },
                }
            }
            let ghost deposit_calls = self@;
            assert(forall|k: int|
                0 <= k < old_calls.len() ==> #[trigger] deposit_calls[k] == old_calls[k]);
            if deposited {
                // The amount has just been issued, so the incoming imbalance has
                // to be settled: dropping it runs a real credit's pending
                // accounting, and accounts for nothing if it is a receipt.
                self.services.settle(entry);
                proof {
                    let run = self@.skip(old_calls.len() as int);
                    lemma_joined_push(earlier, runs, self@);
                    runs = runs.push(run);
                    assert(forall|k: int|
                        0 <= k < deposit_calls.len() ==> #[trigger] self@[k] == deposit_calls[k]);
                }
            } else {
                let ghost handed_back = undeposited;
                subsume_assets(&mut undeposited, entry);
                proof {
                    assert(all.subrange(runs.len() - 1, i) == entries(handed_back));
                    assert(held(register).subrange(runs.len() - 1, i) == held(handed_back));
                    lemma_added_last(
                        register,
                        all,
                        runs.len() - 1,
                        i,
                        handed_back,
                        undeposited,
                    );
                }
            }
        }
        let r = match failure {
            Some(err) => Err((undeposited, err)),
            None => Ok(()),
        };
        proof {
            assert(register_deposit(register, *location, runs, r));
        }
        r
    }

    /// Withdraws an asset from `location`: from the account there if the asset is
    /// known, else from the ledger of unknown assets.
    pub fn withdraw_asset(
        &mut self,
        asset: &Asset,
        location: &Location,
        _maybe_context: Option<&XcmContext>,
    ) -> (r: Result<EagerHolding, XcmError>)
        ensures
            old(self)@.is_prefix_of(final(self)@),
            grew(
                old(self).histories(),
                final(self)@.skip(old(self)@.len() as int),
                final(self).histories(),
            ),
            withdrawal(
                *asset,
                *location,
                final(self)@.skip(old(self)@.len() as int),
                status(r),
            ),
            r matches Ok(holding) ==> holding.is_for(*asset),
    {
        let account = self.services.account_of(location);
        let currency = match account {
            Some(_) => self.services.currency_of(asset),
            None => None,
        };
        let balance = match currency {
            Some(_) => self.services.amount_of(asset),
            None => None,
        };
        match (account, currency, balance) {
            // known asset
            (Some(who), Some(currency_id), Some(amount)) => {
                report(
                    self.services.withdraw(
                        currency_id,
                        &who,
                        amount,
                        ExistenceRequirement::AllowDeath,
                    ),
                )?;
            },
            // unknown asset
            (account, currency, _) => {
                if self.services.unknown_withdraw(asset, location).is_err() {
                    let failure = if account.is_none() {
                        Error::AccountIdConversionFailed
                    } else if currency.is_none() {
                        Error::CurrencyIdConversionFailed
                    } else {
                        Error::FailedToMatchFungible
                    };
                    return Err(XcmError::from(failure));
                }
            },
        }
        Ok(eager_holding(asset))
    }

    /// Reserve-deposited and teleported-in assets enter the holding register
    /// through here.
    ///
    /// `MultiCurrency` issues on `deposit_asset`, so this only records the
    /// notional amount; issuing here as well would issue the asset twice.
    ///
    /// Assets this adapter cannot map are rejected with `AssetNotFound` rather
    /// than claimed, so that another adapter still gets its turn.
    pub fn mint_asset(&mut self, asset: &Asset, _context: &XcmContext) -> (r: Result<
        EagerHolding,
        XcmError,
    >)
        ensures
            old(self)@.is_prefix_of(final(self)@),
            grew(
                old(self).histories(),
                final(self)@.skip(old(self)@.len() as int),
                final(self).histories(),
            ),
            minting(*asset, final(self)@.skip(old(self)@.len() as int), status(r)),
            r matches Ok(holding) ==> holding.is_for(*asset),
    {
        if self.services.currency_of(asset).is_none() {
            return Err(XcmError::AssetNotFound);
        }
        if self.services.amount_of(asset).is_none() {
            return Err(XcmError::AssetNotFound);
        }
        Ok(eager_holding(asset))
    }

    /// Moves an asset between the accounts of two locations, without a detour
    /// through the holding register.
    pub fn internal_transfer_asset(
        &mut self,
        asset: &Asset,
        from: &Location,
        to: &Location,
        _context: &XcmContext,
    ) -> (r: Result<Asset, XcmError>)
        ensures
            old(self)@.is_prefix_of(final(self)@),
            grew(
                old(self).histories(),
                final(self)@.skip(old(self)@.len() as int),
                final(self).histories(),
            ),
            transferral(
                *asset,
                *from,
                *to,
                final(self)@.skip(old(self)@.len() as int),
                status(r),
            ),
            r matches Ok(moved) ==> moved == *asset,
    {
        let from_account = known(self.services.account_of(from), Error::AccountIdConversionFailed)?;
        let to_account = known(self.services.account_of(to), Error::AccountIdConversionFailed)?;
        let currency_id = known(
            self.services.currency_of(asset),
            Error::CurrencyIdConversionFailed,
        )?;
        let amount = known(self.services.amount_of(asset), Error::FailedToMatchFungible)?;
        report(
            self.services.transfer(
                currency_id,
                &from_account,
                &to_account,
                amount,
                ExistenceRequirement::AllowDeath,
            ),
        )?;
        Ok(asset.clone())
    }
}

} // verus!
