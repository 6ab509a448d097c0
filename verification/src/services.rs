//! What a runtime plugs in, and the record of the calls made to it.
//!
//! Each service keeps a history of the calls that it was asked to serve, and
//! promises nothing of what it answers. [`Services`] keeps the services to itself
//! and writes all calls down in one record, in the order in which they are made.
//! The record is tied to the histories: each history grows by exactly the calls
//! of the record that are its own. The failure handler keeps no history; each call
//! to it is recorded with its state before and after, and the answer is tied to the
//! handler by what its methods promise. So the contracts of this crate can say which
//! calls are made, in which order and with which arguments, whatever comes back.
//!
//! That a service keeps its history is a promise of whoever implements it. Verified
//! implementations say what their history is; the empty one that the traits give
//! only stands in where an implementation is not verified.
use crate::deposit_fail::OnDepositFail;
use crate::error::transact_error_view;
use crate::types::{status, Asset, ExistenceRequirement, XcmError, XcmErrorView};
use sp_runtime::DispatchError;
use staging_xcm::v5::Location;
use staging_xcm_executor::AssetsInHolding;
use vstd::prelude::*;

verus! {

/// A call to the ledgers of currencies, with the answer that came back.
pub enum CurrencyCall<AccountId, CurrencyId, Balance> {
    /// [`MultiCurrency::deposit`].
    Deposit {
        currency_id: CurrencyId,
        who: AccountId,
        amount: Balance,
        reply: Result<(), DispatchError>,
    },
    /// [`MultiCurrency::withdraw`].
    Withdraw {
        currency_id: CurrencyId,
        who: AccountId,
        amount: Balance,
        existence_requirement: ExistenceRequirement,
        reply: Result<(), DispatchError>,
    },
    /// [`MultiCurrency::transfer`].
    Transfer {
        currency_id: CurrencyId,
        from: AccountId,
        to: AccountId,
        amount: Balance,
        existence_requirement: ExistenceRequirement,
        reply: Result<(), DispatchError>,
    },
}

/// A call to the ledger of unknown assets, with the answer that came back.
pub enum UnknownAssetCall {
    /// [`UnknownAsset::deposit`].
    Deposit { asset: Asset, location: Location, reply: Result<(), DispatchError> },
    /// [`UnknownAsset::withdraw`].
    Withdraw { asset: Asset, location: Location, reply: Result<(), DispatchError> },
}

/// Ledgers for any number of currencies. Each call moves the balance at once.
pub trait MultiCurrency<AccountId, CurrencyId, Balance> {
    /// The calls served so far, oldest first.
    open spec fn made(&self) -> Seq<CurrencyCall<AccountId, CurrencyId, Balance>> {
        Seq::empty()
    }

    /// Issues `amount` to `who`.
    fn deposit(
        &mut self,
        currency_id: CurrencyId,
        who: &AccountId,
        amount: Balance,
    ) -> (reply: Result<(), DispatchError>)
        ensures
            final(self).made() == old(self).made().push(
                CurrencyCall::Deposit { currency_id, who: *who, amount, reply },
            ),
    ;

    /// Takes `amount` from `who`.
    fn withdraw(
        &mut self,
        currency_id: CurrencyId,
        who: &AccountId,
        amount: Balance,
        existence_requirement: ExistenceRequirement,
    ) -> (reply: Result<(), DispatchError>)
        ensures
            final(self).made() == old(self).made().push(
                CurrencyCall::Withdraw {
                    currency_id,
                    who: *who,
                    amount,
                    existence_requirement,
                    reply,
                },
            ),
    ;

    /// Moves `amount` from one account to another.
    fn transfer(
        &mut self,
        currency_id: CurrencyId,
        from: &AccountId,
        to: &AccountId,
        amount: Balance,
        existence_requirement: ExistenceRequirement,
    ) -> (reply: Result<(), DispatchError>)
        ensures
            final(self).made() == old(self).made().push(
                CurrencyCall::Transfer {
                    currency_id,
                    from: *from,
                    to: *to,
                    amount,
                    existence_requirement,
                    reply,
                },
            ),
    ;
}

/// A ledger for assets that no currency stands for.
pub trait UnknownAsset {
    /// The calls served so far, oldest first.
    open spec fn made(&self) -> Seq<UnknownAssetCall> {
        Seq::empty()
    }

    /// Puts the asset at the location.
    fn deposit(&mut self, asset: &Asset, location: &Location) -> (reply: Result<(), DispatchError>)
        ensures
            final(self).made() == old(self).made().push(
                UnknownAssetCall::Deposit { asset: *asset, location: *location, reply },
            ),
    ;

    /// Takes the asset from the location.
    fn withdraw(&mut self, asset: &Asset, location: &Location) -> (reply: Result<(), DispatchError>)
        ensures
            final(self).made() == old(self).made().push(
                UnknownAssetCall::Withdraw { asset: *asset, location: *location, reply },
            ),
    ;
}

/// Which account a location stands for.
pub trait ConvertLocation<AccountId> {
    /// The locations asked about so far and the answers, oldest first.
    open spec fn made(&self) -> Seq<(Location, Option<AccountId>)> {
        Seq::empty()
    }

    fn convert_location(&mut self, location: &Location) -> (reply: Option<AccountId>)
        ensures
            final(self).made() == old(self).made().push((*location, reply)),
    ;
}

/// What one value stands for as another.
pub trait Convert<A, B> {
    /// The values converted so far and the answers, oldest first.
    open spec fn made(&self) -> Seq<(A, B)> {
        Seq::empty()
    }

    fn convert(&mut self, a: A) -> (reply: B)
        ensures
            final(self).made() == old(self).made().push((a, reply)),
    ;
}

/// Which amount of a ledger's own an asset stands for.
pub trait MatchesFungible<Balance> {
    /// The assets asked about so far and the answers, oldest first.
    open spec fn made(&self) -> Seq<(Asset, Option<Balance>)> {
        Seq::empty()
    }

    fn matches_fungible(&mut self, asset: &Asset) -> (reply: Option<Balance>)
        ensures
            final(self).made() == old(self).made().push((*asset, reply)),
    ;
}

/// A value that the runtime is configured with.
pub trait Get<T> {
    /// The values given out so far, oldest first.
    open spec fn made(&self) -> Seq<T> {
        Seq::empty()
    }

    fn get(&mut self) -> (reply: T)
        ensures
            final(self).made() == old(self).made().push(reply),
    ;
}

/// A call to one of an adapter's services, with the answer that came back.
#[allow(inconsistent_fields)]
pub enum ServiceCall<AccountId, CurrencyId, Balance, Handler> {
    /// [`ConvertLocation::convert_location`].
    AccountOf { location: Location, reply: Option<AccountId> },
    /// [`Convert::convert`], from an asset to a currency.
    CurrencyOf { asset: Asset, reply: Option<CurrencyId> },
    /// [`MatchesFungible::matches_fungible`].
    AmountOf { asset: Asset, reply: Option<Balance> },
    /// A call to the ledgers of currencies.
    Currency(CurrencyCall<AccountId, CurrencyId, Balance>),
    /// A call to the ledger of unknown assets.
    Unknown(UnknownAssetCall),
    /// [`OnDepositFail::on_deposit_currency_fail`], which took the handler from
    /// one state to another.
    OnCurrencyFail {
        before: Handler,
        err: DispatchError,
        currency_id: CurrencyId,
        who: AccountId,
        amount: Balance,
        after: Handler,
        reply: Result<(), XcmError>,
    },
    /// [`OnDepositFail::on_deposit_unknown_asset_fail`], which took the handler
    /// from one state to another.
    OnUnknownAssetFail {
        before: Handler,
        err: DispatchError,
        asset: Asset,
        location: Location,
        after: Handler,
        reply: Result<(), XcmError>,
    },
    /// The entry of a holding register was dropped, which runs the accounting
    /// that its imbalance has pending.
    Settle { entry: AssetsInHolding },
}

/// What the services themselves have kept: the history of each, and the state of
/// the failure handler.
pub struct Histories<AccountId, CurrencyId, Balance, Handler> {
    pub accounts: Seq<(Location, Option<AccountId>)>,
    pub currencies: Seq<(Asset, Option<CurrencyId>)>,
    pub amounts: Seq<(Asset, Option<Balance>)>,
    pub ledgers: Seq<CurrencyCall<AccountId, CurrencyId, Balance>>,
    pub unknown_assets: Seq<UnknownAssetCall>,
    pub handler: Handler,
}

impl<AccountId, CurrencyId, Balance, Handler> Histories<AccountId, CurrencyId, Balance, Handler> {
    /// What the services have kept after one more call.
    pub open spec fn after(
        self,
        call: ServiceCall<AccountId, CurrencyId, Balance, Handler>,
    ) -> Self {
        match call {
            ServiceCall::AccountOf { location, reply } => Histories {
                accounts: self.accounts.push((location, reply)),
                ..self
            },
            ServiceCall::CurrencyOf { asset, reply } => Histories {
                currencies: self.currencies.push((asset, reply)),
                ..self
            },
            ServiceCall::AmountOf { asset, reply } => Histories {
                amounts: self.amounts.push((asset, reply)),
                ..self
            },
            ServiceCall::Currency(served) => Histories {
                ledgers: self.ledgers.push(served),
                ..self
            },
            ServiceCall::Unknown(served) => Histories {
                unknown_assets: self.unknown_assets.push(served),
                ..self
            },
            ServiceCall::OnCurrencyFail { after, .. } => Histories { handler: after, ..self },
            ServiceCall::OnUnknownAssetFail { after, .. } => Histories { handler: after, ..self },
            ServiceCall::Settle { .. } => self,
        }
    }

    /// Whether a call finds the failure handler in the state that it is in.
    pub open spec fn admits(
        self,
        call: ServiceCall<AccountId, CurrencyId, Balance, Handler>,
    ) -> bool {
        match call {
            ServiceCall::OnCurrencyFail { before, .. } => before == self.handler,
            ServiceCall::OnUnknownAssetFail { before, .. } => before == self.handler,
            _ => true,
        }
    }
}

/// What the services have kept after the given calls, one after the other.
pub open spec fn reached<AccountId, CurrencyId, Balance, Handler>(
    from: Histories<AccountId, CurrencyId, Balance, Handler>,
    calls: Seq<ServiceCall<AccountId, CurrencyId, Balance, Handler>>,
) -> Histories<AccountId, CurrencyId, Balance, Handler>
    decreases calls.len(),
{
    if calls.len() == 0 {
        from
    } else {
        reached(from, calls.drop_last()).after(calls.last())
    }
}

/// Whether each of the calls finds the failure handler in the state that the
/// calls before it have left it in.
pub open spec fn linked<AccountId, CurrencyId, Balance, Handler>(
    from: Histories<AccountId, CurrencyId, Balance, Handler>,
    calls: Seq<ServiceCall<AccountId, CurrencyId, Balance, Handler>>,
) -> bool
    decreases calls.len(),
{
    calls.len() == 0 || {
        &&& linked(from, calls.drop_last())
        &&& reached(from, calls.drop_last()).admits(calls.last())
    }
}

/// Whether the services were really asked the given calls, and no others: their
/// histories have grown from one point to another by exactly these, in this order,
/// and the failure handler has gone through the states that they give it. That its
/// answers are its own is said where it is asked.
pub open spec fn grew<AccountId, CurrencyId, Balance, Handler>(
    from: Histories<AccountId, CurrencyId, Balance, Handler>,
    calls: Seq<ServiceCall<AccountId, CurrencyId, Balance, Handler>>,
    to: Histories<AccountId, CurrencyId, Balance, Handler>,
) -> bool {
    linked(from, calls) && to == reached(from, calls)
}

/// Whether a step from one record and its histories to another makes good
/// whatever stretch of the record was made good before.
pub open spec fn stays_true<AccountId, CurrencyId, Balance, Handler>(
    record: Seq<ServiceCall<AccountId, CurrencyId, Balance, Handler>>,
    histories: Histories<AccountId, CurrencyId, Balance, Handler>,
    next_record: Seq<ServiceCall<AccountId, CurrencyId, Balance, Handler>>,
    next_histories: Histories<AccountId, CurrencyId, Balance, Handler>,
) -> bool {
    forall|from: Histories<AccountId, CurrencyId, Balance, Handler>, n: int|
        0 <= n <= record.len() && grew(from, record.skip(n), histories) ==> #[trigger] grew(
            from,
            next_record.skip(n),
            next_histories,
        )
}

proof fn lemma_stays_true<AccountId, CurrencyId, Balance, Handler>(
    record: Seq<ServiceCall<AccountId, CurrencyId, Balance, Handler>>,
    histories: Histories<AccountId, CurrencyId, Balance, Handler>,
    call: ServiceCall<AccountId, CurrencyId, Balance, Handler>,
)
    requires
        histories.admits(call),
    ensures
        stays_true(record, histories, record.push(call), histories.after(call)),
{
    assert forall|from: Histories<AccountId, CurrencyId, Balance, Handler>, n: int|
        0 <= n <= record.len() && grew(from, record.skip(n), histories) implies #[trigger] grew(
        from,
        record.push(call).skip(n),
        histories.after(call),
    ) by {
        let longer = record.push(call).skip(n);
        assert(longer.drop_last() =~= record.skip(n));
        assert(longer.last() == call);
    }
}

/// The services of an adapter, and the calls made to them.
pub struct Services<
    MultiCurrencyT,
    UnknownAssetT,
    Match,
    AccountId,
    AccountIdConvert,
    CurrencyId,
    CurrencyIdConvert,
    DepositFailureHandler,
    Balance,
> {
    multi_currency: MultiCurrencyT,
    unknown_asset: UnknownAssetT,
    matcher: Match,
    account_id_convert: AccountIdConvert,
    currency_id_convert: CurrencyIdConvert,
    deposit_failure_handler: DepositFailureHandler,
    calls: Ghost<Seq<ServiceCall<AccountId, CurrencyId, Balance, DepositFailureHandler>>>,
}

impl<
    MultiCurrencyT,
    UnknownAssetT,
    Match,
    AccountId,
    AccountIdConvert,
    CurrencyId,
    CurrencyIdConvert,
    DepositFailureHandler,
    Balance,
> View for Services<
    MultiCurrencyT,
    UnknownAssetT,
    Match,
    AccountId,
    AccountIdConvert,
    CurrencyId,
    CurrencyIdConvert,
    DepositFailureHandler,
    Balance,
> {
    type V = Seq<ServiceCall<AccountId, CurrencyId, Balance, DepositFailureHandler>>;

    /// The record of the calls made so far, oldest first. What the services have
    /// kept themselves is `histories`.
    closed spec fn view(&self) -> Seq<
        ServiceCall<AccountId, CurrencyId, Balance, DepositFailureHandler>,
    > {
        self.calls@
    }
}

impl<
    MultiCurrencyT: MultiCurrency<AccountId, CurrencyId, Balance>,
    UnknownAssetT: UnknownAsset,
    Match: MatchesFungible<Balance>,
    AccountId,
    AccountIdConvert: ConvertLocation<AccountId>,
    CurrencyId: Copy,
    CurrencyIdConvert: Convert<Asset, Option<CurrencyId>>,
    DepositFailureHandler: OnDepositFail<CurrencyId, AccountId, Balance>,
    Balance: Copy,
> Services<
    MultiCurrencyT,
    UnknownAssetT,
    Match,
    AccountId,
    AccountIdConvert,
    CurrencyId,
    CurrencyIdConvert,
    DepositFailureHandler,
    Balance,
> {
    /// What the services have kept.
    pub closed spec fn histories(&self) -> Histories<
        AccountId,
        CurrencyId,
        Balance,
        DepositFailureHandler,
    > {
        Histories {
            accounts: self.account_id_convert.made(),
            currencies: self.currency_id_convert.made(),
            amounts: self.matcher.made(),
            ledgers: self.multi_currency.made(),
            unknown_assets: self.unknown_asset.made(),
            handler: self.deposit_failure_handler,
        }
    }

    /// Whether one more call has been made and recorded.
    spec fn asked(
        before: Self,
        call: ServiceCall<AccountId, CurrencyId, Balance, DepositFailureHandler>,
        after: Self,
    ) -> bool {
        &&& after@ == before@.push(call)
        &&& before.histories().admits(call)
        &&& after.histories() == before.histories().after(call)
    }

    /// Takes the services over, before any call is made.
    pub fn new(
        multi_currency: MultiCurrencyT,
        unknown_asset: UnknownAssetT,
        matcher: Match,
        account_id_convert: AccountIdConvert,
        currency_id_convert: CurrencyIdConvert,
        deposit_failure_handler: DepositFailureHandler,
    ) -> (r: Self)
        ensures
            r@ == Seq::<
                ServiceCall<AccountId, CurrencyId, Balance, DepositFailureHandler>,
            >::empty(),
            r.histories() == (Histories {
                accounts: account_id_convert.made(),
                currencies: currency_id_convert.made(),
                amounts: matcher.made(),
                ledgers: multi_currency.made(),
                unknown_assets: unknown_asset.made(),
                handler: deposit_failure_handler,
            }),
    {
        Services {
            multi_currency,
            unknown_asset,
            matcher,
            account_id_convert,
            currency_id_convert,
            deposit_failure_handler,
            calls: Ghost(Seq::empty()),
        }
    }

    pub(crate) fn account_of(&mut self, location: &Location) -> (reply: Option<AccountId>)
        ensures
            final(self)@ == old(self)@.push(
                ServiceCall::AccountOf { location: *location, reply },
            ),
            stays_true(
                old(self)@,
                old(self).histories(),
                final(self)@,
                final(self).histories(),
            ),
    {
        let ghost before = *self;
        let reply = self.account_id_convert.convert_location(location);
        let ghost call = ServiceCall::AccountOf { location: *location, reply };
        self.calls = Ghost(self.calls@.push(call));
        proof {
            assert(Self::asked(before, call, *self));
            lemma_stays_true(before@, before.histories(), call);
        }
        reply
    }

    pub(crate) fn currency_of(&mut self, asset: &Asset) -> (reply: Option<CurrencyId>)
        ensures
            final(self)@ == old(self)@.push(ServiceCall::CurrencyOf { asset: *asset, reply }),
            stays_true(
                old(self)@,
                old(self).histories(),
                final(self)@,
                final(self).histories(),
            ),
    {
        let ghost before = *self;
        let reply = self.currency_id_convert.convert(asset.clone());
        let ghost call = ServiceCall::CurrencyOf { asset: *asset, reply };
        self.calls = Ghost(self.calls@.push(call));
        proof {
            assert(Self::asked(before, call, *self));
            lemma_stays_true(before@, before.histories(), call);
        }
        reply
    }

    pub(crate) fn amount_of(&mut self, asset: &Asset) -> (reply: Option<Balance>)
        ensures
            final(self)@ == old(self)@.push(ServiceCall::AmountOf { asset: *asset, reply }),
            stays_true(
                old(self)@,
                old(self).histories(),
                final(self)@,
                final(self).histories(),
            ),
    {
        let ghost before = *self;
        let reply = self.matcher.matches_fungible(asset);
        let ghost call = ServiceCall::AmountOf { asset: *asset, reply };
        self.calls = Ghost(self.calls@.push(call));
        proof {
            assert(Self::asked(before, call, *self));
            lemma_stays_true(before@, before.histories(), call);
        }
        reply
    }

    pub(crate) fn deposit(
        &mut self,
        currency_id: CurrencyId,
        who: &AccountId,
        amount: Balance,
    ) -> (reply: Result<(), DispatchError>)
        ensures
            final(self)@ == old(self)@.push(
                ServiceCall::Currency(
                    CurrencyCall::Deposit { currency_id, who: *who, amount, reply },
                ),
            ),
            stays_true(
                old(self)@,
                old(self).histories(),
                final(self)@,
                final(self).histories(),
            ),
    {
        let ghost before = *self;
        let reply = self.multi_currency.deposit(currency_id, who, amount);
        let ghost call = ServiceCall::Currency(
            CurrencyCall::Deposit { currency_id, who: *who, amount, reply },
        );
        self.calls = Ghost(self.calls@.push(call));
        proof {
            assert(Self::asked(before, call, *self));
            lemma_stays_true(before@, before.histories(), call);
        }
        reply
    }

    pub(crate) fn withdraw(
        &mut self,
        currency_id: CurrencyId,
        who: &AccountId,
        amount: Balance,
        existence_requirement: ExistenceRequirement,
    ) -> (reply: Result<(), DispatchError>)
        ensures
            final(self)@ == old(self)@.push(
                ServiceCall::Currency(
                    CurrencyCall::Withdraw {
                        currency_id,
                        who: *who,
                        amount,
                        existence_requirement,
                        reply,
                    },
                ),
            ),
            stays_true(
                old(self)@,
                old(self).histories(),
                final(self)@,
                final(self).histories(),
            ),
    {
        let ghost before = *self;
        let reply = self.multi_currency.withdraw(currency_id, who, amount, existence_requirement);
        let ghost call = ServiceCall::Currency(
            CurrencyCall::Withdraw {
                currency_id,
                who: *who,
                amount,
                existence_requirement,
                reply,
            },
        );
        self.calls = Ghost(self.calls@.push(call));
        proof {
            assert(Self::asked(before, call, *self));
            lemma_stays_true(before@, before.histories(), call);
        }
        reply
    }

    pub(crate) fn transfer(
        &mut self,
        currency_id: CurrencyId,
        from: &AccountId,
        to: &AccountId,
        amount: Balance,
        existence_requirement: ExistenceRequirement,
    ) -> (reply: Result<(), DispatchError>)
        ensures
            final(self)@ == old(self)@.push(
                ServiceCall::Currency(
                    CurrencyCall::Transfer {
                        currency_id,
                        from: *from,
                        to: *to,
                        amount,
                        existence_requirement,
                        reply,
                    },
                ),
            ),
            stays_true(
                old(self)@,
                old(self).histories(),
                final(self)@,
                final(self).histories(),
            ),
    {
        let ghost before = *self;
        let reply = self.multi_currency.transfer(
            currency_id,
            from,
            to,
            amount,
            existence_requirement,
        );
        let ghost call = ServiceCall::Currency(
            CurrencyCall::Transfer {
                currency_id,
                from: *from,
                to: *to,
                amount,
                existence_requirement,
                reply,
            },
        );
        self.calls = Ghost(self.calls@.push(call));
        proof {
            assert(Self::asked(before, call, *self));
            lemma_stays_true(before@, before.histories(), call);
        }
        reply
    }

    pub(crate) fn unknown_deposit(
        &mut self,
        asset: &Asset,
        location: &Location,
    ) -> (reply: Result<(), DispatchError>)
        ensures
            final(self)@ == old(self)@.push(
                ServiceCall::Unknown(
                    UnknownAssetCall::Deposit { asset: *asset, location: *location, reply },
                ),
            ),
            stays_true(
                old(self)@,
                old(self).histories(),
                final(self)@,
                final(self).histories(),
            ),
    {
        let ghost before = *self;
        let reply = self.unknown_asset.deposit(asset, location);
        let ghost call = ServiceCall::Unknown(
            UnknownAssetCall::Deposit { asset: *asset, location: *location, reply },
        );
        self.calls = Ghost(self.calls@.push(call));
        proof {
            assert(Self::asked(before, call, *self));
            lemma_stays_true(before@, before.histories(), call);
        }
        reply
    }

    pub(crate) fn unknown_withdraw(
        &mut self,
        asset: &Asset,
        location: &Location,
    ) -> (reply: Result<(), DispatchError>)
        ensures
            final(self)@ == old(self)@.push(
                ServiceCall::Unknown(
                    UnknownAssetCall::Withdraw { asset: *asset, location: *location, reply },
                ),
            ),
            stays_true(
                old(self)@,
                old(self).histories(),
                final(self)@,
                final(self).histories(),
            ),
    {
        let ghost before = *self;
        let reply = self.unknown_asset.withdraw(asset, location);
        let ghost call = ServiceCall::Unknown(
            UnknownAssetCall::Withdraw { asset: *asset, location: *location, reply },
        );
        self.calls = Ghost(self.calls@.push(call));
        proof {
            assert(Self::asked(before, call, *self));
            lemma_stays_true(before@, before.histories(), call);
        }
        reply
    }

    pub(crate) fn on_currency_fail(
        &mut self,
        err: DispatchError,
        currency_id: CurrencyId,
        who: &AccountId,
        amount: Balance,
    ) -> (reply: Result<(), XcmError>)
        ensures
            final(self)@ == old(self)@.push(
                ServiceCall::OnCurrencyFail {
                    before: old(self).histories().handler,
                    err,
                    currency_id,
                    who: *who,
                    amount,
                    after: final(self).histories().handler,
                    reply,
                },
            ),
            stays_true(
                old(self)@,
                old(self).histories(),
                final(self)@,
                final(self).histories(),
            ),
            exists|handler: &mut DepositFailureHandler|
                {
                    &&& #[trigger] call_ensures(
                        DepositFailureHandler::on_deposit_currency_fail,
                        (handler, err, currency_id, who, amount),
                        reply,
                    )
                    &&& *handler == old(self).histories().handler
                    &&& *final(handler) == final(self).histories().handler
                },
            DepositFailureHandler::answers_currency_fail(
                old(self).histories().handler,
                err,
                currency_id,
                *who,
                amount,
                final(self).histories().handler,
                status(reply),
            ),
    {
        let ghost before = *self;
        let reply = self.deposit_failure_handler.on_deposit_currency_fail(
            err,
            currency_id,
            who,
            amount,
        );
        let ghost call = ServiceCall::OnCurrencyFail {
            before: before.deposit_failure_handler,
            err,
            currency_id,
            who: *who,
            amount,
            after: self.deposit_failure_handler,
            reply,
        };
        self.calls = Ghost(self.calls@.push(call));
        proof {
            assert(Self::asked(before, call, *self));
            lemma_stays_true(before@, before.histories(), call);
        }
        reply
    }

    pub(crate) fn on_unknown_asset_fail(
        &mut self,
        err: DispatchError,
        asset: &Asset,
        location: &Location,
    ) -> (reply: Result<(), XcmError>)
        ensures
            final(self)@ == old(self)@.push(
                ServiceCall::OnUnknownAssetFail {
                    before: old(self).histories().handler,
                    err,
                    asset: *asset,
                    location: *location,
                    after: final(self).histories().handler,
                    reply,
                },
            ),
            stays_true(
                old(self)@,
                old(self).histories(),
                final(self)@,
                final(self).histories(),
            ),
            exists|handler: &mut DepositFailureHandler|
                {
                    &&& #[trigger] call_ensures(
                        DepositFailureHandler::on_deposit_unknown_asset_fail,
                        (handler, err, asset, location),
                        reply,
                    )
                    &&& *handler == old(self).histories().handler
                    &&& *final(handler) == final(self).histories().handler
                },
            !DepositFailureHandler::answers_unknown_assets() ==> {
                &&& status(reply) == Err::<(), XcmErrorView>(transact_error_view(err))
                &&& final(self).histories().handler == old(self).histories().handler
            },
    {
        let ghost before = *self;
        let reply = self.deposit_failure_handler.on_deposit_unknown_asset_fail(
            err,
            asset,
            location,
        );
        let ghost call = ServiceCall::OnUnknownAssetFail {
            before: before.deposit_failure_handler,
            err,
            asset: *asset,
            location: *location,
            after: self.deposit_failure_handler,
            reply,
        };
        self.calls = Ghost(self.calls@.push(call));
        proof {
            assert(Self::asked(before, call, *self));
            lemma_stays_true(before@, before.histories(), call);
        }
        reply
    }

    /// Drops an entry of a holding register.
    pub(crate) fn settle(&mut self, entry: AssetsInHolding)
        ensures
            final(self)@ == old(self)@.push(ServiceCall::Settle { entry }),
            stays_true(
                old(self)@,
                old(self).histories(),
                final(self)@,
                final(self).histories(),
            ),
    {
        let ghost before = *self;
        let ghost call = ServiceCall::Settle { entry };
        self.calls = Ghost(self.calls@.push(call));
        proof {
            assert(Self::asked(before, call, *self));
            lemma_stays_true(before@, before.histories(), call);
        }
    }
}

} // verus!
