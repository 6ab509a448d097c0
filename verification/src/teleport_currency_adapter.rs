//! The adapter with the check-in hooks of teleports enabled.
use crate::currency_adapter::{
    joined, minting, register_deposit, transferral, withdrawal, MultiCurrencyAdapter,
};
use crate::deposit_fail::OnDepositFail;
use crate::eager_credit::EagerHolding;
use crate::services::{
    grew, Convert, ConvertLocation, Histories, MatchesFungible, MultiCurrency, ServiceCall,
    UnknownAsset,
};
use crate::types::{status, Asset, XcmError};
use staging_xcm::v5::{Location, XcmContext};
use staging_xcm_executor::AssetsInHolding;
use vstd::prelude::*;

verus! {

/// `MultiCurrencyAdapter` with the teleport check hooks enabled.
///
/// Asset movement is delegated to `MultiCurrencyAdapter` so that both adapters
/// keep the same holding-register semantics; only `can_check_in` and `check_in`
/// differ.
pub struct MultiTeleportCurrencyAdapter<
    MultiCurrencyT,
    UnknownAssetT,
    Match,
    AccountId,
    AccountIdConvert,
    CurrencyId,
    CurrencyIdConvert,
    DepositFailureHandler,
    Balance,
> {
    adapter: MultiCurrencyAdapter<
        MultiCurrencyT,
        UnknownAssetT,
        Match,
        AccountId,
        AccountIdConvert,
        CurrencyId,
        CurrencyIdConvert,
        DepositFailureHandler,
        Balance,
    >,
}

impl<
    MultiCurrencyT,
    UnknownAssetT,
    Match,
    AccountId,
    AccountIdConvert,
    CurrencyId,
    CurrencyIdConvert,
    DepositFailureHandler,
    Balance,
> View for MultiTeleportCurrencyAdapter<
    MultiCurrencyT,
    UnknownAssetT,
    Match,
    AccountId,
    AccountIdConvert,
    CurrencyId,
    CurrencyIdConvert,
    DepositFailureHandler,
    Balance,
> {
    type V = Seq<ServiceCall<AccountId, CurrencyId, Balance, DepositFailureHandler>>;

    /// The calls made to the services so far, oldest first.
    closed spec fn view(&self) -> Seq<
        ServiceCall<AccountId, CurrencyId, Balance, DepositFailureHandler>,
    > {
        self.adapter@
    }
}

impl<
    MultiCurrencyT: MultiCurrency<AccountId, CurrencyId, Balance>,
    UnknownAssetT: UnknownAsset,
    Match: MatchesFungible<Balance>,
    AccountId,
    AccountIdConvert: ConvertLocation<AccountId>,
    CurrencyId: Copy,
    CurrencyIdConvert: Convert<Asset, Option<CurrencyId>>,
    DepositFailureHandler: OnDepositFail<CurrencyId, AccountId, Balance>,
    Balance: Copy,
> MultiTeleportCurrencyAdapter<
    MultiCurrencyT,
    UnknownAssetT,
    Match,
    AccountId,
    AccountIdConvert,
    CurrencyId,
    CurrencyIdConvert,
    DepositFailureHandler,
    Balance,
> {
    /// What the services have kept.
    pub closed spec fn histories(&self) -> Histories<
        AccountId,
        CurrencyId,
        Balance,
        DepositFailureHandler,
    > {
        self.adapter.histories()
    }

    /// Enables the hooks on an adapter.
    pub fn new(
        adapter: MultiCurrencyAdapter<
            MultiCurrencyT,
            UnknownAssetT,
            Match,
            AccountId,
            AccountIdConvert,
            CurrencyId,
            CurrencyIdConvert,
            DepositFailureHandler,
            Balance,
        >,
    ) -> (r: Self)
        ensures
            r@ == adapter@,
            r.histories() == adapter.histories(),
    {
        MultiTeleportCurrencyAdapter { adapter }
    }

    /// Any asset may be teleported in from anywhere.
    pub fn can_check_in(
        &mut self,
        _origin: &Location,
        _what: &Asset,
        _context: &XcmContext,
    ) -> (r: Result<(), XcmError>)
        ensures
            r is Ok,
            *final(self) == *old(self),
    {
        Ok(())
    }

    /// A teleport needs no bookkeeping.
    pub fn check_in(&mut self, _origin: &Location, _what: &Asset, _context: &XcmContext)
        ensures
            *final(self) == *old(self),
    {
    }

    /// See [`MultiCurrencyAdapter::deposit_asset`].
    pub fn deposit_asset(
        &mut self,
        what: AssetsInHolding,
        location: &Location,
        context: Option<&XcmContext>,
    ) -> (r: Result<(), (AssetsInHolding, XcmError)>)
        ensures
            old(self)@.is_prefix_of(final(self)@),
            grew(
                old(self).histories(),
                final(self)@.skip(old(self)@.len() as int),
                final(self).histories(),
            ),
            exists|
                runs: Seq<
                    Seq<ServiceCall<AccountId, CurrencyId, Balance, DepositFailureHandler>>,
                >,
            |
                {
                    &&& final(self)@.skip(old(self)@.len() as int) == joined(runs)
                    &&& #[trigger] register_deposit(what, *location, runs, r)
                },
            forall|i: int|
                old(self)@.len() <= i < final(self)@.len() ==> (#[trigger] final(self)@[i]
                    matches ServiceCall::OnUnknownAssetFail {
                        before,
                        err,
                        asset,
                        location,
                        after,
                        reply,
                    } ==> exists|handler: &mut DepositFailureHandler|
                    {
                        &&& #[trigger] call_ensures(
                            DepositFailureHandler::on_deposit_unknown_asset_fail,
                            (handler, err, &asset, &location),
                            reply,
                        )
                        &&& *handler == before
                        &&& *final(handler) == after
                    }),
    {
        self.adapter.deposit_asset(what, location, context)
    }

    /// See [`MultiCurrencyAdapter::withdraw_asset`].
    pub fn withdraw_asset(
        &mut self,
        asset: &Asset,
        location: &Location,
        maybe_context: Option<&XcmContext>,
    ) -> (r: Result<EagerHolding, XcmError>)
        ensures
            old(self)@.is_prefix_of(final(self)@),
            grew(
                old(self).histories(),
                final(self)@.skip(old(self)@.len() as int),
                final(self).histories(),
            ),
            withdrawal(
                *asset,
                *location,
                final(self)@.skip(old(self)@.len() as int),
                status(r),
            ),
            r matches Ok(holding) ==> holding.is_for(*asset),
    {
        self.adapter.withdraw_asset(asset, location, maybe_context)
    }

    /// See [`MultiCurrencyAdapter::mint_asset`].
    pub fn mint_asset(&mut self, asset: &Asset, context: &XcmContext) -> (r: Result<
        EagerHolding,
        XcmError,
    >)
        ensures
            old(self)@.is_prefix_of(final(self)@),
            grew(
                old(self).histories(),
                final(self)@.skip(old(self)@.len() as int),
                final(self).histories(),
            ),
            minting(*asset, final(self)@.skip(old(self)@.len() as int), status(r)),
            r matches Ok(holding) ==> holding.is_for(*asset),
    {
        self.adapter.mint_asset(asset, context)
    }

    /// See [`MultiCurrencyAdapter::internal_transfer_asset`].
    pub fn internal_transfer_asset(
        &mut self,
        asset: &Asset,
        from: &Location,
        to: &Location,
        context: &XcmContext,
    ) -> (r: Result<Asset, XcmError>)
        ensures
            old(self)@.is_prefix_of(final(self)@),
            grew(
                old(self).histories(),
                final(self)@.skip(old(self)@.len() as int),
                final(self).histories(),
            ),
            transferral(
                *asset,
                *from,
                *to,
                final(self)@.skip(old(self)@.len() as int),
                status(r),
            ),
            r matches Ok(moved) ==> moved == *asset,
    {
        self.adapter.internal_transfer_asset(asset, from, to, context)
    }
}

} // verus!
