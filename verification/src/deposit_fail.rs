//! What happens to a deposit that a ledger refuses.
use crate::error::{ledger_status, report, transact_error, transact_error_view};
use crate::services::{CurrencyCall, Get, MultiCurrency};
use crate::types::{status, Asset, XcmError, XcmErrorView};
use sp_runtime::DispatchError;
use staging_xcm::v5::Location;
use std::marker::PhantomData;
use vstd::prelude::*;

verus! {

/// Deposit errors handler. The implementation for `()` answers with an
/// [`XcmError::FailedToTransactAsset`] error.
pub trait OnDepositFail<CurrencyId, AccountId, Balance>: Sized {
    /// What the handler may do about a refused currency deposit, and answer to
    /// it: anything, unless the handler says otherwise.
    open spec fn answers_currency_fail(
        before: Self,
        err: DispatchError,
        currency_id: CurrencyId,
        who: AccountId,
        amount: Balance,
        after: Self,
        reply: Result<(), XcmErrorView>,
    ) -> bool {
        true
    }

    /// Whether the handler may have an answer of its own to a refused deposit of
    /// an unknown asset, as it may unless it says otherwise.
    open spec fn answers_unknown_assets() -> bool {
        true
    }

    /// Called on deposit errors with a specific `currency_id`.
    fn on_deposit_currency_fail(
        &mut self,
        err: DispatchError,
        currency_id: CurrencyId,
        who: &AccountId,
        amount: Balance,
    ) -> (r: Result<(), XcmError>)
        ensures
            Self::answers_currency_fail(
                *old(self),
                err,
                currency_id,
                *who,
                amount,
                *final(self),
                status(r),
            ),
    ;

    /// Called on unknown asset deposit errors. A handler without an answer of its
    /// own passes the refusal on.
    fn on_deposit_unknown_asset_fail(
        &mut self,
        err: DispatchError,
        _asset: &Asset,
        _location: &Location,
    ) -> (r: Result<(), XcmError>)
        ensures
            !Self::answers_unknown_assets() ==> {
                &&& status(r) == Err::<(), XcmErrorView>(transact_error_view(err))
                &&& *final(self) == *old(self)
            },
        default_ensures
            status(r) == Err::<(), XcmErrorView>(transact_error_view(err)),
            *final(self) == *old(self),
    {
        Err(transact_error(err))
    }
}

impl<CurrencyId, AccountId, Balance> OnDepositFail<CurrencyId, AccountId, Balance> for () {
    /// The refusal is passed on.
    open spec fn answers_currency_fail(
        before: (),
        err: DispatchError,
        currency_id: CurrencyId,
        who: AccountId,
        amount: Balance,
        after: (),
        reply: Result<(), XcmErrorView>,
    ) -> bool {
        reply == Err::<(), XcmErrorView>(transact_error_view(err))
    }

    open spec fn answers_unknown_assets() -> bool {
        false
    }

    fn on_deposit_currency_fail(
        &mut self,
        err: DispatchError,
        _currency_id: CurrencyId,
        _who: &AccountId,
        _amount: Balance,
    ) -> (r: Result<(), XcmError>) {
        Err(transact_error(err))
    }
}

/// `OnDepositFail` implementation that deposits known currencies to an
/// alternative account.
pub struct DepositToAlternative<Alternative, MultiCurrencyT, CurrencyId, AccountId, Balance> {
    alternative: Alternative,
    multi_currency: MultiCurrencyT,
    terms: PhantomData<(CurrencyId, AccountId, Balance)>,
}

impl<
    Alternative: Get<AccountId>,
    MultiCurrencyT: MultiCurrency<AccountId, CurrencyId, Balance>,
    CurrencyId: Copy,
    AccountId,
    Balance: Copy,
> DepositToAlternative<Alternative, MultiCurrencyT, CurrencyId, AccountId, Balance> {
    /// The accounts that the handler was given to deposit to, oldest first.
    pub closed spec fn accounts(&self) -> Seq<AccountId> {
        self.alternative.made()
    }

    /// The calls that the handler's ledgers were asked to serve, oldest first.
    pub closed spec fn ledgers(&self) -> Seq<CurrencyCall<AccountId, CurrencyId, Balance>> {
        self.multi_currency.made()
    }

    /// A handler that deposits to the account that `alternative` gives.
    pub fn new(alternative: Alternative, multi_currency: MultiCurrencyT) -> (r: Self)
        ensures
            r.accounts() == alternative.made(),
            r.ledgers() == multi_currency.made(),
    {
        DepositToAlternative { alternative, multi_currency, terms: PhantomData }
    }

    /// Whether a refused deposit has gone to the alternative account: the account
    /// is asked for once, the whole amount is deposited there once, in the same
    /// currency, and the answer is that of this deposit.
    pub open spec fn redirected(
        before: Self,
        currency_id: CurrencyId,
        amount: Balance,
        after: Self,
        reply: Result<(), XcmErrorView>,
    ) -> bool {
        &&& after.accounts().len() == before.accounts().len() + 1
        &&& after.accounts().drop_last() == before.accounts()
        &&& after.ledgers().len() == before.ledgers().len() + 1
        &&& after.ledgers().drop_last() == before.ledgers()
        &&& after.ledgers().last() matches CurrencyCall::Deposit {
            currency_id: c,
            who,
            amount: a,
            reply: served,
        }
        &&& c == currency_id
        &&& who == after.accounts().last()
        &&& a == amount
        &&& reply == ledger_status(served)
    }
}

impl<
    Alternative: Get<AccountId>,
    MultiCurrencyT: MultiCurrency<AccountId, CurrencyId, Balance>,
    CurrencyId: Copy,
    AccountId,
    Balance: Copy,
> OnDepositFail<CurrencyId, AccountId, Balance> for DepositToAlternative<
    Alternative,
    MultiCurrencyT,
    CurrencyId,
    AccountId,
    Balance,
> {
    /// The deposit goes to the alternative account.
    open spec fn answers_currency_fail(
        before: Self,
        err: DispatchError,
        currency_id: CurrencyId,
        who: AccountId,
        amount: Balance,
        after: Self,
        reply: Result<(), XcmErrorView>,
    ) -> bool {
        Self::redirected(before, currency_id, amount, after, reply)
    }

    open spec fn answers_unknown_assets() -> bool {
        false
    }

    fn on_deposit_currency_fail(
        &mut self,
        _err: DispatchError,
        currency_id: CurrencyId,
        _who: &AccountId,
        amount: Balance,
    ) -> (r: Result<(), XcmError>) {
        let account = self.alternative.get();
        let r = report(self.multi_currency.deposit(currency_id, &account, amount));
        assert(self.accounts().drop_last() =~= old(self).accounts());
        assert(self.ledgers().drop_last() =~= old(self).ledgers());
        r
    }
}

} // verus!
