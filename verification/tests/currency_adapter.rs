use frame_support::traits::tokens::imbalance::{
    ImbalanceAccounting, UnsafeConstructorDestructor, UnsafeManualAccounting,
};
use sp_runtime::DispatchError;
use staging_xcm::v5::{AssetId, AssetInstance, Junction, Location, XcmContext};
use staging_xcm_executor::AssetsInHolding;
use std::cell::RefCell;
use std::rc::Rc;
use xcm_currency_adapter::currency_adapter::MultiCurrencyAdapter;
use xcm_currency_adapter::deposit_fail::{DepositToAlternative, OnDepositFail};
use xcm_currency_adapter::eager_credit::EagerHolding;
use xcm_currency_adapter::services::{
    Convert, ConvertLocation, Get, MatchesFungible, MultiCurrency, Services, UnknownAsset,
};
use xcm_currency_adapter::teleport_currency_adapter::MultiTeleportCurrencyAdapter;
use xcm_currency_adapter::types::{Asset, ExistenceRequirement, Fungibility, XcmError};

/// What the services of a test are told to answer, and what they were asked.
#[derive(Default)]
struct State {
    log: Vec<String>,
    /// Classes that are no currency.
    no_currency: Vec<u32>,
    /// Classes whose assets stand for no amount.
    no_amount: Vec<u32>,
    /// Locations that are no account.
    no_account: Vec<u32>,
    /// Currencies whose ledger refuses.
    refused: Vec<u32>,
    /// Accounts that every ledger refuses.
    refused_accounts: Vec<u64>,
    /// Classes that the ledger of unknown assets refuses.
    unknown_refused: Vec<u32>,
    /// Whether the failure handler of the test answers with success.
    forgiving: bool,
}

#[derive(Clone, Default)]
struct Runtime(Rc<RefCell<State>>);

impl Runtime {
    fn note(&self, line: String) {
        self.0.borrow_mut().log.push(line);
    }

    fn log(&self) -> Vec<String> {
        self.0.borrow().log.clone()
    }

    /// The log without the questions.
    fn moves(&self) -> Vec<String> {
        self.log().into_iter().filter(|line| !line.starts_with('?')).collect()
    }
}

fn number(location: &Location) -> u32 {
    match location.interior().first() {
        Some(Junction::Parachain(n)) => *n,
        _ => 0,
    }
}

fn place(n: u32) -> Location {
    Location::new(1, [Junction::Parachain(n)])
}

fn class(n: u32) -> AssetId {
    AssetId(place(n))
}

fn amount_of_class(n: u32, amount: u128) -> Asset {
    Asset { id: class(n), fun: Fungibility::Fungible(amount) }
}

fn item_of_class(n: u32, item: u128) -> Asset {
    Asset { id: class(n), fun: Fungibility::NonFungible(AssetInstance::Index(item)) }
}

fn shown(asset: &Asset) -> String {
    match &asset.fun {
        Fungibility::Fungible(amount) => format!("{}*{}", amount, number(&asset.id.0)),
        Fungibility::NonFungible(AssetInstance::Index(item)) => {
            format!("#{}of{}", item, number(&asset.id.0))
        }
        Fungibility::NonFungible(_) => format!("#of{}", number(&asset.id.0)),
    }
}

impl MultiCurrency<u64, u32, u128> for Runtime {
    fn deposit(&mut self, currency_id: u32, who: &u64, amount: u128) -> Result<(), DispatchError> {
        let refused = self.0.borrow().refused.contains(&currency_id)
            || self.0.borrow().refused_accounts.contains(who);
        self.note(format!("deposit {}*{} to {}: {}", amount, currency_id, who, !refused));
        if refused {
            Err(DispatchError::Other("deposit refused"))
        } else {
            Ok(())
        }
    }

    fn withdraw(
        &mut self,
        currency_id: u32,
        who: &u64,
        amount: u128,
        existence_requirement: ExistenceRequirement,
    ) -> Result<(), DispatchError> {
        assert!(matches!(existence_requirement, ExistenceRequirement::AllowDeath));
        let refused = self.0.borrow().refused.contains(&currency_id);
        self.note(format!("withdraw {}*{} from {}: {}", amount, currency_id, who, !refused));
        if refused {
            Err(DispatchError::Other("withdrawal refused"))
        } else {
            Ok(())
        }
    }

    fn transfer(
        &mut self,
        currency_id: u32,
        from: &u64,
        to: &u64,
        amount: u128,
        existence_requirement: ExistenceRequirement,
    ) -> Result<(), DispatchError> {
        assert!(matches!(existence_requirement, ExistenceRequirement::AllowDeath));
        let refused = self.0.borrow().refused.contains(&currency_id);
        self.note(format!("transfer {}*{} {}->{}: {}", amount, currency_id, from, to, !refused));
        if refused {
            Err(DispatchError::Other("transfer refused"))
        } else {
            Ok(())
        }
    }
}

impl UnknownAsset for Runtime {
    fn deposit(&mut self, asset: &Asset, location: &Location) -> Result<(), DispatchError> {
        let refused = self.0.borrow().unknown_refused.contains(&number(&asset.id.0));
        self.note(format!("keep {} at {}: {}", shown(asset), number(location), !refused));
        if refused {
            Err(DispatchError::Other("unknown asset refused"))
        } else {
            Ok(())
        }
    }

    fn withdraw(&mut self, asset: &Asset, location: &Location) -> Result<(), DispatchError> {
        let refused = self.0.borrow().unknown_refused.contains(&number(&asset.id.0));
        self.note(format!("fetch {} at {}: {}", shown(asset), number(location), !refused));
        if refused {
            Err(DispatchError::Other("unknown asset not there"))
        } else {
            Ok(())
        }
    }
}

impl ConvertLocation<u64> for Runtime {
    fn convert_location(&mut self, location: &Location) -> Option<u64> {
        self.note(format!("?account {}", number(location)));
        if self.0.borrow().no_account.contains(&number(location)) {
            None
        } else {
            Some(1000 + number(location) as u64)
        }
    }
}

impl Convert<Asset, Option<u32>> for Runtime {
    fn convert(&mut self, asset: Asset) -> Option<u32> {
        self.note(format!("?currency {}", shown(&asset)));
        let n = number(&asset.id.0);
        if self.0.borrow().no_currency.contains(&n) {
            None
        } else {
            Some(n)
        }
    }
}

impl MatchesFungible<u128> for Runtime {
    fn matches_fungible(&mut self, asset: &Asset) -> Option<u128> {
        self.note(format!("?amount {}", shown(asset)));
        if self.0.borrow().no_amount.contains(&number(&asset.id.0)) {
            return None;
        }
        match asset.fun {
            Fungibility::Fungible(amount) => Some(amount),
            Fungibility::NonFungible(_) => None,
        }
    }
}

impl Get<u64> for Runtime {
    fn get(&mut self) -> u64 {
        77
    }
}

/// A failure handler with answers of its own.
impl OnDepositFail<u32, u64, u128> for Runtime {
    fn on_deposit_currency_fail(
        &mut self,
        err: DispatchError,
        currency_id: u32,
        who: &u64,
        amount: u128,
    ) -> Result<(), XcmError> {
        assert_eq!(err, DispatchError::Other("deposit refused"));
        self.note(format!("handle {}*{} to {}", amount, currency_id, who));
        if self.0.borrow().forgiving {
            Ok(())
        } else {
            Err(XcmError::Other(staging_xcm::v5::Error::NoDeal))
        }
    }

    fn on_deposit_unknown_asset_fail(
        &mut self,
        err: DispatchError,
        asset: &Asset,
        location: &Location,
    ) -> Result<(), XcmError> {
        assert_eq!(err, DispatchError::Other("unknown asset refused"));
        self.note(format!("handle {} at {}", shown(asset), number(location)));
        if self.0.borrow().forgiving {
            Ok(())
        } else {
            Err(XcmError::Other(staging_xcm::v5::Error::NotDepositable))
        }
    }
}

type Adapter<H> = MultiCurrencyAdapter<Runtime, Runtime, Runtime, u64, Runtime, u32, Runtime, H, u128>;

fn adapter<H: OnDepositFail<u32, u64, u128>>(runtime: &Runtime, handler: H) -> Adapter<H> {
    MultiCurrencyAdapter::new(Services::new(
        runtime.clone(),
        runtime.clone(),
        runtime.clone(),
        runtime.clone(),
        runtime.clone(),
        handler,
    ))
}

fn to_alternative(runtime: &Runtime) -> DepositToAlternative<Runtime, Runtime, u32, u64, u128> {
    DepositToAlternative::new(runtime.clone(), runtime.clone())
}

/// An imbalance that tells when it is dropped, and what it then was for.
struct RealCredit {
    amount: u128,
    runtime: Runtime,
}

impl Drop for RealCredit {
    fn drop(&mut self) {
        self.runtime.note(format!("drop {}", self.amount));
    }
}

impl UnsafeConstructorDestructor<u128> for RealCredit {
    fn unsafe_clone(&self) -> Box<dyn ImbalanceAccounting<u128>> {
        Box::new(RealCredit { amount: self.amount, runtime: self.runtime.clone() })
    }

    fn forget_imbalance(&mut self) -> u128 {
        std::mem::take(&mut self.amount)
    }
}

impl UnsafeManualAccounting<u128> for RealCredit {
    fn saturating_subsume(&mut self, mut other: Box<dyn ImbalanceAccounting<u128>>) {
        self.amount = self.amount.saturating_add(other.forget_imbalance());
    }
}

impl ImbalanceAccounting<u128> for RealCredit {
    fn amount(&self) -> u128 {
        self.amount
    }

    fn saturating_take(&mut self, amount: u128) -> Box<dyn ImbalanceAccounting<u128>> {
        let taken = self.amount.min(amount);
        self.amount -= taken;
        Box::new(RealCredit { amount: taken, runtime: self.runtime.clone() })
    }
}

/// A register that holds the given amounts and items.
fn register(runtime: &Runtime, amounts: &[(u32, u128)], items: &[(u32, u128)]) -> AssetsInHolding {
    let mut held = AssetsInHolding::new();
    for (n, amount) in amounts {
        let credit = RealCredit { amount: *amount, runtime: runtime.clone() };
        held.fungible.insert(class(*n), Box::new(credit));
    }
    for (n, item) in items {
        held.non_fungible.insert((class(*n), AssetInstance::Index(*item)));
    }
    held
}

fn listed(held: &AssetsInHolding) -> Vec<String> {
    held.assets_iter()
        .map(|asset| match asset.fun {
            staging_xcm::v5::Fungibility::Fungible(amount) => {
                shown(&amount_of_class(number(&asset.id.0), amount))
            }
            staging_xcm::v5::Fungibility::NonFungible(AssetInstance::Index(item)) => {
                shown(&item_of_class(number(&asset.id.0), item))
            }
            _ => panic!("not made here"),
        })
        .collect()
}

fn reason(error: XcmError) -> &'static str {
    match error {
        XcmError::FailedToTransactAsset(reason) => reason,
        _ => panic!("not a failure to transact"),
    }
}

fn context() -> XcmContext {
    XcmContext::with_message_id([0; 32])
}

#[test]
fn an_empty_register_makes_no_call() {
    let runtime = Runtime::default();
    let r = adapter(&runtime, ()).deposit_asset(AssetsInHolding::new(), &place(5), None);
    assert!(r.is_ok());
    assert!(runtime.log().is_empty());
}

#[test]
fn a_known_asset_goes_to_its_currency() {
    let runtime = Runtime::default();
    let what = register(&runtime, &[(2, 40)], &[]);
    let r = adapter(&runtime, ()).deposit_asset(what, &place(5), Some(&context()));
    assert!(r.is_ok());
    assert_eq!(
        runtime.log(),
        vec![
            "?account 5",
            "?currency 40*2",
            "?amount 40*2",
            "deposit 40*2 to 1005: true",
            "drop 40",
        ]
    );
}

#[test]
fn an_asset_without_account_is_unknown() {
    let runtime = Runtime::default();
    runtime.0.borrow_mut().no_account.push(5);
    let what = register(&runtime, &[(2, 40)], &[]);
    assert!(adapter(&runtime, ()).deposit_asset(what, &place(5), None).is_ok());
    assert_eq!(
        runtime.log(),
        vec!["?account 5", "?currency 40*2", "?amount 40*2", "keep 40*2 at 5: true", "drop 40"]
    );
}

#[test]
fn an_asset_without_currency_is_unknown() {
    let runtime = Runtime::default();
    runtime.0.borrow_mut().no_currency.push(2);
    let what = register(&runtime, &[(2, 40)], &[]);
    assert!(adapter(&runtime, ()).deposit_asset(what, &place(5), None).is_ok());
    assert_eq!(runtime.moves(), vec!["keep 40*2 at 5: true", "drop 40"]);
}

#[test]
fn an_asset_without_amount_is_unknown() {
    let runtime = Runtime::default();
    let what = register(&runtime, &[], &[(3, 8)]);
    assert!(adapter(&runtime, ()).deposit_asset(what, &place(5), None).is_ok());
    assert_eq!(runtime.moves(), vec!["keep #8of3 at 5: true"]);
}

#[test]
fn assets_are_deposited_in_the_order_of_the_register() {
    let runtime = Runtime::default();
    let what = register(&runtime, &[(3, 30), (1, 10), (2, 20)], &[(2, 6), (1, 9), (1, 4)]);
    assert!(adapter(&runtime, ()).deposit_asset(what, &place(5), None).is_ok());
    assert_eq!(
        runtime.moves(),
        vec![
            "deposit 10*1 to 1005: true",
            "drop 10",
            "deposit 20*2 to 1005: true",
            "drop 20",
            "deposit 30*3 to 1005: true",
            "drop 30",
            "keep #4of1 at 5: true",
            "keep #9of1 at 5: true",
            "keep #6of2 at 5: true",
        ]
    );
}

#[test]
fn what_follows_a_failure_is_handed_back_untouched() {
    let runtime = Runtime::default();
    runtime.0.borrow_mut().refused.push(2);
    let what = register(&runtime, &[(1, 10), (2, 20), (3, 30)], &[(1, 4), (2, 6)]);
    let before = listed(&what);
    match adapter(&runtime, ()).deposit_asset(what, &place(5), None) {
        Ok(()) => panic!("a refusal is no success"),
        Err((undeposited, error)) => {
            assert_eq!(reason(error), "deposit refused");
            assert_eq!(listed(&undeposited), before[1..].to_vec());
            assert_eq!(
                runtime.moves(),
                vec!["deposit 10*1 to 1005: true", "drop 10", "deposit 20*2 to 1005: false"]
            );
            drop(undeposited);
        }
    }
    // The imbalances that were handed back were still those of the register.
    assert_eq!(runtime.moves()[3..].to_vec(), vec!["drop 20", "drop 30"]);
}

#[test]
fn an_item_that_is_refused_is_handed_back() {
    let runtime = Runtime::default();
    runtime.0.borrow_mut().unknown_refused.push(2);
    let what = register(&runtime, &[(1, 10)], &[(1, 4), (2, 6), (2, 7), (3, 1)]);
    match adapter(&runtime, ()).deposit_asset(what, &place(5), None) {
        Ok(()) => panic!("a refusal is no success"),
        Err((undeposited, error)) => {
            assert_eq!(reason(error), "unknown asset refused");
            assert_eq!(listed(&undeposited), vec!["#6of2", "#7of2", "#1of3"]);
        }
    }
}

#[test]
fn a_retry_takes_up_where_the_failure_was() {
    let runtime = Runtime::default();
    runtime.0.borrow_mut().refused.push(2);
    let what = register(&runtime, &[(1, 10), (2, 20), (3, 30)], &[(1, 4)]);
    let mut adapter = adapter(&runtime, ());
    let undeposited = match adapter.deposit_asset(what, &place(5), None) {
        Ok(()) => panic!("a refusal is no success"),
        Err((undeposited, _)) => undeposited,
    };
    runtime.0.borrow_mut().refused.clear();
    assert!(adapter.deposit_asset(undeposited, &place(5), None).is_ok());
    assert_eq!(
        runtime.moves(),
        vec![
            "deposit 10*1 to 1005: true",
            "drop 10",
            "deposit 20*2 to 1005: false",
            "deposit 20*2 to 1005: true",
            "drop 20",
            "deposit 30*3 to 1005: true",
            "drop 30",
            "keep #4of1 at 5: true",
        ]
    );
}

#[test]
fn a_handler_decides_on_a_refused_currency() {
    let runtime = Runtime::default();
    runtime.0.borrow_mut().refused.push(2);
    let what = register(&runtime, &[(2, 20)], &[]);
    match adapter(&runtime, runtime.clone()).deposit_asset(what, &place(5), None) {
        Ok(()) => panic!("the handler refused"),
        Err((undeposited, error)) => {
            assert!(matches!(error, XcmError::Other(staging_xcm::v5::Error::NoDeal)));
            assert_eq!(listed(&undeposited), vec!["20*2"]);
        }
    }
    runtime.0.borrow_mut().forgiving = true;
    let what = register(&runtime, &[(2, 20)], &[]);
    assert!(adapter(&runtime, runtime.clone()).deposit_asset(what, &place(5), None).is_ok());
    assert_eq!(
        runtime.moves(),
        vec![
            "deposit 20*2 to 1005: false",
            "handle 20*2 to 1005",
            "drop 20",
            "deposit 20*2 to 1005: false",
            "handle 20*2 to 1005",
            "drop 20",
        ]
    );
}

#[test]
fn a_handler_decides_on_a_refused_unknown_asset() {
    let runtime = Runtime::default();
    runtime.0.borrow_mut().unknown_refused.push(2);
    let what = register(&runtime, &[], &[(2, 6)]);
    match adapter(&runtime, runtime.clone()).deposit_asset(what, &place(5), None) {
        Ok(()) => panic!("the handler refused"),
        Err((_, error)) => {
            assert!(matches!(error, XcmError::Other(staging_xcm::v5::Error::NotDepositable)))
        }
    }
    runtime.0.borrow_mut().forgiving = true;
    let what = register(&runtime, &[], &[(2, 6)]);
    assert!(adapter(&runtime, runtime.clone()).deposit_asset(what, &place(5), None).is_ok());
    assert_eq!(
        runtime.moves(),
        vec![
            "keep #6of2 at 5: false",
            "handle #6of2 at 5",
            "keep #6of2 at 5: false",
            "handle #6of2 at 5",
        ]
    );
}

#[test]
fn a_forgiven_unknown_asset_counts_as_deposited() {
    let runtime = Runtime::default();
    runtime.0.borrow_mut().unknown_refused.push(2);
    runtime.0.borrow_mut().forgiving = true;
    let what = register(&runtime, &[], &[(1, 4), (2, 6), (3, 1)]);
    assert!(adapter(&runtime, runtime.clone()).deposit_asset(what, &place(5), None).is_ok());
    assert_eq!(
        runtime.moves(),
        vec![
            "keep #4of1 at 5: true",
            "keep #6of2 at 5: false",
            "handle #6of2 at 5",
            "keep #1of3 at 5: true",
        ]
    );
}

#[test]
fn a_refused_deposit_goes_to_the_alternative_account() {
    let runtime = Runtime::default();
    runtime.0.borrow_mut().refused_accounts.push(1005);
    let what = register(&runtime, &[(2, 20)], &[]);
    let handler = to_alternative(&runtime);
    assert!(adapter(&runtime, handler).deposit_asset(what, &place(5), None).is_ok());
    assert_eq!(
        runtime.moves(),
        vec!["deposit 20*2 to 1005: false", "deposit 20*2 to 77: true", "drop 20"]
    );
}

#[test]
fn every_refused_currency_goes_to_the_alternative_account() {
    let runtime = Runtime::default();
    runtime.0.borrow_mut().refused_accounts.push(1009);
    let what = register(&runtime, &[(1, 10), (2, 20)], &[]);
    let handler = to_alternative(&runtime);
    assert!(adapter(&runtime, handler).deposit_asset(what, &place(9), None).is_ok());
    assert_eq!(
        runtime.moves(),
        vec![
            "deposit 10*1 to 1009: false",
            "deposit 10*1 to 77: true",
            "drop 10",
            "deposit 20*2 to 1009: false",
            "deposit 20*2 to 77: true",
            "drop 20",
        ]
    );
}

#[test]
fn the_alternative_account_may_be_refused_too() {
    let runtime = Runtime::default();
    runtime.0.borrow_mut().refused.push(2);
    let what = register(&runtime, &[(2, 20)], &[]);
    let handler = to_alternative(&runtime);
    match adapter(&runtime, handler).deposit_asset(what, &place(5), None) {
        Ok(()) => panic!("a refusal is no success"),
        Err((undeposited, error)) => {
            assert_eq!(reason(error), "deposit refused");
            assert_eq!(listed(&undeposited), vec!["20*2"]);
        }
    }
}

#[test]
fn unknown_assets_have_no_alternative_account() {
    let runtime = Runtime::default();
    runtime.0.borrow_mut().unknown_refused.push(2);
    let what = register(&runtime, &[], &[(2, 6)]);
    let handler = to_alternative(&runtime);
    match adapter(&runtime, handler).deposit_asset(what, &place(5), None) {
        Ok(()) => panic!("a refusal is no success"),
        Err((_, error)) => assert_eq!(reason(error), "unknown asset refused"),
    }
    assert_eq!(runtime.moves(), vec!["keep #6of2 at 5: false"]);
}

#[test]
fn the_empty_handler_passes_the_failure_on() {
    let mut handler = ();
    let r = OnDepositFail::<u32, u64, u128>::on_deposit_currency_fail(
        &mut handler,
        DispatchError::BadOrigin,
        1,
        &2,
        3,
    );
    assert_eq!(r.err().map(reason), Some("Bad origin"));
    let r = OnDepositFail::<u32, u64, u128>::on_deposit_unknown_asset_fail(
        &mut handler,
        DispatchError::CannotLookup,
        &amount_of_class(1, 1),
        &place(1),
    );
    assert_eq!(r.err().map(reason), Some("Cannot lookup"));
}

#[test]
fn a_known_asset_is_withdrawn_from_its_currency() {
    let runtime = Runtime::default();
    let asset = amount_of_class(2, 40);
    match adapter(&runtime, ()).withdraw_asset(&asset, &place(5), Some(&context())) {
        Ok(EagerHolding::Fungible { id, credit }) => {
            assert_eq!(id, class(2));
            assert_eq!(credit.amount(), 40);
        }
        _ => panic!("a receipt is due"),
    }
    assert_eq!(
        runtime.log(),
        vec![
            "?account 5",
            "?currency 40*2",
            "?amount 40*2",
            "withdraw 40*2 from 1005: true",
        ]
    );
}

#[test]
fn a_currency_that_refuses_has_the_last_word() {
    let runtime = Runtime::default();
    runtime.0.borrow_mut().refused.push(2);
    let asset = amount_of_class(2, 40);
    let r = adapter(&runtime, ()).withdraw_asset(&asset, &place(5), None);
    assert_eq!(r.err().map(reason), Some("withdrawal refused"));
    assert_eq!(runtime.moves(), vec!["withdraw 40*2 from 1005: false"]);
}

#[test]
fn an_unknown_asset_is_withdrawn_from_the_unknown() {
    let asset = amount_of_class(2, 40);
    let fetched = |runtime: &Runtime, log: Vec<&str>| {
        match adapter(runtime, ()).withdraw_asset(&asset, &place(5), None) {
            Ok(EagerHolding::Fungible { credit, .. }) => assert_eq!(credit.amount(), 40),
            _ => panic!("a receipt is due"),
        }
        assert_eq!(runtime.log(), log);
    };

    let runtime = Runtime::default();
    runtime.0.borrow_mut().no_account.push(5);
    fetched(&runtime, vec!["?account 5", "fetch 40*2 at 5: true"]);
    let runtime = Runtime::default();
    runtime.0.borrow_mut().no_currency.push(2);
    fetched(&runtime, vec!["?account 5", "?currency 40*2", "fetch 40*2 at 5: true"]);
    let runtime = Runtime::default();
    runtime.0.borrow_mut().no_amount.push(2);
    fetched(
        &runtime,
        vec!["?account 5", "?currency 40*2", "?amount 40*2", "fetch 40*2 at 5: true"],
    );
}

#[test]
fn a_withdrawal_fails_with_the_first_thing_unknown() {
    let runtime = Runtime::default();
    runtime.0.borrow_mut().unknown_refused.push(2);
    let asset = amount_of_class(2, 40);
    let failure = |runtime: &Runtime| {
        runtime.0.borrow_mut().log.clear();
        let r = adapter(runtime, ()).withdraw_asset(&asset, &place(5), None);
        assert_eq!(runtime.moves(), vec!["fetch 40*2 at 5: false"]);
        r.err().map(reason)
    };

    runtime.0.borrow_mut().no_amount.push(2);
    assert_eq!(failure(&runtime), Some("FailedToMatchFungible"));
    runtime.0.borrow_mut().no_currency.push(2);
    assert_eq!(failure(&runtime), Some("CurrencyIdConversionFailed"));
    runtime.0.borrow_mut().no_account.push(5);
    assert_eq!(failure(&runtime), Some("AccountIdConversionFailed"));
}

#[test]
fn an_item_is_withdrawn_as_itself() {
    let runtime = Runtime::default();
    match adapter(&runtime, ()).withdraw_asset(&item_of_class(3, 9), &place(5), None) {
        Ok(EagerHolding::NonFungible(held)) => assert_eq!(listed(&held), vec!["#9of3"]),
        _ => panic!("the item is due"),
    }
}

#[test]
fn minting_only_asks() {
    let runtime = Runtime::default();
    match adapter(&runtime, ()).mint_asset(&amount_of_class(2, 40), &context()) {
        Ok(EagerHolding::Fungible { id, credit }) => {
            assert_eq!(id, class(2));
            assert_eq!(credit.amount(), 40);
        }
        _ => panic!("a receipt is due"),
    }
    assert_eq!(runtime.log(), vec!["?currency 40*2", "?amount 40*2"]);
}

#[test]
fn what_cannot_be_minted_is_not_found() {
    let runtime = Runtime::default();
    let r = adapter(&runtime, ()).mint_asset(&item_of_class(2, 1), &context());
    assert!(matches!(r, Err(XcmError::AssetNotFound)));
    assert_eq!(runtime.log(), vec!["?currency #1of2", "?amount #1of2"]);

    let runtime = Runtime::default();
    runtime.0.borrow_mut().no_currency.push(2);
    let r = adapter(&runtime, ()).mint_asset(&amount_of_class(2, 40), &context());
    assert!(matches!(r, Err(XcmError::AssetNotFound)));
    assert_eq!(runtime.log(), vec!["?currency 40*2"]);
}

#[test]
fn a_transfer_moves_between_accounts() {
    let runtime = Runtime::default();
    let asset = amount_of_class(2, 40);
    match adapter(&runtime, ()).internal_transfer_asset(&asset, &place(5), &place(6), &context()) {
        Ok(moved) => assert_eq!(shown(&moved), "40*2"),
        Err(_) => panic!("the transfer is due"),
    }
    assert_eq!(
        runtime.log(),
        vec![
            "?account 5",
            "?account 6",
            "?currency 40*2",
            "?amount 40*2",
            "transfer 40*2 1005->1006: true",
        ]
    );
}

#[test]
fn a_transfer_fails_at_the_first_thing_unknown() {
    let runtime = Runtime::default();
    let asset = amount_of_class(2, 40);
    let failure = |runtime: &Runtime| {
        runtime.0.borrow_mut().log.clear();
        let mut adapter = adapter(runtime, ());
        let r = adapter.internal_transfer_asset(&asset, &place(5), &place(6), &context());
        (r.err().map(reason), runtime.log().len())
    };

    runtime.0.borrow_mut().refused.push(2);
    assert_eq!(failure(&runtime), (Some("transfer refused"), 5));
    runtime.0.borrow_mut().no_amount.push(2);
    assert_eq!(failure(&runtime), (Some("FailedToMatchFungible"), 4));
    runtime.0.borrow_mut().no_currency.push(2);
    assert_eq!(failure(&runtime), (Some("CurrencyIdConversionFailed"), 3));
    runtime.0.borrow_mut().no_account.push(6);
    assert_eq!(failure(&runtime), (Some("AccountIdConversionFailed"), 2));
    runtime.0.borrow_mut().no_account.push(5);
    assert_eq!(failure(&runtime), (Some("AccountIdConversionFailed"), 1));
}

/// The register that the executor would hold for what was handed out.
fn received(runtime: &Runtime, holding: EagerHolding) -> AssetsInHolding {
    match holding {
        EagerHolding::Fungible { id, credit } => {
            register(runtime, &[(number(&id.0), credit.amount())], &[])
        }
        EagerHolding::NonFungible(held) => held,
    }
}

#[test]
fn what_is_minted_is_issued_once_and_in_full() {
    let runtime = Runtime::default();
    let mut adapter = adapter(&runtime, ());
    let holding = adapter.mint_asset(&amount_of_class(2, 40), &context()).ok().unwrap();
    assert!(runtime.moves().is_empty());
    let what = received(&runtime, holding);
    assert!(adapter.deposit_asset(what, &place(6), None).is_ok());
    assert_eq!(runtime.moves(), vec!["deposit 40*2 to 1006: true", "drop 40"]);
}

#[test]
fn what_is_withdrawn_is_issued_once_and_in_full() {
    let runtime = Runtime::default();
    let mut adapter = adapter(&runtime, ());
    let holding = adapter.withdraw_asset(&amount_of_class(2, 40), &place(5), None).ok().unwrap();
    let what = received(&runtime, holding);
    assert!(adapter.deposit_asset(what, &place(6), None).is_ok());
    assert_eq!(
        runtime.moves(),
        vec!["withdraw 40*2 from 1005: true", "deposit 40*2 to 1006: true", "drop 40"]
    );
}

#[test]
fn an_item_that_is_withdrawn_is_put_back_once() {
    let runtime = Runtime::default();
    let mut adapter = adapter(&runtime, ());
    let holding = adapter.withdraw_asset(&item_of_class(3, 9), &place(5), None).ok().unwrap();
    let what = received(&runtime, holding);
    assert!(adapter.deposit_asset(what, &place(6), None).is_ok());
    assert_eq!(runtime.moves(), vec!["fetch #9of3 at 5: true", "keep #9of3 at 6: true"]);
}

#[test]
fn no_asset_is_teleported_in_without_the_hooks() {
    let runtime = Runtime::default();
    let asset = amount_of_class(2, 40);
    let r = adapter(&runtime, ()).can_check_in(&place(5), &asset, &context());
    assert!(matches!(r, Err(XcmError::Unimplemented)));
    assert!(runtime.log().is_empty());
}

#[test]
fn teleports_are_checked_in_without_a_call() {
    let runtime = Runtime::default();
    let mut teleport = MultiTeleportCurrencyAdapter::new(adapter(&runtime, ()));
    let asset = amount_of_class(2, 40);
    assert!(teleport.can_check_in(&place(5), &asset, &context()).is_ok());
    teleport.check_in(&place(5), &asset, &context());
    assert!(runtime.log().is_empty());
}

#[test]
fn a_teleporting_adapter_moves_assets_as_the_other_does() {
    let asset = amount_of_class(2, 40);
    let plain_runtime = Runtime::default();
    plain_runtime.0.borrow_mut().refused.push(3);
    plain_runtime.0.borrow_mut().unknown_refused.push(2);
    let mut plain = adapter(&plain_runtime, ());
    let what = register(&plain_runtime, &[(1, 10), (3, 30)], &[(1, 4)]);
    let plain_left = plain.deposit_asset(what, &place(5), None).err().map(|(left, error)| {
        (listed(&left), reason(error))
    });
    assert!(plain.withdraw_asset(&asset, &place(5), None).is_ok());
    assert!(plain.mint_asset(&asset, &context()).is_ok());
    let plain_moved = plain.internal_transfer_asset(&asset, &place(5), &place(6), &context());

    let runtime = Runtime::default();
    runtime.0.borrow_mut().refused.push(3);
    runtime.0.borrow_mut().unknown_refused.push(2);
    let mut teleport = MultiTeleportCurrencyAdapter::new(adapter(&runtime, ()));
    let what = register(&runtime, &[(1, 10), (3, 30)], &[(1, 4)]);
    let left = teleport.deposit_asset(what, &place(5), None).err().map(|(left, error)| {
        (listed(&left), reason(error))
    });
    assert!(teleport.withdraw_asset(&asset, &place(5), None).is_ok());
    assert!(teleport.mint_asset(&asset, &context()).is_ok());
    let moved = teleport.internal_transfer_asset(&asset, &place(5), &place(6), &context());

    assert_eq!(moved.ok().map(|asset| shown(&asset)), Some("40*2".to_string()));
    assert_eq!(plain_moved.ok().map(|asset| shown(&asset)), Some("40*2".to_string()));
    assert_eq!(runtime.moves().last().unwrap(), "transfer 40*2 1005->1006: true");
    assert_eq!(left, plain_left);
    assert_eq!(left, Some((vec!["30*3".to_string(), "#4of1".to_string()], "deposit refused")));
    assert_eq!(runtime.log(), plain_runtime.log());
}
