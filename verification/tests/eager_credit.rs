use staging_xcm::v5::{AssetId, AssetInstance, Junction, Location};
use staging_xcm_executor::AssetsInHolding;
use xcm_currency_adapter::eager_credit::{eager_holding, EagerCredit, EagerHolding};
use xcm_currency_adapter::types::{Asset, Fungibility};

fn class(n: u32) -> AssetId {
    AssetId(Location::new(1, [Junction::Parachain(n)]))
}

#[test]
fn a_receipt_tells_its_amount() {
    assert_eq!(EagerCredit(41).amount(), 41);
    assert_eq!(EagerCredit(u128::MAX).amount(), u128::MAX);
}

#[test]
fn a_clone_is_for_the_same_amount() {
    let credit = EagerCredit(7);
    assert_eq!(credit.unsafe_clone().amount(), 7);
    assert_eq!(credit.amount(), 7);
}

#[test]
fn forgetting_empties_the_receipt() {
    let mut credit = EagerCredit(19);
    assert_eq!(credit.forget_imbalance(), 19);
    assert_eq!(credit.amount(), 0);
    assert_eq!(credit.forget_imbalance(), 0);
}

#[test]
fn subsuming_adds_up() {
    let mut credit = EagerCredit(30);
    credit.saturating_subsume(12);
    assert_eq!(credit.amount(), 42);
}

#[test]
fn subsuming_saturates() {
    let mut credit = EagerCredit(u128::MAX - 1);
    credit.saturating_subsume(1);
    assert_eq!(credit.amount(), u128::MAX);
    credit.saturating_subsume(5);
    assert_eq!(credit.amount(), u128::MAX);
}

#[test]
fn taking_splits_the_amount() {
    let mut credit = EagerCredit(100);
    assert_eq!(credit.saturating_take(30).amount(), 30);
    assert_eq!(credit.amount(), 70);
    assert_eq!(credit.saturating_take(70).amount(), 70);
    assert_eq!(credit.amount(), 0);
}

#[test]
fn taking_saturates() {
    let mut credit = EagerCredit(8);
    assert_eq!(credit.saturating_take(9).amount(), 8);
    assert_eq!(credit.amount(), 0);
    assert_eq!(credit.saturating_take(9).amount(), 0);
}

#[test]
fn taking_and_subsuming_gives_the_receipt_back() {
    for wanted in [0u128, 1, 50, u128::MAX] {
        let mut credit = EagerCredit(50);
        let mut taken = credit.saturating_take(wanted);
        credit.saturating_subsume(taken.forget_imbalance());
        assert_eq!(credit.amount(), 50);
    }
}

#[test]
fn an_amount_is_held_as_a_receipt() {
    let asset = Asset { id: class(2), fun: Fungibility::Fungible(77) };
    match eager_holding(&asset) {
        EagerHolding::Fungible { id, credit } => {
            assert_eq!(id, class(2));
            assert_eq!(credit.amount(), 77);
        }
        EagerHolding::NonFungible(_) => panic!("an amount is no item"),
    }
}

#[test]
fn an_item_is_held_as_itself() {
    let asset = Asset { id: class(3), fun: Fungibility::NonFungible(AssetInstance::Index(9)) };
    match eager_holding(&asset) {
        EagerHolding::Fungible { .. } => panic!("an item is no amount"),
        EagerHolding::NonFungible(register) => {
            assert_eq!(
                register,
                AssetsInHolding::new_from_non_fungible(class(3), AssetInstance::Index(9))
            );
            assert_eq!(register.len(), 1);
        }
    }
}
