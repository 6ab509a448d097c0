//! The executor's holding register.
//!
//! A register keeps fungible amounts and single items, at most one entry in
//! each place, in a fixed order. A fungible entry is an imbalance: dropping it
//! may run accounting of its own.
use crate::types::{same_place, Asset, Fungibility};
use staging_xcm::v5::{AssetId, AssetInstance};
use staging_xcm_executor::AssetsInHolding;
use vstd::prelude::*;

verus! {

/// Declares the holding register.
#[verifier::external_type_specification]
#[verifier::external_body]
pub struct ExAssetsInHolding(AssetsInHolding);

/// What a register holds, in the order in which `AssetsInHolding::assets_iter`
/// walks it.
pub uninterp spec fn held(register: AssetsInHolding) -> Seq<Asset>;

/// The entries of a register in that same order, each as a register of its own
/// that holds the very imbalance, as `AssetsInHolding::into_per_asset_holdings`
/// parts them.
pub uninterp spec fn entries(register: AssetsInHolding) -> Seq<AssetsInHolding>;

/// The asset of a register with a single entry.
pub open spec fn entry_asset(entry: AssetsInHolding) -> Asset {
    held(entry)[0]
}

/// Whether any two assets that both sequences hold stand in the same order in
/// both.
pub open spec fn same_order(a: Seq<Asset>, b: Seq<Asset>) -> bool {
    forall|i: int, j: int, k: int, l: int|
        #![trigger a[i], a[j], b[k], b[l]]
        0 <= i < a.len() && 0 <= j < a.len() && 0 <= k < b.len() && 0 <= l < b.len() && a[i] == b[k]
            && a[j] == b[l] ==> (i < j <==> k < l)
}

/// `AssetsInHolding::new`: a register that holds nothing.
#[verifier::external_body]
pub(crate) fn new_register() -> (r: AssetsInHolding)
    ensures
        held(r) == Seq::<Asset>::empty(),
        entries(r) == Seq::<AssetsInHolding>::empty(),
{
    AssetsInHolding::new()
}

/// `AssetsInHolding::new_from_non_fungible`: a register that holds the one item
/// and nothing else.
#[verifier::external_body]
pub(crate) fn new_from_non_fungible(class: AssetId, instance: AssetInstance) -> (r: AssetsInHolding)
    ensures
        held(r) == seq![Asset { id: class, fun: Fungibility::NonFungible(instance) }],
{
    AssetsInHolding::new_from_non_fungible(class, instance)
}

/// `AssetsInHolding::into_per_asset_holdings`: parts a register into its
/// entries, in the register's order. The entries hold what the register held,
/// one asset each, and no two take the same place: an amount is kept by its class,
/// an item by class and item.
#[verifier::external_body]
pub(crate) fn into_entries(register: AssetsInHolding) -> (r: Vec<AssetsInHolding>)
    ensures
        r@ == entries(register),
        r@.map_values(|entry: AssetsInHolding| held(entry)) == held(register).map_values(
            |asset: Asset| seq![asset],
        ),
        forall|i: int, j: int|
            0 <= i < r@.len() && 0 <= j < r@.len() && i != j ==> !#[trigger] same_place(
                entry_asset(r@[i]),
                entry_asset(r@[j]),
            ),
{
    register.into_per_asset_holdings().collect()
}

/// `AssetsInHolding::assets_iter`, of which the first item is taken: the asset
/// that the register's walk begins with. A fungible asset comes with the amount
/// of its imbalance.
#[verifier::external_body]
pub(crate) fn first_asset(register: &AssetsInHolding) -> (r: Option<Asset>)
    ensures
        r == (if held(*register).len() > 0 {
            Some(held(*register)[0])
        } else {
            None
        }),
{
    let asset = register.assets_iter().next()?;
    let fun = match asset.fun {
        staging_xcm::v5::Fungibility::Fungible(amount) => Fungibility::Fungible(amount),
        staging_xcm::v5::Fungibility::NonFungible(instance) => Fungibility::NonFungible(instance),
    };
    Some(Asset { id: asset.id, fun })
}

/// Whether one register is another with a single entry added, the others keeping
/// their order.
pub open spec fn added(
    smaller: AssetsInHolding,
    entry: AssetsInHolding,
    larger: AssetsInHolding,
) -> bool {
    exists|k: int|
        {
            &&& 0 <= k <= held(smaller).len()
            &&& held(larger) == #[trigger] held(smaller).insert(
                k,
                entry_asset(entry),
            )
            &&& entries(larger) == entries(smaller).insert(k, entry)
        }
}

/// `AssetsInHolding::subsume_assets`, for a single entry whose place in the
/// register is free: the entry is added as it is. (What becomes of two imbalances
/// in one place is left to the imbalances.) A register walks its amounts by the
/// order of their classes, and then its items by the order of class and item, so
/// two assets stand in the same order in every register that holds both.
#[verifier::external_body]
pub(crate) fn subsume_assets(register: &mut AssetsInHolding, entry: AssetsInHolding)
    requires
        held(entry).len() == 1,
        forall|i: int|
            0 <= i < held(*old(register)).len() ==> !same_place(
                #[trigger] held(*old(register))[i],
                entry_asset(entry),
            ),
    ensures
        added(*old(register), entry, *final(register)),
        forall|other: AssetsInHolding| #[trigger]
            same_order(held(other), held(*final(register))),
{
    register.subsume_assets(entry)
}

} // verus!
