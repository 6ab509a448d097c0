//! Receipts for balances that have already been moved.
use crate::holding::{held, new_from_non_fungible};
use crate::types::{Asset, Fungibility};
use staging_xcm::v5::AssetId;
use staging_xcm_executor::AssetsInHolding;
use vstd::prelude::*;

verus! {

/// Holding entry for balances that are accounted for eagerly.
///
/// The holding register carries imbalances, and dropping an imbalance reverts
/// the underlying accounting. The ledgers here move a balance straight away and
/// have no imbalance to hand over. The holding entry is therefore a receipt for
/// work already done, and dropping it accounts for nothing.
pub struct EagerCredit(pub u128);

/// The sum of two amounts, or the largest amount if that is less.
pub open spec fn saturating_sum(a: u128, b: u128) -> int {
    if a + b <= u128::MAX {
        a + b
    } else {
        u128::MAX as int
    }
}

/// How much of `wanted` there is in `amount`.
pub open spec fn available(amount: u128, wanted: u128) -> u128 {
    if amount <= wanted {
        amount
    } else {
        wanted
    }
}

impl EagerCredit {
    /// A second receipt for the same amount. One of the two has to be
    /// forgotten, or the amount counts twice.
    pub fn unsafe_clone(&self) -> (r: EagerCredit)
        ensures
            r == *self,
    {
        EagerCredit(self.0)
    }

    /// Leaves the receipt empty, and gives the amount that it was for.
    pub fn forget_imbalance(&mut self) -> (amount: u128)
        ensures
            amount == old(self).0,
            final(self).0 == 0,
    {
        let amount: u128 = self.0;
        self.0 = 0;
        amount
    }

    /// Adds the amount that another imbalance was for when it was forgotten,
    /// up to the largest amount that there is.
    pub fn saturating_subsume(&mut self, forgotten: u128)
        ensures
            final(self).0 == saturating_sum(old(self).0, forgotten),
    {
        self.0 = self.0.saturating_add(forgotten);
    }

    /// The amount that the receipt is for.
    pub fn amount(&self) -> (amount: u128)
        ensures
            amount == self.0,
    {
        self.0
    }

    /// Splits off a receipt for `amount`, or for all there is if that is less.
    pub fn saturating_take(&mut self, amount: u128) -> (taken: EagerCredit)
        ensures
            taken.0 == available(old(self).0, amount),
            final(self).0 == old(self).0 - taken.0,
    {
        let taken: u128 = if self.0 <= amount {
            self.0
        } else {
            amount
        };
        self.0 = self.0 - taken;
        EagerCredit(taken)
    }
}

/// What goes into the holding register for an asset that has been moved.
pub enum EagerHolding {
    /// A receipt, to be boxed as an imbalance and held under `id`.
    Fungible { id: AssetId, credit: EagerCredit },
    /// A register that holds the item.
    NonFungible(AssetsInHolding),
}

impl EagerHolding {
    /// The assets that the register is to hold.
    pub open spec fn assets(self) -> Seq<Asset> {
        match self {
            EagerHolding::Fungible { id, credit } => seq![
                Asset { id, fun: Fungibility::Fungible(credit.0) },
            ],
            EagerHolding::NonFungible(register) => held(register),
        }
    }

    /// Whether the register is to hold the one asset, an amount of it as a
    /// receipt.
    pub open spec fn is_for(self, asset: Asset) -> bool {
        &&& self.assets() == seq![asset]
        &&& self is Fungible <==> asset.fun is Fungible
    }
}

/// Builds a holding register entry for an asset that has already been moved:
/// a receipt for the amount, or the item itself.
pub fn eager_holding(asset: &Asset) -> (r: EagerHolding)
    ensures
        r.is_for(*asset),
{
    match &asset.fun {
        Fungibility::Fungible(amount) => EagerHolding::Fungible {
            id: asset.id.clone(),
            credit: EagerCredit(*amount),
        },
        Fungibility::NonFungible(instance) => EagerHolding::NonFungible(
            new_from_non_fungible(asset.id.clone(), *instance),
        ),
    }
}

} // verus!
