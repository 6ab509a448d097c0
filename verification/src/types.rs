//! Assets and errors of the message format.
//!
//! Identifiers and locations are carried through and never looked into, so
//! they stay the values of the message format itself. An asset is taken apart,
//! so it is a type of this crate.
use sp_runtime::DispatchError;
use staging_xcm::v5::{AssetId, AssetInstance, Error as MessageError, Location, XcmContext};
use vstd::prelude::*;

verus! {

/// Declares the identity of a class of assets.
#[verifier::external_type_specification]
#[verifier::external_body]
pub struct ExAssetId(AssetId);

/// Declares the identity of one non-fungible item within its class.
#[verifier::external_type_specification]
#[verifier::external_body]
pub struct ExAssetInstance(AssetInstance);

/// Declares a relative path to an account, a chain or a part of one.
#[verifier::external_type_specification]
#[verifier::external_body]
pub struct ExLocation(Location);

/// Declares the circumstances of the message being executed.
#[verifier::external_type_specification]
#[verifier::external_body]
pub struct ExXcmContext(XcmContext);

/// Declares the errors of the message format.
#[verifier::external_type_specification]
#[verifier::external_body]
pub struct ExMessageError(MessageError);

/// Declares the reason for which a ledger refused a call.
#[verifier::external_type_specification]
#[verifier::external_body]
pub struct ExDispatchError(DispatchError);

/// `AssetId::clone`, which `derive` wrote: the clone is the same identity.
pub assume_specification[ <AssetId as Clone>::clone ](id: &AssetId) -> (r: AssetId)
    ensures
        r == *id,
;

/// Whether an asset is an amount or a single item.
pub enum Fungibility {
    /// A number of interchangeable units.
    Fungible(u128),
    /// The one item with this identity.
    NonFungible(AssetInstance),
}

/// An asset: what it is, and how much or which one of it.
pub struct Asset {
    /// The class of the asset.
    pub id: AssetId,
    /// The amount, or the item within the class.
    pub fun: Fungibility,
}

impl Clone for Asset {
    fn clone(&self) -> (r: Self)
        ensures
            r == *self,
    {
        let fun = match &self.fun {
            Fungibility::Fungible(amount) => Fungibility::Fungible(*amount),
            Fungibility::NonFungible(instance) => Fungibility::NonFungible(*instance),
        };
        Asset { id: self.id.clone(), fun }
    }
}

/// Whether two assets take the same place in a holding register: fungible
/// amounts of one class do, and so does an item with itself.
pub open spec fn same_place(a: Asset, b: Asset) -> bool {
    &&& a.id == b.id
    &&& match (a.fun, b.fun) {
        (Fungibility::Fungible(_), Fungibility::Fungible(_)) => true,
        (Fungibility::NonFungible(x), Fungibility::NonFungible(y)) => x == y,
        _ => false,
    }
}

/// Whether an account may be closed by taking its last balance.
pub enum ExistenceRequirement {
    /// The account must survive.
    KeepAlive,
    /// The account may be closed.
    AllowDeath,
}

/// Why an asset could not be moved.
pub enum XcmError {
    /// The asset is not handled here; another adapter may still handle it.
    AssetNotFound,
    /// The operation is not offered here.
    Unimplemented,
    /// Moving the asset failed, for the reason given.
    FailedToTransactAsset(&'static str),
    /// Any other error of the message format, as a deposit failure handler of
    /// the runtime may answer it.
    Other(MessageError),
}

/// [`XcmError`], with the reason as its characters.
pub enum XcmErrorView {
    AssetNotFound,
    Unimplemented,
    FailedToTransactAsset(Seq<char>),
    Other(MessageError),
}

impl View for XcmError {
    type V = XcmErrorView;

    open spec fn view(&self) -> XcmErrorView {
        match self {
            XcmError::AssetNotFound => XcmErrorView::AssetNotFound,
            XcmError::Unimplemented => XcmErrorView::Unimplemented,
            XcmError::FailedToTransactAsset(reason) => XcmErrorView::FailedToTransactAsset(reason@),
            XcmError::Other(error) => XcmErrorView::Other(*error),
        }
    }
}

/// Whether moving an asset succeeded, or else the error by its view.
pub open spec fn status<T>(r: Result<T, XcmError>) -> Result<(), XcmErrorView> {
    match r {
        Ok(_) => Ok(()),
        Err(error) => Err(error@),
    }
}

} // verus!
