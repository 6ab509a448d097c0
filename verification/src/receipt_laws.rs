//! What holds of receipts: of each operation on them, and of one after the other.
use crate::eager_credit::{eager_holding, EagerCredit, EagerHolding};
use crate::holding::held;
use crate::types::{Asset, Fungibility};
use vstd::prelude::*;

verus! {

/// What is split off is never more than was asked for, and exactly that whenever the
/// receipt holds as much; else it is all there is. Nothing of the amount is created
/// or lost.
pub proof fn law_take_gives_what_was_asked()
    ensures
        forall|credit: &mut EagerCredit, wanted: u128, taken: EagerCredit| #[trigger]
            call_ensures(EagerCredit::saturating_take, (credit, wanted), taken) ==> {
                &&& taken.0 <= wanted
                &&& credit.0 >= wanted ==> taken.0 == wanted
                &&& credit.0 <= wanted ==> final(credit).0 == 0
                &&& taken.0 + final(credit).0 == credit.0
            },
{
}

/// Adding to a receipt adds all of the amount while the sum is one that there is,
/// and never makes the receipt smaller; a sum that there is not leaves the largest
/// amount.
pub proof fn law_subsume_adds_all()
    ensures
        forall|credit: &mut EagerCredit, forgotten: u128| #[trigger]
            call_ensures(EagerCredit::saturating_subsume, (credit, forgotten), ()) ==> {
                &&& credit.0 + forgotten <= u128::MAX ==> final(credit).0 == credit.0 + forgotten
                &&& credit.0 + forgotten > u128::MAX ==> final(credit).0 == u128::MAX
            },
{
}

/// What is forgotten is the whole amount, and nothing of it stays.
pub proof fn law_forget_gives_the_whole()
    ensures
        forall|credit: &mut EagerCredit, amount: u128| #[trigger]
            call_ensures(EagerCredit::forget_imbalance, (credit,), amount) ==> {
                &&& amount == credit.0
                &&& final(credit).0 == 0
            },
{
}

/// A receipt tells the amount that it is for, and so does its clone.
pub proof fn law_clone_tells_the_same()
    ensures
        forall|credit: &EagerCredit, amount: u128| #[trigger]
            call_ensures(EagerCredit::amount, (credit,), amount) ==> amount == credit.0,
        forall|credit: &EagerCredit, clone: EagerCredit| #[trigger]
            call_ensures(EagerCredit::unsafe_clone, (credit,), clone) ==> clone.0 == credit.0,
{
}

/// The clone of an asset is the same asset: its class, and its amount or item.
pub proof fn law_asset_clone_is_the_asset()
    ensures
        forall|asset: &Asset, clone: Asset| #[trigger]
            call_ensures(<Asset as Clone>::clone, (asset,), clone) ==> {
                &&& clone.id == asset.id
                &&& clone.fun == asset.fun
            },
{
}

/// Splitting a receipt, forgetting the part that was split off and adding it again
/// gives the receipt back.
pub proof fn law_parts_make_the_whole()
    ensures
        forall|
            credit: &mut EagerCredit,
            wanted: u128,
            taken: EagerCredit,
            part: &mut EagerCredit,
            forgotten: u128,
            rest: &mut EagerCredit,
        |
            {
                &&& #[trigger] call_ensures(
                    EagerCredit::saturating_take,
                    (credit, wanted),
                    taken,
                )
                &&& *part == taken
                &&& #[trigger] call_ensures(EagerCredit::forget_imbalance, (part,), forgotten)
                &&& *rest == *final(credit)
                &&& #[trigger] call_ensures(
                    EagerCredit::saturating_subsume,
                    (rest, forgotten),
                    (),
                )
            } ==> final(rest).0 == credit.0 && final(part).0 == 0,
{
}

/// Taking twice is taking the sum: the second finds what the first has left.
pub proof fn law_taking_twice_takes_the_sum()
    ensures
        forall|
            first: &mut EagerCredit,
            a: u128,
            taken_a: EagerCredit,
            second: &mut EagerCredit,
            b: u128,
            taken_b: EagerCredit,
            whole: &mut EagerCredit,
            sum: u128,
            taken: EagerCredit,
        |
            {
                &&& #[trigger] call_ensures(EagerCredit::saturating_take, (first, a), taken_a)
                &&& *second == *final(first)
                &&& #[trigger] call_ensures(EagerCredit::saturating_take, (second, b), taken_b)
                &&& *whole == *first
                &&& sum == a + b
                &&& #[trigger] call_ensures(EagerCredit::saturating_take, (whole, sum), taken)
            } ==> {
                &&& taken.0 == taken_a.0 + taken_b.0
                &&& final(whole).0 == final(second).0
            },
{
}

/// What is put in the holding register for an asset is the asset: of an amount the
/// same class and the whole amount, of an item the very item and nothing besides.
pub proof fn law_holding_is_for_the_asset()
    ensures
        forall|asset: &Asset, holding: EagerHolding| #[trigger]
            call_ensures(eager_holding, (asset,), holding) ==> match asset.fun {
                Fungibility::Fungible(amount) => {
                    &&& holding matches EagerHolding::Fungible { id, credit }
                    &&& id == asset.id
                    &&& credit.0 == amount
                },
                Fungibility::NonFungible(_) => {
                    &&& holding matches EagerHolding::NonFungible(register)
                    &&& held(register) == seq![*asset]
                },
            },
{
    assert forall|asset: &Asset, holding: EagerHolding| #[trigger]
        call_ensures(eager_holding, (asset,), holding) implies match asset.fun {
        Fungibility::Fungible(amount) => {
            &&& holding matches EagerHolding::Fungible { id, credit }
            &&& id == asset.id
            &&& credit.0 == amount
        },
        Fungibility::NonFungible(_) => {
            &&& holding matches EagerHolding::NonFungible(register)
            &&& held(register) == seq![*asset]
        },
    } by {
        assert(holding.assets()[0] == *asset);
    }
}

} // verus!
