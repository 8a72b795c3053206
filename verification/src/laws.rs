use vstd::prelude::*;
use crate::contract::{rental_ok, return_car_ok, RentACarContract};
use crate::state::{
    car_index_in, count_rentals_for, has_rental_in, lemma_count_unique, lemma_sum_entry_le,
    lemma_sum_nonneg, sum_withdrawable, CarStatus, Transfer,
};

verus! {

/// Conservation of funds: in every well-formed state the custodied total
/// covers the admin's claim, and covers the owners' withdrawable claims.
/// `initialize` establishes well-formedness and every operation preserves
/// it, so this holds of every reachable state.
pub proof fn lemma_conservation(s: RentACarContract)
    requires
        s.inv(),
    ensures
        s.contract_balance >= s.admin_balance,
        s.contract_balance >= sum_withdrawable(s.cars@),
{
    lemma_sum_nonneg(s.cars@);
}

/// Exclusivity: in every well-formed state, a registered car is Rented
/// exactly when one active rental references it, and Available exactly
/// when none does.
pub proof fn lemma_exclusivity(s: RentACarContract, owner: u64)
    requires
        s.inv(),
        s.has_car(owner),
    ensures
        (s.car_of(owner).status == CarStatus::Rented) <==> (count_rentals_for(s.rentals@, owner)
            == 1),
        (s.car_of(owner).status == CarStatus::Available) <==> (count_rentals_for(
            s.rentals@,
            owner,
        ) == 0),
{
    lemma_count_unique(s.rentals@, owner);
    if s.car_of(owner).status == CarStatus::Rented {
        let i = car_index_in(s.cars@, owner);
        assert(0 <= i < s.cars@.len() && s.cars@[i].owner == owner);
        assert(s.cars@[i].car == s.car_of(owner));
        assert(has_rental_in(s.rentals@, owner));
    }
    if has_rental_in(s.rentals@, owner) {
        let w = choose|k: int| 0 <= k < s.rentals@.len() && s.rentals@[k].owner == owner;
        assert(s.rental_entry_ok(s.rentals@[w]));
    }
}

/// Round trip: renting a car and then returning it restores the car to
/// Available and deletes the rental record, leaves the owner's withdrawable
/// balance exactly as the rental settled it (principal credited, untouched
/// by the return), and moves no further funds. The rental ledger as a whole
/// returns to its pre-rental content.
pub proof fn lemma_rent_return_round_trip(
    s0: RentACarContract,
    s1: RentACarContract,
    s2: RentACarContract,
    t: Transfer,
    renter: u64,
    owner: u64,
    total_days_to_rent: u32,
    amount: i128,
)
    requires
        s0.inv(),
        s0.has_car(owner),
        s0.car_of(owner).status == CarStatus::Available,
        rental_ok(s0, s1, t, renter, owner, total_days_to_rent, amount),
        return_car_ok(s1, s2, owner),
    ensures
        s2.has_car(owner),
        s2.car_of(owner).status == CarStatus::Available,
        !s2.has_rental_for(owner),
        s2.car_of(owner).available_to_withdraw == s1.car_of(owner).available_to_withdraw,
        s2.car_of(owner).available_to_withdraw == s0.car_of(owner).available_to_withdraw + amount,
        s2.car_of(owner).price_per_day == s0.car_of(owner).price_per_day,
        s2.contract_balance == s1.contract_balance,
        s2.admin_balance == s1.admin_balance,
        forall|o: u64| #[trigger] s2.has_rental_for(o) == s0.has_rental_for(o),
        forall|o: u64| o != owner && s0.has_rental_for(o) ==> #[trigger] s2.rental_of(o)
            == s0.rental_of(o),
{
    s0.lemma_available_car_has_no_rental(owner);
    let i = car_index_in(s0.cars@, owner);
    assert(0 <= i < s0.cars@.len() && s0.cars@[i].owner == owner);
    assert(s0.cars@[i].car == s0.car_of(owner));
    lemma_sum_entry_le(s0.cars@, i);
    lemma_sum_nonneg(s0.cars@);
    assert(s0.car_of(owner).available_to_withdraw + amount <= i128::MAX);
    assert forall|o: u64| #[trigger] s2.has_rental_for(o) == s0.has_rental_for(o) by {
        if o != owner {
            assert(s1.has_rental_for(o) == s0.has_rental_for(o));
            assert(s2.has_rental_for(o) == s1.has_rental_for(o));
        }
    }
}

} // verus!
