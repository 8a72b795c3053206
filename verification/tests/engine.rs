use rent_a_car::auth::Auth;
use rent_a_car::contract::RentACarContract;
use rent_a_car::error::Error;
use rent_a_car::state::{Car, CarEntry, CarStatus, Party, RentalRecord, Transfer};

const ADMIN: u64 = 1;
const OWNER: u64 = 2;
const RENTER: u64 = 3;
const TOKEN: u64 = 9;

fn auth_for(principal: u64) -> Auth {
    Auth { signers: vec![principal] }
}

/// Admin fee 10, car listed, rented for 5 days at 100.
fn rented_state() -> RentACarContract {
    let admin = auth_for(ADMIN);
    let s = RentACarContract::initialize(ADMIN, TOKEN);
    let s = s.set_admin_fee(&admin, 10).unwrap();
    let s = s.add_car(&admin, OWNER, 50).unwrap();
    let out = s.rental(&auth_for(RENTER), RENTER, OWNER, 5, 100).unwrap();
    out.state
}

#[test]
fn initialize_starts_empty() {
    let s = RentACarContract::initialize(ADMIN, TOKEN);
    assert_eq!(s.admin, ADMIN);
    assert_eq!(s.token, TOKEN);
    assert_eq!(s.admin_fee, 0);
    assert_eq!(s.admin_balance, 0);
    assert_eq!(s.contract_balance, 0);
    assert_eq!(s.cars.len(), 0);
    assert_eq!(s.rentals.len(), 0);
    assert_eq!(s.get_admin_fee(), Ok(0));
    assert_eq!(s.get_car_status(OWNER), Err(Error::CarNotFound));
    assert_eq!(s.get_owner_balance(OWNER), Err(Error::CarNotFound));
}

#[test]
fn set_admin_fee_updates_rate() {
    let s = RentACarContract::initialize(ADMIN, TOKEN);
    let s = s.set_admin_fee(&auth_for(ADMIN), 10).unwrap();
    assert_eq!(s.get_admin_fee(), Ok(10));
    // Zero is an accepted rate.
    let s = s.set_admin_fee(&auth_for(ADMIN), 0).unwrap();
    assert_eq!(s.get_admin_fee(), Ok(0));
}

#[test]
fn set_admin_fee_rejects_negative() {
    let s = RentACarContract::initialize(ADMIN, TOKEN);
    assert_eq!(
        s.set_admin_fee(&auth_for(ADMIN), -1).err(),
        Some(Error::AmountMustBePositive)
    );
}

#[test]
fn add_car_lists_available_car() {
    let s = RentACarContract::initialize(ADMIN, TOKEN);
    let s = s.add_car(&auth_for(ADMIN), OWNER, 50).unwrap();
    assert_eq!(s.get_car_status(OWNER), Ok(CarStatus::Available));
    assert_eq!(s.get_owner_balance(OWNER), Ok(0));
    assert_eq!(s.cars.len(), 1);
    assert_eq!(s.cars[0].car.price_per_day, 50);
}

#[test]
fn scenario_a_rental_settles_all_three_ledgers() {
    let admin = auth_for(ADMIN);
    let s = RentACarContract::initialize(ADMIN, TOKEN);
    let s = s.set_admin_fee(&admin, 10).unwrap();
    let s = s.add_car(&admin, OWNER, 50).unwrap();
    let out = s.rental(&auth_for(RENTER), RENTER, OWNER, 5, 100).unwrap();
    assert_eq!(
        out.transfer,
        Transfer { token: TOKEN, from: Party::Account(RENTER), to: Party::Contract, amount: 110 }
    );
    let s = out.state;
    assert_eq!(s.contract_balance, 110);
    assert_eq!(s.admin_balance, 10);
    assert_eq!(s.get_owner_balance(OWNER), Ok(100));
    assert_eq!(s.get_car_status(OWNER), Ok(CarStatus::Rented));
    assert_eq!(
        s.rentals,
        vec![RentalRecord { renter: RENTER, owner: OWNER, total_days_to_rent: 5, amount: 100 }]
    );
}

#[test]
fn scenario_b_payout_debits_both_balances() {
    let s = rented_state();
    let out = s.payout_owner(&auth_for(OWNER), OWNER, 100).unwrap();
    assert_eq!(
        out.transfer,
        Transfer { token: TOKEN, from: Party::Contract, to: Party::Account(OWNER), amount: 100 }
    );
    assert_eq!(out.state.contract_balance, 10);
    assert_eq!(out.state.get_owner_balance(OWNER), Ok(0));
    // The admin's claim is untouched.
    assert_eq!(out.state.admin_balance, 10);
}

#[test]
fn scenario_c_payout_over_withdrawable_fails() {
    let s = rented_state();
    assert_eq!(
        s.payout_owner(&auth_for(OWNER), OWNER, 150).err(),
        Some(Error::BalanceNotAvailableForAmountRequested)
    );
    // A failed operation returns no successor: the state is unchanged.
    assert_eq!(s.get_owner_balance(OWNER), Ok(100));
    assert_eq!(s.contract_balance, 110);
}

#[test]
fn scenario_d_second_rental_on_rented_car_fails() {
    let s = rented_state();
    assert_eq!(
        s.rental(&auth_for(4), 4, OWNER, 3, 100).err(),
        Some(Error::CarAlreadyRented)
    );
}

#[test]
fn scenario_e_admin_withdraw_over_balance_fails() {
    let s = rented_state();
    assert_eq!(s.admin_balance, 10);
    assert_eq!(
        s.admin_withdraw(&auth_for(ADMIN), 11).err(),
        Some(Error::InsufficientBalance)
    );
    // A failed operation returns no successor: the state is unchanged.
    assert_eq!(s.admin_balance, 10);
    assert_eq!(s.contract_balance, 110);
}

#[test]
fn admin_withdraw_debits_admin_and_contract() {
    let s = rented_state();
    let out = s.admin_withdraw(&auth_for(ADMIN), 10).unwrap();
    assert_eq!(
        out.transfer,
        Transfer { token: TOKEN, from: Party::Contract, to: Party::Account(ADMIN), amount: 10 }
    );
    assert_eq!(out.state.admin_balance, 0);
    assert_eq!(out.state.contract_balance, 100);
    assert_eq!(out.state.get_owner_balance(OWNER), Ok(100));
}

#[test]
fn round_trip_restores_availability_and_keeps_balance() {
    let s = rented_state();
    let s = s.return_car(RENTER, OWNER).unwrap();
    assert_eq!(s.get_car_status(OWNER), Ok(CarStatus::Available));
    assert_eq!(s.rentals.len(), 0);
    // Settlement from the rental stays: the return moves no funds.
    assert_eq!(s.get_owner_balance(OWNER), Ok(100));
    assert_eq!(s.contract_balance, 110);
    assert_eq!(s.admin_balance, 10);
    // The record is gone: a second return finds nothing.
    assert_eq!(s.return_car(RENTER, OWNER).err(), Some(Error::RentalNotFound));
}

#[test]
fn return_car_needs_exact_key() {
    let s = rented_state();
    // Wrong renter in the key: not found.
    assert_eq!(s.return_car(4, OWNER).err(), Some(Error::RentalNotFound));
    // Wrong owner in the key: not found.
    assert_eq!(s.return_car(RENTER, OWNER + 1).err(), Some(Error::RentalNotFound));
}

#[test]
fn rental_validation_errors_in_order() {
    let admin = auth_for(ADMIN);
    let s = RentACarContract::initialize(ADMIN, TOKEN);
    let s = s.add_car(&admin, OWNER, 50).unwrap();
    let renter = auth_for(RENTER);
    assert_eq!(
        s.rental(&renter, RENTER, OWNER, 5, 0).err(),
        Some(Error::AmountMustBePositive)
    );
    assert_eq!(
        s.rental(&renter, RENTER, OWNER, 5, -7).err(),
        Some(Error::AmountMustBePositive)
    );
    assert_eq!(
        s.rental(&renter, RENTER, OWNER, 0, 100).err(),
        Some(Error::RentalDurationCannotBeZero)
    );
    assert_eq!(
        s.rental(&renter, RENTER, RENTER, 5, 100).err(),
        Some(Error::SelfRentalNotAllowed)
    );
    assert_eq!(
        s.rental(&renter, RENTER, 77, 5, 100).err(),
        Some(Error::CarNotFound)
    );
}

#[test]
fn rental_fee_credit_overflow_fails() {
    let admin = auth_for(ADMIN);
    let s = RentACarContract::initialize(ADMIN, TOKEN);
    let s = s.set_admin_fee(&admin, 1).unwrap();
    let s = s.add_car(&admin, OWNER, 50).unwrap();
    assert_eq!(
        s.rental(&auth_for(RENTER), RENTER, OWNER, 5, i128::MAX).err(),
        Some(Error::OverflowError)
    );
}

#[test]
fn rental_custody_credit_overflow_fails() {
    // A custodied total so large that crediting one more unit would wrap.
    let s = RentACarContract {
        admin: ADMIN,
        token: TOKEN,
        admin_fee: 0,
        admin_balance: 0,
        contract_balance: i128::MAX,
        cars: vec![CarEntry {
            owner: OWNER,
            car: Car { price_per_day: 1, status: CarStatus::Available, available_to_withdraw: 0 },
        }],
        rentals: vec![],
    };
    assert_eq!(
        s.rental(&auth_for(RENTER), RENTER, OWNER, 1, 1).err(),
        Some(Error::OverflowError)
    );
}

#[test]
fn payout_validation_errors() {
    let s = rented_state();
    assert_eq!(
        s.payout_owner(&auth_for(OWNER), OWNER, 0).err(),
        Some(Error::AmountMustBePositive)
    );
    assert_eq!(
        s.payout_owner(&auth_for(77), 77, 10).err(),
        Some(Error::CarNotFound)
    );
}

#[test]
fn payout_checks_custody_as_conservation_anchor() {
    // Per-owner bookkeeping says 100 is withdrawable, but custody only
    // holds 40: the payout must be refused on the custody check.
    let s = RentACarContract {
        admin: ADMIN,
        token: TOKEN,
        admin_fee: 0,
        admin_balance: 0,
        contract_balance: 40,
        cars: vec![CarEntry {
            owner: OWNER,
            car: Car {
                price_per_day: 1,
                status: CarStatus::Available,
                available_to_withdraw: 100,
            },
        }],
        rentals: vec![],
    };
    assert_eq!(
        s.payout_owner(&auth_for(OWNER), OWNER, 100).err(),
        Some(Error::BalanceNotAvailableForAmountRequested)
    );
}

#[test]
fn admin_withdraw_validation_errors() {
    let s = rented_state();
    assert_eq!(
        s.admin_withdraw(&auth_for(ADMIN), 0).err(),
        Some(Error::AmountMustBePositive)
    );
    assert_eq!(
        s.admin_withdraw(&auth_for(ADMIN), -5).err(),
        Some(Error::AmountMustBePositive)
    );
}

#[test]
fn remove_car_deletes_available_car() {
    let admin = auth_for(ADMIN);
    let s = RentACarContract::initialize(ADMIN, TOKEN);
    let s = s.add_car(&admin, OWNER, 50).unwrap();
    let s = s.remove_car(&admin, OWNER).unwrap();
    assert_eq!(s.get_car_status(OWNER), Err(Error::CarNotFound));
    assert_eq!(s.remove_car(&admin, OWNER).err(), Some(Error::CarNotFound));
}

#[test]
fn rented_car_cannot_be_removed_or_relisted() {
    let s = rented_state();
    let admin = auth_for(ADMIN);
    assert_eq!(s.remove_car(&admin, OWNER).err(), Some(Error::CarAlreadyRented));
    assert_eq!(s.add_car(&admin, OWNER, 60).err(), Some(Error::CarAlreadyRented));
}

#[test]
fn relisting_available_car_resets_entry() {
    let admin = auth_for(ADMIN);
    let s = RentACarContract::initialize(ADMIN, TOKEN);
    let s = s.add_car(&admin, OWNER, 50).unwrap();
    let s = s.add_car(&admin, OWNER, 60).unwrap();
    assert_eq!(s.cars.len(), 1);
    assert_eq!(s.cars[0].car.price_per_day, 60);
    assert_eq!(s.get_owner_balance(OWNER), Ok(0));
}

#[test]
fn authorization_guards_every_mutating_operation() {
    let s = rented_state();
    let stranger = auth_for(77);
    // rental fails when not authorized as the stated renter.
    assert_eq!(
        s.rental(&stranger, RENTER, OWNER, 5, 100).err(),
        Some(Error::Unauthorized)
    );
    // payout_owner fails when not authorized as the stated owner.
    assert_eq!(
        s.payout_owner(&stranger, OWNER, 100).err(),
        Some(Error::Unauthorized)
    );
    // Admin-only operations fail without admin authorization.
    assert_eq!(s.admin_withdraw(&stranger, 10).err(), Some(Error::Unauthorized));
    assert_eq!(s.set_admin_fee(&stranger, 5).err(), Some(Error::Unauthorized));
    assert_eq!(s.add_car(&stranger, 5, 50).err(), Some(Error::Unauthorized));
    assert_eq!(s.remove_car(&stranger, OWNER).err(), Some(Error::Unauthorized));
}

#[test]
fn authorization_accepts_any_listed_signer() {
    let s = RentACarContract::initialize(ADMIN, TOKEN);
    let multi = Auth { signers: vec![5, ADMIN, 8] };
    assert!(s.set_admin_fee(&multi, 3).is_ok());
    let none = Auth { signers: vec![] };
    assert_eq!(s.set_admin_fee(&none, 3).err(), Some(Error::Unauthorized));
}

#[test]
fn rented_status_coincides_with_exactly_one_record() {
    let s = rented_state();
    let references = s.rentals.iter().filter(|r| r.owner == OWNER).count();
    assert_eq!(s.get_car_status(OWNER), Ok(CarStatus::Rented));
    assert_eq!(references, 1);
    let s = s.return_car(RENTER, OWNER).unwrap();
    let references = s.rentals.iter().filter(|r| r.owner == OWNER).count();
    assert_eq!(s.get_car_status(OWNER), Ok(CarStatus::Available));
    assert_eq!(references, 0);
}

#[test]
fn conservation_holds_along_a_full_lifecycle() {
    let admin = auth_for(ADMIN);
    let mut s = RentACarContract::initialize(ADMIN, TOKEN);
    s = s.set_admin_fee(&admin, 10).unwrap();
    s = s.add_car(&admin, OWNER, 50).unwrap();
    s = s.add_car(&admin, 4, 80).unwrap();
    s = s.rental(&auth_for(RENTER), RENTER, OWNER, 5, 100).unwrap().state;
    s = s.rental(&auth_for(5), 5, 4, 2, 30).unwrap().state;
    s = s.return_car(RENTER, OWNER).unwrap();
    s = s.payout_owner(&auth_for(OWNER), OWNER, 60).unwrap().state;
    s = s.admin_withdraw(&auth_for(ADMIN), 15).unwrap().state;
    let claims: i128 = s
        .cars
        .iter()
        .map(|entry| entry.car.available_to_withdraw)
        .sum();
    assert_eq!(s.contract_balance, 150 - 60 - 15);
    assert_eq!(claims, 40 + 30);
    assert_eq!(s.admin_balance, 20 - 15);
    assert!(s.contract_balance >= s.admin_balance + claims);
}
