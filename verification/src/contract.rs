use vstd::prelude::*;
use crate::auth::Auth;
use crate::error::Error;
use crate::state::{
    Car, CarEntry, CarStatus, Party, RentalRecord, Transfer, car_in, car_index_in, copy_cars,
    copy_rentals, find_car_index, find_rental_index, has_car_in, has_rental_in,
    has_rental_key_in, lemma_car_index, lemma_cars_push, lemma_cars_remove, lemma_cars_update,
    lemma_rentals_push, lemma_rentals_remove, lemma_sum_entry_le, lemma_sum_nonneg,
    lemma_sum_push, lemma_sum_remove, lemma_sum_update, nonneg_withdrawable, rental_in,
    unique_car_owners, unique_rental_owners, sum_withdrawable,
};

verus! {

/// The escrow accounting engine: the car registry, the rental ledger, the
/// three conserved balances and the fee rate, together with the admin
/// identity and the payment-asset reference fixed at initialization.
///
/// Every operation is a pure transition: it takes the current state by
/// reference and returns either the successor state (with the value
/// transfer the host must perform, when funds move) or a typed error. The
/// host commits the successor only after the transfer succeeded, so a
/// failed invocation never has a partial effect.
pub struct RentACarContract {
    /// Principal that administers the marketplace (set at initialization).
    pub admin: u64,
    /// Payment asset every transfer settles in (set at initialization).
    pub token: u64,
    /// Fee charged on top of each rental's amount, credited to the admin.
    pub admin_fee: i128,
    /// Accumulated fee revenue the admin has not yet withdrawn.
    pub admin_balance: i128,
    /// Total value currently custodied by the engine.
    pub contract_balance: i128,
    /// Car registry, keyed by owner identity.
    pub cars: Vec<CarEntry>,
    /// Active rentals, keyed by (renter, owner); at most one per car.
    pub rentals: Vec<RentalRecord>,
}

/// Successor state paired with the value transfer that must settle on the
/// external asset ledger for the transition to take effect.
pub struct Settlement {
    pub state: RentACarContract,
    pub transfer: Transfer,
}

impl RentACarContract {
    /// A car is registered for `owner`.
    pub open spec fn has_car(self, owner: u64) -> bool {
        has_car_in(self.cars@, owner)
    }

    /// The car registered for `owner`.
    pub open spec fn car_of(self, owner: u64) -> Car {
        car_in(self.cars@, owner)
    }

    /// Some active rental references `owner`'s car.
    pub open spec fn has_rental_for(self, owner: u64) -> bool {
        has_rental_in(self.rentals@, owner)
    }

    /// The active rental referencing `owner`'s car.
    pub open spec fn rental_of(self, owner: u64) -> RentalRecord {
        rental_in(self.rentals@, owner)
    }

    /// An active rental is on file under the exact (renter, owner) key.
    pub open spec fn has_rental(self, renter: u64, owner: u64) -> bool {
        has_rental_key_in(self.rentals@, renter, owner)
    }

    /// A rental record is well formed and consistent with the registry:
    /// positive principal and duration, and its car exists and is Rented.
    pub open spec fn rental_entry_ok(self, r: RentalRecord) -> bool {
        &&& 0 < r.amount
        &&& 0 < r.total_days_to_rent
        &&& has_car_in(self.cars@, r.owner)
        &&& car_in(self.cars@, r.owner).status == CarStatus::Rented
    }

    /// Well-formedness of the whole state. Established by `initialize` and
    /// preserved by every operation:
    /// - registry and ledger keys are unique (one car per owner, at most
    ///   one active rental per car);
    /// - the fee rate and all balances are non-negative;
    /// - conservation: the custodied total covers the admin's claim plus
    ///   every owner's withdrawable claim;
    /// - exclusivity: a car is Rented exactly when an active rental
    ///   references it.
    pub open spec fn inv(self) -> bool {
        &&& unique_car_owners(self.cars@)
        &&& unique_rental_owners(self.rentals@)
        &&& nonneg_withdrawable(self.cars@)
        &&& 0 <= self.admin_fee
        &&& 0 <= self.admin_balance
        &&& 0 <= self.contract_balance
        &&& self.admin_balance + sum_withdrawable(self.cars@) <= self.contract_balance
        &&& forall|i: int| 0 <= i < self.rentals@.len()
            ==> self.rental_entry_ok(#[trigger] self.rentals@[i])
        &&& forall|i: int| 0 <= i < self.cars@.len()
            && (#[trigger] self.cars@[i]).car.status == CarStatus::Rented
            ==> has_rental_in(self.rentals@, self.cars@[i].owner)
    }

    /// Sets up the engine with the admin identity and the payment-asset
    /// reference: empty registry and ledger, zero fee, zero balances.
    pub fn initialize(admin: u64, token: u64) -> (r: RentACarContract)
        ensures
            r.inv(),
            r.admin == admin,
            r.token == token,
            r.admin_fee == 0,
            r.admin_balance == 0,
            r.contract_balance == 0,
            forall|o: u64| !r.has_car(o),
            forall|o: u64| !r.has_rental_for(o),
    {
        let r = RentACarContract {
            admin,
            token,
            admin_fee: 0,
            admin_balance: 0,
            contract_balance: 0,
            cars: Vec::new(),
            rentals: Vec::new(),
        };
        r
    }

    /// Current status of `owner`'s car.
    pub fn get_car_status(&self, owner: u64) -> (r: Result<CarStatus, Error>)
        requires
            self.inv(),
        ensures
            r == if self.has_car(owner) {
                Ok::<CarStatus, Error>(self.car_of(owner).status)
            } else {
                Err::<CarStatus, Error>(Error::CarNotFound)
            },
    {
        match find_car_index(&self.cars, owner) {
            Some(i) => {
                proof {
                    lemma_car_index(self.cars@, owner, i as int);
                }
                Ok(self.cars[i].car.status)
            },
            None => Err(Error::CarNotFound),
        }
    }

    /// Withdrawable balance accrued by `owner`.
    pub fn get_owner_balance(&self, owner: u64) -> (r: Result<i128, Error>)
        requires
            self.inv(),
        ensures
            r == if self.has_car(owner) {
                Ok::<i128, Error>(self.car_of(owner).available_to_withdraw)
            } else {
                Err::<i128, Error>(Error::CarNotFound)
            },
    {
        match find_car_index(&self.cars, owner) {
            Some(i) => {
                proof {
                    lemma_car_index(self.cars@, owner, i as int);
                }
                Ok(self.cars[i].car.available_to_withdraw)
            },
            None => Err(Error::CarNotFound),
        }
    }

    /// Current per-rental fee.
    pub fn get_admin_fee(&self) -> (r: Result<i128, Error>)
        ensures
            r == Ok::<i128, Error>(self.admin_fee),
    {
        Ok(self.admin_fee)
    }
}

/// The successor state `post` differs from `pre` exactly by the fee rate.
pub open spec fn set_admin_fee_ok(pre: RentACarContract, post: RentACarContract, fee: i128) -> bool {
    &&& post.admin == pre.admin
    &&& post.token == pre.token
    &&& post.admin_fee == fee
    &&& post.admin_balance == pre.admin_balance
    &&& post.contract_balance == pre.contract_balance
    &&& post.cars@ == pre.cars@
    &&& post.rentals@ == pre.rentals@
}

impl RentACarContract {
    /// Success condition of `set_admin_fee`: admin authorization and a
    /// non-negative fee.
    pub open spec fn set_admin_fee_allowed(self, auth: Auth, fee: i128) -> bool {
        &&& auth.allows(self.admin)
        &&& 0 <= fee
    }

    /// The error `set_admin_fee` reports, by check order.
    pub open spec fn set_admin_fee_failure(self, auth: Auth, fee: i128) -> Error {
        if !auth.allows(self.admin) {
            Error::Unauthorized
        } else {
            Error::AmountMustBePositive
        }
    }

    /// Overwrites the per-rental fee. Admin-authorized; rejects a negative
    /// fee; touches nothing else.
    pub fn set_admin_fee(&self, auth: &Auth, fee: i128) -> (r: Result<RentACarContract, Error>)
        requires
            self.inv(),
        ensures
            (r is Ok) == self.set_admin_fee_allowed(*auth, fee),
            r matches Err(e) ==> e == self.set_admin_fee_failure(*auth, fee),
            r matches Ok(post) ==> set_admin_fee_ok(*self, post, fee) && post.inv(),
    {
        if let Err(e) = auth.authorize(self.admin) {
            return Err(e);
        }
        if fee < 0 {
            return Err(Error::AmountMustBePositive);
        }
        Ok(RentACarContract {
            admin: self.admin,
            token: self.token,
            admin_fee: fee,
            admin_balance: self.admin_balance,
            contract_balance: self.contract_balance,
            cars: copy_cars(&self.cars),
            rentals: copy_rentals(&self.rentals),
        })
    }
}

/// The successor state `post` lists a fresh Available car for `owner` with
/// zero withdrawable balance and is otherwise `pre`.
pub open spec fn add_car_ok(
    pre: RentACarContract,
    post: RentACarContract,
    owner: u64,
    price_per_day: i128,
) -> bool {
    &&& post.admin == pre.admin
    &&& post.token == pre.token
    &&& post.admin_fee == pre.admin_fee
    &&& post.admin_balance == pre.admin_balance
    &&& post.contract_balance == pre.contract_balance
    &&& post.rentals@ == pre.rentals@
    &&& forall|o: u64| o != owner ==> #[trigger] post.has_car(o) == pre.has_car(o)
    &&& forall|o: u64| o != owner && pre.has_car(o) ==> #[trigger] post.car_of(o) == pre.car_of(o)
    &&& post.has_car(owner)
    &&& post.car_of(owner) == (Car {
        price_per_day,
        status: CarStatus::Available,
        available_to_withdraw: 0,
    })
}

/// The successor state `post` no longer lists a car for `owner` and is
/// otherwise `pre`.
pub open spec fn remove_car_ok(pre: RentACarContract, post: RentACarContract, owner: u64) -> bool {
    &&& post.admin == pre.admin
    &&& post.token == pre.token
    &&& post.admin_fee == pre.admin_fee
    &&& post.admin_balance == pre.admin_balance
    &&& post.contract_balance == pre.contract_balance
    &&& post.rentals@ == pre.rentals@
    &&& forall|o: u64| o != owner ==> #[trigger] post.has_car(o) == pre.has_car(o)
    &&& forall|o: u64| o != owner && pre.has_car(o) ==> #[trigger] post.car_of(o) == pre.car_of(o)
    &&& !post.has_car(owner)
}

impl RentACarContract {
    /// Success condition of `add_car`: admin authorization, and `owner`'s
    /// current car (if any) is not rented out.
    pub open spec fn add_car_allowed(self, auth: Auth, owner: u64) -> bool {
        &&& auth.allows(self.admin)
        &&& !(self.has_car(owner) && self.car_of(owner).status == CarStatus::Rented)
    }

    /// The error `add_car` reports, by check order.
    pub open spec fn add_car_failure(self, auth: Auth, owner: u64) -> Error {
        if !auth.allows(self.admin) {
            Error::Unauthorized
        } else {
            Error::CarAlreadyRented
        }
    }

    /// Registers (or re-registers) a car for `owner` with the given listing
    /// price, Available and with a zero withdrawable balance.
    /// Admin-authorized. A car that is currently rented out cannot be
    /// re-registered: that would orphan the active rental.
    pub fn add_car(&self, auth: &Auth, owner: u64, price_per_day: i128) -> (r: Result<
        RentACarContract,
        Error,
    >)
        requires
            self.inv(),
        ensures
            (r is Ok) == self.add_car_allowed(*auth, owner),
            r matches Err(e) ==> e == self.add_car_failure(*auth, owner),
            r matches Ok(post) ==> add_car_ok(*self, post, owner, price_per_day) && post.inv(),
    {
        if let Err(e) = auth.authorize(self.admin) {
            return Err(e);
        }
        let fresh = Car { price_per_day, status: CarStatus::Available, available_to_withdraw: 0 };
        let entry = CarEntry { owner, car: fresh };
        let mut cars = copy_cars(&self.cars);
        match find_car_index(&self.cars, owner) {
            Some(i) => {
                proof {
                    lemma_car_index(self.cars@, owner, i as int);
                }
                if self.cars[i].car.status == CarStatus::Rented {
                    return Err(Error::CarAlreadyRented);
                }
                cars.set(i, entry);
                let post = RentACarContract {
                    admin: self.admin,
                    token: self.token,
                    admin_fee: self.admin_fee,
                    admin_balance: self.admin_balance,
                    contract_balance: self.contract_balance,
                    cars,
                    rentals: copy_rentals(&self.rentals),
                };
                proof {
                    self.lemma_available_car_has_no_rental(owner);
                    lemma_cars_update(self.cars@, i as int, entry);
                    lemma_sum_update(self.cars@, i as int, entry);
                    self.lemma_registry_rewrite_preserves_inv(post, owner);
                }
                Ok(post)
            },
            None => {
                cars.push(entry);
                let post = RentACarContract {
                    admin: self.admin,
                    token: self.token,
                    admin_fee: self.admin_fee,
                    admin_balance: self.admin_balance,
                    contract_balance: self.contract_balance,
                    cars,
                    rentals: copy_rentals(&self.rentals),
                };
                proof {
                    assert(!self.has_rental_for(owner)) by {
                        if has_rental_in(self.rentals@, owner) {
                            let w = choose|k: int|
                                0 <= k < self.rentals@.len() && self.rentals@[k].owner == owner;
                            assert(self.rental_entry_ok(self.rentals@[w]));
                        }
                    }
                    lemma_cars_push(self.cars@, entry);
                    lemma_sum_push(self.cars@, entry);
                    self.lemma_registry_rewrite_preserves_inv(post, owner);
                }
                Ok(post)
            },
        }
    }

    /// Success condition of `remove_car`: admin authorization, a registered
    /// car, and that car not rented out.
    pub open spec fn remove_car_allowed(self, auth: Auth, owner: u64) -> bool {
        &&& auth.allows(self.admin)
        &&& self.has_car(owner)
        &&& self.car_of(owner).status == CarStatus::Available
    }

    /// The error `remove_car` reports, by check order.
    pub open spec fn remove_car_failure(self, auth: Auth, owner: u64) -> Error {
        if !auth.allows(self.admin) {
            Error::Unauthorized
        } else if !self.has_car(owner) {
            Error::CarNotFound
        } else {
            Error::CarAlreadyRented
        }
    }

    /// Deletes `owner`'s car from the registry. Admin-authorized. A car
    /// that is currently rented out cannot be removed: that would orphan
    /// the active rental. Any withdrawable balance the entry still carried
    /// is forfeited; the custodied total keeps covering all other claims.
    pub fn remove_car(&self, auth: &Auth, owner: u64) -> (r: Result<RentACarContract, Error>)
        requires
            self.inv(),
        ensures
            (r is Ok) == self.remove_car_allowed(*auth, owner),
            r matches Err(e) ==> e == self.remove_car_failure(*auth, owner),
            r matches Ok(post) ==> remove_car_ok(*self, post, owner) && post.inv(),
    {
        if let Err(e) = auth.authorize(self.admin) {
            return Err(e);
        }
        let i = match find_car_index(&self.cars, owner) {
            Some(i) => i,
            None => {
                return Err(Error::CarNotFound);
            },
        };
        proof {
            lemma_car_index(self.cars@, owner, i as int);
        }
        if self.cars[i].car.status == CarStatus::Rented {
            return Err(Error::CarAlreadyRented);
        }
        let mut cars = copy_cars(&self.cars);
        cars.remove(i);
        let post = RentACarContract {
            admin: self.admin,
            token: self.token,
            admin_fee: self.admin_fee,
            admin_balance: self.admin_balance,
            contract_balance: self.contract_balance,
            cars,
            rentals: copy_rentals(&self.rentals),
        };
        proof {
            self.lemma_available_car_has_no_rental(owner);
            lemma_cars_remove(self.cars@, i as int);
            lemma_sum_remove(self.cars@, i as int);
            self.lemma_registry_rewrite_preserves_inv(post, owner);
        }
        Ok(post)
    }

    /// In a well-formed state, a car that is Available has no active rental.
    pub proof fn lemma_available_car_has_no_rental(self, owner: u64)
        requires
            self.inv(),
            self.has_car(owner),
            self.car_of(owner).status == CarStatus::Available,
        ensures
            !self.has_rental_for(owner),
    {
        if has_rental_in(self.rentals@, owner) {
            let w = choose|k: int| 0 <= k < self.rentals@.len() && self.rentals@[k].owner == owner;
            assert(self.rental_entry_ok(self.rentals@[w]));
        }
    }

    /// After a registry rewrite that leaves every other owner's car, the
    /// balances and the whole rental ledger unchanged, and gives `owner` no
    /// Rented car and no active rental, the state is well formed again.
    proof fn lemma_registry_rewrite_preserves_inv(self, post: RentACarContract, owner: u64)
        requires
            self.inv(),
            !self.has_rental_for(owner),
            post.rentals@ == self.rentals@,
            post.admin_fee == self.admin_fee,
            post.admin_balance == self.admin_balance,
            post.contract_balance == self.contract_balance,
            unique_car_owners(post.cars@),
            nonneg_withdrawable(post.cars@),
            sum_withdrawable(post.cars@) <= sum_withdrawable(self.cars@),
            forall|o: u64| o != owner ==> #[trigger] has_car_in(post.cars@, o) == has_car_in(
                self.cars@,
                o,
            ),
            forall|o: u64| o != owner && has_car_in(self.cars@, o) ==> #[trigger] car_in(
                post.cars@,
                o,
            ) == car_in(self.cars@, o),
            forall|k: int| 0 <= k < post.cars@.len() && (#[trigger] post.cars@[k]).owner == owner
                ==> post.cars@[k].car.status == CarStatus::Available,
        ensures
            post.inv(),
    {
        assert forall|k: int| 0 <= k < post.rentals@.len() implies post.rental_entry_ok(
            #[trigger] post.rentals@[k],
        ) by {
            let r = self.rentals@[k];
            assert(self.rental_entry_ok(r));
            assert(r.owner != owner);
        }
        assert forall|k: int|
            0 <= k < post.cars@.len() && (#[trigger] post.cars@[k]).car.status
                == CarStatus::Rented implies has_rental_in(post.rentals@, post.cars@[k].owner) by {
            let o = post.cars@[k].owner;
            assert(o != owner);
            lemma_car_index(post.cars@, o, k);
            assert(has_car_in(self.cars@, o));
            assert(car_in(self.cars@, o).status == CarStatus::Rented);
            let w = car_index_in(self.cars@, o);
            assert(0 <= w < self.cars@.len() && self.cars@[w].owner == o);
            assert(self.cars@[w].car == car_in(self.cars@, o));
            assert(has_rental_in(self.rentals@, o));
        }
    }
}

/// The successor state `post` is `pre` with `owner`'s car set back to
/// Available and the active rental deleted; no funds move and no balance
/// changes.
pub open spec fn return_car_ok(pre: RentACarContract, post: RentACarContract, owner: u64) -> bool {
    &&& post.admin == pre.admin
    &&& post.token == pre.token
    &&& post.admin_fee == pre.admin_fee
    &&& post.admin_balance == pre.admin_balance
    &&& post.contract_balance == pre.contract_balance
    &&& forall|o: u64| #[trigger] post.has_car(o) == pre.has_car(o)
    &&& forall|o: u64| o != owner && pre.has_car(o) ==> #[trigger] post.car_of(o) == pre.car_of(o)
    &&& post.has_car(owner)
    &&& post.car_of(owner) == (Car {
        price_per_day: pre.car_of(owner).price_per_day,
        status: CarStatus::Available,
        available_to_withdraw: pre.car_of(owner).available_to_withdraw,
    })
    &&& forall|o: u64| o != owner ==> #[trigger] post.has_rental_for(o) == pre.has_rental_for(o)
    &&& forall|o: u64| o != owner && pre.has_rental_for(o) ==> #[trigger] post.rental_of(o)
        == pre.rental_of(o)
    &&& !post.has_rental_for(owner)
}

impl RentACarContract {
    /// Success condition of `return_car`: a rental is on file under the
    /// exact (renter, owner) key. No authorization is required; knowing the
    /// key suffices.
    pub open spec fn return_car_allowed(self, renter: u64, owner: u64) -> bool {
        self.has_rental(renter, owner)
    }

    /// Ends the rental recorded under (renter, owner): the car becomes
    /// Available again and the record is deleted. Settlement already
    /// happened when the rental began, so no funds move and the owner's
    /// withdrawable balance is untouched.
    pub fn return_car(&self, renter: u64, owner: u64) -> (r: Result<RentACarContract, Error>)
        requires
            self.inv(),
        ensures
            (r is Ok) == self.return_car_allowed(renter, owner),
            r matches Err(e) ==> e == Error::RentalNotFound,
            r matches Ok(post) ==> return_car_ok(*self, post, owner) && post.inv(),
    {
        let j = match find_rental_index(&self.rentals, renter, owner) {
            Some(j) => j,
            None => {
                return Err(Error::RentalNotFound);
            },
        };
        proof {
            assert(self.rental_entry_ok(self.rentals@[j as int]));
        }
        let i = match find_car_index(&self.cars, owner) {
            Some(i) => i,
            None => {
                proof {
                    assert(has_car_in(self.cars@, owner));
                }
                return Err(Error::RentalNotFound);
            },
        };
        proof {
            lemma_car_index(self.cars@, owner, i as int);
        }
        let entry = self.cars[i];
        let new_entry = CarEntry {
            owner,
            car: Car {
                price_per_day: entry.car.price_per_day,
                status: CarStatus::Available,
                available_to_withdraw: entry.car.available_to_withdraw,
            },
        };
        let mut cars = copy_cars(&self.cars);
        cars.set(i, new_entry);
        let mut rentals = copy_rentals(&self.rentals);
        rentals.remove(j);
        let post = RentACarContract {
            admin: self.admin,
            token: self.token,
            admin_fee: self.admin_fee,
            admin_balance: self.admin_balance,
            contract_balance: self.contract_balance,
            cars,
            rentals,
        };
        proof {
            lemma_cars_update(self.cars@, i as int, new_entry);
            lemma_sum_update(self.cars@, i as int, new_entry);
            lemma_rentals_remove(self.rentals@, j as int);
            assert forall|k: int| 0 <= k < post.rentals@.len() implies post.rental_entry_ok(
                #[trigger] post.rentals@[k],
            ) by {
                let k0 = if k < j as int { k } else { k + 1 };
                let r = self.rentals@[k0];
                assert(post.rentals@[k] == r);
                assert(self.rental_entry_ok(r));
                assert(r.owner != owner) by {
                    if k0 < j as int {
                        assert(self.rentals@[k0].owner != self.rentals@[j as int].owner);
                    } else {
                        assert(self.rentals@[j as int].owner != self.rentals@[k0].owner);
                    }
                }
            }
            assert forall|k: int|
                0 <= k < post.cars@.len() && (#[trigger] post.cars@[k]).car.status
                    == CarStatus::Rented implies has_rental_in(
                post.rentals@,
                post.cars@[k].owner,
            ) by {
                assert(k != i as int);
                assert(post.cars@[k] == self.cars@[k]);
                let o = self.cars@[k].owner;
                assert(has_rental_in(self.rentals@, o));
                assert(o != owner) by {
                    if k < i as int {
                        assert(self.cars@[k].owner != self.cars@[i as int].owner);
                    } else {
                        assert(self.cars@[i as int].owner != self.cars@[k].owner);
                    }
                }
            }
        }
        Ok(post)
    }
}

/// The successor state `post` is `pre` with `owner`'s car Rented, the
/// owner's withdrawable balance credited with the principal, the rental
/// recorded, and the custodied total and the admin balance credited with
/// principal plus fee; `t` moves principal plus fee from the renter into
/// custody.
pub open spec fn rental_ok(
    pre: RentACarContract,
    post: RentACarContract,
    t: Transfer,
    renter: u64,
    owner: u64,
    total_days_to_rent: u32,
    amount: i128,
) -> bool {
    &&& t == (Transfer {
        token: pre.token,
        from: Party::Account(renter),
        to: Party::Contract,
        amount: (amount + pre.admin_fee) as i128,
    })
    &&& post.admin == pre.admin
    &&& post.token == pre.token
    &&& post.admin_fee == pre.admin_fee
    &&& post.admin_balance == pre.admin_balance + pre.admin_fee
    &&& post.contract_balance == pre.contract_balance + amount + pre.admin_fee
    &&& forall|o: u64| #[trigger] post.has_car(o) == pre.has_car(o)
    &&& forall|o: u64| o != owner && pre.has_car(o) ==> #[trigger] post.car_of(o) == pre.car_of(o)
    &&& post.has_car(owner)
    &&& post.car_of(owner) == (Car {
        price_per_day: pre.car_of(owner).price_per_day,
        status: CarStatus::Rented,
        available_to_withdraw: (pre.car_of(owner).available_to_withdraw + amount) as i128,
    })
    &&& forall|o: u64| o != owner ==> #[trigger] post.has_rental_for(o) == pre.has_rental_for(o)
    &&& forall|o: u64| o != owner && pre.has_rental_for(o) ==> #[trigger] post.rental_of(o)
        == pre.rental_of(o)
    &&& post.has_rental_for(owner)
    &&& post.rental_of(owner) == (RentalRecord { renter, owner, total_days_to_rent, amount })
}

impl RentACarContract {
    /// Success condition of `rental`: the caller authorized as the renter,
    /// a positive amount and duration, no self-rental, a registered and
    /// Available car, and both balance credits within the integer range.
    pub open spec fn rental_allowed(
        self,
        auth: Auth,
        renter: u64,
        owner: u64,
        total_days_to_rent: u32,
        amount: i128,
    ) -> bool {
        &&& auth.allows(renter)
        &&& 0 < amount
        &&& total_days_to_rent != 0
        &&& renter != owner
        &&& self.has_car(owner)
        &&& self.car_of(owner).status == CarStatus::Available
        &&& amount + self.admin_fee <= i128::MAX
        &&& self.contract_balance + amount + self.admin_fee <= i128::MAX
    }

    /// The error `rental` reports, by check order.
    pub open spec fn rental_failure(
        self,
        auth: Auth,
        renter: u64,
        owner: u64,
        total_days_to_rent: u32,
        amount: i128,
    ) -> Error {
        if !auth.allows(renter) {
            Error::Unauthorized
        } else if amount <= 0 {
            Error::AmountMustBePositive
        } else if total_days_to_rent == 0 {
            Error::RentalDurationCannotBeZero
        } else if renter == owner {
            Error::SelfRentalNotAllowed
        } else if !self.has_car(owner) {
            Error::CarNotFound
        } else if self.car_of(owner).status != CarStatus::Available {
            Error::CarAlreadyRented
        } else {
            Error::OverflowError
        }
    }

    /// Rents `owner`'s car to `renter` for `total_days_to_rent` days at the
    /// given principal. The caller must authorize as the renter. On success
    /// the returned transfer moves principal plus the current fee from the
    /// renter into custody; the host must perform it and commit the new
    /// state only if it succeeds. The principal is credited to the owner's
    /// withdrawable balance and the fee to the admin balance.
    pub fn rental(
        &self,
        auth: &Auth,
        renter: u64,
        owner: u64,
        total_days_to_rent: u32,
        amount: i128,
    ) -> (r: Result<Settlement, Error>)
        requires
            self.inv(),
        ensures
            (r is Ok) == self.rental_allowed(*auth, renter, owner, total_days_to_rent, amount),
            r matches Err(e) ==> e == self.rental_failure(
                *auth,
                renter,
                owner,
                total_days_to_rent,
                amount,
            ),
            r matches Ok(s) ==> rental_ok(
                *self,
                s.state,
                s.transfer,
                renter,
                owner,
                total_days_to_rent,
                amount,
            ) && s.state.inv(),
    {
        if let Err(e) = auth.authorize(renter) {
            return Err(e);
        }
        if amount <= 0 {
            return Err(Error::AmountMustBePositive);
        }
        if total_days_to_rent == 0 {
            return Err(Error::RentalDurationCannotBeZero);
        }
        if renter == owner {
            return Err(Error::SelfRentalNotAllowed);
        }
        let i = match find_car_index(&self.cars, owner) {
            Some(i) => i,
            None => {
                return Err(Error::CarNotFound);
            },
        };
        proof {
            lemma_car_index(self.cars@, owner, i as int);
        }
        let entry = self.cars[i];
        if entry.car.status == CarStatus::Rented {
            return Err(Error::CarAlreadyRented);
        }
        let fee = self.admin_fee;
        let to_transfer = match amount.checked_add(fee) {
            Some(v) => v,
            None => {
                return Err(Error::OverflowError);
            },
        };
        let new_contract = match self.contract_balance.checked_add(to_transfer) {
            Some(v) => v,
            None => {
                return Err(Error::OverflowError);
            },
        };
        proof {
            lemma_sum_entry_le(self.cars@, i as int);
            lemma_sum_nonneg(self.cars@);
        }
        let new_entry = CarEntry {
            owner,
            car: Car {
                price_per_day: entry.car.price_per_day,
                status: CarStatus::Rented,
                available_to_withdraw: entry.car.available_to_withdraw + amount,
            },
        };
        let record = RentalRecord { renter, owner, total_days_to_rent, amount };
        let mut cars = copy_cars(&self.cars);
        cars.set(i, new_entry);
        let mut rentals = copy_rentals(&self.rentals);
        proof {
            self.lemma_available_car_has_no_rental(owner);
        }
        rentals.push(record);
        let post = RentACarContract {
            admin: self.admin,
            token: self.token,
            admin_fee: fee,
            admin_balance: self.admin_balance + fee,
            contract_balance: new_contract,
            cars,
            rentals,
        };
        proof {
            lemma_cars_update(self.cars@, i as int, new_entry);
            lemma_sum_update(self.cars@, i as int, new_entry);
            lemma_rentals_push(self.rentals@, record);
            assert forall|k: int| 0 <= k < post.rentals@.len() implies post.rental_entry_ok(
                #[trigger] post.rentals@[k],
            ) by {
                if k < self.rentals@.len() {
                    let r = self.rentals@[k];
                    assert(post.rentals@[k] == r);
                    assert(self.rental_entry_ok(r));
                    assert(r.owner != owner) by {
                        if r.owner == owner {
                            assert(has_rental_in(self.rentals@, owner));
                        }
                    }
                } else {
                    assert(post.rentals@[k] == record);
                }
            }
            assert forall|k: int|
                0 <= k < post.cars@.len() && (#[trigger] post.cars@[k]).car.status
                    == CarStatus::Rented implies has_rental_in(
                post.rentals@,
                post.cars@[k].owner,
            ) by {
                if k != i as int {
                    assert(post.cars@[k] == self.cars@[k]);
                    let o = self.cars@[k].owner;
                    assert(has_rental_in(self.rentals@, o));
                    assert(o != owner) by {
                        if k < i as int {
                            assert(self.cars@[k].owner != self.cars@[i as int].owner);
                        } else {
                            assert(self.cars@[i as int].owner != self.cars@[k].owner);
                        }
                    }
                }
            }
        }
        Ok(Settlement {
            state: post,
            transfer: Transfer {
                token: self.token,
                from: Party::Account(renter),
                to: Party::Contract,
                amount: to_transfer,
            },
        })
    }
}

/// The successor state `post` is `pre` with `owner`'s withdrawable balance
/// and the custodied total debited by `amount`; `t` moves `amount` from
/// custody to the owner's account.
pub open spec fn payout_owner_ok(
    pre: RentACarContract,
    post: RentACarContract,
    t: Transfer,
    owner: u64,
    amount: i128,
) -> bool {
    &&& t == (Transfer {
        token: pre.token,
        from: Party::Contract,
        to: Party::Account(owner),
        amount,
    })
    &&& post.admin == pre.admin
    &&& post.token == pre.token
    &&& post.admin_fee == pre.admin_fee
    &&& post.admin_balance == pre.admin_balance
    &&& post.contract_balance == pre.contract_balance - amount
    &&& post.rentals@ == pre.rentals@
    &&& forall|o: u64| #[trigger] post.has_car(o) == pre.has_car(o)
    &&& forall|o: u64| o != owner && pre.has_car(o) ==> #[trigger] post.car_of(o) == pre.car_of(o)
    &&& post.has_car(owner)
    &&& post.car_of(owner) == (Car {
        price_per_day: pre.car_of(owner).price_per_day,
        status: pre.car_of(owner).status,
        available_to_withdraw: (pre.car_of(owner).available_to_withdraw - amount) as i128,
    })
}

impl RentACarContract {
    /// Success condition of `payout_owner`: the caller authorized as the
    /// owner, a positive amount, a registered car, and both the owner's
    /// withdrawable balance and the custodied total covering the amount.
    pub open spec fn payout_owner_allowed(self, auth: Auth, owner: u64, amount: i128) -> bool {
        &&& auth.allows(owner)
        &&& 0 < amount
        &&& self.has_car(owner)
        &&& amount <= self.car_of(owner).available_to_withdraw
        &&& amount <= self.contract_balance
    }

    /// The error `payout_owner` reports, by check order.
    pub open spec fn payout_owner_failure(self, auth: Auth, owner: u64, amount: i128) -> Error {
        if !auth.allows(owner) {
            Error::Unauthorized
        } else if amount <= 0 {
            Error::AmountMustBePositive
        } else if !self.has_car(owner) {
            Error::CarNotFound
        } else {
            Error::BalanceNotAvailableForAmountRequested
        }
    }

    /// Pays `amount` of `owner`'s accrued withdrawable balance out of
    /// custody. The caller must authorize as the owner. On success the
    /// returned transfer moves `amount` from custody to the owner; the host
    /// must perform it and commit the new state only if it succeeds.
    pub fn payout_owner(&self, auth: &Auth, owner: u64, amount: i128) -> (r: Result<
        Settlement,
        Error,
    >)
        requires
            self.inv(),
        ensures
            (r is Ok) == self.payout_owner_allowed(*auth, owner, amount),
            r matches Err(e) ==> e == self.payout_owner_failure(*auth, owner, amount),
            r matches Ok(s) ==> payout_owner_ok(*self, s.state, s.transfer, owner, amount)
                && s.state.inv(),
    {
        if let Err(e) = auth.authorize(owner) {
            return Err(e);
        }
        if amount <= 0 {
            return Err(Error::AmountMustBePositive);
        }
        let i = match find_car_index(&self.cars, owner) {
            Some(i) => i,
            None => {
                return Err(Error::CarNotFound);
            },
        };
        proof {
            lemma_car_index(self.cars@, owner, i as int);
        }
        let entry = self.cars[i];
        if entry.car.available_to_withdraw < amount {
            return Err(Error::BalanceNotAvailableForAmountRequested);
        }
        if self.contract_balance < amount {
            return Err(Error::BalanceNotAvailableForAmountRequested);
        }
        let new_entry = CarEntry {
            owner,
            car: Car {
                price_per_day: entry.car.price_per_day,
                status: entry.car.status,
                available_to_withdraw: entry.car.available_to_withdraw - amount,
            },
        };
        let mut cars = copy_cars(&self.cars);
        cars.set(i, new_entry);
        let post = RentACarContract {
            admin: self.admin,
            token: self.token,
            admin_fee: self.admin_fee,
            admin_balance: self.admin_balance,
            contract_balance: self.contract_balance - amount,
            cars,
            rentals: copy_rentals(&self.rentals),
        };
        proof {
            lemma_cars_update(self.cars@, i as int, new_entry);
            lemma_sum_update(self.cars@, i as int, new_entry);
            assert forall|k: int| 0 <= k < post.rentals@.len() implies post.rental_entry_ok(
                #[trigger] post.rentals@[k],
            ) by {
                let r = self.rentals@[k];
                assert(self.rental_entry_ok(r));
                if r.owner == owner {
                    assert(car_in(post.cars@, owner) == new_entry.car);
                } else {
                    assert(car_in(post.cars@, r.owner) == car_in(self.cars@, r.owner));
                }
            }
            assert forall|k: int|
                0 <= k < post.cars@.len() && (#[trigger] post.cars@[k]).car.status
                    == CarStatus::Rented implies has_rental_in(
                post.rentals@,
                post.cars@[k].owner,
            ) by {
                if k == i as int {
                    assert(post.cars@[k].owner == owner);
                    assert(self.cars@[k].car.status == CarStatus::Rented);
                } else {
                    assert(post.cars@[k] == self.cars@[k]);
                }
            }
        }
        Ok(Settlement {
            state: post,
            transfer: Transfer {
                token: self.token,
                from: Party::Contract,
                to: Party::Account(owner),
                amount,
            },
        })
    }
}

/// The successor state `post` is `pre` with the admin balance and the
/// custodied total debited by `amount`; `t` moves `amount` from custody to
/// the admin's account.
pub open spec fn admin_withdraw_ok(
    pre: RentACarContract,
    post: RentACarContract,
    t: Transfer,
    amount: i128,
) -> bool {
    &&& t == (Transfer {
        token: pre.token,
        from: Party::Contract,
        to: Party::Account(pre.admin),
        amount,
    })
    &&& post.admin == pre.admin
    &&& post.token == pre.token
    &&& post.admin_fee == pre.admin_fee
    &&& post.admin_balance == pre.admin_balance - amount
    &&& post.contract_balance == pre.contract_balance - amount
    &&& post.cars@ == pre.cars@
    &&& post.rentals@ == pre.rentals@
}

impl RentACarContract {
    /// Success condition of `admin_withdraw`: a positive amount, admin
    /// authorization, and an admin balance covering the amount.
    pub open spec fn admin_withdraw_allowed(self, auth: Auth, amount: i128) -> bool {
        &&& 0 < amount
        &&& auth.allows(self.admin)
        &&& amount <= self.admin_balance
    }

    /// The error `admin_withdraw` reports, by check order.
    pub open spec fn admin_withdraw_failure(self, auth: Auth, amount: i128) -> Error {
        if amount <= 0 {
            Error::AmountMustBePositive
        } else if !auth.allows(self.admin) {
            Error::Unauthorized
        } else {
            Error::InsufficientBalance
        }
    }

    /// Withdraws `amount` of accumulated fee revenue. Admin-authorized. On
    /// success the returned transfer moves `amount` from custody to the
    /// admin; the host must perform it and commit the new state only if it
    /// succeeds.
    pub fn admin_withdraw(&self, auth: &Auth, amount: i128) -> (r: Result<Settlement, Error>)
        requires
            self.inv(),
        ensures
            (r is Ok) == self.admin_withdraw_allowed(*auth, amount),
            r matches Err(e) ==> e == self.admin_withdraw_failure(*auth, amount),
            r matches Ok(s) ==> admin_withdraw_ok(*self, s.state, s.transfer, amount)
                && s.state.inv(),
    {
        if amount <= 0 {
            return Err(Error::AmountMustBePositive);
        }
        if let Err(e) = auth.authorize(self.admin) {
            return Err(e);
        }
        if self.admin_balance < amount {
            return Err(Error::InsufficientBalance);
        }
        proof {
            lemma_sum_nonneg(self.cars@);
        }
        let post = RentACarContract {
            admin: self.admin,
            token: self.token,
            admin_fee: self.admin_fee,
            admin_balance: self.admin_balance - amount,
            contract_balance: self.contract_balance - amount,
            cars: copy_cars(&self.cars),
            rentals: copy_rentals(&self.rentals),
        };
        proof {
            assert forall|k: int| 0 <= k < post.rentals@.len() implies post.rental_entry_ok(
                #[trigger] post.rentals@[k],
            ) by {
                assert(self.rental_entry_ok(self.rentals@[k]));
            }
        }
        Ok(Settlement {
            state: post,
            transfer: Transfer {
                token: self.token,
                from: Party::Contract,
                to: Party::Account(self.admin),
                amount,
            },
        })
    }
}

} // verus!
