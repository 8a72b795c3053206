use vstd::prelude::*;

verus! {

/// Lifecycle state of a listed car.
#[derive(Clone, Copy, Debug, PartialEq, Eq, Structural)]
pub enum CarStatus {
    Available,
    Rented,
}

/// A listed car. `price_per_day` is informational and not enforced by the
/// engine; `available_to_withdraw` is the owner's accrued, not yet withdrawn
/// share of the custodied funds.
#[derive(Clone, Copy, Debug, PartialEq, Eq, Structural)]
pub struct Car {
    pub price_per_day: i128,
    pub status: CarStatus,
    pub available_to_withdraw: i128,
}

/// A car registry entry, keyed by the owner's identity.
#[derive(Clone, Copy, Debug, PartialEq, Eq, Structural)]
pub struct CarEntry {
    pub owner: u64,
    pub car: Car,
}

/// An active rental, created when a car is rented and removed when it is
/// returned. `amount` is the principal paid to the owner, excluding the fee.
#[derive(Clone, Copy, Debug, PartialEq, Eq, Structural)]
pub struct RentalRecord {
    pub renter: u64,
    pub owner: u64,
    pub total_days_to_rent: u32,
    pub amount: i128,
}

/// A party of a value transfer on the external asset ledger: either an
/// account identified by a principal identity, or the engine's own custody.
#[derive(Clone, Copy, Debug, PartialEq, Eq, Structural)]
pub enum Party {
    Account(u64),
    Contract,
}

/// A value transfer the host must perform on the external asset ledger.
/// The operation that produced it only takes effect if the transfer
/// succeeds; on failure the host discards the new state.
#[derive(Clone, Copy, Debug, PartialEq, Eq, Structural)]
pub struct Transfer {
    /// The payment asset the engine was initialized with.
    pub token: u64,
    pub from: Party,
    pub to: Party,
    pub amount: i128,
}

// ---------------------------------------------------------------------
// Car registry as a sequence of entries with pairwise-distinct owners.
// ---------------------------------------------------------------------

/// No two entries list the same owner.
pub open spec fn unique_car_owners(s: Seq<CarEntry>) -> bool {
    forall|i: int, j: int| 0 <= i < j < s.len() ==> s[i].owner != s[j].owner
}

/// Some entry lists `owner`.
pub open spec fn has_car_in(s: Seq<CarEntry>, owner: u64) -> bool {
    exists|i: int| 0 <= i < s.len() && s[i].owner == owner
}

/// Index of the entry listing `owner` (meaningful when it exists and
/// owners are unique).
pub open spec fn car_index_in(s: Seq<CarEntry>, owner: u64) -> int {
    choose|i: int| 0 <= i < s.len() && s[i].owner == owner
}

/// The car listed for `owner`.
pub open spec fn car_in(s: Seq<CarEntry>, owner: u64) -> Car {
    s[car_index_in(s, owner)].car
}

/// Every listed car has a non-negative withdrawable balance.
pub open spec fn nonneg_withdrawable(s: Seq<CarEntry>) -> bool {
    forall|i: int| 0 <= i < s.len() ==> s[i].car.available_to_withdraw >= 0
}

/// Total of the owners' withdrawable balances: the sum of all claims the
/// registry holds against the contract's custody.
pub open spec fn sum_withdrawable(s: Seq<CarEntry>) -> int
    decreases s.len(),
{
    if s.len() == 0 {
        0
    } else {
        sum_withdrawable(s.drop_last()) + s.last().car.available_to_withdraw
    }
}

pub proof fn lemma_car_index(s: Seq<CarEntry>, owner: u64, i: int)
    requires
        unique_car_owners(s),
        0 <= i < s.len(),
        s[i].owner == owner,
    ensures
        has_car_in(s, owner),
        car_index_in(s, owner) == i,
        car_in(s, owner) == s[i].car,
{
    assert(has_car_in(s, owner));
    let j = car_index_in(s, owner);
    assert(0 <= j < s.len() && s[j].owner == owner);
    if i != j {
        if i < j {
            assert(s[i].owner != s[j].owner);
        } else {
            assert(s[j].owner != s[i].owner);
        }
    }
}

pub proof fn lemma_sum_nonneg(s: Seq<CarEntry>)
    requires
        nonneg_withdrawable(s),
    ensures
        sum_withdrawable(s) >= 0,
    decreases s.len(),
{
    if s.len() > 0 {
        assert forall|i: int| 0 <= i < s.drop_last().len() implies
            s.drop_last()[i].car.available_to_withdraw >= 0 by {
            assert(s.drop_last()[i] == s[i]);
        }
        lemma_sum_nonneg(s.drop_last());
        assert(s.last().car.available_to_withdraw >= 0);
    }
}

pub proof fn lemma_sum_entry_le(s: Seq<CarEntry>, i: int)
    requires
        nonneg_withdrawable(s),
        0 <= i < s.len(),
    ensures
        s[i].car.available_to_withdraw <= sum_withdrawable(s),
    decreases s.len(),
{
    assert forall|k: int| 0 <= k < s.drop_last().len() implies
        s.drop_last()[k].car.available_to_withdraw >= 0 by {
        assert(s.drop_last()[k] == s[k]);
    }
    if i == s.len() - 1 {
        lemma_sum_nonneg(s.drop_last());
    } else {
        assert(s.drop_last()[i] == s[i]);
        lemma_sum_entry_le(s.drop_last(), i);
        assert(s.last().car.available_to_withdraw >= 0);
    }
}

pub proof fn lemma_sum_update(s: Seq<CarEntry>, i: int, e: CarEntry)
    requires
        0 <= i < s.len(),
    ensures
        sum_withdrawable(s.update(i, e)) == sum_withdrawable(s)
            - s[i].car.available_to_withdraw + e.car.available_to_withdraw,
    decreases s.len(),
{
    let t = s.update(i, e);
    if i == s.len() - 1 {
        assert(t.drop_last() =~= s.drop_last());
        assert(t.last() == e);
    } else {
        assert(t.drop_last() =~= s.drop_last().update(i, e));
        lemma_sum_update(s.drop_last(), i, e);
        assert(t.last() == s.last());
        assert(s.drop_last()[i] == s[i]);
    }
}

pub proof fn lemma_sum_push(s: Seq<CarEntry>, e: CarEntry)
    ensures
        sum_withdrawable(s.push(e)) == sum_withdrawable(s) + e.car.available_to_withdraw,
{
    assert(s.push(e).drop_last() =~= s);
    assert(s.push(e).last() == e);
}

pub proof fn lemma_sum_remove(s: Seq<CarEntry>, i: int)
    requires
        0 <= i < s.len(),
    ensures
        sum_withdrawable(s.remove(i)) == sum_withdrawable(s) - s[i].car.available_to_withdraw,
    decreases s.len(),
{
    let t = s.remove(i);
    if i == s.len() - 1 {
        assert(t =~= s.drop_last());
    } else {
        assert(t.drop_last() =~= s.drop_last().remove(i));
        lemma_sum_remove(s.drop_last(), i);
        assert(t.last() == s.last());
        assert(s.drop_last()[i] == s[i]);
    }
}

/// Replacing an entry with one for the same owner keeps the registry's
/// key structure: owners stay unique, existence is unchanged for every
/// owner, and every other owner keeps its car.
pub proof fn lemma_cars_update(s: Seq<CarEntry>, i: int, e: CarEntry)
    requires
        unique_car_owners(s),
        0 <= i < s.len(),
        e.owner == s[i].owner,
    ensures
        unique_car_owners(s.update(i, e)),
        forall|o: u64| #[trigger] has_car_in(s.update(i, e), o) == has_car_in(s, o),
        forall|o: u64| o != e.owner && has_car_in(s, o)
            ==> #[trigger] car_in(s.update(i, e), o) == car_in(s, o),
        has_car_in(s.update(i, e), e.owner),
        car_in(s.update(i, e), e.owner) == e.car,
{
    let t = s.update(i, e);
    assert forall|a: int, b: int| 0 <= a < b < t.len() implies t[a].owner != t[b].owner by {
        assert(s[a].owner != s[b].owner);
    }
    assert forall|o: u64| #[trigger] has_car_in(t, o) == has_car_in(s, o) by {
        if has_car_in(s, o) {
            let w = choose|k: int| 0 <= k < s.len() && s[k].owner == o;
            assert(t[w].owner == o);
        }
        if has_car_in(t, o) {
            let w = choose|k: int| 0 <= k < t.len() && t[k].owner == o;
            assert(s[w].owner == o);
        }
    }
    assert forall|o: u64| o != e.owner && has_car_in(s, o) implies
        #[trigger] car_in(t, o) == car_in(s, o) by {
        let w = car_index_in(s, o);
        assert(0 <= w < s.len() && s[w].owner == o);
        assert(t[w] == s[w]);
        lemma_car_index(t, o, w);
    }
    lemma_car_index(t, e.owner, i);
}

/// Appending an entry for a fresh owner keeps uniqueness and every
/// existing owner's car.
pub proof fn lemma_cars_push(s: Seq<CarEntry>, e: CarEntry)
    requires
        unique_car_owners(s),
        !has_car_in(s, e.owner),
    ensures
        unique_car_owners(s.push(e)),
        forall|o: u64| o != e.owner ==> #[trigger] has_car_in(s.push(e), o) == has_car_in(s, o),
        forall|o: u64| o != e.owner && has_car_in(s, o)
            ==> #[trigger] car_in(s.push(e), o) == car_in(s, o),
        has_car_in(s.push(e), e.owner),
        car_in(s.push(e), e.owner) == e.car,
{
    let t = s.push(e);
    assert forall|a: int, b: int| 0 <= a < b < t.len() implies t[a].owner != t[b].owner by {
        if b == s.len() {
            assert(t[a] == s[a]);
            if t[a].owner == e.owner {
                assert(has_car_in(s, e.owner));
            }
        } else {
            assert(t[a] == s[a] && t[b] == s[b]);
        }
    }
    assert forall|o: u64| o != e.owner implies
        #[trigger] has_car_in(t, o) == has_car_in(s, o) by {
        if has_car_in(s, o) {
            let w = choose|k: int| 0 <= k < s.len() && s[k].owner == o;
            assert(t[w].owner == o);
        }
        if has_car_in(t, o) {
            let w = choose|k: int| 0 <= k < t.len() && t[k].owner == o;
            assert(w < s.len() && s[w].owner == o);
        }
    }
    assert forall|o: u64| o != e.owner && has_car_in(s, o) implies
        #[trigger] car_in(t, o) == car_in(s, o) by {
        let w = car_index_in(s, o);
        assert(0 <= w < s.len() && s[w].owner == o);
        assert(t[w] == s[w]);
        lemma_car_index(t, o, w);
    }
    lemma_car_index(t, e.owner, s.len() as int);
}

/// Removing an entry keeps uniqueness and every other owner's car, and
/// removes the only entry for its owner.
pub proof fn lemma_cars_remove(s: Seq<CarEntry>, i: int)
    requires
        unique_car_owners(s),
        0 <= i < s.len(),
    ensures
        unique_car_owners(s.remove(i)),
        forall|o: u64| o != s[i].owner
            ==> #[trigger] has_car_in(s.remove(i), o) == has_car_in(s, o),
        forall|o: u64| o != s[i].owner && has_car_in(s, o)
            ==> #[trigger] car_in(s.remove(i), o) == car_in(s, o),
        !has_car_in(s.remove(i), s[i].owner),
{
    let t = s.remove(i);
    assert forall|a: int, b: int| 0 <= a < b < t.len() implies t[a].owner != t[b].owner by {
        let a0 = if a < i { a } else { a + 1 };
        let b0 = if b < i { b } else { b + 1 };
        assert(t[a] == s[a0] && t[b] == s[b0]);
        assert(s[a0].owner != s[b0].owner);
    }
    assert forall|o: u64| o != s[i].owner implies
        #[trigger] has_car_in(t, o) == has_car_in(s, o) by {
        if has_car_in(s, o) {
            let w = choose|k: int| 0 <= k < s.len() && s[k].owner == o;
            if w < i {
                assert(t[w].owner == o);
            } else {
                assert(t[w - 1].owner == o);
            }
        }
        if has_car_in(t, o) {
            let w = choose|k: int| 0 <= k < t.len() && t[k].owner == o;
            if w < i {
                assert(s[w].owner == o);
            } else {
                assert(s[w + 1].owner == o);
            }
        }
    }
    assert forall|o: u64| o != s[i].owner && has_car_in(s, o) implies
        #[trigger] car_in(t, o) == car_in(s, o) by {
        let w = car_index_in(s, o);
        assert(0 <= w < s.len() && s[w].owner == o);
        if w < i {
            assert(t[w] == s[w]);
            lemma_car_index(t, o, w);
        } else {
            assert(w != i);
            assert(t[w - 1] == s[w]);
            lemma_car_index(t, o, w - 1);
        }
    }
    if has_car_in(t, s[i].owner) {
        let w = choose|k: int| 0 <= k < t.len() && t[k].owner == s[i].owner;
        if w < i {
            assert(s[w].owner == s[i].owner);
        } else {
            assert(s[w + 1].owner == s[i].owner);
        }
    }
}

// ---------------------------------------------------------------------
// Rental ledger as a sequence of records with pairwise-distinct owners.
// ---------------------------------------------------------------------

/// No two active rentals reference the same car (owner).
pub open spec fn unique_rental_owners(s: Seq<RentalRecord>) -> bool {
    forall|i: int, j: int| 0 <= i < j < s.len() ==> s[i].owner != s[j].owner
}

/// Some active rental references `owner`'s car.
pub open spec fn has_rental_in(s: Seq<RentalRecord>, owner: u64) -> bool {
    exists|i: int| 0 <= i < s.len() && s[i].owner == owner
}

/// Index of the rental referencing `owner`'s car.
pub open spec fn rental_index_in(s: Seq<RentalRecord>, owner: u64) -> int {
    choose|i: int| 0 <= i < s.len() && s[i].owner == owner
}

/// The rental referencing `owner`'s car.
pub open spec fn rental_in(s: Seq<RentalRecord>, owner: u64) -> RentalRecord {
    s[rental_index_in(s, owner)]
}

/// A rental is on file under the exact (renter, owner) key.
pub open spec fn has_rental_key_in(s: Seq<RentalRecord>, renter: u64, owner: u64) -> bool {
    exists|i: int| 0 <= i < s.len() && s[i].renter == renter && s[i].owner == owner
}

/// How many active rentals reference `owner`'s car.
pub open spec fn count_rentals_for(s: Seq<RentalRecord>, owner: u64) -> int
    decreases s.len(),
{
    if s.len() == 0 {
        0
    } else {
        count_rentals_for(s.drop_last(), owner) + if s.last().owner == owner {
            1int
        } else {
            0int
        }
    }
}

pub proof fn lemma_rental_index(s: Seq<RentalRecord>, owner: u64, i: int)
    requires
        unique_rental_owners(s),
        0 <= i < s.len(),
        s[i].owner == owner,
    ensures
        has_rental_in(s, owner),
        rental_index_in(s, owner) == i,
        rental_in(s, owner) == s[i],
{
    assert(has_rental_in(s, owner));
    let j = rental_index_in(s, owner);
    assert(0 <= j < s.len() && s[j].owner == owner);
    if i != j {
        if i < j {
            assert(s[i].owner != s[j].owner);
        } else {
            assert(s[j].owner != s[i].owner);
        }
    }
}

/// With unique owners, the number of rentals referencing a car is one when
/// a record exists and zero otherwise.
pub proof fn lemma_count_unique(s: Seq<RentalRecord>, owner: u64)
    requires
        unique_rental_owners(s),
    ensures
        count_rentals_for(s, owner) == if has_rental_in(s, owner) {
            1int
        } else {
            0int
        },
    decreases s.len(),
{
    if s.len() > 0 {
        let d = s.drop_last();
        assert forall|a: int, b: int| 0 <= a < b < d.len() implies d[a].owner != d[b].owner by {
            assert(d[a] == s[a] && d[b] == s[b]);
        }
        lemma_count_unique(d, owner);
        if s.last().owner == owner {
            if has_rental_in(d, owner) {
                let w = choose|k: int| 0 <= k < d.len() && d[k].owner == owner;
                assert(s[w].owner == owner && s[s.len() - 1].owner == owner);
                assert(s[w].owner != s[s.len() - 1].owner);
            }
            assert(has_rental_in(s, owner));
        } else {
            if has_rental_in(s, owner) {
                let w = choose|k: int| 0 <= k < s.len() && s[k].owner == owner;
                assert(w < d.len() && d[w].owner == owner);
                assert(has_rental_in(d, owner));
            }
            if has_rental_in(d, owner) {
                let w = choose|k: int| 0 <= k < d.len() && d[k].owner == owner;
                assert(s[w].owner == owner);
                assert(has_rental_in(s, owner));
            }
        }
    }
}

/// Appending a record for a car with no active rental keeps uniqueness and
/// every other car's rental.
pub proof fn lemma_rentals_push(s: Seq<RentalRecord>, e: RentalRecord)
    requires
        unique_rental_owners(s),
        !has_rental_in(s, e.owner),
    ensures
        unique_rental_owners(s.push(e)),
        forall|o: u64| o != e.owner
            ==> #[trigger] has_rental_in(s.push(e), o) == has_rental_in(s, o),
        forall|o: u64| o != e.owner && has_rental_in(s, o)
            ==> #[trigger] rental_in(s.push(e), o) == rental_in(s, o),
        has_rental_in(s.push(e), e.owner),
        rental_in(s.push(e), e.owner) == e,
{
    let t = s.push(e);
    assert forall|a: int, b: int| 0 <= a < b < t.len() implies t[a].owner != t[b].owner by {
        if b == s.len() {
            assert(t[a] == s[a]);
            if t[a].owner == e.owner {
                assert(has_rental_in(s, e.owner));
            }
        } else {
            assert(t[a] == s[a] && t[b] == s[b]);
        }
    }
    assert forall|o: u64| o != e.owner implies
        #[trigger] has_rental_in(t, o) == has_rental_in(s, o) by {
        if has_rental_in(s, o) {
            let w = choose|k: int| 0 <= k < s.len() && s[k].owner == o;
            assert(t[w].owner == o);
        }
        if has_rental_in(t, o) {
            let w = choose|k: int| 0 <= k < t.len() && t[k].owner == o;
            assert(w < s.len() && s[w].owner == o);
        }
    }
    assert forall|o: u64| o != e.owner && has_rental_in(s, o) implies
        #[trigger] rental_in(t, o) == rental_in(s, o) by {
        let w = rental_index_in(s, o);
        assert(0 <= w < s.len() && s[w].owner == o);
        assert(t[w] == s[w]);
        lemma_rental_index(t, o, w);
    }
    lemma_rental_index(t, e.owner, s.len() as int);
}

/// Removing a record keeps uniqueness and every other car's rental, and
/// leaves its car with no active rental.
pub proof fn lemma_rentals_remove(s: Seq<RentalRecord>, i: int)
    requires
        unique_rental_owners(s),
        0 <= i < s.len(),
    ensures
        unique_rental_owners(s.remove(i)),
        forall|o: u64| o != s[i].owner
            ==> #[trigger] has_rental_in(s.remove(i), o) == has_rental_in(s, o),
        forall|o: u64| o != s[i].owner && has_rental_in(s, o)
            ==> #[trigger] rental_in(s.remove(i), o) == rental_in(s, o),
        !has_rental_in(s.remove(i), s[i].owner),
{
    let t = s.remove(i);
    assert forall|a: int, b: int| 0 <= a < b < t.len() implies t[a].owner != t[b].owner by {
        let a0 = if a < i { a } else { a + 1 };
        let b0 = if b < i { b } else { b + 1 };
        assert(t[a] == s[a0] && t[b] == s[b0]);
        assert(s[a0].owner != s[b0].owner);
    }
    assert forall|o: u64| o != s[i].owner implies
        #[trigger] has_rental_in(t, o) == has_rental_in(s, o) by {
        if has_rental_in(s, o) {
            let w = choose|k: int| 0 <= k < s.len() && s[k].owner == o;
            if w < i {
                assert(t[w].owner == o);
            } else {
                assert(t[w - 1].owner == o);
            }
        }
        if has_rental_in(t, o) {
            let w = choose|k: int| 0 <= k < t.len() && t[k].owner == o;
            if w < i {
                assert(s[w].owner == o);
            } else {
                assert(s[w + 1].owner == o);
            }
        }
    }
    assert forall|o: u64| o != s[i].owner && has_rental_in(s, o) implies
        #[trigger] rental_in(t, o) == rental_in(s, o) by {
        let w = rental_index_in(s, o);
        assert(0 <= w < s.len() && s[w].owner == o);
        if w < i {
            assert(t[w] == s[w]);
            lemma_rental_index(t, o, w);
        } else {
            assert(w != i);
            assert(t[w - 1] == s[w]);
            lemma_rental_index(t, o, w - 1);
        }
    }
    if has_rental_in(t, s[i].owner) {
        let w = choose|k: int| 0 <= k < t.len() && t[k].owner == s[i].owner;
        if w < i {
            assert(s[w].owner == s[i].owner);
        } else {
            assert(s[w + 1].owner == s[i].owner);
        }
    }
}

// ---------------------------------------------------------------------
// Executable helpers over the two sequences.
// ---------------------------------------------------------------------

pub(crate) fn copy_cars(v: &Vec<CarEntry>) -> (r: Vec<CarEntry>)
    ensures
        r@ == v@,
{
    let mut r: Vec<CarEntry> = Vec::new();
    let mut i: usize = 0;
    while i < v.len()
        invariant
            i <= v.len(),
            r@ == v@.subrange(0, i as int),
        decreases v.len() - i,
    {
        r.push(v[i]);
        proof {
            assert(v@.subrange(0, i as int + 1) =~= v@.subrange(0, i as int).push(v@[i as int]));
        }
        i = i + 1;
    }
    proof {
        assert(v@.subrange(0, v@.len() as int) =~= v@);
    }
    r
}

pub(crate) fn copy_rentals(v: &Vec<RentalRecord>) -> (r: Vec<RentalRecord>)
    ensures
        r@ == v@,
{
    let mut r: Vec<RentalRecord> = Vec::new();
    let mut i: usize = 0;
    while i < v.len()
        invariant
            i <= v.len(),
            r@ == v@.subrange(0, i as int),
        decreases v.len() - i,
    {
        r.push(v[i]);
        proof {
            assert(v@.subrange(0, i as int + 1) =~= v@.subrange(0, i as int).push(v@[i as int]));
        }
        i = i + 1;
    }
    proof {
        assert(v@.subrange(0, v@.len() as int) =~= v@);
    }
    r
}

pub(crate) fn find_car_index(v: &Vec<CarEntry>, owner: u64) -> (r: Option<usize>)
    ensures
        match r {
            Some(i) => i < v@.len() && v@[i as int].owner == owner,
            None => !has_car_in(v@, owner),
        },
{
    let mut i: usize = 0;
    while i < v.len()
        invariant
            i <= v.len(),
            forall|j: int| 0 <= j < i ==> v@[j].owner != owner,
        decreases v.len() - i,
    {
        if v[i].owner == owner {
            return Some(i);
        }
        i = i + 1;
    }
    None
}

pub(crate) fn find_rental_index(v: &Vec<RentalRecord>, renter: u64, owner: u64) -> (r: Option<
    usize,
>)
    ensures
        match r {
            Some(i) => i < v@.len() && v@[i as int].renter == renter && v@[i as int].owner
                == owner,
            None => !has_rental_key_in(v@, renter, owner),
        },
{
    let mut i: usize = 0;
    while i < v.len()
        invariant
            i <= v.len(),
            forall|j: int| 0 <= j < i ==> !(v@[j].renter == renter && v@[j].owner == owner),
        decreases v.len() - i,
    {
        if v[i].renter == renter && v[i].owner == owner {
            return Some(i);
        }
        i = i + 1;
    }
    None
}

} // verus!
