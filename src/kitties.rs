//! The kitties state machine: creation with escrow, breeding, transfer, and
//! sale at an asked price. Each operation checks everything before it writes,
//! so a failing operation leaves the state as it found it.
use vstd::prelude::*;
use vstd::hash_map::HashMapWithView;

use crate::ledger::{
    accounts_bounded, after_reserve, after_transfer, after_unreserve, free_of, reserved_of,
    transfer_overflows, AccountData, Ledger,
};
use crate::randomness::{random_of, random_value, TxContext};
use crate::{AccountId, Balance};

verus! {

broadcast use {vstd::std_specs::hash::group_hash_axioms, vstd::array::group_array_axioms};

/// Identifier of a kitty.
pub type KittyIndex = u32;

/// A kitty: its 16-byte genome.
#[derive(Clone, Copy, Debug)]
pub struct Kitty(pub [u8; 16]);

/// The module's constants.
#[derive(Clone, Copy, Debug)]
pub struct Config {
    /// The amount held in escrow against an account for each kitty it owns.
    pub create_kitty_reserve: Balance,
}

/// What a successful operation reports.
#[derive(Clone, Copy, Debug, PartialEq, Eq, Structural)]
pub enum Event {
    /// (owner, new kitty)
    KittyCreate(AccountId, KittyIndex),
    /// (old owner, kitty, new owner)
    KittyTransfer(AccountId, KittyIndex, AccountId),
    /// (buyer, kitty, seller)
    KittyBuy(AccountId, KittyIndex, AccountId),
    /// (owner, kitty, price)
    KittySetPrice(AccountId, KittyIndex, Balance),
}

/// Why an operation failed.
#[derive(Clone, Copy, Debug, PartialEq, Eq, Structural)]
pub enum Error {
    /// The kitty counter has reached its largest value.
    KittiesCountOverflow,
    /// The account named is not the kitty's owner.
    NotKittyOwner,
    /// Both parents are the same kitty.
    SameParentIndex,
    /// No kitty has this id.
    InvalidKittyIndex,
    /// The escrow could not be reserved: the free balance is too small.
    ReserveFailed,
    /// A price of zero.
    InvalidKittyPrice,
    /// The kitty has no asked price.
    KittyNotForSale,
    /// The buyer's free balance does not exceed the price plus the escrow.
    BalanceNotEnough,
    /// The buyer already owns the kitty.
    KittyAlreadyHave,
    /// The payment was refused: the seller's balance would overflow.
    TransferFailed,
}

/// One byte of a child genome: the bits of `a` where the selector has a one,
/// those of `b` where it has a zero.
pub open spec fn mix_gene(selector: u8, a: u8, b: u8) -> u8 {
    (selector & a) | (!selector & b)
}

/// `child` is the genome bred from `a` and `b` under `selector`.
pub open spec fn is_child_dna(child: Seq<u8>, selector: Seq<u8>, a: Seq<u8>, b: Seq<u8>) -> bool {
    &&& child.len() == 16
    &&& forall|i: int| 0 <= i < 16 ==> #[trigger] child[i] == mix_gene(selector[i], a[i], b[i])
}

/// Merges two genomes byte by byte under a selector mask.
pub fn combine_dna(selector: &[u8; 16], dna_1: &[u8; 16], dna_2: &[u8; 16]) -> (r: [u8; 16])
    ensures
        is_child_dna(r@, selector@, dna_1@, dna_2@),
{
    let mut child = [0u8; 16];
    let mut i: usize = 0;
    while i < 16
        invariant
            0 <= i <= 16,
            forall|j: int| 0 <= j < i ==> #[trigger] child@[j] == mix_gene(selector@[j], dna_1@[j], dna_2@[j]),
        decreases 16 - i,
    {
        child[i] = (selector[i] & dna_1[i]) | (!selector[i] & dna_2[i]);
        i += 1;
    }
    child
}

/// The kitties that `who` owns.
pub open spec fn owned_by(owners: Map<KittyIndex, AccountId>, who: AccountId) -> Set<KittyIndex> {
    owners.dom().filter(|id: KittyIndex| owners[id] == who)
}

/// Giving kitty `id` to `to` adds it to the kitties of `to` and takes it from
/// those of every other account.
proof fn lemma_owned_after_assign(
    owners: Map<KittyIndex, AccountId>,
    id: KittyIndex,
    to: AccountId,
    a: AccountId,
)
    requires
        owners.dom().finite(),
    ensures
        owned_by(owners, a).finite(),
        a == to ==> owned_by(owners.insert(id, to), a) == owned_by(owners, a).insert(id),
        a != to ==> owned_by(owners.insert(id, to), a) == owned_by(owners, a).remove(id),
{
    assert(owners.dom().intersect(Set::new(|k: KittyIndex| owners[k] == a)).finite());
    if a == to {
        assert(owned_by(owners.insert(id, to), a) =~= owned_by(owners, a).insert(id));
    } else {
        assert(owned_by(owners.insert(id, to), a) =~= owned_by(owners, a).remove(id));
    }
}

proof fn lemma_mul_succ(r: int, c: int)
    by (nonlinear_arith)
    ensures
        r * (c + 1) == r * c + r,
        r * (c - 1) == r * c - r,
{
}

proof fn lemma_mul_covers(r: int, c: int)
    by (nonlinear_arith)
    requires
        r >= 0,
        c >= 1,
    ensures
        r * c >= r,
{
}

/// The state of the module: the kitties, their owners, their asked prices, and
/// the balances that escrow is held against.
pub struct Pallet {
    config: Config,
    kitties_count: KittyIndex,
    kitties: HashMapWithView<KittyIndex, Kitty>,
    owner: HashMapWithView<KittyIndex, AccountId>,
    price_of: HashMapWithView<KittyIndex, Balance>,
    currency: Ledger,
}

impl Pallet {
    /// The next unused id.
    pub closed spec fn count(&self) -> KittyIndex {
        self.kitties_count
    }

    /// Genome of each kitty, by id.
    pub closed spec fn kitties_map(&self) -> Map<KittyIndex, Kitty> {
        self.kitties@
    }

    /// Owner of each kitty, by id.
    pub closed spec fn owners_map(&self) -> Map<KittyIndex, AccountId> {
        self.owner@
    }

    /// Asked price of each kitty on sale, by id.
    pub closed spec fn prices_map(&self) -> Map<KittyIndex, Balance> {
        self.price_of@
    }

    /// Balances of all accounts.
    pub closed spec fn balances(&self) -> Map<AccountId, AccountData> {
        self.currency@
    }

    /// The escrow held for each owned kitty.
    pub closed spec fn reserve_unit(&self) -> Balance {
        self.config.create_kitty_reserve
    }

    /// Every kitty has an owner and an id below the counter, only owned kitties
    /// have a price, every price is positive, no account's total overflows, and
    /// the escrow held against each account covers one reserve unit for each
    /// kitty it owns.
    pub open spec fn wf(&self) -> bool {
        &&& self.kitties_map().dom() == self.owners_map().dom()
        &&& forall|id: KittyIndex| #[trigger] self.kitties_map().contains_key(id) ==> id < self.count()
        &&& forall|id: KittyIndex| #[trigger]
            self.prices_map().contains_key(id) ==> self.owners_map().contains_key(id)
                && self.prices_map()[id] > 0
        &&& accounts_bounded(self.balances())
        &&& self.owners_map().dom().finite()
        &&& forall|who: AccountId| #[trigger]
            reserved_of(self.balances(), who) >= self.reserve_unit() * owned_by(
                self.owners_map(),
                who,
            ).len()
    }

    /// Whether `who` owns kitty `id`.
    pub open spec fn owns(&self, who: AccountId, id: KittyIndex) -> bool {
        self.owners_map().contains_key(id) && self.owners_map()[id] == who
    }

    /// The error that creating a kitty for `who` meets, if any.
    pub open spec fn create_error(&self, who: AccountId) -> Option<Error> {
        if self.count() == KittyIndex::MAX {
            Some(Error::KittiesCountOverflow)
        } else if free_of(self.balances(), who) < self.reserve_unit() {
            Some(Error::ReserveFailed)
        } else {
            None
        }
    }

    /// `new` is `self` with kitty `id` made for `who`: the id is the counter and
    /// above every earlier id, the counter moves past it, `who` owns it and pays
    /// the escrow for it.
    pub open spec fn kitty_created(&self, new: &Pallet, who: AccountId, id: KittyIndex) -> bool {
        &&& id == self.count()
        &&& forall|k: KittyIndex| #[trigger] self.kitties_map().contains_key(k) ==> k < id
        &&& new.count() == id + 1
        &&& new.kitties_map() == self.kitties_map().insert(id, new.kitties_map()[id])
        &&& new.owners_map() == self.owners_map().insert(id, who)
        &&& new.prices_map() == self.prices_map()
        &&& new.balances() == after_reserve(self.balances(), who, self.reserve_unit())
        &&& new.reserve_unit() == self.reserve_unit()
    }

    /// The balances after the escrow for one kitty moves from `from` to `to`.
    pub open spec fn escrow_moved(&self, from: AccountId, to: AccountId) -> Map<AccountId, AccountData> {
        after_reserve(after_unreserve(self.balances(), from, self.reserve_unit()), to, self.reserve_unit())
    }

    /// The error that moving kitty `id` from `from` to `to` meets, if any.
    pub open spec fn transfer_error(&self, from: AccountId, to: AccountId, id: KittyIndex) -> Option<
        Error,
    > {
        if !self.owns(from, id) {
            Some(Error::NotKittyOwner)
        } else if free_of(after_unreserve(self.balances(), from, self.reserve_unit()), to)
            < self.reserve_unit() {
            Some(Error::ReserveFailed)
        } else {
            None
        }
    }

    /// `new` is `self` with kitty `id` moved from `from` to `to`: new owner, no
    /// asked price, escrow released for `from` and held for `to`.
    pub open spec fn kitty_transferred(&self, new: &Pallet, from: AccountId, to: AccountId, id: KittyIndex) -> bool {
        &&& new.count() == self.count()
        &&& new.kitties_map() == self.kitties_map()
        &&& new.owners_map() == self.owners_map().insert(id, to)
        &&& new.prices_map() == self.prices_map().remove(id)
        &&& new.balances() == self.escrow_moved(from, to)
        &&& new.reserve_unit() == self.reserve_unit()
    }

    /// The error that breeding kitties `id_1` and `id_2` for `who` meets, if any.
    pub open spec fn breed_error(&self, who: AccountId, id_1: KittyIndex, id_2: KittyIndex) -> Option<
        Error,
    > {
        if id_1 == id_2 {
            Some(Error::SameParentIndex)
        } else if !self.kitties_map().contains_key(id_1) || !self.kitties_map().contains_key(id_2) {
            Some(Error::InvalidKittyIndex)
        } else if !self.owns(who, id_1) || !self.owns(who, id_2) {
            Some(Error::NotKittyOwner)
        } else {
            self.create_error(who)
        }
    }

    /// The error that setting a price on kitty `id` for `who` meets, if any.
    pub open spec fn sell_error(&self, who: AccountId, id: KittyIndex, price: Balance) -> Option<Error> {
        if !self.owns(who, id) {
            Some(Error::NotKittyOwner)
        } else if price == 0 {
            Some(Error::InvalidKittyPrice)
        } else {
            None
        }
    }

    /// The error that `who` buying kitty `id` from `owner` meets, if any.
    pub open spec fn buy_error(&self, who: AccountId, owner: AccountId, id: KittyIndex) -> Option<Error> {
        if !self.owns(owner, id) {
            Some(Error::NotKittyOwner)
        } else if !self.prices_map().contains_key(id) {
            Some(Error::KittyNotForSale)
        } else if who == owner {
            Some(Error::KittyAlreadyHave)
        } else if free_of(self.balances(), who) <= self.prices_map()[id] + self.reserve_unit() {
            Some(Error::BalanceNotEnough)
        } else if transfer_overflows(self.balances(), who, owner, self.prices_map()[id]) {
            Some(Error::TransferFailed)
        } else {
            None
        }
    }

    /// `new` is `self` after `who` paid `owner` the asked price for kitty `id`
    /// and the kitty moved to `who`.
    pub open spec fn kitty_bought(&self, new: &Pallet, who: AccountId, owner: AccountId, id: KittyIndex) -> bool {
        &&& new.count() == self.count()
        &&& new.kitties_map() == self.kitties_map()
        &&& new.owners_map() == self.owners_map().insert(id, who)
        &&& new.prices_map() == self.prices_map().remove(id)
        &&& new.balances() == after_reserve(
            after_unreserve(
                after_transfer(self.balances(), who, owner, self.prices_map()[id]),
                owner,
                self.reserve_unit(),
            ),
            who,
            self.reserve_unit(),
        )
        &&& new.reserve_unit() == self.reserve_unit()
    }

    /// A module with no kitties, over the given balances.
    pub fn new(config: Config, currency: Ledger) -> (r: Pallet)
        requires
            currency.wf(),
        ensures
            r.wf(),
            r.count() == 0,
            r.kitties_map() == Map::<KittyIndex, Kitty>::empty(),
            r.owners_map() == Map::<KittyIndex, AccountId>::empty(),
            r.prices_map() == Map::<KittyIndex, Balance>::empty(),
            r.balances() == currency@,
            r.reserve_unit() == config.create_kitty_reserve,
    {
        let r = Pallet {
            config,
            kitties_count: 0,
            kitties: HashMapWithView::new(),
            owner: HashMapWithView::new(),
            price_of: HashMapWithView::new(),
            currency,
        };
        assert(r.owners_map().dom() =~= Set::<KittyIndex>::empty());
        assert forall|who: AccountId| #[trigger]
            reserved_of(r.balances(), who) >= r.reserve_unit() * owned_by(r.owners_map(), who).len() by {
            assert(owned_by(r.owners_map(), who) =~= Set::<KittyIndex>::empty());
        }
        r
    }
    /// The id the next kitty gets: the counter, unless it is exhausted.
    fn generate_kitty_id(&self) -> (r: Result<KittyIndex, Error>)
        ensures
            self.count() == KittyIndex::MAX ==> r == Err::<KittyIndex, Error>(
                Error::KittiesCountOverflow,
            ),
            self.count() < KittyIndex::MAX ==> r == Ok::<KittyIndex, Error>(self.count()),
    {
        let id = self.kitties_count;
        if id == KittyIndex::MAX {
            return Err(Error::KittiesCountOverflow);
        }
        Ok(id)
    }

    /// Makes a kitty of genome `dna` for `who`, holding the escrow for it.
    /// Fails, changing nothing, when the counter is exhausted or `who` cannot
    /// pay the escrow.
    pub fn create_kitty(&mut self, who: AccountId, dna: [u8; 16]) -> (r: Result<KittyIndex, Error>)
        requires
            old(self).wf(),
        ensures
            final(self).wf(),
            match old(self).create_error(who) {
                Some(e) => r == Err::<KittyIndex, Error>(e) && *final(self) == *old(self),
                None => r == Ok::<KittyIndex, Error>(old(self).count()) && old(self).kitty_created(
                    final(self),
                    who,
                    old(self).count(),
                ) && final(self).kitties_map()[old(self).count()].0@ == dna@,
            },
    {
        let id = self.generate_kitty_id()?;
        let unit = self.config.create_kitty_reserve;
        if self.currency.free_balance(who) < unit {
            return Err(Error::ReserveFailed);
        }
        let _ = self.currency.reserve(who, unit);
        self.kitties.insert(id, Kitty(dna));
        self.owner.insert(id, who);
        self.kitties_count = id + 1;
        proof {
            assert(self.kitties_map().dom() =~= self.owners_map().dom());
            assert(self.prices_map() == old(self).prices_map());
            assert forall|k: KittyIndex| #[trigger] self.prices_map().contains_key(k) implies self.owners_map().contains_key(k) && self.prices_map()[k] > 0 by {
                assert(old(self).owners_map().contains_key(k));
            }
            assert(!old(self).kitties_map().contains_key(id));
            assert forall|a: AccountId| #[trigger]
                reserved_of(self.balances(), a) >= self.reserve_unit() * owned_by(self.owners_map(), a).len() by {
                lemma_owned_after_assign(old(self).owners_map(), id, who, a);
                let before = owned_by(old(self).owners_map(), a);
                assert(!before.contains(id));
                assert(reserved_of(old(self).balances(), a) >= unit * before.len());
                lemma_mul_succ(unit as int, before.len() as int);
                if a == who {
                    assert(owned_by(self.owners_map(), a).len() == before.len() + 1);
                    assert(reserved_of(self.balances(), a) == reserved_of(old(self).balances(), a) + unit);
                } else {
                    assert(owned_by(self.owners_map(), a).len() == before.len());
                    assert(reserved_of(self.balances(), a) == reserved_of(old(self).balances(), a));
                }
            }
        }
        Ok(id)
    }

    /// Moves kitty `id` from `from` to `to`: the escrow is released for `from`
    /// and held for `to`, and any asked price is cleared. Fails, changing
    /// nothing, when `from` does not own the kitty or `to` cannot pay the escrow
    /// once `from`'s is released.
    fn transfer_kitty(&mut self, from: AccountId, to: AccountId, id: KittyIndex) -> (r: Result<(), Error>)
        requires
            old(self).wf(),
        ensures
            final(self).wf(),
            match old(self).transfer_error(from, to, id) {
                Some(e) => r == Err::<(), Error>(e) && *final(self) == *old(self),
                None => r is Ok && old(self).kitty_transferred(final(self), from, to, id),
            },
    {
        match self.owner.get(&id) {
            Some(o) => {
                if *o != from {
                    return Err(Error::NotKittyOwner);
                }
            },
            None => {
                return Err(Error::NotKittyOwner);
            },
        }
        let unit = self.config.create_kitty_reserve;
        proof {
            // `from` owns the kitty, so its escrow covers at least one unit.
            lemma_owned_after_assign(old(self).owners_map(), id, to, from);
            assert(owned_by(old(self).owners_map(), from).contains(id));
            lemma_mul_covers(unit as int, owned_by(old(self).owners_map(), from).len() as int);
        }
        let to_free = self.currency.free_balance(to);
        let available = if from == to {
            to_free + unit
        } else {
            to_free
        };
        if available < unit {
            return Err(Error::ReserveFailed);
        }
        self.currency.unreserve(from, unit);
        let _ = self.currency.reserve(to, unit);
        self.owner.insert(id, to);
        self.price_of.remove(&id);
        proof {
            assert forall|a: AccountId| #[trigger]
                reserved_of(self.balances(), a) >= self.reserve_unit() * owned_by(self.owners_map(), a).len() by {
                lemma_owned_after_assign(old(self).owners_map(), id, to, a);
                let before = owned_by(old(self).owners_map(), a);
                assert(reserved_of(old(self).balances(), a) >= unit * before.len());
                lemma_mul_succ(unit as int, before.len() as int);
                let mid = after_unreserve(old(self).balances(), from, unit);
                if a == from {
                    assert(before.contains(id));
                    assert(reserved_of(mid, a) == reserved_of(old(self).balances(), a) - unit);
                } else {
                    assert(!before.contains(id));
                    assert(reserved_of(mid, a) == reserved_of(old(self).balances(), a));
                }
                if a == to {
                    assert(reserved_of(self.balances(), a) == reserved_of(mid, a) + unit);
                    if a == from {
                        assert(owned_by(self.owners_map(), a).len() == before.len());
                    } else {
                        assert(owned_by(self.owners_map(), a).len() == before.len() + 1);
                    }
                } else {
                    assert(reserved_of(self.balances(), a) == reserved_of(mid, a));
                    if a == from {
                        assert(owned_by(self.owners_map(), a).len() == before.len() - 1);
                    } else {
                        assert(owned_by(self.owners_map(), a).len() == before.len());
                    }
                }
            }
            assert(self.kitties_map().dom() =~= self.owners_map().dom());
            assert(self.prices_map() =~= old(self).prices_map().remove(id));
        }
        Ok(())
    }
    /// Breeds kitties `kitty_id_1` and `kitty_id_2` of `who` into a new kitty
    /// whose genome takes each bit from the first parent where `selector` has a
    /// one and from the second where it has a zero; the child is then made as
    /// `create_kitty` makes one. Fails, changing nothing, on equal parents, an
    /// unknown parent, a parent that `who` does not own, or as `create_kitty` fails.
    pub fn breed_with_selector(
        &mut self,
        who: AccountId,
        kitty_id_1: KittyIndex,
        kitty_id_2: KittyIndex,
        selector: &[u8; 16],
    ) -> (r: Result<KittyIndex, Error>)
        requires
            old(self).wf(),
        ensures
            final(self).wf(),
            kitty_id_1 == kitty_id_2 ==> r == Err::<KittyIndex, Error>(Error::SameParentIndex),
            match old(self).breed_error(who, kitty_id_1, kitty_id_2) {
                Some(e) => r == Err::<KittyIndex, Error>(e) && *final(self) == *old(self),
                None => r == Ok::<KittyIndex, Error>(old(self).count()) && old(self).kitty_created(
                    final(self),
                    who,
                    old(self).count(),
                ) && is_child_dna(
                    final(self).kitties_map()[old(self).count()].0@,
                    selector@,
                    old(self).kitties_map()[kitty_id_1].0@,
                    old(self).kitties_map()[kitty_id_2].0@,
                ),
            },
    {
        if kitty_id_1 == kitty_id_2 {
            return Err(Error::SameParentIndex);
        }
        let kitty_1 = match self.kitties.get(&kitty_id_1) {
            Some(k) => *k,
            None => {
                return Err(Error::InvalidKittyIndex);
            },
        };
        let kitty_2 = match self.kitties.get(&kitty_id_2) {
            Some(k) => *k,
            None => {
                return Err(Error::InvalidKittyIndex);
            },
        };
        if !self.is_owner(who, kitty_id_1) || !self.is_owner(who, kitty_id_2) {
            return Err(Error::NotKittyOwner);
        }
        let child_dna = combine_dna(selector, &kitty_1.0, &kitty_2.0);
        self.create_kitty(who, child_dna)
    }

    /// Whether `who` owns kitty `id`.
    pub fn is_owner(&self, who: AccountId, id: KittyIndex) -> (r: bool)
        ensures
            r == self.owns(who, id),
    {
        match self.owner.get(&id) {
            Some(o) => *o == who,
            None => false,
        }
    }

    /// `who` makes a new kitty whose genome is the random value drawn for it.
    pub fn create(&mut self, who: AccountId, ctx: &TxContext) -> (r: Result<Event, Error>)
        requires
            old(self).wf(),
        ensures
            final(self).wf(),
            match old(self).create_error(who) {
                Some(e) => r == Err::<Event, Error>(e) && *final(self) == *old(self),
                None => r == Ok::<Event, Error>(Event::KittyCreate(who, old(self).count()))
                    && old(self).kitty_created(final(self), who, old(self).count())
                    && final(self).kitties_map()[old(self).count()].0@ == random_of(who, *ctx),
            },
    {
        let dna = random_value(who, ctx);
        let kitty_id = self.create_kitty(who, dna)?;
        Ok(Event::KittyCreate(who, kitty_id))
    }

    /// `who` gives kitty `kitty_id` to `new_owner_id`, with its escrow.
    pub fn transfer(&mut self, who: AccountId, kitty_id: KittyIndex, new_owner_id: AccountId) -> (r:
        Result<Event, Error>)
        requires
            old(self).wf(),
        ensures
            final(self).wf(),
            match old(self).transfer_error(who, new_owner_id, kitty_id) {
                Some(e) => r == Err::<Event, Error>(e) && *final(self) == *old(self),
                None => r == Ok::<Event, Error>(Event::KittyTransfer(who, kitty_id, new_owner_id))
                    && old(self).kitty_transferred(final(self), who, new_owner_id, kitty_id)
                    && final(self).owns(new_owner_id, kitty_id)
                    && !final(self).prices_map().contains_key(kitty_id),
            },
    {
        self.transfer_kitty(who, new_owner_id, kitty_id)?;
        Ok(Event::KittyTransfer(who, kitty_id, new_owner_id))
    }

    /// `who` breeds two of its kitties, the selector being the random value
    /// drawn for it.
    pub fn breed(&mut self, who: AccountId, kitty_id_1: KittyIndex, kitty_id_2: KittyIndex, ctx: &TxContext) -> (r:
        Result<Event, Error>)
        requires
            old(self).wf(),
        ensures
            final(self).wf(),
            kitty_id_1 == kitty_id_2 ==> r == Err::<Event, Error>(Error::SameParentIndex),
            match old(self).breed_error(who, kitty_id_1, kitty_id_2) {
                Some(e) => r == Err::<Event, Error>(e) && *final(self) == *old(self),
                None => r == Ok::<Event, Error>(Event::KittyCreate(who, old(self).count()))
                    && old(self).kitty_created(final(self), who, old(self).count()) && is_child_dna(
                    final(self).kitties_map()[old(self).count()].0@,
                    random_of(who, *ctx),
                    old(self).kitties_map()[kitty_id_1].0@,
                    old(self).kitties_map()[kitty_id_2].0@,
                ),
            },
    {
        let selector = random_value(who, ctx);
        let child_id = self.breed_with_selector(who, kitty_id_1, kitty_id_2, &selector)?;
        Ok(Event::KittyCreate(who, child_id))
    }

    /// `who` asks `kitty_price` for its kitty `kitty_id`; a price of zero is refused.
    pub fn sell(&mut self, who: AccountId, kitty_id: KittyIndex, kitty_price: Balance) -> (r: Result<
        Event,
        Error,
    >)
        requires
            old(self).wf(),
        ensures
            final(self).wf(),
            match old(self).sell_error(who, kitty_id, kitty_price) {
                Some(e) => r == Err::<Event, Error>(e) && *final(self) == *old(self),
                None => r == Ok::<Event, Error>(Event::KittySetPrice(who, kitty_id, kitty_price))
                    && final(self).count() == old(self).count()
                    && final(self).kitties_map() == old(self).kitties_map()
                    && final(self).owners_map() == old(self).owners_map()
                    && final(self).prices_map() == old(self).prices_map().insert(kitty_id, kitty_price)
                    && final(self).balances() == old(self).balances()
                    && final(self).reserve_unit() == old(self).reserve_unit(),
            },
    {
        if !self.is_owner(who, kitty_id) {
            return Err(Error::NotKittyOwner);
        }
        if kitty_price == 0 {
            return Err(Error::InvalidKittyPrice);
        }
        self.price_of.insert(kitty_id, kitty_price);
        proof {
            assert forall|k: KittyIndex| #[trigger] self.prices_map().contains_key(k) implies self.owners_map().contains_key(k) && self.prices_map()[k] > 0 by {
                if k != kitty_id {
                    assert(old(self).prices_map().contains_key(k));
                }
            }
        }
        Ok(Event::KittySetPrice(who, kitty_id, kitty_price))
    }

    /// `who` buys kitty `kitty_id` from `owner` at its asked price. The checks
    /// run in this order: `owner` must be the kitty's owner, the kitty must have
    /// an asked price, `who` must not already own it, and `who`'s free balance
    /// must exceed the price plus the escrow. On success the price goes to
    /// `owner`, the kitty and its escrow go to `who`, and the price is cleared.
    pub fn buy(&mut self, who: AccountId, owner: AccountId, kitty_id: KittyIndex) -> (r: Result<
        Event,
        Error,
    >)
        requires
            old(self).wf(),
        ensures
            final(self).wf(),
            old(self).owns(owner, kitty_id) && !old(self).prices_map().contains_key(kitty_id) ==> r
                == Err::<Event, Error>(Error::KittyNotForSale) && *final(self) == *old(self),
            match old(self).buy_error(who, owner, kitty_id) {
                Some(e) => r == Err::<Event, Error>(e) && *final(self) == *old(self),
                None => r == Ok::<Event, Error>(Event::KittyBuy(who, kitty_id, owner))
                    && old(self).kitty_bought(final(self), who, owner, kitty_id),
            },
    {
        if !self.is_owner(owner, kitty_id) {
            return Err(Error::NotKittyOwner);
        }
        self.buy_kitty(owner, who, kitty_id)?;
        Ok(Event::KittyBuy(who, kitty_id, owner))
    }

    /// The sale itself, once `owner_id` is known to own the kitty: checks the
    /// price and the buyer's means, pays the seller, then moves the kitty.
    fn buy_kitty(&mut self, owner_id: AccountId, new_owner_id: AccountId, kitty_id: KittyIndex) -> (r:
        Result<KittyIndex, Error>)
        requires
            old(self).wf(),
            old(self).owns(owner_id, kitty_id),
        ensures
            final(self).wf(),
            match old(self).buy_error(new_owner_id, owner_id, kitty_id) {
                Some(e) => r == Err::<KittyIndex, Error>(e) && *final(self) == *old(self),
                None => r == Ok::<KittyIndex, Error>(kitty_id) && old(self).kitty_bought(
                    final(self),
                    new_owner_id,
                    owner_id,
                    kitty_id,
                ),
            },
    {
        let price = match self.price_of.get(&kitty_id) {
            Some(p) => *p,
            None => {
                return Err(Error::KittyNotForSale);
            },
        };
        if new_owner_id == owner_id {
            return Err(Error::KittyAlreadyHave);
        }
        let unit = self.config.create_kitty_reserve;
        let free = self.currency.free_balance(new_owner_id);
        if unit >= free || price >= free - unit {
            return Err(Error::BalanceNotEnough);
        }
        let seller_free = self.currency.free_balance(owner_id);
        let seller_reserved = self.currency.reserved_balance(owner_id);
        if price > Balance::MAX - seller_free - seller_reserved {
            return Err(Error::TransferFailed);
        }
        let _ = self.currency.transfer(new_owner_id, owner_id, price);
        assert forall|a: AccountId| #[trigger]
            reserved_of(self.balances(), a) >= self.reserve_unit() * owned_by(self.owners_map(), a).len() by {
            assert(reserved_of(self.balances(), a) == reserved_of(old(self).balances(), a));
        }
        self.transfer_kitty(owner_id, new_owner_id, kitty_id)?;
        Ok(kitty_id)
    }
    /// The next unused id, which is also the number of kitties made.
    pub fn kitties_count(&self) -> (r: KittyIndex)
        ensures
            r == self.count(),
    {
        self.kitties_count
    }

    /// Sets the counter, as the host's storage may; it can only move forward,
    /// so every existing id stays below it.
    pub fn set_kitties_count(&mut self, count: KittyIndex)
        requires
            old(self).wf(),
            old(self).count() <= count,
        ensures
            final(self).wf(),
            final(self).count() == count,
            final(self).kitties_map() == old(self).kitties_map(),
            final(self).owners_map() == old(self).owners_map(),
            final(self).prices_map() == old(self).prices_map(),
            final(self).balances() == old(self).balances(),
            final(self).reserve_unit() == old(self).reserve_unit(),
    {
        self.kitties_count = count;
        assert forall|id: KittyIndex| #[trigger] self.kitties_map().contains_key(id) implies id
            < self.count() by {
            assert(old(self).kitties_map().contains_key(id));
        }
        assert forall|id: KittyIndex| #[trigger] self.prices_map().contains_key(id) implies self.owners_map().contains_key(id)
            && self.prices_map()[id] > 0 by {
            assert(old(self).prices_map().contains_key(id));
        }
    }

    /// The kitty with id `id`, if any.
    pub fn kitties(&self, id: KittyIndex) -> (r: Option<Kitty>)
        ensures
            match r {
                Some(k) => self.kitties_map().contains_key(id) && k == self.kitties_map()[id],
                None => !self.kitties_map().contains_key(id),
            },
    {
        match self.kitties.get(&id) {
            Some(k) => Some(*k),
            None => None,
        }
    }

    /// The owner of kitty `id`, if it exists.
    pub fn owner(&self, id: KittyIndex) -> (r: Option<AccountId>)
        ensures
            match r {
                Some(o) => self.owns(o, id),
                None => !self.owners_map().contains_key(id),
            },
    {
        match self.owner.get(&id) {
            Some(o) => Some(*o),
            None => None,
        }
    }

    /// The asked price of kitty `id`, if it is on sale.
    pub fn price_of(&self, id: KittyIndex) -> (r: Option<Balance>)
        ensures
            match r {
                Some(p) => self.prices_map().contains_key(id) && p == self.prices_map()[id],
                None => !self.prices_map().contains_key(id),
            },
    {
        match self.price_of.get(&id) {
            Some(p) => Some(*p),
            None => None,
        }
    }

    /// The escrow held for each owned kitty.
    pub fn create_kitty_reserve(&self) -> (r: Balance)
        ensures
            r == self.reserve_unit(),
    {
        self.config.create_kitty_reserve
    }

    /// The balances that escrow and payments go through.
    pub fn currency(&self) -> (r: &Ledger)
        ensures
            r@ == self.balances(),
            r.wf() == accounts_bounded(self.balances()),
    {
        &self.currency
    }
}

/// Every kitty has an owner, in every well-formed state: the operations keep
/// the state well-formed and never remove a kitty, so an owner, once set,
/// stays defined.
pub proof fn lemma_kitty_has_owner(p: &Pallet, id: KittyIndex)
    requires
        p.wf(),
        p.kitties_map().contains_key(id),
    ensures
        p.owners_map().contains_key(id),
{
}

/// The escrow held against an account covers one reserve unit for each kitty
/// it owns, in every well-formed state.
pub proof fn lemma_escrow_covers_owned(p: &Pallet, who: AccountId)
    requires
        p.wf(),
    ensures
        reserved_of(p.balances(), who) >= p.reserve_unit() * owned_by(p.owners_map(), who).len(),
{
}

} // verus!
