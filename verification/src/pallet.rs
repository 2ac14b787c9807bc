//! The pallet's storage, its model, and its dispatchable calls.
use vstd::prelude::*;

use crate::encoding::{le_bytes_u32, scale_encode_u32};
use crate::storage::{KittyStore, OwnedStore};
use crate::types::{
    copy_bytes, ensure_signed, hash_eq, signer_of, AccountId, BlockNumber, DispatchError, Error,
    Event, EventView, Gender, Kitty, KittyView, Moment, RandomInfo, RawOrigin, H256,
};

verus! {

/// The gender a kitty gets from its name: male for a name of even length, female otherwise.
pub open spec fn gender_of(name: Seq<u8>) -> Gender {
    if name.len() % 2 == 0 {
        Gender::Male
    } else {
        Gender::Female
    }
}

/// The nonce after `n`, wrapping from `u32::MAX` to zero.
pub open spec fn next_nonce(n: u32) -> u32 {
    if n == u32::MAX {
        0
    } else {
        (n + 1) as u32
    }
}

/// `s` with its element at `i` replaced by its last one, and its last one dropped.
pub open spec fn swap_remove<A>(s: Seq<A>, i: int) -> Seq<A> {
    s.update(i, s.last()).drop_last()
}

/// The first position at which `d` occurs in `s`.
pub open spec fn first_index(s: Seq<H256>, d: H256) -> int {
    choose|i: int|
        0 <= i < s.len() && s[i] == d && forall|j: int| 0 <= j < i ==> #[trigger] s[j] != d
}

/// The pallet's storage as mathematical values.
pub struct PalletState {
    /// How many kitties an account may own before it can create no more.
    pub kitty_limit: u32,
    /// How many kitties were made.
    pub kitty_id: u32,
    /// The number mixed into the next creation's random seed.
    pub nonce: u32,
    /// The kitties, by dna.
    pub kitties: Map<H256, KittyView>,
    /// For every account, the dnas of the kitties it owns, in order.
    pub owned: Map<AccountId, Seq<H256>>,
    /// The last random value that `random_number` drew.
    pub random_number: RandomInfo,
    /// The events the pallet deposited, oldest first.
    pub events: Seq<EventView>,
}

/// The random information of empty storage: the zero hash at block zero.
pub open spec fn default_random_info() -> RandomInfo {
    RandomInfo { hash: all_zero_hash(), block_number: 0 }
}

/// The hash all of whose bytes are zero.
pub open spec fn all_zero_hash() -> H256 {
    choose|h: H256| h@ == Seq::new(32, |i: int| 0u8)
}

impl PalletState {
    /// The storage is consistent: every kitty is stored under its own dna and listed by exactly
    /// its owner, every listed dna is a kitty of the account listing it, no list names a kitty
    /// twice, and every account has a list.
    pub open spec fn wf(self) -> bool {
        &&& forall|d: H256| #[trigger] self.kitties.dom().contains(d) ==> {
            &&& self.kitties[d].dna == d
            &&& self.owned[self.kitties[d].owner].contains(d)
        }
        &&& forall|a: AccountId, d: H256| #[trigger] self.owned[a].contains(d) ==> {
            &&& self.kitties.dom().contains(d)
            &&& self.kitties[d].owner == a
        }
        &&& forall|a: AccountId| #[trigger] self.owned[a].no_duplicates()
        &&& forall|a: AccountId| #[trigger] self.owned.dom().contains(a)
    }

    /// `kitty_id` counts the kitties stored, of which there are finitely many.
    pub open spec fn counted(self) -> bool {
        &&& self.kitties.dom().finite()
        &&& self.kitties.dom().len() == self.kitty_id
    }

    /// Empty storage for a runtime whose limit of kitties per account is `kitty_limit`.
    pub open spec fn initial(kitty_limit: u32) -> PalletState {
        PalletState {
            kitty_limit,
            kitty_id: 0,
            nonce: 0,
            kitties: Map::empty(),
            owned: Map::new(|a: AccountId| true, |a: AccountId| Seq::<H256>::empty()),
            random_number: default_random_info(),
            events: Seq::empty(),
        }
    }

    /// The kitty that a creation by `who` with name `name`, random dna `dna` and time `now` makes.
    pub open spec fn new_kitty(who: AccountId, name: Seq<u8>, dna: H256, now: Moment) -> KittyView {
        KittyView { dna, name, owner: who, price: 0, gender: gender_of(name), created_date: now }
    }

    /// The storage with kitty `k` stored under its dna, listed last among its owner's kitties,
    /// and counted.
    pub open spec fn with_new_kitty(self, k: KittyView) -> PalletState {
        PalletState {
            kitty_id: (self.kitty_id + 1) as u32,
            kitties: self.kitties.insert(k.dna, k),
            owned: self.owned.insert(k.owner, self.owned[k.owner].push(k.dna)),
            ..self
        }
    }

    /// The kitty that genesis makes for `alice`: male, free, named `name`, with dna `dna`.
    pub open spec fn genesis_kitty(alice: AccountId, name: Seq<u8>, dna: H256, now: Moment) -> KittyView {
        KittyView { dna, name, owner: alice, price: 0, gender: Gender::Male, created_date: now }
    }

    /// What `create_new_kitty` answers to `origin` when the random dna is `dna`.
    pub open spec fn create_outcome(self, origin: RawOrigin, dna: H256) -> Result<(), DispatchError> {
        match signer_of(origin) {
            Err(e) => Err(e),
            Ok(who) => {
                if self.kitties.dom().contains(dna) {
                    Err(DispatchError::Module(Error::KittyDnaAlreadyExist))
                } else if self.owned[who].len() >= self.kitty_limit {
                    Err(DispatchError::Module(Error::KittyOwnedTooLarge))
                } else {
                    Ok(())
                }
            },
        }
    }

    /// The storage after `create_new_kitty`: a refused call changes nothing; one that succeeds
    /// advances the nonce, stores the new kitty, lists it last among its owner's, counts it and
    /// deposits `KittyCreated`.
    pub open spec fn after_create(
        self,
        origin: RawOrigin,
        name: Seq<u8>,
        dna: H256,
        now: Moment,
    ) -> PalletState {
        match origin {
            RawOrigin::Signed(who) => {
                if self.create_outcome(origin, dna) is Ok {
                    let s = PalletState { nonce: next_nonce(self.nonce), ..self };
                    PalletState {
                        events: s.events.push(EventView::KittyCreated { kitty: name, dna, owner: who }),
                        ..s.with_new_kitty(PalletState::new_kitty(who, name, dna, now))
                    }
                } else {
                    self
                }
            },
            _ => self,
        }
    }

    /// What `transfer_kitty_to_friend` answers to `origin` giving kitty `dna` to `to`.
    pub open spec fn transfer_outcome(self, origin: RawOrigin, to: AccountId, dna: H256) -> Result<
        (),
        DispatchError,
    > {
        match signer_of(origin) {
            Err(e) => Err(e),
            Ok(from) => {
                if !self.kitties.dom().contains(dna) {
                    Err(DispatchError::Module(Error::KittyNotFound))
                } else if self.kitties[dna].owner != from {
                    Err(DispatchError::Module(Error::KittyWrongOwner))
                } else if self.kitties[dna].owner == to {
                    Err(DispatchError::Module(Error::KittyTransferFail))
                } else {
                    Ok(())
                }
            },
        }
    }

    /// A transfer that passes its checks finds the kitty in its owner's list.
    pub open spec fn transfer_defined(self, origin: RawOrigin, to: AccountId, dna: H256) -> bool {
        self.transfer_outcome(origin, to, dna) is Ok ==> self.owned[self.kitties[dna].owner].contains(
            dna,
        )
    }

    /// The storage after `transfer_kitty_to_friend`: a refused call changes nothing; one that
    /// succeeds gives the kitty to `to`, takes its dna out of the sender's list (the last one
    /// taking its place), appends it to `to`'s list and deposits `KittyTransferred`.
    pub open spec fn after_transfer(self, origin: RawOrigin, to: AccountId, dna: H256) -> PalletState {
        if self.transfer_outcome(origin, to, dna) is Ok {
            let k = self.kitties[dna];
            let from = k.owner;
            let from_list = self.owned[from];
            PalletState {
                kitties: self.kitties.insert(dna, KittyView { owner: to, ..k }),
                owned: self.owned.insert(to, self.owned[to].push(dna)).insert(
                    from,
                    swap_remove(from_list, first_index(from_list, dna)),
                ),
                events: self.events.push(
                    EventView::KittyTransferred { from, to, kitty: k.name, dna },
                ),
                ..self
            }
        } else {
            self
        }
    }

    /// The storage after `random_number` drew `random`.
    pub open spec fn after_random_number(self, random: (H256, BlockNumber)) -> PalletState {
        PalletState {
            random_number: RandomInfo { hash: random.0, block_number: random.1 },
            ..self
        }
    }
}

/// The position of the first `d` in `v`, if there is one.
fn position_of(v: &Vec<H256>, d: &H256) -> (r: Option<usize>)
    ensures
        match r {
            Some(i) => i < v@.len() && i == first_index(v@, *d) && v@[i as int] == *d,
            None => !v@.contains(*d),
        },
{
    let mut i: usize = 0;
    while i < v.len()
        invariant
            i <= v@.len(),
            forall|j: int| 0 <= j < i ==> v@[j] != *d,
        decreases v@.len() - i,
    {
        if hash_eq(&v[i], d) {
            proof {
                let s = v@;
                let k = first_index(s, *d);
                assert(0 <= i < s.len() && s[i as int] == *d && forall|j: int|
                    0 <= j < i ==> #[trigger] s[j] != *d);
                if k < i {
                    assert(s[k] != *d);
                }
                if k > i {
                    assert(s[i as int] != *d);
                }
            }
            return Some(i);
        }
        i = i + 1;
    }
    None
}

/// The kitties pallet: its storage, and the calls that change it. A call is one transaction:
/// one that returns an error leaves the storage as it was.
pub struct Pallet {
    kitty_limit: u32,
    kitty_id: u32,
    nonce: u32,
    kitties: KittyStore,
    kitties_owned: OwnedStore,
    random_number: RandomInfo,
    events: Vec<Event>,
}

impl View for Pallet {
    type V = PalletState;

    closed spec fn view(&self) -> PalletState {
        PalletState {
            kitty_limit: self.kitty_limit,
            kitty_id: self.kitty_id,
            nonce: self.nonce,
            kitties: self.kitties@,
            owned: self.kitties_owned@,
            random_number: self.random_number,
            events: self.events@.map_values(|e: Event| e@),
        }
    }
}

impl Pallet {
    /// Empty storage, for a runtime in which an account that owns `kitty_limit` kitties may
    /// create no more.
    pub fn new(kitty_limit: u32) -> (r: Pallet)
        ensures
            r@ == PalletState::initial(kitty_limit),
    {
        let random_number = RandomInfo::default();
        let r = Pallet {
            kitty_limit,
            kitty_id: 0,
            nonce: 0,
            kitties: KittyStore::new(),
            kitties_owned: OwnedStore::new(),
            random_number,
            events: Vec::new(),
        };
        assert(random_number.hash == all_zero_hash()) by {
            let h = random_number.hash;
            assert(h@ == Seq::new(32, |i: int| 0u8));
            let z = all_zero_hash();
            assert(z@ == Seq::new(32, |i: int| 0u8));
            assert(h =~= z);
        }
        assert(r@.events =~= Seq::<EventView>::empty());
        r
    }

    /// The pallet stores finitely many kitties, each under its own dna.
    pub proof fn lemma_kitties_finite(&self)
        ensures
            self@.kitties.dom().finite(),
            forall|d: H256| #[trigger] self@.kitties.dom().contains(d) ==> self@.kitties[d].dna == d,
    {
        self.kitties.lemma_keys();
    }

    /// Every account has a list of the kitties it owns, empty where nothing was written for it.
    pub proof fn lemma_every_account_has_list(&self)
        ensures
            forall|a: AccountId| #[trigger] self@.owned.dom().contains(a),
    {
        self.kitties_owned.lemma_total();
    }

    /// The gender of a kitty named `dna`: male for an even length, female for an odd one.
    pub fn calculate_gender(dna: &Vec<u8>) -> (r: Result<Gender, Error>)
        ensures
            r == Ok::<Gender, Error>(gender_of(dna@)),
    {
        let mut res = Gender::Female;
        if dna.len() % 2 == 0 {
            res = Gender::Male;
        }
        Ok(res)
    }

    /// The subject under which `create_new_kitty` draws its random dna: the SCALE encoding of
    /// the current nonce.
    pub fn kitty_random_subject(&self) -> (r: Vec<u8>)
        ensures
            r@ == le_bytes_u32(self@.nonce),
    {
        scale_encode_u32(self.nonce)
    }

    /// Creates a kitty named `dna` for the signer of `origin`, whose dna is the random hash
    /// `random.0` drawn under `kitty_random_subject`, and stamps it with the time `now`.
    pub fn create_new_kitty(
        &mut self,
        origin: RawOrigin,
        dna: Vec<u8>,
        random: (H256, BlockNumber),
        now: Moment,
    ) -> (r: Result<(), DispatchError>)
        requires
            old(self)@.create_outcome(origin, random.0) is Ok ==> old(self)@.kitty_id < u32::MAX,
        ensures
            r == old(self)@.create_outcome(origin, random.0),
            final(self)@ == old(self)@.after_create(origin, dna@, random.0, now),
    {
        let who = match ensure_signed(origin) {
            Ok(who) => who,
            Err(e) => return Err(e),
        };
        let gender = match Self::calculate_gender(&dna) {
            Ok(g) => g,
            Err(e) => return Err(DispatchError::Module(e)),
        };
        let nonce = self.nonce;
        let next_nonce = nonce.wrapping_add(1);
        let (dna_random, _block_number) = random;
        let event_name = copy_bytes(&dna);
        let kitty = Kitty {
            name: dna,
            dna: dna_random,
            price: 0,
            gender,
            owner: who,
            created_date: now,
        };
        if self.kitties.contains_key(&kitty.dna) {
            return Err(DispatchError::Module(Error::KittyDnaAlreadyExist));
        }
        let owned = self.kitties_owned.get(who);
        if !(owned.len() < self.kitty_limit as usize) {
            return Err(DispatchError::Module(Error::KittyOwnedTooLarge));
        }
        let current_id = self.kitty_id;
        let next_id = current_id + 1;
        self.nonce = next_nonce;
        self.kitties_owned.append(who, kitty.dna);
        self.kitties.insert(kitty);
        self.kitty_id = next_id;
        self.events.push(Event::KittyCreated { kitty: event_name, dna: dna_random, owner: who });
        proof {
            assert(self@.events =~= old(self)@.after_create(origin, dna@, random.0, now).events);
        }
        Ok(())
    }

    /// Gives kitty `dna` from the signer of `origin` to `to`.
    pub fn transfer_kitty_to_friend(&mut self, origin: RawOrigin, to: AccountId, dna: H256) -> (r:
        Result<(), DispatchError>)
        requires
            old(self)@.transfer_defined(origin, to, dna),
        ensures
            r == old(self)@.transfer_outcome(origin, to, dna),
            final(self)@ == old(self)@.after_transfer(origin, to, dna),
    {
        let ghost pre = self@;
        let from = match ensure_signed(origin) {
            Ok(from) => from,
            Err(e) => return Err(e),
        };
        let mut kitty = match self.kitties.get(&dna) {
            Some(k) => k,
            None => return Err(DispatchError::Module(Error::KittyNotFound)),
        };
        if kitty.owner != from {
            return Err(DispatchError::Module(Error::KittyWrongOwner));
        }
        if kitty.owner == to {
            return Err(DispatchError::Module(Error::KittyTransferFail));
        }
        proof {
            self.kitties.lemma_keys();
            assert(pre.transfer_outcome(origin, to, dna) is Ok);
            assert(pre.owned[from].contains(dna));
        }
        let ghost k = kitty@;
        let mut from_owned = self.kitties_owned.get(from);
        let exist_dna = position_of(&from_owned, &dna);
        let d = exist_dna.unwrap();
        from_owned.swap_remove(d);
        let mut to_owned = self.kitties_owned.get(to);
        to_owned.push(dna);
        kitty.owner = to;
        let name = copy_bytes(&kitty.name);
        proof {
            assert(kitty.dna == dna);
            assert(kitty@ == KittyView { owner: to, ..k });
        }
        self.kitties.insert(kitty);
        self.kitties_owned.insert(to, to_owned);
        self.kitties_owned.insert(from, from_owned);
        self.events.push(Event::KittyTransferred { from, to, kitty: name, dna });
        proof {
            let post = pre.after_transfer(origin, to, dna);
            assert(post.kitties == pre.kitties.insert(dna, KittyView { owner: to, ..k }));
            assert(self@.events =~= post.events);
            assert(self@.kitties =~= post.kitties);
            assert(self@.owned =~= post.owned);
        }
        Ok(())
    }

    /// Stores the random value `random` that the runtime drew under the subject
    /// `random_number_subject`; anyone may call it.
    pub fn random_number(&mut self, _origin: RawOrigin, random: (H256, BlockNumber)) -> (r: Result<
        (),
        DispatchError,
    >)
        ensures
            r is Ok,
            final(self)@ == old(self)@.after_random_number(random),
    {
        let (random_value, block_number) = random;
        let random_info = RandomInfo { hash: random_value, block_number };
        self.random_number = random_info;
        Ok(())
    }

    /// The subject under which `random_number` draws: the bytes of "seed sample".
    pub fn random_number_subject() -> (r: Vec<u8>)
        ensures
            r@ == seq![115u8, 101, 101, 100, 32, 115, 97, 109, 112, 108, 101],
    {
        let r: Vec<u8> = vec![115u8, 101, 101, 100, 32, 115, 97, 109, 112, 108, 101];
        assert(r@ =~= seq![115u8, 101, 101, 100, 32, 115, 97, 109, 112, 108, 101]);
        r
    }

    /// Stores the genesis kitty named `name` with dna `dna` for `alice`, lists it last among
    /// hers, and counts it.
    pub fn add_genesis_kitty(&mut self, alice: AccountId, name: Vec<u8>, dna: H256, now: Moment)
        requires
            old(self)@.kitty_id < u32::MAX,
        ensures
            final(self)@ == old(self)@.with_new_kitty(PalletState::genesis_kitty(alice, name@, dna, now)),
    {
        let kitty = Kitty {
            name,
            dna,
            price: 0,
            gender: Gender::Male,
            owner: alice,
            created_date: now,
        };
        let current_id = self.kitty_id;
        let next_id = current_id + 1;
        self.kitties_owned.append(alice, kitty.dna);
        self.kitties.insert(kitty);
        self.kitty_id = next_id;
    }

    /// How many kitties were made.
    pub fn kitty_id(&self) -> (r: u32)
        ensures
            r == self@.kitty_id,
    {
        self.kitty_id
    }

    /// The current nonce.
    pub fn nonce(&self) -> (r: u32)
        ensures
            r == self@.nonce,
    {
        self.nonce
    }

    /// How many kitties an account may own before it can create no more.
    pub fn kitty_limit(&self) -> (r: u32)
        ensures
            r == self@.kitty_limit,
    {
        self.kitty_limit
    }

    /// The kitty with dna `dna`, if there is one.
    pub fn get_kitty(&self, dna: &H256) -> (r: Option<Kitty>)
        ensures
            match r {
                Some(k) => self@.kitties.dom().contains(*dna) && k@ == self@.kitties[*dna],
                None => !self@.kitties.dom().contains(*dna),
            },
    {
        self.kitties.get(dna)
    }

    /// The dnas of the kitties that `who` owns, in order.
    pub fn kitty_owned(&self, who: AccountId) -> (r: Vec<H256>)
        ensures
            r@ == self@.owned[who],
    {
        self.kitties_owned.get(who)
    }

    /// The last random value that `random_number` drew.
    pub fn get_random_number(&self) -> (r: RandomInfo)
        ensures
            r == self@.random_number,
    {
        self.random_number
    }

    /// The events the pallet deposited, oldest first.
    pub fn events(&self) -> (r: &Vec<Event>)
        ensures
            r@.map_values(|e: Event| e@) == self@.events,
    {
        &self.events
    }
}

} // verus!
