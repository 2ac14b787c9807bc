//! The values the kitties pallet stores, emits and answers with.
use vstd::prelude::*;

verus! {

/// An account of the chain (the runtime's `AccountId`).
pub type AccountId = u64;

/// A 256-bit hash (the runtime's `Hash`, an `H256`); a kitty is keyed by its dna hash.
pub type H256 = [u8; 32];

/// The runtime's balance type, in which a kitty's price is given.
pub type Balance = u64;

/// A moment of the time provider, at which a kitty was created.
pub type Moment = u64;

/// The runtime's block number.
pub type BlockNumber = u64;

/// The all-zero hash, the default value of a hash.
pub fn zero_hash() -> (h: H256)
    ensures
        h@ == Seq::new(32, |i: int| 0u8),
{
    let h: H256 = [0u8; 32];
    assert(h@ =~= Seq::new(32, |i: int| 0u8));
    h
}

/// Compares two hashes byte by byte.
pub fn hash_eq(a: &H256, b: &H256) -> (r: bool)
    ensures
        r == (*a == *b),
{
    let mut i: usize = 0;
    while i < 32
        invariant
            i <= 32,
            forall|j: int| 0 <= j < i ==> a[j] == b[j],
        decreases 32 - i,
    {
        if a[i] != b[i] {
            return false;
        }
        i = i + 1;
    }
    assert(*a =~= *b);
    true
}

/// The gender of a kitty.
#[derive(Clone, Copy, PartialEq, Eq, Structural, Debug)]
pub enum Gender {
    Male,
    Female,
}

/// A kitty: its name, its dna hash, its owner, its price, its gender and when it was created.
#[derive(Debug)]
pub struct Kitty {
    pub name: Vec<u8>,
    pub dna: H256,
    pub owner: AccountId,
    pub price: Balance,
    pub gender: Gender,
    pub created_date: Moment,
}

/// A kitty as a mathematical value.
pub struct KittyView {
    pub dna: H256,
    pub name: Seq<u8>,
    pub owner: AccountId,
    pub price: Balance,
    pub gender: Gender,
    pub created_date: Moment,
}

impl View for Kitty {
    type V = KittyView;

    open spec fn view(&self) -> KittyView {
        KittyView {
            dna: self.dna,
            name: self.name@,
            owner: self.owner,
            price: self.price,
            gender: self.gender,
            created_date: self.created_date,
        }
    }
}

/// A copy of a vector of bytes.
pub fn copy_bytes(v: &Vec<u8>) -> (r: Vec<u8>)
    ensures
        r@ == v@,
{
    let mut r: Vec<u8> = Vec::new();
    let mut i: usize = 0;
    while i < v.len()
        invariant
            i <= v.len(),
            r@ == v@.subrange(0, i as int),
        decreases v.len() - i,
    {
        r.push(v[i]);
        i = i + 1;
        assert(r@ =~= v@.subrange(0, i as int));
    }
    assert(v@.subrange(0, v.len() as int) =~= v@);
    r
}

impl Kitty {
    /// A copy of this kitty, field for field.
    pub fn duplicate(&self) -> (r: Kitty)
        ensures
            r@ == self@,
    {
        Kitty {
            dna: self.dna,
            name: copy_bytes(&self.name),
            owner: self.owner,
            price: self.price,
            gender: self.gender,
            created_date: self.created_date,
        }
    }
}

/// The last random value drawn by `random_number`, and the block since which it was known.
#[derive(Clone, Copy, Debug)]
pub struct RandomInfo {
    pub hash: H256,
    pub block_number: BlockNumber,
}

impl Default for RandomInfo {
    fn default() -> (r: RandomInfo)
        ensures
            r.hash@ == Seq::new(32, |i: int| 0u8),
            r.block_number == 0,
    {
        RandomInfo { hash: zero_hash(), block_number: 0 }
    }
}

/// The events the pallet deposits.
#[derive(Debug)]
pub enum Event {
    /// A kitty named `kitty` with dna `dna` was created for `owner`.
    KittyCreated { kitty: Vec<u8>, dna: H256, owner: AccountId },
    /// The kitty named `kitty` with dna `dna` went from `from` to `to`.
    KittyTransferred { from: AccountId, to: AccountId, kitty: Vec<u8>, dna: H256 },
}

/// An event as a mathematical value.
pub enum EventView {
    KittyCreated { kitty: Seq<u8>, dna: H256, owner: AccountId },
    KittyTransferred { from: AccountId, to: AccountId, kitty: Seq<u8>, dna: H256 },
}

impl View for Event {
    type V = EventView;

    open spec fn view(&self) -> EventView {
        match self {
            Event::KittyCreated { kitty, dna, owner } => EventView::KittyCreated {
                kitty: kitty@,
                dna: *dna,
                owner: *owner,
            },
            Event::KittyTransferred { from, to, kitty, dna } => EventView::KittyTransferred {
                from: *from,
                to: *to,
                kitty: kitty@,
                dna: *dna,
            },
        }
    }
}

/// The errors of the pallet.
#[derive(Clone, Copy, PartialEq, Eq, Structural, Debug)]
pub enum Error {
    NoneValue,
    StorageOverflow,
    KittyDnaAlreadyExist,
    KittyNotFound,
    KittyTransferFail,
    KittyWrongOwner,
    KittyOwnedTooLarge,
}

/// Why a dispatched call failed: a bad origin, or an error of the pallet.
#[derive(Clone, Copy, PartialEq, Eq, Structural, Debug)]
pub enum DispatchError {
    BadOrigin,
    Module(Error),
}

/// Who dispatched a call.
#[derive(Clone, Copy, PartialEq, Eq, Structural, Debug)]
pub enum RawOrigin {
    /// The system itself.
    Root,
    /// A transaction signed by the account.
    Signed(AccountId),
    /// Nobody signed it.
    Unsigned,
    /// Nobody signed it; the runtime authorized it.
    Authorized,
}

/// The account that signed `origin`, or `BadOrigin` where nobody signed it.
pub open spec fn signer_of(origin: RawOrigin) -> Result<AccountId, DispatchError> {
    match origin {
        RawOrigin::Signed(who) => Ok(who),
        _ => Err(DispatchError::BadOrigin),
    }
}

/// Ensures that `origin` is a signed one and gives back its signer.
pub fn ensure_signed(origin: RawOrigin) -> (r: Result<AccountId, DispatchError>)
    ensures
        r == signer_of(origin),
{
    match origin {
        RawOrigin::Signed(who) => Ok(who),
        _ => Err(DispatchError::BadOrigin),
    }
}

} // verus!
