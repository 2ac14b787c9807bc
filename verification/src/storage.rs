//! The pallet's two storage maps: kitties by dna, and the dnas each account owns.
use vstd::prelude::*;

use crate::types::{hash_eq, AccountId, Kitty, KittyView, H256};

verus! {

/// No two kitties of `s` share a dna.
spec fn dnas_unique(s: Seq<Kitty>) -> bool {
    forall|i: int, j: int|
        0 <= i < s.len() && 0 <= j < s.len() && i != j ==> #[trigger] s[i].dna != #[trigger] s[j].dna
}

/// Some kitty of `s` has dna `d`.
spec fn has_dna(s: Seq<Kitty>, d: H256) -> bool {
    exists|i: int| 0 <= i < s.len() && #[trigger] s[i].dna == d
}

/// The position of a kitty of `s` with dna `d`.
spec fn dna_index(s: Seq<Kitty>, d: H256) -> int {
    choose|i: int| 0 <= i < s.len() && #[trigger] s[i].dna == d
}

/// The map from dna to kitty that the kitties of `s` form.
spec fn kitty_map(s: Seq<Kitty>) -> Map<H256, KittyView> {
    Map::new(|d: H256| has_dna(s, d), |d: H256| s[dna_index(s, d)]@)
}

proof fn lemma_dna_index(s: Seq<Kitty>, d: H256, i: int)
    requires
        dnas_unique(s),
        0 <= i < s.len(),
        s[i].dna == d,
    ensures
        dna_index(s, d) == i,
{
    assert(has_dna(s, d));
}

/// The kitties stored by dna, without two of the same dna.
pub struct KittyStore {
    entries: Vec<Kitty>,
}

impl View for KittyStore {
    type V = Map<H256, KittyView>;

    closed spec fn view(&self) -> Map<H256, KittyView> {
        kitty_map(self.entries@)
    }
}

impl KittyStore {
    #[verifier::type_invariant]
    closed spec fn inv(self) -> bool {
        dnas_unique(self.entries@)
    }

    /// Each kitty is stored under its own dna, and finitely many are stored.
    pub proof fn lemma_keys(&self)
        ensures
            forall|d: H256| #[trigger] self@.dom().contains(d) ==> self@[d].dna == d,
            self@.dom().finite(),
    {
        let s = self.entries@;
        let dnas = Seq::new(s.len(), |i: int| s[i].dna);
        assert forall|d: H256| #[trigger] self@.dom().contains(d) implies self@[d].dna == d by {
        }
        assert(self@.dom() =~= dnas.to_set()) by {
            assert forall|d: H256| self@.dom().contains(d) implies dnas.to_set().contains(d) by {
                let i = dna_index(s, d);
                assert(dnas[i] == d);
            }
            assert forall|d: H256| dnas.to_set().contains(d) implies self@.dom().contains(d) by {
                let i = choose|i: int| 0 <= i < dnas.len() && dnas[i] == d;
                assert(s[i].dna == d);
            }
        }
        dnas.lemma_cardinality_of_set();
    }

    /// An empty store.
    pub fn new() -> (r: KittyStore)
        ensures
            r@ == Map::<H256, KittyView>::empty(),
    {
        let r = KittyStore { entries: Vec::new() };
        assert(r@ =~= Map::<H256, KittyView>::empty());
        r
    }

    fn position(&self, d: &H256) -> (r: Option<usize>)
        ensures
            match r {
                Some(i) => i < self.entries@.len() && self.entries@[i as int].dna == *d,
                None => !has_dna(self.entries@, *d),
            },
    {
        let mut i: usize = 0;
        while i < self.entries.len()
            invariant
                i <= self.entries@.len(),
                forall|j: int| 0 <= j < i ==> self.entries@[j].dna != *d,
            decreases self.entries@.len() - i,
        {
            if hash_eq(&self.entries[i].dna, d) {
                return Some(i);
            }
            i = i + 1;
        }
        None
    }

    /// Whether a kitty with dna `d` is stored.
    pub fn contains_key(&self, d: &H256) -> (r: bool)
        ensures
            r == self@.dom().contains(*d),
    {
        self.position(d).is_some()
    }

    /// The kitty stored under dna `d`, if any.
    pub fn get(&self, d: &H256) -> (r: Option<Kitty>)
        ensures
            match r {
                Some(k) => self@.dom().contains(*d) && k@ == self@[*d],
                None => !self@.dom().contains(*d),
            },
    {
        proof {
            use_type_invariant(self);
        }
        match self.position(d) {
            Some(i) => {
                proof {
                    lemma_dna_index(self.entries@, *d, i as int);
                }
                Some(self.entries[i].duplicate())
            },
            None => None,
        }
    }

    /// Stores `k` under its dna, in place of any kitty stored there before.
    pub fn insert(&mut self, k: Kitty)
        ensures
            final(self)@ == old(self)@.insert(k.dna, k@),
    {
        proof {
            use_type_invariant(&*self);
        }
        let ghost d = k.dna;
        let ghost kv = k@;
        let ghost s = self.entries@;
        match self.position(&k.dna) {
            Some(i) => {
                let mut entries: Vec<Kitty> = Vec::new();
                std::mem::swap(&mut entries, &mut self.entries);
                entries.set(i, k);
                self.entries = entries;
                proof {
                    let s2 = self.entries@;
                    assert forall|j: int| 0 <= j < s2.len() implies #[trigger] s2[j].dna == s[j].dna by {
                    }
                    assert(dnas_unique(s2));
                    assert forall|x: H256| #[trigger] kitty_map(s2).dom().contains(x) == kitty_map(s).insert(d, kv).dom().contains(x) by {
                        if has_dna(s2, x) {
                            let j = dna_index(s2, x);
                            assert(s[j].dna == x);
                        }
                        if has_dna(s, x) {
                            let j = dna_index(s, x);
                            assert(s2[j].dna == x);
                        }
                    }
                    assert forall|x: H256| #[trigger] kitty_map(s2).dom().contains(x) implies kitty_map(s2)[x] == kitty_map(s).insert(d, kv)[x] by {
                        let j = dna_index(s2, x);
                        lemma_dna_index(s2, x, j);
                        if x != d {
                            assert(s[j].dna == x);
                            lemma_dna_index(s, x, j);
                        } else {
                            lemma_dna_index(s2, x, i as int);
                        }
                    }
                    assert(kitty_map(s2) =~= kitty_map(s).insert(d, kv));
                }
            },
            None => {
                let mut entries: Vec<Kitty> = Vec::new();
                std::mem::swap(&mut entries, &mut self.entries);
                entries.push(k);
                self.entries = entries;
                proof {
                    let s2 = self.entries@;
                    assert(dnas_unique(s2));
                    assert forall|x: H256| #[trigger] kitty_map(s2).dom().contains(x) == kitty_map(s).insert(d, kv).dom().contains(x) by {
                        if has_dna(s2, x) {
                            let j = dna_index(s2, x);
                            if j < s.len() {
                                assert(s[j].dna == x);
                            }
                        }
                        if has_dna(s, x) {
                            let j = dna_index(s, x);
                            assert(s2[j].dna == x);
                        }
                        if x == d {
                            assert(s2[s.len() as int].dna == x);
                        }
                    }
                    assert forall|x: H256| #[trigger] kitty_map(s2).dom().contains(x) implies kitty_map(s2)[x] == kitty_map(s).insert(d, kv)[x] by {
                        let j = dna_index(s2, x);
                        lemma_dna_index(s2, x, j);
                        if x != d {
                            assert(j < s.len());
                            assert(s[j].dna == x);
                            lemma_dna_index(s, x, j);
                        } else {
                            lemma_dna_index(s2, x, s.len() as int);
                        }
                    }
                    assert(kitty_map(s2) =~= kitty_map(s).insert(d, kv));
                }
            },
        }
    }
}

/// The dnas one account owns.
pub struct OwnedEntry {
    account: AccountId,
    dnas: Vec<H256>,
}

/// No two entries of `s` are for the same account.
spec fn accounts_unique(s: Seq<OwnedEntry>) -> bool {
    forall|i: int, j: int|
        0 <= i < s.len() && 0 <= j < s.len() && i != j ==> #[trigger] s[i].account
            != #[trigger] s[j].account
}

/// Some entry of `s` is for account `a`.
spec fn has_account(s: Seq<OwnedEntry>, a: AccountId) -> bool {
    exists|i: int| 0 <= i < s.len() && #[trigger] s[i].account == a
}

/// The position of an entry of `s` for account `a`.
spec fn account_index(s: Seq<OwnedEntry>, a: AccountId) -> int {
    choose|i: int| 0 <= i < s.len() && #[trigger] s[i].account == a
}

/// The dnas that `s` lists for each account; an account without an entry owns none.
spec fn owned_map(s: Seq<OwnedEntry>) -> Map<AccountId, Seq<H256>> {
    Map::new(
        |a: AccountId| true,
        |a: AccountId|
            if has_account(s, a) {
                s[account_index(s, a)].dnas@
            } else {
                Seq::empty()
            },
    )
}

proof fn lemma_account_index(s: Seq<OwnedEntry>, a: AccountId, i: int)
    requires
        accounts_unique(s),
        0 <= i < s.len(),
        s[i].account == a,
    ensures
        account_index(s, a) == i,
{
    assert(has_account(s, a));
}

/// A copy of a list of hashes.
pub fn copy_hashes(v: &Vec<H256>) -> (r: Vec<H256>)
    ensures
        r@ == v@,
{
    let mut r: Vec<H256> = Vec::new();
    let mut i: usize = 0;
    while i < v.len()
        invariant
            i <= v.len(),
            r@ == v@.subrange(0, i as int),
        decreases v.len() - i,
    {
        r.push(v[i]);
        i = i + 1;
        assert(r@ =~= v@.subrange(0, i as int));
    }
    assert(v@.subrange(0, v.len() as int) =~= v@);
    r
}

/// For each account, the list of dnas it owns; an account never written to owns none.
pub struct OwnedStore {
    entries: Vec<OwnedEntry>,
}

impl View for OwnedStore {
    type V = Map<AccountId, Seq<H256>>;

    closed spec fn view(&self) -> Map<AccountId, Seq<H256>> {
        owned_map(self.entries@)
    }
}

impl OwnedStore {
    #[verifier::type_invariant]
    closed spec fn inv(self) -> bool {
        accounts_unique(self.entries@)
    }

    /// Every account has a list, empty where nothing was written for it.
    pub proof fn lemma_total(&self)
        ensures
            forall|a: AccountId| #[trigger] self@.dom().contains(a),
    {
    }

    /// A store in which no account owns anything.
    pub fn new() -> (r: OwnedStore)
        ensures
            r@ == Map::new(|a: AccountId| true, |a: AccountId| Seq::<H256>::empty()),
    {
        let r = OwnedStore { entries: Vec::new() };
        assert(r@ =~= Map::new(|a: AccountId| true, |a: AccountId| Seq::<H256>::empty()));
        r
    }

    fn position(&self, a: AccountId) -> (r: Option<usize>)
        ensures
            match r {
                Some(i) => i < self.entries@.len() && self.entries@[i as int].account == a,
                None => !has_account(self.entries@, a),
            },
    {
        let mut i: usize = 0;
        while i < self.entries.len()
            invariant
                i <= self.entries@.len(),
                forall|j: int| 0 <= j < i ==> self.entries@[j].account != a,
            decreases self.entries@.len() - i,
        {
            if self.entries[i].account == a {
                return Some(i);
            }
            i = i + 1;
        }
        None
    }

    /// The dnas account `a` owns.
    pub fn get(&self, a: AccountId) -> (r: Vec<H256>)
        ensures
            r@ == self@[a],
    {
        proof {
            use_type_invariant(self);
        }
        match self.position(a) {
            Some(i) => {
                proof {
                    lemma_account_index(self.entries@, a, i as int);
                }
                copy_hashes(&self.entries[i].dnas)
            },
            None => Vec::new(),
        }
    }

    /// Makes `dnas` the list that account `a` owns.
    pub fn insert(&mut self, a: AccountId, dnas: Vec<H256>)
        ensures
            final(self)@ == old(self)@.insert(a, dnas@),
    {
        proof {
            use_type_invariant(&*self);
        }
        let ghost v = dnas@;
        let ghost s = self.entries@;
        match self.position(a) {
            Some(i) => {
                let mut entries: Vec<OwnedEntry> = Vec::new();
                std::mem::swap(&mut entries, &mut self.entries);
                entries.set(i, OwnedEntry { account: a, dnas });
                self.entries = entries;
                proof {
                    let s2 = self.entries@;
                    assert forall|j: int| 0 <= j < s2.len() implies #[trigger] s2[j].account
                        == s[j].account by {}
                    assert(accounts_unique(s2));
                    assert forall|x: AccountId| #[trigger] owned_map(s2)[x] == owned_map(s).insert(a, v)[x] by {
                        if x == a {
                            lemma_account_index(s2, a, i as int);
                        } else if has_account(s, x) {
                            let j = account_index(s, x);
                            lemma_account_index(s, x, j);
                            assert(s2[j].account == x);
                            lemma_account_index(s2, x, j);
                        } else {
                            if has_account(s2, x) {
                                let j = account_index(s2, x);
                                assert(s[j].account == x);
                            }
                        }
                    }
                    assert(owned_map(s2) =~= owned_map(s).insert(a, v));
                }
            },
            None => {
                let mut entries: Vec<OwnedEntry> = Vec::new();
                std::mem::swap(&mut entries, &mut self.entries);
                entries.push(OwnedEntry { account: a, dnas });
                self.entries = entries;
                proof {
                    let s2 = self.entries@;
                    assert(accounts_unique(s2));
                    assert forall|x: AccountId| #[trigger] owned_map(s2)[x] == owned_map(s).insert(a, v)[x] by {
                        if x == a {
                            lemma_account_index(s2, a, s.len() as int);
                            assert(s2[s.len() as int].dnas@ == v);
                            assert(has_account(s2, a));
                        } else if has_account(s, x) {
                            let j = account_index(s, x);
                            lemma_account_index(s, x, j);
                            assert(s2[j].account == x);
                            lemma_account_index(s2, x, j);
                        } else {
                            assert(s2[s.len() as int].account == a);
                            if has_account(s2, x) {
                                let j = account_index(s2, x);
                                if j < s.len() {
                                    assert(s[j].account == x);
                                    assert(has_account(s, x));
                                }
                                assert(false);
                            }
                        }
                    }
                    assert(owned_map(s2) =~= owned_map(s).insert(a, v));
                }
            },
        }
    }

    /// Appends `d` to the list that account `a` owns.
    pub fn append(&mut self, a: AccountId, d: H256)
        ensures
            final(self)@ == old(self)@.insert(a, old(self)@[a].push(d)),
    {
        let mut v = self.get(a);
        v.push(d);
        self.insert(a, v);
    }
}

} // verus!
