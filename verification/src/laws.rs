//! What holds of the pallet over all its calls: storage stays consistent, refused calls
//! change nothing, and successful calls add or move exactly one kitty.
use vstd::prelude::*;

use crate::encoding::decimal;
use crate::genesis::{genesis_dna, genesis_kitties, genesis_name};
use crate::pallet::{first_index, gender_of, next_nonce, swap_remove, PalletState};
use crate::types::{
    AccountId, BlockNumber, DispatchError, Error, EventView, Gender, KittyView, Moment, RandomInfo,
    RawOrigin, H256,
};

verus! {

proof fn lemma_swap_remove(s: Seq<H256>, i: int)
    requires
        s.no_duplicates(),
        0 <= i < s.len(),
    ensures
        forall|x: H256| #[trigger]
            swap_remove(s, i).contains(x) <==> (s.contains(x) && x != s[i]),
        swap_remove(s, i).no_duplicates(),
        swap_remove(s, i).len() == s.len() - 1,
{
    let t = swap_remove(s, i);
    let n = s.len();
    assert forall|x: H256| #[trigger] t.contains(x) <==> (s.contains(x) && x != s[i]) by {
        if t.contains(x) {
            let j = choose|j: int| 0 <= j < t.len() && t[j] == x;
            if j == i {
                assert(s[n - 1] == x);
            } else {
                assert(s[j] == x);
            }
        }
        if s.contains(x) && x != s[i] {
            let k = choose|k: int| 0 <= k < n && s[k] == x;
            if k == n - 1 {
                assert(t[i] == x);
            } else {
                assert(t[k] == x);
            }
        }
    }
    assert forall|j1: int, j2: int|
        0 <= j1 < t.len() && 0 <= j2 < t.len() && j1 != j2 implies t[j1] != t[j2] by {
        let f1 = if j1 == i {
            n - 1
        } else {
            j1
        };
        let f2 = if j2 == i {
            n - 1
        } else {
            j2
        };
        assert(t[j1] == s[f1]);
        assert(t[j2] == s[f2]);
    }
}

proof fn lemma_first_index(s: Seq<H256>, d: H256)
    requires
        s.no_duplicates(),
        s.contains(d),
    ensures
        0 <= first_index(s, d) < s.len(),
        s[first_index(s, d)] == d,
{
    let k = choose|k: int| 0 <= k < s.len() && s[k] == d;
    assert(forall|j: int| 0 <= j < k ==> #[trigger] s[j] != d);
    assert(0 <= k < s.len() && s[k] == d && forall|j: int| 0 <= j < k ==> #[trigger] s[j] != d);
}

/// Empty storage is consistent.
pub proof fn lemma_initial_wf(kitty_limit: u32)
    ensures
        PalletState::initial(kitty_limit).wf(),
{
    let s = PalletState::initial(kitty_limit);
    assert forall|a: AccountId, d: H256| #[trigger] s.owned[a].contains(d) implies {
        &&& s.kitties.dom().contains(d)
        &&& s.kitties[d].owner == a
    } by {
        assert(s.owned[a] =~= Seq::<H256>::empty());
    }
}

/// Storing a kitty under a dna that no kitty has keeps storage consistent.
pub proof fn lemma_with_new_kitty_wf(s: PalletState, k: KittyView)
    requires
        s.wf(),
        !s.kitties.dom().contains(k.dna),
    ensures
        s.with_new_kitty(k).wf(),
{
    let p = s.with_new_kitty(k);
    let who = k.owner;
    assert forall|d: H256| #[trigger] p.kitties.dom().contains(d) implies {
        &&& p.kitties[d].dna == d
        &&& p.owned[p.kitties[d].owner].contains(d)
    } by {
        if d == k.dna {
            assert(p.owned[who][s.owned[who].len() as int] == d);
        } else {
            let a = s.kitties[d].owner;
            assert(s.owned[a].contains(d));
            if a == who {
                let j = choose|j: int| 0 <= j < s.owned[a].len() && s.owned[a][j] == d;
                assert(p.owned[a][j] == d);
            }
        }
    }
    assert forall|a: AccountId, d: H256| #[trigger] p.owned[a].contains(d) implies {
        &&& p.kitties.dom().contains(d)
        &&& p.kitties[d].owner == a
    } by {
        if a == who {
            let j = choose|j: int| 0 <= j < p.owned[a].len() && p.owned[a][j] == d;
            if j < s.owned[a].len() {
                assert(s.owned[a][j] == d);
                assert(s.owned[a].contains(d));
            }
        } else {
            assert(s.owned[a].contains(d));
        }
    }
    assert forall|a: AccountId| #[trigger] p.owned[a].no_duplicates() by {
        if a == who {
            assert(s.owned[a].no_duplicates());
            assert(!s.owned[a].contains(k.dna));
        }
    }
}

/// Creating a kitty keeps storage consistent, whatever the call is answered.
pub proof fn lemma_create_keeps_wf(
    s: PalletState,
    origin: RawOrigin,
    name: Seq<u8>,
    dna: H256,
    now: Moment,
)
    requires
        s.wf(),
    ensures
        s.after_create(origin, name, dna, now).wf(),
{
    if let RawOrigin::Signed(who) = origin {
        if s.create_outcome(origin, dna) is Ok {
            let bumped = PalletState { nonce: next_nonce(s.nonce), ..s };
            lemma_with_new_kitty_wf(bumped, PalletState::new_kitty(who, name, dna, now));
        }
    }
}

/// A transfer of a consistent storage never misses the kitty in its owner's list, and keeps
/// storage consistent, whatever the call is answered.
pub proof fn lemma_transfer_keeps_wf(s: PalletState, origin: RawOrigin, to: AccountId, dna: H256)
    requires
        s.wf(),
    ensures
        s.transfer_defined(origin, to, dna),
        s.after_transfer(origin, to, dna).wf(),
{
    if s.transfer_outcome(origin, to, dna) is Ok {
        let p = s.after_transfer(origin, to, dna);
        let k = s.kitties[dna];
        let from = k.owner;
        let fl = s.owned[from];
        assert(fl.contains(dna));
        lemma_first_index(fl, dna);
        let idx = first_index(fl, dna);
        lemma_swap_remove(fl, idx);
        assert(from != to);
        assert(!s.owned[to].contains(dna));
        assert(p.owned[from] == swap_remove(fl, idx));
        assert(p.owned[to] == s.owned[to].push(dna));
        assert forall|d: H256| #[trigger] p.kitties.dom().contains(d) implies {
            &&& p.kitties[d].dna == d
            &&& p.owned[p.kitties[d].owner].contains(d)
        } by {
            if d == dna {
                assert(p.owned[to][s.owned[to].len() as int] == d);
            } else {
                let a = s.kitties[d].owner;
                assert(s.owned[a].contains(d));
                if a == to {
                    let j = choose|j: int| 0 <= j < s.owned[a].len() && s.owned[a][j] == d;
                    assert(p.owned[a][j] == d);
                }
            }
        }
        assert forall|a: AccountId, d: H256| #[trigger] p.owned[a].contains(d) implies {
            &&& p.kitties.dom().contains(d)
            &&& p.kitties[d].owner == a
        } by {
            if a == from {
                assert(fl.contains(d) && d != dna);
            } else if a == to {
                let j = choose|j: int| 0 <= j < p.owned[a].len() && p.owned[a][j] == d;
                if j < s.owned[a].len() {
                    assert(s.owned[a][j] == d);
                    assert(s.owned[a].contains(d));
                }
            } else {
                assert(s.owned[a].contains(d));
            }
        }
        assert forall|a: AccountId| #[trigger] p.owned[a].no_duplicates() by {
            assert(s.owned[a].no_duplicates());
        }
        assert forall|a: AccountId| #[trigger] p.owned.dom().contains(a) by {
            assert(s.owned.dom().contains(a));
        }
    }
}

/// Drawing a random number keeps storage consistent.
pub proof fn lemma_random_number_keeps_wf(s: PalletState, random: (H256, BlockNumber))
    requires
        s.wf(),
    ensures
        s.after_random_number(random).wf(),
{
}

/// A refused transfer changes nothing.
pub proof fn lemma_refused_transfer_changes_nothing(
    s: PalletState,
    origin: RawOrigin,
    to: AccountId,
    dna: H256,
)
    requires
        s.transfer_outcome(origin, to, dna) is Err,
    ensures
        s.after_transfer(origin, to, dna) == s,
{
}

/// A refused creation changes nothing.
pub proof fn lemma_refused_create_changes_nothing(
    s: PalletState,
    origin: RawOrigin,
    name: Seq<u8>,
    dna: H256,
    now: Moment,
)
    requires
        s.create_outcome(origin, dna) is Err,
    ensures
        s.after_create(origin, name, dna, now) == s,
{
}

/// A successful creation by `who` stores exactly one new kitty, owned by `who` and listed last
/// among hers, counts it, leaves `who` with no more kitties than the limit, and advances the
/// nonce.
pub proof fn lemma_create_adds_one_kitty(
    s: PalletState,
    who: AccountId,
    name: Seq<u8>,
    dna: H256,
    now: Moment,
)
    requires
        s.create_outcome(RawOrigin::Signed(who), dna) is Ok,
        s.kitty_id < u32::MAX,
    ensures
        ({
            let p = s.after_create(RawOrigin::Signed(who), name, dna, now);
            &&& p.kitties.dom() == s.kitties.dom().insert(dna)
            &&& !s.kitties.dom().contains(dna)
            &&& p.kitties[dna] == PalletState::new_kitty(who, name, dna, now)
            &&& forall|d: H256| d != dna ==> #[trigger] p.kitties[d] == s.kitties[d]
            &&& p.kitty_id == s.kitty_id + 1
            &&& p.owned[who] == s.owned[who].push(dna)
            &&& p.owned[who].len() <= s.kitty_limit
            &&& forall|a: AccountId| a != who ==> #[trigger] p.owned[a] == s.owned[a]
            &&& p.nonce == next_nonce(s.nonce)
        }),
{
    let p = s.after_create(RawOrigin::Signed(who), name, dna, now);
    assert(p.kitties.dom() =~= s.kitties.dom().insert(dna));
}

/// A successful transfer of a consistent storage gives the kitty to `to`, takes it off the
/// sender's list and puts it on `to`'s, and leaves every other kitty, every other list and the
/// count of kitties as they were.
pub proof fn lemma_transfer_moves_one_kitty(s: PalletState, from: AccountId, to: AccountId, dna: H256)
    requires
        s.wf(),
        s.transfer_outcome(RawOrigin::Signed(from), to, dna) is Ok,
    ensures
        ({
            let p = s.after_transfer(RawOrigin::Signed(from), to, dna);
            &&& p.kitties.dom() == s.kitties.dom()
            &&& p.kitties[dna] == KittyView { owner: to, ..s.kitties[dna] }
            &&& forall|d: H256| d != dna ==> #[trigger] p.kitties[d] == s.kitties[d]
            &&& p.kitty_id == s.kitty_id
            &&& !p.owned[from].contains(dna)
            &&& p.owned[to].contains(dna)
            &&& p.owned[from].len() == s.owned[from].len() - 1
            &&& p.owned[to].len() == s.owned[to].len() + 1
            &&& forall|a: AccountId| a != from && a != to ==> #[trigger] p.owned[a] == s.owned[a]
        }),
{
    let p = s.after_transfer(RawOrigin::Signed(from), to, dna);
    let fl = s.owned[from];
    assert(fl.contains(dna));
    lemma_first_index(fl, dna);
    lemma_swap_remove(fl, first_index(fl, dna));
    assert(p.owned[to][s.owned[to].len() as int] == dna);
    assert(p.kitties.dom() =~= s.kitties.dom());
}

/// In consistent storage a kitty has one owner: no two accounts list the same dna.
pub proof fn lemma_one_owner(s: PalletState, a: AccountId, b: AccountId, d: H256)
    requires
        s.wf(),
        s.owned[a].contains(d),
        s.owned[b].contains(d),
    ensures
        a == b,
{
}

/// The dnas genesis would give its first `n` kitties when `s.kitty_id` kitties exist are all
/// different and none of them is taken yet.
pub open spec fn genesis_dnas_fresh(s: PalletState, n: nat) -> bool {
    &&& forall|i: nat|
        i < n ==> !s.kitties.dom().contains(#[trigger] genesis_dna((s.kitty_id + i) as u32))
    &&& forall|i: nat, j: nat|
        i < j < n ==> #[trigger] genesis_dna((s.kitty_id + i) as u32) != #[trigger] genesis_dna(
            (s.kitty_id + j) as u32,
        )
}

/// The dna genesis gives its next kitty is fresh, when every dna it gave so far came from
/// the fresh and distinct genesis dnas.
proof fn lemma_genesis_next_dna_fresh(s: PalletState, prev: PalletState, m: nat)
    requires
        s.kitty_id + m < u32::MAX,
        genesis_dnas_fresh(s, m + 1),
        prev.kitty_id == s.kitty_id + m,
        forall|d: H256| #[trigger]
            prev.kitties.dom().contains(d) ==> s.kitties.dom().contains(d) || exists|i: nat|
                i < m && d == #[trigger] genesis_dna((s.kitty_id + i) as u32),
    ensures
        !prev.kitties.dom().contains(genesis_dna(prev.kitty_id)),
{
    let d_new = genesis_dna(prev.kitty_id);
    assert(prev.kitty_id == (s.kitty_id + m) as u32);
    if prev.kitties.dom().contains(d_new) {
        if !s.kitties.dom().contains(d_new) {
            let i = choose|i: nat| i < m && d_new == #[trigger] genesis_dna((s.kitty_id + i) as u32);
            assert(genesis_dna((s.kitty_id + i) as u32) != genesis_dna((s.kitty_id + m) as u32));
        }
    }
}

proof fn lemma_genesis_steps(s: PalletState, alice: AccountId, n: nat, now: Moment)
    requires
        s.wf(),
        s.kitty_id + n <= u32::MAX,
        genesis_dnas_fresh(s, n),
    ensures
        ({
            let p = genesis_kitties(s, alice, n, now);
            &&& p.wf()
            &&& p.kitty_id == s.kitty_id + n
            &&& forall|d: H256| #[trigger]
                p.kitties.dom().contains(d) ==> s.kitties.dom().contains(d) || exists|i: nat|
                    i < n && d == #[trigger] genesis_dna((s.kitty_id + i) as u32)
        }),
    decreases n,
{
    if n > 0 {
        let m = (n - 1) as nat;
        lemma_genesis_steps(s, alice, m, now);
        let prev = genesis_kitties(s, alice, m, now);
        let d_new = genesis_dna(prev.kitty_id);
        lemma_genesis_next_dna_fresh(s, prev, m);
        lemma_with_new_kitty_wf(
            prev,
            PalletState::genesis_kitty(alice, crate::genesis::genesis_name(prev.kitty_id), d_new, now),
        );
        let p = genesis_kitties(s, alice, n, now);
        assert forall|d: H256| #[trigger]
            p.kitties.dom().contains(d) implies s.kitties.dom().contains(d) || exists|i: nat|
                i < n && d == #[trigger] genesis_dna((s.kitty_id + i) as u32) by {
            if d == d_new {
                assert(d == genesis_dna((s.kitty_id + m) as u32));
            } else {
                assert(prev.kitties.dom().contains(d));
            }
        }
    }
}

/// Genesis keeps storage consistent when the dnas it gives its kitties are all different and
/// not taken yet, and counts each kitty it makes.
pub proof fn lemma_genesis_keeps_wf(s: PalletState, alice: AccountId, n: nat, now: Moment)
    requires
        s.wf(),
        s.kitty_id + n <= u32::MAX,
        genesis_dnas_fresh(s, n),
    ensures
        genesis_kitties(s, alice, n, now).wf(),
        genesis_kitties(s, alice, n, now).kitty_id == s.kitty_id + n,
{
    lemma_genesis_steps(s, alice, n, now);
}

/// Empty storage counts its kitties: none.
pub proof fn lemma_initial_counted(kitty_limit: u32)
    ensures
        PalletState::initial(kitty_limit).counted(),
{
}

/// Storing a kitty under a dna that no kitty has keeps `kitty_id` the count of kitties.
pub proof fn lemma_with_new_kitty_counted(s: PalletState, k: KittyView)
    requires
        s.counted(),
        s.kitty_id < u32::MAX,
        !s.kitties.dom().contains(k.dna),
    ensures
        s.with_new_kitty(k).counted(),
{
}

/// Creating a kitty keeps `kitty_id` the count of kitties, whatever the call is answered.
pub proof fn lemma_create_keeps_count(
    s: PalletState,
    origin: RawOrigin,
    name: Seq<u8>,
    dna: H256,
    now: Moment,
)
    requires
        s.counted(),
        s.create_outcome(origin, dna) is Ok ==> s.kitty_id < u32::MAX,
    ensures
        s.after_create(origin, name, dna, now).counted(),
{
    if let RawOrigin::Signed(who) = origin {
        if s.create_outcome(origin, dna) is Ok {
            let bumped = PalletState { nonce: next_nonce(s.nonce), ..s };
            lemma_with_new_kitty_counted(bumped, PalletState::new_kitty(who, name, dna, now));
        }
    }
}

/// A transfer keeps `kitty_id` the count of kitties, whatever the call is answered.
pub proof fn lemma_transfer_keeps_count(s: PalletState, origin: RawOrigin, to: AccountId, dna: H256)
    requires
        s.counted(),
    ensures
        s.after_transfer(origin, to, dna).counted(),
{
    if s.transfer_outcome(origin, to, dna) is Ok {
        assert(s.after_transfer(origin, to, dna).kitties.dom() =~= s.kitties.dom());
    }
}

/// Drawing a random number keeps `kitty_id` the count of kitties.
pub proof fn lemma_random_number_keeps_count(s: PalletState, random: (H256, BlockNumber))
    requires
        s.counted(),
    ensures
        s.after_random_number(random).counted(),
{
}

/// Genesis keeps `kitty_id` the count of kitties when the dnas it gives its kitties are all
/// different and not taken yet.
pub proof fn lemma_genesis_keeps_count(s: PalletState, alice: AccountId, n: nat, now: Moment)
    requires
        s.wf(),
        s.counted(),
        s.kitty_id + n <= u32::MAX,
        genesis_dnas_fresh(s, n),
    ensures
        genesis_kitties(s, alice, n, now).counted(),
    decreases n,
{
    if n > 0 {
        let m = (n - 1) as nat;
        assert(genesis_dnas_fresh(s, m));
        lemma_genesis_keeps_count(s, alice, m, now);
        lemma_genesis_steps(s, alice, m, now);
        let prev = genesis_kitties(s, alice, m, now);
        let d_new = genesis_dna(prev.kitty_id);
        lemma_genesis_next_dna_fresh(s, prev, m);
        lemma_with_new_kitty_counted(
            prev,
            PalletState::genesis_kitty(alice, crate::genesis::genesis_name(prev.kitty_id), d_new, now),
        );
    }
}

/// A creation that succeeds counts one more kitty and stores one more; one that is refused
/// leaves the count and the stored dnas as they were.
pub proof fn lemma_create_changes_count(
    s: PalletState,
    origin: RawOrigin,
    name: Seq<u8>,
    dna: H256,
    now: Moment,
)
    requires
        s.kitties.dom().finite(),
        s.create_outcome(origin, dna) is Ok ==> s.kitty_id < u32::MAX,
    ensures
        ({
            let p = s.after_create(origin, name, dna, now);
            &&& s.create_outcome(origin, dna) is Ok ==> {
                &&& p.kitty_id == s.kitty_id + 1
                &&& p.kitties.dom().finite()
                &&& p.kitties.dom().len() == s.kitties.dom().len() + 1
            }
            &&& s.create_outcome(origin, dna) is Err ==> {
                &&& p.kitty_id == s.kitty_id
                &&& p.kitties.dom() == s.kitties.dom()
            }
        }),
{
    if s.create_outcome(origin, dna) is Ok {
        let p = s.after_create(origin, name, dna, now);
        assert(p.kitties.dom() =~= s.kitties.dom().insert(dna));
    }
}

/// A transfer neither makes nor removes a kitty, and the only kitty whose owner it can change
/// is `dna`, through a call signed by that kitty's owner that succeeds.
pub proof fn lemma_transfer_only_moves_named_kitty(
    s: PalletState,
    origin: RawOrigin,
    to: AccountId,
    dna: H256,
    h: H256,
)
    requires
        s.kitties.dom().contains(h),
    ensures
        ({
            let p = s.after_transfer(origin, to, dna);
            &&& p.kitties.dom() == s.kitties.dom()
            &&& p.kitties[h].owner != s.kitties[h].owner ==> {
                &&& h == dna
                &&& origin == RawOrigin::Signed(s.kitties[h].owner)
                &&& s.transfer_outcome(origin, to, dna) == Ok::<(), crate::types::DispatchError>(())
            }
        }),
{
    let p = s.after_transfer(origin, to, dna);
    if s.transfer_outcome(origin, to, dna) is Ok {
        assert(p.kitties.dom() =~= s.kitties.dom());
    }
}

proof fn lemma_swap_remove_push_multiset(s: Seq<H256>, i: int)
    requires
        0 <= i < s.len(),
    ensures
        swap_remove(s, i).push(s[i]).to_multiset() == s.to_multiset(),
{
    broadcast use vstd::seq_lib::group_to_multiset_ensures;
    broadcast use vstd::multiset::group_multiset_axioms;

    let t = s.update(i, s.last());
    let u = t.drop_last();
    assert(u.push(t.last()) =~= t);
    assert(t.last() == s.last());
    assert(t.to_multiset() == s.to_multiset().insert(s.last()).remove(s[i]));
    assert(t.to_multiset() == u.to_multiset().insert(s.last()));
    assert(u.push(s[i]).to_multiset() == u.to_multiset().insert(s[i]));
    assert(s.to_multiset().count(s[i]) > 0);
    assert forall|x: H256| #[trigger] u.push(s[i]).to_multiset().count(x) == s.to_multiset().count(x) by {
        assert(t.to_multiset().count(x) == u.to_multiset().count(x) + if x == s.last() { 1int } else { 0int });
        assert(t.to_multiset().count(x) == s.to_multiset().count(x) + (if x == s.last() { 1int } else { 0int }) - (if x == s[i] { 1int } else { 0int }));
    }
    assert(u.push(s[i]).to_multiset() =~= s.to_multiset());
}

/// A kitty that `a` gives to `b` and `b` gives back returns consistent storage to where it was,
/// but for the order of `a`'s list: the second transfer succeeds, every kitty and every other
/// list is as before, `b`'s list is as before, and `a`'s list holds the same dnas.
pub proof fn lemma_transfer_round_trip(s: PalletState, a: AccountId, b: AccountId, dna: H256)
    requires
        s.wf(),
        s.transfer_outcome(RawOrigin::Signed(a), b, dna) is Ok,
    ensures
        ({
            let s1 = s.after_transfer(RawOrigin::Signed(a), b, dna);
            let s2 = s1.after_transfer(RawOrigin::Signed(b), a, dna);
            &&& s1.transfer_outcome(RawOrigin::Signed(b), a, dna) is Ok
            &&& s2.kitties == s.kitties
            &&& s2.kitty_id == s.kitty_id
            &&& s2.owned[b] == s.owned[b]
            &&& s2.owned[a].to_multiset() == s.owned[a].to_multiset()
            &&& forall|c: AccountId| c != a && c != b ==> #[trigger] s2.owned[c] == s.owned[c]
        }),
{
    let s1 = s.after_transfer(RawOrigin::Signed(a), b, dna);
    lemma_transfer_keeps_wf(s, RawOrigin::Signed(a), b, dna);
    lemma_transfer_moves_one_kitty(s, a, b, dna);
    assert(s1.transfer_outcome(RawOrigin::Signed(b), a, dna) is Ok);
    let s2 = s1.after_transfer(RawOrigin::Signed(b), a, dna);
    lemma_transfer_moves_one_kitty(s1, b, a, dna);
    assert(s2.kitties =~= s.kitties) by {
        assert(s.kitties.dom().contains(dna));
        assert forall|d: H256| #[trigger] s2.kitties.dom().contains(d) implies s2.kitties[d]
            == s.kitties[d] by {
            if d == dna {
                assert(s2.kitties[d] == KittyView { owner: a, ..s1.kitties[dna] });
            }
        }
    }
    // `b` did not list the kitty before, so the dna went to the end of `b`'s list and leaves
    // from there.
    let bl = s.owned[b];
    assert(!bl.contains(dna));
    let bl1 = s1.owned[b];
    assert(bl1 == bl.push(dna));
    lemma_first_index(bl1, dna);
    let j = first_index(bl1, dna);
    if j < bl.len() {
        assert(bl[j] == dna);
    }
    assert(j == bl.len());
    assert(s2.owned[b] =~= bl);
    // `a`'s list lost the dna by swap-remove and got it back at the end.
    let al = s.owned[a];
    assert(al.contains(dna));
    lemma_first_index(al, dna);
    let i = first_index(al, dna);
    assert(s1.owned[a] == swap_remove(al, i));
    assert(s2.owned[a] == swap_remove(al, i).push(dna));
    lemma_swap_remove_push_multiset(al, i);
}

/// A signed transfer succeeds exactly when the kitty is stored, the signer owns it and it goes
/// to another account; nothing else about the storage (how many kitties there are, the limit,
/// the count) can refuse it. It then hands the kitty to `to` and changes nothing else about it.
pub proof fn lemma_transfer_succeeds_exactly_when_owner_gives_away(
    s: PalletState,
    from: AccountId,
    to: AccountId,
    dna: H256,
)
    ensures
        (s.transfer_outcome(RawOrigin::Signed(from), to, dna) is Ok) <==> (s.kitties.dom().contains(dna)
            && s.kitties[dna].owner == from && from != to),
        s.transfer_outcome(RawOrigin::Signed(from), to, dna) is Ok ==> {
            let p = s.after_transfer(RawOrigin::Signed(from), to, dna);
            &&& p.kitties.dom().contains(dna)
            &&& p.kitties[dna].owner == to
            &&& p.kitties[dna].name == s.kitties[dna].name
            &&& p.kitties[dna].dna == s.kitties[dna].dna
            &&& p.kitties[dna].price == s.kitties[dna].price
            &&& p.kitties[dna].gender == s.kitties[dna].gender
            &&& p.kitties[dna].created_date == s.kitties[dna].created_date
            &&& p.owned[to].last() == dna
            &&& p.owned[to].len() == s.owned[to].len() + 1
            &&& p.kitty_id == s.kitty_id
            &&& p.kitty_limit == s.kitty_limit
        },
{
}

/// A kitty's gender goes by the parity of its name's length: male for even, female for odd;
/// so one byte more or less always switches it.
pub proof fn lemma_gender_by_parity(name: Seq<u8>, x: u8)
    ensures
        (gender_of(name) == Gender::Male) <==> (name.len() % 2 == 0),
        (gender_of(name) == Gender::Female) <==> (name.len() % 2 == 1),
        gender_of(name.push(x)) != gender_of(name),
{
}

/// A creation that succeeds stores under the random dna a kitty with exactly the name given
/// (all of it), owned by the signer, free, created at `now`, male exactly for a name of even
/// length; and it announces the same name.
pub proof fn lemma_created_kitty_fields(
    s: PalletState,
    who: AccountId,
    name: Seq<u8>,
    dna: H256,
    now: Moment,
)
    requires
        s.create_outcome(RawOrigin::Signed(who), dna) is Ok,
    ensures
        ({
            let p = s.after_create(RawOrigin::Signed(who), name, dna, now);
            let k = p.kitties[dna];
            &&& p.kitties.dom().contains(dna)
            &&& k.name == name
            &&& k.name.len() == name.len()
            &&& k.dna == dna
            &&& k.owner == who
            &&& k.price == 0
            &&& k.created_date == now
            &&& (k.gender == Gender::Male <==> name.len() % 2 == 0)
            &&& p.events.last() == EventView::KittyCreated { kitty: name, dna, owner: who }
        }),
{
}

/// A creation fails exactly as its checks say: an unsigned call with `BadOrigin`, a taken dna
/// with `KittyDnaAlreadyExist`, an owner already at the limit with `KittyOwnedTooLarge`; and
/// any other signed call succeeds.
pub proof fn lemma_create_refusals(s: PalletState, origin: RawOrigin, dna: H256)
    ensures
        (s.create_outcome(origin, dna) == Err::<(), DispatchError>(DispatchError::BadOrigin)) <==> !(
        origin is Signed),
        origin is Signed ==> {
            let who = origin->Signed_0;
            &&& (s.create_outcome(origin, dna) is Ok) <==> (!s.kitties.dom().contains(dna)
                && s.owned[who].len() < s.kitty_limit)
            &&& s.kitties.dom().contains(dna) ==> s.create_outcome(origin, dna) == Err::<
                (),
                DispatchError,
            >(DispatchError::Module(Error::KittyDnaAlreadyExist))
        },
{
}

/// Storing a random draw keeps exactly the value and block just drawn, whatever was stored
/// before, and nothing else changes: of two draws in a row, the later one is what stays.
pub proof fn lemma_random_number_keeps_last_draw(
    s: PalletState,
    r1: (H256, BlockNumber),
    r2: (H256, BlockNumber),
)
    ensures
        s.after_random_number(r1).random_number == (RandomInfo { hash: r1.0, block_number: r1.1 }),
        s.after_random_number(r1).after_random_number(r2) == s.after_random_number(r2),
        s.after_random_number(r1).kitties == s.kitties,
        s.after_random_number(r1).owned == s.owned,
        s.after_random_number(r1).kitty_id == s.kitty_id,
        s.after_random_number(r1).nonce == s.nonce,
        s.after_random_number(r1).events == s.events,
{
}

/// The number that a string of ASCII digits reads as in base ten.
pub open spec fn decimal_value(digits: Seq<u8>) -> nat
    decreases digits.len(),
{
    if digits.len() == 0 {
        0
    } else {
        decimal_value(digits.drop_last()) * 10 + (digits.last() as int - 48) as nat
    }
}

/// The decimal numeral of `n` is made of ASCII digits, starts with no zero unless `n` is zero,
/// and reads back as `n`.
pub proof fn lemma_decimal_reads_back(n: nat)
    ensures
        decimal(n).len() >= 1,
        forall|i: int| 0 <= i < decimal(n).len() ==> 48 <= #[trigger] decimal(n)[i] <= 57,
        decimal(n)[0] == 48 ==> n == 0,
        decimal_value(decimal(n)) == n,
    decreases n,
{
    if n < 10 {
        let d = decimal(n);
        assert(d.drop_last() =~= Seq::<u8>::empty());
        assert(decimal_value(d.drop_last()) == 0);
        assert(d.last() as int - 48 == n);
    } else {
        lemma_decimal_reads_back(n / 10);
        let d = decimal(n);
        let p = decimal(n / 10);
        assert(d.drop_last() =~= p);
        vstd::arithmetic::div_mod::lemma_fundamental_div_mod(n as int, 10);
        assert(d[0] == p[0]);
        assert(d.last() as int - 48 == n % 10);
        assert(decimal_value(d) == decimal_value(p) * 10 + n % 10);
    }
}

/// Different numbers have different decimal numerals.
pub proof fn lemma_decimal_injective(a: nat, b: nat)
    requires
        a != b,
    ensures
        decimal(a) != decimal(b),
{
    lemma_decimal_reads_back(a);
    lemma_decimal_reads_back(b);
}

/// A genesis kitty's name is "alice_kitty_" followed by the decimal numeral of the count of
/// kitties before it: ASCII digits with no leading zero that read back as that count.
pub proof fn lemma_genesis_name_reads_back(id: u32)
    ensures
        genesis_name(id).len() > 12,
        genesis_name(id).subrange(0, 12) == seq![97u8, 108, 105, 99, 101, 95, 107, 105, 116, 116, 121, 95],
        forall|i: int| 12 <= i < genesis_name(id).len() ==> 48 <= #[trigger] genesis_name(id)[i] <= 57,
        genesis_name(id)[12] == 48 ==> id == 0,
        decimal_value(genesis_name(id).skip(12)) == id,
{
    lemma_decimal_reads_back(id as nat);
    let g = genesis_name(id);
    assert(g.subrange(0, 12) =~= seq![97u8, 108, 105, 99, 101, 95, 107, 105, 116, 116, 121, 95]);
    assert(g.skip(12) =~= decimal(id as nat));
    assert forall|i: int| 12 <= i < g.len() implies 48 <= #[trigger] g[i] <= 57 by {
        assert(g[i] == decimal(id as nat)[i - 12]);
    }
}

/// Genesis kitties made at different counts get different names.
pub proof fn lemma_genesis_names_distinct(i: u32, j: u32)
    requires
        i != j,
    ensures
        genesis_name(i) != genesis_name(j),
{
    lemma_genesis_name_reads_back(i);
    lemma_genesis_name_reads_back(j);
    if genesis_name(i) == genesis_name(j) {
        assert(genesis_name(i).skip(12) == genesis_name(j).skip(12));
    }
}

} // verus!
