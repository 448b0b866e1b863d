//! An in-memory ledger of typed holding accounts and escrow records.
//!
//! A holding account stores a balance of one asset type for one owner and is
//! identified by that pair. The custody account of an escrow is the holding
//! account that the record's address owns.

use crate::address::Address;
use crate::record::Escrow;
use crate::record::EscrowError;
use vstd::prelude::*;

verus! {

/// A holding account.
#[derive(Clone, Copy, Debug, PartialEq, Eq)]
pub struct Holding {
    pub owner: Address,
    pub mint: Address,
    pub amount: u64,
}

/// An escrow record with the address at which it stands.
#[derive(Clone, Copy, Debug, PartialEq, Eq)]
pub struct Record {
    pub address: Address,
    pub escrow: Escrow,
}

/// The reclaimable reserve of a closed account, credited to `destination`.
#[derive(Clone, Copy, Debug, PartialEq, Eq)]
pub enum Reclaim {
    /// The reserve of the holding account that `owner` had for `mint`.
    Holding { owner: Address, mint: Address, destination: Address },
    /// The reserve of the escrow record that stood at `address`.
    Record { address: Address, destination: Address },
}

/// The state of the ledger.
#[derive(Clone, Debug, PartialEq, Eq)]
pub struct Ledger {
    /// The id of the escrow program, under which record addresses are derived.
    pub program_id: Address,
    pub holdings: Vec<Holding>,
    pub records: Vec<Record>,
    /// The reserves of the accounts that were closed, oldest first, each with
    /// the party that it was credited to.
    pub reclaims: Vec<Reclaim>,
}

/// `amount` where `(o, m)` is the account of `owner` for `mint`, else zero.
pub open spec fn at(o: Seq<u8>, m: Seq<u8>, owner: Seq<u8>, mint: Seq<u8>, amount: int) -> int {
    if o == owner && m == mint {
        amount
    } else {
        0
    }
}

/// Whether the holding account at index `i` is that of `owner` for `mint`.
pub open spec fn holding_at(s: Seq<Holding>, i: int, owner: Seq<u8>, mint: Seq<u8>) -> bool {
    0 <= i < s.len() && s[i].owner@ == owner && s[i].mint@ == mint
}

/// Whether the record at index `i` stands at `address`.
pub open spec fn record_at_index(s: Seq<Record>, i: int, address: Seq<u8>) -> bool {
    0 <= i < s.len() && s[i].address@ == address
}

/// No two holding accounts have the same owner and asset type.
pub open spec fn distinct_holdings(s: Seq<Holding>) -> bool {
    forall|i: int, j: int|
        0 <= i < j < s.len() ==> !(#[trigger] s[i].owner@ == #[trigger] s[j].owner@ && s[i].mint@
            == s[j].mint@)
}

/// No two records stand at the same address.
pub open spec fn distinct_records(s: Seq<Record>) -> bool {
    forall|i: int, j: int|
        0 <= i < j < s.len() ==> (#[trigger] s[i]).address@ != (#[trigger] s[j]).address@
}

/// Whether the list has the holding account of `owner` for `mint`.
pub open spec fn holds_in(s: Seq<Holding>, owner: Seq<u8>, mint: Seq<u8>) -> bool {
    exists|i: int| holding_at(s, i, owner, mint)
}

/// The balance that the list gives `owner` in `mint`: zero where it has no such
/// account.
pub open spec fn balance_in(s: Seq<Holding>, owner: Seq<u8>, mint: Seq<u8>) -> int {
    if holds_in(s, owner, mint) {
        s[choose|i: int| holding_at(s, i, owner, mint)].amount as int
    } else {
        0
    }
}

/// The record that the list has at `address`, if any.
pub open spec fn record_in(s: Seq<Record>, address: Seq<u8>) -> Option<Escrow> {
    if exists|i: int| record_at_index(s, i, address) {
        Some(s[choose|i: int| record_at_index(s, i, address)].escrow)
    } else {
        None
    }
}

/// Among distinct accounts, the one found at an index is the account of its
/// owner and asset type.
pub proof fn lemma_holding(s: Seq<Holding>, i: int, owner: Seq<u8>, mint: Seq<u8>)
    requires
        distinct_holdings(s),
        holding_at(s, i, owner, mint),
    ensures
        holds_in(s, owner, mint),
        balance_in(s, owner, mint) == s[i].amount,
        forall|j: int| holding_at(s, j, owner, mint) ==> j == i,
{
    assert forall|j: int| holding_at(s, j, owner, mint) implies j == i by {
        if i < j {
            assert(s[i].owner@ == s[j].owner@);
        } else if j < i {
            assert(s[j].owner@ == s[i].owner@);
        }
    }
}

/// Among distinct records, the one found at an index is the record at its
/// address.
pub proof fn lemma_record(s: Seq<Record>, i: int, address: Seq<u8>)
    requires
        distinct_records(s),
        record_at_index(s, i, address),
    ensures
        record_in(s, address) == Some(s[i].escrow),
        forall|j: int| record_at_index(s, j, address) ==> j == i,
{
    assert forall|j: int| record_at_index(s, j, address) implies j == i by {
        if i < j {
            assert(s[i].address@ == s[j].address@);
        } else if j < i {
            assert(s[j].address@ == s[i].address@);
        }
    }
}

/// Adding an account that the list lacks adds its balance and changes no other.
pub proof fn lemma_push(s: Seq<Holding>, h: Holding)
    requires
        distinct_holdings(s),
        !holds_in(s, h.owner@, h.mint@),
    ensures
        distinct_holdings(s.push(h)),
        forall|o: Seq<u8>, m: Seq<u8>| #[trigger]
            holds_in(s.push(h), o, m) == (holds_in(s, o, m) || (o == h.owner@ && m == h.mint@)),
        forall|o: Seq<u8>, m: Seq<u8>| #[trigger]
            balance_in(s.push(h), o, m) == balance_in(s, o, m) + at(
                o,
                m,
                h.owner@,
                h.mint@,
                h.amount as int,
            ),
{
    let t = s.push(h);
    let n = s.len() as int;
    assert forall|i: int, j: int| 0 <= i < j < t.len() implies !(t[i].owner@ == t[j].owner@
        && t[i].mint@ == t[j].mint@) by {
        if j == n {
            assert(!holding_at(s, i, h.owner@, h.mint@));
        } else {
            assert(t[i] == s[i] && t[j] == s[j]);
        }
    }
    assert forall|o: Seq<u8>, m: Seq<u8>|
        holds_in(t, o, m) == (holds_in(s, o, m) || (o == h.owner@ && m == h.mint@))
            && balance_in(t, o, m) == balance_in(s, o, m) + at(
            o,
            m,
            h.owner@,
            h.mint@,
            h.amount as int,
        ) by {
        if holds_in(s, o, m) {
            let i = choose|i: int| holding_at(s, i, o, m);
            assert(holding_at(t, i, o, m));
            lemma_holding(t, i, o, m);
            lemma_holding(s, i, o, m);
        } else if o == h.owner@ && m == h.mint@ {
            assert(holding_at(t, n, o, m));
            lemma_holding(t, n, o, m);
        } else {
            assert forall|i: int| !holding_at(t, i, o, m) by {
                if 0 <= i < n {
                    assert(!holding_at(s, i, o, m));
                }
            }
        }
    }
}

/// The list with the amount of the account at index `i` replaced.
pub open spec fn with_amount(s: Seq<Holding>, i: int, amount: u64) -> Seq<Holding> {
    s.update(i, (Holding { owner: s[i].owner, mint: s[i].mint, amount }))
}

/// Replacing the amount of one account changes that balance and no other.
pub proof fn lemma_update(s: Seq<Holding>, i: int, amount: u64)
    requires
        distinct_holdings(s),
        0 <= i < s.len(),
    ensures
        distinct_holdings(with_amount(s, i, amount)),
        forall|o: Seq<u8>, m: Seq<u8>| #[trigger]
            holds_in(with_amount(s, i, amount), o, m) == holds_in(s, o, m),
        forall|o: Seq<u8>, m: Seq<u8>| #[trigger]
            balance_in(with_amount(s, i, amount), o, m) == if holding_at(s, i, o, m) {
                amount as int
            } else {
                balance_in(s, o, m)
            },
{
    let t = with_amount(s, i, amount);
    assert forall|j: int, o: Seq<u8>, m: Seq<u8>| #[trigger]
        holding_at(t, j, o, m) == holding_at(s, j, o, m) by {}
    assert forall|a: int, b: int| 0 <= a < b < t.len() implies !(t[a].owner@ == t[b].owner@
        && t[a].mint@ == t[b].mint@) by {
        assert(s[a].owner@ == t[a].owner@ && s[b].owner@ == t[b].owner@);
    }
    assert forall|o: Seq<u8>, m: Seq<u8>|
        holds_in(t, o, m) == holds_in(s, o, m) && balance_in(t, o, m) == if holding_at(
            s,
            i,
            o,
            m,
        ) {
            amount as int
        } else {
            balance_in(s, o, m)
        } by {
        if holds_in(s, o, m) {
            let j = choose|j: int| holding_at(s, j, o, m);
            assert(holding_at(t, j, o, m));
            lemma_holding(t, j, o, m);
            lemma_holding(s, j, o, m);
        } else {
            assert forall|j: int| !holding_at(t, j, o, m) by {
                assert(!holding_at(s, j, o, m));
            }
        }
    }
}

/// Removing one account removes that account and changes no other.
pub proof fn lemma_remove(s: Seq<Holding>, i: int)
    requires
        distinct_holdings(s),
        0 <= i < s.len(),
    ensures
        distinct_holdings(s.remove(i)),
        forall|o: Seq<u8>, m: Seq<u8>| #[trigger]
            holds_in(s.remove(i), o, m) == (holds_in(s, o, m) && !holding_at(s, i, o, m)),
        forall|o: Seq<u8>, m: Seq<u8>| #[trigger]
            balance_in(s.remove(i), o, m) == if holding_at(s, i, o, m) {
                0
            } else {
                balance_in(s, o, m)
            },
{
    let t = s.remove(i);
    assert forall|a: int, b: int| 0 <= a < b < t.len() implies !(t[a].owner@ == t[b].owner@
        && t[a].mint@ == t[b].mint@) by {
        let a0 = if a < i { a } else { a + 1 };
        let b0 = if b < i { b } else { b + 1 };
        assert(t[a] == s[a0] && t[b] == s[b0]);
        assert(s[a0].owner@ == t[a].owner@ && s[b0].owner@ == t[b].owner@);
    }
    assert forall|o: Seq<u8>, m: Seq<u8>|
        holds_in(t, o, m) == (holds_in(s, o, m) && !holding_at(s, i, o, m)) && balance_in(t, o, m)
            == if holding_at(s, i, o, m) {
            0
        } else {
            balance_in(s, o, m)
        } by {
        assert forall|k: int| holding_at(t, k, o, m) implies holding_at(
            s,
            if k < i { k } else { k + 1 },
            o,
            m,
        ) by {
            assert(t[k] == s[if k < i { k } else { k + 1 }]);
        }
        if holds_in(s, o, m) {
            let j = choose|j: int| holding_at(s, j, o, m);
            lemma_holding(s, j, o, m);
            if j == i {
                assert forall|k: int| !holding_at(t, k, o, m) by {
                    if holding_at(t, k, o, m) {
                        assert(holding_at(s, if k < i { k } else { k + 1 }, o, m));
                    }
                }
            } else {
                let k = if j < i { j } else { j - 1 };
                assert(t[k] == s[j]);
                assert(holding_at(t, k, o, m));
                lemma_holding(t, k, o, m);
            }
        } else {
            assert forall|k: int| !holding_at(t, k, o, m) by {
                if holding_at(t, k, o, m) {
                    assert(holding_at(s, if k < i { k } else { k + 1 }, o, m));
                }
            }
        }
    }
}

/// Adding a record at an address that has none adds it and changes no other.
pub proof fn lemma_record_push(s: Seq<Record>, r: Record)
    requires
        distinct_records(s),
        record_in(s, r.address@) is None,
    ensures
        distinct_records(s.push(r)),
        forall|a: Seq<u8>| #[trigger]
            record_in(s.push(r), a) == if a == r.address@ {
                Some(r.escrow)
            } else {
                record_in(s, a)
            },
{
    let t = s.push(r);
    let n = s.len() as int;
    assert forall|i: int, j: int| 0 <= i < j < t.len() implies t[i].address@ != t[j].address@ by {
        if j == n {
            assert(!record_at_index(s, i, r.address@));
        } else {
            assert(t[i] == s[i] && t[j] == s[j]);
        }
    }
    assert forall|a: Seq<u8>|
        record_in(t, a) == if a == r.address@ {
            Some(r.escrow)
        } else {
            record_in(s, a)
        } by {
        if a == r.address@ {
            assert(record_at_index(t, n, a));
            lemma_record(t, n, a);
        } else if exists|i: int| record_at_index(s, i, a) {
            let i = choose|i: int| record_at_index(s, i, a);
            assert(record_at_index(t, i, a));
            lemma_record(t, i, a);
            lemma_record(s, i, a);
        } else {
            assert forall|i: int| !record_at_index(t, i, a) by {
                if 0 <= i < n {
                    assert(!record_at_index(s, i, a));
                }
            }
        }
    }
}

/// Removing one record removes that record and changes no other.
pub proof fn lemma_record_remove(s: Seq<Record>, i: int)
    requires
        distinct_records(s),
        0 <= i < s.len(),
    ensures
        distinct_records(s.remove(i)),
        forall|a: Seq<u8>| #[trigger]
            record_in(s.remove(i), a) == if a == s[i].address@ {
                None
            } else {
                record_in(s, a)
            },
{
    let t = s.remove(i);
    assert forall|a: int, b: int| 0 <= a < b < t.len() implies t[a].address@ != t[b].address@ by {
        let a0 = if a < i { a } else { a + 1 };
        let b0 = if b < i { b } else { b + 1 };
        assert(t[a] == s[a0] && t[b] == s[b0]);
    }
    assert forall|a: Seq<u8>|
        record_in(t, a) == if a == s[i].address@ {
            None
        } else {
            record_in(s, a)
        } by {
        assert forall|k: int| record_at_index(t, k, a) implies record_at_index(
            s,
            if k < i { k } else { k + 1 },
            a,
        ) by {
            assert(t[k] == s[if k < i { k } else { k + 1 }]);
        }
        if exists|j: int| record_at_index(s, j, a) {
            let j = choose|j: int| record_at_index(s, j, a);
            lemma_record(s, j, a);
            if j == i {
                assert forall|k: int| !record_at_index(t, k, a) by {
                    if record_at_index(t, k, a) {
                        assert(record_at_index(s, if k < i { k } else { k + 1 }, a));
                    }
                }
            } else {
                let k = if j < i { j } else { j - 1 };
                assert(t[k] == s[j]);
                assert(record_at_index(t, k, a));
                lemma_record(t, k, a);
            }
        } else {
            assert forall|k: int| !record_at_index(t, k, a) by {
                if record_at_index(t, k, a) {
                    assert(record_at_index(s, if k < i { k } else { k + 1 }, a));
                }
            }
        }
    }
}

impl Ledger {
    /// The ledger's invariant: accounts and records are each listed once.
    pub open spec fn wf(&self) -> bool {
        &&& distinct_holdings(self.holdings@)
        &&& distinct_records(self.records@)
    }

    /// Whether `owner` has a holding account for `mint`.
    pub open spec fn holds(&self, owner: Seq<u8>, mint: Seq<u8>) -> bool {
        holds_in(self.holdings@, owner, mint)
    }

    /// The balance of `owner` in `mint`: zero where no holding account exists.
    pub open spec fn balance(&self, owner: Seq<u8>, mint: Seq<u8>) -> int {
        balance_in(self.holdings@, owner, mint)
    }

    /// The record that stands at `address`, if any.
    pub open spec fn record_at(&self, address: Seq<u8>) -> Option<Escrow> {
        record_in(self.records@, address)
    }

    /// An empty ledger for the program with the given id.
    pub fn new(program_id: Address) -> (r: Ledger)
        ensures
            r.wf(),
            r.program_id == program_id,
            r.reclaims@ == Seq::<Reclaim>::empty(),
            forall|o: Seq<u8>, m: Seq<u8>| !(#[trigger] r.holds(o, m)),
            forall|o: Seq<u8>, m: Seq<u8>| #[trigger] r.balance(o, m) == 0,
            forall|a: Seq<u8>| (#[trigger] r.record_at(a)) is None,
    {
        Ledger { program_id, holdings: Vec::new(), records: Vec::new(), reclaims: Vec::new() }
    }

    fn position(&self, owner: &Address, mint: &Address) -> (r: Option<usize>)
        ensures
            match r {
                Some(i) => holding_at(self.holdings@, i as int, owner@, mint@),
                None => !self.holds(owner@, mint@),
            },
    {
        let mut i: usize = 0;
        while i < self.holdings.len()
            invariant
                i <= self.holdings@.len(),
                forall|j: int| 0 <= j < i ==> !holding_at(self.holdings@, j, owner@, mint@),
            decreases self.holdings@.len() - i,
        {
            if self.holdings[i].owner.same(owner) && self.holdings[i].mint.same(mint) {
                return Some(i);
            }
            i += 1;
        }
        None
    }

    fn record_position(&self, address: &Address) -> (r: Option<usize>)
        ensures
            match r {
                Some(i) => record_at_index(self.records@, i as int, address@),
                None => forall|j: int| !record_at_index(self.records@, j, address@),
            },
    {
        let mut i: usize = 0;
        while i < self.records.len()
            invariant
                i <= self.records@.len(),
                forall|j: int| 0 <= j < i ==> !record_at_index(self.records@, j, address@),
            decreases self.records@.len() - i,
        {
            if self.records[i].address.same(address) {
                return Some(i);
            }
            i += 1;
        }
        None
    }

    /// Whether `owner` has a holding account for `mint`.
    pub fn has_holding(&self, owner: &Address, mint: &Address) -> (r: bool)
        ensures
            r == self.holds(owner@, mint@),
    {
        self.position(owner, mint).is_some()
    }

    /// The balance of `owner` in `mint`: zero where no holding account exists.
    pub fn balance_of(&self, owner: &Address, mint: &Address) -> (r: u64)
        requires
            self.wf(),
        ensures
            r == self.balance(owner@, mint@),
    {
        match self.position(owner, mint) {
            Some(i) => {
                proof {
                    lemma_holding(self.holdings@, i as int, owner@, mint@);
                }
                self.holdings[i].amount
            },
            None => 0,
        }
    }

    /// The record that stands at `address`, if any.
    pub fn record_of(&self, address: &Address) -> (r: Option<Escrow>)
        requires
            self.wf(),
        ensures
            r == self.record_at(address@),
    {
        match self.record_position(address) {
            Some(i) => {
                proof {
                    lemma_record(self.records@, i as int, address@);
                }
                Some(self.records[i].escrow)
            },
            None => None,
        }
    }
    /// Creates the holding account of `owner` for `mint`, empty, unless it
    /// exists already.
    pub fn ensure_holding_account(&mut self, owner: &Address, mint: &Address)
        requires
            old(self).wf(),
        ensures
            final(self).wf(),
            final(self).program_id == old(self).program_id,
            final(self).records == old(self).records,
            final(self).reclaims == old(self).reclaims,
            forall|o: Seq<u8>, m: Seq<u8>| #[trigger]
                final(self).holds(o, m) == (old(self).holds(o, m) || (o == owner@ && m == mint@)),
            forall|o: Seq<u8>, m: Seq<u8>| #[trigger]
                final(self).balance(o, m) == old(self).balance(o, m),
    {
        if self.position(owner, mint).is_none() {
            let h = Holding { owner: *owner, mint: *mint, amount: 0 };
            proof {
                lemma_push(self.holdings@, h);
            }
            self.holdings.push(h);
        }
    }

    fn debit(&mut self, owner: &Address, mint: &Address, amount: u64)
        requires
            old(self).wf(),
            old(self).holds(owner@, mint@),
            old(self).balance(owner@, mint@) >= amount,
        ensures
            final(self).wf(),
            final(self).program_id == old(self).program_id,
            final(self).records == old(self).records,
            final(self).reclaims == old(self).reclaims,
            forall|o: Seq<u8>, m: Seq<u8>| #[trigger] final(self).holds(o, m) == old(self).holds(o, m),
            forall|o: Seq<u8>, m: Seq<u8>| #[trigger]
                final(self).balance(o, m) == old(self).balance(o, m) - at(
                    o,
                    m,
                    owner@,
                    mint@,
                    amount as int,
                ),
    {
        match self.position(owner, mint) {
            Some(i) => {
                let h = self.holdings[i];
                proof {
                    lemma_holding(self.holdings@, i as int, owner@, mint@);
                    lemma_update(self.holdings@, i as int, (h.amount - amount) as u64);
                }
                self.holdings.set(i, Holding { owner: h.owner, mint: h.mint, amount: h.amount - amount });
            },
            None => {},
        }
    }

    fn credit(&mut self, owner: &Address, mint: &Address, amount: u64)
        requires
            old(self).wf(),
            old(self).holds(owner@, mint@),
            old(self).balance(owner@, mint@) + amount <= u64::MAX,
        ensures
            final(self).wf(),
            final(self).program_id == old(self).program_id,
            final(self).records == old(self).records,
            final(self).reclaims == old(self).reclaims,
            forall|o: Seq<u8>, m: Seq<u8>| #[trigger] final(self).holds(o, m) == old(self).holds(o, m),
            forall|o: Seq<u8>, m: Seq<u8>| #[trigger]
                final(self).balance(o, m) == old(self).balance(o, m) + at(
                    o,
                    m,
                    owner@,
                    mint@,
                    amount as int,
                ),
    {
        match self.position(owner, mint) {
            Some(i) => {
                let h = self.holdings[i];
                proof {
                    lemma_holding(self.holdings@, i as int, owner@, mint@);
                    lemma_update(self.holdings@, i as int, (h.amount + amount) as u64);
                }
                self.holdings.set(i, Holding { owner: h.owner, mint: h.mint, amount: h.amount + amount });
            },
            None => {},
        }
    }

    /// Issues `amount` of `mint` to `owner`, whose holding account is created
    /// if needed. Returns `false`, and changes nothing, where the balance
    /// would pass the largest quantity that an account can hold.
    pub fn deposit(&mut self, owner: &Address, mint: &Address, amount: u64) -> (r: bool)
        requires
            old(self).wf(),
        ensures
            final(self).wf(),
            final(self).program_id == old(self).program_id,
            final(self).records == old(self).records,
            final(self).reclaims == old(self).reclaims,
            r == (old(self).balance(owner@, mint@) + amount <= u64::MAX),
            !r ==> *final(self) == *old(self),
            r ==> forall|o: Seq<u8>, m: Seq<u8>| #[trigger]
                final(self).holds(o, m) == (old(self).holds(o, m) || (o == owner@ && m == mint@)),
            r ==> forall|o: Seq<u8>, m: Seq<u8>| #[trigger]
                final(self).balance(o, m) == old(self).balance(o, m) + at(
                    o,
                    m,
                    owner@,
                    mint@,
                    amount as int,
                ),
    {
        if self.balance_of(owner, mint) > u64::MAX - amount {
            return false;
        }
        self.ensure_holding_account(owner, mint);
        self.credit(owner, mint, amount);
        true
    }

    /// Moves `amount` of `mint` from the account of `from` to that of `to`,
    /// which is created if it does not exist. Fails, and changes nothing, where
    /// `from` has no account for `mint` or holds less than `amount`.
    pub fn transfer(&mut self, from: &Address, to: &Address, mint: &Address, amount: u64) -> (r:
        Result<(), EscrowError>)
        requires
            old(self).wf(),
            old(self).holds(from@, mint@) && old(self).balance(from@, mint@) >= amount ==> from@
                == to@ || old(self).balance(to@, mint@) + amount <= u64::MAX,
        ensures
            final(self).wf(),
            final(self).program_id == old(self).program_id,
            final(self).records == old(self).records,
            final(self).reclaims == old(self).reclaims,
            r == if old(self).holds(from@, mint@) && old(self).balance(from@, mint@) >= amount {
                Ok::<(), EscrowError>(())
            } else {
                Err::<(), EscrowError>(EscrowError::InsufficientBalance)
            },
            r is Err ==> *final(self) == *old(self),
            r is Ok ==> forall|o: Seq<u8>, m: Seq<u8>| #[trigger]
                final(self).holds(o, m) == (old(self).holds(o, m) || (o == to@ && m == mint@)),
            r is Ok ==> forall|o: Seq<u8>, m: Seq<u8>| #[trigger]
                final(self).balance(o, m) == old(self).balance(o, m) - at(
                    o,
                    m,
                    from@,
                    mint@,
                    amount as int,
                ) + at(o, m, to@, mint@, amount as int),
    {
        if !self.has_holding(from, mint) || self.balance_of(from, mint) < amount {
            return Err(EscrowError::InsufficientBalance);
        }
        self.ensure_holding_account(to, mint);
        self.debit(from, mint, amount);
        self.credit(to, mint, amount);
        Ok(())
    }

    /// Closes the holding account of `owner` for `mint`, if there is one, and
    /// credits its reserve to `destination`. Only an empty account is closed:
    /// the requests drain an account before they close it.
    pub fn close_account(&mut self, owner: &Address, mint: &Address, destination: &Address)
        requires
            old(self).wf(),
            old(self).balance(owner@, mint@) == 0,
        ensures
            final(self).wf(),
            final(self).program_id == old(self).program_id,
            final(self).records == old(self).records,
            final(self).reclaims@ == if old(self).holds(owner@, mint@) {
                old(self).reclaims@.push(
                    (Reclaim::Holding { owner: *owner, mint: *mint, destination: *destination }),
                )
            } else {
                old(self).reclaims@
            },
            forall|o: Seq<u8>, m: Seq<u8>| #[trigger]
                final(self).holds(o, m) == (old(self).holds(o, m) && !(o == owner@ && m == mint@)),
            forall|o: Seq<u8>, m: Seq<u8>| #[trigger]
                final(self).balance(o, m) == old(self).balance(o, m),
    {
        match self.position(owner, mint) {
            Some(i) => {
                proof {
                    lemma_remove(self.holdings@, i as int);
                }
                self.holdings.remove(i);
                self.reclaims.push(
                    Reclaim::Holding { owner: *owner, mint: *mint, destination: *destination },
                );
            },
            None => {},
        }
    }

    /// Puts a record at an address that has none.
    pub fn open_record(&mut self, address: &Address, escrow: Escrow)
        requires
            old(self).wf(),
            old(self).record_at(address@) is None,
        ensures
            final(self).wf(),
            final(self).program_id == old(self).program_id,
            final(self).holdings == old(self).holdings,
            final(self).reclaims == old(self).reclaims,
            forall|a: Seq<u8>| #[trigger]
                final(self).record_at(a) == if a == address@ {
                    Some(escrow)
                } else {
                    old(self).record_at(a)
                },
    {
        let r = Record { address: *address, escrow };
        proof {
            lemma_record_push(self.records@, r);
        }
        self.records.push(r);
    }

    /// Closes the record at `address`, if there is one, and credits its
    /// reserve to `destination`.
    pub fn close_record(&mut self, address: &Address, destination: &Address)
        requires
            old(self).wf(),
        ensures
            final(self).wf(),
            final(self).program_id == old(self).program_id,
            final(self).holdings == old(self).holdings,
            final(self).reclaims@ == if old(self).record_at(address@) is Some {
                old(self).reclaims@.push(
                    (Reclaim::Record { address: *address, destination: *destination }),
                )
            } else {
                old(self).reclaims@
            },
            forall|a: Seq<u8>| #[trigger]
                final(self).record_at(a) == if a == address@ {
                    None
                } else {
                    old(self).record_at(a)
                },
    {
        match self.record_position(address) {
            Some(i) => {
                proof {
                    lemma_record(self.records@, i as int, address@);
                    lemma_record_remove(self.records@, i as int);
                }
                self.records.remove(i);
                self.reclaims.push(Reclaim::Record { address: *address, destination: *destination });
            },
            None => {},
        }
    }
}

} // verus!
