use vstd::prelude::*;

use crate::error::{GenericError, OverflowOperation};

verus! {

/// What the arithmetic sees of one holding: its key (a denomination or an
/// issuer address) and its amount.
pub type Entry = (Seq<char>, u128);

/// A holding that the collection arithmetic can find, read and rewrite.
pub trait LedgerEntry: Sized {
    /// The key and amount of this holding.
    spec fn entry(&self) -> Entry;

    /// Whether `other` has the same key.
    fn same_key(&self, other: &Self) -> (r: bool)
        ensures
            r == (self.entry().0 == other.entry().0),
    ;

    /// The amount held.
    fn get_amount(&self) -> (r: u128)
        ensures
            r == self.entry().1,
    ;

    /// Replaces the amount, keeping the key.
    fn set_amount(&mut self, amount: u128)
        ensures
            final(self).entry() == (old(self).entry().0, amount),
    ;

    /// A holding of the same key and amount.
    fn duplicate(&self) -> (r: Self)
        ensures
            r.entry() == self.entry(),
    ;
}

/// A native coin: a denomination and an amount.
#[derive(Clone, Debug, PartialEq, Eq)]
pub struct Coin {
    pub denom: String,
    pub amount: u128,
}

/// An amount of a contract-issued token, keyed by the issuer's address.
#[derive(Clone, Debug, PartialEq, Eq)]
pub struct Cw20CoinVerified {
    pub address: String,
    pub amount: u128,
}

impl LedgerEntry for Coin {
    open spec fn entry(&self) -> Entry {
        (self.denom@, self.amount)
    }

    fn same_key(&self, other: &Self) -> (r: bool) {
        self.denom == other.denom
    }

    fn get_amount(&self) -> (r: u128) {
        self.amount
    }

    fn set_amount(&mut self, amount: u128) {
        self.amount = amount;
    }

    fn duplicate(&self) -> (r: Self) {
        Coin { denom: self.denom.clone(), amount: self.amount }
    }
}

impl LedgerEntry for Cw20CoinVerified {
    open spec fn entry(&self) -> Entry {
        (self.address@, self.amount)
    }

    fn same_key(&self, other: &Self) -> (r: bool) {
        self.address == other.address
    }

    fn get_amount(&self) -> (r: u128) {
        self.amount
    }

    fn set_amount(&mut self, amount: u128) {
        self.amount = amount;
    }

    fn duplicate(&self) -> (r: Self) {
        Cw20CoinVerified { address: self.address.clone(), amount: self.amount }
    }
}

/// The entries of a sequence of holdings, in order.
pub open spec fn ledger<T: LedgerEntry>(s: Seq<T>) -> Seq<Entry> {
    s.map_values(|e: T| e.entry())
}

/// `i` is the first position of `s` whose key is `k`.
pub open spec fn is_first(s: Seq<Entry>, k: Seq<char>, i: int) -> bool {
    &&& 0 <= i < s.len()
    &&& s[i].0 == k
    &&& forall|j: int| 0 <= j < i ==> #[trigger] s[j].0 != k
}

/// The first position of `s` whose key is `k`, or -1 where there is none.
pub open spec fn index_of(s: Seq<Entry>, k: Seq<char>) -> int {
    if exists|i: int| is_first(s, k, i) {
        choose|i: int| is_first(s, k, i)
    } else {
        -1
    }
}

/// No two entries of `s` share a key.
pub open spec fn unique_keys(s: Seq<Entry>) -> bool {
    forall|i: int, j: int| 0 <= i < s.len() && 0 <= j < s.len() && i != j ==> s[i].0 != s[j].0
}

/// Every entry of `s` holds a positive amount.
pub open spec fn all_positive(s: Seq<Entry>) -> bool {
    forall|i: int| 0 <= i < s.len() ==> #[trigger] s[i].1 > 0
}

/// `k` is the key of some entry of `s`.
pub open spec fn has_key(s: Seq<Entry>, k: Seq<char>) -> bool {
    exists|i: int| 0 <= i < s.len() && #[trigger] s[i].0 == k
}

/// Adding `d` to `s`: the entry of the same key grows by the delta's amount,
/// failing where the sum passes `u128::MAX`; a new key is appended.
pub open spec fn add_step(s: Seq<Entry>, d: Entry) -> Result<Seq<Entry>, GenericError> {
    let i = index_of(s, d.0);
    if i < 0 {
        Ok(s.push(d))
    } else if s[i].1 + d.1 > u128::MAX {
        Err(GenericError::Overflow { operation: OverflowOperation::Add, operand1: s[i].1, operand2: d.1 })
    } else {
        Ok(s.update(i, (d.0, (s[i].1 + d.1) as u128)))
    }
}

/// `s` without its entry at `i`, the last entry taking its place.
pub open spec fn swap_removed(s: Seq<Entry>, i: int) -> Seq<Entry> {
    s.update(i, s.last()).drop_last()
}

/// Subtracting `d` from `s`: a missing key fails with `EmptyBalance`, a
/// delta larger than the entry fails with a subtraction overflow, a delta
/// equal to it removes the entry, and a smaller one shrinks it.
pub open spec fn sub_step(s: Seq<Entry>, d: Entry) -> Result<Seq<Entry>, GenericError> {
    let i = index_of(s, d.0);
    if i < 0 {
        Err(GenericError::EmptyBalance {})
    } else if s[i].1 < d.1 {
        Err(GenericError::Overflow { operation: OverflowOperation::Sub, operand1: s[i].1, operand2: d.1 })
    } else if s[i].1 == d.1 {
        Ok(swap_removed(s, i))
    } else {
        Ok(s.update(i, (d.0, (s[i].1 - d.1) as u128)))
    }
}

/// Adding the deltas `ds` to `s` one after another, stopping at the first failure.
pub open spec fn add_all(s: Seq<Entry>, ds: Seq<Entry>) -> Result<Seq<Entry>, GenericError>
    decreases ds.len(),
{
    if ds.len() == 0 {
        Ok(s)
    } else {
        match add_step(s, ds[0]) {
            Ok(t) => add_all(t, ds.drop_first()),
            Err(e) => Err(e),
        }
    }
}

/// Subtracting the deltas `ds` from `s` one after another, stopping at the first failure.
pub open spec fn sub_all(s: Seq<Entry>, ds: Seq<Entry>) -> Result<Seq<Entry>, GenericError>
    decreases ds.len(),
{
    if ds.len() == 0 {
        Ok(s)
    } else {
        match sub_step(s, ds[0]) {
            Ok(t) => sub_all(t, ds.drop_first()),
            Err(e) => Err(e),
        }
    }
}

/// The entries after an operation: the new ones on success, `s` unchanged on failure.
pub open spec fn settle(s: Seq<Entry>, res: Result<Seq<Entry>, GenericError>) -> Seq<Entry> {
    match res {
        Ok(t) => t,
        Err(_) => s,
    }
}

/// The status that an operation reports.
pub open spec fn status(res: Result<Seq<Entry>, GenericError>) -> Result<(), GenericError> {
    match res {
        Ok(_) => Ok(()),
        Err(e) => Err(e),
    }
}

proof fn lemma_index_of(s: Seq<Entry>, k: Seq<char>, i: int)
    requires
        is_first(s, k, i),
    ensures
        index_of(s, k) == i,
{
    let j = choose|j: int| is_first(s, k, j);
    assert(is_first(s, k, j));
    if j < i {
        assert(s[j].0 != k);
    } else if i < j {
        assert(s[i].0 != k);
    }
}

proof fn lemma_index_of_none(s: Seq<Entry>, k: Seq<char>)
    requires
        forall|j: int| 0 <= j < s.len() ==> #[trigger] s[j].0 != k,
    ensures
        index_of(s, k) == -1,
{
}

proof fn lemma_index_of_unique(s: Seq<Entry>, k: Seq<char>)
    requires
        unique_keys(s),
    ensures
        index_of(s, k) < 0 ==> forall|j: int| 0 <= j < s.len() ==> #[trigger] s[j].0 != k,
        forall|i: int| 0 <= i < s.len() && #[trigger] s[i].0 == k ==> index_of(s, k) == i,
{
    assert forall|i: int| 0 <= i < s.len() && #[trigger] s[i].0 == k implies index_of(s, k) == i by {
        assert(is_first(s, k, i));
        lemma_index_of(s, k, i);
    }
}

/// Adding a delta to a collection whose keys are unique keeps them unique.
pub proof fn lemma_add_step_unique(s: Seq<Entry>, d: Entry)
    requires
        unique_keys(s),
    ensures
        add_step(s, d) matches Ok(t) ==> unique_keys(t),
{
    lemma_index_of_unique(s, d.0);
    if index_of(s, d.0) >= 0 {
        assert(is_first(s, d.0, index_of(s, d.0)));
    }
}

/// Any sequence of additions to a collection whose keys are unique leaves at
/// most one entry per key.
pub proof fn lemma_add_all_unique(s: Seq<Entry>, ds: Seq<Entry>)
    requires
        unique_keys(s),
    ensures
        add_all(s, ds) matches Ok(t) ==> unique_keys(t),
    decreases ds.len(),
{
    if ds.len() > 0 {
        lemma_add_step_unique(s, ds[0]);
        if let Ok(t) = add_step(s, ds[0]) {
            lemma_add_all_unique(t, ds.drop_first());
        }
    }
}

/// Subtracting a delta from a collection whose keys are unique keeps them unique.
pub proof fn lemma_sub_step_unique(s: Seq<Entry>, d: Entry)
    requires
        unique_keys(s),
    ensures
        sub_step(s, d) matches Ok(t) ==> unique_keys(t),
{
    lemma_index_of_unique(s, d.0);
    let i = index_of(s, d.0);
    if i >= 0 {
        assert(is_first(s, d.0, i));
        if s[i].1 == d.1 {
            let t = swap_removed(s, i);
            assert forall|a: int, b: int|
                0 <= a < t.len() && 0 <= b < t.len() && a != b implies t[a].0 != t[b].0 by {
                let a2 = if a == i { s.len() - 1 } else { a };
                let b2 = if b == i { s.len() - 1 } else { b };
                assert(t[a] == s[a2]);
                assert(t[b] == s[b2]);
            }
        }
    }
}

/// Subtracting an entry's whole amount removes its key from the collection.
pub proof fn lemma_sub_to_zero_removes(s: Seq<Entry>, d: Entry, i: int)
    requires
        unique_keys(s),
        0 <= i < s.len(),
        s[i].0 == d.0,
        s[i].1 == d.1,
    ensures
        sub_step(s, d) matches Ok(t) && !has_key(t, d.0),
{
    lemma_index_of_unique(s, d.0);
    let t = swap_removed(s, i);
    assert forall|a: int| 0 <= a < t.len() implies #[trigger] t[a].0 != d.0 by {
        let a2 = if a == i { s.len() - 1 } else { a };
        assert(t[a] == s[a2]);
    }
}

/// Subtraction never leaves an entry of amount zero, and neither does the
/// addition of a positive amount.
pub proof fn lemma_steps_keep_positive(s: Seq<Entry>, d: Entry)
    requires
        all_positive(s),
    ensures
        sub_step(s, d) matches Ok(t) ==> all_positive(t),
        d.1 > 0 ==> (add_step(s, d) matches Ok(t) ==> all_positive(t)),
{
    let i = index_of(s, d.0);
    if i >= 0 {
        assert(is_first(s, d.0, i));
        if s[i].1 == d.1 {
            let t = swap_removed(s, i);
            assert forall|a: int| 0 <= a < t.len() implies #[trigger] t[a].1 > 0 by {
                let a2 = if a == i { s.len() - 1 } else { a };
                assert(t[a] == s[a2]);
            }
        }
    }
}

/// No entry of amount zero persists after a batch of subtractions.
pub proof fn lemma_sub_all_keeps_positive(s: Seq<Entry>, ds: Seq<Entry>)
    requires
        all_positive(s),
    ensures
        sub_all(s, ds) matches Ok(t) ==> all_positive(t),
    decreases ds.len(),
{
    if ds.len() > 0 {
        lemma_steps_keep_positive(s, ds[0]);
        if let Ok(t) = sub_step(s, ds[0]) {
            lemma_sub_all_keeps_positive(t, ds.drop_first());
        }
    }
}

/// No entry of amount zero persists after a batch of positive additions.
pub proof fn lemma_add_all_keeps_positive(s: Seq<Entry>, ds: Seq<Entry>)
    requires
        all_positive(s),
        all_positive(ds),
    ensures
        add_all(s, ds) matches Ok(t) ==> all_positive(t),
    decreases ds.len(),
{
    if ds.len() > 0 {
        assert(ds[0].1 > 0);
        lemma_steps_keep_positive(s, ds[0]);
        if let Ok(t) = add_step(s, ds[0]) {
            assert(all_positive(ds.drop_first())) by {
                assert forall|a: int| 0 <= a < ds.drop_first().len() implies #[trigger] ds.drop_first()[a].1 > 0 by {
                    assert(ds.drop_first()[a] == ds[a + 1]);
                }
            }
            lemma_add_all_keeps_positive(t, ds.drop_first());
        }
    }
}

/// An addition whose sum passes the largest amount fails with an addition
/// overflow and leaves the collection as it was.
pub proof fn lemma_add_overflow_fails(s: Seq<Entry>, d: Entry, i: int)
    requires
        unique_keys(s),
        0 <= i < s.len(),
        s[i].0 == d.0,
        s[i].1 + d.1 > u128::MAX,
    ensures
        add_step(s, d) == Err::<Seq<Entry>, GenericError>(
            GenericError::Overflow { operation: OverflowOperation::Add, operand1: s[i].1, operand2: d.1 },
        ),
        settle(s, add_step(s, d)) == s,
{
    lemma_index_of_unique(s, d.0);
}

/// A subtraction of more than the entry holds fails with a subtraction
/// overflow and leaves the collection as it was.
pub proof fn lemma_sub_underflow_fails(s: Seq<Entry>, d: Entry, i: int)
    requires
        unique_keys(s),
        0 <= i < s.len(),
        s[i].0 == d.0,
        d.1 > s[i].1,
    ensures
        sub_step(s, d) == Err::<Seq<Entry>, GenericError>(
            GenericError::Overflow { operation: OverflowOperation::Sub, operand1: s[i].1, operand2: d.1 },
        ),
        settle(s, sub_step(s, d)) == s,
{
    lemma_index_of_unique(s, d.0);
}

/// A subtraction of a key that the collection does not hold fails with
/// `EmptyBalance`.
pub proof fn lemma_sub_missing_fails(s: Seq<Entry>, d: Entry)
    requires
        !has_key(s, d.0),
    ensures
        sub_step(s, d) == Err::<Seq<Entry>, GenericError>(GenericError::EmptyBalance {}),
{
    lemma_index_of_none(s, d.0);
}

/// Checked addition and subtraction of a single delta.
pub trait FindAndMutate<T: LedgerEntry>: Sized {
    /// The entries of the collection, in order.
    spec fn entries(&self) -> Seq<Entry>;

    /// Adds `add` to the entry of its key, or appends it where the key is new.
    fn find_checked_add(&mut self, add: &T) -> (r: Result<(), GenericError>)
        ensures
            r == status(add_step(old(self).entries(), add.entry())),
            final(self).entries() == settle(old(self).entries(), add_step(old(self).entries(), add.entry())),
            r is Err ==> final(self).entries() == old(self).entries(),
    ;

    /// Subtracts `sub` from the entry of its key, removing the entry where it
    /// reaches zero.
    fn find_checked_sub(&mut self, sub: &T) -> (r: Result<(), GenericError>)
        ensures
            r == status(sub_step(old(self).entries(), sub.entry())),
            final(self).entries() == settle(old(self).entries(), sub_step(old(self).entries(), sub.entry())),
            r is Err ==> final(self).entries() == old(self).entries(),
    ;
}

/// Finds the first position of `v` whose key is that of `d`.
fn find_position<T: LedgerEntry>(v: &Vec<T>, d: &T) -> (r: Option<usize>)
    ensures
        match r {
            Some(i) => is_first(ledger(v@), d.entry().0, i as int),
            None => forall|j: int| 0 <= j < v@.len() ==> #[trigger] ledger(v@)[j].0 != d.entry().0,
        },
        r is Some <==> index_of(ledger(v@), d.entry().0) >= 0,
        r matches Some(i) ==> index_of(ledger(v@), d.entry().0) == i,
{
    let ghost s = ledger(v@);
    let mut i: usize = 0;
    while i < v.len()
        invariant
            s == ledger(v@),
            i <= v@.len(),
            forall|j: int| 0 <= j < i ==> #[trigger] s[j].0 != d.entry().0,
        decreases v@.len() - i,
    {
        if v[i].same_key(d) {
            proof {
                lemma_index_of(s, d.entry().0, i as int);
            }
            return Some(i);
        }
        i = i + 1;
    }
    proof {
        lemma_index_of_none(s, d.entry().0);
    }
    None
}

impl<T: LedgerEntry> FindAndMutate<T> for Vec<T> {
    open spec fn entries(&self) -> Seq<Entry> {
        ledger(self@)
    }

    fn find_checked_add(&mut self, add: &T) -> (r: Result<(), GenericError>) {
        let ghost s = ledger(self@);
        match find_position(self, add) {
            Some(i) => {
                let cur = self[i].get_amount();
                let delta = add.get_amount();
                match cur.checked_add(delta) {
                    Some(sum) => {
                        let mut e = self[i].duplicate();
                        e.set_amount(sum);
                        self[i] = e;
                        assert(ledger(self@) =~= s.update(i as int, (add.entry().0, sum)));
                        Ok(())
                    },
                    None => Err(
                        GenericError::Overflow {
                            operation: OverflowOperation::Add,
                            operand1: cur,
                            operand2: delta,
                        },
                    ),
                }
            },
            None => {
                self.push(add.duplicate());
                assert(ledger(self@) =~= s.push(add.entry()));
                Ok(())
            },
        }
    }

    fn find_checked_sub(&mut self, sub: &T) -> (r: Result<(), GenericError>) {
        let ghost s = ledger(self@);
        match find_position(self, sub) {
            Some(i) => {
                let cur = self[i].get_amount();
                let delta = sub.get_amount();
                if cur < delta {
                    Err(
                        GenericError::Overflow {
                            operation: OverflowOperation::Sub,
                            operand1: cur,
                            operand2: delta,
                        },
                    )
                } else if cur == delta {
                    self.swap_remove(i);
                    assert(ledger(self@) =~= swap_removed(s, i as int));
                    Ok(())
                } else {
                    let mut e = self[i].duplicate();
                    e.set_amount(cur - delta);
                    self[i] = e;
                    assert(ledger(self@) =~= s.update(i as int, (sub.entry().0, (cur - delta) as u128)));
                    Ok(())
                }
            },
            None => Err(GenericError::EmptyBalance {}),
        }
    }
}

/// Checked addition and subtraction of a batch of deltas, all or nothing.
pub trait BalancesOperations<T: LedgerEntry>: FindAndMutate<T> {
    /// Adds each delta of `add` in turn; where one fails, the collection is
    /// left as it was and that failure is returned.
    fn checked_add_coins(&mut self, add: &[T]) -> (r: Result<(), GenericError>)
        ensures
            r == status(add_all(old(self).entries(), ledger(add@))),
            final(self).entries() == settle(old(self).entries(), add_all(old(self).entries(), ledger(add@))),
            r is Err ==> final(self).entries() == old(self).entries(),
    ;

    /// Subtracts each delta of `sub` in turn; where one fails, the collection
    /// is left as it was and that failure is returned.
    fn checked_sub_coins(&mut self, sub: &[T]) -> (r: Result<(), GenericError>)
        ensures
            r == status(sub_all(old(self).entries(), ledger(sub@))),
            final(self).entries() == settle(old(self).entries(), sub_all(old(self).entries(), ledger(sub@))),
            r is Err ==> final(self).entries() == old(self).entries(),
    ;
}

/// A copy of `v`, entry for entry.
pub(crate) fn copy_entries<T: LedgerEntry>(v: &Vec<T>) -> (r: Vec<T>)
    ensures
        ledger(r@) == ledger(v@),
{
    let mut r: Vec<T> = Vec::new();
    let mut i: usize = 0;
    while i < v.len()
        invariant
            i <= v@.len(),
            r@.len() == i,
            ledger(r@) == ledger(v@).subrange(0, i as int),
        decreases v@.len() - i,
    {
        let ghost prev = r@;
        let d = v[i].duplicate();
        r.push(d);
        assert(r@ =~= prev.push(d));
        assert forall|j: int| 0 <= j < i + 1 implies #[trigger] ledger(r@)[j] == ledger(v@)[j] by {
            if j < i {
                assert(ledger(prev)[j] == ledger(v@).subrange(0, i as int)[j]);
            } else {
                assert(r@[j] == d);
            }
        }
        assert(ledger(r@) =~= ledger(v@).subrange(0, i + 1));
        i = i + 1;
    }
    assert(ledger(v@).subrange(0, v@.len() as int) =~= ledger(v@));
    r
}

impl<T: LedgerEntry> BalancesOperations<T> for Vec<T> {
    fn checked_add_coins(&mut self, add: &[T]) -> (r: Result<(), GenericError>) {
        let ghost ds = ledger(add@);
        let mut work = copy_entries(self);
        let mut i: usize = 0;
        assert(ds.subrange(0, ds.len() as int) =~= ds);
        while i < add.len()
            invariant
                ds == ledger(add@),
                i <= add@.len(),
                add_all(ledger(work@), ds.subrange(i as int, ds.len() as int)) == add_all(
                    ledger(self@),
                    ds,
                ),
                ledger(self@) == ledger(old(self)@),
            decreases add@.len() - i,
        {
            let ghost before = ledger(work@);
            let ghost rest = ds.subrange(i as int, ds.len() as int);
            assert(rest.drop_first() =~= ds.subrange(i + 1, ds.len() as int));
            assert(rest[0] == add@[i as int].entry());
            match work.find_checked_add(&add[i]) {
                Ok(()) => {},
                Err(e) => {
                    return Err(e);
                },
            }
            i = i + 1;
        }
        assert(ds.subrange(ds.len() as int, ds.len() as int) =~= Seq::<Entry>::empty());
        *self = work;
        Ok(())
    }

    fn checked_sub_coins(&mut self, sub: &[T]) -> (r: Result<(), GenericError>) {
        let ghost ds = ledger(sub@);
        let mut work = copy_entries(self);
        let mut i: usize = 0;
        assert(ds.subrange(0, ds.len() as int) =~= ds);
        while i < sub.len()
            invariant
                ds == ledger(sub@),
                i <= sub@.len(),
                sub_all(ledger(work@), ds.subrange(i as int, ds.len() as int)) == sub_all(
                    ledger(self@),
                    ds,
                ),
                ledger(self@) == ledger(old(self)@),
            decreases sub@.len() - i,
        {
            let ghost before = ledger(work@);
            let ghost rest = ds.subrange(i as int, ds.len() as int);
            assert(rest.drop_first() =~= ds.subrange(i + 1, ds.len() as int));
            assert(rest[0] == sub@[i as int].entry());
            match work.find_checked_sub(&sub[i]) {
                Ok(()) => {},
                Err(e) => {
                    return Err(e);
                },
            }
            i = i + 1;
        }
        assert(ds.subrange(ds.len() as int, ds.len() as int) =~= Seq::<Entry>::empty());
        *self = work;
        Ok(())
    }
}

} // verus!
