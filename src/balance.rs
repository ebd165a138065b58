use vstd::prelude::*;

use crate::error::GenericError;
use crate::ledger::{
    add_all, copy_entries, ledger, settle, status, sub_all, BalancesOperations, Coin,
    Cw20CoinVerified, Entry, LedgerEntry,
};

verus! {

/// Holdings in one of two token systems: native coins, keyed by
/// denomination, or one contract-issued token, keyed by its issuer.
#[derive(Clone, Debug, PartialEq, Eq)]
pub enum Balance {
    Native(Vec<Coin>),
    Cw20(Cw20CoinVerified),
}

/// A notification of an incoming token transfer: who sent it and how much.
#[derive(Clone, Debug, PartialEq, Eq)]
pub struct Cw20ReceiveMsg {
    pub sender: String,
    pub amount: u128,
    pub msg: Vec<u8>,
}

/// A balance whose mutation is checked and guarded by its kind.
#[derive(Clone, Debug, PartialEq, Eq)]
pub struct WrappedBalance(pub Balance);

/// The token entry that a batch leaves behind: its sole remaining entry, the
/// issuer with nothing where none remains, and a `MixedBalance` failure where
/// entries of more than one issuer remain.
pub open spec fn token_outcome(c: Entry, res: Result<Seq<Entry>, GenericError>) -> Result<
    Entry,
    GenericError,
> {
    match res {
        Err(e) => Err(e),
        Ok(t) => if t.len() == 0 {
            Ok((c.0, 0u128))
        } else if t.len() == 1 {
            Ok(t[0])
        } else {
            Err(GenericError::MixedBalance {})
        },
    }
}

impl WrappedBalance {
    /// The native entries, where the balance is native.
    pub open spec fn native_entries(self) -> Option<Seq<Entry>> {
        match self.0 {
            Balance::Native(v) => Some(ledger(v@)),
            Balance::Cw20(_) => None,
        }
    }

    /// The token entry, where the balance is a token.
    pub open spec fn token_entry(self) -> Option<Entry> {
        match self.0 {
            Balance::Native(_) => None,
            Balance::Cw20(c) => Some(c.entry()),
        }
    }

    /// Whether the balance holds native coins.
    pub fn is_native(&self) -> (r: bool)
        ensures
            r == (self.0 is Native),
    {
        match &self.0 {
            Balance::Native(_) => true,
            Balance::Cw20(_) => false,
        }
    }

    /// Whether the balance holds a contract-issued token.
    pub fn is_cw20(&self) -> (r: bool)
        ensures
            r == (self.0 is Cw20),
    {
        match &self.0 {
            Balance::Native(_) => false,
            Balance::Cw20(_) => true,
        }
    }

    /// The first native coin; none for a token balance or an empty native one.
    pub fn native(&self) -> (r: Option<&Coin>)
        ensures
            match self.0 {
                Balance::Native(v) => r == if v@.len() > 0 {
                    Some(&v@[0])
                } else {
                    None
                },
                Balance::Cw20(_) => r is None,
            },
    {
        match &self.0 {
            Balance::Native(v) => if v.len() > 0 {
                Some(&v[0])
            } else {
                None
            },
            Balance::Cw20(_) => None,
        }
    }

    /// The token holding; none for a native balance.
    pub fn cw20(&self) -> (r: Option<&Cw20CoinVerified>)
        ensures
            match self.0 {
                Balance::Native(_) => r is None,
                Balance::Cw20(c) => r == Some(&c),
            },
    {
        match &self.0 {
            Balance::Native(_) => None,
            Balance::Cw20(c) => Some(c),
        }
    }

    /// A native balance of the one coin `native`.
    pub fn new_native_from_coin(native: Coin) -> (r: Self)
        ensures
            r.0 matches Balance::Native(v) && v@ == seq![native],
            r.native_entries() == Some(seq![native.entry()]),
    {
        let v = vec![native];
        proof {
            assert(ledger(v@) =~= seq![native.entry()]);
        }
        WrappedBalance(Balance::Native(v))
    }
    /// A native balance of `amount` of `denom`.
    pub fn new_native(denom: String, amount: u128) -> (r: Self)
        ensures
            r.native_entries() == Some(seq![(denom@, amount)]),
    {
        Self::new_native_from_coin(Coin { denom, amount })
    }

    /// A token balance of the holding `cw20`.
    pub fn new_cw20_from_coin(cw20: Cw20CoinVerified) -> (r: Self)
        ensures
            r.0 == Balance::Cw20(cw20),
    {
        WrappedBalance(Balance::Cw20(cw20))
    }

    /// A token balance of `amount` issued by `address`.
    pub fn new_cw20(address: String, amount: u128) -> (r: Self)
        ensures
            r.0 == Balance::Cw20((Cw20CoinVerified { address, amount })),
            r.token_entry() == Some((address@, amount)),
    {
        Self::new_cw20_from_coin(Cw20CoinVerified { address, amount })
    }

    /// The amount held: that of the token, or of the first native coin, and
    /// zero for a native balance without coins.
    pub fn amount(&self) -> (r: u128)
        ensures
            r == match self.0 {
                Balance::Native(v) => if v@.len() > 0 {
                    v@[0].amount
                } else {
                    0u128
                },
                Balance::Cw20(c) => c.amount,
            },
    {
        match &self.0 {
            Balance::Native(v) => if v.len() > 0 {
                v[0].amount
            } else {
                0
            },
            Balance::Cw20(c) => c.amount,
        }
    }

    /// Adds the native `add` coins in turn. A token balance is refused with
    /// `EmptyBalance`; any failure leaves the balance as it was.
    pub fn checked_add_native(&mut self, add: &[Coin]) -> (r: Result<(), GenericError>)
        ensures
            old(self).native_entries() matches Some(s) ==> {
                &&& r == status(add_all(s, ledger(add@)))
                &&& final(self).native_entries() == Some(settle(s, add_all(s, ledger(add@))))
            },
            old(self).native_entries() is None ==> r == Err::<(), GenericError>(
                GenericError::EmptyBalance {},
            ),
            r is Err ==> *final(self) == *old(self),
    {
        match &self.0 {
            Balance::Native(v) => {
                let mut coins = copy_entries(v);
                match coins.checked_add_coins(add) {
                    Ok(()) => {},
                    Err(e) => {
                        return Err(e);
                    },
                }
                self.0 = Balance::Native(coins);
                Ok(())
            },
            Balance::Cw20(_) => Err(GenericError::EmptyBalance {}),
        }
    }

    /// Subtracts the native `sub` coins in turn. A token balance is refused
    /// with `EmptyBalance`; any failure leaves the balance as it was.
    pub fn checked_sub_native(&mut self, sub: &[Coin]) -> (r: Result<(), GenericError>)
        ensures
            old(self).native_entries() matches Some(s) ==> {
                &&& r == status(sub_all(s, ledger(sub@)))
                &&& final(self).native_entries() == Some(settle(s, sub_all(s, ledger(sub@))))
            },
            old(self).native_entries() is None ==> r == Err::<(), GenericError>(
                GenericError::EmptyBalance {},
            ),
            r is Err ==> *final(self) == *old(self),
    {
        match &self.0 {
            Balance::Native(v) => {
                let mut coins = copy_entries(v);
                match coins.checked_sub_coins(sub) {
                    Ok(()) => {},
                    Err(e) => {
                        return Err(e);
                    },
                }
                self.0 = Balance::Native(coins);
                Ok(())
            },
            Balance::Cw20(_) => Err(GenericError::EmptyBalance {}),
        }
    }

    /// Writes back the working collection of a token balance of `address`.
    fn store_token(&mut self, address: &String, coins: &Vec<Cw20CoinVerified>) -> (r: Result<
        (),
        GenericError,
    >)
        ensures
            match token_outcome((address@, 0u128), Ok(ledger(coins@))) {
                Ok(e) => r is Ok && final(self).token_entry() == Some(e),
                Err(e) => r == Err::<(), GenericError>(e) && *final(self) == *old(self),
            },
    {
        if coins.len() == 0 {
            self.0 = Balance::Cw20(Cw20CoinVerified { address: address.clone(), amount: 0 });
            Ok(())
        } else if coins.len() == 1 {
            self.0 = Balance::Cw20(coins[0].duplicate());
            Ok(())
        } else {
            Err(GenericError::MixedBalance {})
        }
    }

    /// Adds the token `add` amounts to a token balance. A native balance is
    /// refused with `EmptyBalance`, and amounts of another issuer with
    /// `MixedBalance`; any failure leaves the balance as it was.
    pub fn checked_add_cw20(&mut self, add: &[Cw20CoinVerified]) -> (r: Result<(), GenericError>)
        ensures
            old(self).token_entry() matches Some(c) ==> match token_outcome(
                c,
                add_all(seq![c], ledger(add@)),
            ) {
                Ok(e) => r is Ok && final(self).token_entry() == Some(e),
                Err(e) => r == Err::<(), GenericError>(e),
            },
            old(self).token_entry() is None ==> r == Err::<(), GenericError>(
                GenericError::EmptyBalance {},
            ),
            r is Err ==> *final(self) == *old(self),
    {
        match &self.0 {
            Balance::Cw20(c) => {
                let address = c.address.clone();
                let mut coins = vec![c.duplicate()];
                proof {
                    assert(ledger(coins@) =~= seq![c.entry()]);
                }
                match coins.checked_add_coins(add) {
                    Ok(()) => {},
                    Err(e) => {
                        return Err(e);
                    },
                }
                self.store_token(&address, &coins)
            },
            Balance::Native(_) => Err(GenericError::EmptyBalance {}),
        }
    }

    /// Subtracts the token `sub` amounts from a token balance. A native
    /// balance is refused with `EmptyBalance`; a token balance drawn down to
    /// nothing keeps its issuer with a zero amount; any failure leaves the
    /// balance as it was.
    pub fn checked_sub_cw20(&mut self, sub: &[Cw20CoinVerified]) -> (r: Result<(), GenericError>)
        ensures
            old(self).token_entry() matches Some(c) ==> match token_outcome(
                c,
                sub_all(seq![c], ledger(sub@)),
            ) {
                Ok(e) => r is Ok && final(self).token_entry() == Some(e),
                Err(e) => r == Err::<(), GenericError>(e),
            },
            old(self).token_entry() is None ==> r == Err::<(), GenericError>(
                GenericError::EmptyBalance {},
            ),
            r is Err ==> *final(self) == *old(self),
    {
        match &self.0 {
            Balance::Cw20(c) => {
                let address = c.address.clone();
                let mut coins = vec![c.duplicate()];
                proof {
                    assert(ledger(coins@) =~= seq![c.entry()]);
                }
                match coins.checked_sub_coins(sub) {
                    Ok(()) => {},
                    Err(e) => {
                        return Err(e);
                    },
                }
                self.store_token(&address, &coins)
            },
            Balance::Native(_) => Err(GenericError::EmptyBalance {}),
        }
    }
}

impl Default for WrappedBalance {
    /// A native balance without coins.
    fn default() -> (r: Self)
        ensures
            r.native_entries() == Some(Seq::<Entry>::empty()),
    {
        let v: Vec<Coin> = Vec::new();
        proof {
            assert(ledger(v@) =~= Seq::<Entry>::empty());
        }
        WrappedBalance(Balance::Native(v))
    }
}

impl From<Balance> for WrappedBalance {
    fn from(balance: Balance) -> (r: WrappedBalance) {
        WrappedBalance(balance)
    }
}

impl vstd::std_specs::convert::FromSpecImpl<Balance> for WrappedBalance {
    open spec fn obeys_from_spec() -> bool {
        true
    }

    open spec fn from_spec(v: Balance) -> WrappedBalance {
        WrappedBalance(v)
    }
}

/// An incoming transfer becomes a token balance of the sender's amount.
impl From<Cw20ReceiveMsg> for WrappedBalance {
    fn from(msg: Cw20ReceiveMsg) -> (r: WrappedBalance) {
        WrappedBalance::new_cw20(msg.sender, msg.amount)
    }
}

impl vstd::std_specs::convert::FromSpecImpl<Cw20ReceiveMsg> for WrappedBalance {
    open spec fn obeys_from_spec() -> bool {
        true
    }

    open spec fn from_spec(v: Cw20ReceiveMsg) -> WrappedBalance {
        WrappedBalance(Balance::Cw20(Cw20CoinVerified { address: v.sender, amount: v.amount }))
    }
}

impl From<WrappedBalance> for Balance {
    fn from(wb: WrappedBalance) -> (r: Balance) {
        wb.0
    }
}

impl vstd::std_specs::convert::FromSpecImpl<WrappedBalance> for Balance {
    open spec fn obeys_from_spec() -> bool {
        true
    }

    open spec fn from_spec(v: WrappedBalance) -> Balance {
        v.0
    }
}

impl From<WrappedBalance> for Option<Balance> {
    fn from(wb: WrappedBalance) -> (r: Option<Balance>) {
        Some(wb.0)
    }
}

impl vstd::std_specs::convert::FromSpecImpl<WrappedBalance> for Option<Balance> {
    open spec fn obeys_from_spec() -> bool {
        true
    }

    open spec fn from_spec(v: WrappedBalance) -> Option<Balance> {
        Some(v.0)
    }
}

} // verus!
