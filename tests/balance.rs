use payroll_balance::{
    Balance, BalancesOperations, Coin, Cw20CoinVerified, Cw20ReceiveMsg, FindAndMutate,
    GenericError, OverflowOperation, WrappedBalance,
};

fn coin(denom: &str, amount: u128) -> Coin {
    Coin { denom: denom.to_string(), amount }
}

fn token(address: &str, amount: u128) -> Cw20CoinVerified {
    Cw20CoinVerified { address: address.to_string(), amount }
}

fn atom_100() -> WrappedBalance {
    let mut b = WrappedBalance::default();
    b.checked_add_native(&[coin("atom", 100)]).unwrap();
    b
}

#[test]
fn empty_native_add_gives_single_entry() {
    let b = atom_100();
    assert!(b.is_native());
    assert_eq!(b.0, Balance::Native(vec![coin("atom", 100)]));
    assert_eq!(b.native(), Some(&coin("atom", 100)));
    assert_eq!(b.amount(), 100);
}

#[test]
fn native_add_overflow_keeps_balance() {
    let mut b = atom_100();
    let r = b.checked_add_native(&[coin("atom", u128::MAX - 50)]);
    assert_eq!(
        r,
        Err(GenericError::Overflow {
            operation: OverflowOperation::Add,
            operand1: 100,
            operand2: u128::MAX - 50,
        })
    );
    assert_eq!(b, atom_100());
    assert_eq!(b.amount(), 100);
}

#[test]
fn native_sub_to_zero_prunes_entry() {
    let mut b = atom_100();
    assert_eq!(b.checked_sub_native(&[coin("atom", 100)]), Ok(()));
    assert_eq!(b.0, Balance::Native(vec![]));
    assert_eq!(b.native(), None);
    assert_eq!(b.amount(), 0);
}

#[test]
fn native_sub_from_empty_is_empty_balance() {
    let mut b = WrappedBalance::default();
    assert_eq!(b.checked_sub_native(&[coin("atom", 1)]), Err(GenericError::EmptyBalance {}));
    assert_eq!(b, WrappedBalance::default());
}

#[test]
fn token_from_transfer_refuses_native_add() {
    let msg = Cw20ReceiveMsg { sender: "addr1".to_string(), amount: 50, msg: vec![] };
    let mut b = WrappedBalance::from(msg);
    assert_eq!(b.checked_add_native(&[coin("atom", 1)]), Err(GenericError::EmptyBalance {}));
    assert!(b.is_cw20());
    assert_eq!(b.cw20(), Some(&token("addr1", 50)));
    assert_eq!(b.amount(), 50);
}

#[test]
fn variant_isolation_both_ways() {
    let mut t = WrappedBalance::new_cw20("addr1".to_string(), 50);
    assert_eq!(t.checked_sub_native(&[coin("atom", 1)]), Err(GenericError::EmptyBalance {}));
    assert_eq!(t, WrappedBalance::new_cw20("addr1".to_string(), 50));

    let mut n = atom_100();
    assert_eq!(n.checked_add_cw20(&[token("addr1", 1)]), Err(GenericError::EmptyBalance {}));
    assert_eq!(n.checked_sub_cw20(&[token("addr1", 1)]), Err(GenericError::EmptyBalance {}));
    assert_eq!(n, atom_100());
}

#[test]
fn native_sub_partial_and_underflow() {
    let mut b = atom_100();
    assert_eq!(b.checked_sub_native(&[coin("atom", 30)]), Ok(()));
    assert_eq!(b.amount(), 70);
    let r = b.checked_sub_native(&[coin("atom", 71)]);
    assert_eq!(
        r,
        Err(GenericError::Overflow { operation: OverflowOperation::Sub, operand1: 70, operand2: 71 })
    );
    assert_eq!(b.amount(), 70);
}

#[test]
fn native_batch_is_all_or_nothing() {
    let mut b = WrappedBalance::new_native("atom".to_string(), 10);
    let r = b.checked_sub_native(&[coin("atom", 5), coin("juno", 1)]);
    assert_eq!(r, Err(GenericError::EmptyBalance {}));
    assert_eq!(b, WrappedBalance::new_native("atom".to_string(), 10));

    let r = b.checked_add_native(&[coin("juno", 3), coin("atom", u128::MAX)]);
    assert!(matches!(r, Err(GenericError::Overflow { operation: OverflowOperation::Add, .. })));
    assert_eq!(b, WrappedBalance::new_native("atom".to_string(), 10));

    assert_eq!(b.checked_add_native(&[coin("juno", 3), coin("atom", 5)]), Ok(()));
    assert_eq!(b.0, Balance::Native(vec![coin("atom", 15), coin("juno", 3)]));
}

#[test]
fn token_add_and_sub_same_issuer() {
    let mut b = WrappedBalance::new_cw20("addr1".to_string(), 50);
    assert_eq!(b.checked_add_cw20(&[token("addr1", 25)]), Ok(()));
    assert_eq!(b.amount(), 75);
    assert_eq!(b.checked_sub_cw20(&[token("addr1", 70)]), Ok(()));
    assert_eq!(b.cw20(), Some(&token("addr1", 5)));
}

#[test]
fn token_sub_to_zero_keeps_issuer() {
    let mut b = WrappedBalance::new_cw20("addr1".to_string(), 50);
    assert_eq!(b.checked_sub_cw20(&[token("addr1", 50)]), Ok(()));
    assert_eq!(b.0, Balance::Cw20(token("addr1", 0)));
    assert_eq!(b.amount(), 0);
}

#[test]
fn token_other_issuer_is_refused() {
    let mut b = WrappedBalance::new_cw20("addr1".to_string(), 50);
    assert_eq!(b.checked_add_cw20(&[token("addr2", 5)]), Err(GenericError::MixedBalance {}));
    assert_eq!(b.checked_sub_cw20(&[token("addr2", 5)]), Err(GenericError::EmptyBalance {}));
    assert_eq!(b, WrappedBalance::new_cw20("addr1".to_string(), 50));
}

#[test]
fn token_overflow_and_underflow() {
    let mut b = WrappedBalance::new_cw20("addr1".to_string(), 50);
    assert_eq!(
        b.checked_add_cw20(&[token("addr1", u128::MAX)]),
        Err(GenericError::Overflow {
            operation: OverflowOperation::Add,
            operand1: 50,
            operand2: u128::MAX,
        })
    );
    assert_eq!(
        b.checked_sub_cw20(&[token("addr1", 51)]),
        Err(GenericError::Overflow { operation: OverflowOperation::Sub, operand1: 50, operand2: 51 })
    );
    assert_eq!(b.amount(), 50);
}

#[test]
fn find_checked_add_appends_and_sums() {
    let mut v: Vec<Coin> = vec![];
    assert_eq!(v.find_checked_add(&coin("atom", 1)), Ok(()));
    assert_eq!(v.find_checked_add(&coin("juno", 2)), Ok(()));
    assert_eq!(v.find_checked_add(&coin("atom", 4)), Ok(()));
    assert_eq!(v, vec![coin("atom", 5), coin("juno", 2)]);
}

#[test]
fn repeated_adds_keep_one_entry_per_key() {
    let mut v: Vec<Cw20CoinVerified> = vec![];
    for _ in 0..5 {
        v.checked_add_coins(&[token("a", 1), token("b", 2), token("a", 3)]).unwrap();
    }
    assert_eq!(v, vec![token("a", 20), token("b", 10)]);
}

#[test]
fn find_checked_add_overflow_at_max() {
    let mut v = vec![coin("atom", u128::MAX)];
    assert_eq!(
        v.find_checked_add(&coin("atom", 1)),
        Err(GenericError::Overflow { operation: OverflowOperation::Add, operand1: u128::MAX, operand2: 1 })
    );
    assert_eq!(v.find_checked_add(&coin("atom", 0)), Ok(()));
    assert_eq!(v, vec![coin("atom", u128::MAX)]);
}

#[test]
fn find_checked_sub_cases() {
    let mut v = vec![coin("a", 1), coin("b", 2), coin("c", 3)];
    assert_eq!(v.find_checked_sub(&coin("z", 1)), Err(GenericError::EmptyBalance {}));
    assert_eq!(
        v.find_checked_sub(&coin("b", 3)),
        Err(GenericError::Overflow { operation: OverflowOperation::Sub, operand1: 2, operand2: 3 })
    );
    assert_eq!(v.find_checked_sub(&coin("c", 1)), Ok(()));
    assert_eq!(v, vec![coin("a", 1), coin("b", 2), coin("c", 2)]);
    // the last entry takes the place of the one removed
    assert_eq!(v.find_checked_sub(&coin("a", 1)), Ok(()));
    assert_eq!(v, vec![coin("c", 2), coin("b", 2)]);
}

#[test]
fn batch_sub_failure_leaves_collection() {
    let mut v = vec![token("a", 5), token("b", 5)];
    let r = v.checked_sub_coins(&[token("a", 5), token("b", 6)]);
    assert_eq!(
        r,
        Err(GenericError::Overflow { operation: OverflowOperation::Sub, operand1: 5, operand2: 6 })
    );
    assert_eq!(v, vec![token("a", 5), token("b", 5)]);
    assert_eq!(v.checked_sub_coins(&[token("a", 5), token("b", 1)]), Ok(()));
    assert_eq!(v, vec![token("b", 4)]);
}

#[test]
fn batch_add_failure_leaves_collection() {
    let mut v = vec![coin("x", 7)];
    let r = v.checked_add_coins(&[coin("y", 1), coin("x", u128::MAX - 6)]);
    assert_eq!(
        r,
        Err(GenericError::Overflow {
            operation: OverflowOperation::Add,
            operand1: 7,
            operand2: u128::MAX - 6,
        })
    );
    assert_eq!(v, vec![coin("x", 7)]);
}

#[test]
fn constructors_and_accessors() {
    let n = WrappedBalance::new_native_from_coin(coin("atom", 3));
    assert_eq!(n, WrappedBalance::new_native("atom".to_string(), 3));
    assert!(n.is_native() && !n.is_cw20());
    assert_eq!(n.cw20(), None);

    let t = WrappedBalance::new_cw20_from_coin(token("addr", 9));
    assert_eq!(t, WrappedBalance::new_cw20("addr".to_string(), 9));
    assert!(t.is_cw20() && !t.is_native());
    assert_eq!(t.native(), None);
    assert_eq!(t.amount(), 9);

    assert_eq!(WrappedBalance::default().0, Balance::Native(vec![]));
    assert_eq!(WrappedBalance::default().amount(), 0);
}

#[test]
fn conversions_to_and_from_balance() {
    let b = Balance::Cw20(token("addr", 4));
    let w = WrappedBalance::from(b.clone());
    assert_eq!(w, WrappedBalance::new_cw20("addr".to_string(), 4));
    assert_eq!(Balance::from(w.clone()), b);
    assert_eq!(Option::<Balance>::from(w), Some(b));
}
