use psp_coin::{Address, Approval, Event, PSP22Error, PspCoin, Transfer, U256};

fn alice() -> Address {
    Address::new([0x01; 20])
}

fn bob() -> Address {
    Address::new([0x02; 20])
}

fn charlie() -> Address {
    Address::new([0x03; 20])
}

fn amount(v: u128) -> U256 {
    U256::from_u128(v)
}

#[test]
fn new_works() {
    let contract = PspCoin::new();
    assert_eq!(contract.total_supply(), amount(0));
    assert_eq!(contract.balance_of(alice()), amount(0));
    assert_eq!(contract.name(), Some(String::from("MemeCoin")));
    assert_eq!(contract.symbol(), Some(String::from("MEME")));
    assert_eq!(contract.decimals(), 18);
}

#[test]
fn allowance_works() {
    let contract = PspCoin::new_with_supply(alice(), amount(1000));
    assert_eq!(contract.allowance(alice(), bob()), amount(0));
}

#[test]
fn transfer_fails_insufficient_balance() {
    let mut contract = PspCoin::new_with_supply(alice(), amount(100));
    let transfer_data = vec![];
    let transfer_amount = amount(200);
    assert_eq!(
        contract.transfer(alice(), bob(), transfer_amount, transfer_data),
        Err(PSP22Error::InsufficientBalance)
    );
}

#[test]
fn transfer_from_fails_insufficient_allowance() {
    let initial_supply = amount(1000);
    let mut contract = PspCoin::new_with_supply(alice(), initial_supply);
    // No allowance set; bob calls.
    let transfer_data = vec![];
    assert_eq!(
        contract.transfer_from(bob(), alice(), bob(), amount(100), transfer_data),
        Err(PSP22Error::InsufficientAllowance)
    );
}

#[test]
fn transfer_from_fails_insufficient_balance() {
    let initial_supply = amount(1000);
    let mut contract = PspCoin::new_with_supply(alice(), initial_supply);
    let transfer_data: Vec<u8> = vec![];
    contract.transfer(alice(), charlie(), amount(50), transfer_data.clone()).unwrap();
    contract.approve(charlie(), bob(), amount(200)).unwrap();
    assert_eq!(
        contract.transfer_from(bob(), charlie(), bob(), amount(100), transfer_data),
        Err(PSP22Error::InsufficientBalance)
    );
}

#[test]
fn increase_allowance_fails_overflow() {
    let mut contract = PspCoin::new_with_supply(alice(), amount(1000));
    contract.approve(alice(), bob(), U256::max_value()).unwrap();
    let delta = amount(1);
    assert_eq!(
        contract.increase_allowance(alice(), bob(), delta),
        Err(PSP22Error::Overflow)
    );
}

#[test]
fn decrease_allowance_fails_insufficient() {
    let mut contract = PspCoin::new_with_supply(alice(), amount(1000));
    let delta = amount(100);
    assert_eq!(
        contract.decrease_allowance(alice(), bob(), delta),
        Err(PSP22Error::InsufficientAllowance)
    );
}

#[test]
fn mint_fails_overflow() {
    let mut contract = PspCoin::new_with_supply(alice(), U256::max_value());
    let mint_amount = amount(1);
    assert_eq!(contract.mint(alice(), mint_amount), Err(PSP22Error::Overflow));
}

#[test]
fn burn_fails_insufficient_balance() {
    let mut contract = PspCoin::new();
    let burn_amount = amount(100);
    assert_eq!(
        contract.burn(alice(), burn_amount),
        Err(PSP22Error::InsufficientBalance)
    );
}

#[test]
fn metadata_works() {
    let contract = PspCoin::new();
    assert_eq!(contract.name(), Some(String::from("MemeCoin")));
    assert_eq!(contract.symbol(), Some(String::from("MEME")));
    assert_eq!(contract.decimals(), 18);
}

// Scenarios beyond the ones above.

#[test]
fn new_with_supply_works() {
    let initial_supply = amount(1000);
    let contract = PspCoin::new_with_supply(alice(), initial_supply);
    assert_eq!(contract.total_supply(), initial_supply);
    assert_eq!(contract.balance_of(alice()), initial_supply);
    assert_eq!(contract.balance_of(bob()), amount(0));
}

#[test]
fn transfer_works_and_emits() {
    let mut contract = PspCoin::new_with_supply(alice(), amount(1000));
    assert_eq!(contract.transfer(alice(), bob(), amount(300), vec![]), Ok(()));
    assert_eq!(contract.balance_of(alice()), amount(700));
    assert_eq!(contract.balance_of(bob()), amount(300));
    assert_eq!(contract.total_supply(), amount(1000));
    assert_eq!(
        contract.take_events(),
        vec![Event::Transfer(Transfer { from: Some(alice()), to: Some(bob()), value: amount(300) })]
    );
    assert_eq!(contract.take_events(), vec![]);
}

#[test]
fn transfer_no_ops() {
    let mut contract = PspCoin::new_with_supply(alice(), amount(1000));
    assert_eq!(contract.transfer(alice(), bob(), amount(0), vec![]), Ok(()));
    assert_eq!(contract.transfer(alice(), alice(), amount(5000), vec![]), Ok(()));
    assert_eq!(contract.balance_of(alice()), amount(1000));
    assert_eq!(contract.balance_of(bob()), amount(0));
    assert_eq!(contract.take_events(), vec![]);
}

#[test]
fn transfer_whole_balance_and_back() {
    let mut contract = PspCoin::new_with_supply(alice(), amount(10));
    assert_eq!(contract.transfer(alice(), bob(), amount(10), vec![]), Ok(()));
    assert_eq!(contract.balance_of(alice()), amount(0));
    assert_eq!(contract.transfer(alice(), bob(), amount(1), vec![]), Err(PSP22Error::InsufficientBalance));
    assert_eq!(contract.transfer(bob(), alice(), amount(10), vec![]), Ok(()));
    assert_eq!(contract.balance_of(alice()), amount(10));
    assert_eq!(contract.balance_of(bob()), amount(0));
}

#[test]
fn transfer_from_works() {
    let initial_supply = amount(1000);
    let mut contract = PspCoin::new_with_supply(alice(), initial_supply);
    assert_eq!(contract.approve(alice(), bob(), amount(300)), Ok(()));
    contract.take_events();
    assert_eq!(
        contract.transfer_from(bob(), alice(), charlie(), amount(200), vec![]),
        Ok(())
    );
    assert_eq!(contract.balance_of(alice()), amount(800));
    assert_eq!(contract.balance_of(charlie()), amount(200));
    assert_eq!(contract.allowance(alice(), bob()), amount(100));
    assert_eq!(
        contract.take_events(),
        vec![
            Event::Approval(Approval { owner: alice(), spender: bob(), value: amount(100) }),
            Event::Transfer(Transfer {
                from: Some(alice()),
                to: Some(charlie()),
                value: amount(200)
            }),
        ]
    );
    // No-ops.
    assert_eq!(contract.transfer_from(bob(), alice(), charlie(), amount(0), vec![]), Ok(()));
    assert_eq!(contract.transfer_from(bob(), charlie(), charlie(), amount(100), vec![]), Ok(()));
    assert_eq!(contract.balance_of(charlie()), amount(200));
    assert_eq!(contract.allowance(alice(), bob()), amount(100));
}

#[test]
fn transfer_from_by_owner_needs_no_allowance() {
    let mut contract = PspCoin::new_with_supply(alice(), amount(1000));
    assert_eq!(contract.transfer_from(alice(), alice(), bob(), amount(400), vec![]), Ok(()));
    assert_eq!(contract.balance_of(bob()), amount(400));
    assert_eq!(contract.allowance(alice(), alice()), amount(0));
}

#[test]
fn transfer_from_insufficient_balance_spends_allowance_first() {
    // The allowance is spent before the balance is checked, as the operation is written.
    let mut contract = PspCoin::new_with_supply(alice(), amount(1000));
    contract.transfer(alice(), charlie(), amount(50), vec![]).unwrap();
    contract.approve(charlie(), bob(), amount(200)).unwrap();
    assert_eq!(
        contract.transfer_from(bob(), charlie(), bob(), amount(100), vec![]),
        Err(PSP22Error::InsufficientBalance)
    );
    assert_eq!(contract.allowance(charlie(), bob()), amount(100));
    assert_eq!(contract.balance_of(charlie()), amount(50));
}

#[test]
fn approve_works() {
    let mut contract = PspCoin::new_with_supply(alice(), amount(1000));
    assert_eq!(contract.approve(alice(), bob(), amount(300)), Ok(()));
    assert_eq!(contract.allowance(alice(), bob()), amount(300));
    assert_eq!(contract.allowance(bob(), alice()), amount(0));
    assert_eq!(contract.approve(alice(), alice(), amount(100)), Ok(()));
    assert_eq!(contract.allowance(alice(), alice()), amount(0));
    assert_eq!(
        contract.take_events(),
        vec![Event::Approval(Approval { owner: alice(), spender: bob(), value: amount(300) })]
    );
    assert_eq!(contract.approve(alice(), bob(), amount(7)), Ok(()));
    assert_eq!(contract.allowance(alice(), bob()), amount(7));
}

#[test]
fn increase_allowance_works() {
    let mut contract = PspCoin::new_with_supply(alice(), amount(1000));
    contract.approve(alice(), bob(), amount(100)).unwrap();
    assert_eq!(contract.increase_allowance(alice(), bob(), amount(200)), Ok(()));
    assert_eq!(contract.allowance(alice(), bob()), amount(300));
    assert_eq!(contract.increase_allowance(alice(), bob(), amount(0)), Ok(()));
    assert_eq!(contract.allowance(alice(), bob()), amount(300));
    assert_eq!(contract.increase_allowance(alice(), alice(), amount(50)), Ok(()));
    assert_eq!(contract.allowance(alice(), alice()), amount(0));
}

#[test]
fn decrease_allowance_works() {
    let mut contract = PspCoin::new_with_supply(alice(), amount(1000));
    contract.approve(alice(), bob(), amount(300)).unwrap();
    assert_eq!(contract.decrease_allowance(alice(), bob(), amount(100)), Ok(()));
    assert_eq!(contract.allowance(alice(), bob()), amount(200));
    assert_eq!(contract.decrease_allowance(alice(), bob(), amount(0)), Ok(()));
    assert_eq!(contract.decrease_allowance(alice(), alice(), amount(50)), Ok(()));
    assert_eq!(contract.allowance(alice(), bob()), amount(200));
    assert_eq!(contract.decrease_allowance(alice(), bob(), amount(201)), Err(PSP22Error::InsufficientAllowance));
    assert_eq!(contract.allowance(alice(), bob()), amount(200));
}

#[test]
fn mint_works() {
    let mut contract = PspCoin::new();
    assert_eq!(contract.mint(alice(), amount(500)), Ok(()));
    assert_eq!(contract.balance_of(alice()), amount(500));
    assert_eq!(contract.total_supply(), amount(500));
    assert_eq!(contract.mint(alice(), amount(0)), Ok(()));
    assert_eq!(contract.total_supply(), amount(500));
    assert_eq!(
        contract.take_events(),
        vec![Event::Transfer(Transfer { from: None, to: Some(alice()), value: amount(500) })]
    );
}

#[test]
fn mint_overflow_on_supply_changes_nothing() {
    // Bob's own balance has room, but the supply does not.
    let mut contract = PspCoin::new_with_supply(alice(), U256::max_value());
    assert_eq!(contract.mint(bob(), amount(1)), Err(PSP22Error::Overflow));
    assert_eq!(contract.balance_of(bob()), amount(0));
    assert_eq!(contract.total_supply(), U256::max_value());
    assert_eq!(contract.take_events(), vec![]);
}

#[test]
fn burn_works() {
    let mut contract = PspCoin::new_with_supply(alice(), amount(1000));
    assert_eq!(contract.burn(alice(), amount(200)), Ok(()));
    assert_eq!(contract.balance_of(alice()), amount(800));
    assert_eq!(contract.total_supply(), amount(800));
    assert_eq!(contract.burn(alice(), amount(0)), Ok(()));
    assert_eq!(contract.total_supply(), amount(800));
    assert_eq!(
        contract.take_events(),
        vec![Event::Transfer(Transfer { from: Some(alice()), to: None, value: amount(200) })]
    );
}

#[test]
fn mint_then_burn_restores() {
    let mut contract = PspCoin::new_with_supply(alice(), amount(1000));
    assert_eq!(contract.mint(bob(), amount(77)), Ok(()));
    assert_eq!(contract.burn(bob(), amount(77)), Ok(()));
    assert_eq!(contract.balance_of(bob()), amount(0));
    assert_eq!(contract.balance_of(alice()), amount(1000));
    assert_eq!(contract.total_supply(), amount(1000));
}

#[test]
fn increase_then_decrease_restores() {
    let mut contract = PspCoin::new_with_supply(alice(), amount(1000));
    contract.approve(alice(), bob(), amount(40)).unwrap();
    assert_eq!(contract.increase_allowance(alice(), bob(), amount(25)), Ok(()));
    assert_eq!(contract.decrease_allowance(alice(), bob(), amount(25)), Ok(()));
    assert_eq!(contract.allowance(alice(), bob()), amount(40));
}

#[test]
fn supply_is_sum_of_balances() {
    let mut contract = PspCoin::new_with_supply(alice(), amount(1000));
    contract.transfer(alice(), bob(), amount(250), vec![]).unwrap();
    contract.mint(charlie(), amount(30)).unwrap();
    contract.burn(bob(), amount(50)).unwrap();
    contract.approve(bob(), charlie(), amount(100)).unwrap();
    contract.transfer_from(charlie(), bob(), alice(), amount(60), vec![]).unwrap();
    let a = contract.balance_of(alice()).low();
    let b = contract.balance_of(bob()).low();
    let c = contract.balance_of(charlie()).low();
    assert_eq!(a, 810);
    assert_eq!(b, 140);
    assert_eq!(c, 30);
    assert_eq!(contract.total_supply(), amount(a + b + c));
}

#[test]
fn large_balances_above_128_bits() {
    let big = U256::from_parts(5, 0);
    let mut contract = PspCoin::new_with_supply(alice(), big);
    assert_eq!(contract.transfer(alice(), bob(), amount(1), vec![]), Ok(()));
    assert_eq!(contract.balance_of(alice()), U256::from_parts(4, u128::MAX));
    assert_eq!(contract.balance_of(bob()), amount(1));
    assert_eq!(contract.total_supply(), big);
}

#[test]
fn refused_operations_change_nothing() {
    let mut contract = PspCoin::new_with_supply(alice(), amount(10));
    contract.take_events();
    assert_eq!(contract.transfer(bob(), alice(), amount(1), vec![]), Err(PSP22Error::InsufficientBalance));
    assert_eq!(contract.burn(bob(), amount(1)), Err(PSP22Error::InsufficientBalance));
    assert_eq!(contract.decrease_allowance(alice(), bob(), amount(1)), Err(PSP22Error::InsufficientAllowance));
    assert_eq!(contract.transfer_from(bob(), alice(), bob(), amount(1), vec![]), Err(PSP22Error::InsufficientAllowance));
    assert_eq!(contract.balance_of(alice()), amount(10));
    assert_eq!(contract.balance_of(bob()), amount(0));
    assert_eq!(contract.total_supply(), amount(10));
    assert_eq!(contract.take_events(), vec![]);
}

// The amount type.

#[test]
fn u256_checked_add_carries_into_high_limb() {
    let a = U256::from_u128(u128::MAX);
    assert_eq!(a.checked_add(&amount(1)), Some(U256::from_parts(1, 0)));
    assert_eq!(U256::max_value().checked_add(&amount(1)), None);
    assert_eq!(U256::max_value().checked_add(&amount(0)), Some(U256::max_value()));
    assert_eq!(U256::from_parts(u128::MAX, 0).checked_add(&U256::from_parts(1, 0)), None);
    assert_eq!(amount(2).checked_add(&amount(3)), Some(amount(5)));
}

#[test]
fn u256_sub_borrows_from_high_limb() {
    assert_eq!(U256::from_parts(1, 0).sub(&amount(1)), U256::from_u128(u128::MAX));
    assert_eq!(amount(9).sub(&amount(4)), amount(5));
    assert_eq!(U256::max_value().sub(&U256::max_value()), U256::zero());
}

#[test]
fn u256_order_and_zero() {
    assert!(amount(1).less_than(&amount(2)));
    assert!(!amount(2).less_than(&amount(2)));
    assert!(U256::from_u128(u128::MAX).less_than(&U256::from_parts(1, 0)));
    assert!(!U256::from_parts(1, 0).less_than(&U256::from_parts(0, u128::MAX)));
    assert!(U256::zero().is_zero());
    assert!(!U256::from_parts(1, 0).is_zero());
    assert_eq!(U256::from_parts(3, 4).high(), 3);
    assert_eq!(U256::from_parts(3, 4).low(), 4);
}

#[test]
fn address_same() {
    let mut bytes = [0x01; 20];
    assert!(alice().same(&Address::new(bytes)));
    bytes[19] = 0x02;
    assert!(!alice().same(&Address::new(bytes)));
    assert_eq!(alice().to_bytes(), [0x01; 20]);
}
