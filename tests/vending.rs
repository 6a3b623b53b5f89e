use vending_machine::{
    Address, UserRecord, VendError, VendingMachine, MAX_USERS, VEND_COOLDOWN_SECONDS,
};

const START: u64 = 1_700_000_000;

fn setup() -> (VendingMachine, Address) {
    (VendingMachine::new(), Address::repeat_byte(0x01))
}

#[test]
fn test_initial_vend_for_new_user() {
    let (mut contract, user1) = setup();

    contract.vend(user1, START).unwrap();

    assert_eq!(contract.balance_of(user1), 1);
    assert_eq!(contract.next_user_index(), 1);
}

#[test]
fn test_subsequent_vend_updates_balance() {
    let (mut contract, user1) = setup();
    contract.vend(user1, START).unwrap();

    contract.vend(user1, START + VEND_COOLDOWN_SECONDS + 1).unwrap();

    assert_eq!(contract.balance_of(user1), 2);
    assert_eq!(
        contract.next_user_index(),
        1,
        "Should not increment index for existing user"
    );
}

#[test]
fn test_cooldown_prevents_vend() {
    let (mut contract, user1) = setup();
    contract.vend(user1, START).unwrap();

    let result = contract.vend(user1, START + 30);

    assert!(result.is_err());
    assert_eq!(contract.balance_of(user1), 1);
}

#[test]
fn test_circular_buffer_overwrite() {
    let (mut contract, _user) = setup();

    for i in 0..MAX_USERS {
        let user = Address::repeat_byte(i as u8 + 1);
        contract.vend(user, START).unwrap();
    }

    assert_eq!(contract.next_user_index(), 0, "Index should wrap around to 0");

    let first_user = Address::repeat_byte(1);
    let original_balance = contract.balance_of(first_user);
    assert_eq!(original_balance, 1);

    let overwriting_user = Address::repeat_byte(99);
    contract.vend(overwriting_user, START).unwrap();

    assert_eq!(contract.next_user_index(), 1);
    assert_eq!(contract.balance_of(first_user), 0);
    assert_eq!(contract.balance_of(overwriting_user), 1);
}

#[test]
fn scenario_cooldown_then_eviction() {
    let mut m = VendingMachine::new();
    let a = Address::repeat_byte(0xaa);
    assert!(m.vend(a, 0).is_ok());
    assert_eq!(m.balance_of(a), 1);
    assert_eq!(m.next_user_index(), 1);

    assert_eq!(m.vend(a, 30), Err(VendError::CooldownActive));
    assert_eq!(m.balance_of(a), 1);

    assert!(m.vend(a, 61).is_ok());
    assert_eq!(m.balance_of(a), 2);
    assert_eq!(m.next_user_index(), 1);

    for i in 1..20u8 {
        assert!(m.vend(Address::repeat_byte(i), 0).is_ok());
    }
    assert_eq!(m.next_user_index(), 0);

    let z = Address::repeat_byte(0xfe);
    assert!(m.vend(z, 0).is_ok());
    assert_eq!(m.balance_of(a), 0);
    assert_eq!(m.balance_of(z), 1);
    assert_eq!(m.next_user_index(), 1);
}

#[test]
fn repeated_vends_spaced_by_cooldown_count_up() {
    let mut m = VendingMachine::new();
    let a = Address::repeat_byte(7);
    let mut t: u64 = 5;
    for n in 1..=10u64 {
        assert!(m.vend(a, t).is_ok());
        assert_eq!(m.balance_of(a), n);
        assert_eq!(m.next_user_index(), 1);
        t += VEND_COOLDOWN_SECONDS;
    }
}

#[test]
fn repeating_a_successful_vend_is_refused() {
    let mut m = VendingMachine::new();
    let a = Address::repeat_byte(3);
    assert!(m.vend(a, 1_000).is_ok());
    assert_eq!(m.vend(a, 1_000), Err(VendError::CooldownActive));
    assert_eq!(m.balance_of(a), 1);
    assert_eq!(m.next_user_index(), 1);
}

#[test]
fn cooldown_boundary_is_exact() {
    let mut m = VendingMachine::new();
    let a = Address::repeat_byte(4);
    assert!(m.vend(a, 100).is_ok());
    assert!(m.vend(a, 159).is_err());
    assert!(m.vend(a, 160).is_ok());
    assert_eq!(m.balance_of(a), 2);
}

#[test]
fn earlier_time_is_refused() {
    let mut m = VendingMachine::new();
    let a = Address::repeat_byte(4);
    assert!(m.vend(a, 500).is_ok());
    assert!(m.vend(a, 10).is_err());
    assert_eq!(m.balance_of(a), 1);
}

#[test]
fn unknown_identity_has_zero_balance() {
    let mut m = VendingMachine::new();
    assert_eq!(m.balance_of(Address::repeat_byte(9)), 0);
    assert_eq!(m.balance_of(Address::repeat_byte(0)), 0);
    assert!(m.vend(Address::repeat_byte(1), 0).is_ok());
    assert_eq!(m.balance_of(Address::repeat_byte(9)), 0);
}

#[test]
fn zero_identity_is_an_ordinary_caller() {
    let mut m = VendingMachine::new();
    let zero = Address::new([0u8; 20]);
    assert!(m.vend(zero, 0).is_ok());
    assert_eq!(m.balance_of(zero), 1);
    assert_eq!(m.next_user_index(), 1);
}

#[test]
fn vend_near_time_limit_does_not_overflow() {
    let mut m = VendingMachine::new();
    let a = Address::repeat_byte(5);
    assert!(m.vend(a, u64::MAX - 10).is_ok());
    assert!(m.vend(a, u64::MAX).is_err());
    assert_eq!(m.balance_of(a), 1);
}

#[test]
fn identities_differing_in_one_byte_are_distinct() {
    let mut m = VendingMachine::new();
    let mut bytes = [2u8; 20];
    let a = Address::new(bytes);
    bytes[19] = 3;
    let b = Address::new(bytes);
    assert!(a != b);
    assert!(m.vend(a, 0).is_ok());
    assert!(m.vend(b, 0).is_ok());
    assert_eq!(m.balance_of(a), 1);
    assert_eq!(m.balance_of(b), 1);
    assert_eq!(m.next_user_index(), 2);
}

#[test]
fn cooldown_message() {
    assert_eq!(
        VendError::CooldownActive.message(),
        "Cooldown: Please wait before requesting another cupcake."
    );
}

#[test]
fn store_round_trips_through_its_parts() {
    let mut m = VendingMachine::new();
    let a = Address::repeat_byte(1);
    let b = Address::repeat_byte(2);
    assert!(m.vend(a, 0).is_ok());
    assert!(m.vend(b, 0).is_ok());
    assert!(m.vend(a, 60).is_ok());
    let slots: Vec<Option<UserRecord>> = (0..MAX_USERS).map(|i| m.record_at(i)).collect();
    let mut r = VendingMachine::from_parts(slots, m.next_user_index()).unwrap();
    assert_eq!(r.balance_of(a), 2);
    assert_eq!(r.balance_of(b), 1);
    assert_eq!(r.next_user_index(), 2);
    assert!(r.vend(b, 30).is_err());
}

#[test]
fn from_parts_refuses_malformed_state() {
    let rec = |byte: u8, balance: u64, time: u64| {
        Some(UserRecord { user: Address::repeat_byte(byte), balance, last_vend_time: time })
    };
    let mut slots: Vec<Option<UserRecord>> = vec![None; MAX_USERS];
    assert!(VendingMachine::from_parts(slots.clone(), 0).is_some());
    assert!(VendingMachine::from_parts(slots.clone(), MAX_USERS).is_none());
    assert!(VendingMachine::from_parts(vec![None; MAX_USERS - 1], 0).is_none());
    slots[3] = rec(1, 2, 60);
    assert!(VendingMachine::from_parts(slots.clone(), 0).is_some());
    slots[7] = rec(1, 1, 0);
    assert!(VendingMachine::from_parts(slots.clone(), 0).is_none());
    slots[7] = rec(2, 0, 0);
    assert!(VendingMachine::from_parts(slots.clone(), 0).is_none());
    slots[7] = rec(2, 3, 119);
    assert!(VendingMachine::from_parts(slots.clone(), 0).is_none());
    slots[7] = rec(2, 3, 120);
    assert!(VendingMachine::from_parts(slots, 0).is_some());
}
