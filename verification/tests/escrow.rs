use escrow_vault::derive::derive_address;
use escrow_vault::errors::ErrorCode;
use escrow_vault::handlers::create_bank;
use escrow_vault::handlers::withdraw_bank;
use escrow_vault::pubkey::Pubkey;
use escrow_vault::seed::timestamp_seed;
use escrow_vault::world::World;

fn key(b: u8) -> Pubkey {
    Pubkey::new(vec![b; 32]).unwrap()
}

#[test]
fn pubkey_accepts_only_32_bytes() {
    assert!(Pubkey::new(vec![1; 32]).is_some());
    assert!(Pubkey::new(vec![1; 31]).is_none());
    assert!(Pubkey::new(vec![1; 33]).is_none());
    assert!(Pubkey::new(Vec::new()).is_none());
}

#[test]
fn timestamp_seed_writes_decimal() {
    assert_eq!(timestamp_seed(0), b"0".to_vec());
    assert_eq!(timestamp_seed(7), b"7".to_vec());
    assert_eq!(timestamp_seed(1694890000), b"1694890000".to_vec());
    assert_eq!(timestamp_seed(-5), b"-5".to_vec());
    assert_eq!(timestamp_seed(i64::MAX), b"9223372036854775807".to_vec());
    assert_eq!(timestamp_seed(i64::MIN), b"-9223372036854775808".to_vec());
}

#[test]
fn derive_address_is_deterministic() {
    let (a1, bump1) = derive_address(&key(1), &key(2), 1000).unwrap();
    let (a2, bump2) = derive_address(&key(1), &key(2), 1000).unwrap();
    assert_eq!(a1.bytes(), a2.bytes());
    assert_eq!(bump1, bump2);
}

#[test]
fn derive_address_depends_on_the_triple() {
    let (a, _) = derive_address(&key(1), &key(2), 1000).unwrap();
    let (b, _) = derive_address(&key(1), &key(3), 1000).unwrap();
    let (c, _) = derive_address(&key(1), &key(2), 1001).unwrap();
    let (d, _) = derive_address(&key(4), &key(2), 1000).unwrap();
    assert_eq!(a.bytes().len(), 32);
    assert_ne!(a.bytes(), b.bytes());
    assert_ne!(a.bytes(), c.bytes());
    assert_ne!(a.bytes(), d.bytes());
    assert_ne!(a.bytes(), key(1).bytes());
    assert_ne!(a.bytes(), key(2).bytes());
}

#[test]
fn unlock_time_gates_withdrawal() {
    let mut w = World::new();
    assert!(w.fund(key(1), 100));
    assert_eq!(create_bank(&mut w, key(1), key(2), 1000, 100), Ok(()));
    assert_eq!(w.balance(&key(1)), 0);
    assert_eq!(w.total_supply(), 100);
    let (address, _) = derive_address(&key(1), &key(2), 1000).unwrap();
    assert!(w.has_record(&address));

    let early = withdraw_bank(&mut w, &key(2), &key(1), &key(2), 1000, 999);
    assert_eq!(early, Err(ErrorCode::HandsTooWeak));
    assert!(w.has_record(&address));
    assert_eq!(w.balance(&key(2)), 0);

    let on_time = withdraw_bank(&mut w, &key(2), &key(1), &key(2), 1000, 1000);
    assert_eq!(on_time, Ok(()));
    assert_eq!(w.balance(&key(2)), 100);
    assert_eq!(w.total_supply(), 100);
    assert!(!w.has_record(&address));
    assert!(w.read_record(&address).is_err());
}

#[test]
fn withdrawal_happens_exactly_once() {
    let mut w = World::new();
    assert!(w.fund(key(1), 100));
    assert_eq!(create_bank(&mut w, key(1), key(2), 50, 100), Ok(()));
    assert_eq!(withdraw_bank(&mut w, &key(2), &key(1), &key(2), 50, 60), Ok(()));
    let again = withdraw_bank(&mut w, &key(2), &key(1), &key(2), 50, 60);
    assert_eq!(again, Err(ErrorCode::NotFound));
    assert_eq!(w.balance(&key(2)), 100);
}

#[test]
fn wrong_caller_is_refused() {
    let mut w = World::new();
    assert!(w.fund(key(1), 100));
    assert_eq!(create_bank(&mut w, key(1), key(2), 1000, 100), Ok(()));
    let wrong = withdraw_bank(&mut w, &key(9), &key(1), &key(2), 1000, 2000);
    assert_eq!(wrong, Err(ErrorCode::WrongAccount));
    let (address, _) = derive_address(&key(1), &key(2), 1000).unwrap();
    assert!(w.has_record(&address));
    assert_eq!(w.balance(&key(9)), 0);
    assert_eq!(w.balance(&key(2)), 0);
}

#[test]
fn double_create_is_refused() {
    let mut w = World::new();
    assert!(w.fund(key(1), 200));
    assert_eq!(create_bank(&mut w, key(1), key(2), 1000, 100), Ok(()));
    let second = create_bank(&mut w, key(1), key(2), 1000, 50);
    assert_eq!(second, Err(ErrorCode::AlreadyExists));
    assert_eq!(w.balance(&key(1)), 100);
    assert_eq!(w.total_supply(), 200);
    let (address, _) = derive_address(&key(1), &key(2), 1000).unwrap();
    let record = w.read_record(&address).unwrap();
    assert_eq!(record.amount, 100);
}

#[test]
fn insufficient_funds_moves_nothing() {
    let mut w = World::new();
    assert!(w.fund(key(1), 50));
    let refused = create_bank(&mut w, key(1), key(2), 1000, 100);
    assert_eq!(refused, Err(ErrorCode::InsufficientFunds));
    assert_eq!(w.balance(&key(1)), 50);
    assert_eq!(w.total_supply(), 50);
    let (address, _) = derive_address(&key(1), &key(2), 1000).unwrap();
    assert!(!w.has_record(&address));
}

#[test]
fn withdraw_without_record_is_not_found() {
    let mut w = World::new();
    let missing = withdraw_bank(&mut w, &key(2), &key(1), &key(2), 1000, 2000);
    assert_eq!(missing, Err(ErrorCode::NotFound));
}

#[test]
fn zero_amount_escrow_is_accepted() {
    let mut w = World::new();
    assert_eq!(create_bank(&mut w, key(1), key(2), 10, 0), Ok(()));
    let (address, _) = derive_address(&key(1), &key(2), 10).unwrap();
    assert_eq!(w.read_record(&address).unwrap().amount, 0);
    assert_eq!(withdraw_bank(&mut w, &key(2), &key(1), &key(2), 10, 10), Ok(()));
    assert_eq!(w.balance(&key(2)), 0);
    assert!(!w.has_record(&address));
}

#[test]
fn negative_unlock_time_works() {
    let mut w = World::new();
    assert!(w.fund(key(1), 30));
    assert_eq!(create_bank(&mut w, key(1), key(2), -100, 30), Ok(()));
    let early = withdraw_bank(&mut w, &key(2), &key(1), &key(2), -100, -101);
    assert_eq!(early, Err(ErrorCode::HandsTooWeak));
    let late = withdraw_bank(&mut w, &key(2), &key(1), &key(2), -100, -50);
    assert_eq!(late, Ok(()));
    assert_eq!(w.balance(&key(2)), 30);
}

#[test]
fn triple_is_reusable_after_withdrawal() {
    let mut w = World::new();
    assert!(w.fund(key(1), 200));
    assert_eq!(create_bank(&mut w, key(1), key(2), 77, 120), Ok(()));
    assert_eq!(withdraw_bank(&mut w, &key(2), &key(1), &key(2), 77, 77), Ok(()));
    assert_eq!(create_bank(&mut w, key(1), key(2), 77, 80), Ok(()));
    assert_eq!(w.balance(&key(1)), 0);
    let (address, _) = derive_address(&key(1), &key(2), 77).unwrap();
    assert_eq!(w.read_record(&address).unwrap().amount, 80);
}

#[test]
fn record_holds_the_creation_fields() {
    let mut w = World::new();
    assert!(w.fund(key(7), 500));
    assert_eq!(create_bank(&mut w, key(7), key(8), 12345, 250), Ok(()));
    let (address, bump) = derive_address(&key(7), &key(8), 12345).unwrap();
    let record = w.read_record(&address).unwrap();
    assert_eq!(record.sender.bytes(), key(7).bytes());
    assert_eq!(record.receiver.bytes(), key(8).bytes());
    assert_eq!(record.amount, 250);
    assert_eq!(record.timestamp, 12345);
    assert_eq!(record.bump, bump);
}

#[test]
fn funding_cannot_overflow_the_supply() {
    let mut w = World::new();
    assert!(w.fund(key(1), u64::MAX));
    assert!(!w.fund(key(2), 1));
    assert_eq!(w.total_supply(), u64::MAX);
    assert_eq!(w.balance(&key(2)), 0);
}
