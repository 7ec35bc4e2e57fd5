use ledger::account::{Customer, Policy};
use ledger::amount::{parse_amount, Amount};
use ledger::cli::process_command_line;
use ledger::customers::{
    add_customer_transaction, compute_customer_state_from_transactions,
    compute_customer_state_from_transactions_with,
    organize_transactions_by_customer, CustomerMap,
};
use ledger::transaction::{parse_transaction, Action, InputTransaction, Rejection};
use rust_decimal::Decimal;
use std::str::FromStr;

const TRANSACTION_FILE_CONTENT: &str = r##"type,client,tx,amount
deposit, 1, 1, 1.0
deposit, 2, 2, 2.0
deposit, 1, 3, 2.0
withdrawal, 1, 4, 1.5
withdrawal, 2, 5, 3.0
badrecord, "##;

fn row(typ: &str, client: &str, tx: &str, amount: &str) -> InputTransaction {
    InputTransaction {
        typ: typ.to_string(),
        client: client.to_string(),
        tx: tx.to_string(),
        amount: amount.to_string(),
    }
}

fn dec(a: Amount) -> Decimal {
    Decimal::from_i128_with_scale(a.mantissa, a.scale)
}

fn d(s: &str) -> Decimal {
    Decimal::from_str(s).unwrap()
}

/// Decodes CSV text into rows; returns the rows and the number of records
/// that could not be read.
fn read_rows(text: &str) -> (Vec<InputTransaction>, usize) {
    let mut reader = csv::Reader::from_reader(text.as_bytes());
    let mut rows = Vec::new();
    let mut errors = 0;
    for record in reader.records() {
        match record {
            Ok(r) if r.len() == 4 => rows.push(row(&r[0], &r[1], &r[2], &r[3])),
            _ => errors += 1,
        }
    }
    (rows, errors)
}

fn ledger_of(rows: Vec<InputTransaction>) -> CustomerMap {
    let mut customers = CustomerMap::new();
    for r in rows {
        let _ = add_customer_transaction(r, &mut customers);
    }
    compute_customer_state_from_transactions(&mut customers);
    customers
}

fn balances(c: &Customer) -> (Decimal, Decimal, Decimal, bool) {
    (dec(c.available), dec(c.held), dec(c.total), c.locked)
}

#[test]
fn process_command_line_wrong_arg_count() {
    if let Ok(_) = process_command_line(vec!["exe".to_string()]) {
        panic!("No error for zero args")
    }
    if let Ok(_) = process_command_line(vec![
        "exe".to_string(),
        "apple".to_string(),
        "extra".to_string(),
    ]) {
        panic!("No error for two args")
    }
}

#[test]
fn run_test() {
    let (rows, errors) = read_rows(TRANSACTION_FILE_CONTENT);
    let mut customers = CustomerMap::new();
    let counts = organize_transactions_by_customer(&mut customers, &rows);
    let expected_transaction_count = TRANSACTION_FILE_CONTENT.lines().count() - 2; // 2 = 1 header record + 1 error record
    assert_eq!(expected_transaction_count, counts.read - counts.rejected);
    assert_eq!(1, errors);
}

#[test]
fn add_customer_transaction_test() {
    let tx1 = row("deposit", "1", "1", "1");
    let tx2 = row("deposit", "2", "2", "1");
    let tx3 = row("deposit", "1", "3", "1");
    let mut customers = CustomerMap::new();
    add_customer_transaction(tx1, &mut customers).unwrap();
    add_customer_transaction(tx2, &mut customers).unwrap();
    add_customer_transaction(tx3, &mut customers).unwrap();
    assert_eq!(2, customers.len());
    assert_eq!(2, customers.get(&1).unwrap().transactions.len());
    assert_eq!(1, customers.get(&2).unwrap().transactions.len());
}

#[test]
fn customer_state_test() {
    let mut customers = CustomerMap::new();
    add_customer_transaction(row("deposit", "1", "1", "1"), &mut customers).unwrap();
    add_customer_transaction(row("deposit", "2", "2", "1"), &mut customers).unwrap();
    add_customer_transaction(row("deposit", "1", "3", "3.5"), &mut customers).unwrap();
    add_customer_transaction(row("withdrawal", "1", "4", "2"), &mut customers).unwrap();
    compute_customer_state_from_transactions(&mut customers);
    let c1 = customers
        .get(&1)
        .expect("Expect to have a record for customer 1");
    assert_eq!(d("2.5"), dec(c1.total), "expected total to be 2.5. Record is {:?}", c1);
    assert_eq!(d("2.5"), dec(c1.available), "expected available to be 2.5. Record is {:?}", c1);
    assert_eq!(Decimal::ZERO, dec(c1.held));
    assert!(!c1.locked);
}

#[test]
fn end_to_end_example() {
    let (rows, errors) = read_rows(TRANSACTION_FILE_CONTENT);
    assert_eq!(1, errors);
    let customers = ledger_of(rows);
    assert_eq!(2, customers.len());
    assert_eq!(vec![1u32, 2], *customers.ids());
    let c1 = customers.get(&1).unwrap();
    assert_eq!((d("1.5"), Decimal::ZERO, d("1.5"), false), balances(c1));
    let c2 = customers.get(&2).unwrap();
    assert_eq!((d("-1.0"), Decimal::ZERO, d("-1.0"), false), balances(c2));
}

#[test]
fn balance_holds_after_each_deposit_and_withdrawal() {
    let steps = [
        row("deposit", "1", "1", "10.25"),
        row("withdrawal", "1", "2", "3"),
        row("deposit", "1", "3", "0.005"),
        row("withdrawal", "1", "4", "20"),
    ];
    let mut rows = Vec::new();
    for s in steps.iter() {
        rows.push(s.clone());
        let customers = ledger_of(rows.clone());
        let (available, held, total, _) = balances(customers.get(&1).unwrap());
        assert_eq!(total, available + held);
    }
    let customers = ledger_of(rows);
    assert_eq!(d("-12.745"), dec(customers.get(&1).unwrap().total));
}

#[test]
fn deposit_then_dispute_moves_amount_to_held() {
    let customers = ledger_of(vec![
        row("deposit", "1", "1", "5"),
        row("deposit", "1", "2", "2.5"),
        row("dispute", "1", "2", ""),
    ]);
    assert_eq!((d("5"), d("2.5"), d("7.5"), false), balances(customers.get(&1).unwrap()));
}

#[test]
fn dispute_of_unknown_id_changes_nothing() {
    let customers = ledger_of(vec![
        row("deposit", "1", "1", "5"),
        row("dispute", "1", "9", ""),
        row("dispute", "2", "1", ""),
    ]);
    assert_eq!((d("5"), Decimal::ZERO, d("5"), false), balances(customers.get(&1).unwrap()));
    assert_eq!((Decimal::ZERO, Decimal::ZERO, Decimal::ZERO, false), balances(customers.get(&2).unwrap()));
}

#[test]
fn resolve_restores_available() {
    let customers = ledger_of(vec![
        row("deposit", "1", "1", "5"),
        row("deposit", "1", "2", "1.25"),
        row("dispute", "1", "2", ""),
        row("resolve", "1", "2", ""),
    ]);
    assert_eq!((d("6.25"), Decimal::ZERO, d("6.25"), false), balances(customers.get(&1).unwrap()));
}

#[test]
fn chargeback_reduces_held_and_total_and_locks() {
    let customers = ledger_of(vec![
        row("deposit", "1", "1", "5"),
        row("deposit", "1", "2", "1.25"),
        row("dispute", "1", "2", ""),
        row("chargeback", "1", "2", ""),
    ]);
    let (available, held, total, locked) = balances(customers.get(&1).unwrap());
    assert_eq!((d("5"), Decimal::ZERO, d("5"), true), (available, held, total, locked));
    assert_eq!(total, available + held);
}

#[test]
fn second_chargeback_keeps_balance_equation() {
    let customers = ledger_of(vec![
        row("deposit", "1", "1", "4"),
        row("dispute", "1", "1", ""),
        row("chargeback", "1", "1", ""),
        row("chargeback", "1", "1", ""),
        row("resolve", "1", "1", ""),
    ]);
    let (available, held, total, locked) = balances(customers.get(&1).unwrap());
    assert!(locked);
    assert_eq!(total, available + held);
    assert_eq!((d("4"), d("-8"), d("-4")), (available, held, total));
}

#[test]
fn dispute_of_withdrawal_changes_nothing() {
    let customers = ledger_of(vec![
        row("deposit", "1", "1", "5"),
        row("withdrawal", "1", "2", "2"),
        row("dispute", "1", "2", ""),
        row("resolve", "1", "2", ""),
        row("chargeback", "1", "2", ""),
    ]);
    assert_eq!((d("3"), Decimal::ZERO, d("3"), false), balances(customers.get(&1).unwrap()));
}

#[test]
fn bad_amount_and_unknown_type_are_skipped() {
    let mut customers = CustomerMap::new();
    let rows = vec![
        row("deposit", "1", "1", "abc"),
        row("transfer", "1", "2", "1.0"),
        row("deposit", "3", "3", "1.0"),
    ];
    let counts = organize_transactions_by_customer(&mut customers, &rows);
    assert_eq!(3, counts.read);
    assert_eq!(2, counts.rejected);
    assert!(customers.get(&1).is_none());
    assert_eq!(1, customers.get(&3).unwrap().transactions.len());
    assert_eq!(1, customers.len());
}

#[test]
fn each_rejection_has_its_input() {
    assert_eq!(Err(Rejection::InvalidClientId), parse_transaction(&row("deposit", "x", "1", "1")).map(|_| ()));
    assert_eq!(Err(Rejection::InvalidClientId), parse_transaction(&row("deposit", "-1", "1", "1")).map(|_| ()));
    assert_eq!(Err(Rejection::InvalidTransactionId), parse_transaction(&row("deposit", "1", "4294967296", "1")).map(|_| ()));
    assert_eq!(Err(Rejection::UnknownKind), parse_transaction(&row("refund", "1", "1", "1")).map(|_| ()));
    assert_eq!(Err(Rejection::InvalidAmount), parse_transaction(&row("withdrawal", "1", "1", "")).map(|_| ()));
    assert!(parse_transaction(&row("dispute", "1", "1", "")).is_ok());
}

#[test]
fn type_and_ids_ignore_case_and_white_space() {
    let t = parse_transaction(&row("  DePosit ", " +7", "4294967295 ", " 12.50 ")).unwrap();
    assert_eq!(7, t.client);
    assert_eq!(4294967295, t.tx);
    match t.action {
        Action::Deposit(a) => assert_eq!(d("12.5"), dec(a)),
        _ => panic!("expected a deposit"),
    }
}

#[test]
fn parse_amount_reads_exact_decimals() {
    let a = parse_amount("-0.0001").unwrap();
    assert_eq!((-1, 4), (a.mantissa, a.scale));
    assert!(parse_amount("1.2.3").is_none());
    assert!(parse_amount("79228162514264337593543950336").is_none());
}

#[test]
fn overflowing_deposit_is_rejected() {
    let customers = ledger_of(vec![
        row("deposit", "1", "1", "79228162514264337593543950335"),
        row("deposit", "1", "2", "1"),
        row("withdrawal", "1", "3", "1"),
    ]);
    let (available, held, total, _) = balances(customers.get(&1).unwrap());
    assert_eq!(d("79228162514264337593543950334"), total);
    assert_eq!(total, available + held);
}

#[test]
fn command_line_with_one_argument_names_the_input() {
    assert_eq!(Ok("in.csv".to_string()), process_command_line(vec!["exe".to_string(), "in.csv".to_string()]));
}

fn ledger_under(rows: Vec<InputTransaction>, policy: Policy) -> CustomerMap {
    let mut customers = CustomerMap::new();
    organize_transactions_by_customer(&mut customers, &rows);
    compute_customer_state_from_transactions_with(&mut customers, policy);
    customers
}

#[test]
fn overdraft_allowed_or_rejected_by_policy() {
    let rows = vec![
        row("deposit", "2", "2", "2.0"),
        row("withdrawal", "2", "5", "3.0"),
        row("withdrawal", "2", "6", "2.0"),
    ];
    let permissive = ledger_under(rows.clone(), Policy::permissive());
    assert_eq!((d("-3.0"), Decimal::ZERO, d("-3.0"), false), balances(permissive.get(&2).unwrap()));
    let strict = Policy { reject_overdraft: true, freeze_locked: false };
    let checked = ledger_under(rows, strict);
    assert_eq!((Decimal::ZERO, Decimal::ZERO, Decimal::ZERO, false), balances(checked.get(&2).unwrap()));
}

#[test]
fn locked_account_frozen_or_not_by_policy() {
    let rows = vec![
        row("deposit", "1", "1", "5"),
        row("deposit", "1", "2", "1"),
        row("dispute", "1", "2", ""),
        row("chargeback", "1", "2", ""),
        row("deposit", "1", "3", "10"),
    ];
    let open = ledger_under(rows.clone(), Policy::permissive());
    assert_eq!((d("15"), Decimal::ZERO, d("15"), true), balances(open.get(&1).unwrap()));
    let frozen = ledger_under(rows, Policy { reject_overdraft: false, freeze_locked: true });
    assert_eq!((d("5"), Decimal::ZERO, d("5"), true), balances(frozen.get(&1).unwrap()));
}
