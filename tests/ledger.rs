use confpay::address::{employee_address, payroll_address, same_address, Address};
use confpay::ledger::{
    AddEmployee, InitializePayroll, Ledger, PayEmployee, RemoveEmployee, UpdateEmployee,
};
use confpay::records::{authorize, fits, CustomError, Employee, Payroll, Record, EMPLOYEE_SPACE, PAYROLL_SPACE};
use confpay::schedule::{classify, next_payment, weekly, Schedule};

const PROGRAM: Address = [7u8; 32];
const ADMIN: Address = [1u8; 32];
const OTHER: Address = [9u8; 32];

fn wallet(n: u8) -> Address {
    let mut w = [0u8; 32];
    w[0] = 0xAA;
    w[31] = n;
    w
}

fn setup(company: &str) -> (Ledger, Address) {
    let mut l = Ledger::new(PROGRAM);
    let p = l
        .initialize_payroll(InitializePayroll { admin: ADMIN }, company.to_string())
        .unwrap();
    (l, p)
}

fn add(l: &mut Ledger, payroll: Address, w: Address, schedule: &str, next: i64) -> Result<Address, CustomError> {
    l.add_employee(
        AddEmployee { admin: ADMIN, payroll, employee_wallet: w },
        "Ada".to_string(),
        "Engineer".to_string(),
        vec![1, 2, 3],
        1,
        "1234".to_string(),
        schedule.to_string(),
        next,
    )
}

fn payroll_of(l: &Ledger, a: &Address) -> Payroll {
    match l.read(a) {
        Ok(Record::Payroll(p)) => Payroll {
            admin: p.admin,
            employee_count: p.employee_count,
            company_name: p.company_name.clone(),
        },
        other => panic!("no payroll: {:?}", other),
    }
}

fn employee_of<'a>(l: &'a Ledger, a: &Address) -> &'a Employee {
    match l.read(a) {
        Ok(Record::Employee(e)) => e,
        other => panic!("no employee: {:?}", other),
    }
}

fn remove(l: &mut Ledger, admin: Address, payroll: Address, w: Address) -> Result<u64, CustomError> {
    l.remove_employee(RemoveEmployee { admin, payroll, employee_wallet: w })
}

#[test]
fn initialize_then_read_gives_empty_payroll() {
    let (l, p) = setup("Acme");
    assert_eq!(Some(p), payroll_address(&PROGRAM, &ADMIN));
    let rec = payroll_of(&l, &p);
    assert_eq!(rec.employee_count, 0);
    assert_eq!(rec.company_name, "Acme");
    assert_eq!(rec.admin, ADMIN);
}

#[test]
fn initialize_twice_already_exists() {
    let (mut l, _) = setup("Acme");
    let r = l.initialize_payroll(InitializePayroll { admin: ADMIN }, "Other".to_string());
    assert_eq!(r, Err(CustomError::AlreadyExists));
    assert_eq!(payroll_of(&l, &payroll_address(&PROGRAM, &ADMIN).unwrap()).company_name, "Acme");
}

#[test]
fn company_name_capacity() {
    let mut l = Ledger::new(PROGRAM);
    let long = "x".repeat(51);
    let r = l.initialize_payroll(InitializePayroll { admin: ADMIN }, long);
    assert_eq!(r, Err(CustomError::CapacityExceeded));
    let r = l.initialize_payroll(InitializePayroll { admin: ADMIN }, "x".repeat(50));
    assert!(r.is_ok());
}

#[test]
fn read_missing_is_not_found() {
    let l = Ledger::new(PROGRAM);
    assert!(matches!(l.read(&OTHER), Err(CustomError::NotFound)));
    assert_eq!(l.balance(&OTHER), 0);
}

#[test]
fn count_after_additions_and_removals() {
    let (mut l, p) = setup("Acme");
    for n in 0..3u8 {
        add(&mut l, p, wallet(n), "Weekly", 0).unwrap();
    }
    assert_eq!(payroll_of(&l, &p).employee_count, 3);
    remove(&mut l, ADMIN, p, wallet(0)).unwrap();
    remove(&mut l, ADMIN, p, wallet(1)).unwrap();
    assert_eq!(payroll_of(&l, &p).employee_count, 1);
    remove(&mut l, ADMIN, p, wallet(2)).unwrap();
    assert_eq!(payroll_of(&l, &p).employee_count, 0);
    assert_eq!(remove(&mut l, ADMIN, p, wallet(2)), Err(CustomError::NotFound));
    assert_eq!(payroll_of(&l, &p).employee_count, 0);
}

#[test]
fn add_employee_stores_fields() {
    let (mut l, p) = setup("Acme");
    let e = add(&mut l, p, wallet(1), "Monthly", 77).unwrap();
    assert_eq!(Some(e), employee_address(&PROGRAM, &p, &wallet(1)));
    let rec = employee_of(&l, &e);
    assert_eq!(rec.payroll, p);
    assert_eq!(rec.wallet, wallet(1));
    assert_eq!(rec.name, "Ada");
    assert_eq!(rec.role, "Engineer");
    assert_eq!(rec.pin, "1234");
    assert_eq!(rec.schedule, "Monthly");
    assert_eq!(rec.ciphertext, vec![1, 2, 3]);
    assert_eq!(rec.input_type, 1);
    assert_eq!(rec.next_payment_ts, 77);
    assert_eq!(rec.last_paid_ts, 0);
}

#[test]
fn add_same_wallet_twice_already_exists() {
    let (mut l, p) = setup("Acme");
    add(&mut l, p, wallet(1), "Weekly", 0).unwrap();
    assert_eq!(add(&mut l, p, wallet(1), "Weekly", 0), Err(CustomError::AlreadyExists));
    assert_eq!(payroll_of(&l, &p).employee_count, 1);
}

#[test]
fn add_by_non_admin_unauthorized() {
    let (mut l, p) = setup("Acme");
    let r = l.add_employee(
        AddEmployee { admin: OTHER, payroll: p, employee_wallet: wallet(1) },
        "A".to_string(),
        "B".to_string(),
        vec![],
        0,
        "1".to_string(),
        "Weekly".to_string(),
        0,
    );
    assert_eq!(r, Err(CustomError::Unauthorized));
    assert_eq!(payroll_of(&l, &p).employee_count, 0);
}

#[test]
fn add_under_missing_payroll_not_found() {
    let mut l = Ledger::new(PROGRAM);
    assert_eq!(add(&mut l, OTHER, wallet(1), "Weekly", 0), Err(CustomError::NotFound));
}

#[test]
fn ciphertext_boundary() {
    let (mut l, p) = setup("Acme");
    let at_max = l.add_employee(
        AddEmployee { admin: ADMIN, payroll: p, employee_wallet: wallet(1) },
        "A".to_string(),
        "B".to_string(),
        vec![0xCD; 256],
        2,
        "1".to_string(),
        "Weekly".to_string(),
        0,
    );
    assert!(at_max.is_ok());
    let over = l.add_employee(
        AddEmployee { admin: ADMIN, payroll: p, employee_wallet: wallet(2) },
        "A".to_string(),
        "B".to_string(),
        vec![0xCD; 257],
        2,
        "1".to_string(),
        "Weekly".to_string(),
        0,
    );
    assert_eq!(over, Err(CustomError::CapacityExceeded));
    assert_eq!(payroll_of(&l, &p).employee_count, 1);
}

#[test]
fn pin_capacity_exceeded() {
    let (mut l, p) = setup("Acme");
    let r = l.add_employee(
        AddEmployee { admin: ADMIN, payroll: p, employee_wallet: wallet(1) },
        "A".to_string(),
        "B".to_string(),
        vec![],
        0,
        "12345678901".to_string(),
        "Weekly".to_string(),
        0,
    );
    assert_eq!(r, Err(CustomError::CapacityExceeded));
}

#[test]
fn weekly_payment_advances_one_week() {
    let (mut l, p) = setup("Acme");
    let e = add(&mut l, p, wallet(1), "Weekly", 0).unwrap();
    l.pay_employee(PayEmployee { payroll: p, employee: e }, 5000).unwrap();
    let rec = employee_of(&l, &e);
    assert_eq!(rec.next_payment_ts, 5000 + 604800);
    assert_eq!(rec.last_paid_ts, 5000);
    assert_eq!(rec.schedule, "Weekly");
}

#[test]
fn bi_weekly_payment_advances_two_weeks() {
    let (mut l, p) = setup("Acme");
    let e = add(&mut l, p, wallet(1), "Bi-Weekly", 0).unwrap();
    l.pay_employee(PayEmployee { payroll: p, employee: e }, 10).unwrap();
    let rec = employee_of(&l, &e);
    assert_eq!(rec.next_payment_ts, 10 + 1209600);
    assert_eq!(rec.schedule, "Bi-Weekly");
}

#[test]
fn unrecognized_schedule_becomes_weekly() {
    let (mut l, p) = setup("Acme");
    let e = add(&mut l, p, wallet(1), "Unrecognized", 0).unwrap();
    l.pay_employee(PayEmployee { payroll: p, employee: e }, 3000).unwrap();
    let rec = employee_of(&l, &e);
    assert_eq!(rec.schedule, "Weekly");
    assert_eq!(rec.next_payment_ts, 3000 + 604800);
    assert_eq!(rec.last_paid_ts, 3000);
}

#[test]
fn payment_overflow_changes_nothing() {
    let (mut l, p) = setup("Acme");
    let e = add(&mut l, p, wallet(1), "Monthly", 5).unwrap();
    let r = l.pay_employee(PayEmployee { payroll: p, employee: e }, i64::MAX - 10);
    assert_eq!(r, Err(CustomError::ArithmeticOverflow));
    let rec = employee_of(&l, &e);
    assert_eq!(rec.next_payment_ts, 5);
    assert_eq!(rec.last_paid_ts, 0);
    assert!(l.events().is_empty());
}

#[test]
fn payment_under_other_payroll_not_found() {
    let (mut l, p) = setup("Acme");
    let q = l.initialize_payroll(InitializePayroll { admin: OTHER }, "Globex".to_string()).unwrap();
    let e = add(&mut l, p, wallet(1), "Weekly", 0).unwrap();
    let r = l.pay_employee(PayEmployee { payroll: q, employee: e }, 100);
    assert_eq!(r, Err(CustomError::NotFound));
    assert!(l.events().is_empty());
    let r = l.pay_employee(PayEmployee { payroll: p, employee: wallet(5) }, 100);
    assert_eq!(r, Err(CustomError::NotFound));
}

#[test]
fn payroll_scenario_with_monthly_payment() {
    let mut l = Ledger::new(PROGRAM);
    let p = l.initialize_payroll(InitializePayroll { admin: ADMIN }, "Acme".to_string()).unwrap();
    let e = add(&mut l, p, wallet(1), "Monthly", 0).unwrap();
    l.pay_employee(PayEmployee { payroll: p, employee: e }, 1000).unwrap();
    let rec = employee_of(&l, &e);
    assert_eq!(rec.last_paid_ts, 1000);
    assert_eq!(rec.next_payment_ts, 2593000);
    assert_eq!(l.events().len(), 1);
    assert_eq!(l.events()[0].payroll, p);
    assert_eq!(l.events()[0].employee, employee_address(&PROGRAM, &p, &wallet(1)).unwrap());
}

#[test]
fn update_employee_overwrites_fields() {
    let (mut l, p) = setup("Acme");
    let e = add(&mut l, p, wallet(1), "Weekly", 0).unwrap();
    l.pay_employee(PayEmployee { payroll: p, employee: e }, 50).unwrap();
    l.update_employee(
        UpdateEmployee { admin: ADMIN, payroll: p, employee_wallet: wallet(1) },
        "Grace".to_string(),
        "Lead".to_string(),
        vec![9; 10],
        3,
        "99".to_string(),
        "Monthly".to_string(),
        4242,
    )
    .unwrap();
    let rec = employee_of(&l, &e);
    assert_eq!(rec.name, "Grace");
    assert_eq!(rec.role, "Lead");
    assert_eq!(rec.ciphertext, vec![9; 10]);
    assert_eq!(rec.input_type, 3);
    assert_eq!(rec.pin, "99");
    assert_eq!(rec.schedule, "Monthly");
    assert_eq!(rec.next_payment_ts, 4242);
    assert_eq!(rec.last_paid_ts, 50);
    assert_eq!(rec.wallet, wallet(1));
    assert_eq!(rec.payroll, p);
}

#[test]
fn update_by_non_admin_unauthorized() {
    let (mut l, p) = setup("Acme");
    let e = add(&mut l, p, wallet(1), "Weekly", 0).unwrap();
    let r = l.update_employee(
        UpdateEmployee { admin: OTHER, payroll: p, employee_wallet: wallet(1) },
        "Mallory".to_string(),
        "x".to_string(),
        vec![],
        0,
        "0".to_string(),
        "Weekly".to_string(),
        0,
    );
    assert_eq!(r, Err(CustomError::Unauthorized));
    assert_eq!(employee_of(&l, &e).name, "Ada");
}

#[test]
fn update_missing_employee_not_found() {
    let (mut l, p) = setup("Acme");
    let r = l.update_employee(
        UpdateEmployee { admin: ADMIN, payroll: p, employee_wallet: wallet(3) },
        "A".to_string(),
        "B".to_string(),
        vec![],
        0,
        "0".to_string(),
        "Weekly".to_string(),
        0,
    );
    assert_eq!(r, Err(CustomError::NotFound));
}

#[test]
fn removal_by_non_admin_changes_nothing() {
    let (mut l, p) = setup("Acme");
    let e = add(&mut l, p, wallet(1), "Weekly", 0).unwrap();
    l.deposit(&e, 500).unwrap();
    assert_eq!(remove(&mut l, OTHER, p, wallet(1)), Err(CustomError::Unauthorized));
    assert_eq!(employee_of(&l, &e).name, "Ada");
    assert_eq!(payroll_of(&l, &p).employee_count, 1);
    assert_eq!(l.balance(&e), 500);
    assert_eq!(l.balance(&OTHER), 0);
}

#[test]
fn removal_sweeps_value_to_admin() {
    let (mut l, p) = setup("Acme");
    let e = add(&mut l, p, wallet(1), "Weekly", 0).unwrap();
    l.deposit(&e, 1_500).unwrap();
    l.deposit(&ADMIN, 10).unwrap();
    assert_eq!(remove(&mut l, ADMIN, p, wallet(1)), Ok(1_500));
    assert!(matches!(l.read(&e), Err(CustomError::NotFound)));
    assert_eq!(l.balance(&e), 0);
    assert_eq!(l.balance(&ADMIN), 1_510);
    assert_eq!(payroll_of(&l, &p).employee_count, 0);
}

#[test]
fn removal_overflow_changes_nothing() {
    let (mut l, p) = setup("Acme");
    let e = add(&mut l, p, wallet(1), "Weekly", 0).unwrap();
    l.deposit(&e, 2).unwrap();
    l.deposit(&ADMIN, u64::MAX - 1).unwrap();
    assert_eq!(remove(&mut l, ADMIN, p, wallet(1)), Err(CustomError::ArithmeticOverflow));
    assert_eq!(l.balance(&e), 2);
    assert_eq!(payroll_of(&l, &p).employee_count, 1);
}

#[test]
fn deposit_overflow() {
    let mut l = Ledger::new(PROGRAM);
    l.deposit(&OTHER, u64::MAX).unwrap();
    assert_eq!(l.deposit(&OTHER, 1), Err(CustomError::ArithmeticOverflow));
    assert_eq!(l.balance(&OTHER), u64::MAX);
}

#[test]
fn derived_addresses_deterministic_and_distinct() {
    let a1 = payroll_address(&PROGRAM, &ADMIN).unwrap();
    let a2 = payroll_address(&PROGRAM, &ADMIN).unwrap();
    assert_eq!(a1, a2);
    assert_ne!(a1, payroll_address(&PROGRAM, &OTHER).unwrap());
    assert_ne!(a1, ADMIN);
    assert_ne!(a1, PROGRAM);
    let e1 = employee_address(&PROGRAM, &a1, &wallet(1)).unwrap();
    assert_eq!(e1, employee_address(&PROGRAM, &a1, &wallet(1)).unwrap());
    assert_ne!(e1, employee_address(&PROGRAM, &a1, &wallet(2)).unwrap());
    assert_ne!(e1, a1);
    assert_ne!(a1, payroll_address(&[8u8; 32], &ADMIN).unwrap());
}

#[test]
fn storage_sizes() {
    assert_eq!(PAYROLL_SPACE, 252);
    assert_eq!(EMPLOYEE_SPACE, 813);
}

#[test]
fn schedule_classification() {
    assert_eq!(classify(&"Weekly".to_string()), Schedule::Weekly);
    assert_eq!(classify(&"Bi-Weekly".to_string()), Schedule::BiWeekly);
    assert_eq!(classify(&"Monthly".to_string()), Schedule::Monthly);
    assert_eq!(classify(&"weekly".to_string()), Schedule::Custom);
    assert_eq!(classify(&"".to_string()), Schedule::Custom);
    assert_eq!(weekly(), "Weekly");
}

#[test]
fn next_payment_times() {
    assert_eq!(next_payment(Schedule::Weekly, 0), Some(604800));
    assert_eq!(next_payment(Schedule::BiWeekly, 0), Some(1209600));
    assert_eq!(next_payment(Schedule::Monthly, 1000), Some(2593000));
    assert_eq!(next_payment(Schedule::Custom, -604800), Some(0));
    assert_eq!(next_payment(Schedule::Weekly, i64::MAX - 604799), None);
    assert_eq!(next_payment(Schedule::Weekly, i64::MAX - 604800), Some(i64::MAX));
}

#[test]
fn character_limits_count_characters() {
    assert!(fits(&"é".repeat(10), 10));
    assert!(!fits(&"é".repeat(11), 10));
    assert!(fits(&String::new(), 0));
}

#[test]
fn authorization_and_address_comparison() {
    let p = Payroll { admin: ADMIN, employee_count: 0, company_name: "Acme".to_string() };
    assert_eq!(authorize(&ADMIN, &p), Ok(()));
    assert_eq!(authorize(&OTHER, &p), Err(CustomError::Unauthorized));
    assert!(same_address(&ADMIN, &ADMIN));
    let mut near = ADMIN;
    near[31] = 2;
    assert!(!same_address(&ADMIN, &near));
}

#[test]
fn update_of_missing_record_is_not_found_for_anyone() {
    let (mut l, p) = setup("Acme");
    let r = l.update_employee(
        UpdateEmployee { admin: OTHER, payroll: p, employee_wallet: wallet(4) },
        "A".to_string(),
        "B".to_string(),
        vec![0; 300],
        0,
        "0".to_string(),
        "Weekly".to_string(),
        0,
    );
    assert_eq!(r, Err(CustomError::NotFound));
    let r = l.update_employee(
        UpdateEmployee { admin: ADMIN, payroll: p, employee_wallet: wallet(4) },
        "A".to_string(),
        "B".to_string(),
        vec![0; 300],
        0,
        "0".to_string(),
        "Weekly".to_string(),
        0,
    );
    assert_eq!(r, Err(CustomError::NotFound));
    assert!(matches!(
        l.read(&employee_address(&PROGRAM, &p, &wallet(4)).unwrap()),
        Err(CustomError::NotFound)
    ));
}

#[test]
fn update_with_oversized_fields_is_capacity_exceeded() {
    let (mut l, p) = setup("Acme");
    let e = add(&mut l, p, wallet(1), "Weekly", 0).unwrap();
    let r = l.update_employee(
        UpdateEmployee { admin: ADMIN, payroll: p, employee_wallet: wallet(1) },
        "A".to_string(),
        "B".to_string(),
        vec![0; 257],
        0,
        "0".to_string(),
        "Weekly".to_string(),
        0,
    );
    assert_eq!(r, Err(CustomError::CapacityExceeded));
    assert_eq!(employee_of(&l, &e).ciphertext, vec![1, 2, 3]);
}

#[test]
fn removal_of_missing_record_not_found_for_admin_unauthorized_for_others() {
    let (mut l, p) = setup("Acme");
    assert_eq!(remove(&mut l, OTHER, p, wallet(6)), Err(CustomError::Unauthorized));
    assert_eq!(remove(&mut l, ADMIN, p, wallet(6)), Err(CustomError::NotFound));
    assert_eq!(payroll_of(&l, &p).employee_count, 0);
}

#[test]
fn add_over_existing_record_is_already_exists_for_anyone() {
    let (mut l, p) = setup("Acme");
    add(&mut l, p, wallet(1), "Weekly", 0).unwrap();
    let r = l.add_employee(
        AddEmployee { admin: OTHER, payroll: p, employee_wallet: wallet(1) },
        "A".to_string(),
        "B".to_string(),
        vec![],
        0,
        "1".to_string(),
        "Weekly".to_string(),
        0,
    );
    assert_eq!(r, Err(CustomError::AlreadyExists));
    assert_eq!(payroll_of(&l, &p).employee_count, 1);
}

#[test]
fn non_ascii_text_counts_characters() {
    let (mut l, p) = setup("Acme");
    let e = l
        .add_employee(
            AddEmployee { admin: ADMIN, payroll: p, employee_wallet: wallet(8) },
            "é".repeat(50),
            "ü".repeat(32),
            vec![0; 256],
            0,
            "€".repeat(10),
            "週".repeat(20),
            0,
        )
        .unwrap();
    let rec = employee_of(&l, &e);
    let encoded = 8 + 32 + 32 + (4 + rec.name.len()) + (4 + rec.role.len()) + (4 + rec.pin.len())
        + (4 + rec.schedule.len()) + (4 + rec.ciphertext.len()) + 1 + 8 + 8;
    assert!(encoded <= EMPLOYEE_SPACE);
    let r = l.add_employee(
        AddEmployee { admin: ADMIN, payroll: p, employee_wallet: wallet(9) },
        "é".repeat(51),
        "B".to_string(),
        vec![],
        0,
        "1".to_string(),
        "Weekly".to_string(),
        0,
    );
    assert_eq!(r, Err(CustomError::CapacityExceeded));
}
