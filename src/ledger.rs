//! The record store: storage slots at derived addresses, each with an
//! attached value balance, an allocated size and an optional record, plus the
//! append-only log of payment events.
use vstd::prelude::*;
use crate::address::{
    employee_address, employee_address_of, payroll_address, payroll_address_of, same_address,
    Address,
};
use crate::schedule::{
    classify, next_payment, next_payment_after, schedule_of, tag_after_payment, weekly, Schedule,
};
use crate::records::{
    authorize, check_employee_fields, employee_fields_fit, encoded_size, fits,
    lemma_utf8_len_bound, CustomError, Employee,
    EmployeePaid, Payroll, Record, COMPANY_NAME_MAX, EMPLOYEE_SPACE, PAYROLL_SPACE,
};

verus! {

/// One storage slot: its value balance, its allocated bytes and its record.
#[derive(Debug)]
pub struct Account {
    pub lamports: u64,
    pub space: usize,
    pub data: Option<Record>,
}

/// Whether a slot holds a record within its field limits, in the storage
/// size of its kind.
pub open spec fn sized(acct: Account) -> bool {
    match acct.data {
        None => true,
        Some(Record::Payroll(p)) => p.company_name@.len() <= COMPANY_NAME_MAX && acct.space
            == PAYROLL_SPACE,
        Some(Record::Employee(e)) => employee_fields_fit(
            e.name@,
            e.role@,
            e.ciphertext@,
            e.pin@,
            e.schedule@,
        ) && acct.space == EMPLOYEE_SPACE,
    }
}

/// The state of a slot that nothing was ever written to.
pub open spec fn vacant() -> Account {
    Account { lamports: 0, space: 0, data: None }
}

impl Account {
    pub open spec fn with_lamports(self, lamports: u64) -> Account {
        Account { lamports, space: self.space, data: self.data }
    }
}

fn vacant_account() -> (r: Account)
    ensures
        r == vacant(),
{
    Account { lamports: 0, space: 0, data: None }
}

/// The keys that payroll initialization touches.
#[derive(Clone, Copy, Debug)]
pub struct InitializePayroll {
    /// The new administrator, who signs and pays.
    pub admin: Address,
}

/// The keys that adding an employee touches.
#[derive(Clone, Copy, Debug)]
pub struct AddEmployee {
    pub admin: Address,
    pub payroll: Address,
    pub employee_wallet: Address,
}

/// The keys that updating an employee touches.
#[derive(Clone, Copy, Debug)]
pub struct UpdateEmployee {
    pub admin: Address,
    pub payroll: Address,
    pub employee_wallet: Address,
}

/// The keys that removing an employee touches.
#[derive(Clone, Copy, Debug)]
pub struct RemoveEmployee {
    pub admin: Address,
    pub payroll: Address,
    pub employee_wallet: Address,
}

/// The records that a payment touches. Paying needs no administrator: any
/// caller, an unattended agent included, may trigger it.
#[derive(Clone, Copy, Debug)]
pub struct PayEmployee {
    pub payroll: Address,
    pub employee: Address,
}

/// The slot at `a` in the slots `m`; one never written to is vacant.
pub open spec fn account_in(m: Map<Seq<u8>, Account>, a: Seq<u8>) -> Account {
    if m.contains_key(a) {
        m[a]
    } else {
        vacant()
    }
}

/// The outcome of `update_employee`.
pub open spec fn update_employee_post(
    pre: Ledger,
    post: Ledger,
    ctx: UpdateEmployee,
    name: String,
    role: String,
    ciphertext: Vec<u8>,
    input_type: u8,
    pin: String,
    schedule: String,
    next_payment_ts: i64,
    r: Result<(), CustomError>,
) -> bool {
    match pre.payroll_at(ctx.payroll@) {
        None => r == Err::<(), CustomError>(CustomError::NotFound) && unchanged(pre, post),
        Some(p) => match employee_address_of(pre.program(), ctx.payroll@, ctx.employee_wallet@) {
            None => r == Err::<(), CustomError>(CustomError::AddressUnavailable) && unchanged(
                pre,
                post,
            ),
            Some(a) => match pre.employee_at(a) {
                None => r == Err::<(), CustomError>(CustomError::NotFound) && unchanged(pre, post),
                Some(e) => if ctx.admin@ != p.admin@ {
                    r == Err::<(), CustomError>(CustomError::Unauthorized) && unchanged(pre, post)
                } else if !employee_fields_fit(name@, role@, ciphertext@, pin@, schedule@) {
                    r == Err::<(), CustomError>(CustomError::CapacityExceeded) && unchanged(
                        pre,
                        post,
                    )
                } else {
                    &&& r is Ok
                    &&& post.program() == pre.program()
                    &&& post.event_log() == pre.event_log()
                    &&& post.accounts() == pre.accounts().insert(
                        a,
                        Account {
                            lamports: pre.balance_of(a),
                            space: EMPLOYEE_SPACE,
                            data: Some(
                                Record::Employee(
                                    Employee {
                                        payroll: e.payroll,
                                        wallet: e.wallet,
                                        name,
                                        role,
                                        pin,
                                        schedule,
                                        ciphertext,
                                        input_type,
                                        next_payment_ts,
                                        last_paid_ts: e.last_paid_ts,
                                    },
                                ),
                            ),
                        },
                    )
                },
            },
        },
    }
}

/// Whether `e2` is `e` after a payment at `now`: the identity, payload and
/// cadence fields stay, an unrecognised tag becomes weekly, and both
/// timestamps advance.
pub open spec fn paid(e: Employee, now: int, e2: Employee) -> bool {
    &&& e2.payroll == e.payroll
    &&& e2.wallet == e.wallet
    &&& e2.name == e.name
    &&& e2.role == e.role
    &&& e2.pin == e.pin
    &&& e2.ciphertext == e.ciphertext
    &&& e2.input_type == e.input_type
    &&& e2.schedule@ == tag_after_payment(e.schedule@)
    &&& e2.next_payment_ts == next_payment_after(schedule_of(e.schedule@), now)
    &&& e2.last_paid_ts == now
}

/// The outcome of `pay_employee` at time `now`.
pub open spec fn pay_employee_post(
    pre: Ledger,
    post: Ledger,
    ctx: PayEmployee,
    now: i64,
    r: Result<(), CustomError>,
) -> bool {
    match pre.payroll_at(ctx.payroll@) {
        None => r == Err::<(), CustomError>(CustomError::NotFound) && unchanged(pre, post),
        Some(_) => match pre.employee_at(ctx.employee@) {
            None => r == Err::<(), CustomError>(CustomError::NotFound) && unchanged(pre, post),
            Some(e) => if e.payroll@ != ctx.payroll@ {
                r == Err::<(), CustomError>(CustomError::NotFound) && unchanged(pre, post)
            } else if next_payment_after(schedule_of(e.schedule@), now as int) > i64::MAX {
                r == Err::<(), CustomError>(CustomError::ArithmeticOverflow) && unchanged(pre, post)
            } else {
                &&& r is Ok
                &&& post.program() == pre.program()
                &&& post.event_log() == pre.event_log().push(
                    EmployeePaid { payroll: ctx.payroll, employee: ctx.employee },
                )
                &&& post.accounts() == pre.accounts().insert(
                    ctx.employee@,
                    post.account(ctx.employee@),
                )
                &&& post.balance_of(ctx.employee@) == pre.balance_of(ctx.employee@)
                &&& post.account(ctx.employee@).space == pre.account(ctx.employee@).space
                &&& post.employee_at(ctx.employee@) is Some
                &&& paid(e, now as int, post.employee_at(ctx.employee@)->Some_0)
            },
        },
    }
}

/// The employee count after one removal: one less, but never below zero.
pub open spec fn count_after_removal(n: u64) -> u64 {
    if n > 0 {
        (n - 1) as u64
    } else {
        0
    }
}

/// The slots after `remove_employee` frees the employee slot at `a`, sweeps its
/// balance `v` to the administrator and uncounts it on the payroll `p`, in that
/// order. Where the administrator's key is `a` itself, the freed slot is then
/// credited with `v`, so the value stays with that key.
pub open spec fn removed(
    pre: Map<Seq<u8>, Account>,
    ctx: RemoveEmployee,
    p: Payroll,
    a: Seq<u8>,
    v: u64,
) -> Map<Seq<u8>, Account> {
    let freed = pre.insert(a, vacant());
    let admin = account_in(freed, ctx.admin@);
    let swept = freed.insert(ctx.admin@, admin.with_lamports((admin.lamports + v) as u64));
    let payroll = account_in(swept, ctx.payroll@);
    swept.insert(
        ctx.payroll@,
        Account {
            lamports: payroll.lamports,
            space: payroll.space,
            data: Some(Record::Payroll(p.with_count(count_after_removal(p.employee_count)))),
        },
    )
}

/// The outcome of `remove_employee`.
pub open spec fn remove_employee_post(
    pre: Ledger,
    post: Ledger,
    ctx: RemoveEmployee,
    r: Result<u64, CustomError>,
) -> bool {
    match pre.payroll_at(ctx.payroll@) {
        None => r == Err::<u64, CustomError>(CustomError::NotFound) && unchanged(pre, post),
        Some(p) => if ctx.admin@ != p.admin@ {
            r == Err::<u64, CustomError>(CustomError::Unauthorized) && unchanged(pre, post)
        } else {
            match employee_address_of(pre.program(), ctx.payroll@, ctx.employee_wallet@) {
            None => r == Err::<u64, CustomError>(CustomError::AddressUnavailable) && unchanged(
                pre,
                post,
            ),
            Some(a) => if pre.employee_at(a) is None {
                r == Err::<u64, CustomError>(CustomError::NotFound) && unchanged(pre, post)
            } else if account_in(pre.accounts().insert(a, vacant()), ctx.admin@).lamports
                + pre.balance_of(a) > u64::MAX {
                r == Err::<u64, CustomError>(CustomError::ArithmeticOverflow) && unchanged(pre, post)
            } else {
                &&& r == Ok::<u64, CustomError>(pre.balance_of(a))
                &&& post.program() == pre.program()
                &&& post.event_log() == pre.event_log()
                &&& post.accounts() == removed(pre.accounts(), ctx, p, a, pre.balance_of(a))
            },
            }
        },
    }
}

/// Whether `post` is `pre` with nothing changed.
pub open spec fn unchanged(pre: Ledger, post: Ledger) -> bool {
    &&& post.program() == pre.program()
    &&& post.accounts() == pre.accounts()
    &&& post.event_log() == pre.event_log()
}

/// The outcome of `initialize_payroll`.
pub open spec fn initialize_payroll_post(
    pre: Ledger,
    post: Ledger,
    ctx: InitializePayroll,
    company_name: String,
    r: Result<Address, CustomError>,
) -> bool {
    if company_name@.len() > COMPANY_NAME_MAX {
        r == Err::<Address, CustomError>(CustomError::CapacityExceeded) && unchanged(pre, post)
    } else {
        match payroll_address_of(pre.program(), ctx.admin@) {
            None => r == Err::<Address, CustomError>(CustomError::AddressUnavailable) && unchanged(
                pre,
                post,
            ),
            Some(a) => if pre.record_at(a) is Some {
                r == Err::<Address, CustomError>(CustomError::AlreadyExists) && unchanged(pre, post)
            } else {
                &&& r is Ok
                &&& r->Ok_0@ == a
                &&& post.program() == pre.program()
                &&& post.event_log() == pre.event_log()
                &&& post.accounts() == pre.accounts().insert(
                    a,
                    Account {
                        lamports: pre.balance_of(a),
                        space: PAYROLL_SPACE,
                        data: Some(
                            Record::Payroll(
                                Payroll { admin: ctx.admin, employee_count: 0, company_name },
                            ),
                        ),
                    },
                )
            },
        }
    }
}

/// The employee record that `add_employee` creates.
pub open spec fn new_employee(
    ctx: AddEmployee,
    name: String,
    role: String,
    ciphertext: Vec<u8>,
    input_type: u8,
    pin: String,
    schedule: String,
    next_payment_ts: i64,
) -> Employee {
    Employee {
        payroll: ctx.payroll,
        wallet: ctx.employee_wallet,
        name,
        role,
        pin,
        schedule,
        ciphertext,
        input_type,
        next_payment_ts,
        last_paid_ts: 0,
    }
}

/// The outcome of `add_employee`.
pub open spec fn add_employee_post(
    pre: Ledger,
    post: Ledger,
    ctx: AddEmployee,
    name: String,
    role: String,
    ciphertext: Vec<u8>,
    input_type: u8,
    pin: String,
    schedule: String,
    next_payment_ts: i64,
    r: Result<Address, CustomError>,
) -> bool {
    match pre.payroll_at(ctx.payroll@) {
        None => r == Err::<Address, CustomError>(CustomError::NotFound) && unchanged(pre, post),
        Some(p) => {
            match employee_address_of(pre.program(), ctx.payroll@, ctx.employee_wallet@) {
                None => r == Err::<Address, CustomError>(CustomError::AddressUnavailable)
                    && unchanged(pre, post),
                Some(a) => if pre.record_at(a) is Some {
                    r == Err::<Address, CustomError>(CustomError::AlreadyExists) && unchanged(
                        pre,
                        post,
                    )
                } else if ctx.admin@ != p.admin@ {
                    r == Err::<Address, CustomError>(CustomError::Unauthorized) && unchanged(
                        pre,
                        post,
                    )
                } else if !employee_fields_fit(name@, role@, ciphertext@, pin@, schedule@) {
                    r == Err::<Address, CustomError>(CustomError::CapacityExceeded) && unchanged(
                        pre,
                        post,
                    )
                } else if p.employee_count == u64::MAX {
                    r == Err::<Address, CustomError>(CustomError::ArithmeticOverflow) && unchanged(
                        pre,
                        post,
                    )
                } else {
                    &&& r is Ok
                    &&& r->Ok_0@ == a
                    &&& post.program() == pre.program()
                    &&& post.event_log() == pre.event_log()
                    &&& post.accounts() == pre.accounts().insert(
                        ctx.payroll@,
                        Account {
                            lamports: pre.balance_of(ctx.payroll@),
                            space: pre.account(ctx.payroll@).space,
                            data: Some(
                                Record::Payroll(p.with_count((p.employee_count + 1) as u64)),
                            ),
                        },
                    ).insert(
                        a,
                        Account {
                            lamports: pre.balance_of(a),
                            space: EMPLOYEE_SPACE,
                            data: Some(
                                Record::Employee(
                                    new_employee(
                                        ctx,
                                        name,
                                        role,
                                        ciphertext,
                                        input_type,
                                        pin,
                                        schedule,
                                        next_payment_ts,
                                    ),
                                ),
                            ),
                        },
                    )
                },
            }
        },
    }
}

#[derive(Debug)]
struct Slot {
    key: Address,
    account: Account,
}

/// All slots of one program, keyed by address, and its event log.
pub struct Ledger {
    program_id: Address,
    slots: Vec<Slot>,
    events: Vec<EmployeePaid>,
    model: Ghost<Map<Seq<u8>, Account>>,
}

impl Ledger {
    /// The program whose derived addresses this ledger stores.
    pub closed spec fn program(&self) -> Seq<u8> {
        self.program_id@
    }

    /// The slots written so far, by address.
    pub closed spec fn accounts(&self) -> Map<Seq<u8>, Account> {
        self.model@
    }

    /// The events appended so far, oldest first.
    pub closed spec fn event_log(&self) -> Seq<EmployeePaid> {
        self.events@
    }

    /// The slot at `a`; one never written to is vacant.
    pub open spec fn account(&self, a: Seq<u8>) -> Account {
        account_in(self.accounts(), a)
    }

    pub open spec fn record_at(&self, a: Seq<u8>) -> Option<Record> {
        self.account(a).data
    }

    pub open spec fn payroll_at(&self, a: Seq<u8>) -> Option<Payroll> {
        match self.record_at(a) {
            Some(Record::Payroll(p)) => Some(p),
            _ => None,
        }
    }

    pub open spec fn employee_at(&self, a: Seq<u8>) -> Option<Employee> {
        match self.record_at(a) {
            Some(Record::Employee(e)) => Some(e),
            _ => None,
        }
    }

    pub open spec fn balance_of(&self, a: Seq<u8>) -> u64 {
        self.account(a).lamports
    }

    /// Slots hold distinct addresses and agree with the model.
    pub closed spec fn wf(&self) -> bool {
        &&& forall|i: int, j: int|
            0 <= i < j < self.slots@.len() ==> self.slots@[i].key@ != self.slots@[j].key@
        &&& forall|i: int|
            0 <= i < self.slots@.len() ==> {
                &&& self.model@.contains_key(#[trigger] self.slots@[i].key@)
                &&& self.model@[self.slots@[i].key@] == self.slots@[i].account
            }
        &&& forall|a: Seq<u8>|
            #[trigger] self.model@.contains_key(a) ==> exists|i: int|
                0 <= i < self.slots@.len() && self.slots@[i].key@ == a
        &&& forall|a: Seq<u8>| #[trigger] self.model@.contains_key(a) ==> sized(self.model@[a])
    }

    /// Every record of a well-formed ledger is within its field limits and its
    /// encoding fits the slot that holds it.
    pub proof fn lemma_records_fit(&self, a: Seq<u8>)
        requires
            self.wf(),
        ensures
            sized(self.account(a)),
            self.record_at(a) is Some ==> encoded_size(self.record_at(a)->Some_0)
                <= self.account(a).space,
    {
        let acct = self.account(a);
        match acct.data {
            Some(Record::Payroll(p)) => {
                lemma_utf8_len_bound(p.company_name@);
            },
            Some(Record::Employee(e)) => {
                lemma_utf8_len_bound(e.name@);
                lemma_utf8_len_bound(e.role@);
                lemma_utf8_len_bound(e.pin@);
                lemma_utf8_len_bound(e.schedule@);
            },
            None => {},
        }
    }

    /// An empty ledger for the program `program_id`.
    pub fn new(program_id: Address) -> (r: Ledger)
        ensures
            r.wf(),
            r.program() == program_id@,
            r.accounts() == Map::<Seq<u8>, Account>::empty(),
            r.event_log() == Seq::<EmployeePaid>::empty(),
    {
        Ledger {
            program_id,
            slots: Vec::new(),
            events: Vec::new(),
            model: Ghost(Map::empty()),
        }
    }

    /// The program whose derived addresses this ledger stores.
    pub fn program_id(&self) -> (r: Address)
        ensures
            r@ == self.program(),
    {
        self.program_id
    }

    /// The event log, oldest first.
    pub fn events(&self) -> (r: &Vec<EmployeePaid>)
        ensures
            r@ == self.event_log(),
    {
        &self.events
    }

    fn find(&self, key: &Address) -> (r: Option<usize>)
        requires
            self.wf(),
        ensures
            match r {
                Some(i) => i < self.slots@.len() && self.slots@[i as int].key@ == key@,
                None => !self.accounts().contains_key(key@),
            },
    {
        let mut i: usize = 0;
        while i < self.slots.len()
            invariant
                self.wf(),
                0 <= i <= self.slots@.len(),
                forall|j: int| 0 <= j < i ==> self.slots@[j].key@ != key@,
            decreases self.slots@.len() - i,
        {
            if same_address(&self.slots[i].key, key) {
                return Some(i);
            }
            i += 1;
        }
        None
    }

    /// The slot at `key`, as a reference, or `None` where it is vacant and unwritten.
    fn slot_account(&self, key: &Address) -> (r: Option<&Account>)
        requires
            self.wf(),
        ensures
            match r {
                Some(acct) => self.accounts().contains_key(key@) && *acct == self.accounts()[key@],
                None => !self.accounts().contains_key(key@),
            },
    {
        match self.find(key) {
            Some(i) => Some(&self.slots[i].account),
            None => None,
        }
    }

    /// The record at `key`.
    pub fn read(&self, key: &Address) -> (r: Result<&Record, CustomError>)
        requires
            self.wf(),
        ensures
            match r {
                Ok(rec) => self.record_at(key@) == Some(*rec),
                Err(e) => self.record_at(key@) is None && e == CustomError::NotFound,
            },
    {
        match self.slot_account(key) {
            Some(acct) => match &acct.data {
                Some(rec) => Ok(rec),
                None => Err(CustomError::NotFound),
            },
            None => Err(CustomError::NotFound),
        }
    }

    /// The value balance attached to `key`.
    pub fn balance(&self, key: &Address) -> (r: u64)
        requires
            self.wf(),
        ensures
            r == self.balance_of(key@),
    {
        match self.slot_account(key) {
            Some(acct) => acct.lamports,
            None => 0,
        }
    }

    /// Adds `amount` to the value balance attached to `key`.
    pub fn deposit(&mut self, key: &Address, amount: u64) -> (r: Result<(), CustomError>)
        requires
            old(self).wf(),
        ensures
            final(self).wf(),
            old(self).balance_of(key@) + amount > u64::MAX ==> r == Err::<(), CustomError>(
                CustomError::ArithmeticOverflow,
            ) && unchanged(*old(self), *final(self)),
            old(self).balance_of(key@) + amount <= u64::MAX ==> {
                &&& r is Ok
                &&& final(self).program() == old(self).program()
                &&& final(self).event_log() == old(self).event_log()
                &&& final(self).accounts() == old(self).accounts().insert(
                    key@,
                    old(self).account(key@).with_lamports(
                        (old(self).balance_of(key@) + amount) as u64,
                    ),
                )
            },
    {
        let current = self.balance(key);
        if current > u64::MAX - amount {
            return Err(CustomError::ArithmeticOverflow);
        }
        let prev = self.put(key, vacant_account());
        self.put(key, Account { lamports: current + amount, space: prev.space, data: prev.data });
        proof {
            assert(self.accounts() =~= old(self).accounts().insert(
                key@,
                old(self).account(key@).with_lamports((current + amount) as u64),
            ));
        }
        Ok(())
    }

    /// Creates the payroll record of `ctx.admin` with no employees.
    pub fn initialize_payroll(&mut self, ctx: InitializePayroll, company_name: String) -> (r:
        Result<Address, CustomError>)
        requires
            old(self).wf(),
        ensures
            final(self).wf(),
            initialize_payroll_post(*old(self), *final(self), ctx, company_name, r),
    {
        if !fits(&company_name, COMPANY_NAME_MAX) {
            return Err(CustomError::CapacityExceeded);
        }
        let addr = match payroll_address(&self.program_id, &ctx.admin) {
            Some(a) => a,
            None => return Err(CustomError::AddressUnavailable),
        };
        let lamports = match self.slot_account(&addr) {
            Some(acct) => {
                if acct.data.is_some() {
                    return Err(CustomError::AlreadyExists);
                }
                acct.lamports
            },
            None => 0,
        };
        let payroll = Payroll { admin: ctx.admin, employee_count: 0, company_name };
        self.put(
            &addr,
            Account { lamports, space: PAYROLL_SPACE, data: Some(Record::Payroll(payroll)) },
        );
        Ok(addr)
    }

    /// Creates the employee record of `ctx.employee_wallet` under `ctx.payroll`
    /// and counts it on the payroll; only the payroll's administrator may.
    pub fn add_employee(
        &mut self,
        ctx: AddEmployee,
        name: String,
        role: String,
        ciphertext: Vec<u8>,
        input_type: u8,
        pin: String,
        schedule: String,
        next_payment_ts: i64,
    ) -> (r: Result<Address, CustomError>)
        requires
            old(self).wf(),
        ensures
            final(self).wf(),
            add_employee_post(
                *old(self),
                *final(self),
                ctx,
                name,
                role,
                ciphertext,
                input_type,
                pin,
                schedule,
                next_payment_ts,
                r,
            ),
    {
        match self.slot_account(&ctx.payroll) {
            Some(Account { data: Some(Record::Payroll(_)), .. }) => {},
            _ => return Err(CustomError::NotFound),
        }
        let addr = match employee_address(&self.program_id, &ctx.payroll, &ctx.employee_wallet) {
            Some(a) => a,
            None => return Err(CustomError::AddressUnavailable),
        };
        let lamports = match self.slot_account(&addr) {
            Some(acct) => {
                if acct.data.is_some() {
                    return Err(CustomError::AlreadyExists);
                }
                acct.lamports
            },
            None => 0,
        };
        let count = match self.slot_account(&ctx.payroll) {
            Some(Account { data: Some(Record::Payroll(p)), .. }) => {
                if authorize(&ctx.admin, p).is_err() {
                    return Err(CustomError::Unauthorized);
                }
                p.employee_count
            },
            _ => return Err(CustomError::NotFound),
        };
        if check_employee_fields(&name, &role, &ciphertext, &pin, &schedule).is_err() {
            return Err(CustomError::CapacityExceeded);
        }
        if count == u64::MAX {
            return Err(CustomError::ArithmeticOverflow);
        }
        let ghost pre = *self;
        let prev = self.put(&ctx.payroll, vacant_account());
        let counted = match prev {
            Account { lamports, space, data: Some(Record::Payroll(p)) } => Account {
                lamports,
                space,
                data: Some(
                    Record::Payroll(
                        Payroll {
                            admin: p.admin,
                            employee_count: count + 1,
                            company_name: p.company_name,
                        },
                    ),
                ),
            },
            other => other,
        };
        self.put(&ctx.payroll, counted);
        let employee = Employee {
            payroll: ctx.payroll,
            wallet: ctx.employee_wallet,
            name,
            role,
            pin,
            schedule,
            ciphertext,
            input_type,
            next_payment_ts,
            last_paid_ts: 0,
        };
        self.put(
            &addr,
            Account { lamports, space: EMPLOYEE_SPACE, data: Some(Record::Employee(employee)) },
        );
        proof {
            assert(pre.accounts().insert(ctx.payroll@, vacant()).insert(ctx.payroll@, counted)
                =~= pre.accounts().insert(ctx.payroll@, counted));
        }
        Ok(addr)
    }

    /// Overwrites every field of an employee record but its payroll, wallet and
    /// last payment time, sizing its slot to the record's full capacity; only
    /// the payroll's administrator may.
    pub fn update_employee(
        &mut self,
        ctx: UpdateEmployee,
        name: String,
        role: String,
        ciphertext: Vec<u8>,
        input_type: u8,
        pin: String,
        schedule: String,
        next_payment_ts: i64,
    ) -> (r: Result<(), CustomError>)
        requires
            old(self).wf(),
        ensures
            final(self).wf(),
            update_employee_post(
                *old(self),
                *final(self),
                ctx,
                name,
                role,
                ciphertext,
                input_type,
                pin,
                schedule,
                next_payment_ts,
                r,
            ),
    {
        match self.slot_account(&ctx.payroll) {
            Some(Account { data: Some(Record::Payroll(_)), .. }) => {},
            _ => return Err(CustomError::NotFound),
        }
        let addr = match employee_address(&self.program_id, &ctx.payroll, &ctx.employee_wallet) {
            Some(a) => a,
            None => return Err(CustomError::AddressUnavailable),
        };
        match self.slot_account(&addr) {
            Some(Account { data: Some(Record::Employee(_)), .. }) => {},
            _ => return Err(CustomError::NotFound),
        }
        match self.slot_account(&ctx.payroll) {
            Some(Account { data: Some(Record::Payroll(p)), .. }) => {
                if authorize(&ctx.admin, p).is_err() {
                    return Err(CustomError::Unauthorized);
                }
            },
            _ => return Err(CustomError::NotFound),
        }
        if check_employee_fields(&name, &role, &ciphertext, &pin, &schedule).is_err() {
            return Err(CustomError::CapacityExceeded);
        }
        let ghost pre = *self;
        let prev = self.put(&addr, vacant_account());
        let updated = match prev {
            Account { lamports, space, data: Some(Record::Employee(e)) } => Account {
                lamports,
                space: EMPLOYEE_SPACE,
                data: Some(
                    Record::Employee(
                        Employee {
                            payroll: e.payroll,
                            wallet: e.wallet,
                            name,
                            role,
                            pin,
                            schedule,
                            ciphertext,
                            input_type,
                            next_payment_ts,
                            last_paid_ts: e.last_paid_ts,
                        },
                    ),
                ),
            },
            other => other,
        };
        self.put(&addr, updated);
        proof {
            assert(pre.accounts().insert(addr@, vacant()).insert(addr@, updated)
                =~= pre.accounts().insert(addr@, updated));
        }
        Ok(())
    }

    /// Records a payment of the employee at `ctx.employee` at time `now`:
    /// advances its schedule and appends an event. Anyone may call it.
    pub fn pay_employee(&mut self, ctx: PayEmployee, now: i64) -> (r: Result<(), CustomError>)
        requires
            old(self).wf(),
        ensures
            final(self).wf(),
            pay_employee_post(*old(self), *final(self), ctx, now, r),
    {
        match self.slot_account(&ctx.payroll) {
            Some(Account { data: Some(Record::Payroll(_)), .. }) => {},
            _ => return Err(CustomError::NotFound),
        }
        let cadence = match self.slot_account(&ctx.employee) {
            Some(Account { data: Some(Record::Employee(e)), .. }) => {
                if !same_address(&e.payroll, &ctx.payroll) {
                    return Err(CustomError::NotFound);
                }
                classify(&e.schedule)
            },
            _ => return Err(CustomError::NotFound),
        };
        let next = match next_payment(cadence, now) {
            Some(t) => t,
            None => return Err(CustomError::ArithmeticOverflow),
        };
        let ghost pre = *self;
        let prev = self.put(&ctx.employee, vacant_account());
        let advanced = match prev {
            Account { lamports, space, data: Some(Record::Employee(e)) } => {
                let schedule = if cadence == Schedule::Custom {
                    weekly()
                } else {
                    e.schedule
                };
                Account {
                    lamports,
                    space,
                    data: Some(
                        Record::Employee(
                            Employee {
                                payroll: e.payroll,
                                wallet: e.wallet,
                                name: e.name,
                                role: e.role,
                                pin: e.pin,
                                schedule,
                                ciphertext: e.ciphertext,
                                input_type: e.input_type,
                                next_payment_ts: next,
                                last_paid_ts: now,
                            },
                        ),
                    ),
                }
            },
            other => other,
        };
        self.put(&ctx.employee, advanced);
        self.events.push(EmployeePaid { payroll: ctx.payroll, employee: ctx.employee });
        proof {
            assert(pre.accounts().insert(ctx.employee@, vacant()).insert(ctx.employee@, advanced)
                =~= pre.accounts().insert(ctx.employee@, advanced));
        }
        Ok(())
    }

    /// Frees the employee record of `ctx.employee_wallet` under `ctx.payroll`,
    /// sweeps its value balance to the administrator and uncounts it, never
    /// below zero; only the payroll's administrator may. Returns the value swept.
    /// Where the administrator's key is the employee slot's own address, the
    /// slot is freed and then credited, so it keeps the value.
    pub fn remove_employee(&mut self, ctx: RemoveEmployee) -> (r: Result<u64, CustomError>)
        requires
            old(self).wf(),
        ensures
            final(self).wf(),
            remove_employee_post(*old(self), *final(self), ctx, r),
    {
        match self.slot_account(&ctx.payroll) {
            Some(Account { data: Some(Record::Payroll(p)), .. }) => {
                if authorize(&ctx.admin, p).is_err() {
                    return Err(CustomError::Unauthorized);
                }
            },
            _ => return Err(CustomError::NotFound),
        }
        let addr = match employee_address(&self.program_id, &ctx.payroll, &ctx.employee_wallet) {
            Some(a) => a,
            None => return Err(CustomError::AddressUnavailable),
        };
        let value = match self.slot_account(&addr) {
            Some(Account { lamports, data: Some(Record::Employee(_)), .. }) => *lamports,
            _ => return Err(CustomError::NotFound),
        };
        let base = if same_address(&ctx.admin, &addr) {
            0
        } else {
            self.balance(&ctx.admin)
        };
        if base > u64::MAX - value {
            return Err(CustomError::ArithmeticOverflow);
        }
        let ghost pre = *self;
        self.put(&addr, vacant_account());
        let ghost freed = self.accounts();
        let admin = self.put(&ctx.admin, vacant_account());
        self.put(
            &ctx.admin,
            Account { lamports: base + value, space: admin.space, data: admin.data },
        );
        let ghost swept = self.accounts();
        let prev = self.put(&ctx.payroll, vacant_account());
        let uncounted = match prev {
            Account { lamports, space, data: Some(Record::Payroll(p)) } => {
                let count = if p.employee_count > 0 {
                    p.employee_count - 1
                } else {
                    0
                };
                Account {
                    lamports,
                    space,
                    data: Some(
                        Record::Payroll(
                            Payroll {
                                admin: p.admin,
                                employee_count: count,
                                company_name: p.company_name,
                            },
                        ),
                    ),
                }
            },
            other => other,
        };
        self.put(&ctx.payroll, uncounted);
        proof {
            assert(freed.insert(ctx.admin@, vacant()).insert(
                ctx.admin@,
                Account { lamports: (base + value) as u64, space: admin.space, data: admin.data },
            ) =~= freed.insert(
                ctx.admin@,
                account_in(freed, ctx.admin@).with_lamports((base + value) as u64),
            ));
            assert(swept.insert(ctx.payroll@, vacant()).insert(ctx.payroll@, uncounted)
                =~= swept.insert(ctx.payroll@, uncounted));
        }
        Ok(value)
    }

    /// Writes `acct` at `key` and hands back what was there.
    fn put(&mut self, key: &Address, acct: Account) -> (prev: Account)
        requires
            old(self).wf(),
            sized(acct),
        ensures
            final(self).wf(),
            prev == old(self).account(key@),
            final(self).accounts() == old(self).accounts().insert(key@, acct),
            final(self).program() == old(self).program(),
            final(self).event_log() == old(self).event_log(),
    {
        match self.find(key) {
            Some(i) => {
                let ghost old_slots = self.slots@;
                let slot = self.slots.remove(i);
                self.slots.insert(i, Slot { key: slot.key, account: acct });
                proof {
                    self.model@ = self.model@.insert(key@, acct);
                    assert(self.slots@ =~= old_slots.update(i as int, Slot { key: slot.key, account: acct }));
                    assert forall|a: Seq<u8>| #[trigger] self.model@.contains_key(a) implies exists|j: int|
                        0 <= j < self.slots@.len() && self.slots@[j].key@ == a by {
                        if a != key@ {
                            let j = choose|j: int| 0 <= j < old_slots.len() && old_slots[j].key@ == a;
                            assert(self.slots@[j].key@ == a);
                        } else {
                            assert(self.slots@[i as int].key@ == a);
                        }
                    }
                }
                slot.account
            },
            None => {
                let ghost old_slots = self.slots@;
                self.slots.push(Slot { key: *key, account: acct });
                proof {
                    self.model@ = self.model@.insert(key@, acct);
                    assert forall|a: Seq<u8>| #[trigger] self.model@.contains_key(a) implies exists|j: int|
                        0 <= j < self.slots@.len() && self.slots@[j].key@ == a by {
                        if a != key@ {
                            let j = choose|j: int| 0 <= j < old_slots.len() && old_slots[j].key@ == a;
                            assert(self.slots@[j].key@ == a);
                        } else {
                            assert(self.slots@[old_slots.len() as int].key@ == a);
                        }
                    }
                }
                vacant_account()
            },
        }
    }
}

} // verus!
