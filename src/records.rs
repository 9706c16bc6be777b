//! The two record kinds, their field limits and storage sizes, and the
//! administrator check that gates mutation.
use vstd::prelude::*;
use vstd::string::StrSliceExecFns;
use vstd::utf8::encode_utf8;
use crate::address::Address;

verus! {

/// Bytes of the kind discriminator that opens every stored record.
pub const DISCRIMINATOR_LEN: usize = 8;

pub const COMPANY_NAME_MAX: usize = 50;

pub const NAME_MAX: usize = 50;

pub const ROLE_MAX: usize = 32;

pub const PIN_MAX: usize = 10;

pub const SCHEDULE_MAX: usize = 20;

pub const CIPHERTEXT_MAX: usize = 256;

/// Bytes that one character can take in UTF-8.
pub const MAX_CHAR_BYTES: usize = 4;

/// Storage of a payroll record: discriminator, admin, counter and a
/// length-prefixed company name at its maximum. Text limits count characters,
/// so each is budgeted at the widest UTF-8 encoding.
pub const PAYROLL_SPACE: usize = DISCRIMINATOR_LEN + 32 + 8 + (4 + MAX_CHAR_BYTES
    * COMPANY_NAME_MAX);

/// Storage of an employee record: discriminator, two keys, the length-prefixed
/// bounded fields at their maxima (text at its widest UTF-8 encoding), the
/// format tag and two timestamps.
pub const EMPLOYEE_SPACE: usize = DISCRIMINATOR_LEN + 32 + 32 + (4 + MAX_CHAR_BYTES * NAME_MAX) + (4
    + MAX_CHAR_BYTES * ROLE_MAX) + (4 + MAX_CHAR_BYTES * PIN_MAX) + (4 + MAX_CHAR_BYTES
    * SCHEDULE_MAX) + (4 + CIPHERTEXT_MAX) + 1 + 8 + 8;

/// The record of one organisation.
#[derive(Debug)]
pub struct Payroll {
    pub admin: Address,
    pub employee_count: u64,
    pub company_name: String,
}

/// The record of one employee under a payroll.
#[derive(Debug)]
pub struct Employee {
    pub payroll: Address,
    pub wallet: Address,
    pub name: String,
    pub role: String,
    pub pin: String,
    pub schedule: String,
    pub ciphertext: Vec<u8>,
    pub input_type: u8,
    pub next_payment_ts: i64,
    pub last_paid_ts: i64,
}

/// What a storage slot holds.
#[derive(Debug)]
pub enum Record {
    Payroll(Payroll),
    Employee(Employee),
}

/// The notification appended on every successful payment.
#[derive(Clone, Copy, Debug)]
pub struct EmployeePaid {
    pub payroll: Address,
    pub employee: Address,
}

/// Why an operation was refused; a refused operation changes nothing.
#[derive(Clone, Copy, Debug, PartialEq, Eq, Structural)]
pub enum CustomError {
    /// The acting key is not the payroll's administrator.
    Unauthorized,
    /// No record of the expected kind lives at the address.
    NotFound,
    /// A record already lives at the address to be created.
    AlreadyExists,
    /// A field is longer than its maximum.
    CapacityExceeded,
    /// A counter, balance or timestamp would leave its integer range.
    ArithmeticOverflow,
    /// No address can be derived from the seeds.
    AddressUnavailable,
}

impl Payroll {
    pub open spec fn with_count(self, n: u64) -> Payroll {
        Payroll { admin: self.admin, employee_count: n, company_name: self.company_name }
    }
}

/// Bytes of `s` in UTF-8.
pub open spec fn utf8_len(s: Seq<char>) -> int {
    encode_utf8(s).len() as int
}

/// A character takes at most four bytes in UTF-8.
pub proof fn lemma_utf8_len_bound(s: Seq<char>)
    ensures
        utf8_len(s) <= MAX_CHAR_BYTES * s.len(),
    decreases s.len(),
{
    if s.len() > 0 {
        lemma_utf8_len_bound(s.drop_first());
    }
}

/// Bytes of a record's length-prefixed encoding, discriminator included.
pub open spec fn encoded_size(rec: Record) -> int {
    match rec {
        Record::Payroll(p) => DISCRIMINATOR_LEN + 32 + 8 + 4 + utf8_len(p.company_name@),
        Record::Employee(e) => DISCRIMINATOR_LEN + 32 + 32 + (4 + utf8_len(e.name@)) + (4
            + utf8_len(e.role@)) + (4 + utf8_len(e.pin@)) + (4 + utf8_len(e.schedule@)) + (4
            + e.ciphertext@.len()) + 1 + 8 + 8,
    }
}

/// Whether the employee fields that an administrator supplies fit their maxima.
pub open spec fn employee_fields_fit(
    name: Seq<char>,
    role: Seq<char>,
    ciphertext: Seq<u8>,
    pin: Seq<char>,
    schedule: Seq<char>,
) -> bool {
    &&& name.len() <= NAME_MAX
    &&& role.len() <= ROLE_MAX
    &&& ciphertext.len() <= CIPHERTEXT_MAX
    &&& pin.len() <= PIN_MAX
    &&& schedule.len() <= SCHEDULE_MAX
}

/// Whether a string holds at most `max` characters.
pub fn fits(s: &String, max: usize) -> (r: bool)
    ensures
        r == (s@.len() <= max),
{
    s.as_str().unicode_len() <= max
}

/// Checks the employee fields against their maxima.
pub fn check_employee_fields(
    name: &String,
    role: &String,
    ciphertext: &Vec<u8>,
    pin: &String,
    schedule: &String,
) -> (r: Result<(), CustomError>)
    ensures
        r is Ok <==> employee_fields_fit(name@, role@, ciphertext@, pin@, schedule@),
        r is Err ==> r == Err::<(), CustomError>(CustomError::CapacityExceeded),
{
    if fits(name, NAME_MAX) && fits(role, ROLE_MAX) && ciphertext.len() <= CIPHERTEXT_MAX && fits(
        pin,
        PIN_MAX,
    ) && fits(schedule, SCHEDULE_MAX) {
        Ok(())
    } else {
        Err(CustomError::CapacityExceeded)
    }
}

/// Passes exactly when `actor` is the payroll's administrator.
pub fn authorize(actor: &Address, payroll: &Payroll) -> (r: Result<(), CustomError>)
    ensures
        r is Ok <==> actor@ == payroll.admin@,
        r is Err ==> r == Err::<(), CustomError>(CustomError::Unauthorized),
{
    if crate::address::same_address(actor, &payroll.admin) {
        Ok(())
    } else {
        Err(CustomError::Unauthorized)
    }
}

} // verus!
