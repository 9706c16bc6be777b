//! Record addresses, derived from a namespace tag and ordered seeds.
use vstd::prelude::*;
use anchor_lang::solana_program::pubkey::Pubkey;

verus! {

/// A 32-byte public identifier: an actor's key or a record's address.
pub type Address = [u8; 32];

/// The address that the program `program_id` derives from `seeds`, if one exists.
pub uninterp spec fn program_address(seeds: Seq<Seq<u8>>, program_id: Seq<u8>) -> Option<Seq<u8>>;

/// Relies on `Pubkey::try_find_program_address`: it hashes the seeds and the
/// program id with a bump seed and returns the first off-curve result, or
/// `None` where no bump seed gives one or a seed is too long. It depends on
/// its arguments alone and never panics.
#[verifier::external_body]
fn find_program_address(seeds: &Vec<Vec<u8>>, program_id: &Address) -> (r: Option<Address>)
    ensures
        match r {
            Some(a) => program_address(seeds.deep_view(), program_id@) == Some(a@),
            None => program_address(seeds.deep_view(), program_id@) is None,
        },
{
    let slices: Vec<&[u8]> = seeds.iter().map(|s| s.as_slice()).collect();
    let program = Pubkey::new_from_array(*program_id);
    Pubkey::try_find_program_address(&slices, &program).map(|found| found.0.to_bytes())
}

/// The namespace tag of payroll records, the ASCII bytes of "payroll".
pub open spec fn payroll_tag() -> Seq<u8> {
    seq![112u8, 97u8, 121u8, 114u8, 111u8, 108u8, 108u8]
}

/// The namespace tag of employee records, the ASCII bytes of "employee".
pub open spec fn employee_tag() -> Seq<u8> {
    seq![101u8, 109u8, 112u8, 108u8, 111u8, 121u8, 101u8, 101u8]
}

/// The seeds of the payroll record of `admin`.
pub open spec fn payroll_seeds(admin: Seq<u8>) -> Seq<Seq<u8>> {
    seq![payroll_tag(), admin]
}

/// The seeds of the employee record of `wallet` under `payroll`.
pub open spec fn employee_seeds(payroll: Seq<u8>, wallet: Seq<u8>) -> Seq<Seq<u8>> {
    seq![employee_tag(), payroll, wallet]
}

/// The address of the payroll record of `admin`.
pub open spec fn payroll_address_of(program_id: Seq<u8>, admin: Seq<u8>) -> Option<Seq<u8>> {
    program_address(payroll_seeds(admin), program_id)
}

/// The address of the employee record of `wallet` under `payroll`.
pub open spec fn employee_address_of(
    program_id: Seq<u8>,
    payroll: Seq<u8>,
    wallet: Seq<u8>,
) -> Option<Seq<u8>> {
    program_address(employee_seeds(payroll, wallet), program_id)
}

/// Whether an optional exec address stands for an optional spec address.
pub open spec fn denotes(r: Option<Address>, a: Option<Seq<u8>>) -> bool {
    match r {
        Some(k) => a == Some(k@),
        None => a is None,
    }
}

/// Compares two addresses byte by byte.
pub fn same_address(a: &Address, b: &Address) -> (r: bool)
    ensures
        r == (a@ == b@),
{
    let mut i: usize = 0;
    while i < 32
        invariant
            0 <= i <= 32,
            forall|j: int| 0 <= j < i ==> a@[j] == b@[j],
        decreases 32 - i,
    {
        if a[i] != b[i] {
            assert(a@[i as int] != b@[i as int]);
            return false;
        }
        i += 1;
    }
    assert(a@ =~= b@);
    true
}

/// The bytes of an address as a vector.
fn address_bytes(a: &Address) -> (r: Vec<u8>)
    ensures
        r@ == a@,
{
    let mut r: Vec<u8> = Vec::new();
    let mut i: usize = 0;
    while i < 32
        invariant
            0 <= i <= 32,
            r@ =~= a@.subrange(0, i as int),
        decreases 32 - i,
    {
        r.push(a[i]);
        i += 1;
    }
    r
}

/// Derives the address of the payroll record of `admin`.
pub fn payroll_address(program_id: &Address, admin: &Address) -> (r: Option<Address>)
    ensures
        denotes(r, payroll_address_of(program_id@, admin@)),
{
    let tag: Vec<u8> = vec![112u8, 97u8, 121u8, 114u8, 111u8, 108u8, 108u8];
    let key = address_bytes(admin);
    proof {
        assert(tag@ =~= payroll_tag());
        assert(tag.deep_view() =~= tag@);
        assert(key.deep_view() =~= key@);
    }
    let seeds: Vec<Vec<u8>> = vec![tag, key];
    assert(seeds.deep_view() =~= payroll_seeds(admin@));
    find_program_address(&seeds, program_id)
}

/// Derives the address of the employee record of `wallet` under `payroll`.
pub fn employee_address(program_id: &Address, payroll: &Address, wallet: &Address) -> (r: Option<
    Address,
>)
    ensures
        denotes(r, employee_address_of(program_id@, payroll@, wallet@)),
{
    let tag: Vec<u8> = vec![101u8, 109u8, 112u8, 108u8, 111u8, 121u8, 101u8, 101u8];
    let owner = address_bytes(payroll);
    let key = address_bytes(wallet);
    proof {
        assert(tag@ =~= employee_tag());
        assert(tag.deep_view() =~= tag@);
        assert(owner.deep_view() =~= owner@);
        assert(key.deep_view() =~= key@);
    }
    let seeds: Vec<Vec<u8>> = vec![tag, owner, key];
    assert(seeds.deep_view() =~= employee_seeds(payroll@, wallet@));
    find_program_address(&seeds, program_id)
}

} // verus!
