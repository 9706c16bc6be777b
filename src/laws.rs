//! Properties that relate the ledger's operations, proved from their contracts.
use vstd::prelude::*;
use crate::address::{employee_address_of, payroll_address_of};
use crate::ledger::{
    add_employee_post, count_after_removal, initialize_payroll_post, pay_employee_post,
    remove_employee_post, unchanged, update_employee_post, AddEmployee, InitializePayroll, Ledger,
    PayEmployee, RemoveEmployee, UpdateEmployee,
};
use crate::records::{CustomError, Payroll, Record};
use crate::schedule::{schedule_of, weekly_tag, Schedule};

verus! {

/// A payroll that was just initialized reads back with no employees and the
/// company name it was given.
pub proof fn law_initialize_then_read(
    pre: Ledger,
    post: Ledger,
    ctx: InitializePayroll,
    company_name: String,
    r: Result<[u8; 32], CustomError>,
)
    requires
        initialize_payroll_post(pre, post, ctx, company_name, r),
        r is Ok,
    ensures
        post.record_at(r->Ok_0@) == Some(
            Record::Payroll(Payroll { admin: ctx.admin, employee_count: 0, company_name }),
        ),
        post.payroll_at(r->Ok_0@)->Some_0.employee_count == 0,
        post.payroll_at(r->Ok_0@)->Some_0.company_name == company_name,
{
}

/// Each successful addition counts exactly one more employee on its payroll.
pub proof fn law_addition_counts_one(
    pre: Ledger,
    post: Ledger,
    ctx: AddEmployee,
    name: String,
    role: String,
    ciphertext: Vec<u8>,
    input_type: u8,
    pin: String,
    schedule: String,
    next_payment_ts: i64,
    r: Result<[u8; 32], CustomError>,
)
    requires
        add_employee_post(
            pre,
            post,
            ctx,
            name,
            role,
            ciphertext,
            input_type,
            pin,
            schedule,
            next_payment_ts,
            r,
        ),
        r is Ok,
    ensures
        pre.payroll_at(ctx.payroll@) is Some,
        post.payroll_at(ctx.payroll@) is Some,
        post.payroll_at(ctx.payroll@)->Some_0.employee_count == pre.payroll_at(
            ctx.payroll@,
        )->Some_0.employee_count + 1,
{
    let a = employee_address_of(pre.program(), ctx.payroll@, ctx.employee_wallet@)->Some_0;
    assert(pre.record_at(a) is None);
    assert(a != ctx.payroll@);
}

/// Each successful removal counts one employee fewer on its payroll, and a
/// count of zero stays zero: the count never goes negative.
pub proof fn law_removal_uncounts_one_at_most(
    pre: Ledger,
    post: Ledger,
    ctx: RemoveEmployee,
    r: Result<u64, CustomError>,
)
    requires
        remove_employee_post(pre, post, ctx, r),
        r is Ok,
    ensures
        pre.payroll_at(ctx.payroll@) is Some,
        post.payroll_at(ctx.payroll@) is Some,
        post.payroll_at(ctx.payroll@)->Some_0.employee_count == count_after_removal(
            pre.payroll_at(ctx.payroll@)->Some_0.employee_count,
        ),
        pre.payroll_at(ctx.payroll@)->Some_0.employee_count == 0 ==> post.payroll_at(
            ctx.payroll@,
        )->Some_0.employee_count == 0,
{
}

/// Whether `post` follows `pre` by a successful addition under `payroll`.
pub open spec fn added_under(pre: Ledger, post: Ledger, payroll: Seq<u8>) -> bool {
    exists|
        ctx: AddEmployee,
        name: String,
        role: String,
        ciphertext: Vec<u8>,
        input_type: u8,
        pin: String,
        schedule: String,
        next_payment_ts: i64,
        r: Result<[u8; 32], CustomError>,
    |
        ctx.payroll@ == payroll && r is Ok && #[trigger] add_employee_post(
            pre,
            post,
            ctx,
            name,
            role,
            ciphertext,
            input_type,
            pin,
            schedule,
            next_payment_ts,
            r,
        )
}

/// Whether `post` follows `pre` by a successful removal under `payroll`.
pub open spec fn removed_under(pre: Ledger, post: Ledger, payroll: Seq<u8>) -> bool {
    exists|ctx: RemoveEmployee, r: Result<u64, CustomError>|
        ctx.payroll@ == payroll && r is Ok && #[trigger] remove_employee_post(pre, post, ctx, r)
}

/// The employee count after a run of steps from `start`: an addition (`true`)
/// adds one, a removal (`false`) takes one off but never goes below zero.
pub open spec fn count_after_run(start: int, additions: Seq<bool>) -> int
    decreases additions.len(),
{
    if additions.len() == 0 {
        start
    } else {
        let before = count_after_run(start, additions.drop_last());
        if additions.last() {
            before + 1
        } else if before > 0 {
            before - 1
        } else {
            0
        }
    }
}

/// Over a run of successful additions and removals under one payroll, the
/// employee count follows `count_after_run`: each addition counts one, each
/// removal uncounts one, and the count never goes negative.
pub proof fn law_count_over_run(states: Seq<Ledger>, payroll: Seq<u8>, additions: Seq<bool>)
    requires
        states.len() == additions.len() + 1,
        states[0].payroll_at(payroll) is Some,
        forall|i: int|
            0 <= i < additions.len() ==> if #[trigger] additions[i] {
                added_under(states[i], states[i + 1], payroll)
            } else {
                removed_under(states[i], states[i + 1], payroll)
            },
    ensures
        states.last().payroll_at(payroll) is Some,
        states.last().payroll_at(payroll)->Some_0.employee_count == count_after_run(
            states[0].payroll_at(payroll)->Some_0.employee_count as int,
            additions,
        ),
    decreases additions.len(),
{
    if additions.len() > 0 {
        let n = additions.len() - 1;
        assert forall|i: int| 0 <= i < additions.drop_last().len() implies if #[trigger] additions.drop_last()[i] {
            added_under(states.drop_last()[i], states.drop_last()[i + 1], payroll)
        } else {
            removed_under(states.drop_last()[i], states.drop_last()[i + 1], payroll)
        } by {
            assert(additions.drop_last()[i] == additions[i]);
        }
        law_count_over_run(states.drop_last(), payroll, additions.drop_last());
        let pre = states[n];
        let post = states[n + 1];
        assert(states.drop_last().last() == pre);
        if additions[n] {
            assert(added_under(pre, post, payroll));
            let (ctx, name, role, ciphertext, input_type, pin, schedule, next_payment_ts, r) = choose|
                ctx: AddEmployee,
                name: String,
                role: String,
                ciphertext: Vec<u8>,
                input_type: u8,
                pin: String,
                schedule: String,
                next_payment_ts: i64,
                r: Result<[u8; 32], CustomError>,
            |
                ctx.payroll@ == payroll && r is Ok && #[trigger] add_employee_post(
                    pre,
                    post,
                    ctx,
                    name,
                    role,
                    ciphertext,
                    input_type,
                    pin,
                    schedule,
                    next_payment_ts,
                    r,
                );
            law_addition_counts_one(
                pre,
                post,
                ctx,
                name,
                role,
                ciphertext,
                input_type,
                pin,
                schedule,
                next_payment_ts,
                r,
            );
        } else {
            assert(removed_under(pre, post, payroll));
            let (ctx, r) = choose|ctx: RemoveEmployee, r: Result<u64, CustomError>|
                ctx.payroll@ == payroll && r is Ok && #[trigger] remove_employee_post(
                    pre,
                    post,
                    ctx,
                    r,
                );
            law_removal_uncounts_one_at_most(pre, post, ctx, r);
        }
    }
}

/// Starting from no employees, `n` additions followed by `m` removals leave
/// `n - m` employees when `n >= m`, and zero otherwise.
pub proof fn law_additions_then_removals(n: nat, m: nat)
    ensures
        count_after_run(
            0,
            Seq::new(n + m, |i: int| i < n),
        ) == if n >= m {
            n - m
        } else {
            0
        },
    decreases m,
{
    if m == 0 {
        lemma_additions_only(n);
        assert(Seq::new(n, |i: int| i < n) =~= Seq::new(n + m, |i: int| i < n));
    } else {
        law_additions_then_removals(n, (m - 1) as nat);
        assert(Seq::new(n + m, |i: int| i < n).drop_last() =~= Seq::new(
            n + (m - 1) as nat,
            |i: int| i < n,
        ));
    }
}

proof fn lemma_additions_only(n: nat)
    ensures
        count_after_run(0, Seq::new(n, |i: int| i < n)) == n,
    decreases n,
{
    if n > 0 {
        lemma_additions_only((n - 1) as nat);
        let s = Seq::new(n, |i: int| i < n);
        assert(s.drop_last() =~= Seq::new((n - 1) as nat, |i: int| i < n - 1));
    }
}

/// Address derivation is deterministic: the same seeds give the same address.
pub proof fn law_addresses_deterministic(
    program_id: Seq<u8>,
    payroll1: Seq<u8>,
    wallet1: Seq<u8>,
    payroll2: Seq<u8>,
    wallet2: Seq<u8>,
)
    requires
        payroll1 == payroll2,
        wallet1 == wallet2,
    ensures
        payroll_address_of(program_id, payroll1) == payroll_address_of(program_id, payroll2),
        employee_address_of(program_id, payroll1, wallet1) == employee_address_of(
            program_id,
            payroll2,
            wallet2,
        ),
{
}

/// Paying a weekly employee at `now`, through its own payroll and with the
/// next time in range, succeeds: it schedules the next payment one week later
/// and records `now` as the last payment. Any caller may do it.
pub proof fn law_weekly_payment(
    pre: Ledger,
    post: Ledger,
    ctx: PayEmployee,
    now: i64,
    r: Result<(), CustomError>,
)
    requires
        pay_employee_post(pre, post, ctx, now, r),
        pre.payroll_at(ctx.payroll@) is Some,
        pre.employee_at(ctx.employee@) is Some,
        pre.employee_at(ctx.employee@)->Some_0.payroll@ == ctx.payroll@,
        pre.employee_at(ctx.employee@)->Some_0.schedule@ == weekly_tag(),
        now + 604800 <= i64::MAX,
    ensures
        r is Ok,
        post.employee_at(ctx.employee@) is Some,
        post.employee_at(ctx.employee@)->Some_0.next_payment_ts == now + 604800,
        post.employee_at(ctx.employee@)->Some_0.last_paid_ts == now,
        post.employee_at(ctx.employee@)->Some_0.schedule@ == weekly_tag(),
{
}

/// Paying an employee whose schedule tag is not recognised, through its own
/// payroll and with the next time in range, succeeds: it switches the tag to
/// weekly and schedules the next payment one week after `now`.
pub proof fn law_unrecognised_schedule_becomes_weekly(
    pre: Ledger,
    post: Ledger,
    ctx: PayEmployee,
    now: i64,
    r: Result<(), CustomError>,
)
    requires
        pay_employee_post(pre, post, ctx, now, r),
        pre.payroll_at(ctx.payroll@) is Some,
        pre.employee_at(ctx.employee@) is Some,
        pre.employee_at(ctx.employee@)->Some_0.payroll@ == ctx.payroll@,
        schedule_of(pre.employee_at(ctx.employee@)->Some_0.schedule@) == Schedule::Custom,
        now + 604800 <= i64::MAX,
    ensures
        r is Ok,
        post.employee_at(ctx.employee@) is Some,
        post.employee_at(ctx.employee@)->Some_0.schedule@ == weekly_tag(),
        post.employee_at(ctx.employee@)->Some_0.next_payment_ts == now + 604800,
        post.employee_at(ctx.employee@)->Some_0.last_paid_ts == now,
{
}

/// Updating an employee whose record is missing is refused as not found and
/// changes nothing, whoever calls and whatever the fields.
pub proof fn law_update_of_missing_record(
    pre: Ledger,
    post: Ledger,
    ctx: UpdateEmployee,
    name: String,
    role: String,
    ciphertext: Vec<u8>,
    input_type: u8,
    pin: String,
    schedule: String,
    next_payment_ts: i64,
    r: Result<(), CustomError>,
)
    requires
        update_employee_post(
            pre,
            post,
            ctx,
            name,
            role,
            ciphertext,
            input_type,
            pin,
            schedule,
            next_payment_ts,
            r,
        ),
        match employee_address_of(pre.program(), ctx.payroll@, ctx.employee_wallet@) {
            Some(a) => pre.employee_at(a) is None,
            None => false,
        },
    ensures
        r == Err::<(), CustomError>(CustomError::NotFound),
        unchanged(pre, post),
{
}

/// Removing an employee whose record is missing, by the payroll's
/// administrator, is refused as not found and changes nothing.
pub proof fn law_removal_of_missing_record(
    pre: Ledger,
    post: Ledger,
    ctx: RemoveEmployee,
    r: Result<u64, CustomError>,
)
    requires
        remove_employee_post(pre, post, ctx, r),
        pre.payroll_at(ctx.payroll@) is Some,
        ctx.admin@ == pre.payroll_at(ctx.payroll@)->Some_0.admin@,
        match employee_address_of(pre.program(), ctx.payroll@, ctx.employee_wallet@) {
            Some(a) => pre.employee_at(a) is None,
            None => false,
        },
    ensures
        r == Err::<u64, CustomError>(CustomError::NotFound),
        unchanged(pre, post),
{
}

/// A removal by anyone but the payroll's administrator is refused as
/// unauthorized and changes nothing: records, counts and balances stay,
/// whether or not the employee record exists.
pub proof fn law_removal_needs_admin(
    pre: Ledger,
    post: Ledger,
    ctx: RemoveEmployee,
    r: Result<u64, CustomError>,
)
    requires
        remove_employee_post(pre, post, ctx, r),
        pre.payroll_at(ctx.payroll@) is Some,
        ctx.admin@ != pre.payroll_at(ctx.payroll@)->Some_0.admin@,
    ensures
        r == Err::<u64, CustomError>(CustomError::Unauthorized),
        unchanged(pre, post),
{
}

/// A removal of an existing employee record by the administrator, whose
/// balance has room for the swept value, succeeds: it frees the record, moves
/// exactly its value balance to the administrator and uncounts it, never below
/// zero. The administrator's key must differ from the employee record's address.
pub proof fn law_removal_sweeps_value(
    pre: Ledger,
    post: Ledger,
    ctx: RemoveEmployee,
    r: Result<u64, CustomError>,
    a: Seq<u8>,
)
    requires
        remove_employee_post(pre, post, ctx, r),
        pre.payroll_at(ctx.payroll@) is Some,
        ctx.admin@ == pre.payroll_at(ctx.payroll@)->Some_0.admin@,
        employee_address_of(pre.program(), ctx.payroll@, ctx.employee_wallet@) == Some(a),
        pre.employee_at(a) is Some,
        ctx.admin@ != a,
        pre.balance_of(ctx.admin@) + pre.balance_of(a) <= u64::MAX,
    ensures
        r == Ok::<u64, CustomError>(pre.balance_of(a)),
        post.record_at(a) is None,
        post.balance_of(a) == 0,
        post.balance_of(ctx.admin@) == pre.balance_of(ctx.admin@) + pre.balance_of(a),
        post.payroll_at(ctx.payroll@)->Some_0.employee_count == count_after_removal(
            pre.payroll_at(ctx.payroll@)->Some_0.employee_count,
        ),
{
    assert(a != ctx.payroll@);
}

} // verus!
