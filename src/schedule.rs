//! The recurring-payment schedule of an employee record.
use vstd::prelude::*;
use vstd::string::StringExecFns;

verus! {

/// Length of a day in seconds; no calendar adjustment is made.
pub const ONE_DAY: i64 = 86400;

/// The logical cadence that a schedule tag stands for.
#[derive(Clone, Copy, Debug, PartialEq, Eq, Structural)]
pub enum Schedule {
    Weekly,
    BiWeekly,
    Monthly,
    Custom,
}

/// The tag of the weekly cadence, which unrecognised tags fall back to.
pub open spec fn weekly_tag() -> Seq<char> {
    seq!['W', 'e', 'e', 'k', 'l', 'y']
}

pub open spec fn bi_weekly_tag() -> Seq<char> {
    seq!['B', 'i', '-', 'W', 'e', 'e', 'k', 'l', 'y']
}

pub open spec fn monthly_tag() -> Seq<char> {
    seq!['M', 'o', 'n', 't', 'h', 'l', 'y']
}

/// Which cadence a schedule tag denotes.
pub open spec fn schedule_of(tag: Seq<char>) -> Schedule {
    if tag == weekly_tag() {
        Schedule::Weekly
    } else if tag == bi_weekly_tag() {
        Schedule::BiWeekly
    } else if tag == monthly_tag() {
        Schedule::Monthly
    } else {
        Schedule::Custom
    }
}

/// Days between two payments; a custom cadence is paid weekly.
pub open spec fn interval_days(s: Schedule) -> int {
    match s {
        Schedule::Weekly => 7,
        Schedule::BiWeekly => 14,
        Schedule::Monthly => 30,
        Schedule::Custom => 7,
    }
}

/// The next payment time after a payment at `now`.
pub open spec fn next_payment_after(s: Schedule, now: int) -> int {
    now + interval_days(s) * ONE_DAY
}

/// The tag kept after a payment: a recognised tag stays, any other becomes weekly.
pub open spec fn tag_after_payment(tag: Seq<char>) -> Seq<char> {
    if schedule_of(tag) == Schedule::Custom {
        weekly_tag()
    } else {
        tag
    }
}

/// The tag of the weekly cadence as a string.
pub fn weekly() -> (r: String)
    ensures
        r@ == weekly_tag(),
{
    let r = String::from_str("Weekly");
    proof {
        reveal_strlit("Weekly");
        assert(r@ =~= weekly_tag());
    }
    r
}

/// Classifies a schedule tag.
pub fn classify(tag: &String) -> (r: Schedule)
    ensures
        r == schedule_of(tag@),
{
    let weekly = String::from_str("Weekly");
    let bi_weekly = String::from_str("Bi-Weekly");
    let monthly = String::from_str("Monthly");
    proof {
        reveal_strlit("Weekly");
        reveal_strlit("Bi-Weekly");
        reveal_strlit("Monthly");
        assert(weekly@ =~= weekly_tag());
        assert(bi_weekly@ =~= bi_weekly_tag());
        assert(monthly@ =~= monthly_tag());
    }
    if *tag == weekly {
        Schedule::Weekly
    } else if *tag == bi_weekly {
        Schedule::BiWeekly
    } else if *tag == monthly {
        Schedule::Monthly
    } else {
        Schedule::Custom
    }
}

/// The next payment time after a payment at `now`, or `None` where it
/// does not fit in an `i64`.
pub fn next_payment(s: Schedule, now: i64) -> (r: Option<i64>)
    ensures
        match r {
            Some(t) => t == next_payment_after(s, now as int),
            None => next_payment_after(s, now as int) > i64::MAX,
        },
{
    let days: i64 = match s {
        Schedule::Weekly => 7,
        Schedule::BiWeekly => 14,
        Schedule::Monthly => 30,
        Schedule::Custom => 7,
    };
    now.checked_add(days * ONE_DAY)
}

} // verus!
