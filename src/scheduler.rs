use vstd::prelude::*;

use crate::date::{add_months, days_from_ce, months_later, Date, MAX_YEAR};
use crate::store::{
    has_id, has_origin, index_of, keeps_all_messages, Envelope, FileStorage, Location, MessageView,
    Origin, StoreError,
};

verus! {

/// How far ahead of a contract's end a renewal is scheduled, in days.
pub const DEFAULT_LOOKAHEAD_DAYS: u32 = 31;

/// The invoice period of a contract that sets none, in months.
pub const DEFAULT_PERIOD_MONTHS: i64 = 1;

/// A recurring obligation: a contract that may renew automatically.
#[derive(Clone, Copy, Debug, PartialEq, Eq, Structural)]
pub struct Contract {
    pub id: i64,
    pub sender_id: i64,
    pub recipient_id: i64,
    pub start_date: Option<Date>,
    pub end_date: Option<Date>,
    pub auto_renew: Option<bool>,
    pub invoice_period_months: Option<i64>,
}

/// The part of an account that addressing needs.
#[derive(Debug)]
pub struct Account {
    pub id: i64,
    pub name: Option<String>,
    pub email: Option<String>,
}

/// Why one obligation could not be scheduled; the others go on.
#[derive(Clone, Copy, Debug, PartialEq, Eq, Structural)]
pub enum SchedulingError {
    /// The invoice period is below one month or too large.
    InvalidPeriod,
    /// A stored date does not exist.
    InvalidDate,
    /// A computed date falls outside the supported range.
    DateOutOfRange,
    /// The recipient has no email address.
    MissingRecipientEmail,
}

/// Why a renewal was not committed.
#[derive(Clone, Copy, Debug, PartialEq, Eq, Structural)]
pub enum RenewalError {
    Scheduling(SchedulingError),
    Store(StoreError),
}

/// What renewing one contract takes: a message due on `due_date`, and the
/// contract's end moved from `end_date` to `new_end_date`.
#[derive(Clone, Copy, Debug, PartialEq, Eq, Structural)]
pub struct RenewalPlan {
    pub contract_id: i64,
    pub period_months: u32,
    pub end_date: Date,
    pub new_end_date: Date,
    pub due_date: Date,
}

pub open spec fn period_of(c: Contract) -> int {
    match c.invoice_period_months {
        Some(p) => p as int,
        None => DEFAULT_PERIOD_MONTHS as int,
    }
}

pub open spec fn date_of(t: (int, int, int)) -> Date {
    Date { year: t.0 as i32, month: t.1 as u32, day: t.2 as u32 }
}

pub open spec fn date_ok(d: Option<Date>) -> bool {
    match d {
        Some(x) => x.wf(),
        None => true,
    }
}

/// The start of a contract; today where it has none.
pub open spec fn start_of(c: Contract, today: Date) -> Date {
    match c.start_date {
        Some(s) => s,
        None => today,
    }
}

/// The end of a contract; one period after its start where it has none.
pub open spec fn end_of(c: Contract, today: Date) -> Date {
    match c.end_date {
        Some(e) => e,
        None => date_of(months_later(start_of(c, today), period_of(c) as nat)),
    }
}

/// What scheduling decides for one contract on `today`.
pub open spec fn renewal_of(c: Contract, today: Date, lookahead_days: u32) -> Result<
    Option<RenewalPlan>,
    SchedulingError,
> {
    let p = period_of(c);
    if c.auto_renew != Some(true) {
        Ok(None)
    } else if p < 1 || p > u32::MAX {
        Err(SchedulingError::InvalidPeriod)
    } else if !date_ok(c.start_date) || !date_ok(c.end_date) {
        Err(SchedulingError::InvalidDate)
    } else if c.end_date is None && months_later(start_of(c, today), p as nat).0 > MAX_YEAR {
        Err(SchedulingError::DateOutOfRange)
    } else if end_of(c, today).ordinal() >= today.ordinal() + lookahead_days {
        Ok(None)
    } else if months_later(end_of(c, today), p as nat).0 > MAX_YEAR {
        Err(SchedulingError::DateOutOfRange)
    } else {
        Ok(
            Some(
                RenewalPlan {
                    contract_id: c.id,
                    period_months: p as u32,
                    end_date: end_of(c, today),
                    new_end_date: date_of(months_later(end_of(c, today), p as nat)),
                    due_date: today,
                },
            ),
        )
    }
}

/// A planned renewal moves the contract's end by exactly one invoice period
/// (calendar months, day of month clamped to 28) to an existing date, and
/// dates its message today.
pub proof fn lemma_plan_advances_one_period(c: Contract, today: Date, lookahead_days: u32)
    requires
        today.wf(),
        renewal_of(c, today, lookahead_days) is Ok,
        renewal_of(c, today, lookahead_days)->Ok_0 is Some,
    ensures
        ({
            let plan = renewal_of(c, today, lookahead_days)->Ok_0->Some_0;
            &&& plan.period_months == period_of(c)
            &&& plan.period_months >= 1
            &&& plan.end_date == end_of(c, today)
            &&& plan.new_end_date.ymd() == months_later(plan.end_date, plan.period_months as nat)
            &&& plan.new_end_date.wf()
            &&& plan.new_end_date != plan.end_date
            &&& plan.due_date == today
        }),
{
    let plan = renewal_of(c, today, lookahead_days)->Ok_0->Some_0;
    let e = plan.end_date;
    let p = plan.period_months as nat;
    let total = (e.month - 1) + p;
    assert(e.wf()) by {
        if c.end_date is None {
            let st = start_of(c, today);
            assert(st.wf());
            let t = (st.month - 1) + period_of(c) as nat;
            assert(0 <= t % 12 < 12);
        }
    }
    assert(0 <= total % 12 < 12);
    assert(total / 12 >= 0);
    if plan.new_end_date.year == e.year {
        assert(total / 12 == 0);
        assert(total % 12 == total);
    }
}

/// A contract that does not renew automatically, or whose valid data put its
/// end at least `lookahead_days` days after today, is not due: scheduling it
/// returns `Ok(None)`, and `schedule_renewal` then writes nothing.
pub proof fn lemma_not_due_is_quiet(c: Contract, today: Date, lookahead_days: u32)
    requires
        today.wf(),
        c.auto_renew != Some(true) || ({
            &&& 1 <= period_of(c) <= u32::MAX
            &&& date_ok(c.start_date)
            &&& date_ok(c.end_date)
            &&& (c.end_date is Some || months_later(start_of(c, today), period_of(c) as nat).0
                <= MAX_YEAR)
            &&& end_of(c, today).ordinal() >= today.ordinal() + lookahead_days
        }),
    ensures
        renewal_of(c, today, lookahead_days) == Ok::<Option<RenewalPlan>, SchedulingError>(None),
{
}

/// Whether a contract ending on day number `end_day` is within
/// `lookahead_days` days of day number `today_day`.
pub fn within_window(end_day: i32, today_day: i32, lookahead_days: u32) -> (r: bool)
    ensures
        r == (end_day < today_day + lookahead_days),
{
    (end_day as i64) < today_day as i64 + lookahead_days as i64
}

/// Decides whether an auto-renewing contract is due for renewal on `today`:
/// its end (one period after its start where unset) falls within
/// `lookahead_days` days. A due contract gets a message dated today and its
/// end advanced by one invoice period.
pub fn plan_renewal(contract: &Contract, today: &Date, lookahead_days: u32) -> (r: Result<
    Option<RenewalPlan>,
    SchedulingError,
>)
    requires
        today.wf(),
    ensures
        r == renewal_of(*contract, *today, lookahead_days),
{
    match contract.auto_renew {
        Some(true) => {},
        _ => {
            return Ok(None);
        },
    }
    let months: i64 = match contract.invoice_period_months {
        Some(p) => p,
        None => DEFAULT_PERIOD_MONTHS,
    };
    if months < 1 || months > u32::MAX as i64 {
        return Err(SchedulingError::InvalidPeriod);
    }
    let months: u32 = months as u32;
    if let Some(s) = contract.start_date {
        if !s.is_valid() {
            return Err(SchedulingError::InvalidDate);
        }
    }
    if let Some(e) = contract.end_date {
        if !e.is_valid() {
            return Err(SchedulingError::InvalidDate);
        }
    }
    let start = match contract.start_date {
        Some(s) => s,
        None => *today,
    };
    let end = match contract.end_date {
        Some(e) => e,
        None => match add_months(start, months) {
            Some(e) => e,
            None => {
                return Err(SchedulingError::DateOutOfRange);
            },
        },
    };
    assert(end == end_of(*contract, *today));
    if !within_window(days_from_ce(&end), days_from_ce(today), lookahead_days) {
        return Ok(None);
    }
    let new_end = match add_months(end, months) {
        Some(d) => d,
        None => {
            return Err(SchedulingError::DateOutOfRange);
        },
    };
    Ok(
        Some(
            RenewalPlan {
                contract_id: contract.id,
                period_months: months,
                end_date: end,
                new_end_date: new_end,
                due_date: *today,
            },
        ),
    )
}

/// The envelope of a renewal notice: from the sender's address, or
/// `fallback_from` where the sender has none, to the recipient's address.
pub fn renewal_envelope(sender: &Account, recipient: &Account, fallback_from: &str) -> (r: Result<
    Envelope,
    SchedulingError,
>)
    ensures
        recipient.email is None <==> r is Err,
        r is Err ==> r == Err::<Envelope, SchedulingError>(SchedulingError::MissingRecipientEmail),
        r matches Ok(env) ==> {
            &&& env.from@ == match sender.email {
                Some(e) => e@,
                None => fallback_from@,
            }
            &&& env.to@.len() == 1
            &&& env.to@[0]@ == recipient.email.unwrap()@
        },
{
    let to = match &recipient.email {
        Some(e) => e.clone(),
        None => {
            return Err(SchedulingError::MissingRecipientEmail);
        },
    };
    let from = match &sender.email {
        Some(e) => e.clone(),
        None => fallback_from.to_string(),
    };
    let mut recipients: Vec<String> = Vec::new();
    recipients.push(to);
    Ok(Envelope { from, to: recipients })
}

/// Schedules the renewal of `contract` on `today`, if it is due: stores the
/// message (deferred, due today, marked with the contract and the period end
/// it renews) and advances the contract's end by one period, both or
/// neither. Where a message for that contract and period end is already
/// stored, because an earlier advance was lost, no second message is made and
/// only the end is advanced. Returns the message's id, or `None` where nothing
/// is due.
pub fn schedule_renewal(
    store: &mut FileStorage,
    contract: &mut Contract,
    today: &Date,
    lookahead_days: u32,
    envelope: Envelope,
    content: Vec<u8>,
) -> (r: Result<Option<u64>, RenewalError>)
    requires
        old(store).wf(),
        today.wf(),
    ensures
        final(store).wf(),
        (*final(contract) != *old(contract)) <==> r matches Ok(Some(_)),
        (final(store)@ != old(store)@) ==> r matches Ok(Some(_)),
        keeps_all_messages(old(store)@, final(store)@),
        match renewal_of(*old(contract), *today, lookahead_days) {
            Err(e) => r == Err::<Option<u64>, RenewalError>(RenewalError::Scheduling(e)),
            Ok(None) => r == Ok::<Option<u64>, RenewalError>(None),
            Ok(Some(plan)) => {
                let origin = Origin { contract_id: old(contract).id, period_end: plan.end_date };
                &&& r matches Ok(Some(_)) ==> *final(contract) == Contract {
                    end_date: Some(plan.new_end_date),
                    ..*old(contract)
                }
                &&& has_origin(old(store)@, origin) ==> {
                    &&& r matches Ok(Some(id)) && has_id(old(store)@, id) && old(
                        store,
                    )@[index_of(old(store)@, id)].message.origin == Some(origin)
                    &&& final(store)@ == old(store)@
                }
                &&& !has_origin(old(store)@, origin) ==> {
                    &&& envelope.to@.len() == 0 ==> r == Err::<Option<u64>, RenewalError>(
                        RenewalError::Store(StoreError::NoRecipients),
                    )
                    &&& envelope.to@.len() > 0 && old(store).next_free() == u64::MAX ==> r
                        == Err::<Option<u64>, RenewalError>(
                        RenewalError::Store(StoreError::IdsExhausted),
                    )
                    &&& envelope.to@.len() > 0 && old(store).next_free() < u64::MAX ==> r
                        == Ok::<Option<u64>, RenewalError>(Some(old(store).next_free()))
                    &&& r matches Ok(Some(id)) ==> {
                        &&& final(store)@.len() == old(store)@.len() + 1
                        &&& final(store)@.drop_last() == old(store)@
                        &&& final(store)@.last().status.queued_for(id, envelope.to@)
                        &&& final(store)@.last().message == (MessageView {
                            id,
                            from: envelope.from,
                            to: envelope.to@,
                            content: content@,
                            due_date: plan.due_date,
                            origin: Some(origin),
                        })
                        &&& final(store)@.last().location == Location::Deferred
                    }
                }
            },
        },
{
    let plan = match plan_renewal(contract, today, lookahead_days) {
        Err(e) => {
            return Err(RenewalError::Scheduling(e));
        },
        Ok(None) => {
            return Ok(None);
        },
        Ok(Some(plan)) => plan,
    };
    proof {
        lemma_plan_advances_one_period(*old(contract), *today, lookahead_days);
        if old(contract).end_date is Some {
            assert(old(contract).end_date.unwrap() == plan.end_date);
        }
    }
    let origin = Origin { contract_id: contract.id, period_end: plan.end_date };
    let id = match store.find_origin(&origin) {
        Some(id) => id,
        None => match store.create(envelope, content, plan.due_date, Some(origin)) {
            Ok(id) => id,
            Err(e) => {
                return Err(RenewalError::Store(e));
            },
        },
    };
    contract.end_date = Some(plan.new_end_date);
    Ok(Some(id))
}

} // verus!
