use vstd::prelude::*;

use crate::date::{date_le, is_on_or_before, parse_ymd, parsed_ymd, Date};
use crate::scheduler::date_of;

verus! {

/// Whether the deferred bucket named `name` is due on `today`: the name is a
/// date written `YYYY-MM-DD` on or before `today`. Any other name is not due.
pub open spec fn bucket_due(name: Seq<char>, today: Date) -> bool {
    match parsed_ymd(name) {
        Some(t) => date_le(date_of(t), today),
        None => false,
    }
}

/// The names among `names` whose buckets are due, in order.
pub open spec fn due_names(names: Seq<String>, today: Date) -> Seq<String>
    decreases names.len(),
{
    if names.len() == 0 {
        Seq::empty()
    } else {
        let rest = due_names(names.drop_last(), today);
        if bucket_due(names.last()@, today) {
            rest.push(names.last())
        } else {
            rest
        }
    }
}

/// Whether one deferred bucket is due on `today`.
pub fn is_bucket_due(name: &str, today: &Date) -> (r: bool)
    ensures
        r == bucket_due(name@, *today),
{
    match parse_ymd(name) {
        Some(d) => {
            assert(d == date_of(d.ymd()));
            is_on_or_before(&d, today)
        },
        None => false,
    }
}

/// The deferred buckets to promote on `today`, in the order given.
pub fn due_buckets(names: &Vec<String>, today: &Date) -> (r: Vec<String>)
    ensures
        r@ == due_names(names@, *today),
{
    let mut out: Vec<String> = Vec::new();
    let mut i: usize = 0;
    while i < names.len()
        invariant
            i <= names@.len(),
            out@ == due_names(names@.take(i as int), *today),
        decreases names.len() - i,
    {
        proof {
            assert(names@.take(i as int + 1).drop_last() =~= names@.take(i as int));
        }
        if is_bucket_due(names[i].as_str(), today) {
            out.push(names[i].clone());
        }
        i = i + 1;
    }
    proof {
        assert(names@.take(names@.len() as int) =~= names@);
    }
    out
}

} // verus!
