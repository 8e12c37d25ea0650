use vstd::prelude::*;

verus! {

/// Outcome of delivery to one recipient.
#[derive(Debug)]
pub enum DeliveryResult {
    /// Not attempted yet.
    Queued,
    /// Accepted by the relay.
    Delivered,
    /// Permanently refused, with the reason.
    Failed(String),
    /// Temporarily refused, with the reason and the attempts made so far.
    Deferred(String, u32),
}

impl Clone for DeliveryResult {
    fn clone(&self) -> (r: Self)
        ensures
            r == *self,
    {
        match self {
            DeliveryResult::Queued => DeliveryResult::Queued,
            DeliveryResult::Delivered => DeliveryResult::Delivered,
            DeliveryResult::Failed(reason) => DeliveryResult::Failed(reason.clone()),
            DeliveryResult::Deferred(reason, n) => DeliveryResult::Deferred(reason.clone(), *n),
        }
    }
}

impl DeliveryResult {
    /// Delivered and Failed are final; Queued and Deferred are not.
    pub open spec fn terminal(self) -> bool {
        self is Delivered || self is Failed
    }

    pub fn is_terminal(&self) -> (r: bool)
        ensures
            r == self.terminal(),
    {
        match self {
            DeliveryResult::Delivered => true,
            DeliveryResult::Failed(_) => true,
            _ => false,
        }
    }
}

/// The delivery state of one recipient of a message.
#[derive(Debug)]
pub struct RecipientStatus {
    pub recipient: String,
    pub result: DeliveryResult,
}

impl Clone for RecipientStatus {
    fn clone(&self) -> (r: Self)
        ensures
            r == *self,
    {
        RecipientStatus { recipient: self.recipient.clone(), result: self.result.clone() }
    }
}

/// The delivery state of one message: a result per recipient, and whether a
/// consumer has already seen it in a terminal state.
#[derive(Debug)]
pub struct DeliveryStatus {
    pub message_id: u64,
    pub recipients: Vec<RecipientStatus>,
    pub retrieved: bool,
}

/// The kinds of per-recipient results that are counted.
#[derive(Clone, Copy, Debug, PartialEq, Eq, Structural)]
pub enum ResultKind {
    Delivered,
    Failed,
    Deferred,
}

pub open spec fn kind_matches(result: DeliveryResult, kind: ResultKind) -> bool {
    match kind {
        ResultKind::Delivered => result is Delivered,
        ResultKind::Failed => result is Failed,
        ResultKind::Deferred => result is Deferred,
    }
}

/// How many recipients of `s` have a result of `kind`.
pub open spec fn tally(s: Seq<RecipientStatus>, kind: ResultKind) -> nat
    decreases s.len(),
{
    if s.len() == 0 {
        0
    } else {
        tally(s.drop_last(), kind) + if kind_matches(s.last().result, kind) {
            1nat
        } else {
            0nat
        }
    }
}

proof fn lemma_tally_bounded(s: Seq<RecipientStatus>, kind: ResultKind)
    ensures
        tally(s, kind) <= s.len(),
    decreases s.len(),
{
    if s.len() > 0 {
        lemma_tally_bounded(s.drop_last(), kind);
    }
}

/// A copy of a list of recipient states.
fn copy_recipients(v: &Vec<RecipientStatus>) -> (r: Vec<RecipientStatus>)
    ensures
        r@ == v@,
{
    let mut out: Vec<RecipientStatus> = Vec::new();
    let mut i: usize = 0;
    while i < v.len()
        invariant
            i <= v.len(),
            out@ == v@.take(i as int),
        decreases v.len() - i,
    {
        out.push(v[i].clone());
        assert(out@ =~= v@.take(i as int + 1));
        i = i + 1;
    }
    assert(out@ =~= v@);
    out
}

/// The mathematical value of a `DeliveryStatus`.
pub struct StatusView {
    pub message_id: u64,
    pub recipients: Seq<RecipientStatus>,
    pub retrieved: bool,
}

impl View for DeliveryStatus {
    type V = StatusView;

    open spec fn view(&self) -> StatusView {
        StatusView {
            message_id: self.message_id,
            recipients: self.recipients@,
            retrieved: self.retrieved,
        }
    }
}

impl Clone for DeliveryStatus {
    fn clone(&self) -> (r: Self)
        ensures
            r@ == self@,
    {
        let recipients = copy_recipients(&self.recipients);
        DeliveryStatus { message_id: self.message_id, recipients, retrieved: self.retrieved }
    }
}

impl StatusView {
    /// Every recipient has a terminal result.
    pub open spec fn complete(self) -> bool {
        forall|i: int| 0 <= i < self.recipients.len() ==> (#[trigger] self.recipients[i]).result.terminal()
    }

    /// Every recipient was delivered.
    pub open spec fn all_delivered(self) -> bool {
        forall|i: int| 0 <= i < self.recipients.len() ==> (#[trigger] self.recipients[i]).result is Delivered
    }

    /// Whether the status lists exactly `recipients`, in order.
    pub open spec fn lists(self, recipients: Seq<String>) -> bool {
        &&& self.recipients.len() == recipients.len()
        &&& forall|i: int|
            0 <= i < recipients.len() ==> (#[trigger] self.recipients[i]).recipient@ == recipients[i]@
    }

    /// The status a message starts with: every recipient queued, not yet seen.
    pub open spec fn queued_for(self, message_id: u64, recipients: Seq<String>) -> bool {
        &&& self.message_id == message_id
        &&& !self.retrieved
        &&& self.lists(recipients)
        &&& forall|i: int| 0 <= i < recipients.len() ==> (#[trigger] self.recipients[i]).result is Queued
    }

}

impl DeliveryStatus {
    /// The status a message starts with.
    pub fn queued(message_id: u64, recipients: &Vec<String>) -> (r: Self)
        ensures
            r@.queued_for(message_id, recipients@),
    {
        let mut out: Vec<RecipientStatus> = Vec::new();
        let mut i: usize = 0;
        while i < recipients.len()
            invariant
                i <= recipients@.len(),
                out@.len() == i,
                forall|j: int|
                    0 <= j < i ==> (#[trigger] out@[j]).recipient == recipients@[j]
                        && out@[j].result is Queued,
            decreases recipients.len() - i,
        {
            out.push(RecipientStatus { recipient: recipients[i].clone(), result: DeliveryResult::Queued });
            i = i + 1;
        }
        DeliveryStatus { message_id, recipients: out, retrieved: false }
    }

    /// True iff every recipient result is terminal.
    pub fn completed(&self) -> (r: bool)
        ensures
            r == self@.complete(),
    {
        let mut i: usize = 0;
        while i < self.recipients.len()
            invariant
                i <= self.recipients@.len(),
                forall|j: int| 0 <= j < i ==> (#[trigger] self.recipients@[j]).result.terminal(),
            decreases self.recipients.len() - i,
        {
            if !self.recipients[i].result.is_terminal() {
                return false;
            }
            i = i + 1;
        }
        true
    }

    /// True iff every recipient result is Delivered.
    pub fn succeeded(&self) -> (r: bool)
        ensures
            r == (self@.complete() && self@.all_delivered()),
    {
        let mut i: usize = 0;
        while i < self.recipients.len()
            invariant
                i <= self.recipients@.len(),
                forall|j: int| 0 <= j < i ==> (#[trigger] self.recipients@[j]).result is Delivered,
            decreases self.recipients.len() - i,
        {
            match self.recipients[i].result {
                DeliveryResult::Delivered => {},
                _ => {
                    return false;
                },
            }
            i = i + 1;
        }
        true
    }

    fn count_kind(&self, kind: ResultKind) -> (r: usize)
        ensures
            r as nat == tally(self.recipients@, kind),
    {
        let mut n: usize = 0;
        let mut i: usize = 0;
        while i < self.recipients.len()
            invariant
                i <= self.recipients@.len(),
                n as nat == tally(self.recipients@.take(i as int), kind),
            decreases self.recipients.len() - i,
        {
            let s = Ghost(self.recipients@.take(i as int + 1));
            assert(s@.drop_last() =~= self.recipients@.take(i as int));
            proof {
                lemma_tally_bounded(self.recipients@.take(i as int), kind);
            }
            let hit = match (&self.recipients[i].result, kind) {
                (DeliveryResult::Delivered, ResultKind::Delivered) => true,
                (DeliveryResult::Failed(_), ResultKind::Failed) => true,
                (DeliveryResult::Deferred(_, _), ResultKind::Deferred) => true,
                _ => false,
            };
            if hit {
                n = n + 1;
            }
            i = i + 1;
        }
        assert(self.recipients@.take(self.recipients@.len() as int) =~= self.recipients@);
        n
    }

    /// Number of recipients delivered.
    pub fn delivered_count(&self) -> (r: usize)
        ensures
            r as nat == tally(self.recipients@, ResultKind::Delivered),
    {
        self.count_kind(ResultKind::Delivered)
    }

    /// Number of recipients permanently failed.
    pub fn failed_count(&self) -> (r: usize)
        ensures
            r as nat == tally(self.recipients@, ResultKind::Failed),
    {
        self.count_kind(ResultKind::Failed)
    }

    /// Number of recipients deferred for a retry.
    pub fn deferred_count(&self) -> (r: usize)
        ensures
            r as nat == tally(self.recipients@, ResultKind::Deferred),
    {
        self.count_kind(ResultKind::Deferred)
    }
}

} // verus!
