use vstd::prelude::*;

use crate::date::{date_le, is_on_or_before, Date};
use crate::status::{DeliveryResult, DeliveryStatus, RecipientStatus, StatusView};

verus! {

/// Sender and ordered recipients of a message.
#[derive(Debug)]
pub struct Envelope {
    pub from: String,
    pub to: Vec<String>,
}

/// The obligation a message was generated for: a contract and the end of
/// the period that the message renews.
#[derive(Clone, Copy, Debug, PartialEq, Eq, Structural)]
pub struct Origin {
    pub contract_id: i64,
    pub period_end: Date,
}

/// A fully composed outbound message. Content and envelope never change once
/// the message is stored.
#[derive(Debug)]
pub struct Message {
    pub id: u64,
    pub from: String,
    pub to: Vec<String>,
    pub content: Vec<u8>,
    pub due_date: Date,
    pub origin: Option<Origin>,
}

/// The mathematical value of a `Message`.
pub struct MessageView {
    pub id: u64,
    pub from: String,
    pub to: Seq<String>,
    pub content: Seq<u8>,
    pub due_date: Date,
    pub origin: Option<Origin>,
}

impl View for Message {
    type V = MessageView;

    open spec fn view(&self) -> MessageView {
        MessageView {
            id: self.id,
            from: self.from,
            to: self.to@,
            content: self.content@,
            due_date: self.due_date,
            origin: self.origin,
        }
    }
}

/// A copy of a list of addresses.
fn copy_addresses(v: &Vec<String>) -> (r: Vec<String>)
    ensures
        r@ == v@,
{
    let mut out: Vec<String> = Vec::new();
    let mut i: usize = 0;
    while i < v.len()
        invariant
            i <= v.len(),
            out@ == v@.take(i as int),
        decreases v.len() - i,
    {
        out.push(v[i].clone());
        assert(out@ =~= v@.take(i as int + 1));
        i = i + 1;
    }
    assert(out@ =~= v@);
    out
}

/// A copy of a byte buffer.
fn copy_bytes(v: &Vec<u8>) -> (r: Vec<u8>)
    ensures
        r@ == v@,
{
    let mut out: Vec<u8> = Vec::new();
    let mut i: usize = 0;
    while i < v.len()
        invariant
            i <= v.len(),
            out@ == v@.take(i as int),
        decreases v.len() - i,
    {
        out.push(v[i]);
        assert(out@ =~= v@.take(i as int + 1));
        i = i + 1;
    }
    assert(out@ =~= v@);
    out
}

impl Clone for Message {
    fn clone(&self) -> (r: Self)
        ensures
            r@ == self@,
    {
        Message {
            id: self.id,
            from: self.from.clone(),
            to: copy_addresses(&self.to),
            content: copy_bytes(&self.content),
            due_date: self.due_date,
            origin: self.origin,
        }
    }
}

/// Where a message stands in its lifecycle.
#[derive(Clone, Copy, Debug, PartialEq, Eq, Structural)]
pub enum Location {
    /// Waiting for its due date.
    Deferred,
    /// Due and promoted for the current run.
    Ready,
    /// Every recipient delivered.
    Sent,
    /// At least one recipient failed for good.
    Failed,
}

impl Location {
    pub open spec fn closed(self) -> bool {
        self is Sent || self is Failed
    }
}

/// Why a store operation was refused.
#[derive(Clone, Copy, Debug, PartialEq, Eq, Structural)]
pub enum StoreError {
    /// No message has the id.
    NotFound,
    /// The message is already sent or failed; its record no longer changes.
    Closed,
    /// The message has no recipient.
    NoRecipients,
    /// The status does not belong to the message.
    Mismatch,
    /// No further id can be handed out.
    IdsExhausted,
    /// The message is not in the ready location.
    NotReady,
    /// The number of transport outcomes differs from the number of recipients.
    OutcomeCount,
    /// A message with the id is already stored.
    Duplicate,
    /// The location does not fit the status: sent or failed exactly when complete.
    WrongLocation,
}

/// One stored message with its status and location.
struct StoredMessage {
    message: Message,
    status: DeliveryStatus,
    location: Location,
}

/// The mathematical value of a stored record.
pub struct RecordView {
    pub message: MessageView,
    pub status: StatusView,
    pub location: Location,
}

impl View for StoredMessage {
    type V = RecordView;

    closed spec fn view(&self) -> RecordView {
        RecordView { message: self.message@, status: self.status@, location: self.location }
    }
}

/// The location that a status calls for: sent or failed once complete,
/// otherwise `prior`.
pub open spec fn placed(status: StatusView, prior: Location) -> Location {
    if status.complete() {
        if status.all_delivered() {
            Location::Sent
        } else {
            Location::Failed
        }
    } else {
        prior
    }
}

/// A record is consistent: its status is the message's, lists its recipients,
/// and is complete exactly when the record is sent or failed.
pub open spec fn record_ok(r: RecordView) -> bool {
    &&& r.status.message_id == r.message.id
    &&& r.message.to.len() > 0
    &&& r.status.lists(r.message.to)
    &&& (r.location is Sent <==> (r.status.complete() && r.status.all_delivered()))
    &&& (r.location is Failed <==> (r.status.complete() && !r.status.all_delivered()))
}

pub open spec fn ids_unique(s: Seq<RecordView>) -> bool {
    forall|i: int, j: int|
        0 <= i < s.len() && 0 <= j < s.len() && i != j ==> #[trigger] s[i].message.id
            != #[trigger] s[j].message.id
}

pub open spec fn records_ok(s: Seq<RecordView>) -> bool {
    &&& ids_unique(s)
    &&& forall|i: int| 0 <= i < s.len() ==> record_ok(#[trigger] s[i])
}

/// Whether a stored message was generated for `origin`.
pub open spec fn has_origin(s: Seq<RecordView>, origin: Origin) -> bool {
    exists|i: int| 0 <= i < s.len() && #[trigger] s[i].message.origin == Some(origin)
}

/// Whether `location` is where a record with `status` belongs.
pub open spec fn fits(status: StatusView, location: Location) -> bool {
    &&& (location is Sent <==> (status.complete() && status.all_delivered()))
    &&& (location is Failed <==> (status.complete() && !status.all_delivered()))
}

pub open spec fn has_id(s: Seq<RecordView>, id: u64) -> bool {
    exists|i: int| 0 <= i < s.len() && #[trigger] s[i].message.id == id
}

/// The position of the record with `id`.
pub open spec fn index_of(s: Seq<RecordView>, id: u64) -> int {
    choose|i: int| 0 <= i < s.len() && #[trigger] s[i].message.id == id
}

/// Records that existed before keep their message, and a sent or failed
/// record keeps its message, location and recipient results.
pub open spec fn keeps_messages(a: Seq<RecordView>, b: Seq<RecordView>) -> bool {
    &&& a.len() <= b.len()
    &&& forall|i: int|
        0 <= i < a.len() && (#[trigger] a[i]).location.closed() ==> b[i].message == a[i].message
            && b[i].location == a[i].location && b[i].status.recipients == a[i].status.recipients
}

/// Like `keeps_messages`, for every record and not only closed ones.
pub open spec fn keeps_all_messages(a: Seq<RecordView>, b: Seq<RecordView>) -> bool {
    &&& a.len() <= b.len()
    &&& forall|i: int| 0 <= i < a.len() ==> (#[trigger] b[i]).message == a[i].message
}

/// The statuses of the records that are not complete, in store order.
pub open spec fn incomplete_statuses(s: Seq<RecordView>) -> Seq<StatusView>
    decreases s.len(),
{
    if s.len() == 0 {
        Seq::empty()
    } else {
        let rest = incomplete_statuses(s.drop_last());
        if s.last().status.complete() {
            rest
        } else {
            rest.push(s.last().status)
        }
    }
}

/// A status after a poll has seen it: retrieved once complete.
pub open spec fn observed(st: StatusView) -> StatusView {
    if st.complete() {
        StatusView { retrieved: true, ..st }
    } else {
        st
    }
}

pub open spec fn observe_record(r: RecordView) -> RecordView {
    RecordView { status: observed(r.status), ..r }
}

/// Every record after a poll.
pub open spec fn observe_all(s: Seq<RecordView>) -> Seq<RecordView> {
    s.map_values(|r: RecordView| observe_record(r))
}

/// Whether a poll reports the status: not complete, or complete and not yet seen.
pub open spec fn reported(st: StatusView) -> bool {
    !st.complete() || !st.retrieved
}

/// The statuses that a poll returns, in store order, as they are after the poll.
pub open spec fn recent_statuses(s: Seq<RecordView>) -> Seq<StatusView>
    decreases s.len(),
{
    if s.len() == 0 {
        Seq::empty()
    } else {
        let rest = recent_statuses(s.drop_last());
        if reported(s.last().status) {
            rest.push(observed(s.last().status))
        } else {
            rest
        }
    }
}

/// A record after promotion for `today`.
pub open spec fn promote_record(r: RecordView, today: Date) -> RecordView {
    if r.location is Deferred && date_le(r.message.due_date, today) {
        RecordView { location: Location::Ready, ..r }
    } else {
        r
    }
}

/// Every record after promotion for `today`.
pub open spec fn promote_all(s: Seq<RecordView>, today: Date) -> Seq<RecordView> {
    s.map_values(|r: RecordView| promote_record(r, today))
}

pub open spec fn is_promoted(r: RecordView, today: Date) -> bool {
    r.location is Deferred && date_le(r.message.due_date, today)
}

/// Ids of the records that promotion for `today` moves, in store order.
pub open spec fn promoted_ids(s: Seq<RecordView>, today: Date) -> Seq<u64>
    decreases s.len(),
{
    if s.len() == 0 {
        Seq::empty()
    } else {
        let rest = promoted_ids(s.drop_last(), today);
        if is_promoted(s.last(), today) {
            rest.push(s.last().message.id)
        } else {
            rest
        }
    }
}

/// The messages in the ready location, in store order.
pub open spec fn ready_messages_of(s: Seq<RecordView>) -> Seq<MessageView>
    decreases s.len(),
{
    if s.len() == 0 {
        Seq::empty()
    } else {
        let rest = ready_messages_of(s.drop_last());
        if s.last().location is Ready {
            rest.push(s.last().message)
        } else {
            rest
        }
    }
}

/// The result recorded for one transport outcome.
pub open spec fn outcome_result(o: Result<(), String>) -> DeliveryResult {
    match o {
        Ok(_) => DeliveryResult::Delivered,
        Err(reason) => DeliveryResult::Failed(reason),
    }
}

/// The recipient results of one attempt: delivered where the transport
/// accepted, failed with its reason where it refused.
pub open spec fn attempt_results(to: Seq<String>, outcomes: Seq<Result<(), String>>) -> Seq<
    RecipientStatus,
> {
    Seq::new(
        to.len(),
        |k: int| RecipientStatus { recipient: to[k], result: outcome_result(outcomes[k]) },
    )
}

pub open spec fn all_accepted(outcomes: Seq<Result<(), String>>) -> bool {
    forall|k: int| 0 <= k < outcomes.len() ==> (#[trigger] outcomes[k]) is Ok
}

/// The first reason to refuse `put`, if any.
pub open spec fn put_error(s: Seq<RecordView>, m: MessageView, st: StatusView) -> Option<StoreError> {
    if m.to.len() == 0 {
        Some(StoreError::NoRecipients)
    } else if st.message_id != m.id || !st.lists(m.to) {
        Some(StoreError::Mismatch)
    } else if m.id == u64::MAX {
        Some(StoreError::IdsExhausted)
    } else if has_id(s, m.id) && s[index_of(s, m.id)].location.closed() {
        Some(StoreError::Closed)
    } else {
        None
    }
}

/// The first reason to refuse `restore`, if any.
pub open spec fn restore_error(
    s: Seq<RecordView>,
    m: MessageView,
    st: StatusView,
    location: Location,
) -> Option<StoreError> {
    if m.to.len() == 0 {
        Some(StoreError::NoRecipients)
    } else if st.message_id != m.id || !st.lists(m.to) {
        Some(StoreError::Mismatch)
    } else if m.id == u64::MAX {
        Some(StoreError::IdsExhausted)
    } else if has_id(s, m.id) {
        Some(StoreError::Duplicate)
    } else if !fits(st, location) {
        Some(StoreError::WrongLocation)
    } else {
        None
    }
}

/// The first reason to refuse `update_status`, if any.
pub open spec fn update_error(s: Seq<RecordView>, id: u64, st: StatusView) -> Option<StoreError> {
    if !has_id(s, id) {
        Some(StoreError::NotFound)
    } else if s[index_of(s, id)].location.closed() {
        Some(StoreError::Closed)
    } else if st.message_id != id || !st.lists(s[index_of(s, id)].message.to) {
        Some(StoreError::Mismatch)
    } else {
        None
    }
}

/// The first reason to refuse `record_attempt`, if any.
pub open spec fn attempt_error(s: Seq<RecordView>, id: u64, n: nat) -> Option<StoreError> {
    if !has_id(s, id) {
        Some(StoreError::NotFound)
    } else if !(s[index_of(s, id)].location is Ready) {
        Some(StoreError::NotReady)
    } else if n != s[index_of(s, id)].message.to.len() {
        Some(StoreError::OutcomeCount)
    } else {
        None
    }
}

pub open spec fn status_views(v: Seq<DeliveryStatus>) -> Seq<StatusView> {
    v.map_values(|d: DeliveryStatus| d@)
}

pub open spec fn message_views(v: Seq<Message>) -> Seq<MessageView> {
    v.map_values(|m: Message| m@)
}

/// The message store: one record per message, keyed by id, each in exactly
/// one lifecycle location.
pub struct FileStorage {
    records: Vec<StoredMessage>,
    next_id: u64,
}

impl View for FileStorage {
    type V = Seq<RecordView>;

    closed spec fn view(&self) -> Seq<RecordView> {
        self.records@.map_values(|r: StoredMessage| r@)
    }
}

proof fn lemma_index_of(s: Seq<RecordView>, i: int)
    requires
        ids_unique(s),
        0 <= i < s.len(),
    ensures
        has_id(s, s[i].message.id),
        index_of(s, s[i].message.id) == i,
{
    let id = s[i].message.id;
    assert(has_id(s, id));
    let j = index_of(s, id);
    assert(s[j].message.id == id);
}

impl FileStorage {
    /// The id that `create` hands out next.
    pub closed spec fn next_free(&self) -> u64 {
        self.next_id
    }

    pub open spec fn wf(&self) -> bool {
        &&& records_ok(self@)
        &&& forall|i: int| 0 <= i < self@.len() ==> (#[trigger] self@[i]).message.id < self.next_free()
    }

    /// An empty store.
    pub fn new() -> (r: FileStorage)
        ensures
            r.wf(),
            r@ == Seq::<RecordView>::empty(),
            r.next_free() == 0,
    {
        let r = FileStorage { records: Vec::new(), next_id: 0 };
        assert(r@ =~= Seq::<RecordView>::empty());
        r
    }

    /// Number of stored messages.
    pub fn len(&self) -> (r: usize)
        ensures
            r == self@.len(),
    {
        self.records.len()
    }

    fn position(&self, id: u64) -> (r: Option<usize>)
        requires
            self.wf(),
        ensures
            r is Some <==> has_id(self@, id),
            r matches Some(i) ==> i == index_of(self@, id) && i < self@.len(),
    {
        let mut i: usize = 0;
        while i < self.records.len()
            invariant
                self.wf(),
                i <= self.records@.len(),
                self@.len() == self.records@.len(),
                forall|j: int| 0 <= j < i ==> (#[trigger] self@[j]).message.id != id,
            decreases self.records.len() - i,
        {
            if self.records[i].message.id == id {
                proof {
                    lemma_index_of(self@, i as int);
                }
                return Some(i);
            }
            i = i + 1;
        }
        None
    }

    /// The message and status stored under `id`.
    pub fn get(&self, id: u64) -> (r: Result<(Message, DeliveryStatus), StoreError>)
        requires
            self.wf(),
        ensures
            r is Ok <==> has_id(self@, id),
            r is Err ==> r == Err::<(Message, DeliveryStatus), StoreError>(StoreError::NotFound),
            r matches Ok((m, st)) ==> m@ == self@[index_of(self@, id)].message && st@ == self@[index_of(
                self@,
                id,
            )].status,
    {
        match self.position(id) {
            Some(i) => Ok((self.records[i].message.clone(), self.records[i].status.clone())),
            None => Err(StoreError::NotFound),
        }
    }

    /// The location of the message stored under `id`.
    pub fn location_of(&self, id: u64) -> (r: Option<Location>)
        requires
            self.wf(),
        ensures
            r is Some <==> has_id(self@, id),
            r matches Some(l) ==> l == self@[index_of(self@, id)].location,
    {
        match self.position(id) {
            Some(i) => Some(self.records[i].location),
            None => None,
        }
    }

    /// Stores a new message, due on `due_date` and generated for `origin`, in
    /// the deferred location with every recipient queued, and returns its id.
    pub fn create(
        &mut self,
        envelope: Envelope,
        content: Vec<u8>,
        due_date: Date,
        origin: Option<Origin>,
    ) -> (r: Result<u64, StoreError>)
        requires
            old(self).wf(),
        ensures
            final(self).wf(),
            envelope.to@.len() == 0 ==> r == Err::<u64, StoreError>(StoreError::NoRecipients),
            envelope.to@.len() > 0 && old(self).next_free() == u64::MAX ==> r == Err::<
                u64,
                StoreError,
            >(StoreError::IdsExhausted),
            r is Ok <==> envelope.to@.len() > 0 && old(self).next_free() < u64::MAX,
            r is Err ==> final(self)@ == old(self)@,
            r matches Ok(id) ==> {
                &&& id == old(self).next_free()
                &&& !has_id(old(self)@, id)
                &&& final(self)@.len() == old(self)@.len() + 1
                &&& final(self)@.drop_last() == old(self)@
                &&& final(self)@.last().message == (MessageView {
                    id,
                    from: envelope.from,
                    to: envelope.to@,
                    content: content@,
                    due_date,
                    origin,
                })
                &&& final(self)@.last().status.queued_for(id, envelope.to@)
                &&& final(self)@.last().location == Location::Deferred
            },
            keeps_all_messages(old(self)@, final(self)@),
    {
        if envelope.to.len() == 0 {
            return Err(StoreError::NoRecipients);
        }
        if self.next_id == u64::MAX {
            return Err(StoreError::IdsExhausted);
        }
        let id = self.next_id;
        let status = DeliveryStatus::queued(id, &envelope.to);
        let message = Message { id, from: envelope.from, to: envelope.to, content, due_date, origin };
        let rec = StoredMessage { message, status, location: Location::Deferred };
        proof {
            assert(!rec@.status.complete()) by {
                assert(!rec@.status.recipients[0].result.terminal());
            }
        }
        self.records.push(rec);
        self.next_id = id + 1;
        proof {
            assert(self@ =~= old(self)@.push(rec@));
            assert(self@.drop_last() =~= old(self)@);
            assert(!has_id(old(self)@, id));
        }
        Ok(id)
    }

    /// Stores `message` with `status`, replacing the record with the same id.
    /// The stored status is marked not yet retrieved, so that a complete one is
    /// reported by the next poll. A complete status places the message in sent
    /// or failed; otherwise it keeps the replaced record's location, or is
    /// deferred when new.
    pub fn put(&mut self, message: Message, status: DeliveryStatus) -> (r: Result<(), StoreError>)
        requires
            old(self).wf(),
        ensures
            final(self).wf(),
            r == match put_error(old(self)@, message@, status@) {
                Some(e) => Err(e),
                None => Ok(()),
            },
            r is Err ==> final(self)@ == old(self)@,
            r is Ok && has_id(old(self)@, message.id) ==> final(self)@ == old(self)@.update(
                index_of(old(self)@, message.id),
                RecordView {
                    message: message@,
                    status: StatusView { retrieved: false, ..status@ },
                    location: placed(status@, old(self)@[index_of(old(self)@, message.id)].location),
                },
            ),
            r is Ok && !has_id(old(self)@, message.id) ==> final(self)@ == old(self)@.push(
                RecordView {
                    message: message@,
                    status: StatusView { retrieved: false, ..status@ },
                    location: placed(status@, Location::Deferred),
                },
            ),
            keeps_messages(old(self)@, final(self)@),
    {
        if message.to.len() == 0 {
            return Err(StoreError::NoRecipients);
        }
        if status.message_id != message.id || !lists_addresses(&status, &message.to) {
            return Err(StoreError::Mismatch);
        }
        if message.id == u64::MAX {
            return Err(StoreError::IdsExhausted);
        }
        let complete = status.completed();
        let delivered = status.succeeded();
        let id = message.id;
        let mut status = status;
        status.retrieved = false;
        match self.position(id) {
            Some(i) => {
                let prior = self.records[i].location;
                if prior == Location::Sent || prior == Location::Failed {
                    return Err(StoreError::Closed);
                }
                let location = if complete {
                    if delivered {
                        Location::Sent
                    } else {
                        Location::Failed
                    }
                } else {
                    prior
                };
                let rec = StoredMessage { message, status, location };
                self.records.set(i, rec);
                proof {
                    assert(self@ =~= old(self)@.update(i as int, rec@));
                }
            },
            None => {
                let location = if complete {
                    if delivered {
                        Location::Sent
                    } else {
                        Location::Failed
                    }
                } else {
                    Location::Deferred
                };
                let rec = StoredMessage { message, status, location };
                self.records.push(rec);
                proof {
                    assert(self@ =~= old(self)@.push(rec@));
                }
            },
        }
        if self.next_id <= id {
            self.next_id = id + 1;
        }
        Ok(())
    }

    /// Adds a record read back from durable storage at the location it was
    /// stored in. The location must fit the status, and the id must be new.
    pub fn restore(&mut self, message: Message, status: DeliveryStatus, location: Location) -> (r:
        Result<(), StoreError>)
        requires
            old(self).wf(),
        ensures
            final(self).wf(),
            r == match restore_error(old(self)@, message@, status@, location) {
                Some(e) => Err(e),
                None => Ok(()),
            },
            r is Err ==> final(self)@ == old(self)@,
            r is Ok ==> final(self)@ == old(self)@.push(
                RecordView { message: message@, status: status@, location },
            ),
            keeps_all_messages(old(self)@, final(self)@),
    {
        if message.to.len() == 0 {
            return Err(StoreError::NoRecipients);
        }
        if status.message_id != message.id || !lists_addresses(&status, &message.to) {
            return Err(StoreError::Mismatch);
        }
        if message.id == u64::MAX {
            return Err(StoreError::IdsExhausted);
        }
        let id = message.id;
        if self.position(id).is_some() {
            return Err(StoreError::Duplicate);
        }
        let complete = status.completed();
        let delivered = status.succeeded();
        let fitting = if complete {
            if delivered {
                location == Location::Sent
            } else {
                location == Location::Failed
            }
        } else {
            location == Location::Deferred || location == Location::Ready
        };
        if !fitting {
            return Err(StoreError::WrongLocation);
        }
        let rec = StoredMessage { message, status, location };
        self.records.push(rec);
        proof {
            assert(self@ =~= old(self)@.push(rec@));
        }
        if self.next_id <= id {
            self.next_id = id + 1;
        }
        Ok(())
    }

    /// The id of a stored message generated for `origin`, in any location.
    pub fn find_origin(&self, origin: &Origin) -> (r: Option<u64>)
        requires
            self.wf(),
        ensures
            r is Some <==> has_origin(self@, *origin),
            r matches Some(id) ==> has_id(self@, id) && self@[index_of(self@, id)].message.origin
                == Some(*origin),
    {
        let mut i: usize = 0;
        while i < self.records.len()
            invariant
                self.wf(),
                i <= self.records@.len(),
                self@.len() == self.records@.len(),
                forall|j: int| 0 <= j < i ==> (#[trigger] self@[j]).message.origin != Some(*origin),
            decreases self.records.len() - i,
        {
            proof {
                assert(self@[i as int] == self.records@[i as int]@);
            }
            let found = match self.records[i].message.origin {
                Some(o) => o == *origin,
                None => false,
            };
            if found {
                proof {
                    lemma_index_of(self@, i as int);
                }
                return Some(self.records[i].message.id);
            }
            i = i + 1;
        }
        None
    }

    /// Replaces the status of the message `id`; the message itself is never
    /// rewritten. The stored status is marked not yet retrieved, and a complete
    /// status moves the message to sent or failed.
    pub fn update_status(&mut self, id: u64, status: DeliveryStatus) -> (r: Result<(), StoreError>)
        requires
            old(self).wf(),
        ensures
            final(self).wf(),
            r == match update_error(old(self)@, id, status@) {
                Some(e) => Err(e),
                None => Ok(()),
            },
            r is Err ==> final(self)@ == old(self)@,
            r is Ok ==> final(self)@ == old(self)@.update(
                index_of(old(self)@, id),
                RecordView {
                    message: old(self)@[index_of(old(self)@, id)].message,
                    status: StatusView { retrieved: false, ..status@ },
                    location: placed(status@, old(self)@[index_of(old(self)@, id)].location),
                },
            ),
            keeps_messages(old(self)@, final(self)@),
            keeps_all_messages(old(self)@, final(self)@),
    {
        let i = match self.position(id) {
            Some(i) => i,
            None => {
                return Err(StoreError::NotFound);
            },
        };
        let prior = self.records[i].location;
        if prior == Location::Sent || prior == Location::Failed {
            return Err(StoreError::Closed);
        }
        if status.message_id != id || !lists_addresses(&status, &self.records[i].message.to) {
            return Err(StoreError::Mismatch);
        }
        let complete = status.completed();
        let delivered = status.succeeded();
        let location = if complete {
            if delivered {
                Location::Sent
            } else {
                Location::Failed
            }
        } else {
            prior
        };
        let mut status = status;
        status.retrieved = false;
        let message = self.records[i].message.clone();
        let rec = StoredMessage { message, status, location };
        self.records.set(i, rec);
        proof {
            assert(self@ =~= old(self)@.update(i as int, rec@));
        }
        Ok(())
    }

    /// The statuses of every message that is not complete, in store order.
    pub fn list_incomplete(&self) -> (r: Vec<DeliveryStatus>)
        requires
            self.wf(),
        ensures
            status_views(r@) == incomplete_statuses(self@),
    {
        let mut out: Vec<DeliveryStatus> = Vec::new();
        let mut i: usize = 0;
        while i < self.records.len()
            invariant
                i <= self.records@.len(),
                self@.len() == self.records@.len(),
                status_views(out@) == incomplete_statuses(self@.take(i as int)),
            decreases self.records.len() - i,
        {
            proof {
                assert(self@.take(i as int + 1).drop_last() =~= self@.take(i as int));
            }
            if !self.records[i].status.completed() {
                let st = self.records[i].status.clone();
                proof {
                    assert(status_views(out@.push(st)) =~= status_views(out@).push(st@));
                }
                out.push(st);
            }
            i = i + 1;
        }
        proof {
            assert(self@.take(self@.len() as int) =~= self@);
        }
        out
    }

    /// Every status that is not complete, and every complete status not
    /// retrieved before; those are marked retrieved, so that a complete message
    /// is reported by one poll only.
    pub fn list_recent(&mut self) -> (r: Vec<DeliveryStatus>)
        requires
            old(self).wf(),
        ensures
            final(self).wf(),
            status_views(r@) == recent_statuses(old(self)@),
            final(self)@ == observe_all(old(self)@),
            keeps_messages(old(self)@, final(self)@),
            keeps_all_messages(old(self)@, final(self)@),
    {
        let ghost start = self@;
        let mut out: Vec<DeliveryStatus> = Vec::new();
        let mut i: usize = 0;
        while i < self.records.len()
            invariant
                i <= self.records@.len(),
                self@.len() == self.records@.len(),
                self@.len() == start.len(),
                records_ok(start),
                forall|j: int| 0 <= j < start.len() ==> (#[trigger] start[j]).message.id < self.next_id,
                forall|j: int| 0 <= j < i ==> #[trigger] self@[j] == observe_record(start[j]),
                forall|j: int| i <= j < start.len() ==> #[trigger] self@[j] == start[j],
                status_views(out@) == recent_statuses(start.take(i as int)),
            decreases self.records.len() - i,
        {
            proof {
                assert(start.take(i as int + 1).drop_last() =~= start.take(i as int));
                assert(start.take(i as int + 1).last() == start[i as int]);
                assert(self@[i as int] == self.records@[i as int]@);
            }
            let complete = self.records[i].status.completed();
            if !complete {
                let st = self.records[i].status.clone();
                proof {
                    assert(status_views(out@.push(st)) =~= status_views(out@).push(st@));
                }
                out.push(st);
            } else if !self.records[i].status.retrieved {
                let mut st = self.records[i].status.clone();
                st.retrieved = true;
                let copy = st.clone();
                let message = self.records[i].message.clone();
                let location = self.records[i].location;
                let rec = StoredMessage { message, status: st, location };
                let ghost before = self@;
                self.records.set(i, rec);
                proof {
                    assert(self@ =~= before.update(i as int, rec@));
                    assert(status_views(out@.push(copy)) =~= status_views(out@).push(copy@));
                    assert(copy@ == observed(start[i as int].status));
                }
                out.push(copy);
            }
            i = i + 1;
        }
        proof {
            assert(start.take(start.len() as int) =~= start);
            assert(self@ =~= observe_all(start));
            assert forall|a: int, b: int|
                0 <= a < self@.len() && 0 <= b < self@.len() && a != b implies #[trigger] self@[a].message.id
                != #[trigger] self@[b].message.id by {
                assert(start[a].message.id != start[b].message.id);
            }
            assert forall|a: int| 0 <= a < self@.len() implies record_ok(#[trigger] self@[a]) by {
                assert(record_ok(start[a]));
            }
        }
        out
    }

    /// Moves every deferred message due on or before `today` to the ready
    /// location, and returns their ids.
    pub fn promote(&mut self, today: &Date) -> (r: Vec<u64>)
        requires
            old(self).wf(),
        ensures
            final(self).wf(),
            final(self)@ == promote_all(old(self)@, *today),
            r@ == promoted_ids(old(self)@, *today),
            keeps_messages(old(self)@, final(self)@),
            keeps_all_messages(old(self)@, final(self)@),
    {
        let ghost start = self@;
        let mut out: Vec<u64> = Vec::new();
        let mut i: usize = 0;
        while i < self.records.len()
            invariant
                i <= self.records@.len(),
                self@.len() == self.records@.len(),
                self@.len() == start.len(),
                records_ok(start),
                forall|j: int| 0 <= j < start.len() ==> (#[trigger] start[j]).message.id < self.next_id,
                forall|j: int| 0 <= j < i ==> #[trigger] self@[j] == promote_record(start[j], *today),
                forall|j: int| i <= j < start.len() ==> #[trigger] self@[j] == start[j],
                out@ == promoted_ids(start.take(i as int), *today),
            decreases self.records.len() - i,
        {
            proof {
                assert(start.take(i as int + 1).drop_last() =~= start.take(i as int));
                assert(start.take(i as int + 1).last() == start[i as int]);
                assert(self@[i as int] == self.records@[i as int]@);
            }
            if self.records[i].location == Location::Deferred && is_on_or_before(
                &self.records[i].message.due_date,
                today,
            ) {
                let message = self.records[i].message.clone();
                let status = self.records[i].status.clone();
                let id = message.id;
                let rec = StoredMessage { message, status, location: Location::Ready };
                let ghost before = self@;
                self.records.set(i, rec);
                proof {
                    assert(self@ =~= before.update(i as int, rec@));
                }
                out.push(id);
            }
            i = i + 1;
        }
        proof {
            assert(start.take(start.len() as int) =~= start);
            assert(self@ =~= promote_all(start, *today));
            assert forall|a: int, b: int|
                0 <= a < self@.len() && 0 <= b < self@.len() && a != b implies #[trigger] self@[a].message.id
                != #[trigger] self@[b].message.id by {
                assert(start[a].message.id != start[b].message.id);
            }
            assert forall|a: int| 0 <= a < self@.len() implies record_ok(#[trigger] self@[a]) by {
                assert(record_ok(start[a]));
            }
        }
        out
    }

    /// The messages in the ready location, in store order.
    pub fn ready_messages(&self) -> (r: Vec<Message>)
        requires
            self.wf(),
        ensures
            message_views(r@) == ready_messages_of(self@),
    {
        let mut out: Vec<Message> = Vec::new();
        let mut i: usize = 0;
        while i < self.records.len()
            invariant
                i <= self.records@.len(),
                self@.len() == self.records@.len(),
                message_views(out@) == ready_messages_of(self@.take(i as int)),
            decreases self.records.len() - i,
        {
            proof {
                assert(self@.take(i as int + 1).drop_last() =~= self@.take(i as int));
            }
            if self.records[i].location == Location::Ready {
                let m = self.records[i].message.clone();
                proof {
                    assert(message_views(out@.push(m)) =~= message_views(out@).push(m@));
                }
                out.push(m);
            }
            i = i + 1;
        }
        proof {
            assert(self@.take(self@.len() as int) =~= self@);
        }
        out
    }

    /// Records one delivery attempt of the ready message `id`, with one
    /// transport outcome per recipient in order: each recipient becomes
    /// delivered or failed, and the message moves to sent when every recipient
    /// was accepted, to failed otherwise. Returns the new location.
    pub fn record_attempt(&mut self, id: u64, outcomes: &Vec<Result<(), String>>) -> (r: Result<
        Location,
        StoreError,
    >)
        requires
            old(self).wf(),
        ensures
            final(self).wf(),
            r is Err <==> attempt_error(old(self)@, id, outcomes@.len()) is Some,
            r matches Err(e) ==> attempt_error(old(self)@, id, outcomes@.len()) == Some(e),
            r is Err ==> final(self)@ == old(self)@,
            r matches Ok(loc) ==> {
                let k = index_of(old(self)@, id);
                &&& loc == if all_accepted(outcomes@) {
                    Location::Sent
                } else {
                    Location::Failed
                }
                &&& final(self)@ == old(self)@.update(
                    k,
                    RecordView {
                        message: old(self)@[k].message,
                        status: StatusView {
                            message_id: id,
                            recipients: attempt_results(old(self)@[k].message.to, outcomes@),
                            retrieved: false,
                        },
                        location: loc,
                    },
                )
            },
            keeps_messages(old(self)@, final(self)@),
            keeps_all_messages(old(self)@, final(self)@),
    {
        let i = match self.position(id) {
            Some(i) => i,
            None => {
                return Err(StoreError::NotFound);
            },
        };
        if self.records[i].location != Location::Ready {
            return Err(StoreError::NotReady);
        }
        if outcomes.len() != self.records[i].message.to.len() {
            return Err(StoreError::OutcomeCount);
        }
        let ghost to = self.records@[i as int].message.to@;
        let mut results: Vec<RecipientStatus> = Vec::new();
        let mut accepted = true;
        let mut k: usize = 0;
        while k < outcomes.len()
            invariant
                0 <= i < self.records@.len(),
                to == self.records@[i as int].message.to@,
                outcomes@.len() == to.len(),
                k <= outcomes@.len(),
                results@ == attempt_results(to, outcomes@).take(k as int),
                accepted == all_accepted(outcomes@.take(k as int)),
            decreases outcomes.len() - k,
        {
            let result = match &outcomes[k] {
                Ok(()) => DeliveryResult::Delivered,
                Err(reason) => {
                    accepted = false;
                    DeliveryResult::Failed(reason.clone())
                },
            };
            let recipient = self.records[i].message.to[k].clone();
            results.push(RecipientStatus { recipient, result });
            proof {
                assert(results@ =~= attempt_results(to, outcomes@).take(k as int + 1));
                assert(outcomes@.take(k as int + 1).drop_last() =~= outcomes@.take(k as int));
                if accepted {
                    assert forall|j: int| 0 <= j < k + 1 implies (#[trigger] outcomes@.take(
                        k as int + 1,
                    )[j]) is Ok by {
                        if j < k {
                            assert(outcomes@.take(k as int)[j] == outcomes@.take(k as int + 1)[j]);
                        }
                    }
                } else {
                    if !all_accepted(outcomes@.take(k as int)) {
                        let j = choose|j: int|
                            0 <= j < k && !(#[trigger] outcomes@.take(k as int)[j] is Ok);
                        assert(outcomes@.take(k as int)[j] == outcomes@.take(k as int + 1)[j]);
                    } else {
                        assert(!(outcomes@.take(k as int + 1)[k as int] is Ok));
                    }
                }
            }
            k = k + 1;
        }
        proof {
            assert(results@ =~= attempt_results(to, outcomes@));
            assert(outcomes@.take(outcomes@.len() as int) =~= outcomes@);
        }
        let location = if accepted {
            Location::Sent
        } else {
            Location::Failed
        };
        let status = DeliveryStatus { message_id: id, recipients: results, retrieved: false };
        let message = self.records[i].message.clone();
        let rec = StoredMessage { message, status, location };
        proof {
            assert(status@.complete());
            assert(status@.all_delivered() == all_accepted(outcomes@)) by {
                if !all_accepted(outcomes@) {
                    let j = choose|j: int| 0 <= j < outcomes@.len() && !(#[trigger] outcomes@[j] is Ok);
                    assert(!(status@.recipients[j].result is Delivered));
                }
            }
            assert(status@.lists(to));
        }
        self.records.set(i, rec);
        proof {
            assert(self@ =~= old(self)@.update(i as int, rec@));
        }
        Ok(location)
    }
}

proof fn lemma_none_promoted(s: Seq<RecordView>, today: Date)
    requires
        forall|i: int| 0 <= i < s.len() ==> !is_promoted(#[trigger] s[i], today),
    ensures
        promoted_ids(s, today) == Seq::<u64>::empty(),
    decreases s.len(),
{
    if s.len() > 0 {
        assert(!is_promoted(s[s.len() - 1], today));
        lemma_none_promoted(s.drop_last(), today);
    }
}

/// Promotion is idempotent: promoting again for the same date, with no new
/// arrivals, changes no record and moves no message.
pub proof fn lemma_promote_idempotent(s: Seq<RecordView>, today: Date)
    ensures
        promote_all(promote_all(s, today), today) == promote_all(s, today),
        promoted_ids(promote_all(s, today), today)
            == Seq::<u64>::empty(),
{
    let once = promote_all(s, today);
    assert forall|i: int| 0 <= i < once.len() implies !is_promoted(#[trigger] once[i], today) by {
        assert(once[i] == promote_record(s[i], today));
    }
    lemma_none_promoted(once, today);
    assert(promote_all(once, today) =~= once);
}

proof fn lemma_recent_contains(s: Seq<RecordView>)
    ensures
        forall|i: int|
            0 <= i < s.len() && reported(#[trigger] s[i].status) ==> recent_statuses(s).contains(
                observed(s[i].status),
            ),
    decreases s.len(),
{
    if s.len() > 0 {
        let t = s.drop_last();
        lemma_recent_contains(t);
        let rest = recent_statuses(t);
        assert forall|i: int|
            0 <= i < s.len() && reported(#[trigger] s[i].status) implies recent_statuses(
            s,
        ).contains(observed(s[i].status)) by {
            if i < s.len() - 1 {
                assert(t[i] == s[i]);
                assert(rest.contains(observed(s[i].status)));
                let k = choose|k: int| 0 <= k < rest.len() && rest[k] == observed(s[i].status);
                if reported(s.last().status) {
                    assert(recent_statuses(s)[k] == rest[k]);
                }
            } else {
                assert(recent_statuses(s) == rest.push(observed(s.last().status)));
                assert(recent_statuses(s)[rest.len() as int] == observed(s[i].status));
            }
        }
    }
}

proof fn lemma_recent_incomplete(s: Seq<RecordView>)
    requires
        forall|i: int| 0 <= i < s.len() && (#[trigger] s[i].status).complete() ==> s[i].status.retrieved,
    ensures
        forall|j: int|
            0 <= j < recent_statuses(s).len() ==> !(#[trigger] recent_statuses(s)[j]).complete(),
    decreases s.len(),
{
    if s.len() > 0 {
        let t = s.drop_last();
        assert forall|i: int| 0 <= i < t.len() && (#[trigger] t[i].status).complete() implies t[i].status.retrieved by {
            assert(t[i] == s[i]);
        }
        lemma_recent_incomplete(t);
        assert(s.last() == s[s.len() - 1]);
        let rest = recent_statuses(t);
        if reported(s.last().status) {
            assert(!s.last().status.complete());
            assert(observed(s.last().status) == s.last().status);
            assert forall|j: int| 0 <= j < recent_statuses(s).len() implies !(#[trigger] recent_statuses(s)[j]).complete() by {
                if j < rest.len() {
                    assert(recent_statuses(s)[j] == rest[j]);
                }
            }
        }
    }
}

proof fn lemma_records_ok_prefix(s: Seq<RecordView>)
    requires
        records_ok(s),
        s.len() > 0,
    ensures
        records_ok(s.drop_last()),
{
    let t = s.drop_last();
    assert forall|a: int, b: int|
        0 <= a < t.len() && 0 <= b < t.len() && a != b implies #[trigger] t[a].message.id
        != #[trigger] t[b].message.id by {
        assert(t[a] == s[a] && t[b] == s[b]);
    }
    assert forall|a: int| 0 <= a < t.len() implies record_ok(#[trigger] t[a]) by {
        assert(t[a] == s[a]);
    }
}

/// One poll reports each message at most once: the ids it returns are those
/// of stored messages, and pairwise distinct.
pub proof fn lemma_recent_distinct(s: Seq<RecordView>)
    requires
        records_ok(s),
    ensures
        forall|j: int|
            0 <= j < recent_statuses(s).len() ==> has_id(s, (#[trigger] recent_statuses(s)[j]).message_id),
        forall|a: int, b: int|
            0 <= a < b < recent_statuses(s).len() ==> (#[trigger] recent_statuses(s)[a]).message_id
                != (#[trigger] recent_statuses(s)[b]).message_id,
    decreases s.len(),
{
    if s.len() > 0 {
        let t = s.drop_last();
        lemma_records_ok_prefix(s);
        lemma_recent_distinct(t);
        let rest = recent_statuses(t);
        let n = s.len() - 1;
        assert(s.last() == s[n]);
        assert(record_ok(s[n]));
        assert forall|j: int| 0 <= j < rest.len() implies has_id(s, (#[trigger] rest[j]).message_id) by {
            assert(has_id(t, rest[j].message_id));
            let i = choose|i: int| 0 <= i < t.len() && #[trigger] t[i].message.id == rest[j].message_id;
            assert(s[i] == t[i]);
        }
        if reported(s.last().status) {
            let all = recent_statuses(s);
            assert(all == rest.push(observed(s.last().status)));
            assert(all[rest.len() as int].message_id == s[n].message.id);
            assert forall|j: int| 0 <= j < all.len() implies has_id(s, (#[trigger] all[j]).message_id) by {
                if j < rest.len() {
                    assert(all[j] == rest[j]);
                }
            }
            assert forall|a: int, b: int|
                0 <= a < b < all.len() implies (#[trigger] all[a]).message_id
                    != (#[trigger] all[b]).message_id by {
                assert(all[a] == rest[a]);
                if b < rest.len() {
                    assert(all[b] == rest[b]);
                } else {
                    assert(has_id(t, rest[a].message_id));
                    let i = choose|i: int| 0 <= i < t.len() && #[trigger] t[i].message.id == rest[a].message_id;
                    assert(s[i] == t[i]);
                    assert(s[i].message.id != s[n].message.id);
                }
            }
        }
    }
}

/// Polling reports a message on every poll while it is not complete; it
/// reports a complete message on the first poll after completion, and a poll
/// right after that reports no complete message at all.
pub proof fn lemma_recent_reported_once(s: Seq<RecordView>)
    ensures
        forall|i: int|
            0 <= i < s.len() && !(#[trigger] s[i].status).complete() ==> recent_statuses(s).contains(
                s[i].status,
            ),
        forall|i: int|
            0 <= i < s.len() && (#[trigger] s[i].status).complete() && !s[i].status.retrieved
                ==> recent_statuses(s).contains(observed(s[i].status)),
        forall|j: int|
            0 <= j < recent_statuses(observe_all(s)).len()
                ==> !(#[trigger] recent_statuses(
                observe_all(s),
            )[j]).complete(),
{
    lemma_recent_contains(s);
    assert forall|i: int| 0 <= i < s.len() && !(#[trigger] s[i].status).complete() implies recent_statuses(s).contains(s[i].status) by {
        assert(reported(s[i].status));
        assert(observed(s[i].status) == s[i].status);
    }
    assert forall|i: int| 0 <= i < s.len() && (#[trigger] s[i].status).complete() && !s[i].status.retrieved implies recent_statuses(s).contains(observed(s[i].status)) by {
        assert(reported(s[i].status));
    }
    let after = observe_all(s);
    assert forall|i: int| 0 <= i < after.len() && (#[trigger] after[i].status).complete() implies after[i].status.retrieved by {
        assert(after[i] == observe_record(s[i]));
    }
    lemma_recent_incomplete(after);
}

/// In a consistent store a message is in sent only when every recipient was
/// delivered, and a message whose every recipient has a final result is never
/// left in deferred or ready.
pub proof fn lemma_sent_only_when_delivered(s: Seq<RecordView>, i: int)
    requires
        records_ok(s),
        0 <= i < s.len(),
    ensures
        s[i].location is Sent ==> forall|k: int|
            0 <= k < s[i].status.recipients.len() ==> (#[trigger] s[i].status.recipients[k]).result is Delivered,
        s[i].status.complete() ==> s[i].location.closed(),
{
    assert(record_ok(s[i]));
}

/// Whether `status` lists exactly the addresses `to`, in order.
fn lists_addresses(status: &DeliveryStatus, to: &Vec<String>) -> (r: bool)
    ensures
        r == status@.lists(to@),
{
    if status.recipients.len() != to.len() {
        return false;
    }
    let mut i: usize = 0;
    while i < to.len()
        invariant
            i <= to@.len(),
            status.recipients@.len() == to@.len(),
            forall|j: int| 0 <= j < i ==> (#[trigger] status.recipients@[j]).recipient@ == to@[j]@,
        decreases to.len() - i,
    {
        if status.recipients[i].recipient != to[i] {
            return false;
        }
        i = i + 1;
    }
    true
}

} // verus!
