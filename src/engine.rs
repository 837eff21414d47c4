//! The coordination state of one session. The caller owns the connection and
//! the clock: it hands each event (a push, a reply, a tick) to the session and
//! performs what comes back (a call to send, a record to persist).
use vstd::prelude::*;
use crate::classify::{code_class, is_contract_account, ContractType};
use crate::json::{frame_of, parse_frame, JsonShape, TxFields};
use crate::model::{Transaction, TxHashResponse};
use crate::pending::{is_stale, TxTable};
use crate::resolve::{
    build_record, is_mined, is_record_of, lookup_complete, read_from, read_lookup, MinedTx,
};
use crate::route::{is_push, is_reply, reply_id, route, text_view, Inbound, Reply};
use crate::rpc::{Call, RpcMethod};

verus! {

/// What the session awaits for the transaction it is resolving.
enum Stage {
    Lookup,
    Code(MinedTx),
}

struct Outstanding {
    id: u64,
    hash: String,
    stage: Stage,
}

/// What a session asks of its caller after one event.
#[derive(Debug)]
pub struct Output {
    /// A completed record, to hand to the sinks.
    pub record: Option<Transaction>,
    /// A call to send on the connection.
    pub call: Option<Call>,
}

pub open spec fn record_hash(o: Output) -> Option<Seq<char>> {
    match o.record {
        Some(t) => Some(t.tx_hash@),
        None => None,
    }
}

/// One step of a run persists `out` only if it was not persisted before, and
/// the persisted set grows by exactly what was persisted.
pub open spec fn persists_once(
    before: Set<Seq<char>>,
    after: Set<Seq<char>>,
    out: Option<Seq<char>>,
) -> bool {
    match out {
        Some(h) => !before.contains(h) && after == before.insert(h),
        None => after == before,
    }
}

/// After an event that ended the work on one hash, with `queued` the hashes
/// of the tick still to do: `call` looks up the first of them, or there are
/// none and the tick is over.
pub open spec fn moved_on(queued: Seq<Seq<char>>, s: Session, call: Option<Call>) -> bool {
    match call {
        Some(c) => {
            &&& queued.len() > 0
            &&& c.param@ == queued[0]
            &&& s.queued() == queued.drop_first()
            &&& c.method == RpcMethod::GetTransactionByHash
            &&& s.awaiting() == Some((c.id, c.param@))
            &&& !s.awaits_code()
            &&& s.pending().contains_key(c.param@)
        },
        None => queued.len() == 0 && s.awaiting() is None && s.queued().len() == 0,
    }
}

/// Whether a reply with id `id` answers the call `s` awaits.
pub open spec fn answers(s: Session, id: u64) -> bool {
    s.awaiting() matches Some(a) && a.0 == id
}

/// The hash `s` is resolving.
pub open spec fn awaited_hash(s: Session) -> Seq<char> {
    match s.awaiting() {
        Some(a) => a.1,
        None => Seq::empty(),
    }
}

/// `after` and `rec` are what resolving `h` as of `now` in `before` gives:
/// the record carries the time since first sight, `h` leaves the pending set
/// and joins the resolved set.
pub open spec fn resolves(before: Session, after: Session, rec: Transaction, h: Seq<char>, now: u64) -> bool {
    &&& rec.tx_hash@ == h
    &&& before.pending().contains_key(h)
    &&& before.pending()[h] <= now
    &&& rec.mempool_time == Some((now - before.pending()[h]) as u64)
    &&& after.pending() == before.pending().remove(h)
    &&& after.resolved() == before.resolved().insert(h)
}

/// The next call id after `id`.
pub open spec fn next_after(id: u64) -> u64 {
    if id == u64::MAX {
        1
    } else {
        (id + 1) as u64
    }
}

/// A call takes the session's next id, which then moves on; without a call
/// the next id stays.
pub open spec fn id_step(before: u64, after: u64, call: Option<Call>) -> bool {
    match call {
        Some(c) => c.id == before && after == next_after(before),
        None => after == before,
    }
}

/// An event that changes nothing but the clock and asks for nothing.
pub open spec fn quiet(before: Session, after: Session, out: Output) -> bool {
    &&& after.pending() == before.pending()
    &&& after.pending_order() == before.pending_order()
    &&& after.resolved() == before.resolved()
    &&& after.awaiting() == before.awaiting()
    &&& after.awaits_code() == before.awaits_code()
    &&& after.awaited_tx() == before.awaited_tx()
    &&& after.queued() == before.queued()
    &&& after.next_id() == before.next_id()
    &&& out.record is None
    &&& out.call is None
}

/// A push of `h` at `now`: a hash neither pending nor resolved becomes
/// pending, first seen at `now`, and joins the end of the arrival order;
/// nothing else changes.
pub open spec fn push_step(before: Session, after: Session, h: Seq<char>, now: u64) -> bool {
    let fresh = !before.resolved().contains(h) && !before.pending().contains_key(h);
    &&& after.pending() == (if fresh {
        before.pending().insert(h, now)
    } else {
        before.pending()
    })
    &&& after.pending_order() == (if fresh {
        before.pending_order().push(h)
    } else {
        before.pending_order()
    })
    &&& after.resolved() == before.resolved()
    &&& after.awaiting() == before.awaiting()
    &&& after.awaits_code() == before.awaits_code()
    &&& after.awaited_tx() == before.awaited_tx()
    &&& after.queued() == before.queued()
    &&& after.next_id() == before.next_id()
}

/// A reply with id `id`, result `result` and lookup members `fields`,
/// handled at `now`, taking `before` to `after` and asking for `out`.
pub open spec fn reply_step(
    before: Session,
    after: Session,
    id: u64,
    result: JsonShape,
    fields: TxFields,
    now: u64,
    out: Output,
) -> bool {
    &&& id_step(before.next_id(), after.next_id(), out.call)
    &&& !answers(before, id) ==> quiet(before, after, out)
    &&& persists_once(before.resolved(), after.resolved(), record_hash(out))
    &&& answers(before, id) && !before.awaits_code() && !(is_mined(fields)
        && lookup_complete(fields)) ==> {
        &&& after.pending() == before.pending()
        &&& out.record is None
        &&& moved_on(before.queued(), after, out.call)
    }
    &&& answers(before, id) && !before.awaits_code() && is_mined(fields)
        && lookup_complete(fields) && fields.to is Text ==> {
        &&& after.pending() == before.pending()
        &&& out.record is None
        &&& out.call matches Some(c) && c.method == RpcMethod::GetCode && c.param@ == text_view(
            fields.to,
        ) && c.id == before.next_id() && after.awaiting() == Some(
            (c.id, awaited_hash(before)),
        )
        &&& after.awaits_code()
        &&& read_from(after.awaited_tx(), fields)
    }
    &&& answers(before, id) && !before.awaits_code() && is_mined(fields)
        && lookup_complete(fields) && !(fields.to is Text) ==> {
        &&& out.record matches Some(rec) && resolves(
            before,
            after,
            rec,
            awaited_hash(before),
            now,
        ) && rec.contract_type == ContractType::ExternallyOwnedAccount && exists|
            tx: MinedTx,
        | read_from(tx, fields) && is_record_of(
            rec,
            awaited_hash(before),
            tx,
            ContractType::ExternallyOwnedAccount,
            rec.mempool_time->0,
        )
        &&& moved_on(before.queued(), after, out.call)
    }
    &&& answers(before, id) && before.awaits_code() ==> {
        &&& out.record matches Some(rec) && resolves(
            before,
            after,
            rec,
            awaited_hash(before),
            now,
        ) && is_record_of(
            rec,
            awaited_hash(before),
            before.awaited_tx(),
            code_class(result),
            rec.mempool_time->0,
        )
        &&& moved_on(before.queued(), after, out.call)
    }
}

/// The state of one session: pending and resolved transactions, the tick in
/// progress and the call it awaits.
pub struct Session {
    pending: TxTable,
    resolved: TxTable,
    next_id: u64,
    clock_ms: u64,
    /// The hashes of the tick in progress; those from `pos` on are still to do.
    queue: Vec<String>,
    pos: usize,
    waiting: Option<Outstanding>,
    max_age_ms: Option<u64>,
}

impl Session {
    /// Hash to first-seen time of every pending transaction.
    pub closed spec fn pending(&self) -> Map<Seq<char>, u64> {
        self.pending.view()
    }

    /// Hashes whose record this session has emitted.
    pub closed spec fn resolved(&self) -> Set<Seq<char>> {
        self.resolved.view().dom()
    }

    /// The pending hashes in arrival order.
    pub closed spec fn pending_order(&self) -> Seq<Seq<char>> {
        self.pending.order()
    }

    /// The hashes of the tick in progress that are still to be looked up.
    pub closed spec fn queued(&self) -> Seq<Seq<char>> {
        self.queue@.subrange(self.pos as int, self.queue@.len() as int).map_values(|q: String| q@)
    }

    /// The pending order lists every pending hash once.
    pub proof fn lemma_pending_order(&self)
        requires
            self.wf(),
        ensures
            self.pending_order().no_duplicates(),
            self.pending_order().to_set() == self.pending().dom(),
    {
        self.pending.lemma_order();
    }

    /// The latest time handed to the session.
    pub closed spec fn clock(&self) -> u64 {
        self.clock_ms
    }

    /// The id of the next call.
    pub closed spec fn next_id(&self) -> u64 {
        self.next_id
    }

    /// The call awaited, if a tick is in progress: its id and the hash being resolved.
    pub closed spec fn awaiting(&self) -> Option<(u64, Seq<char>)> {
        match self.waiting {
            Some(w) => Some((w.id, w.hash@)),
            None => None,
        }
    }

    /// Whether the awaited call is a code lookup.
    pub closed spec fn awaits_code(&self) -> bool {
        self.waiting matches Some(w) && w.stage is Code
    }

    /// The transaction whose recipient's code is awaited.
    pub closed spec fn awaited_tx(&self) -> MinedTx
        recommends
            self.awaits_code(),
    {
        match self.waiting {
            Some(Outstanding { stage: Stage::Code(tx), .. }) => tx,
            _ => arbitrary(),
        }
    }

    pub closed spec fn wf(&self) -> bool {
        &&& self.wf_core()
        &&& match self.waiting {
            Some(w) => {
                &&& self.pos >= 1
                &&& w.hash@ == self.queue@[self.pos - 1]@
                &&& self.pending.view().contains_key(w.hash@)
            },
            None => self.pos == self.queue@.len(),
        }
    }

    /// What holds between events and also in the middle of handling one.
    closed spec fn wf_core(&self) -> bool {
        &&& self.pending.wf()
        &&& self.resolved.wf()
        &&& forall|h: Seq<char>|
            #[trigger] self.resolved.view().contains_key(h) ==> !self.pending.view().contains_key(h)
        &&& forall|h: Seq<char>|
            #[trigger] self.pending.view().contains_key(h) ==> self.pending.view()[h]
                <= self.clock_ms
        &&& self.pos <= self.queue@.len()
        &&& forall|i: int, j: int|
            0 <= i < j < self.queue@.len() ==> self.queue@[i]@ != self.queue@[j]@
        &&& forall|j: int|
            self.pos <= j < self.queue@.len() ==> self.pending.view().contains_key(
                #[trigger] self.queue@[j]@,
            )
    }

    /// The age at which a pending transaction is abandoned, if any.
    pub closed spec fn max_age(&self) -> Option<u64> {
        self.max_age_ms
    }

    /// A fresh session: nothing pending, nothing resolved, no tick in
    /// progress, and pending transactions kept until they are mined.
    pub fn new() -> (r: Session)
        ensures
            r.wf(),
            r.pending() == Map::<Seq<char>, u64>::empty(),
            r.pending_order() == Seq::<Seq<char>>::empty(),
            r.resolved() == Set::<Seq<char>>::empty(),
            r.awaiting() is None,
            r.clock() == 0,
            r.max_age() is None,
    {
        Session::with_max_age(None)
    }

    /// A fresh session that abandons pending transactions of age `max_age_ms`.
    pub fn with_max_age(max_age_ms: Option<u64>) -> (r: Session)
        ensures
            r.wf(),
            r.pending() == Map::<Seq<char>, u64>::empty(),
            r.pending_order() == Seq::<Seq<char>>::empty(),
            r.resolved() == Set::<Seq<char>>::empty(),
            r.awaiting() is None,
            r.clock() == 0,
            r.max_age() == max_age_ms,
    {
        Session {
            max_age_ms,
            pending: TxTable::new(),
            resolved: TxTable::new(),
            next_id: 1,
            clock_ms: 0,
            queue: Vec::new(),
            pos: 0,
            waiting: None,
        }
    }

    fn take_id(&mut self) -> (r: u64)
        ensures
            r == old(self).next_id,
            final(self).next_id == (if r == u64::MAX { 1 } else { (r + 1) as u64 }),
            final(self).pending == old(self).pending,
            final(self).resolved == old(self).resolved,
            final(self).clock_ms == old(self).clock_ms,
            final(self).queue == old(self).queue,
            final(self).pos == old(self).pos,
            final(self).waiting == old(self).waiting,
            final(self).max_age_ms == old(self).max_age_ms,
    {
        let id = self.next_id;
        self.next_id = if id == u64::MAX { 1 } else { id + 1 };
        id
    }

    /// The subscription call that opens a session.
    pub fn subscribe(&mut self) -> (r: Call)
        requires
            old(self).wf(),
        ensures
            final(self).wf(),
            r.method == RpcMethod::Subscribe,
            r.param@ == "newPendingTransactions"@,
            r.id == old(self).next_id(),
            final(self).next_id() == next_after(r.id),
            final(self).pending() == old(self).pending(),
            final(self).resolved() == old(self).resolved(),
            final(self).awaiting() == old(self).awaiting(),
            final(self).clock() == old(self).clock(),
    {
        let id = self.take_id();
        Call { id, method: RpcMethod::Subscribe, param: String::from_str("newPendingTransactions") }
    }

    /// Handles a subscription push: a hash neither pending nor resolved becomes
    /// pending, first seen at `now`; any other push changes nothing.
    pub fn on_push(&mut self, push: TxHashResponse, now: u64)
        requires
            old(self).wf(),
            old(self).clock() <= now,
        ensures
            final(self).wf(),
            final(self).clock() == now,
            push_step(*old(self), *final(self), push.params.result@, now),
            persists_once(old(self).resolved(), final(self).resolved(), None),
    {
        self.clock_ms = now;
        let h = push.params.result;
        if self.resolved.contains(&h) || self.pending.contains(&h) {
            return;
        }
        self.pending.insert(h, now);
        proof {
            assert forall|j: int| self.pos <= j < self.queue@.len() implies self.pending.view().contains_key(
                #[trigger] self.queue@[j]@,
            ) by {
                assert(old(self).pending.view().contains_key(self.queue@[j]@));
            }
        }
    }

    /// Sends the lookup of the next queued hash, or ends the tick.
    fn start_next(&mut self) -> (r: Option<Call>)
        requires
            old(self).wf_core(),
            old(self).waiting is None,
        ensures
            final(self).wf(),
            final(self).pending == old(self).pending,
            final(self).resolved == old(self).resolved,
            final(self).clock_ms == old(self).clock_ms,
            r is None <==> old(self).pos == old(self).queue@.len(),
            r is None ==> final(self).waiting is None,
            moved_on(old(self).queued(), *final(self), r),
            id_step(old(self).next_id, final(self).next_id, r),
            r matches Some(c) ==> c.method == RpcMethod::GetTransactionByHash && c.id
                == old(self).next_id && final(self).awaiting() == Some((c.id, c.param@))
                && !final(self).awaits_code() && old(self).pending.view().contains_key(c.param@),
    {
        if self.pos >= self.queue.len() {
            return None;
        }
        let hash = self.queue[self.pos].clone();
        let param = hash.clone();
        let ghost before = self.queued();
        assert(before[0] == self.queue@[self.pos as int]@);
        self.pos = self.pos + 1;
        assert(self.queued() =~= before.drop_first());
        let id = self.take_id();
        self.waiting = Some(Outstanding { id, hash, stage: Stage::Lookup });
        Some(Call { id, method: RpcMethod::GetTransactionByHash, param })
    }

    /// Handles a tick of the poll timer. While a tick is in progress nothing
    /// changes. Otherwise the pending hashes, in arrival order, become the
    /// tick's queue and the first is looked up; with nothing pending no call
    /// is made.
    pub fn on_tick(&mut self, now: u64) -> (r: Option<Call>)
        requires
            old(self).wf(),
            old(self).clock() <= now,
        ensures
            final(self).wf(),
            final(self).clock() == now,
            final(self).pending() == old(self).pending(),
            final(self).resolved() == old(self).resolved(),
            persists_once(old(self).resolved(), final(self).resolved(), None),
            old(self).awaiting() is Some ==> r is None && final(self).awaiting() == old(
                self,
            ).awaiting() && final(self).awaits_code() == old(self).awaits_code()
                && final(self).awaited_tx() == old(self).awaited_tx(),
            id_step(old(self).next_id(), final(self).next_id(), r),
            old(self).awaiting() is Some ==> final(self).queued() == old(self).queued(),
            old(self).awaiting() is None ==> (r is None <==> old(self).pending().is_empty()),
            old(self).awaiting() is None ==> (r matches Some(c) ==> c.param@ == old(
                self,
            ).pending_order()[0] && final(self).queued() == old(self).pending_order().drop_first()),
            old(self).awaiting() is None ==> (r matches Some(c) ==> c.method
                == RpcMethod::GetTransactionByHash && c.id == old(self).next_id()
                && final(self).awaiting() == Some((c.id, c.param@))
                && !final(self).awaits_code() && old(self).pending().contains_key(c.param@)),
    {
        self.clock_ms = now;
        if self.waiting.is_some() {
            return None;
        }
        let queue = self.pending.hashes();
        proof {
            self.pending.lemma_order();
            let order = self.pending.order();
            assert forall|j: int| 0 <= j < queue@.len() implies self.pending.view().contains_key(
                #[trigger] queue@[j]@,
            ) by {
                assert(queue@[j]@ == order[j]);
                assert(order.to_set().contains(order[j]));
            }
            assert forall|i: int, j: int| 0 <= i < j < queue@.len() implies queue@[i]@ != queue@[j]@ by {
                assert(queue@[i]@ == order[i]);
                assert(queue@[j]@ == order[j]);
            }
            if queue@.len() == 0 {
                assert(order =~= Seq::<Seq<char>>::empty());
                assert(self.pending.view().dom() =~= Set::<Seq<char>>::empty());
            } else {
                assert(queue@[0]@ == order[0]);
                assert(order.to_set().contains(order[0]));
            }
        }
        self.queue = queue;
        self.pos = 0;
        assert(self.queued() =~= self.pending.order());
        self.start_next()
    }

    /// Emits the record of the hash just resolved and moves on to the next.
    fn finish(&mut self, hash: String, tx: MinedTx, class: ContractType) -> (r: Output)
        requires
            old(self).wf_core(),
            old(self).waiting is None,
            old(self).pos >= 1,
            old(self).queue@[old(self).pos - 1]@ == hash@,
            old(self).pending.view().contains_key(hash@),
        ensures
            final(self).wf(),
            final(self).clock_ms == old(self).clock_ms,
            r.record matches Some(rec) && is_record_of(
                rec,
                hash@,
                tx,
                class,
                (old(self).clock_ms - old(self).pending.view()[hash@]) as u64,
            ),
            final(self).pending.view() == old(self).pending.view().remove(hash@),
            final(self).resolved.view().dom() == old(self).resolved.view().dom().insert(hash@),
            moved_on(old(self).queued(), *final(self), r.call),
            id_step(old(self).next_id, final(self).next_id, r.call),
    {
        let first = match self.pending.first_seen(&hash) {
            Some(t) => t,
            None => 0,
        };
        let ms = self.clock_ms - first;
        self.pending.remove(&hash);
        let ghost key = hash@;
        self.resolved.insert(hash.clone(), self.clock_ms);
        proof {
            assert forall|j: int| self.pos <= j < self.queue@.len() implies self.pending.view().contains_key(
                #[trigger] self.queue@[j]@,
            ) by {
                assert(old(self).pending.view().contains_key(self.queue@[j]@));
                assert(self.queue@[j]@ != self.queue@[self.pos - 1]@);
            }
            assert(self.resolved.view().dom() =~= old(self).resolved.view().dom().insert(key));
        }
        let record = build_record(hash, tx, class, ms);
        let call = self.start_next();
        Output { record: Some(record), call }
    }

    /// Handles a reply. One whose id is not that of the awaited call changes
    /// nothing. A lookup that shows the transaction unmined, or mined with a
    /// member missing or malformed, leaves it pending and moves on. A complete
    /// lookup leads to the code lookup of the recipient, or, for a contract
    /// creation, straight to the record. A code reply classifies the recipient
    /// and completes the record.
    pub fn on_reply(&mut self, reply: Reply, now: u64) -> (r: Output)
        requires
            old(self).wf(),
            old(self).clock() <= now,
        ensures
            final(self).wf(),
            final(self).clock() == now,
            reply_step(*old(self), *final(self), reply.id, reply.result, reply.fields, now, r),
    {
        self.clock_ms = now;
        let answered = match &self.waiting {
            Some(w) => w.id == reply.id,
            None => false,
        };
        if !answered {
            return Output { record: None, call: None };
        }
        let w = match self.waiting.take() {
            Some(w) => w,
            None => return Output { record: None, call: None },
        };
        let Outstanding { id: _, hash, stage } = w;
        match stage {
            Stage::Lookup => match read_lookup(&reply.fields) {
                Ok(Some(tx)) => {
                    let to = match &tx.to {
                        Some(a) => Some(a.clone()),
                        None => None,
                    };
                    match to {
                        Some(param) => {
                            let id = self.take_id();
                            self.waiting = Some(Outstanding { id, hash, stage: Stage::Code(tx) });
                            Output {
                                record: None,
                                call: Some(Call { id, method: RpcMethod::GetCode, param }),
                            }
                        },
                        None => self.finish(hash, tx, ContractType::ExternallyOwnedAccount),
                    }
                },
                _ => {
                    let call = self.start_next();
                    Output { record: None, call }
                },
            },
            Stage::Code(tx) => {
                let class = is_contract_account(&reply.result);
                self.finish(hash, tx, class)
            },
        }
    }

    /// A hash is never both pending and resolved.
    pub proof fn lemma_pending_resolved_disjoint(&self, h: Seq<char>)
        requires
            self.wf(),
        ensures
            !(self.resolved().contains(h) && self.pending().contains_key(h)),
    {
    }

    /// Handles one routed inbound frame.
    pub fn handle(&mut self, inbound: Inbound, now: u64) -> (r: Output)
        requires
            old(self).wf(),
            old(self).clock() <= now,
        ensures
            final(self).wf(),
            final(self).clock() == now,
            persists_once(old(self).resolved(), final(self).resolved(), record_hash(r)),
            match inbound {
                Inbound::Push(p) => push_step(*old(self), *final(self), p.params.result@, now)
                    && r.record is None && r.call is None,
                Inbound::Reply(rep) => reply_step(
                    *old(self),
                    *final(self),
                    rep.id,
                    rep.result,
                    rep.fields,
                    now,
                    r,
                ),
                Inbound::Unrelated => quiet(*old(self), *final(self), r),
            },
    {
        match inbound {
            Inbound::Push(p) => {
                self.on_push(p, now);
                Output { record: None, call: None }
            },
            Inbound::Reply(rep) => self.on_reply(rep, now),
            Inbound::Unrelated => {
                self.clock_ms = now;
                Output { record: None, call: None }
            },
        }
    }

    /// Handles one text frame from the connection: parses it, routes it and
    /// handles it. A frame that is not JSON, or neither a push nor a reply,
    /// changes nothing.
    pub fn on_frame(&mut self, text: &str, now: u64) -> (r: Output)
        requires
            old(self).wf(),
            old(self).clock() <= now,
        ensures
            final(self).wf(),
            final(self).clock() == now,
            persists_once(old(self).resolved(), final(self).resolved(), record_hash(r)),
            match frame_of(text@) {
                None => quiet(*old(self), *final(self), r),
                Some(raw) => if is_push(raw) {
                    push_step(*old(self), *final(self), text_view(raw.pushed), now)
                        && r.record is None && r.call is None
                } else if is_reply(raw) {
                    reply_step(*old(self), *final(self), reply_id(raw), raw.result, raw.fields, now, r)
                } else {
                    quiet(*old(self), *final(self), r)
                },
            },
    {
        match parse_frame(text) {
            Some(raw) => self.handle(route(raw), now),
            None => {
                self.clock_ms = now;
                Output { record: None, call: None }
            },
        }
    }

    /// How many transactions are pending.
    pub fn pending_count(&self) -> (r: usize)
        requires
            self.wf(),
        ensures
            r == self.pending().len(),
    {
        self.pending.len()
    }

    /// Whether `h` is pending.
    pub fn is_pending(&self, h: &str) -> (r: bool)
        requires
            self.wf(),
        ensures
            r == self.pending().contains_key(h@),
    {
        self.pending.contains(h)
    }

    /// Whether this session has emitted the record of `h`.
    pub fn is_resolved(&self, h: &str) -> (r: bool)
        requires
            self.wf(),
        ensures
            r == self.resolved().contains(h@),
    {
        self.resolved.contains(h)
    }

    /// Whether a tick is in progress.
    pub fn in_tick(&self) -> (r: bool)
        ensures
            r == self.awaiting() is Some,
    {
        self.waiting.is_some()
    }

    /// Abandons, between ticks, every pending transaction first seen at
    /// least the maximum age before `now`, and returns their hashes. During a
    /// tick, or without a maximum age, nothing changes.
    pub fn abandon_stale(&mut self, now: u64) -> (r: Vec<String>)
        requires
            old(self).wf(),
            old(self).clock() <= now,
        ensures
            final(self).wf(),
            final(self).clock() == now,
            final(self).resolved() == old(self).resolved(),
            persists_once(old(self).resolved(), final(self).resolved(), None),
            final(self).awaiting() == old(self).awaiting(),
            final(self).max_age() == old(self).max_age(),
            old(self).awaiting() is Some || old(self).max_age() is None ==> final(self).pending()
                == old(self).pending() && r@.len() == 0,
            old(self).awaiting() is None && old(self).max_age() is Some ==> {
                &&& forall|k: Seq<char>|
                    #[trigger] final(self).pending().contains_key(k) <==> old(
                        self,
                    ).pending().contains_key(k) && !is_stale(
                        old(self).pending()[k],
                        now,
                        old(self).max_age()->0,
                    )
                &&& forall|k: Seq<char>|
                    #[trigger] final(self).pending().contains_key(k) ==> final(self).pending()[k]
                        == old(self).pending()[k]
                &&& forall|m: int|
                    0 <= m < r@.len() ==> old(self).pending().contains_key(#[trigger] r@[m]@)
                        && is_stale(old(self).pending()[r@[m]@], now, old(self).max_age()->0)
                &&& forall|k: Seq<char>|
                    old(self).pending().contains_key(k) && is_stale(
                        old(self).pending()[k],
                        now,
                        old(self).max_age()->0,
                    ) ==> exists|m: int| 0 <= m < r@.len() && #[trigger] r@[m]@ == k
            },
    {
        self.clock_ms = now;
        if self.waiting.is_some() {
            return Vec::new();
        }
        match self.max_age_ms {
            None => Vec::new(),
            Some(max_age) => {
                let r = self.pending.remove_stale(now, max_age);
                proof {
                    assert forall|h: Seq<char>| #[trigger] self.resolved.view().contains_key(h) implies !self.pending.view().contains_key(h) by {
                        assert(!old(self).pending.view().contains_key(h));
                    }
                    assert forall|h: Seq<char>| #[trigger] self.pending.view().contains_key(h) implies self.pending.view()[h] <= self.clock_ms by {
                        assert(old(self).pending.view().contains_key(h));
                    }
                }
                r
            },
        }
    }
}

proof fn lemma_persisted_stays(runs: Seq<Session>, outs: Seq<Option<Seq<char>>>, i: int, k: int)
    requires
        runs.len() == outs.len() + 1,
        forall|n: int|
            0 <= n < outs.len() ==> persists_once(
                #[trigger] runs[n].resolved(),
                runs[n + 1].resolved(),
                outs[n],
            ),
        0 <= i < k <= outs.len(),
        outs[i] is Some,
    ensures
        runs[k].resolved().contains(outs[i]->0),
    decreases k - i,
{
    if k > i + 1 {
        lemma_persisted_stays(runs, outs, i, k - 1);
        assert(persists_once(runs[k - 1].resolved(), runs[k].resolved(), outs[k - 1]));
    } else {
        assert(persists_once(runs[i].resolved(), runs[i + 1].resolved(), outs[i]));
    }
}

/// Along any run of a session, where `runs[n]` is the session before event
/// `n` and `outs[n]` the hash of the record that event emitted, no hash is
/// emitted twice. Every event method of `Session` ensures the step relation
/// `persists_once` this law requires.
pub proof fn lemma_persisted_at_most_once(runs: Seq<Session>, outs: Seq<Option<Seq<char>>>)
    requires
        runs.len() == outs.len() + 1,
        forall|n: int|
            0 <= n < outs.len() ==> persists_once(
                #[trigger] runs[n].resolved(),
                runs[n + 1].resolved(),
                outs[n],
            ),
    ensures
        forall|i: int, j: int| 0 <= i < j < outs.len() && outs[i] is Some ==> outs[i] != outs[j],
{
    assert forall|i: int, j: int| 0 <= i < j < outs.len() && outs[i] is Some implies outs[i] != outs[j] by {
        lemma_persisted_stays(runs, outs, i, j);
        assert(persists_once(runs[j].resolved(), runs[j + 1].resolved(), outs[j]));
    }
}

} // verus!
