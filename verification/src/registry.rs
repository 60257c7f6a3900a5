use vstd::prelude::*;

use std::collections::HashMap;

use crate::errors::{JobError, MessageFault};
use crate::lifecycle::{life_step, LifeOp, RegModel};
use crate::slot::{message_spec, read_output, IoView, Slot};

verus! {

broadcast use vstd::std_specs::hash::group_hash_axioms;

/// The job registry: the single source of truth mapping integer handles
/// to resource slots, and the arbitration point for all lifecycle races.
/// A handle is valid exactly between its issuing create and its matching
/// destroy; handles are never reused, so a stale handle simply fails to
/// resolve.
pub struct Registry {
    next_handle: usize,
    slots: HashMap<usize, Slot>,
}

impl View for Registry {
    type V = Map<usize, Map<i32, IoView>>;

    /// The table as contracts see it: each live handle mapped to the
    /// attachments of its slot.
    closed spec fn view(&self) -> Map<usize, Map<i32, IoView>> {
        Map::new(|h: usize| self.slots@.contains_key(h), |h: usize| self.slots@[h]@)
    }
}

impl Registry {
    /// Every live handle lies strictly below the next handle to issue,
    /// so a fresh handle never collides with a live one and a destroyed
    /// handle is never issued again.
    pub closed spec fn wf(&self) -> bool {
        forall|h: usize| #[trigger] self@.contains_key(h) ==> h < self.next_handle
    }

    /// The registry's lifecycle state: its next handle and its live
    /// handles, as the lifecycle model counts them.  Every operation's
    /// contract says which lifecycle step the operation performs.
    pub closed spec fn lifecycle(&self) -> RegModel {
        RegModel {
            next: self.next_handle as nat,
            live: Set::new(|h: nat| h <= usize::MAX && self.slots@.contains_key(h as usize)),
        }
    }

    /// An empty registry: no handle has ever been issued.  The registry
    /// holds no durable state, so a process starts from exactly this.
    pub fn new() -> (r: Registry)
        ensures
            r.wf(),
            r@ == Map::<usize, Map<i32, IoView>>::empty(),
            r.lifecycle() == crate::lifecycle::init_model(),
    {
        let r = Registry { next_handle: 0, slots: HashMap::new() };
        proof {
            assert(r@ =~= Map::<usize, Map<i32, IoView>>::empty());
            assert(r.lifecycle().live =~= Set::<nat>::empty());
        }
        r
    }

    /// Allocates a new job, issues a handle that is not currently in the
    /// table and never was, inserts the pair, and returns the handle.
    /// Fails only when no fresh handle can be issued; then nothing is
    /// inserted and no handle is returned.
    pub fn create(&mut self) -> (r: Result<usize, JobError>)
        requires
            old(self).wf(),
        ensures
            final(self).wf(),
            r is Ok <==> old(self).lifecycle().next < usize::MAX as nat,
            match r {
                Ok(h) => {
                    &&& h as nat == old(self).lifecycle().next
                    &&& !old(self)@.contains_key(h)
                    &&& final(self)@ == old(self)@.insert(h, Map::<i32, IoView>::empty())
                    &&& final(self).lifecycle() == life_step(old(self).lifecycle(), LifeOp::Create)
                },
                Err(e) => {
                    &&& e == JobError::CreationError
                    &&& final(self)@ == old(self)@
                    &&& final(self).lifecycle() == old(self).lifecycle()
                },
            },
    {
        if self.next_handle == usize::MAX {
            return Err(JobError::CreationError);
        }
        let h = self.next_handle;
        self.next_handle = h + 1;
        let slot = Slot::new();
        self.slots.insert(h, slot);
        proof {
            assert(!old(self)@.contains_key(h));
            assert(self@ =~= old(self)@.insert(h, Map::<i32, IoView>::empty()));
            assert(self.lifecycle().live =~= old(self).lifecycle().live.insert(h as nat)) by {
                assert forall|n: nat|
                    self.lifecycle().live.contains(n) <==> old(self).lifecycle().live.insert(
                        h as nat,
                    ).contains(n) by {
                    if n <= usize::MAX {
                        assert((n as usize) as nat == n);
                    }
                }
            }
            assert(self.lifecycle() == life_step(old(self).lifecycle(), LifeOp::Create));
            assert forall|h2: usize| #[trigger] self@.contains_key(h2) implies h2
                < self.next_handle by {
                if h2 != h {
                    assert(old(self)@.contains_key(h2));
                }
            }
        }
        Ok(h)
    }

    /// Resolves a handle: true exactly when `h` is currently valid, that
    /// is, issued by a create and not yet destroyed.  A stale or unknown
    /// handle simply fails to resolve.
    pub fn handle_is_valid(&self, h: usize) -> (r: bool)
        ensures
            r == self@.contains_key(h),
    {
        self.slots.contains_key(&h)
    }

    /// Destroys the job of `h`: the table entry is removed first, making
    /// the handle invisible to every later lookup, and only then is the
    /// slot released with the job and every attachment it owns.  Nothing
    /// the release could report brings the entry back, so a partially
    /// destroyed slot is never reachable.
    pub fn destroy(&mut self, h: usize) -> (r: Result<(), JobError>)
        requires
            old(self).wf(),
        ensures
            final(self).wf(),
            final(self).lifecycle() == life_step(
                old(self).lifecycle(),
                LifeOp::Destroy(h as nat),
            ),
            match r {
                Ok(_) => old(self)@.contains_key(h) && final(self)@ == old(self)@.remove(h),
                Err(e) => e == JobError::HandleNotFound && !old(self)@.contains_key(h) && final(self)@ == old(self)@,
            },
    {
        match self.slots.remove(&h) {
            Some(slot) => {
                proof {
                    assert(self@ =~= old(self)@.remove(h));
                    assert(self.lifecycle().live =~= old(self).lifecycle().live.remove(
                        h as nat,
                    )) by {
                        assert forall|n: nat|
                            self.lifecycle().live.contains(n) <==> old(
                                self,
                            ).lifecycle().live.remove(h as nat).contains(n) by {
                            if n <= usize::MAX {
                                assert((n as usize) as nat == n);
                            }
                        }
                    }
                    assert forall|h2: usize| #[trigger] self@.contains_key(h2) implies h2
                        < self.next_handle by {
                        assert(old(self)@.contains_key(h2));
                    }
                }
                // dropping the slot here frees the job and all attachments
                Ok(())
            },
            None => {
                proof {
                    assert(self.slots@ =~= old(self).slots@);
                    self.lemma_untouched(*old(self));
                    assert(self.lifecycle().live =~= old(self).lifecycle().live.remove(
                        h as nat,
                    )) by {
                        assert forall|n: nat|
                            self.lifecycle().live.contains(n) <==> old(
                                self,
                            ).lifecycle().live.remove(h as nat).contains(n) by {
                            if n <= usize::MAX {
                                assert((n as usize) as nat == n);
                            }
                        }
                    }
                }
                Err(JobError::HandleNotFound)
            },
        }
    }

    /// Attaches a copy of `bytes` as the input `io_id` of the job of
    /// `h`.  Only the slot of `h` changes, and only when the identifier
    /// was free on it.
    pub fn add_input_buffer(&mut self, h: usize, io_id: i32, bytes: &[u8]) -> (r: Result<
        (),
        JobError,
    >)
        requires
            old(self).wf(),
        ensures
            final(self).wf(),
            final(self).lifecycle() == old(self).lifecycle(),
            match r {
                Ok(_) => {
                    &&& old(self)@.contains_key(h)
                    &&& !old(self)@[h].contains_key(io_id)
                    &&& final(self)@ == old(self)@.insert(
                        h,
                        old(self)@[h].insert(io_id, IoView::InBuffer(bytes@)),
                    )
                },
                Err(JobError::HandleNotFound) => !old(self)@.contains_key(h) && final(self)@ == old(self)@,
                Err(JobError::DuplicateIoId) => old(self)@.contains_key(h)
                    && old(self)@[h].contains_key(io_id) && final(self)@ == old(self)@,
                Err(_) => false,
            },
    {
        match self.slots.remove(&h) {
            None => {
                proof {
                    assert(self.slots@ =~= old(self).slots@);
                    self.lemma_untouched(*old(self));
                }
                Err(JobError::HandleNotFound)
            },
            Some(mut slot) => {
                let r = slot.add_input_buffer(io_id, bytes);
                self.slots.insert(h, slot);
                proof {
                    self.lemma_writeback(*old(self), h);
                }
                r
            },
        }
    }

    /// Registers a file path as the input source `io_id` of the job of
    /// `h`.  The path is held opaquely; nothing here reads it.
    pub fn add_input_file(&mut self, h: usize, io_id: i32, path: String) -> (r: Result<
        (),
        JobError,
    >)
        requires
            old(self).wf(),
        ensures
            final(self).wf(),
            final(self).lifecycle() == old(self).lifecycle(),
            match r {
                Ok(_) => {
                    &&& old(self)@.contains_key(h)
                    &&& !old(self)@[h].contains_key(io_id)
                    &&& final(self)@ == old(self)@.insert(
                        h,
                        old(self)@[h].insert(io_id, IoView::InFile(path@)),
                    )
                },
                Err(JobError::HandleNotFound) => !old(self)@.contains_key(h) && final(self)@ == old(self)@,
                Err(JobError::DuplicateIoId) => old(self)@.contains_key(h)
                    && old(self)@[h].contains_key(io_id) && final(self)@ == old(self)@,
                Err(_) => false,
            },
    {
        match self.slots.remove(&h) {
            None => {
                proof {
                    assert(self.slots@ =~= old(self).slots@);
                    self.lemma_untouched(*old(self));
                }
                Err(JobError::HandleNotFound)
            },
            Some(mut slot) => {
                let r = slot.add_input_file(io_id, path);
                self.slots.insert(h, slot);
                proof {
                    self.lemma_writeback(*old(self), h);
                }
                r
            },
        }
    }

    /// Registers `io_id` as an in-memory output sink of the job of `h`,
    /// empty until a message populates it.
    pub fn add_output_buffer(&mut self, h: usize, io_id: i32) -> (r: Result<(), JobError>)
        requires
            old(self).wf(),
        ensures
            final(self).wf(),
            final(self).lifecycle() == old(self).lifecycle(),
            match r {
                Ok(_) => {
                    &&& old(self)@.contains_key(h)
                    &&& !old(self)@[h].contains_key(io_id)
                    &&& final(self)@ == old(self)@.insert(
                        h,
                        old(self)@[h].insert(io_id, IoView::OutBuffer(None)),
                    )
                },
                Err(JobError::HandleNotFound) => !old(self)@.contains_key(h) && final(self)@ == old(self)@,
                Err(JobError::DuplicateIoId) => old(self)@.contains_key(h)
                    && old(self)@[h].contains_key(io_id) && final(self)@ == old(self)@,
                Err(_) => false,
            },
    {
        match self.slots.remove(&h) {
            None => {
                proof {
                    assert(self.slots@ =~= old(self).slots@);
                    self.lemma_untouched(*old(self));
                }
                Err(JobError::HandleNotFound)
            },
            Some(mut slot) => {
                let r = slot.add_output_buffer(io_id);
                self.slots.insert(h, slot);
                proof {
                    self.lemma_writeback(*old(self), h);
                }
                r
            },
        }
    }

    /// Returns a copy of the bytes accumulated for the output `io_id` of
    /// the job of `h`.  The caller owns the returned bytes.  Membership
    /// of the table never changes here.
    pub fn get_output_buffer(&self, h: usize, io_id: i32) -> (r: Result<Vec<u8>, JobError>)
        ensures
            match r {
                Ok(b) => self@.contains_key(h) && read_output(self@[h], io_id) == Ok::<
                    Seq<u8>,
                    JobError,
                >(b@),
                Err(JobError::HandleNotFound) => !self@.contains_key(h),
                Err(e) => self@.contains_key(h) && read_output(self@[h], io_id) == Err::<
                    Seq<u8>,
                    JobError,
                >(e),
            },
    {
        match self.slots.get(&h) {
            None => Err(JobError::HandleNotFound),
            Some(slot) => slot.get_output_buffer(io_id),
        }
    }

    /// Forwards one instruction to the engine through the job of `h` and
    /// relays the response.  A failed message leaves the slot unchanged
    /// and usable: callers may inspect the fault, retry, or destroy.
    pub fn message(&mut self, h: usize, method: &[u8], payload: &[u8]) -> (r: Result<
        Vec<u8>,
        JobError,
    >)
        requires
            old(self).wf(),
        ensures
            final(self).wf(),
            final(self).lifecycle() == old(self).lifecycle(),
            match r {
                Ok(b) => {
                    &&& old(self)@.contains_key(h)
                    &&& message_spec(old(self)@[h], method@, payload@).1 == Ok::<
                        Seq<u8>,
                        MessageFault,
                    >(b@)
                    &&& final(self)@ == old(self)@.insert(
                        h,
                        message_spec(old(self)@[h], method@, payload@).0,
                    )
                },
                Err(JobError::HandleNotFound) => !old(self)@.contains_key(h) && final(self)@ == old(self)@,
                Err(JobError::MessageError(ft)) => {
                    &&& old(self)@.contains_key(h)
                    &&& message_spec(old(self)@[h], method@, payload@).1 == Err::<
                        Seq<u8>,
                        MessageFault,
                    >(ft)
                    &&& final(self)@ == old(self)@
                },
                Err(_) => false,
            },
    {
        match self.slots.remove(&h) {
            None => {
                proof {
                    assert(self.slots@ =~= old(self).slots@);
                    self.lemma_untouched(*old(self));
                }
                Err(JobError::HandleNotFound)
            },
            Some(mut slot) => {
                let r = slot.message(method, payload);
                self.slots.insert(h, slot);
                proof {
                    self.lemma_writeback(*old(self), h);
                    if r is Err {
                        assert(self@ =~= old(self)@);
                    }
                }
                r
            },
        }
    }

    /// A handle resolves in the table exactly when the lifecycle model
    /// counts it live, so everything the lifecycle lemmas say of live
    /// handles holds of the handles that operations accept.
    pub proof fn lemma_table_matches_lifecycle(&self, h: usize)
        ensures
            self@.contains_key(h) <==> self.lifecycle().live.contains(h as nat),
    {
        assert(((h as nat) as usize) == h);
    }

    /// An operation that looked for an absent handle leaves the table,
    /// the lifecycle state and well-formedness exactly as they were.
    proof fn lemma_untouched(&self, prior: Registry)
        requires
            prior.wf(),
            self.next_handle == prior.next_handle,
            self.slots@ == prior.slots@,
        ensures
            self.wf(),
            self@ == prior@,
            self.lifecycle() == prior.lifecycle(),
    {
        assert(self@ =~= prior@);
        assert(self.lifecycle().live =~= prior.lifecycle().live);
        assert forall|h2: usize| #[trigger] self@.contains_key(h2) implies h2
            < self.next_handle by {
            assert(prior@.contains_key(h2));
        }
    }

    /// Taking the slot of a live handle out, working on it, and putting
    /// it back updates the table at that handle alone, keeps the
    /// lifecycle state, and preserves well-formedness.
    proof fn lemma_writeback(&self, prior: Registry, h: usize)
        requires
            prior.wf(),
            prior.slots@.contains_key(h),
            self.next_handle == prior.next_handle,
            self.slots@ == prior.slots@.remove(h).insert(h, self.slots@[h]),
        ensures
            self.wf(),
            self@ == prior@.insert(h, self.slots@[h]@),
            self.lifecycle() == prior.lifecycle(),
    {
        assert(self@ =~= prior@.insert(h, self.slots@[h]@));
        assert(self.lifecycle().live =~= prior.lifecycle().live) by {
            assert forall|n: nat|
                self.lifecycle().live.contains(n) <==> prior.lifecycle().live.contains(n) by {
                if n <= usize::MAX {
                    assert((n as usize) as nat == n);
                }
            }
        }
        assert forall|h2: usize| #[trigger] self@.contains_key(h2) implies h2
            < self.next_handle by {
            if h2 != h {
                assert(prior@.contains_key(h2));
            } else {
                assert(prior@.contains_key(h));
            }
        }
    }
}

/// Once a handle is destroyed its entry is gone: looking it up finds
/// nothing — so every later operation on it reports `HandleNotFound` —
/// and every other handle still resolves to exactly the slot it had.
pub proof fn lemma_destroy_is_final(
    table: Map<usize, Map<i32, IoView>>,
    h: usize,
    other: usize,
)
    ensures
        !table.remove(h).contains_key(h),
        other != h ==> (table.remove(h).contains_key(other) <==> table.contains_key(other)),
        other != h && table.contains_key(other) ==> table.remove(h)[other] == table[other],
{
}

/// Attachment identifiers are scoped to one slot: registering one on the
/// slot of `h` leaves every other handle's attachments exactly as they
/// were, so the same identifier on two different slots never conflicts.
pub proof fn lemma_io_ids_slot_scoped(
    table: Map<usize, Map<i32, IoView>>,
    h: usize,
    other: usize,
    io_id: i32,
    v: IoView,
)
    requires
        h != other,
        table.contains_key(h),
        table.contains_key(other),
    ensures
        table.insert(h, table[h].insert(io_id, v)).contains_key(other),
        table.insert(h, table[h].insert(io_id, v))[other] == table[other],
        table.insert(h, table[h].insert(io_id, v))[other].contains_key(io_id)
            == table[other].contains_key(io_id),
{
}

} // verus!


verus! {

/// The round trip seen from the registry: on any table where `h` is
/// live and the identifiers `f` and `t` are still free on its slot, the
/// tables that attaching `data` as the input `f`, registering the output
/// `t`, and sending a `copy` instruction naming the two leave behind
/// read back exactly `data` under `t` of `h`, and the message succeeds.
pub proof fn lemma_registry_copy_round_trip(
    table: Map<usize, Map<i32, IoView>>,
    h: usize,
    f: i32,
    t: i32,
    data: Seq<u8>,
    payload: Seq<u8>,
)
    requires
        table.contains_key(h),
        !table[h].contains_key(f),
        !table[h].insert(f, IoView::InBuffer(data)).contains_key(t),
        crate::protocol::parse_copy(payload) == Some((f as int, t as int)),
    ensures
        ({
            let with_input = table.insert(h, table[h].insert(f, IoView::InBuffer(data)));
            let with_output = with_input.insert(
                h,
                with_input[h].insert(t, IoView::OutBuffer(None)),
            );
            let stepped = message_spec(with_output[h], crate::protocol::copy_method(), payload);
            let after_message = with_output.insert(h, stepped.0);
            &&& stepped.1 == Ok::<Seq<u8>, crate::errors::MessageFault>(
                crate::protocol::success_response(),
            )
            &&& read_output(after_message[h], t) == Ok::<Seq<u8>, JobError>(data)
        }),
{
    crate::slot::lemma_copy_round_trip(table[h], f, t, data, payload);
}

} // verus!
