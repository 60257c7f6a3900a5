use vstd::prelude::*;

use std::collections::HashMap;

use crate::errors::{JobError, MessageFault};
use crate::protocol::{
    copy_method, method_is_copy, parse_copy, parse_copy_payload, success_response,
    success_response_bytes,
};

verus! {

broadcast use vstd::std_specs::hash::group_hash_axioms;

/// What one attachment of a slot stands for, as contracts see it: a
/// buffer-backed input with its bytes, a file-backed input with its path,
/// or an output buffer together with the bytes a message populated it
/// with, if one has.
pub enum IoView {
    InBuffer(Seq<u8>),
    InFile(Seq<char>),
    OutBuffer(Option<Seq<u8>>),
}

/// One attachment of a slot as the code stores it.
pub enum IoKind {
    /// A caller-supplied buffer copied into slot ownership.
    InputBuffer(Vec<u8>),
    /// A path to an external file for the engine to read.
    InputFile(String),
    /// An in-memory output sink; holds bytes once a message populated it.
    OutputBuffer(Option<Vec<u8>>),
}

impl View for IoKind {
    type V = IoView;

    open spec fn view(&self) -> IoView {
        match self {
            IoKind::InputBuffer(b) => IoView::InBuffer(b@),
            IoKind::InputFile(p) => IoView::InFile(p@),
            IoKind::OutputBuffer(Some(b)) => IoView::OutBuffer(Some(b@)),
            IoKind::OutputBuffer(None) => IoView::OutBuffer(None),
        }
    }
}

/// A resource slot: owns one engine job and its attached inputs and
/// outputs.  Attachment identifiers are scoped to the slot, and each is
/// registered as an input or as an output, never both.
pub struct Slot {
    ios: HashMap<i32, IoKind>,
}

impl View for Slot {
    type V = Map<i32, IoView>;

    closed spec fn view(&self) -> Map<i32, IoView> {
        Map::new(|id: i32| self.ios@.contains_key(id), |id: i32| self.ios@[id]@)
    }
}

/// Copies a byte slice into an owned vector.
fn copy_bytes(src: &[u8]) -> (r: Vec<u8>)
    ensures
        r@ == src@,
{
    let mut r: Vec<u8> = Vec::new();
    let mut i: usize = 0;
    while i < src.len()
        invariant
            i <= src@.len(),
            r@ == src@.subrange(0, i as int),
        decreases src@.len() - i,
    {
        r.push(src[i]);
        proof {
            assert(src@.subrange(0, i + 1 as int) =~= src@.subrange(0, i as int).push(
                src@[i as int],
            ));
        }
        i = i + 1;
    }
    proof {
        assert(src@.subrange(0, src@.len() as int) =~= src@);
    }
    r
}

/// What reading output `io_id` of a slot whose attachments are `ios`
/// yields: the bytes a message stored there, `OutputNotFound` when the
/// identifier names no output, and `OutputNotReady` when it names an
/// output that no message has populated yet.
pub open spec fn read_output(ios: Map<i32, IoView>, io_id: i32) -> Result<Seq<u8>, JobError> {
    if !ios.contains_key(io_id) {
        Err(JobError::OutputNotFound)
    } else {
        match ios[io_id] {
            IoView::InBuffer(_) => Err(JobError::OutputNotFound),
            IoView::InFile(_) => Err(JobError::OutputNotFound),
            IoView::OutBuffer(None) => Err(JobError::OutputNotReady),
            IoView::OutBuffer(Some(b)) => Ok(b),
        }
    }
}

/// What the engine does with one instruction sent to a slot whose
/// attachments are `ios`: the attachments afterwards, and the response or
/// the fault.  The engine knows a single method, `copy`, whose payload
/// names a buffer-backed input to read and an output buffer to fill.
pub open spec fn message_spec(ios: Map<i32, IoView>, method: Seq<u8>, payload: Seq<u8>) -> (
    Map<i32, IoView>,
    Result<Seq<u8>, MessageFault>,
) {
    if method != copy_method() {
        (ios, Err(MessageFault::UnknownMethod))
    } else {
        match parse_copy(payload) {
            None => (ios, Err(MessageFault::MalformedPayload)),
            Some(ft) => {
                let f = ft.0 as i32;
                let t = ft.1 as i32;
                if !(ios.contains_key(f) && ios[f] is InBuffer) {
                    (ios, Err(MessageFault::InputMissing))
                } else if !(ios.contains_key(t) && ios[t] is OutBuffer) {
                    (ios, Err(MessageFault::OutputMissing))
                } else {
                    (
                        ios.insert(t, IoView::OutBuffer(Some(ios[f]->InBuffer_0))),
                        Ok(success_response()),
                    )
                }
            },
        }
    }
}

impl Slot {
    /// A fresh slot with no attachments.
    pub fn new() -> (s: Slot)
        ensures
            s@ == Map::<i32, IoView>::empty(),
    {
        let s = Slot { ios: HashMap::new() };
        proof {
            assert(s@ =~= Map::<i32, IoView>::empty());
        }
        s
    }

    /// Copies the supplied bytes into slot ownership and registers them
    /// as the input for `io_id`.
    pub fn add_input_buffer(&mut self, io_id: i32, bytes: &[u8]) -> (r: Result<(), JobError>)
        ensures
            match r {
                Ok(_) => !old(self)@.contains_key(io_id) && final(self)@ == old(self)@.insert(
                    io_id,
                    IoView::InBuffer(bytes@),
                ),
                Err(e) => e == JobError::DuplicateIoId && old(self)@.contains_key(io_id)
                    && final(self)@ == old(self)@,
            },
    {
        if self.ios.contains_key(&io_id) {
            return Err(JobError::DuplicateIoId);
        }
        let owned = copy_bytes(bytes);
        self.ios.insert(io_id, IoKind::InputBuffer(owned));
        proof {
            assert(self@ =~= old(self)@.insert(io_id, IoView::InBuffer(bytes@)));
        }
        Ok(())
    }

    /// Registers a file path as the input source for `io_id`.  The path
    /// is held opaquely for the engine; nothing here reads it.
    pub fn add_input_file(&mut self, io_id: i32, path: String) -> (r: Result<(), JobError>)
        ensures
            match r {
                Ok(_) => !old(self)@.contains_key(io_id) && final(self)@ == old(self)@.insert(
                    io_id,
                    IoView::InFile(path@),
                ),
                Err(e) => e == JobError::DuplicateIoId && old(self)@.contains_key(io_id)
                    && final(self)@ == old(self)@,
            },
    {
        if self.ios.contains_key(&io_id) {
            return Err(JobError::DuplicateIoId);
        }
        self.ios.insert(io_id, IoKind::InputFile(path));
        proof {
            assert(self@ =~= old(self)@.insert(io_id, IoView::InFile(path@)));
        }
        Ok(())
    }

    /// Registers `io_id` as an in-memory output sink, empty until a
    /// message populates it.
    pub fn add_output_buffer(&mut self, io_id: i32) -> (r: Result<(), JobError>)
        ensures
            match r {
                Ok(_) => !old(self)@.contains_key(io_id) && final(self)@ == old(self)@.insert(
                    io_id,
                    IoView::OutBuffer(None),
                ),
                Err(e) => e == JobError::DuplicateIoId && old(self)@.contains_key(io_id)
                    && final(self)@ == old(self)@,
            },
    {
        if self.ios.contains_key(&io_id) {
            return Err(JobError::DuplicateIoId);
        }
        self.ios.insert(io_id, IoKind::OutputBuffer(None));
        proof {
            assert(self@ =~= old(self)@.insert(io_id, IoView::OutBuffer(None)));
        }
        Ok(())
    }

    /// Returns a copy of the bytes accumulated for the output `io_id`.
    /// The caller owns the returned bytes; the slot keeps its own.
    pub fn get_output_buffer(&self, io_id: i32) -> (r: Result<Vec<u8>, JobError>)
        ensures
            match r {
                Ok(b) => read_output(self@, io_id) == Ok::<Seq<u8>, JobError>(b@),
                Err(e) => read_output(self@, io_id) == Err::<Seq<u8>, JobError>(e),
            },
    {
        match self.ios.get(&io_id) {
            None => Err(JobError::OutputNotFound),
            Some(IoKind::InputBuffer(_)) => Err(JobError::OutputNotFound),
            Some(IoKind::InputFile(_)) => Err(JobError::OutputNotFound),
            Some(IoKind::OutputBuffer(None)) => Err(JobError::OutputNotReady),
            Some(IoKind::OutputBuffer(Some(b))) => Ok(copy_bytes(b.as_slice())),
        }
    }

    /// Forwards one instruction to the engine.  This is the sole entry
    /// point that triggers image work.  A failed message leaves the slot
    /// exactly as it was, and the slot stays usable afterwards.
    pub fn message(&mut self, method: &[u8], payload: &[u8]) -> (r: Result<Vec<u8>, JobError>)
        ensures
            final(self)@ == message_spec(old(self)@, method@, payload@).0,
            match r {
                Ok(b) => message_spec(old(self)@, method@, payload@).1 == Ok::<
                    Seq<u8>,
                    MessageFault,
                >(b@),
                Err(JobError::MessageError(ft)) => message_spec(old(self)@, method@, payload@).1
                    == Err::<Seq<u8>, MessageFault>(ft),
                Err(_) => false,
            },
    {
        if !method_is_copy(method) {
            return Err(JobError::MessageError(MessageFault::UnknownMethod));
        }
        let parsed = parse_copy_payload(payload);
        match parsed {
            None => Err(JobError::MessageError(MessageFault::MalformedPayload)),
            Some((f, t)) => {
                let data: Vec<u8>;
                match self.ios.get(&f) {
                    Some(IoKind::InputBuffer(b)) => {
                        data = copy_bytes(b.as_slice());
                    },
                    _ => {
                        return Err(JobError::MessageError(MessageFault::InputMissing));
                    },
                }
                let dest_ok = match self.ios.get(&t) {
                    Some(IoKind::OutputBuffer(_)) => true,
                    _ => false,
                };
                if !dest_ok {
                    return Err(JobError::MessageError(MessageFault::OutputMissing));
                }
                self.ios.insert(t, IoKind::OutputBuffer(Some(data)));
                proof {
                    assert(self@ =~= message_spec(old(self)@, method@, payload@).0);
                }
                Ok(success_response_bytes())
            },
        }
    }
}

/// A second registration of an identifier already taken on a slot is
/// always refused: after any registration of `io_id`, whatever kind of
/// attachment it made, `io_id` counts as taken, so the add operations
/// report `DuplicateIoId` for it and change nothing.
pub proof fn lemma_duplicate_io_id_refused(ios: Map<i32, IoView>, io_id: i32, v: IoView)
    ensures
        ios.insert(io_id, v).contains_key(io_id),
{
}

/// An identifier registered as an input reads as `OutputNotFound`, never
/// as `OutputNotReady`.
pub proof fn lemma_input_reads_output_not_found(ios: Map<i32, IoView>, io_id: i32)
    requires
        ios.contains_key(io_id),
        ios[io_id] is InBuffer || ios[io_id] is InFile,
    ensures
        read_output(ios, io_id) == Err::<Seq<u8>, JobError>(JobError::OutputNotFound),
{
}

/// Round trip: attach `data` as a buffer-backed input under `f`, register
/// an output buffer under `t`, and send a `copy` instruction whose
/// payload names the two.  The message succeeds, and reading the output
/// afterwards returns exactly `data`.
pub proof fn lemma_copy_round_trip(
    ios: Map<i32, IoView>,
    f: i32,
    t: i32,
    data: Seq<u8>,
    payload: Seq<u8>,
)
    requires
        !ios.contains_key(f),
        !ios.insert(f, IoView::InBuffer(data)).contains_key(t),
        parse_copy(payload) == Some((f as int, t as int)),
    ensures
        ({
            let staged = ios.insert(f, IoView::InBuffer(data)).insert(t, IoView::OutBuffer(None));
            let stepped = message_spec(staged, copy_method(), payload);
            &&& stepped.1 == Ok::<Seq<u8>, MessageFault>(success_response())
            &&& read_output(stepped.0, t) == Ok::<Seq<u8>, JobError>(data)
        }),
{
    let staged = ios.insert(f, IoView::InBuffer(data)).insert(t, IoView::OutBuffer(None));
    assert(f != t);
    assert(staged[f] == IoView::InBuffer(data));
    assert(staged[t] == IoView::OutBuffer(None));
}

} // verus!
