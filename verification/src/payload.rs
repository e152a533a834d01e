//! Size-classed payload storage and the message envelope.
//!
//! An encoded value is stored in the smallest of five fixed inline byte
//! classes (12, 24, 48, 64 and 128 bytes) whose capacity fits its length,
//! zero-padded; anything longer lives in an exact-size heap buffer. The
//! envelope records the exact encoded length, so padding is never treated as
//! payload data.

use vstd::prelude::*;
use vstd::array::ArrayAdditionalExecFns;
use vstd::slice::slice_subrange;
use vstd::slice::slice_to_vec;
use crate::errors::BusError;

verus! {

/// Payload storage, chosen by encoded length: five inline classes, then an
/// exact-size heap buffer for anything longer than 128 bytes.
#[derive(Clone, Debug)]
pub enum MessagePayload {
    Bytes12([u8; 12]),
    Bytes24([u8; 24]),
    Bytes48([u8; 48]),
    Bytes64([u8; 64]),
    Bytes128([u8; 128]),
    Large(Vec<u8>),
}

impl MessagePayload {
    /// The full backing bytes of this container, padding included.
    pub open spec fn spec_bytes(&self) -> Seq<u8> {
        match self {
            MessagePayload::Bytes12(a) => a@,
            MessagePayload::Bytes24(a) => a@,
            MessagePayload::Bytes48(a) => a@,
            MessagePayload::Bytes64(a) => a@,
            MessagePayload::Bytes128(a) => a@,
            MessagePayload::Large(v) => v@,
        }
    }

    /// The capacity of the chosen class: fixed for the inline classes, the
    /// exact buffer length for the heap class.
    pub open spec fn spec_capacity(&self) -> nat {
        match self {
            MessagePayload::Bytes12(_) => 12,
            MessagePayload::Bytes24(_) => 24,
            MessagePayload::Bytes48(_) => 48,
            MessagePayload::Bytes64(_) => 64,
            MessagePayload::Bytes128(_) => 128,
            MessagePayload::Large(v) => v@.len(),
        }
    }

    /// True for the stack-stored classes, false for the heap-backed one.
    pub open spec fn is_inline(&self) -> bool {
        !(self is Large)
    }
}

/// The capacities available without heap allocation.
pub open spec fn spec_is_inline_capacity(c: nat) -> bool {
    c == 12 || c == 24 || c == 48 || c == 64 || c == 128
}

/// The capacity the encoder must choose for an encoded length: the smallest
/// inline capacity that fits, or the exact length beyond the largest class.
pub open spec fn spec_chosen_capacity(len: nat) -> nat {
    if len <= 12 {
        12
    } else if len <= 24 {
        24
    } else if len <= 48 {
        48
    } else if len <= 64 {
        64
    } else if len <= 128 {
        128
    } else {
        len
    }
}

/// For every encoded length that fits inline, the chosen capacity is an
/// inline capacity, it fits the length, and it is the smallest inline
/// capacity that does; beyond the largest inline class the chosen capacity
/// is the exact length.
pub proof fn lemma_chosen_capacity_smallest(len: nat)
    ensures
        len <= spec_chosen_capacity(len),
        len <= 128 ==> spec_is_inline_capacity(spec_chosen_capacity(len)),
        forall|c: nat| spec_is_inline_capacity(c) && len <= c ==> spec_chosen_capacity(len) <= c,
        len > 128 ==> spec_chosen_capacity(len) == len,
{
}

/// The immutable unit of transport: an interned identifier, a size-classed
/// payload, and the exact encoded length.
///
/// Cloning is a stack copy for the inline classes and a deep buffer copy for
/// the heap-backed class; the design assumes small messages, so the cheap
/// copy is the common case.
#[derive(Clone, Debug)]
pub struct Message {
    pub id: &'static str,
    pub payload: MessagePayload,
    pub len: usize,
}

impl Message {
    /// Well-formedness: the payload's class is exactly the one the encoder
    /// chooses for `len`, its backing store is full-capacity, the heap class
    /// is used precisely beyond the largest inline class, and every padding
    /// byte is zero.
    pub open spec fn wf(&self) -> bool {
        &&& self.payload.spec_capacity() == spec_chosen_capacity(self.len as nat)
        &&& self.payload.spec_bytes().len() == self.payload.spec_capacity()
        &&& (self.payload.is_inline() <==> self.len <= 128)
        &&& forall|i: int|
            self.len <= i < self.payload.spec_bytes().len()
                ==> self.payload.spec_bytes()[i] == 0u8
    }

    /// The exact encoded bytes: the first `len` bytes of the backing store,
    /// never including padding.
    pub open spec fn spec_content(&self) -> Seq<u8> {
        self.payload.spec_bytes().subrange(0, self.len as int)
    }

    /// Builds an envelope around already-encoded bytes: the smallest fitting
    /// class is chosen, the bytes are copied in, and the remainder of an
    /// inline class is zero-padded.
    pub fn from_bytes(id: &'static str, bytes: &Vec<u8>) -> (r: Message)
        ensures
            r.wf(),
            r.id == id,
            r.len == bytes@.len(),
            r.spec_content() == bytes@,
            r.payload.spec_capacity() == spec_chosen_capacity(bytes@.len()),
            bytes@.len() <= 128 ==> r.payload.is_inline(),
            bytes@.len() > 128 ==> !r.payload.is_inline(),
    {
        let n = bytes.len();
        let payload = if n <= 12 {
            MessagePayload::Bytes12(fill_inline::<12>(bytes))
        } else if n <= 24 {
            MessagePayload::Bytes24(fill_inline::<24>(bytes))
        } else if n <= 48 {
            MessagePayload::Bytes48(fill_inline::<48>(bytes))
        } else if n <= 64 {
            MessagePayload::Bytes64(fill_inline::<64>(bytes))
        } else if n <= 128 {
            MessagePayload::Bytes128(fill_inline::<128>(bytes))
        } else {
            MessagePayload::Large(slice_to_vec(bytes.as_slice()))
        };
        let r = Message { id, payload, len: n };
        proof {
            assert(r.spec_content() =~= bytes@);
        }
        r
    }

    /// Encodes a value and builds its envelope. Relies on the serialization
    /// collaborator; a value the codec rejects fails envelope construction
    /// immediately with `Encoding`, and no partial envelope is produced.
    pub fn new<T: serde::Serialize>(id: &'static str, data: &T) -> (r: Result<Message, BusError>)
        ensures
            r matches Ok(m) ==> m.wf() && m.id == id,
            r matches Err(e) ==> e.is_encoding(),
    {
        match serialize_value(data) {
            Ok(bytes) => Ok(Message::from_bytes(id, &bytes)),
            Err(msg) => Err(BusError::Encoding(msg)),
        }
    }

    /// The exact-length view of the encoded bytes, padding excluded.
    pub fn serialized_data(&self) -> (r: &[u8])
        requires
            self.wf(),
        ensures
            r@ == self.spec_content(),
    {
        match &self.payload {
            MessagePayload::Bytes12(a) => slice_subrange(a.as_slice(), 0, self.len),
            MessagePayload::Bytes24(a) => slice_subrange(a.as_slice(), 0, self.len),
            MessagePayload::Bytes48(a) => slice_subrange(a.as_slice(), 0, self.len),
            MessagePayload::Bytes64(a) => slice_subrange(a.as_slice(), 0, self.len),
            MessagePayload::Bytes128(a) => slice_subrange(a.as_slice(), 0, self.len),
            MessagePayload::Large(v) => slice_subrange(v.as_slice(), 0, self.len),
        }
    }

    /// Decodes the exact encoded bytes back into a value. Relies on the
    /// serialization collaborator; bytes that do not match the requested
    /// type fail with `Decoding`, surfaced to the caller and never swallowed.
    pub fn parse<T: serde::de::DeserializeOwned>(&self) -> (r: Result<T, BusError>)
        requires
            self.wf(),
        ensures
            r matches Err(e) ==> e.is_decoding(),
    {
        match deserialize_value(self.serialized_data()) {
            Ok(value) => Ok(value),
            Err(msg) => Err(BusError::Decoding(msg)),
        }
    }
}

/// Copies encoded bytes into a fixed inline buffer, zero-padding the tail.
fn fill_inline<const N: usize>(bytes: &Vec<u8>) -> (r: [u8; N])
    requires
        bytes@.len() <= N,
    ensures
        forall|i: int| 0 <= i < bytes@.len() ==> r@[i] == bytes@[i],
        forall|i: int| bytes@.len() <= i < N ==> r@[i] == 0u8,
{
    let mut arr: [u8; N] = [0u8; N];
    let mut i: usize = 0;
    while i < bytes.len()
        invariant
            i <= bytes@.len(),
            bytes@.len() <= N,
            forall|k: int| 0 <= k < i ==> arr@[k] == bytes@[k],
            forall|k: int| i <= k < N ==> arr@[k] == 0u8,
        decreases bytes@.len() - i,
    {
        arr[i] = bytes[i];
        i += 1;
    }
    arr
}

/// Relies on `bincode::serialize`: encodes a serializable value into bytes,
/// deterministically for supported types; a codec failure is carried over as
/// its message.
#[verifier::external_body]
fn serialize_value<T: serde::Serialize>(value: &T) -> (r: Result<Vec<u8>, String>) {
    bincode::serialize(value).map_err(|e| e.to_string())
}

/// Relies on `bincode::deserialize`: decodes bytes into the requested type;
/// a codec failure is carried over as its message.
#[verifier::external_body]
fn deserialize_value<T: serde::de::DeserializeOwned>(bytes: &[u8]) -> (r: Result<T, String>) {
    bincode::deserialize(bytes).map_err(|e| e.to_string())
}

} // verus!
