//! Serialisation surface: the errors, the `Serialisable` and `Serialiser`
//! contracts, and the message types the helpers produce.

use vstd::prelude::*;

use crate::buffer::{bytes_mut_len, bytes_mut_view, bytes_view, put_slice, put_u64_be, u64_to_be_bytes, MAX_BUF_LEN};
use crate::paths::ActorPath;

verus! {

/// Errors of the serialisation boundary.
#[derive(Clone, Copy, Debug, PartialEq, Eq, Structural)]
pub enum SerError {
    /// A serialised size or a serialiser could not be determined.
    Unknown,
    /// The bytes at hand do not hold a well-formed value.
    InvalidData,
}

/// A message that knows how to write itself into a buffer.
///
/// `ser_data` names the exact bytes an implementation writes; a successful
/// `serialise` appends exactly those bytes. A failed `serialise` reports
/// `Unknown`: `InvalidData` is reserved for decoding, so a caller that
/// sees it knows the bytes at hand were at fault, not the writer.
pub trait Serialisable {
    /// The transport-level type identifier of this message.
    spec fn ser_id_spec(&self) -> u64;

    /// Whether, and how large, this message reports its serialised size.
    spec fn size_hint_spec(&self) -> Option<usize>;

    /// The exact bytes this message serialises to.
    spec fn ser_data(&self) -> Seq<u8>;

    /// The transport-level type identifier of this message.
    fn ser_id(&self) -> (r: u64)
        ensures
            r == self.ser_id_spec(),
    ;

    /// A hint for pre-allocating the buffer; messages may serialise to
    /// more or fewer bytes than the hint.
    fn size_hint(&self) -> (r: Option<usize>)
        ensures
            r == self.size_hint_spec(),
    ;

    /// Append this message's serialised form to `buf`.
    fn serialise(&self, buf: &mut bytes::BytesMut) -> (r: Result<(), SerError>)
        ensures
            r is Ok ==> bytes_mut_view(*final(buf)) == bytes_mut_view(*old(buf)) + self.ser_data(),
            r is Err ==> r == Err::<(), SerError>(SerError::Unknown),
    ;
}

/// A serialiser for values of another type `T`.
///
/// `ser_data_for` names the exact bytes the serialiser writes for a value.
pub trait Serialiser<T> {
    /// The transport-level type identifier of the values it serialises.
    spec fn ser_id_spec(&self) -> u64;

    /// The exact bytes this serialiser writes for `v`.
    spec fn ser_data_for(&self, v: &T) -> Seq<u8>;

    /// Whether, and how large, this serialiser reports its values' sizes.
    spec fn size_hint_spec(&self) -> Option<usize>;

    /// The transport-level type identifier of the values it serialises.
    fn ser_id(&self) -> (r: u64)
        ensures
            r == self.ser_id_spec(),
    ;

    /// A hint for pre-allocating the buffer; values may serialise to more
    /// or fewer bytes than the hint.
    fn size_hint(&self) -> (r: Option<usize>)
        ensures
            r == self.size_hint_spec(),
    ;

    /// Append the serialised form of `v` to `buf`. As for
    /// [`Serialisable`], a failure reports `Unknown`.
    fn serialise(&self, v: &T, buf: &mut bytes::BytesMut) -> (r: Result<(), SerError>)
        ensures
            r is Ok ==> bytes_mut_view(*final(buf)) == bytes_mut_view(*old(buf))
                + self.ser_data_for(v),
            r is Err ==> r == Err::<(), SerError>(SerError::Unknown),
    ;
}

/// An eagerly serialised message: its type identifier and its bytes.
pub struct Serialised {
    pub ser_id: u64,
    pub data: bytes::Bytes,
}

/// A type-erased network message: the envelope handed to and received from
/// the transport.
pub struct NetMessage {
    pub ser_id: u64,
    pub sender: ActorPath,
    pub receiver: ActorPath,
    pub data: bytes::Bytes,
}

impl NetMessage {
    /// Assemble an envelope from its already-serialised parts.
    pub fn with_bytes(ser_id: u64, sender: ActorPath, receiver: ActorPath, data: bytes::Bytes) -> (r: NetMessage)
        ensures
            r == (NetMessage { ser_id, sender, receiver, data }),
    {
        NetMessage { ser_id, sender, receiver, data }
    }
}

/// A message that is already bytes: it serialises to exactly its contents.
pub struct RawBytes {
    pub ser_id: u64,
    pub data: Vec<u8>,
}

impl Serialisable for RawBytes {
    open spec fn ser_id_spec(&self) -> u64 {
        self.ser_id
    }

    open spec fn size_hint_spec(&self) -> Option<usize> {
        Some(self.data.len() as usize)
    }

    open spec fn ser_data(&self) -> Seq<u8> {
        self.data@
    }

    fn ser_id(&self) -> u64 {
        self.ser_id
    }

    fn size_hint(&self) -> Option<usize> {
        Some(self.data.len())
    }

    fn serialise(&self, buf: &mut bytes::BytesMut) -> Result<(), SerError> {
        let len = bytes_mut_len(buf);
        if self.data.len() as u64 > MAX_BUF_LEN || len as u64 > MAX_BUF_LEN - self.data.len() as u64 {
            return Err(SerError::Unknown);
        }
        put_slice(buf, self.data.as_slice());
        Ok(())
    }
}

/// Serialises a 64-bit integer as its eight big-endian bytes.
pub struct U64Serialiser {
    pub ser_id: u64,
}

impl Serialiser<u64> for U64Serialiser {
    open spec fn ser_id_spec(&self) -> u64 {
        self.ser_id
    }

    open spec fn ser_data_for(&self, v: &u64) -> Seq<u8> {
        u64_to_be_bytes(*v)
    }

    open spec fn size_hint_spec(&self) -> Option<usize> {
        Some(8usize)
    }

    fn ser_id(&self) -> u64 {
        self.ser_id
    }

    fn size_hint(&self) -> Option<usize> {
        Some(8)
    }

    fn serialise(&self, v: &u64, buf: &mut bytes::BytesMut) -> Result<(), SerError> {
        let len = bytes_mut_len(buf);
        if len as u64 > MAX_BUF_LEN - 8 {
            return Err(SerError::Unknown);
        }
        put_u64_be(buf, *v);
        Ok(())
    }
}

} // verus!
