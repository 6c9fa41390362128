//! Serialisation helper functions.
//!
//! These functions manage buffers and size hints appropriately and can be
//! used by custom network implementations.
//!
//! The envelope written by [`serialise_msg`] and read back by
//! [`deserialise_msg`] is, bit-exactly: source path, destination path,
//! 64-bit big-endian type identifier, then the payload bytes.

use vstd::prelude::*;

use crate::buffer::{
    bytes_as_slice, bytes_len, bytes_mut_len, bytes_mut_view, bytes_mut_with_capacity, bytes_view,
    freeze, get_u64_be, lemma_u64_be_bytes_roundtrip, lemma_u64_be_roundtrip, put_slice,
    put_u64_be, u64_from_be_bytes, u64_to_be_bytes, MAX_BUF_LEN,
};
use crate::paths::{lemma_parse_path_shape, lemma_path_enc_roundtrip, parse_path, ActorPath, PathModel};
use crate::serialisation::{NetMessage, SerError, Serialisable, Serialised, Serialiser};

verus! {

/// The envelope bytes for a message: source path, destination path,
/// 64-bit big-endian type identifier, payload.
pub open spec fn envelope_enc(src: PathModel, dst: PathModel, ser_id: u64, payload: Seq<u8>) -> Seq<u8> {
    src.enc() + dst.enc() + u64_to_be_bytes(ser_id) + payload
}

/// Parse an envelope: both paths, the type identifier, and the remaining
/// bytes as the payload; nothing if the buffer is not a well-formed
/// envelope.
pub open spec fn parse_envelope(bs: Seq<u8>) -> Option<(PathModel, PathModel, u64, Seq<u8>)> {
    match parse_path(bs) {
        Option::None => Option::None,
        Option::Some((src, n1)) => match parse_path(bs.skip(n1)) {
            Option::None => Option::None,
            Option::Some((dst, n2)) => {
                let rest = bs.skip(n1).skip(n2);
                if rest.len() >= 8 {
                    Option::Some((src, dst, u64_from_be_bytes(rest.take(8)), rest.skip(8)))
                } else {
                    Option::None
                }
            },
        },
    }
}

/// Round trip of the envelope: the encoding of any two well-formed paths,
/// type identifier and payload parses back to exactly those fields.
pub proof fn lemma_envelope_roundtrip(src: PathModel, dst: PathModel, ser_id: u64, payload: Seq<u8>)
    requires
        src.wf(),
        dst.wf(),
    ensures
        parse_envelope(envelope_enc(src, dst, ser_id, payload)) == Some(
            (src, dst, ser_id, payload),
        ),
{
    let bs = envelope_enc(src, dst, ser_id, payload);
    let tail1 = dst.enc() + u64_to_be_bytes(ser_id) + payload;
    assert(bs =~= src.enc() + tail1);
    lemma_path_enc_roundtrip(src, tail1);
    assert(bs.skip(src.enc().len() as int) =~= tail1);
    let tail2 = u64_to_be_bytes(ser_id) + payload;
    assert(tail1 =~= dst.enc() + tail2);
    lemma_path_enc_roundtrip(dst, tail2);
    assert(tail1.skip(dst.enc().len() as int) =~= tail2);
    assert(tail2.take(8) =~= u64_to_be_bytes(ser_id));
    lemma_u64_be_roundtrip(ser_id);
    assert(tail2.skip(8) =~= payload);
}

/// A parsed envelope re-encodes to the very bytes it was parsed from.
pub proof fn lemma_parse_envelope_shape(bs: Seq<u8>)
    requires
        parse_envelope(bs) is Some,
    ensures
        ({
            let (src, dst, ser_id, payload) = parse_envelope(bs)->0;
            &&& src.wf()
            &&& dst.wf()
            &&& bs == envelope_enc(src, dst, ser_id, payload)
        }),
{
    let (src, n1) = parse_path(bs)->0;
    lemma_parse_path_shape(bs);
    let bs2 = bs.skip(n1);
    let (dst, n2) = parse_path(bs2)->0;
    lemma_parse_path_shape(bs2);
    let rest = bs2.skip(n2);
    lemma_u64_be_bytes_roundtrip(rest.take(8));
    assert(bs2.take(n2) == dst.enc());
    assert(bs =~= src.enc() + dst.enc() + u64_to_be_bytes(u64_from_be_bytes(rest.take(8)))
        + rest.skip(8));
}

/// Creates a new [`NetMessage`] from the provided fields.
///
/// It allocates a buffer according to the message's size hint and stores
/// the message's serialised data in it.
pub fn serialise_to_msg<S: Serialisable + ?Sized>(
    src: ActorPath,
    dst: ActorPath,
    msg: Box<S>,
) -> (r: Result<NetMessage, SerError>)
    ensures
        r matches Ok(m) ==> {
            &&& m.ser_id == (*msg).ser_id_spec()
            &&& m.sender == src
            &&& m.receiver == dst
            &&& bytes_view(m.data) == (*msg).ser_data()
        },
        (*msg).size_hint_spec() is None ==> r == Err::<NetMessage, SerError>(SerError::Unknown),
        r is Err ==> r == Err::<NetMessage, SerError>(SerError::Unknown),
{
    if let Some(size) = msg.size_hint() {
        let cap = if size as u64 <= MAX_BUF_LEN {
            size
        } else {
            0
        };
        let mut buf = bytes_mut_with_capacity(cap);
        match msg.serialise(&mut buf) {
            Ok(_) => {
                proof {
                    assert(bytes_mut_view(buf) =~= (*msg).ser_data());
                }
                let ser_id = msg.ser_id();
                let data = freeze(buf);
                Ok(NetMessage::with_bytes(ser_id, src, dst, data))
            },
            Err(ser_err) => Err(ser_err),
        }
    } else {
        Err(SerError::Unknown)
    }
}

/// Creates a new [`Serialised`] from the provided message.
///
/// It allocates a buffer according to the message's size hint and stores
/// the message's serialised data in it.
pub fn serialise_to_serialised<S: Serialisable + ?Sized>(ser: &S) -> (r: Result<
    Serialised,
    SerError,
>)
    ensures
        r matches Ok(s) ==> {
            &&& s.ser_id == ser.ser_id_spec()
            &&& bytes_view(s.data) == ser.ser_data()
        },
        ser.size_hint_spec() is None ==> r == Err::<Serialised, SerError>(SerError::Unknown),
        r is Err ==> r == Err::<Serialised, SerError>(SerError::Unknown),
{
    if let Some(size) = ser.size_hint() {
        let cap = if size as u64 <= MAX_BUF_LEN {
            size
        } else {
            0
        };
        let mut buf = bytes_mut_with_capacity(cap);
        match ser.serialise(&mut buf) {
            Ok(_) => {
                proof {
                    assert(bytes_mut_view(buf) =~= ser.ser_data());
                }
                let ser_id = ser.ser_id();
                let data = freeze(buf);
                Ok(Serialised { ser_id, data })
            },
            Err(ser_err) => Err(ser_err),
        }
    } else {
        Err(SerError::Unknown)
    }
}

/// Creates a new [`Serialised`] for a value `t` from the serialiser `ser`.
///
/// It allocates a buffer according to the serialiser's size hint and
/// stores the value's serialised data in it.
pub fn serialiser_to_serialised<T, S: Serialiser<T> + ?Sized>(t: &T, ser: &S) -> (r: Result<
    Serialised,
    SerError,
>)
    ensures
        r matches Ok(s) ==> {
            &&& s.ser_id == ser.ser_id_spec()
            &&& bytes_view(s.data) == ser.ser_data_for(t)
        },
        ser.size_hint_spec() is None ==> r == Err::<Serialised, SerError>(SerError::Unknown),
        r is Err ==> r == Err::<Serialised, SerError>(SerError::Unknown),
{
    if let Some(size) = ser.size_hint() {
        let cap = if size as u64 <= MAX_BUF_LEN {
            size
        } else {
            0
        };
        let mut buf = bytes_mut_with_capacity(cap);
        match ser.serialise(t, &mut buf) {
            Ok(_) => {
                proof {
                    assert(bytes_mut_view(buf) =~= ser.ser_data_for(t));
                }
                let ser_id = ser.ser_id();
                let data = freeze(buf);
                Ok(Serialised { ser_id, data })
            },
            Err(ser_err) => Err(ser_err),
        }
    } else {
        Err(SerError::Unknown)
    }
}

/// Serialises the provided actor paths and message into one envelope
/// buffer: source path, destination path, 64-bit type identifier, then
/// the message's bytes.
///
/// The encoded-size-is-zero check can never fire in this encoding — the
/// size sum includes the 8-byte type identifier — so every failure,
/// whether from the buffer or from the message's own serialiser, comes
/// back as `Unknown`.
pub fn serialise_msg<S: Serialisable + ?Sized>(
    src: &ActorPath,
    dst: &ActorPath,
    msg: Box<S>,
) -> (r: Result<bytes::Bytes, SerError>)
    requires
        src.wf(),
        dst.wf(),
    ensures
        r matches Ok(b) ==> bytes_view(b) == envelope_enc(
            src@,
            dst@,
            (*msg).ser_id_spec(),
            (*msg).ser_data(),
        ),
        r is Err ==> r == Err::<bytes::Bytes, SerError>(SerError::Unknown),
{
    let mut size: u64 = 0;
    size = size.saturating_add(src.size_hint() as u64);
    size = size.saturating_add(dst.size_hint() as u64);
    size = size.saturating_add(8);
    size = size.saturating_add(match msg.size_hint() {
        Some(n) => n as u64,
        None => 0,
    });

    if size == 0 {
        // unreachable: the sum includes the 8-byte type identifier
        proof {
            assert(size >= 8);
        }
        return Err(SerError::InvalidData);
    }
    let cap = if size <= MAX_BUF_LEN {
        #[verifier::truncate] (size as usize)
    } else {
        0
    };

    let mut buf = bytes_mut_with_capacity(cap);
    src.serialise_into(&mut buf)?;
    dst.serialise_into(&mut buf)?;
    let len = bytes_mut_len(&buf);
    if len as u64 > MAX_BUF_LEN - 8 {
        return Err(SerError::Unknown);
    }
    let ser_id = msg.ser_id();
    put_u64_be(&mut buf, ser_id);
    match msg.serialise(&mut buf) {
        Ok(_) => {
            proof {
                assert(bytes_mut_view(buf) =~= envelope_enc(
                    src@,
                    dst@,
                    (*msg).ser_id_spec(),
                    (*msg).ser_data(),
                ));
            }
            Ok(freeze(buf))
        },
        Err(ser_err) => Err(ser_err),
    }
}

/// Embed an eagerly serialised message into an envelope buffer with the
/// actor paths: source path, destination path, the message's type
/// identifier, then its bytes, appended verbatim.
///
/// No serialiser is consulted, so success is owed whenever the envelope
/// fits a buffer: embedding fails only past the buffer cap, and then as
/// `Unknown` — the header-size-is-zero check can never fire, since the
/// size sum includes the 8-byte type identifier.
pub fn embed_in_msg(src: &ActorPath, dst: &ActorPath, msg: Serialised) -> (r: Result<
    bytes::Bytes,
    SerError,
>)
    requires
        src.wf(),
        dst.wf(),
    ensures
        r matches Ok(b) ==> bytes_view(b) == envelope_enc(
            src@,
            dst@,
            msg.ser_id,
            bytes_view(msg.data),
        ),
        src@.enc().len() + dst@.enc().len() + 8 + bytes_view(msg.data).len() <= MAX_BUF_LEN
            ==> r is Ok,
        r is Err ==> r == Err::<bytes::Bytes, SerError>(SerError::Unknown),
{
    let mut size: u64 = 0;
    size = size.saturating_add(src.size_hint() as u64);
    size = size.saturating_add(dst.size_hint() as u64);
    size = size.saturating_add(8);

    if size == 0 {
        // unreachable: the sum includes the 8-byte type identifier
        proof {
            assert(size >= 8);
        }
        return Err(SerError::InvalidData);
    }
    let cap = if size <= MAX_BUF_LEN {
        #[verifier::truncate] (size as usize)
    } else {
        0
    };

    let mut buf = bytes_mut_with_capacity(cap);
    src.serialise_into(&mut buf)?;
    dst.serialise_into(&mut buf)?;
    let len = bytes_mut_len(&buf);
    if len as u64 > MAX_BUF_LEN - 8 {
        return Err(SerError::Unknown);
    }
    put_u64_be(&mut buf, msg.ser_id);

    let data = bytes_as_slice(&msg.data);
    let len2 = bytes_mut_len(&buf);
    if data.len() as u64 > MAX_BUF_LEN || len2 as u64 > MAX_BUF_LEN - data.len() as u64 {
        return Err(SerError::Unknown);
    }
    put_slice(&mut buf, data);
    proof {
        assert(bytes_mut_view(buf) =~= envelope_enc(src@, dst@, msg.ser_id, bytes_view(msg.data)));
    }
    Ok(freeze(buf))
}

/// Extracts a [`NetMessage`] from the provided buffer.
///
/// This expects the format from [`serialise_msg`]: it succeeds exactly on
/// a well-formed envelope, returning the envelope whose encoding the
/// buffer is.
pub fn deserialise_msg(buffer: bytes::Bytes) -> (r: Result<NetMessage, SerError>)
    ensures
        r matches Ok(m) ==> {
            &&& m.sender.wf()
            &&& m.receiver.wf()
            &&& parse_envelope(bytes_view(buffer)) == Some(
                (m.sender@, m.receiver@, m.ser_id, bytes_view(m.data)),
            )
            &&& bytes_view(buffer) == envelope_enc(
                m.sender@,
                m.receiver@,
                m.ser_id,
                bytes_view(m.data),
            )
        },
        r is Ok <==> parse_envelope(bytes_view(buffer)) is Some,
{
    let ghost bs = bytes_view(buffer);
    let mut buf = buffer;
    let src = ActorPath::deserialise(&mut buf)?;
    let dst = ActorPath::deserialise(&mut buf)?;
    let rem = bytes_len(&buf);
    if rem < 8 {
        return Err(SerError::InvalidData);
    }
    let ser_id = get_u64_be(&mut buf);

    let envelope = NetMessage::with_bytes(ser_id, src, dst, buf);
    proof {
        lemma_parse_envelope_shape(bs);
    }
    Ok(envelope)
}

} // verus!
