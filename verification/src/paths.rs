//! Actor paths and their boundary encoding.
//!
//! A path addresses a component across the transport boundary: either a
//! unique 16-byte instance identifier or a registered name. The encoding
//! is one tag byte, then the identifier bytes (unique) or a 16-bit
//! big-endian length prefix and the name bytes (named).

use vstd::prelude::*;

use crate::buffer::{
    bytes_len, bytes_mut_len, bytes_mut_view, bytes_to_vec, bytes_view, get_u16_be, get_u8,
    lemma_u16_be_bytes_roundtrip, put_slice, put_u16_be, put_u8, split_to, u16_from_be_bytes,
    u16_to_be_bytes, MAX_BUF_LEN,
};
use crate::serialisation::SerError;

verus! {

/// Tag byte of a unique path in the boundary encoding.
pub const UNIQUE_PATH_TAG: u8 = 0;

/// Tag byte of a named path in the boundary encoding.
pub const NAMED_PATH_TAG: u8 = 1;

/// An address of a component at the transport boundary.
pub enum ActorPath {
    /// A unique path: the 16-byte identifier of one component instance.
    Unique(Vec<u8>),
    /// A named path: the bytes of a registered name.
    Named(Vec<u8>),
}

/// The mathematical value of an actor path.
pub enum PathModel {
    Unique(Seq<u8>),
    Named(Seq<u8>),
}

impl View for ActorPath {
    type V = PathModel;

    open spec fn view(&self) -> PathModel {
        match self {
            ActorPath::Unique(id) => PathModel::Unique(id@),
            ActorPath::Named(name) => PathModel::Named(name@),
        }
    }
}

impl PathModel {
    /// A unique identifier is exactly 16 bytes; a name fits its 16-bit
    /// length prefix.
    pub open spec fn wf(self) -> bool {
        match self {
            PathModel::Unique(id) => id.len() == 16,
            PathModel::Named(name) => name.len() <= 0xFFFF,
        }
    }

    /// The boundary encoding of a path.
    pub open spec fn enc(self) -> Seq<u8> {
        match self {
            PathModel::Unique(id) => seq![UNIQUE_PATH_TAG] + id,
            PathModel::Named(name) => seq![NAMED_PATH_TAG] + u16_to_be_bytes(name.len() as u16)
                + name,
        }
    }
}

/// Parse one path from the front of `bs`: the path and how many bytes its
/// encoding took, or nothing if `bs` does not start with a well-formed
/// encoding.
pub open spec fn parse_path(bs: Seq<u8>) -> Option<(PathModel, int)> {
    if bs.len() < 1 {
        None
    } else if bs[0] == UNIQUE_PATH_TAG {
        if bs.len() >= 17 {
            Some((PathModel::Unique(bs.subrange(1, 17)), 17))
        } else {
            None
        }
    } else if bs[0] == NAMED_PATH_TAG {
        if bs.len() < 3 {
            None
        } else {
            let n = u16_from_be_bytes(bs.subrange(1, 3)) as int;
            if bs.len() >= 3 + n {
                Some((PathModel::Named(bs.subrange(3, 3 + n)), 3 + n))
            } else {
                None
            }
        }
    } else {
        None
    }
}

/// What a parsed path looks like: well-formed, and its count of consumed
/// bytes is its own encoding's length, within the input.
pub proof fn lemma_parse_path_shape(bs: Seq<u8>)
    requires
        parse_path(bs) is Some,
    ensures
        ({
            let (p, n) = parse_path(bs)->0;
            &&& p.wf()
            &&& n == p.enc().len()
            &&& 1 <= n <= bs.len()
            &&& bs.take(n) == p.enc()
        }),
{
    let (p, n) = parse_path(bs)->0;
    if bs[0] == UNIQUE_PATH_TAG {
        assert(bs.take(17) =~= seq![UNIQUE_PATH_TAG] + bs.subrange(1, 17));
    } else {
        let s2 = bs.subrange(1, 3);
        let len = u16_from_be_bytes(s2) as int;
        lemma_u16_be_bytes_roundtrip(s2);
        assert(u16_to_be_bytes(len as u16) == s2);
        assert(bs.take(3 + len) =~= seq![NAMED_PATH_TAG] + s2 + bs.subrange(3, 3 + len));
    }
}

/// Round trip: the encoding of a well-formed path, followed by anything,
/// parses back to that path, consuming exactly the encoding.
pub proof fn lemma_path_enc_roundtrip(p: PathModel, rest: Seq<u8>)
    requires
        p.wf(),
    ensures
        parse_path(p.enc() + rest) == Some((p, p.enc().len() as int)),
{
    let bs = p.enc() + rest;
    match p {
        PathModel::Unique(id) => {
            assert(bs[0] == UNIQUE_PATH_TAG);
            assert(bs.subrange(1, 17) =~= id);
        }
        PathModel::Named(name) => {
            assert(bs[0] == NAMED_PATH_TAG);
            assert(bs.subrange(1, 3) =~= u16_to_be_bytes(name.len() as u16));
            crate::buffer::lemma_u16_be_roundtrip(name.len() as u16);
            assert(bs.subrange(3, 3 + name.len() as int) =~= name);
        }
    }
}

impl ActorPath {
    /// The path's encoding is well-formed for the boundary.
    pub open spec fn wf(self) -> bool {
        self@.wf()
    }

    /// The exact size of this path's boundary encoding.
    pub fn size_hint(&self) -> (r: usize)
        requires
            self.wf(),
        ensures
            r == self@.enc().len(),
    {
        match self {
            ActorPath::Unique(_) => 17,
            ActorPath::Named(name) => 3 + name.len(),
        }
    }

    /// Append this path's boundary encoding to `buf`. Fails only on a
    /// buffer too full to take the encoding.
    pub fn serialise_into(&self, buf: &mut bytes::BytesMut) -> (r: Result<(), SerError>)
        requires
            self.wf(),
        ensures
            r is Ok ==> bytes_mut_view(*final(buf)) == bytes_mut_view(*old(buf)) + self@.enc(),
            r is Err ==> *final(buf) == *old(buf) && r == Err::<(), SerError>(SerError::Unknown),
            bytes_mut_view(*old(buf)).len() + self@.enc().len() <= MAX_BUF_LEN ==> r is Ok,
    {
        let len = bytes_mut_len(buf);
        match self {
            ActorPath::Unique(id) => {
                if len as u64 > MAX_BUF_LEN - 17 {
                    return Err(SerError::Unknown);
                }
                put_u8(buf, UNIQUE_PATH_TAG);
                put_slice(buf, id.as_slice());
                proof {
                    assert(bytes_mut_view(*buf) =~= bytes_mut_view(*old(buf)) + self@.enc());
                }
                Ok(())
            }
            ActorPath::Named(name) => {
                let n = name.len();
                if (len as u64) > MAX_BUF_LEN - 3 || (n as u64) > MAX_BUF_LEN - 3 - (len as u64) {
                    return Err(SerError::Unknown);
                }
                put_u8(buf, NAMED_PATH_TAG);
                put_u16_be(buf, n as u16);
                put_slice(buf, name.as_slice());
                proof {
                    assert(bytes_mut_view(*buf) =~= bytes_mut_view(*old(buf)) + self@.enc());
                }
                Ok(())
            }
        }
    }

    /// Read one path from the front of `buf`, advancing past its encoding;
    /// fails, consuming nothing more than it read, exactly when no
    /// well-formed encoding starts the buffer.
    pub fn deserialise(buf: &mut bytes::Bytes) -> (r: Result<ActorPath, SerError>)
        ensures
            r matches Ok(p) ==> {
                &&& parse_path(bytes_view(*old(buf))) matches Some(pr)
                &&& p@ == pr.0
                &&& p.wf()
                &&& bytes_view(*final(buf)) == bytes_view(*old(buf)).skip(pr.1)
            },
            r is Err <==> parse_path(bytes_view(*old(buf))) is None,
    {
        let ghost bs = bytes_view(*buf);
        let rem = bytes_len(buf);
        if rem < 1 {
            return Err(SerError::InvalidData);
        }
        let tag = get_u8(buf);
        if tag == UNIQUE_PATH_TAG {
            let rem2 = bytes_len(buf);
            if rem2 < 16 {
                return Err(SerError::InvalidData);
            }
            let idb = split_to(buf, 16);
            let id = bytes_to_vec(&idb);
            proof {
                assert(id@ =~= bs.subrange(1, 17));
                assert(bytes_view(*buf) =~= bs.skip(17));
            }
            Ok(ActorPath::Unique(id))
        } else if tag == NAMED_PATH_TAG {
            let rem2 = bytes_len(buf);
            if rem2 < 2 {
                return Err(SerError::InvalidData);
            }
            let n16 = get_u16_be(buf);
            proof {
                assert(bs.skip(1).take(2) =~= bs.subrange(1, 3));
            }
            let n = n16 as usize;
            let rem3 = bytes_len(buf);
            if rem3 < n {
                return Err(SerError::InvalidData);
            }
            let nb = split_to(buf, n);
            let name = bytes_to_vec(&nb);
            proof {
                assert(name@ =~= bs.subrange(3, 3 + n as int));
                assert(bytes_view(*buf) =~= bs.skip(3 + n as int));
            }
            Ok(ActorPath::Named(name))
        } else {
            Err(SerError::InvalidData)
        }
    }
}

} // verus!
