use vstd::prelude::*;
use crate::codec::{
    be_u32, deserialize_with_length_prefix, deserialize_fixed, deserialize_u32, lemma_prefix_index,
    lemma_prefix_parts, lemma_split_concat, lemma_u16_wire, lemma_u32_wire, push_bytes,
    serialize_with_length_prefix, serialize_fixed, serialize_u32, wire_bytes, wire_fixed, wire_u16,
    wire_u32, fits_length_prefix,
};
use crate::error::SerdeError;
use crate::identity::{
    bytes_of_chars, lemma_username_bytes_roundtrip, lemma_username_chars_bytes, ShortIdStr,
    valid_username_bytes,
};
use vstd::slice::{slice_index_get, slice_subrange, slice_to_vec};

verus! {

broadcast use crate::codec::lemma_wire_u16_len, crate::codec::lemma_wire_u32_len;

/// Number of bytes in an authentication challenge and in its signed response.
pub const AUTH_SIZE: usize = 2048;

impl ShortIdStr {
    /// The username on the wire: its length as one byte, then its ASCII
    /// bytes.
    pub open spec fn wire(&self) -> Seq<u8>
        recommends
            self.wf(),
    {
        seq![self@.len() as u8] + bytes_of_chars(self@)
    }

    /// Writes the username.
    pub fn serialize(&self, output: &mut Vec<u8>) -> (n: usize)
        requires
            self.wf(),
        ensures
            final(output)@ =~= old(output)@ + self.wire(),
            n == self.wire().len(),
    {
        let len = self.byte_len();
        output.push(len as u8);
        let bytes = self.username_bytes();
        push_bytes(bytes, output);
        proof {
            assert(output@ =~= old(output)@ + self.wire());
        }
        len + 1
    }

    /// Reads a username; the bytes must satisfy the username's own validity
    /// rules.
    pub fn deserialize(data: &[u8]) -> (r: Result<(ShortIdStr, usize), SerdeError>)
        ensures
            r matches Ok((u, n)) ==> {
                &&& u.wf()
                &&& n == u@.len() + 1
                &&& n <= data@.len()
                &&& data@.subrange(0, n as int) =~= u.wire()
            },
            forall|u: ShortIdStr|
                u.wf() && (#[trigger] u.wire()).is_prefix_of(data@) ==> (r matches Ok(p) && p.0@
                    == u@ && p.1 == u@.len() + 1),
            r matches Err(e) ==> e is NotEnoughData || e is ParsingError,
    {
        if data.len() < 1 {
            return Err(SerdeError::NotEnoughData);
        }
        let len = *slice_index_get(data, 0) as usize;
        if data.len() - 1 < len {
            proof {
                assert forall|u: ShortIdStr|
                    u.wf() && (#[trigger] u.wire()).is_prefix_of(data@) implies false by {
                    crate::codec::lemma_prefix_index(u.wire(), data@);
                    assert(data@[0] == u.wire()[0]);
                }
            }
            return Err(SerdeError::NotEnoughData);
        }
        let sub = slice_subrange(data, 1, 1 + len);
        let ghost subview = sub@;
        proof {
            assert forall|u: ShortIdStr|
                u.wf() && (#[trigger] u.wire()).is_prefix_of(data@) implies subview
                =~= bytes_of_chars(u@) by {
                crate::codec::lemma_prefix_index(u.wire(), data@);
                assert(data@[0] == u.wire()[0]);
                assert forall|i: int| 0 <= i < u@.len() implies subview[i] == bytes_of_chars(u@)[i]
                    by {
                    assert(data@[i + 1] == u.wire()[i + 1]);
                }
            }
        }
        match ShortIdStr::from_bytes(slice_to_vec(sub)) {
            Ok(u) => {
                proof {
                    lemma_username_bytes_roundtrip(subview);
                    assert(data@.subrange(0, (len + 1) as int) =~= u.wire());
                    assert forall|v: ShortIdStr|
                        v.wf() && (#[trigger] v.wire()).is_prefix_of(data@) implies u@ == v@ by {
                        lemma_username_chars_bytes(v@);
                    }
                }
                Ok((u, len + 1))
            },
            Err(e) => {
                proof {
                    assert forall|u: ShortIdStr|
                        u.wf() && (#[trigger] u.wire()).is_prefix_of(data@) implies false by {
                        lemma_username_chars_bytes(u@);
                        assert(valid_username_bytes(subview));
                    }
                }
                Err(e)
            },
        }
    }
}

/// First frame of a session: the client names itself.
#[derive(Debug)]
pub struct C2SAck {
    pub username: ShortIdStr,
}

impl C2SAck {
    pub open spec fn wf(&self) -> bool {
        self.username.wf()
    }

    pub open spec fn wire(&self) -> Seq<u8> {
        self.username.wire()
    }

    /// Writes the message.
    pub fn serialize(&self, output: &mut Vec<u8>) -> (n: usize)
        requires
            self.wf(),
        ensures
            final(output)@ =~= old(output)@ + self.wire(),
            n == self.wire().len(),
    {
        self.username.serialize(output)
    }

    /// Reads the message.
    pub fn deserialize(data: &[u8]) -> (r: Result<(Self, usize), SerdeError>)
        ensures
            r matches Ok((m, n)) ==> {
                &&& m.wf()
                &&& n == m.wire().len()
                &&& n <= data@.len()
                &&& data@.subrange(0, n as int) =~= m.wire()
            },
            forall|m: Self|
                m.wf() && (#[trigger] m.wire()).is_prefix_of(data@) ==> (r matches Ok(p)
                    && p.0.username@ == m.username@ && p.1 == m.wire().len()),
            r matches Err(e) ==> e is NotEnoughData || e is ParsingError,
    {
        match ShortIdStr::deserialize(data) {
            Ok((username, n)) => Ok((C2SAck { username }, n)),
            Err(e) => Err(e),
        }
    }

    /// The message as a fresh byte string.
    pub fn serialize_buffered(&self) -> (out: Vec<u8>)
        requires
            self.wf(),
        ensures
            out@ =~= self.wire(),
    {
        let mut out = Vec::new();
        self.serialize(&mut out);
        out
    }
}

/// Asks the service to connect this user to `username`; forwarded to the
/// asked user with `username` naming the requester.
#[derive(Debug)]
pub struct ConnectToUser {
    pub username: ShortIdStr,
}

impl ConnectToUser {
    pub open spec fn wf(&self) -> bool {
        self.username.wf()
    }

    pub open spec fn wire(&self) -> Seq<u8> {
        self.username.wire()
    }

    /// Writes the message.
    pub fn serialize(&self, output: &mut Vec<u8>) -> (n: usize)
        requires
            self.wf(),
        ensures
            final(output)@ =~= old(output)@ + self.wire(),
            n == self.wire().len(),
    {
        self.username.serialize(output)
    }

    /// Reads the message.
    pub fn deserialize(data: &[u8]) -> (r: Result<(Self, usize), SerdeError>)
        ensures
            r matches Ok((m, n)) ==> {
                &&& m.wf()
                &&& n == m.wire().len()
                &&& n <= data@.len()
                &&& data@.subrange(0, n as int) =~= m.wire()
            },
            forall|m: Self|
                m.wf() && (#[trigger] m.wire()).is_prefix_of(data@) ==> (r matches Ok(p)
                    && p.0.username@ == m.username@ && p.1 == m.wire().len()),
            r matches Err(e) ==> e is NotEnoughData || e is ParsingError,
    {
        match ShortIdStr::deserialize(data) {
            Ok((username, n)) => Ok((ConnectToUser { username }, n)),
            Err(e) => Err(e),
        }
    }

    /// The message as a fresh byte string.
    pub fn serialize_buffered(&self) -> (out: Vec<u8>)
        requires
            self.wf(),
        ensures
            out@ =~= self.wire(),
    {
        let mut out = Vec::new();
        self.serialize(&mut out);
        out
    }
}

/// Registration request: a username and the public key to file under it.
#[derive(Debug)]
pub struct C2RRegister {
    pub username: ShortIdStr,
    pub pubkey: Vec<u8>,
}

impl C2RRegister {
    pub open spec fn wf(&self) -> bool {
        self.username.wf() && fits_length_prefix(self.pubkey@)
    }

    pub open spec fn wire(&self) -> Seq<u8> {
        self.username.wire() + wire_bytes(self.pubkey@)
    }

    /// Writes the message.
    pub fn serialize(&self, output: &mut Vec<u8>) -> (n: usize)
        requires
            self.wf(),
        ensures
            final(output)@ =~= old(output)@ + self.wire(),
            n == self.wire().len(),
    {
        let start = output.len();
        self.username.serialize(output);
        serialize_with_length_prefix(self.pubkey.as_slice(), output);
        proof {
            assert(output@ =~= old(output)@ + self.wire());
        }
        output.len() - start
    }

    /// Reads the message.
    #[verifier::rlimit(80)]
    pub fn deserialize(data: &[u8]) -> (r: Result<(Self, usize), SerdeError>)
        ensures
            r matches Ok((m, n)) ==> {
                &&& m.wf()
                &&& n == m.wire().len()
                &&& n <= data@.len()
                &&& data@.subrange(0, n as int) =~= m.wire()
            },
            forall|m: Self|
                m.wf() && (#[trigger] m.wire()).is_prefix_of(data@) ==> (r matches Ok(p)
                    && p.0.username@ == m.username@ && p.0.pubkey@ == m.pubkey@ && p.1
                    == m.wire().len()),
            r matches Err(e) ==> e is NotEnoughData || e is ParsingError,
    {
        let (username, n1) = match ShortIdStr::deserialize(data) {
            Ok(x) => x,
            Err(e) => {
                proof {
                    assert forall|m: Self|
                        m.wf() && (#[trigger] m.wire()).is_prefix_of(data@) implies false by {
                        lemma_prefix_parts(m.username.wire(), wire_bytes(m.pubkey@), data@);
                    }
                }
                return Err(e);
            },
        };
        let rest = slice_subrange(data, n1, data.len());
        let ghost restview = rest@;
        let (pubkey, n2) = match deserialize_with_length_prefix(rest) {
            Ok(x) => x,
            Err(e) => {
                proof {
                    assert forall|m: Self|
                        m.wf() && (#[trigger] m.wire()).is_prefix_of(data@) implies false by {
                        lemma_prefix_parts(m.username.wire(), wire_bytes(m.pubkey@), data@);
                        assert(wire_bytes(m.pubkey@).is_prefix_of(restview));
                        lemma_prefix_index(wire_bytes(m.pubkey@), restview);
                        lemma_u32_wire(m.pubkey@.len() as u32, restview[0], restview[1], restview[2], restview[3]);
                        assert(be_u32(restview[0], restview[1], restview[2], restview[3])
                            == m.pubkey@.len() as u32);
                    }
                }
                return Err(e);
            },
        };
        let m = C2RRegister { username, pubkey };
        proof {
            lemma_split_concat(
                data@,
                n1 as int,
                n2 as int,
                m.username.wire(),
                wire_bytes(m.pubkey@),
            );
            assert(data@.subrange(0, (n1 + n2) as int) =~= m.wire());
            assert forall|v: Self|
                v.wf() && (#[trigger] v.wire()).is_prefix_of(data@) implies m.username@
                == v.username@ && m.pubkey@ == v.pubkey@ && n1 + n2 == v.wire().len() by {
                lemma_prefix_parts(v.username.wire(), wire_bytes(v.pubkey@), data@);
                assert(wire_bytes(v.pubkey@).is_prefix_of(restview));
                lemma_prefix_index(wire_bytes(v.pubkey@), restview);
                lemma_u32_wire(v.pubkey@.len() as u32, restview[0], restview[1], restview[2], restview[3]);
                lemma_u32_wire(m.pubkey@.len() as u32, restview[0], restview[1], restview[2], restview[3]);
                assert forall|i: int| 0 <= i < 4 implies restview[i] == wire_bytes(m.pubkey@)[i]
                    by {
                    assert(restview.subrange(0, n2 as int)[i] == restview[i]);
                }
                assert(be_u32(restview[0], restview[1], restview[2], restview[3])
                    == m.pubkey@.len() as u32);
                assert(n2 == 4 + v.pubkey@.len());
                assert forall|i: int| 0 <= i < v.pubkey@.len() implies m.pubkey@[i]
                    == v.pubkey@[i] by {
                    assert(wire_bytes(v.pubkey@)[4 + i] == v.pubkey@[i]);
                    assert(wire_bytes(v.pubkey@)[4 + i] == restview[4 + i]);
                    assert(m.pubkey@[i] == restview.subrange(4, n2 as int)[i]);
                }
                assert(m.pubkey@ =~= v.pubkey@);
            }
        }
        Ok((m, n1 + n2))
    }

    /// The message as a fresh byte string.
    pub fn serialize_buffered(&self) -> (out: Vec<u8>)
        requires
            self.wf(),
        ensures
            out@ =~= self.wire(),
    {
        let mut out = Vec::new();
        self.serialize(&mut out);
        out
    }
}

/// Registration answer: the identifier of the stored record.
#[derive(Debug)]
pub struct R2CRegister {
    pub commit_id: Vec<u8>,
}

impl R2CRegister {
    pub open spec fn wf(&self) -> bool {
        fits_length_prefix(self.commit_id@)
    }

    pub open spec fn wire(&self) -> Seq<u8> {
        wire_bytes(self.commit_id@)
    }

    /// Writes the message.
    pub fn serialize(&self, output: &mut Vec<u8>) -> (n: usize)
        requires
            self.wf(),
        ensures
            final(output)@ =~= old(output)@ + self.wire(),
            n == self.wire().len(),
    {
        serialize_with_length_prefix(self.commit_id.as_slice(), output)
    }

    /// Reads the message.
    #[verifier::rlimit(30)]
    pub fn deserialize(data: &[u8]) -> (r: Result<(Self, usize), SerdeError>)
        ensures
            r matches Ok((m, n)) ==> {
                &&& m.wf()
                &&& n == m.wire().len()
                &&& n <= data@.len()
                &&& data@.subrange(0, n as int) =~= m.wire()
            },
            forall|m: Self|
                m.wf() && (#[trigger] m.wire()).is_prefix_of(data@) ==> (r matches Ok(p)
                    && p.0.commit_id@ == m.commit_id@ && p.1 == m.wire().len()),
            r matches Err(e) ==> e is NotEnoughData || e is ParsingError,
    {
        match deserialize_with_length_prefix(data) {
            Ok((commit_id, n)) => {
                let m = R2CRegister { commit_id };
                proof {
                    assert forall|v: Self|
                        v.wf() && (#[trigger] v.wire()).is_prefix_of(data@) implies m.commit_id@
                        == v.commit_id@ && n == v.wire().len() by {
                        lemma_prefix_index(wire_bytes(v.commit_id@), data@);
                        lemma_u32_wire(v.commit_id@.len() as u32, data@[0], data@[1], data@[2], data@[3]);
                        lemma_u32_wire(m.commit_id@.len() as u32, data@[0], data@[1], data@[2], data@[3]);
                        assert forall|i: int| 0 <= i < 4 implies data@[i] == wire_bytes(
                            m.commit_id@,
                        )[i] by {
                            assert(data@.subrange(0, n as int)[i] == data@[i]);
                        }
                        assert(be_u32(data@[0], data@[1], data@[2], data@[3]) == m.commit_id@.len()
                            as u32);
                        assert(n == 4 + v.commit_id@.len());
                        assert forall|i: int| 0 <= i < v.commit_id@.len() implies m.commit_id@[i]
                            == v.commit_id@[i] by {
                            assert(wire_bytes(v.commit_id@)[4 + i] == v.commit_id@[i]);
                            assert(wire_bytes(v.commit_id@)[4 + i] == data@[4 + i]);
                            assert(m.commit_id@[i] == data@.subrange(4, n as int)[i]);
                        }
                        assert(m.commit_id@ =~= v.commit_id@);
                    }
                }
                Ok((m, n))
            },
            Err(e) => {
                proof {
                    assert forall|m: Self|
                        m.wf() && (#[trigger] m.wire()).is_prefix_of(data@) implies false by {
                        lemma_prefix_index(wire_bytes(m.commit_id@), data@);
                        lemma_u32_wire(m.commit_id@.len() as u32, data@[0], data@[1], data@[2], data@[3]);
                    }
                }
                Err(e)
            },
        }
    }

    /// The message as a fresh byte string.
    pub fn serialize_buffered(&self) -> (out: Vec<u8>)
        requires
            self.wf(),
        ensures
            out@ =~= self.wire(),
    {
        let mut out = Vec::new();
        self.serialize(&mut out);
        out
    }
}

/// Authentication challenge: fixed-size random bytes the client must sign.
#[derive(Debug)]
pub struct S2CAuthReq {
    pub random: Vec<u8>,
}

impl S2CAuthReq {
    pub open spec fn wf(&self) -> bool {
        self.random@.len() == AUTH_SIZE
    }

    pub open spec fn wire(&self) -> Seq<u8> {
        wire_fixed(self.random@)
    }

    /// Writes the message.
    pub fn serialize(&self, output: &mut Vec<u8>) -> (n: usize)
        requires
            self.wf(),
        ensures
            final(output)@ =~= old(output)@ + self.wire(),
            n == self.wire().len(),
    {
        serialize_fixed(self.random.as_slice(), output)
    }

    /// Reads the message.
    pub fn deserialize(data: &[u8]) -> (r: Result<(Self, usize), SerdeError>)
        ensures
            r matches Ok((m, n)) ==> {
                &&& m.wf()
                &&& n == m.wire().len()
                &&& n <= data@.len()
                &&& data@.subrange(0, n as int) =~= m.wire()
            },
            forall|m: Self|
                m.wf() && (#[trigger] m.wire()).is_prefix_of(data@) ==> (r matches Ok(p)
                    && p.0.random@ == m.random@ && p.1 == m.wire().len()),
            r matches Err(e) ==> e is NotEnoughData || e is ParsingError,
    {
        match deserialize_fixed(data, AUTH_SIZE) {
            Ok((random, n)) => {
                let m = S2CAuthReq { random };
                proof {
                    lemma_fixed_auth_value(m.random@, data@, n as int);
                }
                Ok((m, n))
            },
            Err(e) => {
                proof {
                    assert forall|m: Self|
                        m.wf() && (#[trigger] m.wire()).is_prefix_of(data@) implies false by {
                        lemma_fixed_auth_prefix(m.random@, data@);
                    }
                }
                Err(e)
            },
        }
    }

    /// The message as a fresh byte string.
    pub fn serialize_buffered(&self) -> (out: Vec<u8>)
        requires
            self.wf(),
        ensures
            out@ =~= self.wire(),
    {
        let mut out = Vec::new();
        self.serialize(&mut out);
        out
    }
}

/// Authentication response: the signature over the challenge.
#[derive(Debug)]
pub struct C2SAuthRes {
    pub signed_random: Vec<u8>,
}

impl C2SAuthRes {
    pub open spec fn wf(&self) -> bool {
        self.signed_random@.len() == AUTH_SIZE
    }

    pub open spec fn wire(&self) -> Seq<u8> {
        wire_fixed(self.signed_random@)
    }

    /// Writes the message.
    pub fn serialize(&self, output: &mut Vec<u8>) -> (n: usize)
        requires
            self.wf(),
        ensures
            final(output)@ =~= old(output)@ + self.wire(),
            n == self.wire().len(),
    {
        serialize_fixed(self.signed_random.as_slice(), output)
    }

    /// Reads the message.
    pub fn deserialize(data: &[u8]) -> (r: Result<(Self, usize), SerdeError>)
        ensures
            r matches Ok((m, n)) ==> {
                &&& m.wf()
                &&& n == m.wire().len()
                &&& n <= data@.len()
                &&& data@.subrange(0, n as int) =~= m.wire()
            },
            forall|m: Self|
                m.wf() && (#[trigger] m.wire()).is_prefix_of(data@) ==> (r matches Ok(p)
                    && p.0.signed_random@ == m.signed_random@ && p.1 == m.wire().len()),
            r matches Err(e) ==> e is NotEnoughData || e is ParsingError,
    {
        match deserialize_fixed(data, AUTH_SIZE) {
            Ok((signed_random, n)) => {
                let m = C2SAuthRes { signed_random };
                proof {
                    lemma_fixed_auth_value(m.signed_random@, data@, n as int);
                }
                Ok((m, n))
            },
            Err(e) => {
                proof {
                    assert forall|m: Self|
                        m.wf() && (#[trigger] m.wire()).is_prefix_of(data@) implies false by {
                        lemma_fixed_auth_prefix(m.signed_random@, data@);
                    }
                }
                Err(e)
            },
        }
    }

    /// The message as a fresh byte string.
    pub fn serialize_buffered(&self) -> (out: Vec<u8>)
        requires
            self.wf(),
        ensures
            out@ =~= self.wire(),
    {
        let mut out = Vec::new();
        self.serialize(&mut out);
        out
    }
}

/// If a challenge-size block's encoding starts the data, the reader cannot
/// miss it: the size prefix it reads necessarily matches.
proof fn lemma_fixed_auth_prefix(block: Seq<u8>, data: Seq<u8>)
    requires
        block.len() == AUTH_SIZE,
        wire_fixed(block).is_prefix_of(data),
    ensures
        data.len() >= 2 + AUTH_SIZE,
        crate::codec::be_u16(data[0], data[1]) == AUTH_SIZE as u16,
{
    lemma_prefix_index(wire_fixed(block), data);
    assert(data[0] == wire_u16(AUTH_SIZE as u16)[0]);
    assert(data[1] == wire_u16(AUTH_SIZE as u16)[1]);
    lemma_u16_wire(AUTH_SIZE as u16, data[0], data[1]);
}

/// A successfully read challenge-size block is the one whose encoding starts
/// the data.
proof fn lemma_fixed_auth_value(block: Seq<u8>, data: Seq<u8>, n: int)
    requires
        block.len() == AUTH_SIZE,
        n == wire_fixed(block).len(),
        n <= data.len(),
        data.subrange(0, n) =~= wire_fixed(block),
    ensures
        forall|other: Seq<u8>|
            other.len() == AUTH_SIZE && (#[trigger] wire_fixed(other)).is_prefix_of(data)
                ==> other == block,
{
    assert forall|other: Seq<u8>|
        other.len() == AUTH_SIZE && (#[trigger] wire_fixed(other)).is_prefix_of(data)
        implies other == block by {
        lemma_prefix_index(wire_fixed(other), data);
        assert forall|i: int| 0 <= i < AUTH_SIZE implies other[i] == block[i] by {
            assert(wire_fixed(other)[2 + i] == data[2 + i]);
            assert(block[i] == data.subrange(0, n)[2 + i]);
        }
        assert(other =~= block);
    }
}

/// Outcome of the authentication handshake.
#[derive(Debug, Clone, Copy, PartialEq, Eq, Structural)]
pub enum S2CAuthResult {
    Success,
    Failure,
}

impl S2CAuthResult {
    /// The tag this variant carries on the wire.
    pub open spec fn tag(self) -> u32 {
        match self {
            S2CAuthResult::Success => 0,
            S2CAuthResult::Failure => 1,
        }
    }

    pub open spec fn wire(self) -> Seq<u8> {
        wire_u32(self.tag())
    }

    /// Writes the message.
    pub fn serialize(&self, output: &mut Vec<u8>) -> (n: usize)
        ensures
            final(output)@ =~= old(output)@ + self.wire(),
            n == 4,
    {
        let tag: u32 = match self {
            S2CAuthResult::Success => 0,
            S2CAuthResult::Failure => 1,
        };
        serialize_u32(tag, output)
    }

    /// Reads the message; an unknown tag is rejected.
    pub fn deserialize(data: &[u8]) -> (r: Result<(Self, usize), SerdeError>)
        ensures
            r matches Ok((m, n)) ==> n == 4 && n <= data@.len() && data@.subrange(0, 4)
                =~= m.wire(),
            forall|m: Self| (#[trigger] m.wire()).is_prefix_of(data@) ==> r == Ok::<(Self, usize), SerdeError>((m, 4usize)),
            r matches Err(e) ==> e is NotEnoughData || e is ParsingError,
    {
        let (raw, _) = match deserialize_u32(data) {
            Ok(x) => x,
            Err(e) => {
                proof {
                    assert forall|m: Self|
                        (#[trigger] m.wire()).is_prefix_of(data@) implies false by {
                        lemma_prefix_index(m.wire(), data@);
                    }
                }
                return Err(e);
            },
        };
        proof {
            assert forall|m: Self| (#[trigger] m.wire()).is_prefix_of(data@) implies m.tag()
                == be_u32(data@[0], data@[1], data@[2], data@[3]) by {
                lemma_prefix_index(m.wire(), data@);
                lemma_u32_wire(m.tag(), data@[0], data@[1], data@[2], data@[3]);
            }
        }
        match raw {
            0 => Ok((S2CAuthResult::Success, 4)),
            1 => Ok((S2CAuthResult::Failure, 4)),
            _ => Err(SerdeError::ParsingError {
                ty_name: "S2CAuthResult",
                error: "unknown tag".to_owned(),
            }),
        }
    }

    /// The message as a fresh byte string.
    pub fn serialize_buffered(&self) -> (out: Vec<u8>)
        ensures
            out@ =~= self.wire(),
    {
        let mut out = Vec::new();
        self.serialize(&mut out);
        out
    }
}

/// The service's answer to a connection request.
#[derive(Debug, Clone, Copy, PartialEq, Eq, Structural)]
pub enum S2CConnectToUserResult {
    UserBusy,
    Reject,
    Accept,
    UserOffline,
}

impl S2CConnectToUserResult {
    /// The tag this variant carries on the wire.
    pub open spec fn tag(self) -> u32 {
        match self {
            S2CConnectToUserResult::UserBusy => 0,
            S2CConnectToUserResult::Reject => 1,
            S2CConnectToUserResult::Accept => 2,
            S2CConnectToUserResult::UserOffline => 3,
        }
    }

    pub open spec fn wire(self) -> Seq<u8> {
        wire_u32(self.tag())
    }

    /// Writes the message.
    pub fn serialize(&self, output: &mut Vec<u8>) -> (n: usize)
        ensures
            final(output)@ =~= old(output)@ + self.wire(),
            n == 4,
    {
        let tag: u32 = match self {
            S2CConnectToUserResult::UserBusy => 0,
            S2CConnectToUserResult::Reject => 1,
            S2CConnectToUserResult::Accept => 2,
            S2CConnectToUserResult::UserOffline => 3,
        };
        serialize_u32(tag, output)
    }

    /// Reads the message; an unknown tag is rejected.
    pub fn deserialize(data: &[u8]) -> (r: Result<(Self, usize), SerdeError>)
        ensures
            r matches Ok((m, n)) ==> n == 4 && n <= data@.len() && data@.subrange(0, 4)
                =~= m.wire(),
            forall|m: Self| (#[trigger] m.wire()).is_prefix_of(data@) ==> r == Ok::<(Self, usize), SerdeError>((m, 4usize)),
            r matches Err(e) ==> e is NotEnoughData || e is ParsingError,
    {
        let (raw, _) = match deserialize_u32(data) {
            Ok(x) => x,
            Err(e) => {
                proof {
                    assert forall|m: Self|
                        (#[trigger] m.wire()).is_prefix_of(data@) implies false by {
                        lemma_prefix_index(m.wire(), data@);
                    }
                }
                return Err(e);
            },
        };
        proof {
            assert forall|m: Self| (#[trigger] m.wire()).is_prefix_of(data@) implies m.tag()
                == be_u32(data@[0], data@[1], data@[2], data@[3]) by {
                lemma_prefix_index(m.wire(), data@);
                lemma_u32_wire(m.tag(), data@[0], data@[1], data@[2], data@[3]);
            }
        }
        match raw {
            0 => Ok((S2CConnectToUserResult::UserBusy, 4)),
            1 => Ok((S2CConnectToUserResult::Reject, 4)),
            2 => Ok((S2CConnectToUserResult::Accept, 4)),
            3 => Ok((S2CConnectToUserResult::UserOffline, 4)),
            _ => Err(SerdeError::ParsingError {
                ty_name: "S2CConnectToUserResult",
                error: "unknown tag".to_owned(),
            }),
        }
    }

    /// The message as a fresh byte string.
    pub fn serialize_buffered(&self) -> (out: Vec<u8>)
        ensures
            out@ =~= self.wire(),
    {
        let mut out = Vec::new();
        self.serialize(&mut out);
        out
    }
}

/// The asked user's answer to a forwarded connection request.
#[derive(Debug, Clone, Copy, PartialEq, Eq, Structural)]
pub enum C2SConnectToUserResult {
    Reject,
    Accept,
}

impl C2SConnectToUserResult {
    /// The tag this variant carries on the wire.
    pub open spec fn tag(self) -> u32 {
        match self {
            C2SConnectToUserResult::Reject => 0,
            C2SConnectToUserResult::Accept => 1,
        }
    }

    pub open spec fn wire(self) -> Seq<u8> {
        wire_u32(self.tag())
    }

    /// Writes the message.
    pub fn serialize(&self, output: &mut Vec<u8>) -> (n: usize)
        ensures
            final(output)@ =~= old(output)@ + self.wire(),
            n == 4,
    {
        let tag: u32 = match self {
            C2SConnectToUserResult::Reject => 0,
            C2SConnectToUserResult::Accept => 1,
        };
        serialize_u32(tag, output)
    }

    /// Reads the message; an unknown tag is rejected.
    pub fn deserialize(data: &[u8]) -> (r: Result<(Self, usize), SerdeError>)
        ensures
            r matches Ok((m, n)) ==> n == 4 && n <= data@.len() && data@.subrange(0, 4)
                =~= m.wire(),
            forall|m: Self| (#[trigger] m.wire()).is_prefix_of(data@) ==> r == Ok::<(Self, usize), SerdeError>((m, 4usize)),
            r matches Err(e) ==> e is NotEnoughData || e is ParsingError,
    {
        let (raw, _) = match deserialize_u32(data) {
            Ok(x) => x,
            Err(e) => {
                proof {
                    assert forall|m: Self|
                        (#[trigger] m.wire()).is_prefix_of(data@) implies false by {
                        lemma_prefix_index(m.wire(), data@);
                    }
                }
                return Err(e);
            },
        };
        proof {
            assert forall|m: Self| (#[trigger] m.wire()).is_prefix_of(data@) implies m.tag()
                == be_u32(data@[0], data@[1], data@[2], data@[3]) by {
                lemma_prefix_index(m.wire(), data@);
                lemma_u32_wire(m.tag(), data@[0], data@[1], data@[2], data@[3]);
            }
        }
        match raw {
            0 => Ok((C2SConnectToUserResult::Reject, 4)),
            1 => Ok((C2SConnectToUserResult::Accept, 4)),
            _ => Err(SerdeError::ParsingError {
                ty_name: "C2SConnectToUserResult",
                error: "unknown tag".to_owned(),
            }),
        }
    }

    /// The message as a fresh byte string.
    pub fn serialize_buffered(&self) -> (out: Vec<u8>)
        ensures
            out@ =~= self.wire(),
    {
        let mut out = Vec::new();
        self.serialize(&mut out);
        out
    }
}

} // verus!
