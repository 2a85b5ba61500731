//! The discovery announcement codec: the length-prefixed packet a peer
//! broadcasts, carrying its id, public key and display name.

use vstd::prelude::*;

use vstd::string::StringExecFns;
use vstd::string::StringSliceAdditionalSpecFns;
use vstd::utf8::{decode_utf8, encode_utf8, valid_utf8};

use crate::wire::{push_u16_be, read_u16_be, spec_u16_from_be_bytes, spec_u16_to_be_bytes};

verus! {

/// Relies on std's String::from_utf8: it accepts exactly valid UTF-8
/// and the resulting string's bytes are the input bytes.
#[verifier::external_body]
fn string_from_utf8(bytes: Vec<u8>) -> (r: Option<String>)
    ensures
        r is Some <==> valid_utf8(bytes@),
        r matches Some(s) ==> encode_utf8(s@) == bytes@,
{
    match String::from_utf8(bytes) {
        Ok(s) => Some(s),
        Err(_) => None,
    }
}

/// Errors of the discovery codec.
#[derive(Debug, Clone, PartialEq, Eq)]
pub enum DiscoveryError {
    Io(String),
    InvalidPacket(&'static str),
    InvalidLength,
}

impl DiscoveryError {
    /// Human-readable description of the error.
    pub fn message(&self) -> String {
        match self {
            DiscoveryError::Io(m) => String::from_str("I/O error: ").concat(m.as_str()),
            DiscoveryError::InvalidPacket(m) => String::from_str("invalid packet: ").concat(m),
            DiscoveryError::InvalidLength => String::from_str("invalid string length"),
        }
    }
}

/// A peer's announcement, as decoded from a discovery packet.
#[derive(Debug, Clone, PartialEq, Eq)]
pub struct Announcement {
    pub device_id: String,
    pub public_key_b64: String,
    pub display_name: String,
    pub port: u16,
}

/// The magic prefix of a discovery packet: the ASCII bytes of `P2PD`.
pub open spec fn magic_discovery() -> Seq<u8> {
    seq![0x50u8, 0x32u8, 0x50u8, 0x44u8]
}

/// A length-prefixed string block: a big-endian 2-byte length, then the
/// UTF-8 bytes, the length saturated at the largest `u16`.
pub open spec fn spec_string_block(s: Seq<char>) -> Seq<u8> {
    let bytes = encode_utf8(s);
    let n = if bytes.len() > 0xffff {
        0xffffint
    } else {
        bytes.len() as int
    };
    spec_u16_to_be_bytes(n as u16) + bytes.take(n)
}

/// The encoding of an announcement: magic, port, then the device id,
/// public key and display name as length-prefixed blocks.
pub open spec fn spec_encode_announcement(a: Announcement) -> Seq<u8> {
    magic_discovery() + spec_u16_to_be_bytes(a.port) + spec_string_block(a.device_id@)
        + spec_string_block(a.public_key_b64@) + spec_string_block(a.display_name@)
}

/// Reading one string block at `at`: too few bytes for the length or
/// the content is `InvalidLength`; content that is not UTF-8 is an
/// invalid packet; otherwise the characters and the next offset.
pub open spec fn spec_read_block(bytes: Seq<u8>, at: int) -> Result<(Seq<char>, int), DiscoveryError> {
    if at + 2 > bytes.len() {
        Err(DiscoveryError::InvalidLength)
    } else {
        let n = spec_u16_from_be_bytes(bytes.subrange(at, at + 2)) as int;
        if at + 2 + n > bytes.len() {
            Err(DiscoveryError::InvalidLength)
        } else {
            let content = bytes.subrange(at + 2, at + 2 + n);
            if valid_utf8(content) {
                Ok((decode_utf8(content), at + 2 + n))
            } else {
                Err(DiscoveryError::InvalidPacket("utf8 error"))
            }
        }
    }
}

/// What the announcement decoder accepts: magic and port, three string
/// blocks, and nothing after them.
pub open spec fn spec_decode_announcement(bytes: Seq<u8>) -> Result<
    (u16, Seq<char>, Seq<char>, Seq<char>),
    DiscoveryError,
> {
    if bytes.len() < 6 || bytes.take(4) != magic_discovery() {
        Err(DiscoveryError::InvalidPacket("bad magic/header"))
    } else {
        let port = spec_u16_from_be_bytes(bytes.subrange(4, 6));
        match spec_read_block(bytes, 6) {
            Err(e) => Err(e),
            Ok((device_id, at1)) => match spec_read_block(bytes, at1) {
                Err(e) => Err(e),
                Ok((public_key_b64, at2)) => match spec_read_block(bytes, at2) {
                    Err(e) => Err(e),
                    Ok((display_name, at3)) => if at3 != bytes.len() {
                        Err(DiscoveryError::InvalidPacket("trailing bytes"))
                    } else {
                        Ok((port, device_id, public_key_b64, display_name))
                    },
                },
            },
        }
    }
}

/// Appends a length-prefixed string block.
fn push_string_block(out: &mut Vec<u8>, s: &str)
    ensures
        final(out)@ == old(out)@ + spec_string_block(s@),
{
    let bytes = s.as_bytes();
    let n: u16 = if bytes.len() > 0xffff {
        0xffffu16
    } else {
        bytes.len() as u16
    };
    push_u16_be(out, n);
    out.extend_from_slice(&bytes[0..n as usize]);
    proof {
        assert(out@ =~= old(out)@ + spec_string_block(s@));
    }
}

/// Reads one length-prefixed string block at `at`.
fn read_string_block(bytes: &[u8], at: usize) -> (r: Result<(String, usize), DiscoveryError>)
    requires
        at <= bytes@.len(),
    ensures
        match r {
            Ok((s, next)) => {
                &&& spec_read_block(bytes@, at as int) matches Ok((chars, n)) && s@ == chars && next
                    == n
                &&& next <= bytes@.len()
            },
            Err(e) => spec_read_block(bytes@, at as int) == Err::<(Seq<char>, int),
                DiscoveryError,
            >(e),
        },
{
    let total = bytes.len();
    if total - at < 2 {
        return Err(DiscoveryError::InvalidLength);
    }
    let n = read_u16_be(bytes, at) as usize;
    if n > total - (at + 2) {
        return Err(DiscoveryError::InvalidLength);
    }
    let content = vstd::slice::slice_to_vec(&bytes[at + 2..at + 2 + n]);
    proof {
        assert(content@ =~= bytes@.subrange(at as int + 2, at as int + 2 + n as int));
    }
    match string_from_utf8(content) {
        Some(s) => {
            proof {
                vstd::utf8::encode_utf8_decode_utf8(s@);
            }
            Ok((s, at + 2 + n))
        },
        None => Err(DiscoveryError::InvalidPacket("utf8 error")),
    }
}

impl Announcement {
    /// Encodes the announcement as a discovery packet.
    pub fn encode(&self) -> (r: Vec<u8>)
        ensures
            r@ == spec_encode_announcement(*self),
    {
        let mut out: Vec<u8> = Vec::new();
        out.push(0x50u8);
        out.push(0x32u8);
        out.push(0x50u8);
        out.push(0x44u8);
        proof {
            assert(out@ =~= magic_discovery());
        }
        push_u16_be(&mut out, self.port);
        push_string_block(&mut out, self.device_id.as_str());
        push_string_block(&mut out, self.public_key_b64.as_str());
        push_string_block(&mut out, self.display_name.as_str());
        proof {
            assert(out@ =~= spec_encode_announcement(*self));
        }
        out
    }

    /// Decodes a discovery packet, accepting exactly the byte strings
    /// that `spec_decode_announcement` accepts.
    pub fn decode(input: &[u8]) -> (r: Result<Self, DiscoveryError>)
        ensures
            match r {
                Ok(a) => spec_decode_announcement(input@) == Ok::<_, DiscoveryError>(
                    (a.port, a.device_id@, a.public_key_b64@, a.display_name@),
                ),
                Err(e) => spec_decode_announcement(input@) == Err::<
                    (u16, Seq<char>, Seq<char>, Seq<char>),
                    _,
                >(e),
            },
    {
        if input.len() < 6 {
            return Err(DiscoveryError::InvalidPacket("bad magic/header"));
        }
        if !(input[0] == 0x50 && input[1] == 0x32 && input[2] == 0x50 && input[3] == 0x44) {
            proof {
                assert(input@.take(4) != magic_discovery());
            }
            return Err(DiscoveryError::InvalidPacket("bad magic/header"));
        }
        proof {
            assert(input@.take(4) =~= magic_discovery());
        }

        let port = read_u16_be(input, 4);
        let (device_id, at1) = match read_string_block(input, 6) {
            Ok(v) => v,
            Err(e) => {
                return Err(e);
            },
        };
        let (public_key_b64, at2) = match read_string_block(input, at1) {
            Ok(v) => v,
            Err(e) => {
                return Err(e);
            },
        };
        let (display_name, at3) = match read_string_block(input, at2) {
            Ok(v) => v,
            Err(e) => {
                return Err(e);
            },
        };

        if at3 != input.len() {
            return Err(DiscoveryError::InvalidPacket("trailing bytes"));
        }

        Ok(Self { device_id, public_key_b64, display_name, port })
    }
}


impl Announcement {
    /// An announcement whose encoding loses nothing: each string's
    /// UTF-8 form fits the 2-byte length field.
    pub open spec fn wf(self) -> bool {
        &&& encode_utf8(self.device_id@).len() <= 0xffff
        &&& encode_utf8(self.public_key_b64@).len() <= 0xffff
        &&& encode_utf8(self.display_name@).len() <= 0xffff
    }
}

/// An encoded announcement decodes back to its own fields.
#[verifier::rlimit(60)]
pub proof fn lemma_announcement_round_trip(a: Announcement)
    requires
        a.wf(),
    ensures
        spec_decode_announcement(spec_encode_announcement(a)) == Ok::<_, DiscoveryError>(
            (a.port, a.device_id@, a.public_key_b64@, a.display_name@),
        ),
{
    let e = spec_encode_announcement(a);
    let d = encode_utf8(a.device_id@);
    let p = encode_utf8(a.public_key_b64@);
    let n = encode_utf8(a.display_name@);
    assert(d.take(d.len() as int) =~= d);
    assert(p.take(p.len() as int) =~= p);
    assert(n.take(n.len() as int) =~= n);
    let at1 = 8 + d.len() as int;
    let at2 = at1 + 2 + p.len() as int;
    let at3 = at2 + 2 + n.len() as int;
    assert(e.len() == at3);

    assert(e.take(4) =~= magic_discovery());
    assert(e.subrange(4, 6) =~= spec_u16_to_be_bytes(a.port));
    crate::wire::lemma_u16_be_bytes_invert(a.port);

    vstd::utf8::encode_utf8_valid_utf8(a.device_id@);
    vstd::utf8::encode_utf8_decode_utf8(a.device_id@);
    vstd::utf8::encode_utf8_valid_utf8(a.public_key_b64@);
    vstd::utf8::encode_utf8_decode_utf8(a.public_key_b64@);
    vstd::utf8::encode_utf8_valid_utf8(a.display_name@);
    vstd::utf8::encode_utf8_decode_utf8(a.display_name@);

    assert(e.subrange(6, 8) =~= spec_u16_to_be_bytes(d.len() as u16));
    crate::wire::lemma_u16_be_bytes_invert(d.len() as u16);
    assert(e.subrange(8, 8 + d.len() as int) =~= d);
    assert(spec_read_block(e, 6) == Ok::<_, DiscoveryError>((a.device_id@, at1)));

    assert(e.subrange(at1, at1 + 2) =~= spec_u16_to_be_bytes(p.len() as u16));
    crate::wire::lemma_u16_be_bytes_invert(p.len() as u16);
    assert(e.subrange(at1 + 2, at1 + 2 + p.len() as int) =~= p);
    assert(spec_read_block(e, at1) == Ok::<_, DiscoveryError>((a.public_key_b64@, at2)));

    assert(e.subrange(at2, at2 + 2) =~= spec_u16_to_be_bytes(n.len() as u16));
    crate::wire::lemma_u16_be_bytes_invert(n.len() as u16);
    assert(e.subrange(at2 + 2, at2 + 2 + n.len() as int) =~= n);
    assert(spec_read_block(e, at2) == Ok::<_, DiscoveryError>((a.display_name@, at3)));
}

} // verus!
