//! The message codec: framing a command and payload into the 24-byte-header
//! wire format, the double-SHA256 payload checksum, parsing and validating
//! incoming headers, and serialising the handshake `version` payload.

use sha2::Digest;
use vstd::prelude::*;

use crate::structures::{Command, NetAddr, VersionPayload, WireError, spec_command_name};
use crate::utils::magic_bytes;

verus! {

/// The SHA-256 digest of a byte sequence, named but never written out: the
/// trusted wrapper below ties it to the `sha2` crate.
pub uninterp spec fn sha256_of(data: Seq<u8>) -> Seq<u8>;

/// The double SHA-256 digest: the hash applied twice.
pub open spec fn sha256d_of(data: Seq<u8>) -> Seq<u8> {
    sha256_of(sha256_of(data))
}

/// The message checksum: the first four bytes of the double SHA-256 digest
/// of the payload.
pub open spec fn checksum_of(data: Seq<u8>) -> Seq<u8> {
    Seq::new(4, |i: int| sha256d_of(data)[i])
}

/// Relies on `sha2::Sha256::digest`: the 32-byte SHA-256 digest, a function
/// of the input bytes alone.
#[verifier::external_body]
pub(crate) fn sha256(data: &[u8]) -> (r: Vec<u8>)
    ensures
        r@ == sha256_of(data@),
        r@.len() == 32,
{
    sha2::Sha256::digest(data).to_vec()
}

/// First four bytes of SHA-256(SHA-256(payload)).
pub fn bitcoin_checksum(payload: &[u8]) -> (r: [u8; 4])
    ensures
        r@ == checksum_of(payload@),
{
    let first_hash = sha256(payload);
    let second_hash = sha256(first_hash.as_slice());
    let r: [u8; 4] = [second_hash[0], second_hash[1], second_hash[2], second_hash[3]];
    proof {
        assert(r@ =~= checksum_of(payload@));
    }
    r
}

/// The checksum is deterministic — a function of the payload bytes alone —
/// and is exactly the double-SHA256 digest truncated to its first four
/// bytes.
pub proof fn lemma_checksum_truncated_double_sha(p: Seq<u8>)
    ensures
        checksum_of(p).len() == 4,
        forall|i: int| 0 <= i < 4 ==> checksum_of(p)[i] == sha256d_of(p)[i],
{
}

/// The byte sequence `construct_complete_message` emits:
/// magic, 12-byte command name, little-endian payload length, checksum,
/// then the payload itself.
pub open spec fn construct_message_spec(command: Seq<u8>, payload: Seq<u8>) -> Seq<u8>
    recommends
        command.len() == 12,
        payload.len() <= 0xffffffff,
{
    magic_bytes() + command + vstd::bytes::spec_u32_to_le_bytes(payload.len() as u32)
        + checksum_of(payload) + payload
}

/// Frames `payload` as a complete wire message under `command`'s name.
pub fn construct_complete_message(command: Command, payload: Vec<u8>) -> (r: Vec<u8>)
    requires
        payload@.len() <= 0xffffffff,
    ensures
        r@ == construct_message_spec(spec_command_name(command), payload@),
        r@.len() == 24 + payload@.len(),
{
    let mut complete_message: Vec<u8> = Vec::new();
    let magic: [u8; 4] = [0xf9, 0xbe, 0xb4, 0xd9];
    let command_bytes: [u8; 12] = command.as_bytes();
    let payload_len: u32 = payload.len() as u32;
    let checksum: [u8; 4] = bitcoin_checksum(payload.as_slice());

    complete_message.extend_from_slice(magic.as_slice());
    complete_message.extend_from_slice(command_bytes.as_slice());
    let mut len_bytes = vstd::bytes::u32_to_le_bytes(payload_len);
    complete_message.append(&mut len_bytes);
    complete_message.extend_from_slice(checksum.as_slice());
    complete_message.extend_from_slice(payload.as_slice());
    proof {
        assert(magic@ =~= magic_bytes());
        assert(complete_message@ =~= construct_message_spec(
            spec_command_name(command),
            payload@,
        ));
    }
    complete_message
}

/// The 26-byte wire form of a network address: little-endian services, the
/// raw 16 address bytes, then the little-endian port.
pub open spec fn spec_net_addr_bytes(a: NetAddr) -> Seq<u8> {
    vstd::bytes::spec_u64_to_le_bytes(a.services) + a.ip_v6_4@ + vstd::bytes::spec_u16_to_le_bytes(
        a.port,
    )
}

/// The serialised `version` payload: fixed-width fields, the sender's
/// address before the receiver's, the one-byte-length-prefixed user agent,
/// start height, and the relay flag.
pub open spec fn spec_version_payload_bytes(p: VersionPayload) -> Seq<u8> {
    vstd::bytes::spec_u32_to_le_bytes(p.version) + vstd::bytes::spec_u64_to_le_bytes(p.services)
        + vstd::bytes::spec_u64_to_le_bytes(p.timestamp) + spec_net_addr_bytes(p.addr_from)
        + spec_net_addr_bytes(p.addr_recv) + vstd::bytes::spec_u64_to_le_bytes(p.nonce)
        + seq![p.user_agent@.len() as u8] + p.user_agent@ + vstd::bytes::spec_u32_to_le_bytes(
        p.start_height,
    ) + seq![if p.relay { 1u8 } else { 0u8 }]
}

fn serialise_network_address(addr: &NetAddr) -> (r: Vec<u8>)
    ensures
        r@ == spec_net_addr_bytes(*addr),
        r@.len() == 26,
{
    let mut buf = vstd::bytes::u64_to_le_bytes(addr.services);
    buf.extend_from_slice(addr.ip_v6_4.as_slice());
    let mut port_bytes = vstd::bytes::u16_to_le_bytes(addr.port);
    buf.append(&mut port_bytes);
    proof {
        assert(buf@ =~= spec_net_addr_bytes(*addr));
    }
    buf
}

/// Serialises a `version` payload into its wire form.
pub fn serialise_version_message(version_message: &VersionPayload) -> (r: Vec<u8>)
    requires
        version_message.wf(),
    ensures
        r@ == spec_version_payload_bytes(*version_message),
        r@.len() == 86 + version_message.user_agent@.len(),
{
    let mut message_bytes = vstd::bytes::u32_to_le_bytes(version_message.version);
    let mut services = vstd::bytes::u64_to_le_bytes(version_message.services);
    message_bytes.append(&mut services);
    let mut timestamp = vstd::bytes::u64_to_le_bytes(version_message.timestamp);
    message_bytes.append(&mut timestamp);
    let mut net_addr_from = serialise_network_address(&version_message.addr_from);
    message_bytes.append(&mut net_addr_from);
    let mut net_addr_recv = serialise_network_address(&version_message.addr_recv);
    message_bytes.append(&mut net_addr_recv);
    let mut nonce = vstd::bytes::u64_to_le_bytes(version_message.nonce);
    message_bytes.append(&mut nonce);

    message_bytes.push(version_message.user_agent.len() as u8);
    message_bytes.extend_from_slice(version_message.user_agent.as_slice());

    let mut start_height = vstd::bytes::u32_to_le_bytes(version_message.start_height);
    message_bytes.append(&mut start_height);
    message_bytes.push(if version_message.relay {
        1
    } else {
        0
    });
    proof {
        assert(message_bytes@ =~= spec_version_payload_bytes(*version_message));
    }
    message_bytes
}

/// A command field with its trailing NUL padding removed.
pub open spec fn trim_nuls(s: Seq<u8>) -> Seq<u8>
    decreases s.len(),
{
    if s.len() > 0 && s.last() == 0 {
        trim_nuls(s.drop_last())
    } else {
        s
    }
}

/// Every byte is seven-bit ASCII.
pub open spec fn all_ascii(s: Seq<u8>) -> bool {
    forall|i: int| 0 <= i < s.len() ==> s[i] < 0x80
}

/// ASCII bytes read as characters.
pub open spec fn ascii_chars(s: Seq<u8>) -> Seq<char> {
    s.map(|i: int, b: u8| b as char)
}

/// If everything from index `k` on is NUL and the byte before `k` (if any)
/// is not, trimming keeps exactly the first `k` bytes.
pub proof fn lemma_trim_nuls_at(s: Seq<u8>, k: int)
    requires
        0 <= k <= s.len(),
        forall|j: int| k <= j < s.len() ==> s[j] == 0,
        k > 0 ==> s[k - 1] != 0,
    ensures
        trim_nuls(s) == s.take(k),
    decreases s.len(),
{
    if s.len() == k {
        assert(s.take(k) =~= s);
    } else {
        lemma_trim_nuls_at(s.drop_last(), k);
        assert(s.drop_last().take(k) =~= s.take(k));
    }
}

/// Model of a parsed message header.
pub struct SpecHeader {
    pub magic: u32,
    pub command: Seq<char>,
    pub length: u32,
    pub checksum: Seq<u8>,
}

/// A validated 24-byte message header: magic word, decoded command name,
/// payload length, and the four checksum bytes.
pub struct MessageHeader {
    pub magic: u32,
    pub command: String,
    pub length: u32,
    pub checksum: [u8; 4],
}

impl View for MessageHeader {
    type V = SpecHeader;

    open spec fn view(&self) -> SpecHeader {
        SpecHeader {
            magic: self.magic,
            command: self.command@,
            length: self.length,
            checksum: self.checksum@,
        }
    }
}

/// What parsing a 24-byte header yields: `BadMagic` unless the magic field
/// equals the network constant, `MalformedCommand` unless the NUL-trimmed
/// command field is ASCII, and otherwise the decoded header.
pub open spec fn spec_parse_header(h: Seq<u8>) -> Result<SpecHeader, WireError>
    recommends
        h.len() == 24,
{
    if h.subrange(0, 4) != magic_bytes() {
        Err(WireError::BadMagic)
    } else if !all_ascii(trim_nuls(h.subrange(4, 16))) {
        Err(WireError::MalformedCommand)
    } else {
        Ok(
            SpecHeader {
                magic: vstd::bytes::spec_u32_from_le_bytes(h.subrange(0, 4)),
                command: ascii_chars(trim_nuls(h.subrange(4, 16))),
                length: vstd::bytes::spec_u32_from_le_bytes(h.subrange(16, 20)),
                checksum: h.subrange(20, 24),
            },
        )
    }
}

/// Relies on `String::from_utf8`: ASCII bytes are valid UTF-8 and decode to
/// the characters with the same code points.
#[verifier::external_body]
fn ascii_bytes_to_string(b: Vec<u8>) -> (r: String)
    requires
        all_ascii(b@),
    ensures
        r@ == ascii_chars(b@),
{
    match String::from_utf8(b) {
        Ok(s) => s,
        Err(_) => String::new(),
    }
}

/// Parses and validates a 24-byte message header.
pub fn parse_header(header: &[u8]) -> (r: Result<MessageHeader, WireError>)
    requires
        header@.len() == 24,
    ensures
        r is Ok <==> spec_parse_header(header@) is Ok,
        r matches Ok(mh) ==> spec_parse_header(header@) matches Ok(m) && mh@ == m,
        r matches Err(e) ==> spec_parse_header(header@) == Err::<SpecHeader, WireError>(e),
{
    if !(header[0] == 0xf9 && header[1] == 0xbe && header[2] == 0xb4 && header[3] == 0xd9) {
        proof {
            assert(header@.subrange(0, 4) == magic_bytes() ==> {
                &&& header@.subrange(0, 4)[0] == 0xf9
                &&& header@.subrange(0, 4)[1] == 0xbe
                &&& header@.subrange(0, 4)[2] == 0xb4
                &&& header@.subrange(0, 4)[3] == 0xd9
            });
        }
        return Err(WireError::BadMagic);
    }
    proof {
        assert(header@.subrange(0, 4) =~= magic_bytes());
    }

    let ghost cmd_field = header@.subrange(4, 16);
    let mut end: usize = 16;
    while end > 4 && header[end - 1] == 0
        invariant
            4 <= end <= 16,
            header@.len() == 24,
            forall|j: int| end <= j < 16 ==> header@[j] == 0,
        decreases end,
    {
        end = end - 1;
    }
    proof {
        assert(forall|j: int| end - 4 <= j < 12 ==> cmd_field[j] == 0);
        lemma_trim_nuls_at(cmd_field, end - 4);
        assert(trim_nuls(cmd_field) =~= header@.subrange(4, end as int));
    }

    let mut i: usize = 4;
    while i < end
        invariant
            4 <= i <= end <= 16,
            header@.len() == 24,
            header@.subrange(0, 4) == magic_bytes(),
            trim_nuls(header@.subrange(4, 16)) == header@.subrange(4, end as int),
            forall|j: int| 4 <= j < i ==> header@[j] < 0x80,
        decreases end - i,
    {
        if header[i] >= 0x80 {
            proof {
                assert(trim_nuls(header@.subrange(4, 16))[i - 4] == header@[i as int]);
                assert(!all_ascii(trim_nuls(header@.subrange(4, 16))));
            }
            return Err(WireError::MalformedCommand);
        }
        i = i + 1;
    }

    let cmd_bytes = vstd::slice::slice_to_vec(vstd::slice::slice_subrange(header, 4, end));
    let command = ascii_bytes_to_string(cmd_bytes);

    let magic = vstd::bytes::u32_from_le_bytes(vstd::slice::slice_subrange(header, 0, 4));
    let length = vstd::bytes::u32_from_le_bytes(vstd::slice::slice_subrange(header, 16, 20));
    let checksum: [u8; 4] = [header[20], header[21], header[22], header[23]];
    proof {
        assert(checksum@ =~= header@.subrange(20, 24));
    }
    Ok(MessageHeader { magic, command, length, checksum })
}

/// Framing round trip: a message built from any command and payload parses
/// back to a header whose length field equals the payload's length, whose
/// checksum equals the payload's checksum, and whose command is the
/// NUL-trimmed command name; the bytes after the header are the payload
/// itself.
pub proof fn lemma_construct_then_parse(c: Command, payload: Seq<u8>)
    requires
        payload.len() <= 0xffffffff,
    ensures
        construct_message_spec(spec_command_name(c), payload).len() == 24 + payload.len(),
        ({
            let msg = construct_message_spec(spec_command_name(c), payload);
            &&& spec_parse_header(msg.take(24)) matches Ok(m) && {
                &&& m.length == payload.len()
                &&& m.checksum == checksum_of(payload)
                &&& m.command == ascii_chars(trim_nuls(spec_command_name(c)))
            }
            &&& msg.skip(24) == payload
        }),
{
    vstd::bytes::lemma_auto_spec_u32_to_from_le_bytes();
    let msg = construct_message_spec(spec_command_name(c), payload);
    let h = msg.take(24);
    assert(h.subrange(0, 4) =~= magic_bytes());
    assert(h.subrange(4, 16) =~= spec_command_name(c));
    assert(h.subrange(16, 20) =~= vstd::bytes::spec_u32_to_le_bytes(payload.len() as u32));
    assert(h.subrange(20, 24) =~= checksum_of(payload));
    assert(msg.skip(24) =~= payload);
    let name = spec_command_name(c);
    match c {
        Command::Version => {
            lemma_trim_nuls_at(name, 7);
            assert(trim_nuls(name) =~= name.take(7));
        },
        Command::Verack => {
            lemma_trim_nuls_at(name, 6);
            assert(trim_nuls(name) =~= name.take(6));
        },
        Command::Pong => {
            lemma_trim_nuls_at(name, 4);
            assert(trim_nuls(name) =~= name.take(4));
        },
        Command::GetData => {
            lemma_trim_nuls_at(name, 7);
            assert(trim_nuls(name) =~= name.take(7));
        },
    }
}

/// Handshake round trip: for every valid `version` payload, the complete
/// framed `version` message parses back to a header whose length field
/// equals the serialised payload's length and whose checksum equals that
/// payload's checksum, with the payload following the header unchanged.
pub proof fn lemma_version_message_round_trip(p: VersionPayload)
    requires
        p.wf(),
    ensures
        ({
            let pl = spec_version_payload_bytes(p);
            let msg = construct_message_spec(spec_command_name(Command::Version), pl);
            &&& pl.len() == 86 + p.user_agent@.len()
            &&& msg.len() == 24 + pl.len()
            &&& spec_parse_header(msg.take(24)) matches Ok(m) && m.length == pl.len()
                && m.checksum == checksum_of(pl)
            &&& msg.skip(24) == pl
        }),
{
    vstd::bytes::lemma_auto_spec_u16_to_from_le_bytes();
    vstd::bytes::lemma_auto_spec_u32_to_from_le_bytes();
    vstd::bytes::lemma_auto_spec_u64_to_from_le_bytes();
    let pl = spec_version_payload_bytes(p);
    assert(pl.len() == 86 + p.user_agent@.len());
    lemma_construct_then_parse(Command::Version, pl);
}

} // verus!
