//! How connections are secured.
use crate::bytes::{be16, copied, push_bytes, push_u16_be, read_u16_be, u16_be_at};
use crate::config::TlsMode;
use crate::error::{Error, ErrorView, Model, Result};
use crate::tds::names::{authentication_packet, is_authentication_packet, PRELOGIN};
use crate::tds::packet::{header_of, Header};
use crate::tds::prelogin::Encryption;
use crate::text::{ascii_lower, cat2, eq_ignore_ascii_case, hex2, hex_byte, opt_view, push_hex};
use vstd::prelude::*;

verus! {

// ---------------------------------------------------------------------------
// Negotiation

/// What a client is answered that asks for encryption, and whether it is secured.
pub open spec fn negotiated(mode: TlsMode, client: Encryption) -> (Encryption, bool) {
    match (mode, client) {
        (TlsMode::Disabled, _) => (Encryption::NotSupported, false),
        (TlsMode::Optional, Encryption::Off) => (Encryption::Off, false),
        (TlsMode::Optional, Encryption::NotSupported) => (Encryption::NotSupported, false),
        (TlsMode::Optional, _) => (Encryption::On, true),
        (TlsMode::Preferred, Encryption::NotSupported) => (Encryption::NotSupported, false),
        (TlsMode::Preferred, _) => (Encryption::On, true),
        (TlsMode::Required, Encryption::Off) => (Encryption::Required, true),
        (TlsMode::Required, Encryption::NotSupported) => (Encryption::Required, false),
        (TlsMode::Required, _) => (Encryption::On, true),
    }
}

/// What a client is answered that asks for encryption, and whether it is secured.
pub fn negotiate(mode: TlsMode, client: Encryption) -> (answer: (Encryption, bool))
    ensures
        answer == negotiated(mode, client),
{
    match mode {
        TlsMode::Disabled => (Encryption::NotSupported, false),
        TlsMode::Optional => match client {
            Encryption::On | Encryption::Required => (Encryption::On, true),
            Encryption::NotSupported => (Encryption::NotSupported, false),
            Encryption::Off => (Encryption::Off, false),
        },
        TlsMode::Preferred => match client {
            Encryption::NotSupported => (Encryption::NotSupported, false),
            _ => (Encryption::On, true),
        },
        TlsMode::Required => match client {
            Encryption::Off => (Encryption::Required, true),
            Encryption::NotSupported => (Encryption::Required, false),
            Encryption::On | Encryption::Required => (Encryption::On, true),
        },
    }
}

/// Where encryption is required, only a client that has none goes on in the clear; where it
/// is disabled, every client does; and no client without encryption is ever secured.
pub proof fn lemma_negotiation(mode: TlsMode, client: Encryption)
    ensures
        mode == TlsMode::Required ==> (negotiated(mode, client).1 <==> client
            != Encryption::NotSupported),
        mode == TlsMode::Disabled ==> !negotiated(mode, client).1,
        client == Encryption::NotSupported ==> !negotiated(mode, client).1,
        mode == TlsMode::Optional ==> (negotiated(mode, client).1 <==> client == Encryption::On
            || client == Encryption::Required),
{
}

/// Whether the instance that a client asks for is the one that is configured. A client that
/// names none gets any.
pub open spec fn instance_fits(requested: Option<Seq<char>>, configured: Seq<char>) -> bool {
    match requested {
        None => true,
        Some(name) => name.len() == 0 || ascii_lower(name) == ascii_lower(configured),
    }
}

/// Whether the instance that a client asks for is the one that is configured.
pub fn instance_matches(requested: Option<&str>, configured: &str) -> (yes: bool)
    ensures
        yes == instance_fits(opt_view(requested), configured@),
{
    broadcast use vstd::utf8::encode_utf8_decode_utf8;

    match requested {
        None => true,
        Some(name) => name.is_empty() || eq_ignore_ascii_case(name, configured),
    }
}

// ---------------------------------------------------------------------------
// Handshakes inside packets

/// The largest packet that a part of a handshake is sent in.
pub const HANDSHAKE_PACKET_SIZE: usize = 16_384;

/// Whether bytes of a client end its part of a handshake: encrypted data, a change of the
/// cipher, or a handshake message other than a greeting.
pub open spec fn final_flight(payload: Seq<u8>) -> bool {
    payload.len() > 0 && (payload[0] == 0x17 || payload[0] == 0x14 || (payload[0] == 0x16
        && payload.len() > 5 && payload[5] != 0x01))
}

/// Whether bytes of a client end its part of a handshake.
pub fn final_client_handshake_flight(payload: &[u8]) -> (yes: bool)
    ensures
        yes == final_flight(payload@),
{
    payload.len() > 0 && (payload[0] == 0x17 || payload[0] == 0x14 || (payload[0] == 0x16
        && payload.len() > 5 && payload[5] != 0x01))
}

/// A handshake that is carried in packets. What comes in is a header of eight bytes, then as
/// many bytes as it says; what goes on is those bytes. Once the client's part is over, packets
/// are no longer used in either direction.
pub struct TdsTlsIo {
    pub raw: bool,
    pub header: Vec<u8>,
    pub missing: usize,
    pub body: Vec<u8>,
    pub position: usize,
}

/// The model of a [`TdsTlsIo`].
pub struct Wrapped {
    pub raw: bool,
    pub header: Seq<u8>,
    pub missing: int,
    pub body: Seq<u8>,
    pub position: int,
}

impl View for TdsTlsIo {
    type V = Wrapped;

    open spec fn view(&self) -> Wrapped {
        Wrapped {
            raw: self.raw,
            header: self.header@,
            missing: self.missing as int,
            body: self.body@,
            position: self.position as int,
        }
    }
}

/// A handshake of which nothing has come in.
pub open spec fn fresh_handshake() -> Wrapped {
    Wrapped { raw: false, header: seq![], missing: 0, body: seq![], position: 0 }
}

impl Wrapped {
    /// What holds of every handshake. While the body of a packet is awaited, its header is
    /// complete; while there are bytes to hand on, nothing is awaited.
    pub open spec fn well_formed(self) -> bool {
        &&& self.header.len() <= 8
        &&& 0 <= self.missing <= 0xffff
        &&& 0 <= self.position <= self.body.len()
        &&& self.missing > 0 ==> self.header.len() == 8 && self.position == 0
        &&& self.missing == 0 && self.position < self.body.len() ==> self.header.len() == 0
        &&& self.missing == 0 && self.position == self.body.len() ==> self.header.len() < 8
            && self.body.len() == 0
    }

    /// Whether there are bytes to hand on.
    pub open spec fn ready(self) -> bool {
        self.missing == 0 && self.position < self.body.len()
    }

    /// How many bytes may come in next.
    pub open spec fn wanted(self) -> int {
        if self.raw || self.ready() {
            0
        } else if self.missing > 0 {
            self.missing
        } else {
            8 - self.header.len()
        }
    }

    /// Bytes that come in.
    pub open spec fn received(self, bytes: Seq<u8>) -> Model<Wrapped> {
        if self.missing > 0 {
            let left = self.missing - bytes.len();
            Ok(
                Wrapped {
                    header: if left == 0 {
                        seq![]
                    } else {
                        self.header
                    },
                    missing: left,
                    body: self.body + bytes,
                    ..self
                },
            )
        } else {
            let header = self.header + bytes;
            if header.len() < 8 {
                Ok(Wrapped { header, ..self })
            } else if header[0] != PRELOGIN || u16_be_at(header, 2) < 8 {
                Err(ErrorView::Io("invalid TDS-wrapped TLS packet"@))
            } else {
                let length = u16_be_at(header, 2) - 8;
                Ok(
                    Wrapped {
                        header: if length == 0 {
                            seq![]
                        } else {
                            header
                        },
                        missing: length,
                        ..self
                    },
                )
            }
        }
    }

    /// How many bytes are handed on to a reader that takes so many.
    pub open spec fn share(self, max: int) -> int {
        if max < self.body.len() - self.position {
            max
        } else {
            self.body.len() - self.position
        }
    }

    /// Bytes handed on. With the last of them the packet is done with.
    pub open spec fn handed(self, max: int) -> Wrapped {
        let position = self.position + self.share(max);
        if position == self.body.len() {
            Wrapped {
                raw: final_flight(self.body),
                header: seq![],
                missing: 0,
                body: seq![],
                position: 0,
            }
        } else {
            Wrapped { position, ..self }
        }
    }
}

impl TdsTlsIo {
    /// A handshake of which nothing has come in.
    pub fn new() -> (io: TdsTlsIo)
        ensures
            io@ == fresh_handshake(),
            io@.well_formed(),
    {
        TdsTlsIo {
            raw: false,
            header: Vec::new(),
            missing: 0,
            body: Vec::new(),
            position: 0,
        }
    }

    /// Packets are no longer used.
    pub fn enable_raw_mode(&mut self)
        ensures
            final(self)@ == (Wrapped { raw: true, ..fresh_handshake() }),
            final(self)@.well_formed(),
    {
        self.raw = true;
        self.header = Vec::new();
        self.missing = 0;
        self.body = Vec::new();
        self.position = 0;
    }

    /// How many bytes may come in next.
    pub fn wanted(&self) -> (count: usize)
        requires
            self@.well_formed(),
        ensures
            count == self@.wanted(),
    {
        if self.raw || (self.missing == 0 && self.position < self.body.len()) {
            0
        } else if self.missing > 0 {
            self.missing
        } else {
            8 - self.header.len()
        }
    }

    /// Takes bytes in.
    pub fn receive(&mut self, bytes: &[u8]) -> (result: Result<()>)
        requires
            old(self)@.well_formed(),
            bytes@.len() <= old(self)@.wanted(),
        ensures
            match old(self)@.received(bytes@) {
                Ok(next) => result is Ok && final(self)@ == next && next.well_formed(),
                Err(error) => result is Err && result->Err_0@ == error,
            },
    {
        if self.missing > 0 {
            push_bytes(&mut self.body, bytes);
            self.missing = self.missing - bytes.len();
            if self.missing == 0 {
                self.header = Vec::new();
            }
            return Ok(());
        }
        push_bytes(&mut self.header, bytes);
        if self.header.len() < 8 {
            return Ok(());
        }
        let length: u16 = read_u16_be(self.header.as_slice(), 2);
        if self.header[0] != PRELOGIN || length < 8 {
            return Err(Error::Io("invalid TDS-wrapped TLS packet".to_owned()));
        }
        self.missing = length as usize - 8;
        if self.missing == 0 {
            self.header = Vec::new();
        }
        Ok(())
    }

    /// Hands bytes on.
    pub fn take(&mut self, max: usize) -> (bytes: Vec<u8>)
        requires
            old(self)@.well_formed(),
            old(self)@.ready(),
            max > 0,
        ensures
            final(self)@ == old(self)@.handed(max as int),
            final(self)@.well_formed(),
            bytes@ == old(self)@.body.subrange(
                old(self)@.position,
                old(self)@.position + old(self)@.share(max as int),
            ),
    {
        let left: usize = self.body.len() - self.position;
        let count: usize = if max < left {
            max
        } else {
            left
        };
        let start: usize = self.position;
        let bytes = copied(&self.body.as_slice()[start..start + count]);
        self.position = start + count;
        if self.position == self.body.len() {
            self.raw = final_client_handshake_flight(self.body.as_slice());
            self.header = Vec::new();
            self.missing = 0;
            self.body = Vec::new();
            self.position = 0;
        }
        bytes
    }
}

/// The packet that a part of a handshake is sent in.
pub open spec fn wrapped_packet(part: Seq<u8>) -> Seq<u8> {
    seq![PRELOGIN, 1u8] + be16((8 + part.len()) as u16) + seq![0u8, 0, 1, 0] + part
}

/// How much of a handshake is sent in one packet.
pub open spec fn wrapped_share(len: int) -> int {
    if len < HANDSHAKE_PACKET_SIZE - 8 {
        len
    } else {
        HANDSHAKE_PACKET_SIZE - 8
    }
}

/// The packet that the next part of a handshake is sent in, and how much is in it.
pub fn wrap_handshake(input: &[u8]) -> (packet: (Vec<u8>, usize))
    ensures
        packet.1 == wrapped_share(input@.len() as int),
        packet.0@ == wrapped_packet(input@.subrange(0, packet.1 as int)),
{
    let count: usize = if input.len() < HANDSHAKE_PACKET_SIZE - 8 {
        input.len()
    } else {
        HANDSHAKE_PACKET_SIZE - 8
    };
    let part = &input[0..count];
    let mut packet: Vec<u8> = Vec::new();
    packet.push(PRELOGIN);
    packet.push(1);
    push_u16_be(&mut packet, (8 + count) as u16);
    packet.push(0);
    packet.push(0);
    packet.push(1);
    packet.push(0);
    push_bytes(&mut packet, part);
    assert(packet@ =~= wrapped_packet(part@));
    (packet, count)
}

/// What is sent in a packet is what comes out of it: a handshake that takes in the header and
/// then the body of a packet has the part that was sent to hand on.
pub proof fn lemma_handshake_round_trip(part: Seq<u8>)
    requires
        0 < part.len() <= HANDSHAKE_PACKET_SIZE - 8,
    ensures
        ({
            let packet = wrapped_packet(part);
            let head = fresh_handshake().received(packet.subrange(0, 8));
            &&& head is Ok
            &&& head->Ok_0.wanted() == part.len()
            &&& head->Ok_0.received(packet.subrange(8, packet.len() as int)) matches Ok(done)
                && done.ready() && done.body == part && done.position == 0
        }),
{
    let packet = wrapped_packet(part);
    let head = packet.subrange(0, 8);
    let length = (8 + part.len()) as u16;
    crate::bytes::lemma_u16_round_trip(length);
    assert(fresh_handshake().header + head =~= head);
    assert(head[2] == be16(length)[0] && head[3] == be16(length)[1]);
    assert(u16_be_at(head, 2) == u16_be_at(be16(length), 0));
    assert(packet.subrange(8, packet.len() as int) =~= part);
    assert(fresh_handshake().body + part =~= part);
}

// ---------------------------------------------------------------------------
// Secured logins

/// The first packet behind a handshake that only secures the login: it must belong to one.
pub open spec fn login_only_header(raw: Seq<u8>, max_packet: int) -> Model<Header> {
    match header_of(raw, max_packet) {
        Err(error) => Err(error),
        Ok(header) => if authentication_packet(header.packet_type) {
            Ok(header)
        } else {
            Err(
                ErrorView::Protocol(
                    "login-only TLS protected unexpected packet type 0x"@ + hex_byte(
                        header.packet_type,
                    ),
                ),
            )
        },
    }
}

/// The header of the first packet behind a handshake that only secures the login.
pub fn login_only_packet(raw: [u8; 8], max_packet: usize) -> (result: Result<Header>)
    ensures
        match login_only_header(raw@, max_packet as int) {
            Ok(header) => result == Ok::<Header, Error>(header),
            Err(error) => result is Err && result->Err_0@ == error,
        },
{
    let header = Header::decode(raw, max_packet)?;
    if !is_authentication_packet(header.packet_type) {
        return Err(
            Error::Protocol(
                cat2(
                    "login-only TLS protected unexpected packet type 0x",
                    hex2(header.packet_type).as_str(),
                ),
            ),
        );
    }
    Ok(header)
}

/// Bytes that were read ahead and are read again before anything else.
pub struct PrefixedIo {
    pub prefix: Vec<u8>,
    pub position: usize,
}

impl PrefixedIo {
    /// The bytes that are still to be read again.
    pub open spec fn left(&self) -> Seq<u8> {
        self.prefix@.subrange(self.position as int, self.prefix@.len() as int)
    }

    /// Bytes that are read again.
    pub fn new(prefix: Vec<u8>) -> (io: PrefixedIo)
        ensures
            io.position <= io.prefix@.len(),
            io.left() == prefix@,
    {
        let io = PrefixedIo { prefix, position: 0 };
        assert(io.left() =~= io.prefix@);
        io
    }

    /// Reads at most so many bytes again.
    pub fn take(&mut self, max: usize) -> (bytes: Vec<u8>)
        requires
            old(self).position <= old(self).prefix@.len(),
        ensures
            final(self).position <= final(self).prefix@.len(),
            bytes@ + final(self).left() == old(self).left(),
            bytes@.len() == (if max < old(self).left().len() {
                max as int
            } else {
                old(self).left().len() as int
            }),
    {
        let left: usize = self.prefix.len() - self.position;
        let count: usize = if max < left {
            max
        } else {
            left
        };
        let start: usize = self.position;
        let bytes = copied(&self.prefix.as_slice()[start..start + count]);
        self.position = start + count;
        assert(bytes@ + self.left() =~= old(self).left());
        bytes
    }
}

// ---------------------------------------------------------------------------
// Versions

/// Six bytes as a version.
pub open spec fn version_text(v: Seq<u8>) -> Seq<char> {
    hex_byte(v[0]) + "."@ + hex_byte(v[1]) + "."@ + hex_byte(v[2]) + "."@ + hex_byte(v[3]) + "-"@
        + hex_byte(v[4]) + hex_byte(v[5])
}

/// Six bytes as a version.
pub fn hex_version(v: [u8; 6]) -> (text: String)
    ensures
        text@ == version_text(v@),
{
    let mut text = hex2(v[0]);
    text.append(".");
    push_hex(&mut text, v[1]);
    text.append(".");
    push_hex(&mut text, v[2]);
    text.append(".");
    push_hex(&mut text, v[3]);
    text.append("-");
    push_hex(&mut text, v[4]);
    push_hex(&mut text, v[5]);
    text
}

} // verus!
