//! Packets: their headers, putting messages together from them and taking messages apart
//! into them.
use crate::bytes::{be16, push_bytes, read_u16_be, read_u32, u16_be_at, u32_at};
use crate::error::{protocol, Error, ErrorView, Model, Result};
use crate::tds::smp;
use crate::tds::tds5::capability::{only_if, push_if};
use crate::text::{cat2, cat5, dec, decimal, hex2, hex_byte, views};
use vstd::prelude::*;
use vstd::string::*;

verus! {

/// The length of a packet header.
pub const HEADER_LEN: usize = 8;

/// The status bit of the last packet of a message.
pub const STATUS_EOM: u8 = 0x01;

/// The status bit of a packet with an encrypted body.
pub const STATUS_SYMMETRIC_ENCRYPTION: u8 = 0x40;

/// The header of a packet.
#[derive(Clone, Copy, Debug, PartialEq, Eq, Structural)]
pub struct Header {
    pub packet_type: u8,
    pub status: u8,
    pub length: u16,
    pub spid: u16,
    pub packet_id: u8,
    pub window: u8,
}

/// A packet of a message: its status, its number, and which part of the message it holds.
#[derive(Clone, Copy, Debug, PartialEq, Eq, Structural)]
pub struct PacketDescriptor {
    pub status: u8,
    pub packet_id: u8,
    pub body_offset: usize,
    pub body_bytes: usize,
}

/// A message.
#[derive(Debug)]
pub struct Message {
    pub packet_type: u8,
    pub first_status: u8,
    pub first_packet_id: u8,
    pub payload: Vec<u8>,
    pub packet_count: u32,
    pub packets: Vec<PacketDescriptor>,
}

/// The model of a [`Message`].
pub struct MessageView {
    pub packet_type: u8,
    pub first_status: u8,
    pub first_packet_id: u8,
    pub payload: Seq<u8>,
    pub packet_count: u32,
    pub packets: Seq<PacketDescriptor>,
}

impl View for Message {
    type V = MessageView;

    open spec fn view(&self) -> MessageView {
        MessageView {
            packet_type: self.packet_type,
            first_status: self.first_status,
            first_packet_id: self.first_packet_id,
            payload: self.payload@,
            packet_count: self.packet_count,
            packets: self.packets@,
        }
    }
}

// ---------------------------------------------------------------------------
// Headers

/// The header that eight bytes are.
pub open spec fn raw_header(raw: Seq<u8>) -> Header {
    Header {
        packet_type: raw[0],
        status: raw[1],
        length: u16_be_at(raw, 2),
        spid: u16_be_at(raw, 4),
        packet_id: raw[6],
        window: raw[7],
    }
}

/// The message about a header with an impossible length.
pub open spec fn bad_length(h: Header) -> ErrorView {
    ErrorView::Protocol(
        "invalid TDS packet length "@ + dec(h.length as nat) + " (type=0x"@ + hex_byte(
            h.packet_type,
        ) + ", status=0x"@ + hex_byte(h.status) + ", packet_id="@ + dec(h.packet_id as nat) + ")"@,
    )
}

/// The header that eight bytes are, where its length is one of a packet.
pub open spec fn header_of(raw: Seq<u8>, max_packet: int) -> Model<Header> {
    let h = raw_header(raw);
    if h.length < 8 || h.length > max_packet {
        Err(bad_length(h))
    } else {
        Ok(h)
    }
}

impl Header {
    /// The bytes of a header.
    pub open spec fn bytes(self) -> Seq<u8> {
        seq![self.packet_type, self.status] + be16(self.length) + be16(self.spid) + seq![
            self.packet_id,
            self.window,
        ]
    }

    /// The header that eight bytes are. The meaning of the status bits depends on the
    /// version, which is not known yet, so every combination of them is kept.
    pub fn decode(raw: [u8; 8], max_packet: usize) -> (result: Result<Header>)
        ensures
            match header_of(raw@, max_packet as int) {
                Ok(h) => result == Ok::<Header, Error>(h),
                Err(e) => result is Err && result->Err_0@ == e,
            },
    {
        let length: u16 = read_u16_be(&raw, 2);
        if length < 8 || length as usize > max_packet {
            let mut text = cat5(
                "invalid TDS packet length ",
                decimal(length as u128).as_str(),
                " (type=0x",
                hex2(raw[0]).as_str(),
                ", status=0x",
            );
            text.append(hex2(raw[1]).as_str());
            text.append(", packet_id=");
            text.append(decimal(raw[6] as u128).as_str());
            text.append(")");
            return Err(Error::Protocol(text));
        }
        Ok(
            Header {
                packet_type: raw[0],
                status: raw[1],
                length,
                spid: read_u16_be(&raw, 4),
                packet_id: raw[6],
                window: raw[7],
            },
        )
    }

    /// The bytes of the header.
    pub fn encode(self) -> (raw: [u8; 8])
        ensures
            raw@ == self.bytes(),
    {
        let raw = [
            self.packet_type,
            self.status,
            (self.length / 256) as u8,
            (self.length % 256) as u8,
            (self.spid / 256) as u8,
            (self.spid % 256) as u8,
            self.packet_id,
            self.window,
        ];
        assert(raw@ =~= self.bytes());
        raw
    }

    /// Whether the packet is the last of its message.
    pub fn is_eom(self) -> (last: bool)
        ensures
            last == (self.status & 0x01 != 0),
    {
        self.status & STATUS_EOM != 0
    }
}

impl PacketDescriptor {
    /// Whether the body of the packet is encrypted.
    pub fn has_symmetric_encryption(self) -> (yes: bool)
        ensures
            yes == (self.status & 0x40 != 0),
    {
        self.status & STATUS_SYMMETRIC_ENCRYPTION != 0
    }
}

/// Decoding undoes encoding a header, and the other way round.
pub proof fn lemma_header_round_trip(h: Header, raw: Seq<u8>, max_packet: int)
    requires
        8 <= h.length <= max_packet,
        raw.len() == 8,
    ensures
        header_of(h.bytes(), max_packet) == Ok::<Header, ErrorView>(h),
        raw_header(raw).bytes() == raw,
{
    crate::bytes::lemma_u16_round_trip(h.length);
    crate::bytes::lemma_u16_round_trip(h.spid);
    let b = h.bytes();
    assert(u16_be_at(b, 2) == u16_be_at(be16(h.length), 0));
    assert(u16_be_at(b, 4) == u16_be_at(be16(h.spid), 0));
    assert(raw_header(b) == h);
    assert(raw_header(raw).bytes() =~= raw);
}

/// The names of the status bits from version 7 on.
pub open spec fn microsoft_flags(status: u8) -> Seq<Seq<char>> {
    only_if(status & 0x01 != 0, "end_of_message"@) + only_if(status & 0x02 != 0, "ignore"@)
        + only_if(status & 0x08 != 0, "reset_connection"@) + only_if(
        status & 0x10 != 0,
        "reset_connection_skip_transaction"@,
    )
}

/// The names of the status bits from version 7 on.
pub fn microsoft_status_flags(status: u8) -> (names: Vec<&'static str>)
    ensures
        views(names@) == microsoft_flags(status),
{
    let mut names: Vec<&'static str> = Vec::new();
    push_if(&mut names, status & 0x01 != 0, "end_of_message");
    assert(views(names@) =~= only_if(status & 0x01 != 0, "end_of_message"@));
    push_if(&mut names, status & 0x02 != 0, "ignore");
    push_if(&mut names, status & 0x08 != 0, "reset_connection");
    push_if(&mut names, status & 0x10 != 0, "reset_connection_skip_transaction");
    names
}

/// The names of the status bits before version 7 and in TDS 5.
pub open spec fn legacy_flags(status: u8) -> Seq<Seq<char>> {
    only_if(status & 0x01 != 0, "end_of_message"@) + only_if(
        status & 0x02 != 0,
        "attention_acknowledgement"@,
    ) + only_if(status & 0x04 != 0, "attention"@) + only_if(status & 0x08 != 0, "event"@)
        + only_if(status & 0x10 != 0, "seal"@) + only_if(
        status & 0x20 != 0,
        "sql_anywhere_encryption"@,
    ) + only_if(status & 0x40 != 0, "symmetric_command_encryption"@)
}

/// The names of the status bits before version 7 and in TDS 5.
pub fn legacy_status_flags(status: u8) -> (names: Vec<&'static str>)
    ensures
        views(names@) == legacy_flags(status),
{
    let mut names: Vec<&'static str> = Vec::new();
    push_if(&mut names, status & 0x01 != 0, "end_of_message");
    assert(views(names@) =~= only_if(status & 0x01 != 0, "end_of_message"@));
    push_if(&mut names, status & 0x02 != 0, "attention_acknowledgement");
    push_if(&mut names, status & 0x04 != 0, "attention");
    push_if(&mut names, status & 0x08 != 0, "event");
    push_if(&mut names, status & 0x10 != 0, "seal");
    push_if(&mut names, status & 0x20 != 0, "sql_anywhere_encryption");
    push_if(&mut names, status & 0x40 != 0, "symmetric_command_encryption");
    names
}

// ---------------------------------------------------------------------------
// Putting messages together

/// A message that is being put together: packets come in as a header, which says how many
/// bytes follow, and those bytes.
#[derive(Debug)]
pub struct Assembler {
    pub max_packet: usize,
    pub max_message: usize,
    pub first: Option<Header>,
    pub current: Option<Header>,
    pub payload: Vec<u8>,
    pub packets: Vec<PacketDescriptor>,
}

/// The model of an [`Assembler`]. `current` is the header of a packet whose body is awaited.
pub struct Assembly {
    pub max_packet: int,
    pub max_message: int,
    pub first: Option<Header>,
    pub current: Option<Header>,
    pub payload: Seq<u8>,
    pub packets: Seq<PacketDescriptor>,
}

impl View for Assembler {
    type V = Assembly;

    open spec fn view(&self) -> Assembly {
        Assembly {
            max_packet: self.max_packet as int,
            max_message: self.max_message as int,
            first: self.first,
            current: self.current,
            payload: self.payload@,
            packets: self.packets@,
        }
    }
}

/// A message of which nothing has come in.
pub open spec fn empty_assembly(max_packet: int, max_message: int) -> Assembly {
    Assembly {
        max_packet,
        max_message,
        first: None,
        current: None,
        payload: seq![],
        packets: seq![],
    }
}

impl Assembly {
    /// What holds of every message that is being put together.
    pub open spec fn well_formed(self) -> bool {
        &&& self.packets.len() <= 65_536
        &&& self.packets.len() > 0 ==> self.first is Some
        &&& self.current is Some ==> self.first is Some && self.current->0.length >= 8
            && self.payload.len() + self.current->0.length - 8 <= usize::MAX
    }

    /// A header that comes in: the message awaits the body, of the length that is given.
    pub open spec fn header(self, raw: Seq<u8>) -> Model<(Assembly, int)> {
        match header_of(raw, self.max_packet) {
            Err(e) => Err(e),
            Ok(h) => if self.first is Some && self.first->0.packet_type != h.packet_type {
                Err(ErrorView::Protocol("packet type changed inside a message"@))
            } else if self.payload.len() + h.length - 8 > usize::MAX || self.payload.len()
                + h.length - 8 > self.max_message {
                Err(ErrorView::Limit("maximum reassembled TDS message size"@))
            } else {
                Ok(
                    (
                        Assembly {
                            first: match self.first {
                                Some(f) => Some(f),
                                None => Some(h),
                            },
                            current: Some(h),
                            ..self
                        },
                        h.length - 8,
                    ),
                )
            },
        }
    }

    /// The body of the awaited packet comes in. The flag says whether the message is
    /// complete.
    pub open spec fn body(self, body: Seq<u8>) -> Model<(Assembly, bool)> {
        let h = self.current->0;
        let after = Assembly {
            current: None,
            payload: self.payload + body,
            packets: self.packets.push(
                PacketDescriptor {
                    status: h.status,
                    packet_id: h.packet_id,
                    body_offset: self.payload.len() as usize,
                    body_bytes: body.len() as usize,
                },
            ),
            ..self
        };
        if h.status & 0x01 != 0 {
            Ok((after, true))
        } else if after.packets.len() > 65_536 {
            Err(ErrorView::Limit("TDS packets per message"@))
        } else {
            Ok((after, false))
        }
    }

    /// The complete message.
    pub open spec fn message(self) -> MessageView {
        MessageView {
            packet_type: self.first->0.packet_type,
            first_status: self.first->0.status,
            first_packet_id: self.first->0.packet_id,
            payload: self.payload,
            packet_count: self.packets.len() as u32,
            packets: self.packets,
        }
    }
}

impl Assembler {
    /// A message of which nothing has come in.
    pub fn new(max_packet: usize, max_message: usize) -> (assembler: Self)
        ensures
            assembler@ == empty_assembly(max_packet as int, max_message as int),
            assembler@.well_formed(),
    {
        Assembler {
            max_packet,
            max_message,
            first: None,
            current: None,
            payload: Vec::new(),
            packets: Vec::new(),
        }
    }

    /// A header comes in. The result is the number of bytes of the body to read next.
    pub fn header(&mut self, raw: [u8; 8]) -> (result: Result<usize>)
        requires
            old(self)@.well_formed(),
        ensures
            match old(self)@.header(raw@) {
                Ok((after, n)) => {
                    &&& result is Ok
                    &&& result->Ok_0 == n
                    &&& final(self)@ == after
                    &&& final(self)@.well_formed()
                },
                Err(e) => {
                    &&& result is Err
                    &&& result->Err_0@ == e
                    &&& final(self)@ == old(self)@
                },
            },
    {
        let h = Header::decode(raw, self.max_packet)?;
        if let Some(first) = self.first {
            if first.packet_type != h.packet_type {
                return Err(protocol("packet type changed inside a message"));
            }
        }
        let body: usize = h.length as usize - HEADER_LEN;
        if body > usize::MAX - self.payload.len() || self.payload.len() + body > self.max_message {
            return Err(Error::Limit("maximum reassembled TDS message size"));
        }
        if self.first.is_none() {
            self.first = Some(h);
        }
        self.current = Some(h);
        Ok(body)
    }

    /// The body of the awaited packet comes in. The result says whether the message is
    /// complete.
    pub fn body(&mut self, body: &[u8]) -> (result: Result<bool>)
        requires
            old(self)@.well_formed(),
            old(self)@.current is Some,
            body@.len() == old(self)@.current->0.length - 8,
        ensures
            match old(self)@.body(body@) {
                Ok((after, complete)) => {
                    &&& result is Ok
                    &&& result->Ok_0 == complete
                    &&& final(self)@ == after
                    &&& final(self)@.first is Some
                    &&& final(self)@.packets.len() <= 65_537
                    &&& !complete ==> final(self)@.well_formed()
                },
                Err(e) => result is Err && result->Err_0@ == e,
            },
    {
        let mut last = false;
        if let Some(h) = self.current {
            self.packets.push(
                PacketDescriptor {
                    status: h.status,
                    packet_id: h.packet_id,
                    body_offset: self.payload.len(),
                    body_bytes: body.len(),
                },
            );
            last = h.is_eom();
        }
        push_bytes(&mut self.payload, body);
        self.current = None;
        if last {
            return Ok(true);
        }
        if self.packets.len() > 65_536 {
            return Err(Error::Limit("TDS packets per message"));
        }
        Ok(false)
    }

    /// The complete message.
    pub fn finish(self) -> (message: Message)
        requires
            self@.first is Some,
            self@.packets.len() <= 65_537,
        ensures
            message@ == self@.message(),
    {
        let first = match self.first {
            Some(first) => first,
            None => Header {
                packet_type: 0,
                status: 0,
                length: 8,
                spid: 0,
                packet_id: 0,
                window: 0,
            },
        };
        Message {
            packet_type: first.packet_type,
            first_status: first.status,
            first_packet_id: first.packet_id,
            packet_count: self.packets.len() as u32,
            payload: self.payload,
            packets: self.packets,
        }
    }
}

// ---------------------------------------------------------------------------
// Multiplexed sessions

/// Session multiplexing is never negotiated, but a bounded run of its control frames is read,
/// up to the first frame that carries data or closes the session, before it is refused. A
/// client may queue a login behind them.
#[derive(Debug)]
pub struct SmpPrelude {
    pub frames: usize,
    pub wire_bytes: usize,
}

/// The model of a [`SmpPrelude`].
pub struct PreludeView {
    pub frames: int,
    pub wire_bytes: int,
}

impl View for SmpPrelude {
    type V = PreludeView;

    open spec fn view(&self) -> PreludeView {
        PreludeView { frames: self.frames as int, wire_bytes: self.wire_bytes as int }
    }
}

impl PreludeView {
    /// The first eight bytes of a frame come in: the number of bytes of the frame that
    /// follow.
    pub open spec fn header(self, raw: Seq<u8>, max_message: int) -> Model<(PreludeView, int)> {
        let length = u32_at(raw, 4) as int;
        if raw[0] != 0x53 {
            Err(ErrorView::Protocol("invalid SMP identifier 0x"@ + hex_byte(raw[0])))
        } else if length < 16 || length > max_message {
            Err(ErrorView::Protocol("invalid SMP frame length "@ + dec(length as nat)))
        } else if self.wire_bytes + length > usize::MAX || self.wire_bytes + length > max_message {
            Err(ErrorView::Limit("SMP ingress bytes"@))
        } else {
            Ok(
                (
                    PreludeView {
                        frames: self.frames + 1,
                        wire_bytes: self.wire_bytes + length,
                    },
                    length - 8,
                ),
            )
        }
    }

    /// The rest of a frame with the given flag has come in: whether another frame is read.
    pub open spec fn frame(self, flag: u8) -> Model<()> {
        if flag != 0x01 && flag != 0x02 {
            Err(ErrorView::Protocol("SMP/MARS frame received without MARS negotiation"@))
        } else if self.frames >= 256 {
            Err(ErrorView::Limit("SMP ingress frame count"@))
        } else {
            Ok(())
        }
    }
}

impl SmpPrelude {
    /// Before the first frame.
    pub fn new() -> (prelude: Self)
        ensures
            prelude@ == (PreludeView { frames: 0, wire_bytes: 0 }),
    {
        SmpPrelude { frames: 0, wire_bytes: 0 }
    }

    /// The first eight bytes of a frame come in. The result is the number of bytes of the
    /// frame to read next.
    pub fn header(&mut self, raw: [u8; 8], max_message: usize) -> (result: Result<usize>)
        requires
            old(self)@.frames < 256,
        ensures
            match old(self)@.header(raw@, max_message as int) {
                Ok((after, n)) => result is Ok && result->Ok_0 == n && final(self)@ == after,
                Err(e) => {
                    &&& result is Err
                    &&& result->Err_0@ == e
                    &&& final(self)@ == old(self)@
                },
            },
    {
        if raw[0] != 0x53 {
            return Err(
                Error::Protocol(cat2("invalid SMP identifier 0x", hex2(raw[0]).as_str())),
            );
        }
        let length: usize = read_u32(&raw, 4) as usize;
        if length < smp::HEADER_LEN || length > max_message {
            return Err(
                Error::Protocol(
                    cat2("invalid SMP frame length ", decimal(length as u128).as_str()),
                ),
            );
        }
        if length > usize::MAX - self.wire_bytes || self.wire_bytes + length > max_message {
            return Err(Error::Limit("SMP ingress bytes"));
        }
        self.wire_bytes = self.wire_bytes + length;
        self.frames = self.frames + 1;
        Ok(length - 8)
    }

    /// The rest of a frame with the given flag has come in. Where another frame is to be
    /// read, there is no error.
    pub fn frame(&self, flag: u8) -> (result: Result<()>)
        ensures
            match self@.frame(flag) {
                Ok(_) => result is Ok && self@.frames < 256,
                Err(e) => result is Err && result->Err_0@ == e,
            },
    {
        if flag != 0x01 && flag != 0x02 {
            return Err(protocol("SMP/MARS frame received without MARS negotiation"));
        }
        if self.frames >= 256 {
            return Err(Error::Limit("SMP ingress frame count"));
        }
        Ok(())
    }
}

// ---------------------------------------------------------------------------
// Reading from bytes

/// The frames of a multiplexed session from `p` on: always an end, unless more bytes are
/// needed.
pub open spec fn refusal_from(wire: Seq<u8>, p: int, max_message: int, prelude: PreludeView) -> Option<
    ErrorView,
>
    decreases 256 - prelude.frames,
{
    if p + 8 > wire.len() {
        None
    } else {
        let raw = wire.subrange(p, p + 8);
        match prelude.header(raw, max_message) {
            Err(e) => Some(e),
            Ok((after, n)) => if p + 8 + n > wire.len() {
                None
            } else {
                match after.frame(raw[1]) {
                    Err(e) => Some(e),
                    Ok(_) => refusal_from(wire, p + 8 + n, max_message, after),
                }
            },
        }
    }
}

/// The message that starts at `p`, behind what has come in already, and the place behind it;
/// nothing where more bytes are needed.
pub open spec fn message_from(wire: Seq<u8>, p: int, a: Assembly) -> Model<
    Option<(MessageView, int)>,
>
    decreases wire.len() - p,
{
    if p + 8 > wire.len() {
        Ok(None)
    } else {
        let raw = wire.subrange(p, p + 8);
        if raw[0] == 0x53 {
            match refusal_from(
                wire,
                p,
                a.max_message,
                PreludeView { frames: 0, wire_bytes: 0 },
            ) {
                Some(e) => Err(e),
                None => Ok(None),
            }
        } else {
            match a.header(raw) {
                Err(e) => Err(e),
                Ok((awaiting, n)) => if p + 8 + n > wire.len() {
                    Ok(None)
                } else {
                    match awaiting.body(wire.subrange(p + 8, p + 8 + n)) {
                        Err(e) => Err(e),
                        Ok((after, complete)) => if complete {
                            Ok(Some((after.message(), p + 8 + n)))
                        } else if n < 0 {
                            Ok(None)
                        } else {
                            message_from(wire, p + 8 + n, after)
                        },
                    }
                },
            }
        }
    }
}

fn eight(wire: &[u8], p: usize) -> (raw: [u8; 8])
    requires
        p + 8 <= wire.len(),
    ensures
        raw@ == wire@.subrange(p as int, p + 8),
{
    let raw = [
        wire[p],
        wire[p + 1],
        wire[p + 2],
        wire[p + 3],
        wire[p + 4],
        wire[p + 5],
        wire[p + 6],
        wire[p + 7],
    ];
    assert(raw@ =~= wire@.subrange(p as int, p + 8));
    raw
}

fn refuse_multiplexing(wire: &[u8], start: usize, max_message: usize) -> (refusal: Option<Error>)
    requires
        start <= wire.len(),
    ensures
        match refusal_from(
            wire@,
            start as int,
            max_message as int,
            PreludeView { frames: 0, wire_bytes: 0 },
        ) {
            Some(e) => refusal is Some && refusal->0@ == e,
            None => refusal is None,
        },
{
    let mut prelude = SmpPrelude::new();
    let mut p: usize = start;
    loop
        invariant
            p <= wire.len(),
            0 <= prelude@.frames < 256,
            refusal_from(
                wire@,
                start as int,
                max_message as int,
                PreludeView { frames: 0, wire_bytes: 0 },
            ) == refusal_from(wire@, p as int, max_message as int, prelude@),
        decreases 256 - prelude@.frames,
    {
        if wire.len() - p < 8 {
            return None;
        }
        let raw = eight(wire, p);
        let n: usize = match prelude.header(raw, max_message) {
            Ok(n) => n,
            Err(e) => {
                return Some(e);
            },
        };
        if wire.len() - p - 8 < n {
            return None;
        }
        if let Err(e) = prelude.frame(raw[1]) {
            return Some(e);
        }
        p = p + 8 + n;
    }
}

/// The message at the start of `wire`, and how many bytes it takes up; nothing where more
/// bytes are needed.
pub fn read_message(wire: &[u8], max_packet: usize, max_message: usize) -> (result: Result<
    Option<(Message, usize)>,
>)
    ensures
        match message_from(wire@, 0, empty_assembly(max_packet as int, max_message as int)) {
            Ok(Some((message, end))) => {
                &&& result is Ok
                &&& match result->Ok_0 {
                    Some((found, n)) => found@ == message && n == end,
                    None => false,
                }
            },
            Ok(None) => result is Ok && result->Ok_0 is None,
            Err(e) => result is Err && result->Err_0@ == e,
        },
{
    let mut assembler = Assembler::new(max_packet, max_message);
    let mut p: usize = 0;
    loop
        invariant
            p <= wire.len(),
            assembler@.well_formed(),
            assembler@.max_message == max_message,
            message_from(wire@, 0, empty_assembly(max_packet as int, max_message as int))
                == message_from(wire@, p as int, assembler@),
        decreases wire.len() - p,
    {
        if wire.len() - p < 8 {
            return Ok(None);
        }
        let raw = eight(wire, p);
        if raw[0] == 0x53 {
            return match refuse_multiplexing(wire, p, max_message) {
                Some(e) => Err(e),
                None => Ok(None),
            };
        }
        let n: usize = assembler.header(raw)?;
        if wire.len() - p - 8 < n {
            return Ok(None);
        }
        if assembler.body(&wire[p + 8..p + 8 + n])? {
            return Ok(Some((assembler.finish(), p + 8 + n)));
        }
        p = p + 8 + n;
    }
}

// ---------------------------------------------------------------------------
// Taking messages apart

/// The number of the packet behind the packet with number `id`: zero is left out.
pub open spec fn next_id(id: u8) -> u8 {
    if id == 255 {
        1
    } else {
        (id + 1) as u8
    }
}

/// A packet with `take` bytes of the payload from `offset` on.
pub open spec fn packet_bytes(packet_type: u8, payload: Seq<u8>, offset: int, take: int, id: u8) -> Seq<
    u8,
> {
    Header {
        packet_type,
        status: if offset + take == payload.len() {
            0x01u8
        } else {
            0
        },
        length: (8 + take) as u16,
        spid: 0,
        packet_id: id,
        window: 0,
    }.bytes() + payload.subrange(offset, offset + take)
}

/// The packets of a message from `offset` of its payload on, with at most `capacity` bytes
/// each.
pub open spec fn packets_from(
    packet_type: u8,
    payload: Seq<u8>,
    capacity: int,
    offset: int,
    id: u8,
) -> Seq<u8>
    decreases payload.len() - offset,
{
    if capacity <= 0 || payload.len() - offset <= capacity {
        packet_bytes(packet_type, payload, offset, payload.len() - offset, id)
    } else {
        packet_bytes(packet_type, payload, offset, capacity, id) + packets_from(
            packet_type,
            payload,
            capacity,
            offset + capacity,
            next_id(id),
        )
    }
}

/// The packets of a message.
pub open spec fn packets_of(packet_type: u8, payload: Seq<u8>, packet_size: int) -> Model<Seq<u8>> {
    if packet_size <= 8 || packet_size > 0xffff {
        Err(ErrorView::Config("invalid outbound TDS packet size"@))
    } else {
        Ok(packets_from(packet_type, payload, packet_size - 8, 0, 1))
    }
}

fn push_packet(
    out: &mut Vec<u8>,
    packet_type: u8,
    payload: &[u8],
    offset: usize,
    take: usize,
    id: u8,
)
    requires
        offset + take <= payload.len(),
        8 + take <= 0xffff,
    ensures
        final(out)@ == old(out)@ + packet_bytes(
            packet_type,
            payload@,
            offset as int,
            take as int,
            id,
        ),
{
    let header = Header {
        packet_type,
        status: if offset + take == payload.len() {
            STATUS_EOM
        } else {
            0
        },
        length: (HEADER_LEN + take) as u16,
        spid: 0,
        packet_id: id,
        window: 0,
    };
    push_bytes(out, &header.encode());
    push_bytes(out, &payload[offset..offset + take]);
    assert(out@ =~= old(out)@ + packet_bytes(
        packet_type,
        payload@,
        offset as int,
        take as int,
        id,
    ));
}

/// The packets of a message, each of at most `packet_size` bytes.
pub fn write_message(packet_type: u8, payload: &[u8], packet_size: usize) -> (result: Result<
    Vec<u8>,
>)
    ensures
        crate::error::outcome(result) == packets_of(packet_type, payload@, packet_size as int),
{
    if packet_size <= HEADER_LEN || packet_size > 0xffff {
        return Err(Error::Config("invalid outbound TDS packet size".to_owned()));
    }
    let capacity: usize = packet_size - HEADER_LEN;
    let mut out: Vec<u8> = Vec::new();
    let mut offset: usize = 0;
    let mut id: u8 = 1;
    let ghost whole = packets_from(packet_type, payload@, capacity as int, 0, 1);
    assert(out@ + whole =~= whole);
    while payload.len() - offset > capacity
        invariant
            1 <= capacity <= 0xffff - 8,
            offset <= payload.len(),
            out@ + packets_from(packet_type, payload@, capacity as int, offset as int, id) == whole,
        decreases payload.len() - offset,
    {
        let ghost before = out@;
        push_packet(&mut out, packet_type, payload, offset, capacity, id);
        id = if id == 255 {
            1
        } else {
            id + 1
        };
        offset = offset + capacity;
        assert(out@ + packets_from(packet_type, payload@, capacity as int, offset as int, id)
            =~= whole);
    }
    push_packet(&mut out, packet_type, payload, offset, payload.len() - offset, id);
    Ok(out)
}

// ---------------------------------------------------------------------------
// What holds of both

/// Whether reading gives a whole message of the type with the payload, and ends at `end`.
pub open spec fn gives(
    read: Model<Option<(MessageView, int)>>,
    packet_type: u8,
    payload: Seq<u8>,
    end: int,
) -> bool {
    match read {
        Ok(Some((message, place))) => {
            &&& message.packet_type == packet_type
            &&& message.payload == payload
            &&& place == end
        },
        _ => false,
    }
}

proof fn lemma_reads_back(
    wire: Seq<u8>,
    p: int,
    a: Assembly,
    packet_type: u8,
    payload: Seq<u8>,
    capacity: int,
    offset: int,
    id: u8,
)
    requires
        0 <= p <= wire.len(),
        wire.subrange(p, wire.len() as int) == packets_from(
            packet_type,
            payload,
            capacity,
            offset,
            id,
        ),
        0 <= offset <= payload.len() <= a.max_message <= usize::MAX,
        1 <= capacity <= 0xffff - 8,
        capacity + 8 <= a.max_packet,
        packet_type != 0x53,
        a.first matches Some(f) ==> f.packet_type == packet_type,
        a.payload == payload.subrange(0, offset),
        a.packets.len() * capacity <= offset,
        payload.len() <= 65_537 * capacity,
    ensures
        gives(message_from(wire, p, a), packet_type, payload, wire.len() as int),
    decreases payload.len() - offset,
{
    let rest = wire.subrange(p, wire.len() as int);
    let left = payload.len() - offset;
    let take = if left <= capacity {
        left
    } else {
        capacity
    };
    let last = offset + take == payload.len();
    let h = Header {
        packet_type,
        status: if last {
            0x01u8
        } else {
            0
        },
        length: (8 + take) as u16,
        spid: 0,
        packet_id: id,
        window: 0,
    };
    let packet = packet_bytes(packet_type, payload, offset, take, id);
    assert(packet.len() == 8 + take);
    assert(rest.len() >= packet.len());
    assert(rest.subrange(0, packet.len() as int) =~= packet);
    let raw = wire.subrange(p, p + 8);
    assert(raw =~= packet.subrange(0, 8));
    assert(raw =~= h.bytes());
    lemma_header_round_trip(h, raw, a.max_packet);
    let body = wire.subrange(p + 8, p + 8 + take);
    assert(body =~= packet.subrange(8, 8 + take));
    assert(body =~= payload.subrange(offset, offset + take));
    assert(a.payload + body =~= payload.subrange(0, offset + take));
    let one: u8 = 1;
    let zero: u8 = 0;
    assert(one & 0x01 != 0 && zero & 0x01 == 0) by (bit_vector)
        requires
            one == 1 && zero == 0,
    ;
    let (awaiting, n) = a.header(raw)->Ok_0;
    assert(n == take);
    if last {
        assert(payload.subrange(0, offset + take) =~= payload);
        assert(left <= capacity);
        assert(wire.len() == p + 8 + take);
    } else {
        assert(a.packets.len() < 65_536) by (nonlinear_arith)
            requires
                a.packets.len() * capacity <= offset,
                offset + capacity < 65_537 * capacity,
                capacity >= 1,
        ;
        let (after, complete) = awaiting.body(body)->Ok_0;
        assert(after.packets.len() * capacity <= offset + capacity) by (nonlinear_arith)
            requires
                after.packets.len() == a.packets.len() + 1,
                a.packets.len() * capacity <= offset,
        ;
        let q = p + 8 + take;
        assert(wire.subrange(q, wire.len() as int) =~= rest.subrange(
            packet.len() as int,
            rest.len() as int,
        ));
        assert(wire.subrange(q, wire.len() as int) =~= packets_from(
            packet_type,
            payload,
            capacity,
            offset + capacity,
            next_id(id),
        ));
        lemma_reads_back(
            wire,
            q,
            after,
            packet_type,
            payload,
            capacity,
            offset + capacity,
            next_id(id),
        );
    }
}

/// Reading the packets of a message gives the message back, to the last byte: every message
/// within the limits whose type is not the mark of a multiplexed session.
pub proof fn lemma_message_round_trip(
    packet_type: u8,
    payload: Seq<u8>,
    packet_size: int,
    max_packet: int,
    max_message: int,
)
    requires
        8 < packet_size <= 0xffff,
        packet_size <= max_packet,
        payload.len() <= max_message <= usize::MAX,
        payload.len() <= 65_537 * (packet_size - 8),
        packet_type != 0x53,
    ensures
        ({
            let wire = packets_of(packet_type, payload, packet_size)->Ok_0;
            let read = message_from(wire, 0, empty_assembly(max_packet, max_message));
            &&& packets_of(packet_type, payload, packet_size) is Ok
            &&& gives(read, packet_type, payload, wire.len() as int)
        }),
{
    let wire = packets_of(packet_type, payload, packet_size)->Ok_0;
    assert(wire.subrange(0, wire.len() as int) =~= wire);
    assert(payload.subrange(0, 0) =~= seq![]);
    lemma_reads_back(
        wire,
        0,
        empty_assembly(max_packet, max_message),
        packet_type,
        payload,
        packet_size - 8,
        0,
        1,
    );
}

/// The number of a packet says nothing about the message that is put together: a header with
/// another number is accepted or refused alike, awaits as many bytes, and leads to the same
/// payload, complete or not.
pub proof fn lemma_packet_ids_do_not_matter(a: Assembly, raw: Seq<u8>, id: u8, body: Seq<u8>)
    requires
        raw.len() == 8,
    ensures
        match (a.header(raw), a.header(raw.update(6, id))) {
            (Ok((x, n)), Ok((y, m))) => {
                &&& n == m
                &&& match (x.body(body), y.body(body)) {
                    (Ok((s, complete)), Ok((t, other))) => s.payload == t.payload && complete
                        == other,
                    (Err(e), Err(f)) => e == f,
                    _ => false,
                }
            },
            (Err(_), Err(_)) => true,
            _ => false,
        },
{
}

/// Whether the packets of a message account for `n` bytes of it, one behind the other.
pub open spec fn packets_cover(packets: Seq<PacketDescriptor>, n: nat) -> bool
    decreases packets.len(),
{
    if packets.len() == 0 {
        n == 0
    } else {
        let last = packets.last();
        &&& last.body_offset + last.body_bytes == n
        &&& packets_cover(packets.drop_last(), last.body_offset as nat)
    }
}

proof fn lemma_packets_cover_from(wire: Seq<u8>, p: int, a: Assembly)
    requires
        0 <= p,
        packets_cover(a.packets, a.payload.len()),
        a.packets.len() <= 65_536,
    ensures
        message_from(wire, p, a) matches Ok(Some((message, _))) ==> packets_cover(
            message.packets,
            message.payload.len(),
        ) && message.packet_count == message.packets.len(),
    decreases wire.len() - p,
{
    if p + 8 <= wire.len() && wire[p] != 0x53 {
        if let Ok((awaiting, n)) = a.header(wire.subrange(p, p + 8)) {
            if n >= 0 && p + 8 + n <= wire.len() {
                if let Ok((after, complete)) = awaiting.body(wire.subrange(p + 8, p + 8 + n)) {
                    assert(after.packets.drop_last() =~= a.packets);
                    if !complete {
                        lemma_packets_cover_from(wire, p + 8 + n, after);
                    }
                }
            }
        }
    }
}

/// Every packet of a message is accounted for: their bodies, in order and without gaps, are
/// the message.
pub proof fn lemma_packets_cover_the_message(wire: Seq<u8>, max_packet: int, max_message: int)
    ensures
        message_from(wire, 0, empty_assembly(max_packet, max_message)) matches Ok(
            Some((message, _)),
        ) ==> packets_cover(message.packets, message.payload.len()) && message.packet_count
            == message.packets.len(),
{
    lemma_packets_cover_from(wire, 0, empty_assembly(max_packet, max_message));
}

} // verus!
