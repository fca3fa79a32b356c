//! Frames of the session multiplex protocol.
use crate::bytes::{read_u16, read_u32, u16_at, u32_at};
use crate::error::{protocol, Error, ErrorView, Model, Result};
use crate::text::{
    cat2, dec, decimal, hex2, hex_byte, lemma_views_empty, lemma_views_push, opt_view, views,
};
use vstd::prelude::*;

verus! {

broadcast use {lemma_views_push, lemma_views_empty};

/// The length of the header of a frame.
pub const HEADER_LEN: usize = 16;

/// A frame.
#[derive(Debug, PartialEq, Eq)]
pub struct Frame {
    pub flag: u8,
    pub flag_name: &'static str,
    pub session_id: u16,
    pub length: u32,
    pub sequence: u32,
    pub window: u32,
    pub data_bytes: usize,
}

/// The model of a [`Frame`].
pub struct FrameView {
    pub flag: u8,
    pub flag_name: Seq<char>,
    pub session_id: u16,
    pub length: u32,
    pub sequence: u32,
    pub window: u32,
    pub data_bytes: usize,
}

impl View for Frame {
    type V = FrameView;

    open spec fn view(&self) -> FrameView {
        FrameView {
            flag: self.flag,
            flag_name: self.flag_name@,
            session_id: self.session_id,
            length: self.length,
            sequence: self.sequence,
            window: self.window,
            data_bytes: self.data_bytes,
        }
    }
}

/// The name of the one flag that a frame has.
pub open spec fn flag_name_of(flag: u8) -> Option<Seq<char>> {
    match flag {
        0x01 => Some("syn"@),
        0x02 => Some("ack"@),
        0x04 => Some("fin"@),
        0x08 => Some("data"@),
        _ => None,
    }
}

fn flag_name(flag: u8) -> (name: Option<&'static str>)
    ensures
        opt_view(name) == flag_name_of(flag),
{
    match flag {
        0x01 => Some("syn"),
        0x02 => Some("ack"),
        0x04 => Some("fin"),
        0x08 => Some("data"),
        _ => None,
    }
}

/// The frame at `p`. Only a data frame is longer than its header.
pub open spec fn frame_at(input: Seq<u8>, p: int, max: int) -> Model<FrameView> {
    if p + 16 > input.len() {
        Err(ErrorView::Protocol("truncated SMP header"@))
    } else if input[p] != 0x53 {
        Err(ErrorView::Protocol("invalid SMP identifier 0x"@ + hex_byte(input[p])))
    } else {
        match flag_name_of(input[p + 1]) {
            None => Err(
                ErrorView::Protocol("invalid combined SMP flags 0x"@ + hex_byte(input[p + 1])),
            ),
            Some(flag_name) => {
                let length = u32_at(input, p + 4);
                if length < 16 || length > max {
                    Err(ErrorView::Protocol("invalid SMP frame length "@ + dec(length as nat)))
                } else if input[p + 1] != 8 && length != 16 {
                    Err(ErrorView::Protocol("SMP control packet contains data"@))
                } else if p + length > usize::MAX {
                    Err(ErrorView::Limit("SMP frame offset"@))
                } else if p + length > input.len() {
                    Err(ErrorView::Protocol("truncated SMP frame"@))
                } else {
                    Ok(
                        FrameView {
                            flag: input[p + 1],
                            flag_name,
                            session_id: u16_at(input, p + 2),
                            length,
                            sequence: u32_at(input, p + 8),
                            window: u32_at(input, p + 12),
                            data_bytes: (length - 16) as usize,
                        },
                    )
                }
            },
        }
    }
}

/// The frames from `p` on, behind `before`.
pub open spec fn frames_from(input: Seq<u8>, p: int, max: int, before: Seq<FrameView>) -> Model<
    Seq<FrameView>,
>
    decreases input.len() - p,
{
    if p >= input.len() {
        Ok(before)
    } else {
        match frame_at(input, p, max) {
            Err(e) => Err(e),
            Ok(frame) => if before.len() + 1 > 65_536 {
                Err(ErrorView::Limit("SMP frame count"@))
            } else if frame.length == 0 {
                Ok(before)
            } else {
                frames_from(input, p + frame.length, max, before.push(frame))
            },
        }
    }
}

fn parse_frame(input: &[u8], p: usize, max_frame: usize) -> (result: Result<Frame>)
    requires
        p <= input.len(),
    ensures
        crate::error::outcome(result) == frame_at(input@, p as int, max_frame as int),
        result matches Ok(frame) ==> 16 <= frame.length && p + frame.length <= input.len(),
{
    if input.len() - p < HEADER_LEN {
        return Err(protocol("truncated SMP header"));
    }
    if input[p] != 0x53 {
        return Err(
            Error::Protocol(cat2("invalid SMP identifier 0x", hex2(input[p]).as_str())),
        );
    }
    let flag: u8 = input[p + 1];
    let name = match flag_name(flag) {
        Some(name) => name,
        None => {
            return Err(
                Error::Protocol(cat2("invalid combined SMP flags 0x", hex2(flag).as_str())),
            );
        },
    };
    let length: u32 = read_u32(input, p + 4);
    let bytes: usize = length as usize;
    if bytes < HEADER_LEN || bytes > max_frame {
        return Err(
            Error::Protocol(cat2("invalid SMP frame length ", decimal(length as u128).as_str())),
        );
    }
    if flag != 0x08 && bytes != HEADER_LEN {
        return Err(protocol("SMP control packet contains data"));
    }
    if bytes > usize::MAX - p {
        return Err(Error::Limit("SMP frame offset"));
    }
    if p + bytes > input.len() {
        return Err(protocol("truncated SMP frame"));
    }
    Ok(
        Frame {
            flag,
            flag_name: name,
            session_id: read_u16(input, p + 2),
            length,
            sequence: read_u32(input, p + 8),
            window: read_u32(input, p + 12),
            data_bytes: bytes - HEADER_LEN,
        },
    )
}

/// The frames in a byte sequence.
pub fn parse(input: &[u8], max_frame: usize) -> (result: Result<Vec<Frame>>)
    ensures
        match frames_from(input@, 0, max_frame as int, seq![]) {
            Ok(frames) => result is Ok && views(result->Ok_0@) == frames,
            Err(e) => result is Err && result->Err_0@ == e,
        },
{
    let mut frames: Vec<Frame> = Vec::new();
    let mut p: usize = 0;
    while p < input.len()
        invariant
            p <= input.len(),
            frames.len() <= 65_536,
            frames_from(input@, 0, max_frame as int, seq![]) == frames_from(
                input@,
                p as int,
                max_frame as int,
                views(frames@),
            ),
        decreases input.len() - p,
    {
        let frame = parse_frame(input, p, max_frame)?;
        let length: usize = frame.length as usize;
        frames.push(frame);
        if frames.len() > 65_536 {
            return Err(Error::Limit("SMP frame count"));
        }
        p = p + length;
    }
    Ok(frames)
}

// ---------------------------------------------------------------------------
// Laws

/// The bytes that frames take up.
pub open spec fn frame_bytes(frames: Seq<FrameView>) -> int
    decreases frames.len(),
{
    if frames.len() == 0 {
        0
    } else {
        frame_bytes(frames.drop_last()) + frames.last().length
    }
}

proof fn lemma_frames_cover_from(input: Seq<u8>, p: int, max: int, before: Seq<FrameView>)
    requires
        0 <= p <= input.len(),
        frame_bytes(before) == p,
    ensures
        frames_from(input, p, max, before) matches Ok(frames) ==> frame_bytes(frames)
            == input.len(),
    decreases input.len() - p,
{
    if p < input.len() {
        match frame_at(input, p, max) {
            Ok(frame) => {
                assert(before.push(frame).drop_last() =~= before);
                lemma_frames_cover_from(input, p + frame.length, max, before.push(frame));
            },
            Err(_) => {},
        }
    }
}

/// Frames that are accepted take up the whole input, without a gap and without a rest.
pub proof fn lemma_frames_cover_input(input: Seq<u8>, max: int)
    ensures
        frames_from(input, 0, max, seq![]) matches Ok(frames) ==> frame_bytes(frames)
            == input.len(),
{
    lemma_frames_cover_from(input, 0, max, seq![]);
}

} // verus!
