//! The frames that go into and come out of the H.264 encoder.
use vstd::prelude::*;

use std::collections::VecDeque;

use crate::text::{push_dec, push_str, string_of};

verus! {

/// The encoder implementation in use.
#[derive(Debug, Clone, Copy, PartialEq, Eq)]
pub enum EncoderBackend {
    Vaapi,
    Software,
}

/// Layout of a captured pixel.
#[derive(Debug, Clone, Copy, PartialEq, Eq)]
pub enum RawPixelFormat {
    Bgra,
    Rgba,
}

impl RawPixelFormat {
    /// Bytes that one pixel takes: four for both layouts.
    pub fn bytes_per_pixel(self) -> (n: usize)
        ensures
            n == 4,
    {
        4
    }
}

/// A captured frame, tightly packed.
#[derive(Debug, Clone)]
pub struct RawFrame {
    pub data: Vec<u8>,
    pub width: u32,
    pub height: u32,
    pub stride: usize,
    pub format: RawPixelFormat,
}

impl RawFrame {
    /// A frame whose rows are `width` pixels long with no padding.
    pub fn new(data: Vec<u8>, width: u32, height: u32, format: RawPixelFormat) -> (f: Self)
        requires
            width * 4 <= usize::MAX,
        ensures
            f.data@ == data@,
            f.width == width,
            f.height == height,
            f.stride == width * 4,
            f.format == format,
    {
        let stride = width as usize * format.bytes_per_pixel();
        RawFrame { data, width, height, stride, format }
    }
}

/// Byte stream format of encoded frames.
#[derive(Debug, Clone, Copy, PartialEq, Eq)]
pub enum EncodedFormat {
    /// NAL units delimited by start codes.
    AnnexB,
}

/// One encoded access unit.
#[derive(Debug, Clone)]
pub struct EncodedFrame {
    pub data: Vec<u8>,
    pub is_keyframe: bool,
    pub format: EncodedFormat,
}

/// Encoder settings.
#[derive(Debug)]
pub struct H264Config {
    pub prefer_vaapi: bool,
}

/// The backend an encoder runs on: software, whatever the settings prefer, as
/// hardware encoding is not offered.
pub fn choose_backend(config: &H264Config) -> (b: EncoderBackend)
    ensures
        b == EncoderBackend::Software,
{
    EncoderBackend::Software
}

/// Whether a frame's rows are tightly packed, as the encoder needs.
pub fn check_packed(raw: &RawFrame) -> (r: Result<(), String>)
    ensures
        r is Ok <==> raw.stride == raw.width * 4,
        r matches Err(e) ==> e@ == "Encoder expects tightly packed BGRA/RGBA data"@,
{
    let expected = raw.width as u64 * 4;
    if raw.stride as u64 != expected {
        return Err(String::from_str("Encoder expects tightly packed BGRA/RGBA data"));
    }
    Ok(())
}

pub open spec fn plane_error(plane_len: nat, data_len: nat) -> Option<Seq<char>> {
    if plane_len == 0 {
        Some("Input frame plane 0 is empty"@)
    } else if plane_len != data_len {
        Some(
            "Input plane length mismatch: plane0="@ + crate::text::dec(plane_len) + " raw="@
                + crate::text::dec(data_len),
        )
    } else {
        None
    }
}

/// Whether the encoder's input plane can take a frame's bytes as they are.
pub fn check_plane(plane_len: usize, data_len: usize) -> (r: Result<(), String>)
    ensures
        match plane_error(plane_len as nat, data_len as nat) {
            None => r is Ok,
            Some(m) => r matches Err(e) && e@ == m,
        },
{
    if plane_len == 0 {
        return Err(String::from_str("Input frame plane 0 is empty"));
    }
    if plane_len != data_len {
        let mut cs: Vec<char> = Vec::new();
        push_str(&mut cs, "Input plane length mismatch: plane0=");
        push_dec(&mut cs, plane_len as u64);
        push_str(&mut cs, " raw=");
        push_dec(&mut cs, data_len as u64);
        return Err(string_of(&cs));
    }
    Ok(())
}

pub struct EncodedFrameView {
    pub data: Seq<u8>,
    pub is_keyframe: bool,
    pub format: EncodedFormat,
}

impl View for EncodedFrame {
    type V = EncodedFrameView;

    open spec fn view(&self) -> EncodedFrameView {
        EncodedFrameView { data: self.data@, is_keyframe: self.is_keyframe, format: self.format }
    }
}

/// An encoded frame from the bytes of one packet the encoder gave out.
pub fn frame_from_packet(data: Option<Vec<u8>>, is_keyframe: bool) -> (r: Result<EncodedFrame, String>)
    ensures
        match data {
            None => r matches Err(e) && e@ == "Encoded packet missing data"@,
            Some(d) => if d@.len() == 0 {
                r matches Err(e) && e@ == "Encoded packet was empty"@
            } else {
                r matches Ok(f) && f@ == (EncodedFrameView {
                    data: d@,
                    is_keyframe,
                    format: EncodedFormat::AnnexB,
                })
            },
        },
{
    match data {
        None => Err(String::from_str("Encoded packet missing data")),
        Some(d) => {
            if d.len() == 0 {
                Err(String::from_str("Encoded packet was empty"))
            } else {
                Ok(EncodedFrame { data: d, is_keyframe, format: EncodedFormat::AnnexB })
            }
        },
    }
}

/// Encoded frames not handed out yet, oldest first.
pub struct PendingFrames {
    frames: VecDeque<EncodedFrame>,
}

impl View for PendingFrames {
    type V = Seq<EncodedFrameView>;

    closed spec fn view(&self) -> Seq<EncodedFrameView> {
        self.frames@.map_values(|f: EncodedFrame| f@)
    }
}

impl PendingFrames {
    pub fn new() -> (q: Self)
        ensures
            q@ == Seq::<EncodedFrameView>::empty(),
    {
        let q = PendingFrames { frames: VecDeque::new() };
        assert(q@ =~= Seq::<EncodedFrameView>::empty());
        q
    }

    pub fn len(&self) -> (n: usize)
        ensures
            n == self@.len(),
    {
        self.frames.len()
    }

    /// Queues a frame after the others.
    pub fn push_back(&mut self, frame: EncodedFrame)
        ensures
            final(self)@ == old(self)@.push(frame@),
    {
        self.frames.push_back(frame);
        assert(self@ =~= old(self)@.push(frame@));
    }

    /// Takes the oldest frame out.
    pub fn pop_front(&mut self) -> (r: Option<EncodedFrame>)
        ensures
            old(self)@.len() == 0 ==> r is None && final(self)@ == old(self)@,
            old(self)@.len() > 0 ==> (r matches Some(f) && f@ == old(self)@[0] && final(self)@
                == old(self)@.drop_first()),
    {
        let r = self.frames.pop_front();
        proof {
            if r is Some {
                assert(self@ =~= old(self)@.drop_first());
            }
        }
        r
    }

    /// The oldest frame once the encoder has been drained, or why there is none.
    pub fn next_encoded(&mut self) -> (r: Result<EncodedFrame, String>)
        ensures
            old(self)@.len() == 0 ==> final(self)@ == old(self)@ && (r matches Err(e) && e@
                == "No encoded packets produced"@),
            old(self)@.len() > 0 ==> (r matches Ok(f) && f@ == old(self)@[0] && final(self)@
                == old(self)@.drop_first()),
    {
        match self.pop_front() {
            Some(f) => Ok(f),
            None => Err(String::from_str("No encoded packets produced")),
        }
    }
}

} // verus!
