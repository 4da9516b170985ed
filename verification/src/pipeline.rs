//! Video frames passed between media services: the header that opens a
//! frame, and the decisions of the services that push frames through a
//! media pipeline and sink them.
use vstd::prelude::*;

verus! {

/// The bytes of a frame header.
pub const FRAME_HEADER_SIZE: usize = 10;

/// The header version that frames are written with.
pub const MULTIMEDIA_VERSION: u8 = 1;

/// The code of raw video.
pub const FORMAT_RAW: u8 = 0;

/// The header of a video frame: the header version, the code of the video
/// format, the picture's size and flags, whose lowest bit marks a key frame.
#[derive(PartialEq, Eq, Structural, Clone, Copy, Debug)]
pub struct FrameHeader {
    pub version: u8,
    pub format: u8,
    pub width: u16,
    pub height: u16,
    pub flags: u8,
}

/// A header's bytes: the magic `EVS`, then its fields, little-endian.
pub open spec fn header_bytes(h: FrameHeader) -> Seq<u8> {
    seq![
        0x45u8,
        0x56u8,
        0x53u8,
        h.version,
        h.format,
        (h.width % 256) as u8,
        (h.width / 256) as u8,
        (h.height % 256) as u8,
        (h.height / 256) as u8,
        h.flags,
    ]
}

/// The header that opens `b`, where `b` holds ten bytes at least and opens
/// with the magic.
pub open spec fn header_of(b: Seq<u8>) -> Option<FrameHeader> {
    if b.len() < 10 || b[0] != 0x45 || b[1] != 0x56 || b[2] != 0x53 {
        None
    } else {
        Some(
            FrameHeader {
                version: b[3],
                format: b[4],
                width: (b[5] + 256 * b[6]) as u16,
                height: (b[7] + 256 * b[8]) as u16,
                flags: b[9],
            },
        )
    }
}

/// Whether the code names a video format: raw video, H.264, H.265, VP8, VP9
/// or AV1.
pub open spec fn known_format(code: u8) -> bool {
    code == 0 || (10 <= code <= 14)
}

impl FrameHeader {
    /// A header of the current version for a picture, with no flag set.
    pub fn new(format: u8, width: u16, height: u16) -> (r: FrameHeader)
        ensures
            r == (FrameHeader { version: MULTIMEDIA_VERSION, format, width, height, flags: 0 }),
    {
        FrameHeader { version: MULTIMEDIA_VERSION, format, width, height, flags: 0 }
    }

    /// Marks the frame as a key frame.
    pub fn set_key_frame(&mut self)
        ensures
            *final(self) == (FrameHeader { flags: old(self).flags | 1u8, ..*old(self) }),
    {
        self.flags = self.flags | 1u8;
    }

    /// Whether the frame is a key frame.
    pub fn is_key_frame(&self) -> (r: bool)
        ensures
            r == (self.flags & 1u8 != 0),
    {
        self.flags & 1u8 != 0
    }

    /// Whether the header has the current version.
    pub fn is_version_valid(&self) -> (r: bool)
        ensures
            r == (self.version == MULTIMEDIA_VERSION),
    {
        self.version == MULTIMEDIA_VERSION
    }

    /// The header's bytes.
    pub fn to_bytes(&self) -> (r: Vec<u8>)
        ensures
            r@ == header_bytes(*self),
    {
        let v: Vec<u8> = vec![
            0x45u8,
            0x56u8,
            0x53u8,
            self.version,
            self.format,
            (self.width % 256) as u8,
            (self.width / 256) as u8,
            (self.height % 256) as u8,
            (self.height / 256) as u8,
            self.flags,
        ];
        assert(v@ =~= header_bytes(*self));
        v
    }
}

/// Reads the header that opens `b`.
pub fn parse_frame_header(b: &[u8]) -> (r: Option<FrameHeader>)
    ensures
        r == header_of(b@),
{
    if b.len() < 10 || b[0] != 0x45 || b[1] != 0x56 || b[2] != 0x53 {
        None
    } else {
        let width: u16 = (b[5] as u16) + 256 * (b[6] as u16);
        let height: u16 = (b[7] as u16) + 256 * (b[8] as u16);
        Some(FrameHeader { version: b[3], format: b[4], width, height, flags: b[9] })
    }
}

/// A header read back from its bytes is the header written.
pub proof fn law_header_roundtrip(h: FrameHeader, rest: Seq<u8>)
    ensures
        header_of(header_bytes(h) + rest) == Some(h),
{
    let b = header_bytes(h) + rest;
    assert(b[5] + 256 * b[6] == h.width);
    assert(b[7] + 256 * b[8] == h.height);
    assert(header_of(b) == Some(h));
}

/// The name that a format code is shown by, or `None` for an unknown code.
pub fn format_name(code: u8) -> (r: Option<&'static str>)
    ensures
        r is Some <==> known_format(code),
        code == 0 ==> r == Some("video/x-raw"),
        code == 10 ==> r == Some("video/x-h264"),
        code == 11 ==> r == Some("video/x-h265"),
        code == 12 ==> r == Some("video/x-vp8"),
        code == 13 ==> r == Some("video/x-vp9"),
        code == 14 ==> r == Some("video/x-av1"),
{
    match code {
        0 => Some("video/x-raw"),
        10 => Some("video/x-h264"),
        11 => Some("video/x-h265"),
        12 => Some("video/x-vp8"),
        13 => Some("video/x-vp9"),
        14 => Some("video/x-av1"),
        _ => None,
    }
}

/// A frame that a pipeline hands out: the header of the destination format,
/// marked as a key frame where the buffer is one, then the buffer's data.
pub open spec fn out_frame_bytes(h: FrameHeader, key: bool, data: Seq<u8>) -> Seq<u8> {
    header_bytes(
        if key {
            FrameHeader { flags: h.flags | 1u8, ..h }
        } else {
            h
        },
    ) + data
}

/// Builds the frame that a pipeline hands out.
pub fn out_frame(h: &FrameHeader, key: bool, data: &[u8]) -> (r: Vec<u8>)
    ensures
        r@ == out_frame_bytes(*h, key, data@),
{
    let mut header = *h;
    if key {
        header.set_key_frame();
    }
    let mut r = header.to_bytes();
    let mut i: usize = 0;
    while i < data.len()
        invariant
            i <= data@.len(),
            header == (if key {
                FrameHeader { flags: h.flags | 1u8, ..*h }
            } else {
                *h
            }),
            r@ == header_bytes(header) + data@.take(i as int),
        decreases data@.len() - i,
    {
        r.push(data[i]);
        i = i + 1;
        assert(r@ =~= header_bytes(header) + data@.take(i as int));
    }
    assert(data@.take(data@.len() as int) =~= data@);
    r
}

/// What is done with the frame that a pipeline waits on to start.
#[derive(PartialEq, Eq, Structural, Clone, Copy, Debug)]
pub enum FirstFrame {
    /// Go on waiting.
    Wait,
    /// Start with this source header.
    Start(FrameHeader),
    /// The header's format code is unknown: the pipeline fails.
    Fail,
}

/// The pipeline starts on a frame with more than a header whose header reads,
/// and is a key frame or raw video; a frame that is neither, with an unknown
/// format code, fails it.
pub open spec fn first_frame_spec(b: Seq<u8>) -> FirstFrame {
    if b.len() <= 10 {
        FirstFrame::Wait
    } else {
        match header_of(b) {
            None => FirstFrame::Wait,
            Some(h) => if h.flags & 1u8 != 0 {
                FirstFrame::Start(h)
            } else if !known_format(h.format) {
                FirstFrame::Fail
            } else if h.format != FORMAT_RAW {
                FirstFrame::Wait
            } else {
                FirstFrame::Start(h)
            },
        }
    }
}

/// Decides on a frame that the pipeline waits on to start.
pub fn first_frame_step(b: &[u8]) -> (r: FirstFrame)
    ensures
        r == first_frame_spec(b@),
{
    if b.len() <= FRAME_HEADER_SIZE {
        return FirstFrame::Wait;
    }
    match parse_frame_header(b) {
        None => FirstFrame::Wait,
        Some(h) => {
            if h.is_key_frame() {
                FirstFrame::Start(h)
            } else if format_name(h.format).is_none() {
                FirstFrame::Fail
            } else if h.format != FORMAT_RAW {
                FirstFrame::Wait
            } else {
                FirstFrame::Start(h)
            }
        },
    }
}

/// What is done with a frame once the pipeline runs.
#[derive(PartialEq, Eq, Structural, Clone, Copy, Debug)]
pub enum NextFrame {
    /// No data after the header: the end of the stream is marked.
    Eof,
    /// The header does not read: the pipeline fails.
    Invalid,
    /// The picture's size or format changed: the end of the stream is
    /// marked and the pipeline fails.
    CapsChanged,
    /// The data goes into the pipeline.
    Push,
}

/// The decision on a frame once the pipeline runs with the source header
/// `first`.
pub open spec fn next_frame_spec(b: Seq<u8>, first: FrameHeader) -> NextFrame {
    if b.len() <= 10 {
        NextFrame::Eof
    } else {
        match header_of(b) {
            None => NextFrame::Invalid,
            Some(h) => if h.width != first.width || h.height != first.height || h.format
                != first.format {
                NextFrame::CapsChanged
            } else {
                NextFrame::Push
            },
        }
    }
}

/// Decides on a frame once the pipeline runs.
pub fn next_frame_step(b: &[u8], first: &FrameHeader) -> (r: NextFrame)
    ensures
        r == next_frame_spec(b@, *first),
{
    if b.len() <= FRAME_HEADER_SIZE {
        return NextFrame::Eof;
    }
    match parse_frame_header(b) {
        None => NextFrame::Invalid,
        Some(h) => {
            if h.width != first.width || h.height != first.height || h.format != first.format {
                NextFrame::CapsChanged
            } else {
                NextFrame::Push
            }
        },
    }
}

/// The state of a media pipeline, from the code that the media framework
/// reports.
#[derive(PartialEq, Eq, Structural, Clone, Copy, Debug)]
pub enum PipelineState {
    VoidPending,
    Null,
    Ready,
    Paused,
    Playing,
    Unknown,
}

/// The state that a code stands for.
pub open spec fn state_of(code: i32) -> PipelineState {
    if code == 0 {
        PipelineState::VoidPending
    } else if code == 1 {
        PipelineState::Null
    } else if code == 2 {
        PipelineState::Ready
    } else if code == 3 {
        PipelineState::Paused
    } else if code == 4 {
        PipelineState::Playing
    } else {
        PipelineState::Unknown
    }
}

impl PipelineState {
    /// The state that `code` stands for; codes past the known ones are
    /// `Unknown`.
    pub fn from_code(code: i32) -> (r: PipelineState)
        ensures
            r == state_of(code),
    {
        match code {
            0 => PipelineState::VoidPending,
            1 => PipelineState::Null,
            2 => PipelineState::Ready,
            3 => PipelineState::Paused,
            4 => PipelineState::Playing,
            _ => PipelineState::Unknown,
        }
    }

    /// The state's code; `Unknown` is -1.
    pub fn code(&self) -> (r: i32)
        ensures
            r == (match *self {
                PipelineState::VoidPending => 0i32,
                PipelineState::Null => 1i32,
                PipelineState::Ready => 2i32,
                PipelineState::Paused => 3i32,
                PipelineState::Playing => 4i32,
                PipelineState::Unknown => -1i32,
            }),
    {
        match self {
            PipelineState::VoidPending => 0,
            PipelineState::Null => 1,
            PipelineState::Ready => 2,
            PipelineState::Paused => 3,
            PipelineState::Playing => 4,
            PipelineState::Unknown => -1,
        }
    }

    /// The state's name, as reported.
    pub fn as_str(&self) -> (r: &'static str)
        ensures
            r@ == (match *self {
                PipelineState::VoidPending => "void_pending"@,
                PipelineState::Null => "null"@,
                PipelineState::Ready => "ready"@,
                PipelineState::Paused => "paused"@,
                PipelineState::Playing => "playing"@,
                PipelineState::Unknown => "unknown"@,
            }),
    {
        match self {
            PipelineState::VoidPending => "void_pending",
            PipelineState::Null => "null",
            PipelineState::Ready => "ready",
            PipelineState::Paused => "paused",
            PipelineState::Playing => "playing",
            PipelineState::Unknown => "unknown",
        }
    }
}

/// A state read back from its code is the state.
pub proof fn law_state_code_roundtrip(s: PipelineState)
    ensures
        state_of(
            match s {
                PipelineState::VoidPending => 0i32,
                PipelineState::Null => 1i32,
                PipelineState::Ready => 2i32,
                PipelineState::Paused => 3i32,
                PipelineState::Playing => 4i32,
                PipelineState::Unknown => -1i32,
            },
        ) == s,
{
}

/// The buffers taken in and not yet handed out.
pub fn buffers_pending(buffers_in: u64, buffers_out: u64) -> (r: u64)
    ensures
        r == (if buffers_in >= buffers_out {
            buffers_in - buffers_out
        } else {
            0
        }),
{
    buffers_in.saturating_sub(buffers_out)
}

/// The value of an item state that a frame carries.
pub enum FrameValue {
    /// The state holds no value.
    Missing,
    /// The value is bytes.
    Bytes(Vec<u8>),
    /// The value is of another kind.
    Other,
}

/// Where an incoming item state goes.
pub enum FrameRoute {
    /// Published at once with this status and no data.
    Publish(i16),
    /// Handed to the pipeline.
    Process(Vec<u8>),
}

/// A state with a status other than 1 is passed on as it is; a state of
/// status 1 that carries bytes goes to the pipeline; one without bytes marks
/// the end of the stream.
pub fn route_frame(status: i16, value: FrameValue) -> (r: FrameRoute)
    ensures
        status != 1 ==> r == FrameRoute::Publish(status),
        status == 1 && value is Bytes ==> r == FrameRoute::Process(value->Bytes_0),
        status == 1 && !(value is Bytes) ==> r == FrameRoute::Publish(1),
{
    if status != 1 {
        return FrameRoute::Publish(status);
    }
    match value {
        FrameValue::Bytes(b) => FrameRoute::Process(b),
        _ => FrameRoute::Publish(1),
    }
}

/// The value that an item state is published with.
pub enum RawValue {
    Unit,
    Bytes(Vec<u8>),
}

/// A state of status 1 carries its bytes, where there are any; any other
/// state carries no value.
pub fn raw_value(status: i16, bytes: Vec<u8>) -> (r: RawValue)
    ensures
        status == 1 && bytes@.len() > 0 ==> r == RawValue::Bytes(bytes),
        !(status == 1 && bytes@.len() > 0) ==> r is Unit,
{
    if status == 1 && bytes.len() > 0 {
        RawValue::Bytes(bytes)
    } else {
        RawValue::Unit
    }
}

} // verus!
