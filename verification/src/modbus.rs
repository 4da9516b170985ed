//! Listener settings and request framing of the Modbus slave service:
//! `host[:port]` addresses, serial port specifications
//! `path:baud:data_bits:parity:stop_bits`, and the request frames read from
//! a serial line.
use crate::decimal::{parse_u16, parse_u32, unsigned_text_value};
use crate::text::{chars_of, chunks_view, find_char, lemma_find_first, split_all, split_chars, split_once, str_eq, string_of, sub_chars};
use vstd::prelude::*;

verus! {

/// The Modbus port used when an address names none.
pub const DEFAULT_PORT: u16 = 502;

/// Why a listener setting was refused.
#[derive(PartialEq, Eq, Debug, Clone)]
pub enum ListenError {
    /// the port is not a 16-bit number
    InvalidPort,
    BaudRateMissing,
    /// the baud rate is not a 32-bit number
    InvalidBaudRate,
    DataBitsMissing,
    UnsupportedDataBits(String),
    ParityMissing,
    UnsupportedParity(String),
    StopBitsMissing,
    UnsupportedStopBits(String),
}

/// The model of a [`ListenError`].
pub enum SListenError {
    InvalidPort,
    BaudRateMissing,
    InvalidBaudRate,
    DataBitsMissing,
    UnsupportedDataBits(Seq<char>),
    ParityMissing,
    UnsupportedParity(Seq<char>),
    StopBitsMissing,
    UnsupportedStopBits(Seq<char>),
}

impl View for ListenError {
    type V = SListenError;

    open spec fn view(&self) -> SListenError {
        match self {
            ListenError::InvalidPort => SListenError::InvalidPort,
            ListenError::BaudRateMissing => SListenError::BaudRateMissing,
            ListenError::InvalidBaudRate => SListenError::InvalidBaudRate,
            ListenError::DataBitsMissing => SListenError::DataBitsMissing,
            ListenError::UnsupportedDataBits(v) => SListenError::UnsupportedDataBits(v@),
            ListenError::ParityMissing => SListenError::ParityMissing,
            ListenError::UnsupportedParity(v) => SListenError::UnsupportedParity(v@),
            ListenError::StopBitsMissing => SListenError::StopBitsMissing,
            ListenError::UnsupportedStopBits(v) => SListenError::UnsupportedStopBits(v@),
        }
    }
}

/// The host and port that `host[:port]` names.
pub open spec fn host_port_of(path: Seq<char>) -> Result<(Seq<char>, u16), SListenError> {
    match split_once(path, ':') {
        (host, None) => Ok((host, 502)),
        (host, Some(p)) => match unsigned_text_value(p, u16::MAX as nat) {
            Some(v) => Ok((host, v as u16)),
            None => Err(SListenError::InvalidPort),
        },
    }
}

/// Reads `host[:port]`; the port is 502 when none is given.
pub fn parse_host_port(path: &str) -> (r: Result<(String, u16), ListenError>)
    ensures
        match host_port_of(path@) {
            Ok((h, p)) => r matches Ok((rh, rp)) && rh@ == h && rp == p,
            Err(e) => r matches Err(re) && re@ == e,
        },
{
    let c = chars_of(path);
    proof {
        lemma_find_first(c@, ':');
    }
    match find_char(&c, ':') {
        None => Ok((path.to_string(), DEFAULT_PORT)),
        Some(i) => {
            let host = sub_chars(&c, 0, i);
            let p = string_of(&sub_chars(&c, i + 1, c.len()));
            assert(p@ =~= path@.skip(i + 1));
            match parse_u16(p.as_str()) {
                Some(v) => Ok((string_of(&host), v)),
                None => Err(ListenError::InvalidPort),
            }
        },
    }
}

#[derive(PartialEq, Eq, Structural, Copy, Clone, Debug)]
pub enum DataBits {
    Five,
    Six,
    Seven,
    Eight,
}

#[derive(PartialEq, Eq, Structural, Copy, Clone, Debug)]
pub enum Parity {
    NoParity,
    Even,
    Odd,
}

#[derive(PartialEq, Eq, Structural, Copy, Clone, Debug)]
pub enum StopBits {
    One,
    Two,
}

/// The settings of a serial line.
pub struct SerialParams {
    pub port_path: String,
    pub baud_rate: u32,
    pub data_bits: DataBits,
    pub parity: Parity,
    pub stop_bits: StopBits,
}

pub open spec fn data_bits_of(s: Seq<char>) -> Option<DataBits> {
    if s == "5"@ {
        Some(DataBits::Five)
    } else if s == "6"@ {
        Some(DataBits::Six)
    } else if s == "7"@ {
        Some(DataBits::Seven)
    } else if s == "8"@ {
        Some(DataBits::Eight)
    } else {
        None
    }
}

pub open spec fn parity_of(s: Seq<char>) -> Option<Parity> {
    if s == "N"@ {
        Some(Parity::NoParity)
    } else if s == "E"@ {
        Some(Parity::Even)
    } else if s == "O"@ {
        Some(Parity::Odd)
    } else {
        None
    }
}

pub open spec fn stop_bits_of(s: Seq<char>) -> Option<StopBits> {
    if s == "1"@ {
        Some(StopBits::One)
    } else if s == "2"@ {
        Some(StopBits::Two)
    } else {
        None
    }
}

/// What a serial specification `path:baud:data_bits:parity:stop_bits`
/// gives: the port path, baud rate, data bits, parity and stop bits, or the
/// first setting that is missing or refused.
pub open spec fn serial_of(s: Seq<char>) -> Result<(Seq<char>, u32, DataBits, Parity, StopBits), SListenError> {
    let p = split_all(s, ':');
    if p.len() < 2 {
        Err(SListenError::BaudRateMissing)
    } else {
        match unsigned_text_value(p[1], u32::MAX as nat) {
            None => Err(SListenError::InvalidBaudRate),
            Some(baud) => if p.len() < 3 {
                Err(SListenError::DataBitsMissing)
            } else {
                match data_bits_of(p[2]) {
                    None => Err(SListenError::UnsupportedDataBits(p[2])),
                    Some(d) => if p.len() < 4 {
                        Err(SListenError::ParityMissing)
                    } else {
                        match parity_of(p[3]) {
                            None => Err(SListenError::UnsupportedParity(p[3])),
                            Some(par) => if p.len() < 5 {
                                Err(SListenError::StopBitsMissing)
                            } else {
                                match stop_bits_of(p[4]) {
                                    None => Err(SListenError::UnsupportedStopBits(p[4])),
                                    Some(sb) => Ok((p[0], baud as u32, d, par, sb)),
                                }
                            },
                        }
                    },
                }
            },
        }
    }
}

fn data_bits_from(s: &str) -> (r: Option<DataBits>)
    ensures
        r == data_bits_of(s@),
{
    if str_eq(s, "5") {
        Some(DataBits::Five)
    } else if str_eq(s, "6") {
        Some(DataBits::Six)
    } else if str_eq(s, "7") {
        Some(DataBits::Seven)
    } else if str_eq(s, "8") {
        Some(DataBits::Eight)
    } else {
        None
    }
}

fn parity_from(s: &str) -> (r: Option<Parity>)
    ensures
        r == parity_of(s@),
{
    if str_eq(s, "N") {
        Some(Parity::NoParity)
    } else if str_eq(s, "E") {
        Some(Parity::Even)
    } else if str_eq(s, "O") {
        Some(Parity::Odd)
    } else {
        None
    }
}

fn stop_bits_from(s: &str) -> (r: Option<StopBits>)
    ensures
        r == stop_bits_of(s@),
{
    if str_eq(s, "1") {
        Some(StopBits::One)
    } else if str_eq(s, "2") {
        Some(StopBits::Two)
    } else {
        None
    }
}

/// Reads a serial line specification `path:baud:data_bits:parity:stop_bits`
/// (data bits 5 to 8, parity `N`, `E` or `O`, stop bits 1 or 2).
pub fn parse_serial(s: &str) -> (r: Result<SerialParams, ListenError>)
    ensures
        match serial_of(s@) {
            Ok((path, baud, d, par, sb)) => r matches Ok(sp) && sp.port_path@ == path && sp.baud_rate
                == baud && sp.data_bits == d && sp.parity == par && sp.stop_bits == sb,
            Err(e) => r matches Err(re) && re@ == e,
        },
{
    let c = chars_of(s);
    let parts = split_chars(&c, ':');
    proof {
        crate::text::lemma_split_all_lengths(c@, ':');
        assert(chunks_view(parts@) == split_all(s@, ':'));
    }
    if parts.len() < 2 {
        return Err(ListenError::BaudRateMissing);
    }
    assert(chunks_view(parts@)[1] == parts@[1]@);
    let baud = match parse_u32(string_of(&parts[1]).as_str()) {
        None => {
            return Err(ListenError::InvalidBaudRate);
        },
        Some(b) => b,
    };
    if parts.len() < 3 {
        return Err(ListenError::DataBitsMissing);
    }
    assert(chunks_view(parts@)[2] == parts@[2]@);
    let ds = string_of(&parts[2]);
    let d = match data_bits_from(ds.as_str()) {
        None => {
            return Err(ListenError::UnsupportedDataBits(ds));
        },
        Some(d) => d,
    };
    if parts.len() < 4 {
        return Err(ListenError::ParityMissing);
    }
    assert(chunks_view(parts@)[3] == parts@[3]@);
    let ps = string_of(&parts[3]);
    let par = match parity_from(ps.as_str()) {
        None => {
            return Err(ListenError::UnsupportedParity(ps));
        },
        Some(p) => p,
    };
    if parts.len() < 5 {
        return Err(ListenError::StopBitsMissing);
    }
    assert(chunks_view(parts@)[4] == parts@[4]@);
    let ss = string_of(&parts[4]);
    let sb = match stop_bits_from(ss.as_str()) {
        None => {
            return Err(ListenError::UnsupportedStopBits(ss));
        },
        Some(b) => b,
    };
    assert(chunks_view(parts@)[0] == parts@[0]@);
    Ok(SerialParams { port_path: string_of(&parts[0]), baud_rate: baud, data_bits: d, parity: par, stop_bits: sb })
}

/// How requests are framed on a serial line.
#[derive(PartialEq, Eq, Structural, Copy, Clone, Debug)]
pub enum SerialProto {
    Rtu,
    Ascii,
}

/// Why a request frame was refused.
#[derive(PartialEq, Eq, Structural, Copy, Clone, Debug)]
pub enum FrameError {
    /// the frame's length cannot be told from its first bytes
    UnknownLength,
    /// the frame is longer than 256 bytes
    TooLong,
    /// the ASCII frame is not hexadecimal text
    InvalidAscii,
}

/// The full length of the ASCII request frame whose first bytes are
/// `head`, as `rmodbus::guess_request_frame_len` tells it.
pub uninterp spec fn ascii_request_len(head: Seq<u8>) -> Option<u8>;

/// The full length of an RTU request frame from its first bytes: 8 bytes,
/// or for the multiple-write functions 15 and 16 the byte count at index 6
/// plus 9; `None` where too few bytes are given or the length exceeds 255.
pub open spec fn rtu_request_len(head: Seq<u8>) -> Option<u8> {
    if head.len() < 2 {
        None
    } else if head[1] == 15 || head[1] == 16 {
        if head.len() < 7 {
            None
        } else if head[6] + 9 > 255 {
            None
        } else {
            Some((head[6] + 9) as u8)
        }
    } else {
        Some(8)
    }
}

/// Calls `rmodbus::guess_request_frame_len`; for RTU its outcome is stated
/// in full (as the crate's source computes it), for ASCII it is named
/// [`ascii_request_len`].
#[verifier::external_body]
fn guess_request_len(head: &[u8], proto: SerialProto) -> (r: Option<u8>)
    requires
        head.len() > 0,
    ensures
        r == match proto {
            SerialProto::Rtu => rtu_request_len(head@),
            SerialProto::Ascii => ascii_request_len(head@),
        },
{
    let p = match proto {
        SerialProto::Rtu => rmodbus::ModbusProto::Rtu,
        SerialProto::Ascii => rmodbus::ModbusProto::Ascii,
    };
    rmodbus::guess_request_frame_len(head, p).ok()
}

/// The bytes that an ASCII frame (`:` and hexadecimal digit pairs, up to a
/// CR, LF or NUL) stands for, as `rmodbus::parse_ascii_frame` decodes them.
pub uninterp spec fn ascii_frame_bytes(data: Seq<u8>) -> Option<Seq<u8>>;

/// Calls `rmodbus::parse_ascii_frame` into a zeroed 256-byte buffer; the
/// contract names the decoded bytes [`ascii_frame_bytes`] and states that
/// the buffer holds them, then zeros.
#[verifier::external_body]
fn decode_ascii_frame(data: &[u8]) -> (r: Option<Vec<u8>>)
    requires
        data.len() > 0,
    ensures
        match ascii_frame_bytes(data@) {
            None => r is None,
            Some(b) => r matches Some(buf) && buf@.len() == 256 && b.len() <= 255 && buf@.take(
                b.len() as int,
            ) == b && forall|i: int| b.len() <= i < 256 ==> buf@[i] == 0u8,
        },
{
    let mut buf: rmodbus::ModbusFrameBuf = [0; 256];
    match rmodbus::parse_ascii_frame(data, data.len(), &mut buf, 0) {
        Ok(_) => Some(buf.to_vec()),
        Err(_) => None,
    }
}

/// How many bytes of a request remain to be read after its first bytes
/// `head`.
pub fn remaining_len(head: &[u8], proto: SerialProto) -> (r: Result<usize, FrameError>)
    requires
        head.len() > 0,
    ensures
        match (match proto {
            SerialProto::Rtu => rtu_request_len(head@),
            SerialProto::Ascii => ascii_request_len(head@),
        }) {
            None => r == Err::<usize, FrameError>(FrameError::UnknownLength),
            Some(n) => r == Ok::<usize, FrameError>(if n > head.len() {
                (n - head.len()) as usize
            } else {
                0
            }),
        },
{
    match guess_request_len(head, proto) {
        None => Err(FrameError::UnknownLength),
        Some(n) => {
            let n = n as usize;
            if n > head.len() {
                Ok(n - head.len())
            } else {
                Ok(0)
            }
        },
    }
}

/// The 256-byte buffer of an RTU request read as `head` then `rest`: the
/// request padded with zeros; a request over 256 bytes is refused.
pub fn rtu_request(head: &[u8], rest: &[u8]) -> (r: Result<Vec<u8>, FrameError>)
    ensures
        head.len() + rest.len() > 256 ==> r == Err::<Vec<u8>, FrameError>(FrameError::TooLong),
        head.len() + rest.len() <= 256 ==> (r matches Ok(buf) && buf@.len() == 256 && buf@.take(
            (head.len() + rest.len()) as int,
        ) == head@ + rest@ && forall|i: int| head.len() + rest.len() <= i < 256 ==> buf@[i] == 0u8),
{
    if head.len() > 256 || rest.len() > 256 - head.len() {
        return Err(FrameError::TooLong);
    }
    let mut buf: Vec<u8> = Vec::new();
    let mut i: usize = 0;
    while i < head.len()
        invariant
            i <= head.len(),
            buf@ == head@.take(i as int),
        decreases head.len() - i,
    {
        buf.push(head[i]);
        i = i + 1;
    }
    assert(head@.take(head.len() as int) =~= head@);
    let mut j: usize = 0;
    while j < rest.len()
        invariant
            j <= rest.len(),
            buf@ == head@ + rest@.take(j as int),
        decreases rest.len() - j,
    {
        buf.push(rest[j]);
        j = j + 1;
    }
    assert(rest@.take(rest.len() as int) =~= rest@);
    let n = buf.len();
    while buf.len() < 256
        invariant
            n == head.len() + rest.len(),
            n <= buf.len() <= 256,
            buf@.take(n as int) == head@ + rest@,
            forall|k: int| n <= k < buf.len() ==> buf@[k] == 0u8,
        decreases 256 - buf.len(),
    {
        let ghost before = buf@;
        buf.push(0);
        assert(buf@.take(n as int) =~= before.take(n as int));
    }
    Ok(buf)
}

/// The 256-byte buffer of an ASCII request read as `head` then `rest`: the
/// decoded bytes padded with zeros.
pub fn ascii_request(head: &[u8], rest: &[u8]) -> (r: Result<Vec<u8>, FrameError>)
    requires
        head.len() > 0,
    ensures
        match ascii_frame_bytes(head@ + rest@) {
            None => r == Err::<Vec<u8>, FrameError>(FrameError::InvalidAscii),
            Some(b) => r matches Ok(buf) && buf@.len() == 256 && buf@.take(b.len() as int) == b
                && forall|i: int| b.len() <= i < 256 ==> buf@[i] == 0u8,
        },
{
    let mut req: Vec<u8> = Vec::new();
    let mut i: usize = 0;
    while i < head.len()
        invariant
            i <= head.len(),
            req@ == head@.take(i as int),
        decreases head.len() - i,
    {
        req.push(head[i]);
        i = i + 1;
    }
    assert(head@.take(head.len() as int) =~= head@);
    let mut j: usize = 0;
    while j < rest.len()
        invariant
            j <= rest.len(),
            req@ == head@ + rest@.take(j as int),
        decreases rest.len() - j,
    {
        req.push(rest[j]);
        j = j + 1;
    }
    assert(rest@.take(rest.len() as int) =~= rest@);
    match decode_ascii_frame(req.as_slice()) {
        None => Err(FrameError::InvalidAscii),
        Some(buf) => Ok(buf),
    }
}


/// The parity letter of a serial line setting names its parity: `N` none,
/// `E` even, `O` odd; no other text names one.
pub proof fn law_parity_letters()
    ensures
        parity_of("N"@) == Some(Parity::NoParity),
        parity_of("E"@) == Some(Parity::Even),
        parity_of("O"@) == Some(Parity::Odd),
        forall|s: Seq<char>| #[trigger] parity_of(s) is Some ==> s == "N"@ || s == "E"@ || s == "O"@,
{
    reveal_strlit("N");
    reveal_strlit("E");
    reveal_strlit("O");
    assert("E"@[0] != "N"@[0]);
    assert("O"@[0] != "N"@[0]);
    assert("O"@[0] != "E"@[0]);
}

} // verus!
