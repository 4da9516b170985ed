//! Bulk state replication: packed item states gathered into packets that fit
//! a datagram, the count written into a packet, the frame that carries a
//! packet and the checks on a received frame.
use crate::text::str_eq;
use vstd::prelude::*;
use vstd::string::StringSliceAdditionalSpecFns;
use vstd::utf8::{decode_utf8, encode_utf8, valid_utf8};

verus! {

/// The bytes that open a packet: a MessagePack 32-bit array marker followed by
/// the number of records, big-endian, left zero until the packet is sealed.
pub open spec fn packet_header() -> Seq<u8> {
    seq![0xddu8, 0u8, 0u8, 0u8, 0u8]
}

/// One step of packing: `est` is the estimated size of the packet once
/// `record` is added to it. Past `max` the packet so far is handed out with
/// its count, and a new packet starts with `record` alone; else `record` is
/// added.
pub open spec fn packer_add(state: (Seq<u8>, nat), record: Seq<u8>, est: int, max: int) -> (
    (Seq<u8>, nat),
    Option<(Seq<u8>, nat)>,
) {
    if est > max {
        ((packet_header() + record, 1nat), Some(state))
    } else {
        ((state.0 + record, state.1 + 1), None)
    }
}

/// The open packet and the packets handed out after `records` were packed
/// by their exact sizes against `max`.
pub open spec fn pack_records(records: Seq<Seq<u8>>, max: int) -> (
    (Seq<u8>, nat),
    Seq<(Seq<u8>, nat)>,
)
    decreases records.len(),
{
    if records.len() == 0 {
        ((packet_header(), 0nat), Seq::empty())
    } else {
        let prev = pack_records(records.drop_last(), max);
        let step = packer_add(
            prev.0,
            records.last(),
            (prev.0.0.len() + records.last().len()) as int,
            max,
        );
        (
            step.0,
            match step.1 {
                Some(p) => prev.1.push(p),
                None => prev.1,
            },
        )
    }
}

/// All packets, the last one included, that `records` are sent in.
pub open spec fn bulk_packets(records: Seq<Seq<u8>>, max: int) -> Seq<(Seq<u8>, nat)> {
    let r = pack_records(records, max);
    r.1.push(r.0)
}

/// The byte sequences of `s`, one after the other.
pub open spec fn joined(s: Seq<Seq<u8>>) -> Seq<u8>
    decreases s.len(),
{
    if s.len() == 0 {
        Seq::empty()
    } else {
        joined(s.drop_last()) + s.last()
    }
}

/// What the packets carry after their headers, one after the other.
pub open spec fn packet_bodies(p: Seq<(Seq<u8>, nat)>) -> Seq<u8>
    decreases p.len(),
{
    if p.len() == 0 {
        Seq::empty()
    } else {
        packet_bodies(p.drop_last()) + p.last().0.skip(5)
    }
}

/// The sum of the packets' counts.
pub open spec fn packet_counts(p: Seq<(Seq<u8>, nat)>) -> nat
    decreases p.len(),
{
    if p.len() == 0 {
        0
    } else {
        packet_counts(p.drop_last()) + p.last().1
    }
}

/// A packet with its count, as values.
pub open spec fn packet_view(p: (Vec<u8>, usize)) -> (Seq<u8>, nat) {
    (p.0@, p.1 as nat)
}

/// A packet that may be handed out, as values.
pub open spec fn opt_packet_view(r: Option<(Vec<u8>, usize)>) -> Option<(Seq<u8>, nat)> {
    match r {
        Some(p) => Some(packet_view(p)),
        None => None,
    }
}

/// Packets with their counts, as values.
pub open spec fn packets_view(v: Seq<(Vec<u8>, usize)>) -> Seq<(Seq<u8>, nat)> {
    v.map_values(|p: (Vec<u8>, usize)| packet_view(p))
}

/// The records as values.
pub open spec fn records_view(v: Seq<Vec<u8>>) -> Seq<Seq<u8>> {
    v.map_values(|r: Vec<u8>| r@)
}

proof fn lemma_pack_records(records: Seq<Seq<u8>>, max: int)
    ensures
        ({
            let r = pack_records(records, max);
            &&& r.0.0.len() >= 5
            &&& r.0.0.take(5) == packet_header()
            &&& packet_bodies(r.1) + r.0.0.skip(5) == joined(records)
            &&& packet_counts(r.1) + r.0.1 == records.len()
        }),
    decreases records.len(),
{
    if records.len() > 0 {
        let prev = pack_records(records.drop_last(), max);
        lemma_pack_records(records.drop_last(), max);
        let rec = records.last();
        let est = prev.0.0.len() + rec.len();
        let r = pack_records(records, max);
        if est > max {
            assert(r.1 == prev.1.push(prev.0));
            assert(r.1.drop_last() == prev.1);
            assert((packet_header() + rec).skip(5) =~= rec);
            assert((packet_header() + rec).take(5) =~= packet_header());
            assert(packet_bodies(r.1) == packet_bodies(prev.1) + prev.0.0.skip(5));
            assert(packet_bodies(r.1) + r.0.0.skip(5) =~= joined(records));
        } else {
            assert((prev.0.0 + rec).skip(5) =~= prev.0.0.skip(5) + rec);
            assert((prev.0.0 + rec).take(5) =~= prev.0.0.take(5));
            assert(packet_bodies(r.1) + r.0.0.skip(5) =~= joined(records));
        }
    }
}

/// Packing loses no record and changes no order: after their headers the
/// packets carry the records one after the other, their counts add up to
/// the number of records, and every packet opens with the packet header.
pub proof fn law_packing_keeps_records(records: Seq<Seq<u8>>, max: int)
    ensures
        packet_bodies(bulk_packets(records, max)) == joined(records),
        packet_counts(bulk_packets(records, max)) == records.len(),
        forall|k: int|
            0 <= k < bulk_packets(records, max).len() ==> (#[trigger] bulk_packets(
                records,
                max,
            )[k]).0.take(5) == packet_header(),
{
    lemma_pack_records(records, max);
    let r = pack_records(records, max);
    let p = bulk_packets(records, max);
    assert(p.drop_last() == r.1);
    assert forall|k: int| 0 <= k < p.len() implies (#[trigger] p[k]).0.take(5)
        == packet_header() by {
        if k < p.len() - 1 {
            lemma_handed_out_headers(records, max, k);
        }
    }
}

proof fn lemma_handed_out_headers(records: Seq<Seq<u8>>, max: int, k: int)
    requires
        0 <= k < pack_records(records, max).1.len(),
    ensures
        pack_records(records, max).1[k].0.take(5) == packet_header(),
    decreases records.len(),
{
    if records.len() > 0 {
        let prev = pack_records(records.drop_last(), max);
        lemma_pack_records(records.drop_last(), max);
        if k < prev.1.len() {
            lemma_handed_out_headers(records.drop_last(), max, k);
        }
    }
}

/// A packet of one record at most, or one within `max`: a packet that is
/// handed out is over the limit only where a single record is.
pub proof fn law_handed_out_packets_fit(records: Seq<Seq<u8>>, max: int, k: int)
    requires
        0 <= k < pack_records(records, max).1.len(),
    ensures
        pack_records(records, max).1[k].0.len() <= max || pack_records(records, max).1[k].1
            <= 1,
    decreases records.len(),
{
    if records.len() > 0 {
        lemma_open_packet_fits(records.drop_last(), max);
        let prev = pack_records(records.drop_last(), max);
        if k < prev.1.len() {
            law_handed_out_packets_fit(records.drop_last(), max, k);
        }
    }
}

proof fn lemma_open_packet_fits(records: Seq<Seq<u8>>, max: int)
    ensures
        pack_records(records, max).0.0.len() <= max || pack_records(records, max).0.1 <= 1,
    decreases records.len(),
{
    if records.len() > 0 {
        lemma_open_packet_fits(records.drop_last(), max);
    }
}

fn append_bytes(dst: &mut Vec<u8>, src: &[u8])
    ensures
        final(dst)@ == old(dst)@ + src@,
{
    let mut i: usize = 0;
    while i < src.len()
        invariant
            i <= src@.len(),
            dst@ == old(dst)@ + src@.take(i as int),
        decreases src@.len() - i,
    {
        dst.push(src[i]);
        i = i + 1;
        assert(src@.take(i as int) =~= src@.take(i - 1) + seq![src@[i - 1]]);
        assert(dst@ =~= old(dst)@ + src@.take(i as int));
    }
    assert(src@.take(src@.len() as int) =~= src@);
}

fn header_vec() -> (r: Vec<u8>)
    ensures
        r@ == packet_header(),
{
    let r: Vec<u8> = vec![0xddu8, 0u8, 0u8, 0u8, 0u8];
    assert(r@ =~= packet_header());
    r
}

/// The packet being filled and the number of records in it.
pub struct BulkPacker {
    packet: Vec<u8>,
    count: usize,
}

impl View for BulkPacker {
    type V = (Seq<u8>, nat);

    closed spec fn view(&self) -> (Seq<u8>, nat) {
        (self.packet@, self.count as nat)
    }
}

impl BulkPacker {
    /// An empty packet: the header and no record.
    pub fn new() -> (r: BulkPacker)
        ensures
            r@ == (packet_header(), 0nat),
    {
        BulkPacker { packet: header_vec(), count: 0 }
    }

    /// The packet so far.
    pub fn bytes(&self) -> (r: &Vec<u8>)
        ensures
            r@ == self@.0,
    {
        &self.packet
    }

    /// The number of records in the packet so far.
    pub fn count(&self) -> (r: usize)
        ensures
            r == self@.1,
    {
        self.count
    }

    fn restart_with(&mut self, record: &[u8]) -> (r: (Vec<u8>, usize))
        ensures
            final(self)@ == (packet_header() + record@, 1nat),
            packet_view(r) == old(self)@,
    {
        let mut fresh = header_vec();
        append_bytes(&mut fresh, record);
        std::mem::swap(&mut self.packet, &mut fresh);
        let n = self.count;
        self.count = 1;
        (fresh, n)
    }

    /// Adds `record`, where the packet holding it is estimated at
    /// `est_size` bytes (by what it compresses to); above `max_size` the
    /// packet so far is handed back with its count and `record` starts the
    /// next one.
    pub fn add_estimated(&mut self, record: &[u8], est_size: usize, max_size: usize) -> (r: Option<
        (Vec<u8>, usize),
    >)
        requires
            old(self)@.1 < usize::MAX,
        ensures
            (final(self)@, opt_packet_view(r)) == packer_add(
                old(self)@,
                record@,
                est_size as int,
                max_size as int,
            ),
    {
        if est_size > max_size {
            Some(self.restart_with(record))
        } else {
            append_bytes(&mut self.packet, record);
            self.count = self.count + 1;
            None
        }
    }

    /// Adds `record`, measuring the packet by its exact size.
    pub fn add(&mut self, record: &[u8], max_size: usize) -> (r: Option<(Vec<u8>, usize)>)
        requires
            old(self)@.1 < usize::MAX,
        ensures
            (final(self)@, opt_packet_view(r)) == packer_add(
                old(self)@,
                record@,
                (old(self)@.0.len() + record@.len()) as int,
                max_size as int,
            ),
    {
        match self.packet.len().checked_add(record.len()) {
            Some(est) => self.add_estimated(record, est, max_size),
            None => Some(self.restart_with(record)),
        }
    }

    /// The packet and its count, for the last send.
    pub fn into_parts(self) -> (r: (Vec<u8>, usize))
        ensures
            packet_view(r) == self@,
    {
        (self.packet, self.count)
    }
}

/// The packets that `records` are sent in, a packet holding the records
/// that fit in `mtu` bytes less the frame's five, each with its count.
pub fn pack_bulk_records(records: &Vec<Vec<u8>>, mtu: usize) -> (r: Vec<(Vec<u8>, usize)>)
    requires
        mtu >= 5,
    ensures
        packets_view(r@) == bulk_packets(records_view(records@), mtu - 5),
{
    let max_size = mtu - 5;
    let ghost recs = records_view(records@);
    let mut packer = BulkPacker::new();
    let mut out: Vec<(Vec<u8>, usize)> = Vec::new();
    let mut i: usize = 0;
    while i < records.len()
        invariant
            i <= records@.len(),
            recs == records_view(records@),
            max_size == mtu - 5,
            (packer@, packets_view(out@)) == pack_records(recs.take(i as int), max_size as int),
        decreases records@.len() - i,
    {
        proof {
            lemma_pack_records(recs.take(i as int), max_size as int);
            assert(recs.take(i as int).len() == i);
        }
        let ghost before = out@;
        let step = packer.add(records[i].as_slice(), max_size);
        match step {
            Some(p) => {
                out.push(p);
                assert(packets_view(out@) =~= packets_view(before).push(packet_view(p)));
            },
            None => {},
        }
        i = i + 1;
        assert(recs.take(i as int).drop_last() =~= recs.take(i - 1));
        assert(recs.take(i as int).last() == records@[i - 1]@);
    }
    assert(recs.take(records@.len() as int) =~= recs);
    let ghost before = out@;
    out.push(packer.into_parts());
    assert(packets_view(out@) =~= packets_view(before).push(packets_view(out@).last()));
    out
}

/// Why a packet could not be sealed or a frame was refused.
#[derive(PartialEq, Eq, Structural, Debug, Clone, Copy)]
pub enum BulkError {
    /// The packet's count does not fit in four bytes.
    CountTooLarge,
    /// The frame is shorter than its fixed header.
    FrameTooShort,
    /// The frame's first byte is not zero.
    BadHeader,
    /// The frame was written with another protocol version.
    UnsupportedProto,
    /// The sender's name is not UTF-8 text.
    NameNotUtf8,
    /// The frame ends before the key id.
    MissingKeyId,
    /// The frame ends before the payload.
    MissingPayload,
    /// An unencrypted frame came to a topic that takes encrypted ones only.
    Unencrypted,
}

/// A count as four big-endian bytes.
pub open spec fn be_u32(c: nat) -> Seq<u8> {
    seq![
        ((c / 0x1000000) % 256) as u8,
        ((c / 0x10000) % 256) as u8,
        ((c / 0x100) % 256) as u8,
        (c % 256) as u8,
    ]
}

/// The packet with its count written after the array marker.
pub open spec fn sealed(data: Seq<u8>, count: nat) -> Seq<u8> {
    seq![data[0]] + be_u32(count) + data.skip(5)
}

/// Writes the count into a packet that is to be sent: a packet of no record,
/// or with nothing after its header, is not sent (`None`), and a count past
/// `u32::MAX` is refused.
pub fn seal_packet(data: Vec<u8>, count: usize) -> (r: Result<Option<Vec<u8>>, BulkError>)
    ensures
        match r {
            Ok(None) => data@.len() < 6 || count == 0,
            Ok(Some(v)) => !(data@.len() < 6 || count == 0) && count <= u32::MAX && v@ == sealed(
                data@,
                count as nat,
            ),
            Err(e) => !(data@.len() < 6 || count == 0) && count > u32::MAX && e
                == BulkError::CountTooLarge,
        },
{
    if data.len() < 6 || count == 0 {
        return Ok(None);
    }
    if count as u64 > 0xffff_ffffu64 {
        return Err(BulkError::CountTooLarge);
    }
    let c: u32 = count as u32;
    let mut v = data;
    let ghost d = v@;
    v.set(1, (c / 0x1000000) as u8);
    v.set(2, ((c / 0x10000) % 256) as u8);
    v.set(3, ((c / 0x100) % 256) as u8);
    v.set(4, (c % 256) as u8);
    assert(v@ =~= sealed(d, count as nat));
    Ok(Some(v))
}

/// The bytes of an optional key id.
pub open spec fn key_bytes(key_id: Option<&str>) -> Seq<u8> {
    match key_id {
        Some(k) => k.spec_bytes(),
        None => Seq::empty(),
    }
}

/// A frame: a zero byte, the protocol version, the payload's flags, two zero
/// bytes, the sender's name, a zero byte, the key id, a zero byte and the
/// payload.
pub open spec fn bulk_frame_bytes(
    version: u8,
    flags: u8,
    name: Seq<u8>,
    key: Seq<u8>,
    payload: Seq<u8>,
) -> Seq<u8> {
    seq![0u8, version, flags, 0u8, 0u8] + name + seq![0u8] + key + seq![0u8] + payload
}

/// The frame that carries `payload` from the node `system_name`.
pub fn bulk_frame(
    version: u8,
    flags: u8,
    system_name: &str,
    key_id: Option<&str>,
    payload: &[u8],
) -> (r: Vec<u8>)
    ensures
        r@ == bulk_frame_bytes(
            version,
            flags,
            system_name.spec_bytes(),
            key_bytes(key_id),
            payload@,
        ),
{
    let mut frame: Vec<u8> = vec![0u8, version, flags, 0u8, 0u8];
    let ghost start = frame@;
    append_bytes(&mut frame, system_name.as_bytes());
    frame.push(0u8);
    match key_id {
        Some(k) => append_bytes(&mut frame, k.as_bytes()),
        None => {},
    }
    frame.push(0u8);
    append_bytes(&mut frame, payload);
    assert(frame@ =~= bulk_frame_bytes(
        version,
        flags,
        system_name.spec_bytes(),
        key_bytes(key_id),
        payload@,
    ));
    frame
}

/// The fixed part of a received frame: its flags, where the frame is long
/// enough, opens with a zero byte and has the expected protocol version.
pub open spec fn bulk_header(frame: Seq<u8>, version: u8) -> Result<u8, BulkError> {
    if frame.len() < 4 {
        Err(BulkError::FrameTooShort)
    } else if frame[0] != 0 {
        Err(BulkError::BadHeader)
    } else if frame[1] != version {
        Err(BulkError::UnsupportedProto)
    } else {
        Ok(frame[2])
    }
}

/// Checks the fixed part of a received frame and gives its flags.
pub fn check_bulk_header(frame: &[u8], version: u8) -> (r: Result<u8, BulkError>)
    ensures
        r == bulk_header(frame@, version),
{
    if frame.len() < 4 {
        Err(BulkError::FrameTooShort)
    } else if frame[0] != 0 {
        Err(BulkError::BadHeader)
    } else if frame[1] != version {
        Err(BulkError::UnsupportedProto)
    } else {
        Ok(frame[2])
    }
}

/// A frame to a topic that takes encrypted frames only is refused unless it
/// is encrypted.
pub fn check_bulk_access(secure: bool, encrypted: bool) -> (r: Result<(), BulkError>)
    ensures
        r is Err <==> secure && !encrypted,
        r is Err ==> r == Err::<(), BulkError>(BulkError::Unencrypted),
{
    if secure && !encrypted {
        Err(BulkError::Unencrypted)
    } else {
        Ok(())
    }
}

/// The first zero byte of `s`.
pub open spec fn zero_at(s: Seq<u8>) -> Option<int>
    decreases s.len(),
{
    if s.len() == 0 {
        None
    } else if s[0] == 0 {
        Some(0)
    } else {
        match zero_at(s.drop_first()) {
            Some(i) => Some(i + 1),
            None => None,
        }
    }
}

proof fn lemma_zero_at(s: Seq<u8>)
    ensures
        match zero_at(s) {
            Some(i) => 0 <= i < s.len() && s[i] == 0 && forall|j: int| 0 <= j < i ==> s[j] != 0,
            None => forall|j: int| 0 <= j < s.len() ==> s[j] != 0,
        },
    decreases s.len(),
{
    if s.len() > 0 {
        lemma_zero_at(s.drop_first());
        assert forall|j: int| 1 <= j < s.len() implies #[trigger] s[j] == s.drop_first()[j - 1] by {}
    }
}

proof fn lemma_zero_at_unique(s: Seq<u8>, i: int)
    requires
        0 <= i < s.len(),
        s[i] == 0,
        forall|j: int| 0 <= j < i ==> s[j] != 0,
    ensures
        zero_at(s) == Some(i),
{
    lemma_zero_at(s);
    match zero_at(s) {
        Some(k) => {
            if k < i {
                assert(s[k] != 0);
            }
            if k > i {
                assert(s[i] != 0);
            }
        },
        None => {
            assert(s[i] != 0);
        },
    }
}

/// A frame from a remote node: its name, its key id and the length of the
/// part before the payload.
pub struct BulkFrame {
    pub system_name: String,
    pub key_id: Vec<u8>,
    pub header_len: usize,
}

/// What is done with a frame whose fixed part passed the checks.
pub enum BulkSplit {
    /// The frame came from this node: it is ignored.
    Own,
    /// The frame came from another node.
    Remote(BulkFrame),
}

/// The variable part of a frame of at least five bytes, for the node named
/// `own`: the sender's name up to the first zero byte after the fixed part
/// must be UTF-8; the node's own frames are ignored; then a zero byte must
/// end the key id.
pub open spec fn bulk_split(frame: Seq<u8>, own: Seq<char>) -> Result<
    Option<(Seq<char>, Seq<u8>, nat)>,
    BulkError,
> {
    let rest = frame.skip(5);
    let name = match zero_at(rest) {
        Some(i) => rest.take(i),
        None => rest,
    };
    if !valid_utf8(name) {
        Err(BulkError::NameNotUtf8)
    } else if decode_utf8(name) == own {
        Ok(None)
    } else {
        match zero_at(rest) {
            None => Err(BulkError::MissingKeyId),
            Some(i) => {
                let tail = rest.skip(i + 1);
                match zero_at(tail) {
                    None => Err(BulkError::MissingPayload),
                    Some(j) => Ok(Some((decode_utf8(name), tail.take(j), (i + j + 7) as nat))),
                }
            },
        }
    }
}

/// A split frame, as values.
pub open spec fn split_view(r: Result<BulkSplit, BulkError>) -> Result<
    Option<(Seq<char>, Seq<u8>, nat)>,
    BulkError,
> {
    match r {
        Ok(BulkSplit::Own) => Ok(None),
        Ok(BulkSplit::Remote(f)) => Ok(Some((f.system_name@, f.key_id@, f.header_len as nat))),
        Err(e) => Err(e),
    }
}

/// `std::str::from_utf8`: the text that the bytes encode, where they are
/// UTF-8; std documents that it fails exactly on bytes that are not.
#[verifier::external_body]
fn utf8_text(bytes: &[u8]) -> (r: Option<String>)
    ensures
        r is Some <==> valid_utf8(bytes@),
        r matches Some(s) ==> s@ == decode_utf8(bytes@),
{
    std::str::from_utf8(bytes).ok().map(|s| s.to_string())
}

fn find_zero(s: &[u8], from: usize) -> (r: Option<usize>)
    requires
        from <= s@.len(),
    ensures
        match zero_at(s@.skip(from as int)) {
            Some(i) => r == Some((from + i) as usize),
            None => r is None,
        },
        r matches Some(k) ==> from <= k < s@.len(),
{
    let mut i = from;
    while i < s.len()
        invariant
            from <= i <= s@.len(),
            forall|j: int| from <= j < i ==> s@[j] != 0,
        decreases s@.len() - i,
    {
        if s[i] == 0 {
            proof {
                lemma_zero_at_unique(s@.skip(from as int), i - from);
            }
            return Some(i);
        }
        i = i + 1;
    }
    proof {
        lemma_zero_at(s@.skip(from as int));
        if let Some(k) = zero_at(s@.skip(from as int)) {
            assert(s@[from + k] == 0);
        }
    }
    None
}

fn copy_range(s: &[u8], from: usize, to: usize) -> (r: Vec<u8>)
    requires
        from <= to <= s@.len(),
    ensures
        r@ == s@.subrange(from as int, to as int),
{
    let mut r: Vec<u8> = Vec::new();
    let mut i = from;
    while i < to
        invariant
            from <= i <= to <= s@.len(),
            r@ == s@.subrange(from as int, i as int),
        decreases to - i,
    {
        r.push(s[i]);
        i = i + 1;
        assert(r@ =~= s@.subrange(from as int, i as int));
    }
    r
}

/// Splits the variable part of a received frame, for the node named
/// `own_name`.
pub fn split_bulk_frame(frame: &[u8], own_name: &str) -> (r: Result<BulkSplit, BulkError>)
    requires
        5 <= frame@.len() < usize::MAX,
    ensures
        split_view(r) == bulk_split(frame@, own_name@),
{
    let flen = frame.len();
    let ghost rest = frame@.skip(5);
    let first = find_zero(frame, 5);
    let name_end = match first {
        Some(i) => i,
        None => frame.len(),
    };
    let name_bytes = copy_range(frame, 5, name_end);
    proof {
        lemma_zero_at(rest);
        match zero_at(rest) {
            Some(i) => assert(name_bytes@ =~= rest.take(i)),
            None => assert(name_bytes@ =~= rest),
        }
    }
    let name = match utf8_text(name_bytes.as_slice()) {
        Some(s) => s,
        None => return Err(BulkError::NameNotUtf8),
    };
    if str_eq(name.as_str(), own_name) {
        return Ok(BulkSplit::Own);
    }
    let key_start = match first {
        Some(i) => i + 1,
        None => return Err(BulkError::MissingKeyId),
    };
    let second = find_zero(frame, key_start);
    proof {
        lemma_zero_at(frame@.skip(key_start as int));
        if let Some(i) = zero_at(rest) {
            assert(frame@.skip(key_start as int) =~= rest.skip(i + 1));
        }
    }
    match second {
        Some(j) => {
            let key_id = copy_range(frame, key_start, j);
            proof {
                if let Some(i) = zero_at(rest) {
                    assert(key_id@ =~= rest.skip(i + 1).take(j - key_start));
                }
            }
            let header_len = j + 1;
            Ok(BulkSplit::Remote(BulkFrame { system_name: name, key_id, header_len }))
        },
        None => Err(BulkError::MissingPayload),
    }
}

/// What a node makes of a frame that another node built: the fixed part
/// gives back the flags, the variable part the sender's name and key id, and
/// the header length leads to the payload, for names and key ids without a
/// zero byte. A node ignores the frames that carry its own name.
pub proof fn law_bulk_frame_roundtrip(
    version: u8,
    flags: u8,
    name: Seq<char>,
    key: Seq<u8>,
    payload: Seq<u8>,
    own: Seq<char>,
)
    requires
        !encode_utf8(name).contains(0u8),
        !key.contains(0u8),
    ensures
        ({
            let f = bulk_frame_bytes(version, flags, encode_utf8(name), key, payload);
            let header_len = encode_utf8(name).len() + key.len() + 7;
            &&& bulk_header(f, version) == Ok::<u8, BulkError>(flags)
            &&& name == own ==> bulk_split(f, own) == Ok::<
                Option<(Seq<char>, Seq<u8>, nat)>,
                BulkError,
            >(None)
            &&& name != own ==> bulk_split(f, own) == Ok::<
                Option<(Seq<char>, Seq<u8>, nat)>,
                BulkError,
            >(Some((name, key, header_len)))
            &&& f.skip(header_len as int) == payload
        }),
{
    broadcast use vstd::utf8::encode_utf8_valid_utf8, vstd::utf8::encode_utf8_decode_utf8;

    let nb = encode_utf8(name);
    let f = bulk_frame_bytes(version, flags, nb, key, payload);
    let rest = f.skip(5);
    assert(rest =~= nb + seq![0u8] + key + seq![0u8] + payload);
    assert(rest[nb.len() as int] == 0);
    assert forall|j: int| 0 <= j < nb.len() implies rest[j] != 0 by {
        assert(rest[j] == nb[j]);
        if nb[j] == 0 {
            assert(nb.contains(nb[j]));
        }
    }
    lemma_zero_at_unique(rest, nb.len() as int);
    assert(rest.take(nb.len() as int) =~= nb);
    let tail = rest.skip(nb.len() + 1int);
    assert(tail =~= key + seq![0u8] + payload);
    assert(tail[key.len() as int] == 0);
    assert forall|j: int| 0 <= j < key.len() implies tail[j] != 0 by {
        assert(tail[j] == key[j]);
        if key[j] == 0 {
            assert(key.contains(key[j]));
        }
    }
    lemma_zero_at_unique(tail, key.len() as int);
    assert(tail.take(key.len() as int) =~= key);
    assert(f.skip((nb.len() + key.len() + 7) as int) =~= payload);
}

} // verus!
