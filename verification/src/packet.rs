//! RTP packet headers, as `rtp-engine` writes and reads them.

use vstd::prelude::*;

use crate::text;

verus! {

// ── Layout ──────────────────────────────────────────────────────────────────

/// The two bytes at `i`, as a big-endian number.
pub open spec fn be16(data: Seq<u8>, i: int) -> int {
    data[i] * 0x100 + data[i + 1]
}

/// The four bytes at `i`, as a big-endian number.
pub open spec fn be32(data: Seq<u8>, i: int) -> int {
    data[i] * 0x100_0000 + data[i + 1] * 0x1_0000 + data[i + 2] * 0x100 + data[i + 3]
}

/// The twelve bytes of an RTP header without contributing sources and without
/// extension.
pub open spec fn fixed_header(
    padding: bool,
    extension: bool,
    marker: bool,
    payload_type: u8,
    sequence: u16,
    timestamp: u32,
    ssrc: u32,
) -> Seq<u8> {
    seq![
        (0x80 + (if padding { 0x20int } else { 0 }) + (if extension { 0x10int } else { 0 })) as u8,
        ((if marker { 0x80int } else { 0 }) + payload_type % 0x80) as u8,
        (sequence / 0x100) as u8,
        (sequence % 0x100) as u8,
        (timestamp / 0x100_0000) as u8,
        (timestamp / 0x1_0000 % 0x100) as u8,
        (timestamp / 0x100 % 0x100) as u8,
        (timestamp % 0x100) as u8,
        (ssrc / 0x100_0000) as u8,
        (ssrc / 0x1_0000 % 0x100) as u8,
        (ssrc / 0x100 % 0x100) as u8,
        (ssrc % 0x100) as u8,
    ]
}

/// Number of contributing sources that the first byte announces.
pub open spec fn csrc_count(data: Seq<u8>) -> int {
    (data[0] % 0x10) as int
}

/// The first byte announces a header extension.
pub open spec fn has_extension(data: Seq<u8>) -> bool {
    data[0] / 0x10 % 2 == 1
}

/// Where the list of contributing sources ends.
pub open spec fn csrc_end(data: Seq<u8>) -> int {
    12 + 4 * csrc_count(data)
}

/// Where the header ends and the payload begins.
pub open spec fn header_end(data: Seq<u8>) -> int {
    if has_extension(data) {
        csrc_end(data) + 4 + 4 * be16(data, csrc_end(data) + 2)
    } else {
        csrc_end(data)
    }
}

/// `data` starts with a complete header of RTP version 2.
pub open spec fn valid_header(data: Seq<u8>) -> bool {
    &&& data.len() >= 12
    &&& data[0] / 0x40 == 2
    &&& data.len() >= csrc_end(data)
    &&& has_extension(data) ==> data.len() >= csrc_end(data) + 4
    &&& data.len() >= header_end(data)
}

// ── rtp-engine ──────────────────────────────────────────────────────────────

/// The header type of `rtp-engine`. All of its fields are public.
#[verifier::external_type_specification]
pub struct ExRtpHeader(rtp_engine::rtp::RtpHeader);

/// `RtpHeader::new` fills in the four given fields; the version is 2 and
/// everything else is off or empty.
pub assume_specification[ rtp_engine::rtp::RtpHeader::new ](
    payload_type: u8,
    sequence: u16,
    timestamp: u32,
    ssrc: u32,
) -> (h: rtp_engine::rtp::RtpHeader)
    ensures
        h.version == 2,
        !h.padding,
        !h.extension,
        h.csrc_count == 0,
        !h.marker,
        h.payload_type == payload_type,
        h.sequence == sequence,
        h.timestamp == timestamp,
        h.ssrc == ssrc,
        h.csrc@.len() == 0,
        h.extension_data is None,
;

/// `RtpHeader::to_bytes` writes a version 2 header that has neither
/// contributing sources nor extension data as its twelve fixed bytes.
pub assume_specification[ rtp_engine::rtp::RtpHeader::to_bytes ](
    h: &rtp_engine::rtp::RtpHeader,
) -> (bytes: Vec<u8>)
    requires
        h.version == 2,
        h.csrc@.len() == 0,
        h.extension_data is None,
    ensures
        bytes@ == fixed_header(
            h.padding,
            h.extension,
            h.marker,
            h.payload_type,
            h.sequence,
            h.timestamp,
            h.ssrc,
        ),
;

/// `RtpHeader::parse` reads exactly the data that starts with a complete
/// version 2 header, and reports the fields as they stand there.
pub assume_specification[ rtp_engine::rtp::RtpHeader::parse ](data: &[u8]) -> (r: Option<
    rtp_engine::rtp::RtpHeader,
>)
    ensures
        r is Some == valid_header(data@),
        r matches Some(h) ==> {
            &&& h.version == 2
            &&& h.padding == (data@[0] / 0x20 % 2 == 1)
            &&& h.extension == has_extension(data@)
            &&& h.csrc_count == csrc_count(data@)
            &&& h.marker == (data@[1] / 0x80 == 1)
            &&& h.payload_type == data@[1] % 0x80
            &&& h.sequence == be16(data@, 2)
            &&& h.timestamp == be32(data@, 4)
            &&& h.ssrc == be32(data@, 8)
            &&& h.csrc@.len() == csrc_count(data@)
            &&& forall|i: int|
                0 <= i < h.csrc@.len() ==> #[trigger] h.csrc@[i] == be32(data@, 12 + 4 * i)
            &&& match h.extension_data {
                Some(ext) => has_extension(data@) && ext@ == data@.subrange(
                    csrc_end(data@),
                    header_end(data@),
                ),
                None => !has_extension(data@),
            }
        },
;

/// `RtpHeader::header_length` counts the fixed bytes, four for each
/// contributing source, and the extension data.
pub assume_specification[ rtp_engine::rtp::RtpHeader::header_length ](
    h: &rtp_engine::rtp::RtpHeader,
) -> (n: usize)
    requires
        h.csrc@.len() <= 15,
        h.extension_data matches Some(ext) ==> ext@.len() <= 0x7FFF_FF00,
    ensures
        n == 12 + 4 * h.csrc@.len() + match h.extension_data {
            Some(ext) => ext@.len(),
            None => 0,
        },
;

// ── Packets ─────────────────────────────────────────────────────────────────

/// The payload type and payload of a packet.
pub open spec fn packet_parts(data: Seq<u8>) -> Option<(u8, Seq<u8>)> {
    if valid_header(data) {
        Some(((data[1] % 0x80) as u8, data.skip(header_end(data))))
    } else {
        None
    }
}

/// A packet with the given header fields and payload.
pub open spec fn packet_bytes(
    marker: bool,
    payload_type: u8,
    sequence: u16,
    timestamp: u32,
    ssrc: u32,
    payload: Seq<u8>,
) -> Seq<u8> {
    fixed_header(false, false, marker, payload_type, sequence, timestamp, ssrc) + payload
}

/// Splits a packet into payload type and payload.
pub fn open_packet(data: &[u8]) -> (r: Option<(u8, Vec<u8>)>)
    ensures
        match r {
            Some((payload_type, payload)) => packet_parts(data@) == Some((payload_type, payload@)),
            None => packet_parts(data@) is None,
        },
{
    match rtp_engine::rtp::RtpHeader::parse(data) {
        Some(header) => {
            let end = header.header_length();
            assert(end == header_end(data@));
            let payload = vstd::slice::slice_subrange(data, end, data.len());
            assert(payload@ =~= data@.skip(header_end(data@)));
            Some((header.payload_type, vstd::slice::slice_to_vec(payload)))
        },
        None => None,
    }
}

/// Puts a header in front of a payload.
pub fn build_packet(
    marker: bool,
    payload_type: u8,
    sequence: u16,
    timestamp: u32,
    ssrc: u32,
    payload: &[u8],
) -> (r: Vec<u8>)
    ensures
        r@ == packet_bytes(marker, payload_type, sequence, timestamp, ssrc, payload@),
{
    let mut header = rtp_engine::rtp::RtpHeader::new(payload_type, sequence, timestamp, ssrc);
    if marker {
        header.marker = true;
    }
    let mut packet = header.to_bytes();
    packet.extend_from_slice(payload);
    assert(packet@ =~= packet_bytes(marker, payload_type, sequence, timestamp, ssrc, payload@));
    packet
}

/// Opening a packet gives back the payload type and the payload it was built
/// from.
pub proof fn packets_open_to_what_was_put_in(
    marker: bool,
    payload_type: u8,
    sequence: u16,
    timestamp: u32,
    ssrc: u32,
    payload: Seq<u8>,
)
    requires
        payload_type < 0x80,
    ensures
        packet_parts(packet_bytes(marker, payload_type, sequence, timestamp, ssrc, payload))
            == Some((payload_type, payload)),
{
    let data = packet_bytes(marker, payload_type, sequence, timestamp, ssrc, payload);
    assert(data[0] == 0x80);
    assert(data.skip(12) =~= payload);
}

/// The bytes of a packet, one by one: version 2 without padding, extension and
/// sources, then marker and payload type, sequence number, timestamp and
/// source, each with its highest byte first, then the payload.
pub proof fn packets_spell_out_their_fields(
    marker: bool,
    payload_type: u8,
    sequence: u16,
    timestamp: u32,
    ssrc: u32,
    payload: Seq<u8>,
)
    requires
        payload_type < 128,
    ensures
        ({
            let p = packet_bytes(marker, payload_type, sequence, timestamp, ssrc, payload);
            &&& p.len() == 12 + payload.len()
            &&& p[0] == 128
            &&& p[1] == if marker {
                128 + payload_type
            } else {
                payload_type as int
            }
            &&& p[2] * 256 + p[3] == sequence
            &&& p[4] * 16777216 + p[5] * 65536 + p[6] * 256 + p[7] == timestamp
            &&& p[8] * 16777216 + p[9] * 65536 + p[10] * 256 + p[11] == ssrc
            &&& p.skip(12) == payload
        }),
{
    let p = packet_bytes(marker, payload_type, sequence, timestamp, ssrc, payload);
    assert(p.skip(12) =~= payload);
    text::lemma_four_bytes(sequence as nat);
    text::lemma_four_bytes(timestamp as nat);
    text::lemma_four_bytes(ssrc as nat);
}

/// Any data of twelve bytes and more that starts with version 2 is a packet, as
/// long as the sources and the extension that it announces are there. The
/// payload is all that follows them, and the payload type is read without the
/// marker bit.
pub proof fn payload_stands_behind_the_header(data: Seq<u8>)
    requires
        data.len() >= 12,
        128 <= data[0] < 192,
    ensures
        ({
            let fixed = 12 + 4 * (data[0] % 16);
            let payload_type = if data[1] >= 128 {
                (data[1] - 128) as u8
            } else {
                data[1]
            };
            if data[0] / 16 == 8 || data[0] / 16 == 10 {
                packet_parts(data) == if data.len() >= fixed {
                    Some((payload_type, data.skip(fixed)))
                } else {
                    None
                }
            } else {
                let end = fixed + 4 + 4 * (data[fixed + 2] * 256 + data[fixed + 3]);
                packet_parts(data) == if data.len() >= fixed + 4 && data.len() >= end {
                    Some((payload_type, data.skip(end)))
                } else {
                    None
                }
            }
        }),
{
}

/// Data that is shorter than a header, or of another version, is no packet.
pub proof fn other_data_is_no_packet(data: Seq<u8>)
    requires
        data.len() < 12 || data[0] < 128 || data[0] >= 192,
    ensures
        packet_parts(data) is None,
{
}

} // verus!
