//! The `TPACKET_V3` records and their decoders.

use crate::wire::{fixed_width, le_u16_at, le_u32_at, le_u64_at, lemma_skip_twice, outcome, take_u16, take_u32, take_u64, DecodeError};
use vstd::prelude::*;

verus! {

/// Block status word: the kernel still owns the block.
pub const TP_STATUS_KERNEL: u8 = 0;

/// Block status word: the block is handed to user space.
pub const TP_STATUS_USER: u8 = 1;

/// The version tag of this ring layout.
pub const TPACKET_V3: i32 = 2;

/// Feature request bit: have the kernel fill in the RX hash.
pub const TP_FT_REQ_FILL_RXHASH: u32 = 1;

/// Byte offset of the status word from the start of a block.
pub const TP_BLK_STATUS_OFFSET: usize = 8;

/// Counters that the kernel keeps since the last query.
#[derive(Clone, Debug, PartialEq, Eq, Structural)]
pub struct TpacketStatsV3 {
    pub tp_packets: u32,
    pub tp_drops: u32,
    pub tp_freeze_q_cnt: u32,
}

/// Lower-level settings about ring buffer allocation and behavior.
/// `tp_frame_size * tp_frame_nr` must equal `tp_block_size * tp_block_nr`.
#[derive(Clone, Debug, PartialEq, Eq, Structural)]
pub struct TpacketReq3 {
    /// Block size of ring
    pub tp_block_size: u32,
    /// Number of blocks allocated for ring
    pub tp_block_nr: u32,
    /// Frame size of ring
    pub tp_frame_size: u32,
    /// Number of frames in ring
    pub tp_frame_nr: u32,
    /// Timeout in milliseconds
    pub tp_retire_blk_tov: u32,
    /// Offset to private data area
    pub tp_sizeof_priv: u32,
    /// Controls whether RXHASH is filled - 0 for false, 1 for true
    pub tp_feature_req_word: u32,
}

/// One ring block as seen from its start.
#[derive(Clone, Debug, PartialEq, Eq, Structural)]
pub struct TpacketBlockDesc {
    pub version: u32,
    pub offset_to_priv: u32,
    pub hdr: TpacketBDHeader,
}

/// Block-level bookkeeping.
#[derive(Clone, Debug, PartialEq, Eq, Structural)]
pub struct TpacketBDHeader {
    pub block_status: u32,
    pub num_pkts: u32,
    pub offset_to_first_pkt: u32,
    pub blk_len: u32,
    pub seq_num: u64,
    pub ts_first_pkt: TpacketBDTS,
    pub ts_last_pkt: TpacketBDTS,
}

/// A block timestamp: seconds and nanoseconds.
#[derive(Clone, Debug, PartialEq, Eq, Structural)]
pub struct TpacketBDTS {
    pub ts_sec: u32,
    pub ts_nsec: u32,
}

/// Contains details about individual packets in a block
#[derive(Clone, Debug, PartialEq, Eq, Structural)]
pub struct Tpacket3Hdr {
    pub tp_next_offset: u32,
    pub tp_sec: u32,
    pub tp_nsec: u32,
    pub tp_snaplen: u32,
    pub tp_len: u32,
    pub tp_status: u32,
    pub tp_mac: u16,
    pub tp_net: u16,
    pub hv1: TpacketHdrVariant1,
}

/// Contains VLAN tags and RX Hash value (if enabled)
#[derive(Clone, Debug, PartialEq, Eq, Structural)]
pub struct TpacketHdrVariant1 {
    pub tp_rxhash: u32,
    pub tp_vlan_tci: u32,
    pub tp_vlan_tpid: u16,
    pub tp_padding: u16,
}

impl TpacketReq3 {
    /// The ring's geometry is consistent: the frames fill the blocks exactly.
    pub open spec fn frames_fill_blocks(&self) -> bool {
        self.tp_frame_size as int * self.tp_frame_nr as int == self.tp_block_size as int
            * self.tp_block_nr as int
    }
}

impl Default for TpacketReq3 {
    fn default() -> (r: TpacketReq3)
        ensures
            r == (TpacketReq3 {
                tp_block_size: 32768,
                tp_block_nr: 10000,
                tp_frame_size: 2048,
                tp_frame_nr: 160000,
                tp_retire_blk_tov: 100,
                tp_sizeof_priv: 0,
                tp_feature_req_word: TP_FT_REQ_FILL_RXHASH,
            }),
            r.frames_fill_blocks(),
    {
        TpacketReq3 {
            tp_block_size: 32768,
            tp_block_nr: 10000,
            tp_frame_size: 2048,
            tp_frame_nr: 160000,
            tp_retire_blk_tov: 100,
            tp_sizeof_priv: 0,
            tp_feature_req_word: TP_FT_REQ_FILL_RXHASH,
        }
    }
}

/// The timestamp that the first 8 bytes of `s` hold.
pub open spec fn bdts_of(s: Seq<u8>) -> TpacketBDTS {
    TpacketBDTS { ts_sec: le_u32_at(s, 0), ts_nsec: le_u32_at(s, 4) }
}

/// The block header that the first 40 bytes of `s` hold.
pub open spec fn bd_header_of(s: Seq<u8>) -> TpacketBDHeader {
    TpacketBDHeader {
        block_status: le_u32_at(s, 0),
        num_pkts: le_u32_at(s, 4),
        offset_to_first_pkt: le_u32_at(s, 8),
        blk_len: le_u32_at(s, 12),
        seq_num: le_u64_at(s, 16),
        ts_first_pkt: TpacketBDTS { ts_sec: le_u32_at(s, 24), ts_nsec: le_u32_at(s, 28) },
        ts_last_pkt: TpacketBDTS { ts_sec: le_u32_at(s, 32), ts_nsec: le_u32_at(s, 36) },
    }
}

/// The block descriptor that the first 48 bytes of `s` hold.
pub open spec fn block_desc_of(s: Seq<u8>) -> TpacketBlockDesc {
    TpacketBlockDesc {
        version: le_u32_at(s, 0),
        offset_to_priv: le_u32_at(s, 4),
        hdr: TpacketBDHeader {
            block_status: le_u32_at(s, 8),
            num_pkts: le_u32_at(s, 12),
            offset_to_first_pkt: le_u32_at(s, 16),
            blk_len: le_u32_at(s, 20),
            seq_num: le_u64_at(s, 24),
            ts_first_pkt: TpacketBDTS { ts_sec: le_u32_at(s, 32), ts_nsec: le_u32_at(s, 36) },
            ts_last_pkt: TpacketBDTS { ts_sec: le_u32_at(s, 40), ts_nsec: le_u32_at(s, 44) },
        },
    }
}

/// The variant-1 trailer that the first 12 bytes of `s` hold.
pub open spec fn hdr_variant1_of(s: Seq<u8>) -> TpacketHdrVariant1 {
    TpacketHdrVariant1 {
        tp_rxhash: le_u32_at(s, 0),
        tp_vlan_tci: le_u32_at(s, 4),
        tp_vlan_tpid: le_u16_at(s, 8),
        tp_padding: le_u16_at(s, 10),
    }
}

/// The packet header that the first 40 bytes of `s` hold.
pub open spec fn tpacket3_hdr_of(s: Seq<u8>) -> Tpacket3Hdr {
    Tpacket3Hdr {
        tp_next_offset: le_u32_at(s, 0),
        tp_sec: le_u32_at(s, 4),
        tp_nsec: le_u32_at(s, 8),
        tp_snaplen: le_u32_at(s, 12),
        tp_len: le_u32_at(s, 16),
        tp_status: le_u32_at(s, 20),
        tp_mac: le_u16_at(s, 24),
        tp_net: le_u16_at(s, 26),
        hv1: TpacketHdrVariant1 {
            tp_rxhash: le_u32_at(s, 28),
            tp_vlan_tci: le_u32_at(s, 32),
            tp_vlan_tpid: le_u16_at(s, 36),
            tp_padding: le_u16_at(s, 38),
        },
    }
}

/// Decodes a block descriptor, 48 bytes: the version and the offset of the
/// private area, then the block header.
pub fn get_tpacket_block_desc(input: &[u8]) -> (r: Result<(&[u8], TpacketBlockDesc), DecodeError>)
    ensures
        outcome(r) == fixed_width(input@, 48, block_desc_of(input@)),
{
    proof {
        lemma_skip_twice(input@);
    }
    let (input, version) = take_u32(input)?;
    let (input, offset_to_priv) = take_u32(input)?;
    let (input, hdr) = get_tpacket_bd_header(input)?;
    Ok((input, TpacketBlockDesc { version, offset_to_priv, hdr }))
}

/// Decodes a block header, 40 bytes: status word, packet count, offset of the
/// first packet, block length, sequence number, and the timestamps of the
/// first and the last packet.
pub fn get_tpacket_bd_header(input: &[u8]) -> (r: Result<(&[u8], TpacketBDHeader), DecodeError>)
    ensures
        outcome(r) == fixed_width(input@, 40, bd_header_of(input@)),
{
    proof {
        lemma_skip_twice(input@);
    }
    let (input, block_status) = take_u32(input)?;
    let (input, num_pkts) = take_u32(input)?;
    let (input, offset_to_first_pkt) = take_u32(input)?;
    let (input, blk_len) = take_u32(input)?;
    let (input, seq_num) = take_u64(input)?;
    let (input, ts_first_pkt) = get_tpacket_bdts(input)?;
    let (input, ts_last_pkt) = get_tpacket_bdts(input)?;
    Ok(
        (
            input,
            TpacketBDHeader {
                block_status,
                num_pkts,
                offset_to_first_pkt,
                blk_len,
                seq_num,
                ts_first_pkt,
                ts_last_pkt,
            },
        ),
    )
}

/// Decodes a block timestamp, 8 bytes: seconds, then nanoseconds.
pub fn get_tpacket_bdts(input: &[u8]) -> (r: Result<(&[u8], TpacketBDTS), DecodeError>)
    ensures
        outcome(r) == fixed_width(input@, 8, bdts_of(input@)),
{
    proof {
        lemma_skip_twice(input@);
    }
    let (input, ts_sec) = take_u32(input)?;
    let (input, ts_nsec) = take_u32(input)?;
    Ok((input, TpacketBDTS { ts_sec, ts_nsec }))
}

/// Decodes a variant-1 trailer, 12 bytes: RX hash, VLAN TCI, VLAN TPID and
/// the reserved padding, which is kept.
pub fn get_tpacket_hdr_variant1(input: &[u8]) -> (r: Result<
    (&[u8], TpacketHdrVariant1),
    DecodeError,
>)
    ensures
        outcome(r) == fixed_width(input@, 12, hdr_variant1_of(input@)),
{
    proof {
        lemma_skip_twice(input@);
    }
    let (input, tp_rxhash) = take_u32(input)?;
    let (input, tp_vlan_tci) = take_u32(input)?;
    let (input, tp_vlan_tpid) = take_u16(input)?;
    let (input, tp_padding) = take_u16(input)?;
    Ok((input, TpacketHdrVariant1 { tp_rxhash, tp_vlan_tci, tp_vlan_tpid, tp_padding }))
}

/// Decodes a packet header, 40 bytes: eight fixed fields on 28 bytes, then
/// the variant-1 trailer.
pub fn get_tpacket3_hdr(input: &[u8]) -> (r: Result<(&[u8], Tpacket3Hdr), DecodeError>)
    ensures
        outcome(r) == fixed_width(input@, 40, tpacket3_hdr_of(input@)),
{
    proof {
        lemma_skip_twice(input@);
    }
    let (input, tp_next_offset) = take_u32(input)?;
    let (input, tp_sec) = take_u32(input)?;
    let (input, tp_nsec) = take_u32(input)?;
    let (input, tp_snaplen) = take_u32(input)?;
    let (input, tp_len) = take_u32(input)?;
    let (input, tp_status) = take_u32(input)?;
    let (input, tp_mac) = take_u16(input)?;
    let (input, tp_net) = take_u16(input)?;
    let (input, hv1) = get_tpacket_hdr_variant1(input)?;
    Ok(
        (
            input,
            Tpacket3Hdr {
                tp_next_offset,
                tp_sec,
                tp_nsec,
                tp_snaplen,
                tp_len,
                tp_status,
                tp_mac,
                tp_net,
                hv1,
            },
        ),
    )
}

/// A decoder that needs `n` bytes gives `Incomplete`, and with it neither a
/// value nor a count of bytes read, on every window shorter than `n`.
pub proof fn lemma_short_window_is_incomplete<T>(s: Seq<u8>, n: int, v: T)
    requires
        s.len() < n,
    ensures
        fixed_width(s, n, v) == Err::<(Seq<u8>, T), DecodeError>(DecodeError::Incomplete),
{
}

/// A decoder that needs `n` bytes succeeds on every window of exactly `n`
/// bytes and leaves nothing unread.
pub proof fn lemma_exact_window_decodes<T>(s: Seq<u8>, n: int, v: T)
    requires
        s.len() == n,
    ensures
        fixed_width(s, n, v) == Ok::<(Seq<u8>, T), DecodeError>((Seq::<u8>::empty(), v)),
{
    assert(s.skip(n) =~= Seq::<u8>::empty());
}

/// A decoder that needs `n` bytes succeeds on every window of `n` bytes or
/// more and leaves the bytes after the first `n` unread.
pub proof fn lemma_long_window_decodes<T>(s: Seq<u8>, n: int, v: T)
    requires
        s.len() >= n,
    ensures
        fixed_width(s, n, v) == Ok::<(Seq<u8>, T), DecodeError>((s.skip(n), v)),
{
}

/// Decoding the same bytes twice gives the same outcome: two results that
/// both meet a decoder's contract on one window hold equal values and equal
/// unread bytes, or are both `Incomplete`.
pub proof fn lemma_decode_repeatable<T>(
    s: Seq<u8>,
    n: int,
    v: T,
    first: Result<(&[u8], T), DecodeError>,
    second: Result<(&[u8], T), DecodeError>,
)
    requires
        outcome(first) == fixed_width(s, n, v),
        outcome(second) == fixed_width(s, n, v),
    ensures
        outcome(first) == outcome(second),
        first is Ok <==> second is Ok,
        first is Ok ==> first->Ok_0.1 == second->Ok_0.1 && first->Ok_0.0@ == second->Ok_0.0@,
        first is Err ==> first->Err_0 == second->Err_0,
{
}

/// A timestamp depends on the first 8 bytes of its window and on nothing
/// after them.
pub proof fn lemma_bdts_reads_prefix(a: Seq<u8>, b: Seq<u8>)
    requires
        a.len() >= 8,
        b.len() >= 8,
        a.take(8) == b.take(8),
    ensures
        bdts_of(a) == bdts_of(b),
{
    lemma_same_prefix(a, b, 8);
}

/// A block header depends on the first 40 bytes of its window and on nothing
/// after them.
pub proof fn lemma_bd_header_reads_prefix(a: Seq<u8>, b: Seq<u8>)
    requires
        a.len() >= 40,
        b.len() >= 40,
        a.take(40) == b.take(40),
    ensures
        bd_header_of(a) == bd_header_of(b),
{
    lemma_same_prefix(a, b, 40);
}

/// A block descriptor depends on the first 48 bytes of its window and on
/// nothing after them.
pub proof fn lemma_block_desc_reads_prefix(a: Seq<u8>, b: Seq<u8>)
    requires
        a.len() >= 48,
        b.len() >= 48,
        a.take(48) == b.take(48),
    ensures
        block_desc_of(a) == block_desc_of(b),
{
    lemma_same_prefix(a, b, 48);
}

/// A variant-1 trailer depends on the first 12 bytes of its window and on
/// nothing after them.
pub proof fn lemma_hdr_variant1_reads_prefix(a: Seq<u8>, b: Seq<u8>)
    requires
        a.len() >= 12,
        b.len() >= 12,
        a.take(12) == b.take(12),
    ensures
        hdr_variant1_of(a) == hdr_variant1_of(b),
{
    lemma_same_prefix(a, b, 12);
}

/// A packet header depends on the first 40 bytes of its window and on
/// nothing after them.
pub proof fn lemma_tpacket3_hdr_reads_prefix(a: Seq<u8>, b: Seq<u8>)
    requires
        a.len() >= 40,
        b.len() >= 40,
        a.take(40) == b.take(40),
    ensures
        tpacket3_hdr_of(a) == tpacket3_hdr_of(b),
{
    lemma_same_prefix(a, b, 40);
}

/// The block header inside a descriptor is the one that the block header
/// decoder gives on the bytes after the descriptor's 8-byte prefix, and both
/// decoders stop at the same byte.
pub proof fn lemma_block_desc_nests_bd_header(s: Seq<u8>)
    requires
        s.len() >= 48,
    ensures
        fixed_width(s.skip(8), 40, bd_header_of(s.skip(8))) == Ok::<
            (Seq<u8>, TpacketBDHeader),
            DecodeError,
        >((s.skip(48), block_desc_of(s).hdr)),
        fixed_width(s, 48, block_desc_of(s)) == Ok::<(Seq<u8>, TpacketBlockDesc), DecodeError>(
            (
                s.skip(48),
                TpacketBlockDesc {
                    version: le_u32_at(s, 0),
                    offset_to_priv: le_u32_at(s, 4),
                    hdr: bd_header_of(s.skip(8)),
                },
            ),
        ),
{
    lemma_skip_twice(s);
}

/// The two timestamps inside a block header are the ones that the timestamp
/// decoder gives on the bytes at offsets 24 and 32 of the header.
pub proof fn lemma_bd_header_nests_bdts(s: Seq<u8>)
    requires
        s.len() >= 40,
    ensures
        fixed_width(s.skip(24), 8, bdts_of(s.skip(24))) == Ok::<(Seq<u8>, TpacketBDTS), DecodeError>(
            (s.skip(32), bd_header_of(s).ts_first_pkt),
        ),
        fixed_width(s.skip(32), 8, bdts_of(s.skip(32))) == Ok::<(Seq<u8>, TpacketBDTS), DecodeError>(
            (s.skip(40), bd_header_of(s).ts_last_pkt),
        ),
{
    lemma_skip_twice(s);
}

/// The variant-1 trailer inside a packet header is the one that the trailer
/// decoder gives on the bytes after the header's 28 fixed bytes, and both
/// decoders stop at the same byte.
pub proof fn lemma_tpacket3_hdr_nests_variant1(s: Seq<u8>)
    requires
        s.len() >= 40,
    ensures
        fixed_width(s.skip(28), 12, hdr_variant1_of(s.skip(28))) == Ok::<
            (Seq<u8>, TpacketHdrVariant1),
            DecodeError,
        >((s.skip(40), tpacket3_hdr_of(s).hv1)),
{
    lemma_skip_twice(s);
}

/// The status word of a decoded block is the little-endian word at
/// `TP_BLK_STATUS_OFFSET` from the start of the block, so a reader of that
/// word alone and the full decoder agree.
pub proof fn lemma_block_status_at_fixed_offset(s: Seq<u8>)
    requires
        s.len() >= 48,
    ensures
        block_desc_of(s).hdr.block_status == le_u32_at(s, TP_BLK_STATUS_OFFSET as int),
        bd_header_of(s.skip(TP_BLK_STATUS_OFFSET as int)).block_status == le_u32_at(
            s,
            TP_BLK_STATUS_OFFSET as int,
        ),
{
}

/// Windows that agree on their first `n` bytes agree at each index below `n`.
proof fn lemma_same_prefix(a: Seq<u8>, b: Seq<u8>, n: int)
    requires
        0 <= n <= a.len(),
        n <= b.len(),
        a.take(n) == b.take(n),
    ensures
        forall|i: int| 0 <= i < n ==> a[i] == b[i],
{
    assert forall|i: int| 0 <= i < n implies a[i] == b[i] by {
        assert(a.take(n)[i] == a[i]);
        assert(b.take(n)[i] == b[i]);
    }
}

} // verus!
