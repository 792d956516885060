//! The world chunker: splits a raw world buffer into consecutive 1024-byte
//! transfer units, zero-padding the last one, with a monotonically
//! non-decreasing progress indicator that reaches exactly 100 on the final
//! unit.

use vstd::prelude::*;
use vstd::arithmetic::div_mod::lemma_div_is_ordered;
use vstd::arithmetic::div_mod::lemma_div_multiples_vanish;
use vstd::arithmetic::div_mod::lemma_div_multiples_vanish_fancy;
use vstd::arithmetic::div_mod::lemma_fundamental_div_mod;

use crate::packet::LevelDataChunkPacket;
use crate::packet::PacketType;
use crate::wire::padded_chunk;

verus! {

/// How many 1024-byte chunks a buffer of `len` bytes yields: `ceil(len /
/// 1024)`, which is 0 for an empty buffer.
pub open spec fn num_chunks(len: int) -> int {
    (len + 1023) / 1024
}

/// The real (non-padding) bytes of the `i`-th chunk of `b`, 0-indexed: a full
/// 1024-byte slice for every chunk but possibly the last.
pub open spec fn chunk_slice(b: Seq<u8>, i: int) -> Seq<u8> {
    b.subrange(
        1024 * i,
        if 1024 * (i + 1) <= b.len() {
            1024 * (i + 1)
        } else {
            b.len() as int
        },
    )
}

/// The progress value attached to the `i`-th chunk of `total`, 1-indexed:
/// `floor(100 * i / total)`.
pub open spec fn chunk_progress(i: int, total: int) -> int {
    100 * i / total
}

/// What the `i`-th packet of a chunked transfer of `b` holds: the level-data
/// opcode, a fixed chunk length of 1024, the `i`-th slice zero-padded to 1024
/// bytes, and the progress value of chunk `i + 1` of `total`.
pub open spec fn is_chunk_packet(
    b: Seq<u8>,
    i: int,
    total: int,
    p: LevelDataChunkPacket,
) -> bool {
    &&& p.base.packet_type is Downstream
    &&& p.base.packet_id == 0x03
    &&& p.chunk_length == 1024
    &&& p.chunk_data@ == padded_chunk(chunk_slice(b, i))
    &&& p.percent_complete == chunk_progress(i + 1, total)
}

/// The number of chunks follows the buffer length as `len / 1024`, rounded up.
proof fn lemma_num_chunks(len: int)
    requires
        len >= 0,
    ensures
        num_chunks(len) == len / 1024 + if len % 1024 == 0 {
            0int
        } else {
            1int
        },
        num_chunks(len) >= 0,
        1024 * (num_chunks(len) - 1) < len || len == 0,
        len <= 1024 * num_chunks(len),
{
    let q = len / 1024;
    let r = len % 1024;
    lemma_fundamental_div_mod(len, 1024);
    if r == 0 {
        lemma_div_multiples_vanish_fancy(q, 1023, 1024);
        assert(1024 * q + 1023 == len + 1023);
    } else {
        lemma_div_multiples_vanish_fancy(q + 1, r - 1, 1024);
        assert(1024 * (q + 1) + (r - 1) == len + 1023);
    }
}

/// The progress of chunk `i` of `total` lies between 0 and 100, and equals
/// exactly 100 for the final chunk.
pub proof fn lemma_progress_bounds(i: int, total: int)
    requires
        1 <= i <= total,
    ensures
        0 <= chunk_progress(i, total) <= 100,
        chunk_progress(total, total) == 100,
{
    lemma_div_is_ordered(0, 100 * i, total);
    lemma_div_is_ordered(100 * i, 100 * total, total);
    lemma_div_multiples_vanish(100, total);
    assert(total * 100 == 100 * total);
}

/// Progress monotonicity: across the ordered chunk sequence the progress
/// values are non-decreasing, and the final chunk's value is exactly 100.
pub proof fn lemma_progress_monotonic(i: int, j: int, total: int)
    requires
        1 <= i <= j <= total,
    ensures
        chunk_progress(i, total) <= chunk_progress(j, total),
        chunk_progress(total, total) == 100,
{
    lemma_div_is_ordered(100 * i, 100 * j, total);
    lemma_progress_bounds(i, total);
}

/// A world ready for transfer: the ordered level-data-chunk packets produced
/// from its raw byte buffer.
pub struct World {
    pub packets: Vec<LevelDataChunkPacket>,
}

impl World {
    /// Splits a raw world buffer into `ceil(len / 1024)` level-data-chunk
    /// packets, in order.  Each carries 1024 payload bytes; the last is
    /// zero-padded on the right when the buffer length is not a multiple of
    /// 1024.  An empty buffer yields no packets.  The output is a pure
    /// function of the bytes, so a transfer is safe to replay.
    pub fn generate_packets(buffer: &Vec<u8>) -> (r: Vec<LevelDataChunkPacket>)
        ensures
            r@.len() == num_chunks(buffer@.len() as int),
            forall|i: int|
                0 <= i < r@.len() ==> is_chunk_packet(
                    buffer@,
                    i,
                    num_chunks(buffer@.len() as int),
                    #[trigger] r@[i],
                ),
    {
        let len = buffer.len();
        let total: usize = len / 1024 + if len % 1024 == 0 {
            0
        } else {
            1
        };
        proof {
            lemma_num_chunks(len as int);
        }
        let mut packets: Vec<LevelDataChunkPacket> = Vec::new();
        let mut i: usize = 0;
        while i < total
            invariant
                len == buffer@.len(),
                total == num_chunks(len as int),
                1024 * (total - 1) < len || len == 0,
                i <= total,
                packets@.len() == i,
                forall|m: int|
                    0 <= m < i ==> is_chunk_packet(
                        buffer@,
                        m,
                        total as int,
                        #[trigger] packets@[m],
                    ),
            decreases total - i,
        {
            let start = 1024 * i;
            proof {
                assert(1024 * (i as int) <= 1024 * (total - 1)) by {
                    assert(i as int <= total - 1);
                    assert(1024 * (i as int) <= 1024 * (total - 1)) by (nonlinear_arith)
                        requires
                            i as int <= total - 1,
                    ;
                }
            }
            let remaining = len - start;
            let mut data: Vec<u8> = Vec::new();
            let mut j: usize = 0;
            while j < 1024
                invariant
                    j <= 1024,
                    start == 1024 * i,
                    start < len == buffer@.len(),
                    remaining == len - start,
                    data@ == padded_chunk(chunk_slice(buffer@, i as int)).take(j as int),
                decreases 1024 - j,
            {
                let b = if j < remaining {
                    buffer[start + j]
                } else {
                    0
                };
                data.push(b);
                proof {
                    assert(data@ =~= padded_chunk(chunk_slice(buffer@, i as int)).take(
                        j + 1,
                    ));
                }
                j += 1;
            }
            proof {
                assert(data@ =~= padded_chunk(chunk_slice(buffer@, i as int)));
            }
            let pct64: u64 = (100u64 * (i as u64 + 1)) / (total as u64);
            proof {
                lemma_progress_bounds(i as int + 1, total as int);
            }
            let packet = LevelDataChunkPacket::new(1024, data, pct64 as u8);
            packets.push(packet);
            i += 1;
        }
        packets
    }
}

/// The real bytes of the first `n` chunks of `b`, concatenated in order.
pub open spec fn reassembled(b: Seq<u8>, n: int) -> Seq<u8>
    decreases n,
{
    if n <= 0 {
        Seq::empty()
    } else {
        reassembled(b, n - 1) + chunk_slice(b, n - 1)
    }
}

proof fn lemma_reassembled_prefix(b: Seq<u8>, n: int)
    requires
        0 <= n <= num_chunks(b.len() as int),
    ensures
        reassembled(b, n) == b.take(
            if 1024 * n <= b.len() {
                1024 * n
            } else {
                b.len() as int
            },
        ),
    decreases n,
{
    if n == 0 {
        assert(reassembled(b, 0) =~= b.take(0));
    } else {
        lemma_reassembled_prefix(b, n - 1);
        lemma_num_chunks(b.len() as int);
        assert(1024 * (n - 1) <= 1024 * (num_chunks(b.len() as int) - 1)) by (nonlinear_arith)
            requires
                n - 1 <= num_chunks(b.len() as int) - 1,
        ;
        assert(reassembled(b, n) =~= b.take(
            if 1024 * n <= b.len() {
                1024 * n
            } else {
                b.len() as int
            },
        ));
    }
}

/// Chunk reconstruction: concatenating the real (non-padding) bytes of every
/// chunk reproduces the original buffer exactly, and the number of chunks is
/// the buffer length divided by 1024, rounded up — 0 for an empty buffer.
pub proof fn lemma_chunk_reconstruction(b: Seq<u8>)
    ensures
        reassembled(b, num_chunks(b.len() as int)) == b,
        b.len() == 0 ==> num_chunks(b.len() as int) == 0,
        b.len() > 0 ==> 1024 * (num_chunks(b.len() as int) - 1) < b.len() <= 1024 * num_chunks(
            b.len() as int,
        ),
{
    let total = num_chunks(b.len() as int);
    lemma_num_chunks(b.len() as int);
    lemma_reassembled_prefix(b, total);
    assert(b.take(b.len() as int) =~= b);
    if 1024 * total <= b.len() {
        assert(b.take(1024 * total) =~= b);
    }
}

} // verus!
