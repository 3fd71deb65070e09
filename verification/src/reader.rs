//! The BD1 reader: walks a byte buffer once, decoding the texture
//! table and then every fixed-width block record until the buffer is
//! exhausted. Construction is all-or-nothing.
//!
//! Record layout, all fields little-endian: 8 corner positions of
//! three 32-bit components (96 bytes), 24 texture coordinate pairs of
//! two 32-bit components (192 bytes), 6 signed 32-bit face texture
//! indices (24 bytes), and one flag byte, nonzero meaning enabled —
//! 313 bytes in all.

use crate::error::FormatError;
use crate::geom::{Block, BlockView, Vector3, UV};
use crate::texture::{decode_table, slot_at, slot_name, table_ok, TextureTable, TABLE_BYTES};
use vstd::prelude::*;
use vstd::arithmetic::div_mod::lemma_fundamental_div_mod;

verus! {

/// Width in bytes of one block record.
pub const RECORD_BYTES: usize = 313;

/// Offset of the texture coordinate region inside a record.
pub const UV_OFFSET: usize = 96;

/// Offset of the face texture index region inside a record.
pub const TEXTURE_ID_OFFSET: usize = 288;

/// Offset of the enabled flag byte inside a record.
pub const ENABLED_OFFSET: usize = 312;

/// The unsigned 32-bit value of the four little-endian bytes at `off`.
pub open spec fn le_u32_at(b: Seq<u8>, off: int) -> u32 {
    ((b[off] as int) + (b[off + 1] as int) * 0x100 + (b[off + 2] as int) * 0x10000 + (b[off + 3]
        as int) * 0x1000000) as u32
}

/// The signed 32-bit value of the four little-endian bytes at `off`,
/// read as two's complement.
pub open spec fn le_i32_at(b: Seq<u8>, off: int) -> i32 {
    if le_u32_at(b, off) >= 0x8000_0000 {
        (le_u32_at(b, off) - 0x1_0000_0000) as i32
    } else {
        le_u32_at(b, off) as i32
    }
}

/// Reads the unsigned little-endian 32-bit field at `off`.
fn read_u32_le(bin: &Vec<u8>, off: usize) -> (x: u32)
    requires
        off + 4 <= bin@.len(),
    ensures
        x == le_u32_at(bin@, off as int),
{
    proof {
        assert(bin.len() <= usize::MAX);
    }
    let b0 = bin[off] as u32;
    let b1 = bin[off + 1] as u32;
    let b2 = bin[off + 2] as u32;
    let b3 = bin[off + 3] as u32;
    b0 + b1 * 0x100 + b2 * 0x10000 + b3 * 0x1000000
}

/// Reads the signed little-endian 32-bit field at `off`.
fn read_i32_le(bin: &Vec<u8>, off: usize) -> (x: i32)
    requires
        off + 4 <= bin@.len(),
    ensures
        x == le_i32_at(bin@, off as int),
{
    let u = read_u32_le(bin, off);
    if u >= 0x8000_0000 {
        -((0xFFFF_FFFFu32 - u) as i32) - 1
    } else {
        u as i32
    }
}

/// Corner position `k` of a record region.
pub open spec fn record_position(r: Seq<u8>, k: int) -> Vector3 {
    Vector3 {
        x_bits: le_u32_at(r, 12 * k),
        y_bits: le_u32_at(r, 12 * k + 4),
        z_bits: le_u32_at(r, 12 * k + 8),
    }
}

/// Texture coordinate pair `k` of a record region.
pub open spec fn record_uv(r: Seq<u8>, k: int) -> UV {
    UV { u_bits: le_u32_at(r, 96 + 8 * k), v_bits: le_u32_at(r, 96 + 8 * k + 4) }
}

/// Face texture index `k` of a record region.
pub open spec fn record_texture_id(r: Seq<u8>, k: int) -> i32 {
    le_i32_at(r, 288 + 4 * k)
}

/// The enabled flag of a record region: its final byte, nonzero
/// meaning enabled.
pub open spec fn record_enabled(r: Seq<u8>) -> bool {
    r[312] != 0
}

/// The block value one 313-byte record region decodes to.
pub open spec fn record_block(r: Seq<u8>) -> BlockView {
    BlockView {
        vertex_positions: Seq::new(8, |k: int| record_position(r, k)),
        uvs: Seq::new(24, |k: int| record_uv(r, k)),
        texture_ids: Seq::new(6, |k: int| record_texture_id(r, k)),
        enabled: record_enabled(r),
    }
}

/// Decodes the 313-byte block record starting at `pos`.
fn decode_block(bin: &Vec<u8>, pos: usize) -> (b: Block)
    requires
        pos + RECORD_BYTES <= bin@.len(),
    ensures
        b.wf(),
        b@ == record_block(bin@.subrange(pos as int, pos as int + RECORD_BYTES as int)),
{
    let ghost r = bin@.subrange(pos as int, pos as int + RECORD_BYTES as int);
    proof {
        assert(bin.len() <= usize::MAX);
    }

    let mut vertex_positions: Vec<Vector3> = Vec::new();
    let mut k: usize = 0;
    while k < 8
        invariant
            pos + RECORD_BYTES <= bin@.len() <= usize::MAX,
            r == bin@.subrange(pos as int, pos as int + RECORD_BYTES as int),
            k <= 8,
            vertex_positions@.len() == k,
            forall|m: int| 0 <= m < k ==> vertex_positions@[m] == record_position(r, m),
        decreases 8 - k,
    {
        let x_bits = read_u32_le(bin, pos + 12 * k);
        let y_bits = read_u32_le(bin, pos + 12 * k + 4);
        let z_bits = read_u32_le(bin, pos + 12 * k + 8);
        proof {
            assert forall|c: int| 12 * k <= c < 12 * k + 12 implies r[c] == bin@[pos + c] by {}
        }
        vertex_positions.push(Vector3 { x_bits, y_bits, z_bits });
        k += 1;
    }

    let mut uvs: Vec<UV> = Vec::new();
    let mut k: usize = 0;
    while k < 24
        invariant
            pos + RECORD_BYTES <= bin@.len() <= usize::MAX,
            r == bin@.subrange(pos as int, pos as int + RECORD_BYTES as int),
            k <= 24,
            uvs@.len() == k,
            forall|m: int| 0 <= m < k ==> uvs@[m] == record_uv(r, m),
        decreases 24 - k,
    {
        let u_bits = read_u32_le(bin, pos + UV_OFFSET + 8 * k);
        let v_bits = read_u32_le(bin, pos + UV_OFFSET + 8 * k + 4);
        proof {
            assert forall|c: int| 96 + 8 * k <= c < 96 + 8 * k + 8 implies r[c] == bin@[pos
                + c] by {}
        }
        uvs.push(UV { u_bits, v_bits });
        k += 1;
    }

    let mut texture_ids: Vec<i32> = Vec::new();
    let mut k: usize = 0;
    while k < 6
        invariant
            pos + RECORD_BYTES <= bin@.len() <= usize::MAX,
            r == bin@.subrange(pos as int, pos as int + RECORD_BYTES as int),
            k <= 6,
            texture_ids@.len() == k,
            forall|m: int| 0 <= m < k ==> texture_ids@[m] == record_texture_id(r, m),
        decreases 6 - k,
    {
        let id = read_i32_le(bin, pos + TEXTURE_ID_OFFSET + 4 * k);
        proof {
            assert forall|c: int| 288 + 4 * k <= c < 288 + 4 * k + 4 implies r[c] == bin@[pos
                + c] by {}
        }
        texture_ids.push(id);
        k += 1;
    }

    let enabled = bin[pos + ENABLED_OFFSET] != 0;
    assert(r[312] == bin@[pos + 312]);

    let b = Block { vertex_positions, uvs, texture_ids, enabled };
    assert(b@ =~= record_block(r));
    b
}

/// The buffer has a full texture table of ASCII slots and a record
/// region that is an exact multiple of the record width: it decodes.
pub open spec fn parse_ok(b: Seq<u8>) -> bool {
    &&& b.len() >= TABLE_BYTES
    &&& table_ok(b)
    &&& records_aligned(b)
}

/// The bytes after the texture table are an exact multiple of one
/// record's width.
pub open spec fn records_aligned(b: Seq<u8>) -> bool {
    (b.len() - TABLE_BYTES) % (RECORD_BYTES as int) == 0
}

/// How many block records the buffer carries after the texture table.
pub open spec fn block_count(b: Seq<u8>) -> int {
    (b.len() - TABLE_BYTES) / (RECORD_BYTES as int)
}

/// The bytes of record `n`, counting from the end of the texture
/// table.
pub open spec fn record_at(b: Seq<u8>, n: int) -> Seq<u8> {
    b.subrange(TABLE_BYTES + RECORD_BYTES * n, TABLE_BYTES + RECORD_BYTES * n + RECORD_BYTES)
}

/// The decoded form of one BD1 buffer: the texture table and the block
/// records in file order.
#[derive(Debug)]
pub struct Reader {
    pub texture_filenames: TextureTable,
    pub blocks: Vec<Block>,
}

impl Reader {
    /// The table has its ten entries and every block its fixed
    /// arities.
    pub open spec fn wf(self) -> bool {
        &&& self.texture_filenames.wf()
        &&& forall|n: int| 0 <= n < self.blocks@.len() ==> (#[trigger] self.blocks@[n]).wf()
    }

    /// Decodes a whole buffer: the ten-slot texture table, then block
    /// records until the bytes run out. Returns the first failure —
    /// truncation before encoding before misalignment — and no partial
    /// result.
    pub fn new(bin: &Vec<u8>) -> (r: Result<Reader, FormatError>)
        ensures
            match r {
                Ok(reader) => {
                    &&& parse_ok(bin@)
                    &&& reader.wf()
                    &&& reader.texture_filenames@.len() == 10
                    &&& forall|i: int|
                        0 <= i < 10 ==> #[trigger] reader.texture_filenames@[i] == slot_name(
                            slot_at(bin@, i),
                        )
                    &&& reader.blocks@.len() == block_count(bin@)
                    &&& forall|n: int|
                        0 <= n < block_count(bin@) ==> #[trigger] reader.blocks@[n]@
                            == record_block(record_at(bin@, n))
                },
                Err(e) => {
                    &&& !parse_ok(bin@)
                    &&& (e == FormatError::TruncatedBuffer <==> bin@.len() < TABLE_BYTES)
                    &&& (e == FormatError::InvalidEncoding <==> bin@.len() >= TABLE_BYTES
                        && !table_ok(bin@))
                    &&& (e == FormatError::MisalignedRecords <==> bin@.len() >= TABLE_BYTES
                        && table_ok(bin@) && !records_aligned(bin@))
                },
            },
    {
        let n: usize = bin.len();
        if n < TABLE_BYTES {
            return Err(FormatError::TruncatedBuffer);
        }

        let texture_filenames = match decode_table(bin) {
            Ok(t) => t,
            Err(e) => {
                return Err(e);
            },
        };

        let rest = n - TABLE_BYTES;
        if rest % RECORD_BYTES != 0 {
            return Err(FormatError::MisalignedRecords);
        }
        let count = rest / RECORD_BYTES;
        proof {
            lemma_fundamental_div_mod(rest as int, RECORD_BYTES as int);
            assert(n as int == TABLE_BYTES + RECORD_BYTES * (count as int));
        }

        let mut blocks: Vec<Block> = Vec::new();
        let mut idx: usize = 0;
        while idx < count
            invariant
                bin@.len() == n,
                n as int == TABLE_BYTES + RECORD_BYTES * (count as int),
                count == block_count(bin@),
                idx <= count,
                blocks@.len() == idx,
                forall|m: int|
                    0 <= m < idx ==> #[trigger] blocks@[m]@ == record_block(record_at(bin@, m)),
                forall|m: int| 0 <= m < idx ==> (#[trigger] blocks@[m]).wf(),
            decreases count - idx,
        {
            let pos = TABLE_BYTES + RECORD_BYTES * idx;
            let b = decode_block(bin, pos);
            assert(record_at(bin@, idx as int) == bin@.subrange(
                pos as int,
                pos as int + RECORD_BYTES as int,
            ));
            blocks.push(b);
            idx += 1;
        }

        Ok(Reader { texture_filenames, blocks })
    }
}

} // verus!
