use vstd::prelude::*;

verus! {

use std::collections::HashMap;
use crate::vector_i32::Vec3i;
use crate::meshing::bit;

/// Width and depth of a chunk, in voxels.
pub const CHUNK_XY: usize = 128;

/// Height of a chunk, in voxels: one bit of a `u64` column per voxel.
pub const CHUNK_Z: usize = 64;

/// Number of columns in a chunk.
pub const CHUNK_AREA: usize = CHUNK_XY * CHUNK_XY;

/// Occupancy of a chunk: one `u64` per column, column `(x, y)` at index `x * CHUNK_XY + y`,
/// bit `z` of a column set when voxel `(x, y, z)` is solid.
pub struct OpaqueChunk {
    pub data: Vec<u64>,
}

/// Whether `pos` lies inside the chunk's voxel box.
pub open spec fn in_chunk(pos: Vec3i) -> bool {
    &&& 0 <= pos.x < CHUNK_XY
    &&& 0 <= pos.y < CHUNK_XY
    &&& 0 <= pos.z < CHUNK_Z
}

/// Index of column `(x, y)` in the chunk's data.
pub open spec fn column_index(x: int, y: int) -> int {
    x * CHUNK_XY + y
}

impl OpaqueChunk {
    /// A chunk holds exactly one column per horizontal position.
    pub open spec fn wf(&self) -> bool {
        self.data.len() == CHUNK_AREA
    }

    /// Whether voxel `pos` is solid: it lies in the chunk and its bit is set.
    pub open spec fn occupied(&self, pos: Vec3i) -> bool {
        &&& in_chunk(pos)
        &&& self.data@[column_index(pos.x as int, pos.y as int)] & (1u64 << (pos.z as u64)) != 0
    }

    /// Whether voxel `pos` is solid; false outside the chunk.
    pub fn get(&self, pos: Vec3i) -> (r: bool)
        requires
            self.wf(),
        ensures
            r == self.occupied(pos),
    {
        if pos.x < 0 || pos.y < 0 || pos.z < 0 {
            return false;
        }
        if pos.x >= CHUNK_XY as i32 || pos.y >= CHUNK_XY as i32 || pos.z >= CHUNK_Z as i32 {
            return false;
        }
        let idx = pos.x as usize * CHUNK_XY + pos.y as usize;
        if self.data[idx] & (1u64 << pos.z as u64) == 0 {
            return false;
        }
        true
    }
}

/// Where the terrain surface stands relative to a chunk's floor, for one column.
#[derive(Debug, Clone, Copy, PartialEq, Eq, Structural)]
pub enum ColumnLevel {
    /// The surface lies below the chunk: the column is empty.
    Below,
    /// The surface lies above the chunk: the column is full.
    Above,
    /// The surface lies within the chunk, at this rounded height above its floor.
    Within(u32),
}

/// The bits of a column whose surface is at `level`.
pub open spec fn column_bits(level: ColumnLevel) -> u64 {
    match level {
        ColumnLevel::Below => 0,
        ColumnLevel::Above => 0xFFFF_FFFF_FFFF_FFFFu64,
        ColumnLevel::Within(h) => 0xFFFF_FFFF_FFFF_FFFFu64 >> (h as u64),
    }
}

/// Whether a level can be turned into column bits: a height within the chunk is a valid
/// shift of a `u64`.
pub open spec fn level_fits(level: ColumnLevel) -> bool {
    match level {
        ColumnLevel::Within(h) => h < CHUNK_Z,
        _ => true,
    }
}

/// Builds a chunk from the surface level of each of its columns, given in column order
/// (`x * CHUNK_XY + y`).
pub fn generate(levels: &Vec<ColumnLevel>) -> (chunk: OpaqueChunk)
    requires
        levels.len() == CHUNK_AREA,
        forall|i: int| 0 <= i < CHUNK_AREA ==> level_fits(#[trigger] levels@[i]),
    ensures
        chunk.wf(),
        forall|i: int| 0 <= i < CHUNK_AREA ==> chunk.data@[i] == column_bits(#[trigger] levels@[i]),
{
    let mut data: Vec<u64> = Vec::new();
    let mut k: usize = 0;
    while k < CHUNK_AREA
        invariant
            k <= CHUNK_AREA,
            levels.len() == CHUNK_AREA,
            forall|i: int| 0 <= i < CHUNK_AREA ==> level_fits(#[trigger] levels@[i]),
            data.len() == k,
            forall|i: int| 0 <= i < k ==> data@[i] == column_bits(#[trigger] levels@[i]),
        decreases CHUNK_AREA - k,
    {
        let bits: u64 = match levels[k] {
            ColumnLevel::Below => 0,
            ColumnLevel::Above => 0xFFFF_FFFF_FFFF_FFFF,
            ColumnLevel::Within(h) => 0xFFFF_FFFF_FFFF_FFFFu64 >> h as u64,
        };
        data.push(bits);
        k = k + 1;
    }
    OpaqueChunk { data }
}

/// A chunk's bits agree with `get`: inside the chunk, a voxel of a generated column is solid
/// when the column is full, or when the surface is within the chunk and the voxel's height
/// is below 64 minus the surface height.
pub proof fn lemma_generated_voxel(levels: Seq<ColumnLevel>, chunk: OpaqueChunk, pos: Vec3i)
    requires
        levels.len() == CHUNK_AREA,
        forall|i: int| 0 <= i < CHUNK_AREA ==> level_fits(#[trigger] levels[i]),
        chunk.wf(),
        forall|i: int| 0 <= i < CHUNK_AREA ==> chunk.data@[i] == column_bits(#[trigger] levels[i]),
        in_chunk(pos),
    ensures
        chunk.occupied(pos) == match levels[column_index(pos.x as int, pos.y as int)] {
            ColumnLevel::Below => false,
            ColumnLevel::Above => true,
            ColumnLevel::Within(h) => pos.z + h < CHUNK_Z,
        },
{
    let i = column_index(pos.x as int, pos.y as int);
    assert(0 <= i < CHUNK_AREA) by (nonlinear_arith)
        requires
            i == pos.x * 128 + pos.y,
            0 <= pos.x < 128,
            0 <= pos.y < 128,
    ;
    let z = pos.z as u64;
    let word = chunk.data@[i];
    match levels[i] {
        ColumnLevel::Below => {
            assert(0u64 & (1u64 << z) == 0) by (bit_vector);
        },
        ColumnLevel::Above => {
            assert(0xFFFF_FFFF_FFFF_FFFFu64 & (1u64 << z) != 0) by (bit_vector)
                requires
                    z < 64,
            ;
        },
        ColumnLevel::Within(h) => {
            let s = h as u64;
            assert((0xFFFF_FFFF_FFFF_FFFFu64 >> s) & (1u64 << z) != 0 <==> z + s < 64)
                by (bit_vector)
                requires
                    z < 64,
                    s < 64,
            ;
        },
    }
}

/// A voxel is solid exactly when it lies in the chunk and bit `z` of its column
/// `x * 128 + y` is set: `get` reads one bit, and only inside the chunk.
pub proof fn lemma_occupied_is_column_bit(chunk: OpaqueChunk, pos: Vec3i)
    requires
        chunk.wf(),
    ensures
        chunk.occupied(pos) == (0 <= pos.x < 128 && 0 <= pos.y < 128 && 0 <= pos.z < 64 && bit(
            chunk.data@[pos.x * 128 + pos.y],
            pos.z as u64,
        )),
{
    if 0 <= pos.x < 128 && 0 <= pos.y < 128 && 0 <= pos.z < 64 {
        let w = chunk.data@[pos.x * 128 + pos.y];
        let z = pos.z as u64;
        assert((w & (1u64 << z) != 0) == ((w >> z) & 1u64 == 1u64)) by (bit_vector)
            requires
                z < 64,
        ;
    }
}

/// Setting bit `z` of one column makes exactly voxel `(x, y, z)` solid: every other voxel
/// of the chunk keeps its state.
pub proof fn lemma_set_bit_flips_one_voxel(
    chunk: OpaqueChunk,
    chunk2: OpaqueChunk,
    x: i32,
    y: i32,
    z: i32,
    pos: Vec3i,
)
    requires
        chunk.wf(),
        chunk2.wf(),
        0 <= x < 128,
        0 <= y < 128,
        0 <= z < 64,
        chunk2.data@ == chunk.data@.update(
            x * 128 + y,
            chunk.data@[x * 128 + y] | (1u64 << (z as u64)),
        ),
    ensures
        chunk2.occupied(pos) == if pos == (Vec3i { x, y, z }) {
            true
        } else {
            chunk.occupied(pos)
        },
{
    lemma_occupied_is_column_bit(chunk, pos);
    lemma_occupied_is_column_bit(chunk2, pos);
    if 0 <= pos.x < 128 && 0 <= pos.y < 128 && 0 <= pos.z < 64 {
        let i = pos.x * 128 + pos.y;
        let c = x * 128 + y;
        assert(0 <= c < CHUNK_AREA) by (nonlinear_arith)
            requires
                c == x * 128 + y,
                0 <= x < 128,
                0 <= y < 128,
        ;
        if i == c {
            assert(pos.x == x && pos.y == y) by (nonlinear_arith)
                requires
                    i == c,
                    i == pos.x * 128 + pos.y,
                    c == x * 128 + y,
                    0 <= x < 128,
                    0 <= y < 128,
                    0 <= pos.x < 128,
                    0 <= pos.y < 128,
            ;
            let w = chunk.data@[c];
            let zz = z as u64;
            let pz = pos.z as u64;
            assert(((w | (1u64 << zz)) >> pz) & 1u64 == 1u64 <==> pz == zz || (w >> pz) & 1u64
                == 1u64) by (bit_vector)
                requires
                    zz < 64,
                    pz < 64,
            ;
        }
    }
}

/// Keeps track of chunks whose meshes are on the graphics device.
pub struct MeshManager {}

/// The loaded chunks, by chunk coordinate.
pub struct OpaqueManager {
    chunks: HashMap<Vec3i, OpaqueChunk>,
}

} // verus!
