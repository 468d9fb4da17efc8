use vstd::prelude::*;

verus! {

use crate::vector_i32::{Vec2i, Vec3i};
use crate::chunk::{OpaqueChunk, CHUNK_XY, CHUNK_AREA};
use vstd::arithmetic::power2::{pow2, lemma2_to64, lemma_pow2_pos, lemma_pow2_unfold};
use vstd::bits::{lemma_u64_shl_is_mul, lemma_u64_shr_is_div};

/// Triangle mesh with 16-bit indices. Vertex coordinates are on the half-voxel lattice:
/// a stored coordinate `c` stands for the position `c / 2`.
pub struct IndexedMesh {
    vert: Vec<Vec3i>,
    ind: Vec<u16>,
}

/// The contents of an `IndexedMesh`.
pub struct MeshModel {
    pub vert: Seq<Vec3i>,
    pub ind: Seq<u16>,
}

impl View for IndexedMesh {
    type V = MeshModel;

    closed spec fn view(&self) -> MeshModel {
        MeshModel { vert: self.vert@, ind: self.ind@ }
    }
}

/// The mesh with no vertices and no indices.
pub open spec fn empty_mesh() -> MeshModel {
    MeshModel { vert: Seq::empty(), ind: Seq::empty() }
}

/// The six indices of the two triangles of the quad whose four vertices end at `len`:
/// with the quad's vertices `a, b, c, d` last, the triangles `(d, c, a)` and `(b, a, d)`.
pub open spec fn quad_indices(len: int) -> Seq<u16> {
    seq![
        (len - 1) as u16,
        (len - 2) as u16,
        (len - 4) as u16,
        (len - 3) as u16,
        (len - 4) as u16,
        (len - 1) as u16,
    ]
}

/// Appends the quad `a, b, c, d` to a mesh.
pub open spec fn push_quad(m: MeshModel, a: Vec3i, b: Vec3i, c: Vec3i, d: Vec3i) -> MeshModel {
    MeshModel { vert: m.vert + seq![a, b, c, d], ind: m.ind + quad_indices(m.vert.len() + 4int) }
}

/// The lattice point `(x, y, z)`.
pub open spec fn lattice(x: int, y: int, z: int) -> Vec3i {
    Vec3i { x: x as i32, y: y as i32, z: z as i32 }
}

/// Appends the horizontal unit square over column `(x, y)` at height `h` (voxel units).
pub open spec fn flat_quad(m: MeshModel, x: int, y: int, h: int) -> MeshModel {
    push_quad(
        m,
        lattice(2 * x, 2 * y, 2 * h),
        lattice(2 * x, 2 * y + 2, 2 * h),
        lattice(2 * x + 2, 2 * y, 2 * h),
        lattice(2 * x + 2, 2 * y + 2, 2 * h),
    )
}

/// The horizontal faces of column `(x, y)` for the bit pattern `val`, whose lowest bit
/// stands for height `z`: one square at height `z + lift` for every set bit, lowest first.
pub open spec fn cap_faces(m: MeshModel, val: u64, z: int, x: int, y: int, lift: int) -> MeshModel
    decreases val,
{
    if val == 0 {
        m
    } else {
        let m1 = if val % 2 == 1 {
            flat_quad(m, x, y, z + lift)
        } else {
            m
        };
        cap_faces(m1, val / 2, z + 1, x, y, lift)
    }
}

/// How far a horizontal face is raised above the voxel whose bit emits it: the face
/// direction's vertical component, or nothing for a downward face.
pub open spec fn cap_lift(dirz: i32) -> int {
    if dirz > 0 {
        dirz as int
    } else {
        0
    }
}

/// Voxel-unit coordinates that this module's lattice arithmetic handles without overflow.
pub open spec fn coord_in_range(c: int) -> bool {
    -0x1000_0000 <= c <= 0x1000_0000
}

/// The corner positions, on the half-voxel lattice, of the side face of column `xy` that
/// faces `dir`: both are `xy + (1/2, 1/2) + dir / 2 + (dir.y, -dir.x) / 2`.
pub open spec fn side_corner(xy: Vec2i, dir: Vec2i) -> Vec2i {
    Vec2i {
        x: (2 * xy.x + 1 + dir.x + dir.y) as i32,
        y: (2 * xy.y + 1 + dir.y - dir.x) as i32,
    }
}

fn xy_verts_pos(xy: Vec2i, dir: Vec2i) -> (r: (Vec2i, Vec2i))
    requires
        coord_in_range(xy.x as int),
        coord_in_range(xy.y as int),
        coord_in_range(dir.x as int),
        coord_in_range(dir.y as int),
    ensures
        r.0 == side_corner(xy, dir),
        r.1 == side_corner(xy, dir),
{
    let dir_plus_90 = Vec2i { x: dir.y, y: -dir.x };
    let dir_minus_90 = Vec2i { x: dir.y, y: -dir.x };
    let v = Vec2i { x: 2 * xy.x + 1, y: 2 * xy.y + 1 };
    (
        Vec2i { x: v.x + dir.x + dir_plus_90.x, y: v.y + dir.y + dir_plus_90.y },
        Vec2i { x: v.x + dir.x + dir_minus_90.x, y: v.y + dir.y + dir_minus_90.y },
    )
}

proof fn lemma_low_bit(val: u64)
    ensures
        (val & 1u64 == 1u64) == (val % 2 == 1),
        val >> 1u64 == val / 2,
{
    assert((val & 1u64 == 1u64) == (val % 2 == 1)) by (bit_vector);
    assert(val >> 1u64 == val / 2) by (bit_vector);
}

proof fn lemma_shift_bound(val: u64, z: u64)
    requires
        z < 64,
        val <= 0xFFFF_FFFF_FFFF_FFFFu64 >> z,
    ensures
        z + 1 < 64 ==> val >> 1u64 <= 0xFFFF_FFFF_FFFF_FFFFu64 >> (z + 1) as u64,
        z + 1 == 64 ==> val >> 1u64 == 0,
{
    let z1 = (z + 1) as u64;
    assert(z1 < 64 ==> val >> 1u64 <= 0xFFFF_FFFF_FFFF_FFFFu64 >> z1) by (bit_vector)
        requires
            z < 64,
            z1 == z + 1,
            val <= 0xFFFF_FFFF_FFFF_FFFFu64 >> z,
    ;
    assert(z1 == 64 ==> val >> 1u64 == 0) by (bit_vector)
        requires
            z < 64,
            z1 == z + 1,
            val <= 0xFFFF_FFFF_FFFF_FFFFu64 >> z,
    ;
}

impl IndexedMesh {
    /// An empty mesh.
    pub fn new() -> (m: Self)
        ensures
            m@ == empty_mesh(),
    {
        IndexedMesh { vert: Vec::new(), ind: Vec::new() }
    }

    /// Appends the four vertices `a, b, c, d` and the two triangles over them.
    fn append_quad(&mut self, a: Vec3i, b: Vec3i, c: Vec3i, d: Vec3i)
        ensures
            final(self)@ == push_quad(old(self)@, a, b, c, d),
    {
        self.vert.push(a);
        self.vert.push(b);
        self.vert.push(c);
        self.vert.push(d);
        let len = self.vert.len();
        self.ind.push((len - 1) as u16);
        self.ind.push((len - 2) as u16);
        self.ind.push((len - 4) as u16);
        self.ind.push((len - 3) as u16);
        self.ind.push((len - 4) as u16);
        self.ind.push((len - 1) as u16);
        assert(self.vert@ =~= old(self).vert@ + seq![a, b, c, d]);
        assert(self.ind@ =~= old(self).ind@ + quad_indices(old(self).vert@.len() + 4int));
    }
}

/// The horizontal faces of column `(x, y)`: the upward faces `pz`, raised by one voxel,
/// then the downward faces `mz`.
pub open spec fn column_caps(m: MeshModel, x: int, y: int, pz: u64, mz: u64) -> MeshModel {
    cap_faces(cap_faces(m, pz, 0, x, y, 1), mz, 0, x, y, 0)
}

impl IndexedMesh {
    /// Appends the faces of a column in all six directions: the side faces `px`, `mx`,
    /// `py`, `my` (towards +x, -x, +y, -y), then the upward faces `pz` and the downward
    /// faces `mz`.
    pub fn push_col_all(
        &mut self,
        xy: Vec2i,
        px: u64,
        mx: u64,
        py: u64,
        my: u64,
        pz: u64,
        mz: u64,
    )
        requires
            coord_in_range(xy.x as int),
            coord_in_range(xy.y as int),
        ensures
            final(self)@ == column_caps(old(self)@, xy.x as int, xy.y as int, pz, mz),
    {
        self.push_col(px, xy, Vec2i { x: 1, y: 0 });
        self.push_col(mx, xy, Vec2i { x: -1, y: 0 });
        self.push_col(py, xy, Vec2i { x: 0, y: 1 });
        self.push_col(my, xy, Vec2i { x: 0, y: -1 });
        self.push_col_nocombine(pz, xy, 1);
        self.push_col_nocombine(mz, xy, -1);
    }

    /// Appends, for every set bit `z` of `col`, the unit square over column `xy` at height
    /// `z`, raised by `dirz` voxels when `dirz` is positive.
    pub fn push_col_nocombine(&mut self, col: u64, xy: Vec2i, dirz: i32)
        requires
            coord_in_range(xy.x as int),
            coord_in_range(xy.y as int),
            dirz <= 0x1000_0000,
        ensures
            final(self)@ == cap_faces(old(self)@, col, 0, xy.x as int, xy.y as int, cap_lift(dirz)),
    {
        let p00 = Vec2i { x: 2 * xy.x, y: 2 * xy.y };
        let p01 = Vec2i { x: 2 * xy.x, y: 2 * xy.y + 2 };
        let p11 = Vec2i { x: 2 * xy.x + 2, y: 2 * xy.y + 2 };
        let p10 = Vec2i { x: 2 * xy.x + 2, y: 2 * xy.y };

        let mut z: i32 = 0;
        let mut val = col;
        assert(val <= 0xFFFF_FFFF_FFFF_FFFFu64 >> 0u64) by (bit_vector);

        let lift: i32 = if dirz > 0 {
            dirz
        } else {
            0
        };
        while val > 0
            invariant
                0 <= z <= 64,
                z < 64 ==> val <= 0xFFFF_FFFF_FFFF_FFFFu64 >> (z as u64),
                z == 64 ==> val == 0,
                0 <= lift <= 0x1000_0000,
                lift == cap_lift(dirz),
                coord_in_range(xy.x as int),
                coord_in_range(xy.y as int),
                p00 == (Vec2i { x: (2 * xy.x) as i32, y: (2 * xy.y) as i32 }),
                p01 == (Vec2i { x: (2 * xy.x) as i32, y: (2 * xy.y + 2) as i32 }),
                p11 == (Vec2i { x: (2 * xy.x + 2) as i32, y: (2 * xy.y + 2) as i32 }),
                p10 == (Vec2i { x: (2 * xy.x + 2) as i32, y: (2 * xy.y) as i32 }),
                cap_faces(self@, val, z as int, xy.x as int, xy.y as int, lift as int) == cap_faces(
                    old(self)@,
                    col,
                    0,
                    xy.x as int,
                    xy.y as int,
                    cap_lift(dirz),
                ),
            decreases val,
        {
            proof {
                lemma_low_bit(val);
                lemma_shift_bound(val, z as u64);
            }
            if val & 1 == 1 {
                let h = 2 * (z + lift);
                self.append_quad(
                    Vec3i { x: p00.x, y: p00.y, z: h },
                    Vec3i { x: p01.x, y: p01.y, z: h },
                    Vec3i { x: p10.x, y: p10.y, z: h },
                    Vec3i { x: p11.x, y: p11.y, z: h },
                );
            }
            val = val >> 1;
            z = z + 1;
        }
    }

    /// Appends the side faces of a column facing `dir`. The scan below starts from an empty
    /// bit pattern (`val` is zero), so no face is emitted and `col` is not read.
    pub fn push_col(&mut self, col: u64, xy: Vec2i, dir: Vec2i)
        requires
            coord_in_range(xy.x as int),
            coord_in_range(xy.y as int),
            coord_in_range(dir.x as int),
            coord_in_range(dir.y as int),
        ensures
            final(self)@ == old(self)@,
    {
        let (v1, v2) = xy_verts_pos(xy, dir);
        let mut z: i32 = 0;
        let mut start: i32 = 0;
        let mut val: u64 = 0;
        while val > 0
            invariant
                val == 0,
                self@ == old(self)@,
            decreases val,
        {
            if val & 1 == 1 {
            } else {
                self.append_quad(
                    Vec3i { x: v1.x, y: v1.y, z: 2 * start },
                    Vec3i { x: v2.x, y: v2.y, z: 2 * start },
                    Vec3i { x: v1.x, y: v1.y, z: 2 * z },
                    Vec3i { x: v2.x, y: v2.y, z: 2 * z },
                );
                start = z + 1;
            }
            val = val >> 1;
            z = z + 1;
        }
    }
}

/// The faces that column `(i, j)` of a chunk contributes: upward faces where a solid voxel
/// has no solid voxel below it in the column, downward faces where a solid voxel has no
/// solid voxel above it.
pub open spec fn column_mesh(m: MeshModel, data: Seq<u64>, i: int, j: int) -> MeshModel {
    let me = data[i * CHUNK_XY + j];
    column_caps(m, i, j, me & !(me << 1u64), me & !(me >> 1u64))
}

/// The mesh after meshing every column of rows `0..i`, then columns `0..j` of row `i`.
pub open spec fn mesh_upto(data: Seq<u64>, i: nat, j: nat) -> MeshModel
    decreases i, j,
{
    if j > 0 {
        column_mesh(mesh_upto(data, i, (j - 1) as nat), data, i as int, j - 1)
    } else if i > 0 {
        mesh_upto(data, (i - 1) as nat, CHUNK_XY as nat)
    } else {
        empty_mesh()
    }
}

/// The mesh of a chunk: its columns meshed in data order.
pub open spec fn chunk_mesh(data: Seq<u64>) -> MeshModel {
    mesh_upto(data, CHUNK_XY as nat, 0)
}

/// Builds the mesh of a chunk's voxel faces, column by column.
pub fn mesh_bitboard(chunk: OpaqueChunk) -> (mesh: IndexedMesh)
    requires
        chunk.wf(),
    ensures
        mesh@ == chunk_mesh(chunk.data@),
{
    let mut mesh = IndexedMesh::new();

    let mut i: usize = 0;
    while i < CHUNK_XY
        invariant
            i <= CHUNK_XY,
            chunk.wf(),
            mesh@ == mesh_upto(chunk.data@, i as nat, 0),
        decreases CHUNK_XY - i,
    {
        let mut j: usize = 0;
        while j < CHUNK_XY
            invariant
                i < CHUNK_XY,
                j <= CHUNK_XY,
                chunk.wf(),
                mesh@ == mesh_upto(chunk.data@, i as nat, j as nat),
            decreases CHUNK_XY - j,
        {
            assert(i * CHUNK_XY + j < CHUNK_AREA) by (nonlinear_arith)
                requires
                    i < 128,
                    j < 128,
            ;
            let me = chunk.data[i * CHUNK_XY + j];
            let n_mx = if i > 0 {
                assert((i - 1) * CHUNK_XY + j < CHUNK_AREA) by (nonlinear_arith)
                    requires
                        0 < i < 128,
                        j < 128,
                ;
                chunk.data[(i - 1) * CHUNK_XY + j]
            } else {
                0
            };
            let n_px = if i < (CHUNK_XY - 1) {
                assert((i + 1) * CHUNK_XY + j < CHUNK_AREA) by (nonlinear_arith)
                    requires
                        i < 127,
                        j < 128,
                ;
                chunk.data[(i + 1) * CHUNK_XY + j]
            } else {
                0
            };
            let n_my = if j > 0 {
                chunk.data[i * CHUNK_XY + (j - 1)]
            } else {
                0
            };
            let n_py = if j < (CHUNK_XY - 1) {
                chunk.data[i * CHUNK_XY + (j + 1)]
            } else {
                0
            };

            let qpx = me & !n_px;
            let qmx = me & !n_mx;
            let qpy = me & !n_py;
            let qmy = me & !n_my;
            let qpz = me & !(me << 1);
            let qmz = me & !(me >> 1);

            mesh.push_col_all(Vec2i { x: i as i32, y: j as i32 }, qpx, qmx, qpy, qmy, qpz, qmz);
            j += 1;
        }
        i += 1;
    }
    mesh
}

/// The single triangle `(1, 0, -1/2)`, `(0, 1, -1/2)`, `(-1, 0, -1/2)`.
pub fn mesh_triangle() -> (mesh: IndexedMesh)
    ensures
        mesh@.vert == seq![lattice(2, 0, -1), lattice(0, 2, -1), lattice(-2, 0, -1)],
        mesh@.ind == seq![0u16, 1, 2],
{
    let mut mesh = IndexedMesh::new();
    mesh.vert.push(Vec3i { x: 2, y: 0, z: -1 });
    mesh.vert.push(Vec3i { x: 0, y: 2, z: -1 });
    mesh.vert.push(Vec3i { x: -2, y: 0, z: -1 });
    mesh.ind.push(0);
    mesh.ind.push(1);
    mesh.ind.push(2);
    assert(mesh@.vert =~= seq![lattice(2, 0, -1), lattice(0, 2, -1), lattice(-2, 0, -1)]);
    assert(mesh@.ind =~= seq![0u16, 1, 2]);
    mesh
}

/// The corners of the cube `[-1, 1]^3`, in the order the cube's faces refer to them.
pub open spec fn cube_vertices() -> Seq<Vec3i> {
    seq![
        lattice(2, 2, 2),
        lattice(2, 2, -2),
        lattice(2, -2, -2),
        lattice(2, -2, 2),
        lattice(-2, -2, 2),
        lattice(-2, 2, 2),
        lattice(-2, 2, -2),
        lattice(-2, -2, -2),
    ]
}

/// The twelve triangles of the cube's six faces.
pub open spec fn cube_indices() -> Seq<u16> {
    seq![
        0u16, 1, 5, 0, 5, 6,
        0, 6, 7, 0, 7, 3,
        3, 7, 4, 3, 4, 2,
        1, 2, 4, 1, 4, 5,
        0, 3, 2, 0, 2, 1,
        4, 7, 6, 4, 6, 5,
    ]
}

/// The cube `[-1, 1]^3`: eight corners and twelve triangles.
pub fn mesh_cube() -> (mesh: IndexedMesh)
    ensures
        mesh@.vert == cube_vertices(),
        mesh@.ind == cube_indices(),
{
    let mut mesh = IndexedMesh::new();

    mesh.vert.push(Vec3i { x: 2, y: 2, z: 2 });
    mesh.vert.push(Vec3i { x: 2, y: 2, z: -2 });
    mesh.vert.push(Vec3i { x: 2, y: -2, z: -2 });
    mesh.vert.push(Vec3i { x: 2, y: -2, z: 2 });
    mesh.vert.push(Vec3i { x: -2, y: -2, z: 2 });
    mesh.vert.push(Vec3i { x: -2, y: 2, z: 2 });
    mesh.vert.push(Vec3i { x: -2, y: 2, z: -2 });
    mesh.vert.push(Vec3i { x: -2, y: -2, z: -2 });

    // front face
    mesh.ind.push(0);
    mesh.ind.push(1);
    mesh.ind.push(5);
    mesh.ind.push(0);
    mesh.ind.push(5);
    mesh.ind.push(6);
    // right face
    mesh.ind.push(0);
    mesh.ind.push(6);
    mesh.ind.push(7);
    mesh.ind.push(0);
    mesh.ind.push(7);
    mesh.ind.push(3);
    // back face
    mesh.ind.push(3);
    mesh.ind.push(7);
    mesh.ind.push(4);
    mesh.ind.push(3);
    mesh.ind.push(4);
    mesh.ind.push(2);
    // left face
    mesh.ind.push(1);
    mesh.ind.push(2);
    mesh.ind.push(4);
    mesh.ind.push(1);
    mesh.ind.push(4);
    mesh.ind.push(5);
    // top face
    mesh.ind.push(0);
    mesh.ind.push(3);
    mesh.ind.push(2);
    mesh.ind.push(0);
    mesh.ind.push(2);
    mesh.ind.push(1);
    // bottom face
    mesh.ind.push(4);
    mesh.ind.push(7);
    mesh.ind.push(6);
    mesh.ind.push(4);
    mesh.ind.push(6);
    mesh.ind.push(5);

    assert(mesh@.vert =~= cube_vertices());
    assert(mesh@.ind =~= cube_indices());
    mesh
}

impl IndexedMesh {
    /// The vertices, on the half-voxel lattice.
    pub fn vertices(&self) -> (v: &Vec<Vec3i>)
        ensures
            v@ == self@.vert,
    {
        &self.vert
    }

    /// The triangle indices, three per triangle.
    pub fn indices(&self) -> (i: &Vec<u16>)
        ensures
            i@ == self@.ind,
    {
        &self.ind
    }
}

/// The number of set bits of `val`.
pub open spec fn popcount(val: u64) -> nat
    decreases val,
{
    if val == 0 {
        0
    } else {
        (val % 2) as nat + popcount(val / 2)
    }
}

/// Whether every index of `m` names one of its vertices.
pub open spec fn indices_valid(m: MeshModel) -> bool {
    forall|k: int| 0 <= k < m.ind.len() ==> (#[trigger] m.ind[k]) < m.vert.len()
}

/// Whether `m` has exactly six indices (two triangles) for every four vertices (one quad).
pub open spec fn quads_balanced(m: MeshModel) -> bool {
    m.ind.len() * 2 == m.vert.len() * 3
}

/// Every set bit of a column pattern yields exactly one square: four vertices and six
/// indices.
pub proof fn lemma_cap_faces_sizes(m: MeshModel, val: u64, z: int, x: int, y: int, lift: int)
    ensures
        cap_faces(m, val, z, x, y, lift).vert.len() == m.vert.len() + 4 * popcount(val),
        cap_faces(m, val, z, x, y, lift).ind.len() == m.ind.len() + 6 * popcount(val),
    decreases val,
{
    if val != 0 {
        let m1 = if val % 2 == 1 {
            flat_quad(m, x, y, z + lift)
        } else {
            m
        };
        lemma_cap_faces_sizes(m1, val / 2, z + 1, x, y, lift);
    }
}

/// Squares appended to a mesh whose indices are valid only refer to their own vertices, as
/// long as the mesh does not outgrow what 16-bit indices address.
pub proof fn lemma_cap_faces_indices_valid(
    m: MeshModel,
    val: u64,
    z: int,
    x: int,
    y: int,
    lift: int,
)
    requires
        indices_valid(m),
        cap_faces(m, val, z, x, y, lift).vert.len() <= 0x10000,
    ensures
        indices_valid(cap_faces(m, val, z, x, y, lift)),
    decreases val,
{
    if val != 0 {
        let m1 = if val % 2 == 1 {
            flat_quad(m, x, y, z + lift)
        } else {
            m
        };
        lemma_cap_faces_sizes(m1, val / 2, z + 1, x, y, lift);
        if val % 2 == 1 {
            let len: int = m.vert.len() + 4int;
            assert(len <= 0x10000);
            assert forall|k: int| 0 <= k < m1.ind.len() implies (#[trigger] m1.ind[k])
                < m1.vert.len() by {
                if k >= m.ind.len() {
                    assert(m1.ind[k] == quad_indices(len)[k - m.ind.len()]);
                }
            }
        }
        lemma_cap_faces_indices_valid(m1, val / 2, z + 1, x, y, lift);
    }
}

/// The six indices of quad `q` in an index sequence.
pub open spec fn quad_slot(ind: Seq<u16>, q: int) -> Seq<u16> {
    ind.subrange(6 * q, 6 * q + 6)
}

/// Whether `m` is a sequence of whole quads in which quad `q` (vertices `4q .. 4q + 4`) is
/// drawn by the indices `[4q+3, 4q+2, 4q, 4q+1, 4q, 4q+3]`, taken modulo 2^16.
pub open spec fn quads_indexed(m: MeshModel) -> bool {
    &&& m.vert.len() % 4 == 0
    &&& m.ind.len() == m.vert.len() / 4 * 6
    &&& forall|q: int|
        0 <= q < m.vert.len() / 4 ==> #[trigger] quad_slot(m.ind, q) == quad_indices(4 * q + 4)
}

/// Appending a quad to a mesh of whole, regularly indexed quads keeps it so.
proof fn lemma_push_quad_indexed(m: MeshModel, a: Vec3i, b: Vec3i, c: Vec3i, d: Vec3i)
    requires
        quads_indexed(m),
    ensures
        quads_indexed(push_quad(m, a, b, c, d)),
{
    let r = push_quad(m, a, b, c, d);
    let n = m.vert.len() / 4;
    assert(m.vert.len() == 4 * n);
    assert(r.vert.len() == 4 * n + 4);
    assert(r.vert.len() / 4 == n + 1);
    assert forall|q: int| 0 <= q < r.vert.len() / 4 implies #[trigger] quad_slot(r.ind, q)
        == quad_indices(4 * q + 4) by {
        if q < n {
            assert(quad_slot(r.ind, q) =~= quad_slot(m.ind, q));
        } else {
            assert(q == n);
            assert(quad_slot(r.ind, q) =~= quad_indices(m.vert.len() + 4int));
        }
    }
}

/// The squares of a column pattern keep a mesh made of whole, regularly indexed quads.
pub proof fn lemma_cap_faces_quads_indexed(
    m: MeshModel,
    val: u64,
    z: int,
    x: int,
    y: int,
    lift: int,
)
    requires
        quads_indexed(m),
    ensures
        quads_indexed(cap_faces(m, val, z, x, y, lift)),
    decreases val,
{
    if val != 0 {
        let h = z + lift;
        let m1 = if val % 2 == 1 {
            lemma_push_quad_indexed(
                m,
                lattice(2 * x, 2 * y, 2 * h),
                lattice(2 * x, 2 * y + 2, 2 * h),
                lattice(2 * x + 2, 2 * y, 2 * h),
                lattice(2 * x + 2, 2 * y + 2, 2 * h),
            );
            flat_quad(m, x, y, h)
        } else {
            m
        };
        lemma_cap_faces_quads_indexed(m1, val / 2, z + 1, x, y, lift);
    }
}

/// The partial meshes of a chunk keep six indices per four vertices, and their indices stay
/// valid while they have at most 65536 vertices.
proof fn lemma_mesh_upto_well_formed(data: Seq<u64>, i: nat, j: nat)
    ensures
        quads_balanced(mesh_upto(data, i, j)),
        quads_indexed(mesh_upto(data, i, j)),
        mesh_upto(data, i, j).vert.len() <= 0x10000 ==> indices_valid(mesh_upto(data, i, j)),
    decreases i, j,
{
    if j > 0 {
        let prev = mesh_upto(data, i, (j - 1) as nat);
        lemma_mesh_upto_well_formed(data, i, (j - 1) as nat);
        let me = data[i * CHUNK_XY + (j - 1)];
        let pz = me & !(me << 1u64);
        let mz = me & !(me >> 1u64);
        let m1 = cap_faces(prev, pz, 0, i as int, j - 1, 1);
        lemma_cap_faces_sizes(prev, pz, 0, i as int, j - 1, 1);
        lemma_cap_faces_sizes(m1, mz, 0, i as int, j - 1, 0);
        lemma_cap_faces_quads_indexed(prev, pz, 0, i as int, j - 1, 1);
        lemma_cap_faces_quads_indexed(m1, mz, 0, i as int, j - 1, 0);
        if cap_faces(m1, mz, 0, i as int, j - 1, 0).vert.len() <= 0x10000 {
            lemma_cap_faces_indices_valid(prev, pz, 0, i as int, j - 1, 1);
            lemma_cap_faces_indices_valid(m1, mz, 0, i as int, j - 1, 0);
        }
    } else if i > 0 {
        lemma_mesh_upto_well_formed(data, (i - 1) as nat, CHUNK_XY as nat);
    } else {
        assert(quads_indexed(empty_mesh()));
    }
}

/// A chunk's mesh is made of whole quads: its vertex count is a multiple of four, it has six
/// indices for every four vertices, and quad `q` is drawn by the indices
/// `[4q+3, 4q+2, 4q, 4q+1, 4q, 4q+3]` (modulo 2^16), two triangles over its own four
/// vertices. As long as it has at most 65536 vertices every index names one of its vertices.
pub proof fn lemma_chunk_mesh_well_formed(data: Seq<u64>)
    ensures
        quads_balanced(chunk_mesh(data)),
        quads_indexed(chunk_mesh(data)),
        chunk_mesh(data).vert.len() <= 0x10000 ==> indices_valid(chunk_mesh(data)),
{
    lemma_mesh_upto_well_formed(data, CHUNK_XY as nat, 0);
}

/// Whether bit `z` of `word` is set.
pub open spec fn bit(word: u64, z: u64) -> bool {
    (word >> z) & 1u64 == 1u64
}

/// The face masks of a column: an upward face at height `z` exactly where voxel `z` is solid
/// and voxel `z - 1` is not (or `z` is the bottom), a downward face exactly where voxel `z`
/// is solid and voxel `z + 1` is not (or `z` is the top).
pub proof fn lemma_cap_masks(me: u64, z: u64)
    requires
        z < 64,
    ensures
        bit(me & !(me << 1u64), z) <==> bit(me, z) && (z == 0 || !bit(me, (z - 1) as u64)),
        bit(me & !(me >> 1u64), z) <==> bit(me, z) && (z == 63 || !bit(me, (z + 1) as u64)),
{
    if z == 0 {
        assert(((me & !(me << 1u64)) >> 0u64) & 1u64 == (me >> 0u64) & 1u64) by (bit_vector);
    } else {
        let zm = (z - 1) as u64;
        assert(((me & !(me << 1u64)) >> z) & 1u64 == 1u64 <==> (me >> z) & 1u64 == 1u64 && (me
            >> zm) & 1u64 != 1u64) by (bit_vector)
            requires
                0 < z < 64,
                zm == z - 1,
        ;
    }
    if z == 63 {
        assert(((me & !(me >> 1u64)) >> 63u64) & 1u64 == (me >> 63u64) & 1u64) by (bit_vector);
    } else {
        let zp = (z + 1) as u64;
        assert(((me & !(me >> 1u64)) >> z) & 1u64 == 1u64 <==> (me >> z) & 1u64 == 1u64 && (me
            >> zp) & 1u64 != 1u64) by (bit_vector)
            requires
                z < 63,
                zp == z + 1,
        ;
    }
}

/// The squares of the pattern `lo + hi * 2^k`, where `lo < 2^k`, are those of `lo`
/// followed by those of `hi` starting `k` voxels higher.
proof fn lemma_cap_faces_split_at(
    m: MeshModel,
    lo: nat,
    hi: nat,
    k: nat,
    z: int,
    x: int,
    y: int,
    lift: int,
)
    requires
        lo < pow2(k),
        lo + hi * pow2(k) <= u64::MAX,
    ensures
        cap_faces(m, (lo + hi * pow2(k)) as u64, z, x, y, lift) == cap_faces(
            cap_faces(m, lo as u64, z, x, y, lift),
            hi as u64,
            z + k,
            x,
            y,
            lift,
        ),
    decreases k,
{
    let p = pow2(k);
    lemma_pow2_pos(k);
    if k == 0 {
        lemma2_to64();
        assert(hi * p == hi) by (nonlinear_arith)
            requires
                p == 1,
        ;
        assert(lo == 0);
    } else {
        let p1 = pow2((k - 1) as nat);
        lemma_pow2_unfold(k);
        lemma_pow2_pos((k - 1) as nat);
        let val = lo + hi * p;
        let v = val as u64;
        if val == 0 {
            assert(hi == 0) by (nonlinear_arith)
                requires
                    hi * p == 0,
                    p > 0,
            ;
        } else {
            let t = hi * p1;
            assert(hi * p == 2 * t) by (nonlinear_arith)
                requires
                    t == hi * p1,
                    p == 2 * p1,
            ;
            assert(t >= 0) by (nonlinear_arith)
                requires
                    t == hi * p1,
            ;
            assert(val % 2 == lo % 2 && val / 2 == lo / 2 + t);
            let m1 = if v % 2 == 1 {
                flat_quad(m, x, y, z + lift)
            } else {
                m
            };
            lemma_cap_faces_split_at(m1, lo / 2, hi, (k - 1) as nat, z + 1, x, y, lift);
            assert(v / 2 == (lo / 2 + hi * p1) as u64);
            assert(cap_faces(m, v, z, x, y, lift) == cap_faces(m1, v / 2, z + 1, x, y, lift));
            if lo != 0 {
                assert((lo as u64) / 2 == (lo / 2) as u64);
                assert(cap_faces(m, lo as u64, z, x, y, lift) == cap_faces(
                    m1,
                    (lo / 2) as u64,
                    z + 1,
                    x,
                    y,
                    lift,
                ));
            } else {
                assert(cap_faces(m1, (lo / 2) as u64, z + 1, x, y, lift) == m);
            }
        }
    }
}

/// Splitting a column pattern into a low part `lo` and a high part `hi`, with every set bit
/// of `lo` below bit `k` and every set bit of `hi` at or above it, the squares of `lo`
/// followed by those of `hi` are the squares of `lo | hi`: pushing the two parts of a column
/// one after the other with `push_col_nocombine` gives the same mesh as pushing the whole
/// column.
pub proof fn lemma_cap_faces_split(
    m: MeshModel,
    lo: u64,
    hi: u64,
    k: u64,
    x: int,
    y: int,
    lift: int,
)
    requires
        k < 64,
        lo >> k == 0,
        (hi >> k) << k == hi,
    ensures
        cap_faces(cap_faces(m, lo, 0, x, y, lift), hi, 0, x, y, lift) == cap_faces(
            m,
            lo | hi,
            0,
            x,
            y,
            lift,
        ),
{
    let p = pow2(k as nat);
    lemma_pow2_pos(k as nat);
    lemma_u64_shr_is_div(lo, k);
    assert(lo < p) by (nonlinear_arith)
        requires
            lo as nat / p == 0,
            p > 0,
    ;
    let h = hi >> k;
    lemma_u64_shr_is_div(hi, k);
    assert(h * p <= hi) by (nonlinear_arith)
        requires
            h == hi as nat / p,
            p > 0,
    ;
    lemma_u64_shl_is_mul(h, k);
    assert(hi == h * p);
    assert(lo | hi == lo + hi) by (bit_vector)
        requires
            k < 64,
            lo >> k == 0,
            (hi >> k) << k == hi,
    ;
    let m1 = cap_faces(m, lo, 0, x, y, lift);
    lemma_cap_faces_split_at(m, lo as nat, h as nat, k as nat, 0, x, y, lift);
    lemma_cap_faces_split_at(m1, 0, h as nat, k as nat, 0, x, y, lift);
    assert((0 + h * p) as u64 == hi);
    assert((lo + h * p) as u64 == lo | hi);
}

/// Appends, for every height `z` from `from` up to 63 at which `pred` holds, lowest first,
/// the unit square over column `(x, y)` at height `z + lift`.
pub open spec fn squares_where(
    m: MeshModel,
    pred: spec_fn(int) -> bool,
    from: int,
    x: int,
    y: int,
    lift: int,
) -> MeshModel
    decreases 64 - from,
{
    if from >= 64 {
        m
    } else {
        let m1 = if pred(from) {
            flat_quad(m, x, y, from + lift)
        } else {
            m
        };
        squares_where(m1, pred, from + 1, x, y, lift)
    }
}

/// The heights `0..64` whose bit is set in `val`.
pub open spec fn bits_of(val: u64) -> spec_fn(int) -> bool {
    |z: int| 0 <= z < 64 && bit(val, z as u64)
}

/// The heights that get an upward face in a column: solid voxels with no solid voxel
/// directly below them.
pub open spec fn upward_face(me: u64) -> spec_fn(int) -> bool {
    |z: int| 0 <= z < 64 && bit(me, z as u64) && (z == 0 || !bit(me, (z - 1) as u64))
}

/// The heights that get a downward face in a column: solid voxels with no solid voxel
/// directly above them.
pub open spec fn downward_face(me: u64) -> spec_fn(int) -> bool {
    |z: int| 0 <= z < 64 && bit(me, z as u64) && (z == 63 || !bit(me, (z + 1) as u64))
}

proof fn lemma_squares_where_ext(
    m: MeshModel,
    p: spec_fn(int) -> bool,
    q: spec_fn(int) -> bool,
    from: int,
    x: int,
    y: int,
    lift: int,
)
    requires
        forall|z: int| from <= z < 64 ==> #[trigger] p(z) == q(z),
    ensures
        squares_where(m, p, from, x, y, lift) == squares_where(m, q, from, x, y, lift),
    decreases 64 - from,
{
    if from < 64 {
        let m1 = if p(from) {
            flat_quad(m, x, y, from + lift)
        } else {
            m
        };
        lemma_squares_where_ext(m1, p, q, from + 1, x, y, lift);
    }
}

proof fn lemma_squares_where_none(
    m: MeshModel,
    p: spec_fn(int) -> bool,
    from: int,
    x: int,
    y: int,
    lift: int,
)
    requires
        forall|z: int| from <= z < 64 ==> !#[trigger] p(z),
    ensures
        squares_where(m, p, from, x, y, lift) == m,
    decreases 64 - from,
{
    if from < 64 {
        lemma_squares_where_none(m, p, from + 1, x, y, lift);
    }
}

/// The squares `cap_faces` appends for the bits of `val` from height `k` up are one square
/// at every height `z >= k` whose bit is set in `val`, lowest first.
pub proof fn lemma_cap_faces_at_set_bits(
    m: MeshModel,
    val: u64,
    k: u64,
    x: int,
    y: int,
    lift: int,
)
    requires
        k < 64,
    ensures
        cap_faces(m, val >> k, k as int, x, y, lift) == squares_where(
            m,
            bits_of(val),
            k as int,
            x,
            y,
            lift,
        ),
    decreases 64 - k,
{
    let v = val >> k;
    let p = bits_of(val);
    assert((v % 2 == 1) == bit(val, k)) by (bit_vector)
        requires
            v == val >> k,
    ;
    if v == 0 {
        assert forall|z: int| k <= z < 64 implies !#[trigger] p(z) by {
            let zz = z as u64;
            assert((val >> zz) & 1u64 != 1u64) by (bit_vector)
                requires
                    val >> k == 0,
                    k <= zz < 64,
            ;
        }
        lemma_squares_where_none(m, p, k as int, x, y, lift);
    } else {
        let m1 = if v % 2 == 1 {
            flat_quad(m, x, y, k + lift)
        } else {
            m
        };
        assert(p(k as int) == bit(val, k));
        assert(cap_faces(m, v, k as int, x, y, lift) == cap_faces(m1, v / 2, k + 1, x, y, lift));
        assert(squares_where(m, p, k as int, x, y, lift) == squares_where(
            m1,
            p,
            k + 1,
            x,
            y,
            lift,
        ));
        if k < 63 {
            let k1 = (k + 1) as u64;
            assert(v / 2 == val >> k1) by (bit_vector)
                requires
                    v == val >> k,
                    k1 == k + 1,
                    k1 < 64,
            ;
            lemma_cap_faces_at_set_bits(m1, val, k1, x, y, lift);
        } else {
            assert(v / 2 == 0) by (bit_vector)
                requires
                    v == val >> k,
                    k == 63,
            ;
        }
    }
}

/// The faces a chunk's mesh draws for column `(i, j)`, whose voxels are the bits of
/// `me = data[i * 128 + j]`: first an upward face, one voxel up, over every solid voxel that
/// has no solid voxel directly below it, then a downward face at every solid voxel that has
/// no solid voxel directly above it, each lowest first; nothing else.
pub proof fn lemma_column_mesh_faces(m: MeshModel, data: Seq<u64>, i: int, j: int)
    ensures
        ({
            let me = data[i * 128 + j];
            column_mesh(m, data, i, j) == squares_where(
                squares_where(m, upward_face(me), 0, i, j, 1),
                downward_face(me),
                0,
                i,
                j,
                0,
            )
        }),
{
    let me = data[i * 128 + j];
    let pz = me & !(me << 1u64);
    let mz = me & !(me >> 1u64);
    assert(pz >> 0u64 == pz) by (bit_vector);
    assert(mz >> 0u64 == mz) by (bit_vector);
    lemma_cap_faces_at_set_bits(m, pz, 0, i, j, 1);
    assert forall|z: int| 0 <= z < 64 implies #[trigger] bits_of(pz)(z) == upward_face(me)(z) by {
        lemma_cap_masks(me, z as u64);
    }
    lemma_squares_where_ext(m, bits_of(pz), upward_face(me), 0, i, j, 1);
    let m1 = squares_where(m, upward_face(me), 0, i, j, 1);
    lemma_cap_faces_at_set_bits(m1, mz, 0, i, j, 0);
    assert forall|z: int| 0 <= z < 64 implies #[trigger] bits_of(mz)(z) == downward_face(me)(z) by {
        lemma_cap_masks(me, z as u64);
    }
    lemma_squares_where_ext(m1, bits_of(mz), downward_face(me), 0, i, j, 0);
}

} // verus!
