use ok_bloomer::chunk::{generate, ColumnLevel, OpaqueChunk, CHUNK_AREA, CHUNK_XY, CHUNK_Z};
use ok_bloomer::image::{ImageBuffer, SOURCE_GAMMA};
use ok_bloomer::meshing::{mesh_bitboard, mesh_cube, mesh_triangle, IndexedMesh};
use ok_bloomer::random::hash;
use ok_bloomer::vector_i32::{vec3i, Vec2i, Vec3i};
use std::cmp::Ordering;

fn levels_with(default: ColumnLevel, special: &[(usize, ColumnLevel)]) -> Vec<ColumnLevel> {
    let mut levels = vec![default; CHUNK_AREA];
    for (i, l) in special {
        levels[*i] = *l;
    }
    levels
}

fn v(x: i32, y: i32, z: i32) -> Vec3i {
    Vec3i { x, y, z }
}

#[test]
fn vec3i_builds_components() {
    let a = vec3i(1, -2, 3);
    assert_eq!(a, Vec3i { x: 1, y: -2, z: 3 });
}

#[test]
fn vec3i_adds_componentwise() {
    assert_eq!(vec3i(1, 2, 3) + vec3i(10, -20, 30), vec3i(11, -18, 33));
    assert_eq!(vec3i(5, 6, 7) + vec3i(0, 0, 0), vec3i(5, 6, 7));
}

#[test]
fn vec3i_addition_commutes() {
    let a = vec3i(3, -4, 9);
    let b = vec3i(-7, 2, 1);
    assert_eq!(a + b, b + a);
    let c = vec3i(100, 200, -300);
    assert_eq!((a + b) + c, a + (b + c));
}

#[test]
fn vec3i_orders_lexicographically() {
    assert_eq!(vec3i(0, 5, 5).partial_cmp(&vec3i(1, 0, 0)), Some(Ordering::Less));
    assert_eq!(vec3i(1, 0, 0).partial_cmp(&vec3i(0, 5, 5)), Some(Ordering::Greater));
    assert_eq!(vec3i(1, 2, 0).partial_cmp(&vec3i(1, 3, -9)), Some(Ordering::Less));
    assert_eq!(vec3i(1, 2, 4).partial_cmp(&vec3i(1, 2, 3)), Some(Ordering::Greater));
    assert_eq!(vec3i(1, 2, 3).partial_cmp(&vec3i(1, 2, 3)), Some(Ordering::Equal));
    assert!(vec3i(5, -3, 0) > vec3i(0, 0, 0));
    assert!(vec3i(5, -3, 0) < vec3i(127, 127, 63));
    assert!(vec3i(-1, 100, 100) < vec3i(0, 0, 0));
}

#[test]
fn vec3i_order_is_transitive_and_antisymmetric() {
    let a = vec3i(0, 9, 9);
    let b = vec3i(1, 0, 0);
    let c = vec3i(1, 0, 1);
    assert!(a < b && b < c && a < c);
    assert_eq!(a.partial_cmp(&c), Some(Ordering::Less));
    assert_eq!(c.partial_cmp(&a), Some(Ordering::Greater));
}

#[test]
fn hash_exact_values() {
    assert_eq!(hash(0), 1739749167);
    assert_eq!(hash(1), 150776505);
    assert_eq!(hash(69), 1932925110);
    assert_eq!(hash(12345), 3826328255);
    assert_eq!(hash(u32::MAX), 3360068443);
}

#[test]
fn hash_distinct_inputs_give_distinct_outputs() {
    let mut seen = std::collections::HashSet::new();
    for s in 0..5000u32 {
        assert!(seen.insert(hash(s)));
    }
}

#[test]
fn generate_fills_columns_by_level() {
    let levels = levels_with(
        ColumnLevel::Below,
        &[(0, ColumnLevel::Above), (1, ColumnLevel::Within(60)), (CHUNK_XY + 2, ColumnLevel::Within(0))],
    );
    let chunk = generate(&levels);
    assert_eq!(chunk.data.len(), CHUNK_AREA);
    assert_eq!(chunk.data[0], u64::MAX);
    assert_eq!(chunk.data[1], 0b1111);
    assert_eq!(chunk.data[CHUNK_XY + 2], u64::MAX);
    assert_eq!(chunk.data[2], 0);
    assert_eq!(chunk.data[CHUNK_AREA - 1], 0);
}

#[test]
fn get_reads_voxels() {
    let levels = levels_with(ColumnLevel::Below, &[(1, ColumnLevel::Within(60))]);
    let chunk = generate(&levels);
    // column 1 is (x = 0, y = 1), with bits 0..4 set
    assert!(chunk.get(vec3i(0, 1, 0)));
    assert!(chunk.get(vec3i(0, 1, 3)));
    assert!(!chunk.get(vec3i(0, 1, 4)));
    assert!(!chunk.get(vec3i(0, 0, 0)));
    assert!(!chunk.get(vec3i(1, 1, 0)));
}

#[test]
fn get_is_false_outside_the_chunk() {
    let chunk = generate(&vec![ColumnLevel::Above; CHUNK_AREA]);
    assert!(chunk.get(vec3i(0, 0, 0)));
    assert!(chunk.get(vec3i(127, 127, 63)));
    assert!(!chunk.get(vec3i(-1, 0, 0)));
    assert!(!chunk.get(vec3i(5, -3, 0)));
    assert!(!chunk.get(vec3i(5, 3, -1)));
    assert!(!chunk.get(vec3i(5, 3, 64)));
    assert!(!chunk.get(vec3i(128, 0, 0)));
    assert!(!chunk.get(vec3i(0, 128, 0)));
    assert!(!chunk.get(vec3i(i32::MAX, i32::MIN, 7)));
}

#[test]
fn generated_voxel_is_solid_below_the_surface() {
    for h in [0u32, 1, 30, 63] {
        let chunk = generate(&vec![ColumnLevel::Within(h); CHUNK_AREA]);
        for z in 0..CHUNK_Z as i32 {
            assert_eq!(chunk.get(vec3i(7, 9, z)), (z as u32) + h < 64);
        }
    }
    let empty = generate(&vec![ColumnLevel::Below; CHUNK_AREA]);
    assert!(!empty.get(vec3i(7, 9, 0)));
}

#[test]
fn new_mesh_is_empty() {
    let mesh = IndexedMesh::new();
    assert!(mesh.vertices().is_empty());
    assert!(mesh.indices().is_empty());
}

#[test]
fn push_col_nocombine_emits_one_square_per_bit() {
    let mut mesh = IndexedMesh::new();
    mesh.push_col_nocombine(0b101, Vec2i { x: 3, y: 4 }, 1);
    assert_eq!(
        mesh.vertices(),
        &vec![
            v(6, 8, 2), v(6, 10, 2), v(8, 8, 2), v(8, 10, 2),
            v(6, 8, 6), v(6, 10, 6), v(8, 8, 6), v(8, 10, 6),
        ]
    );
    assert_eq!(mesh.indices(), &vec![3, 2, 0, 1, 0, 3, 7, 6, 4, 5, 4, 7]);
}

#[test]
fn push_col_nocombine_downward_is_not_raised() {
    let mut mesh = IndexedMesh::new();
    mesh.push_col_nocombine(1 << 63, Vec2i { x: -1, y: 0 }, -1);
    assert_eq!(
        mesh.vertices(),
        &vec![v(-2, 0, 126), v(-2, 2, 126), v(0, 0, 126), v(0, 2, 126)]
    );
    assert_eq!(mesh.indices(), &vec![3, 2, 0, 1, 0, 3]);
}

#[test]
fn push_col_emits_nothing() {
    let mut mesh = IndexedMesh::new();
    mesh.push_col(u64::MAX, Vec2i { x: 1, y: 1 }, Vec2i { x: 1, y: 0 });
    assert!(mesh.vertices().is_empty());
    assert!(mesh.indices().is_empty());
}

#[test]
fn push_col_all_emits_caps_only() {
    let mut mesh = IndexedMesh::new();
    mesh.push_col_all(Vec2i { x: 0, y: 0 }, u64::MAX, u64::MAX, u64::MAX, u64::MAX, 0b10, 0b1);
    assert_eq!(
        mesh.vertices(),
        &vec![
            v(0, 0, 4), v(0, 2, 4), v(2, 0, 4), v(2, 2, 4),
            v(0, 0, 0), v(0, 2, 0), v(2, 0, 0), v(2, 2, 0),
        ]
    );
    assert_eq!(mesh.indices().len(), 12);
}

#[test]
fn mesh_bitboard_of_empty_chunk_is_empty() {
    let mesh = mesh_bitboard(generate(&vec![ColumnLevel::Below; CHUNK_AREA]));
    assert!(mesh.vertices().is_empty());
    assert!(mesh.indices().is_empty());
}

#[test]
fn mesh_bitboard_meshes_one_column() {
    // column (0, 1) holds voxels 0..4
    let chunk = generate(&levels_with(ColumnLevel::Below, &[(1, ColumnLevel::Within(60))]));
    let mesh = mesh_bitboard(chunk);
    assert_eq!(
        mesh.vertices(),
        &vec![
            v(0, 2, 2), v(0, 4, 2), v(2, 2, 2), v(2, 4, 2),
            v(0, 2, 6), v(0, 4, 6), v(2, 2, 6), v(2, 4, 6),
        ]
    );
    assert_eq!(mesh.indices(), &vec![3, 2, 0, 1, 0, 3, 7, 6, 4, 5, 4, 7]);
}

#[test]
fn mesh_bitboard_of_full_chunk_has_two_squares_per_column() {
    let chunk = OpaqueChunk { data: vec![u64::MAX; CHUNK_AREA] };
    let mesh = mesh_bitboard(chunk);
    assert_eq!(mesh.vertices().len(), CHUNK_AREA * 8);
    assert_eq!(mesh.indices().len(), CHUNK_AREA * 12);
    assert_eq!(mesh.indices().len() * 2, mesh.vertices().len() * 3);
    // indices wrap at 16 bits
    assert_eq!(mesh.indices()[6 * 16384], 3);
}

#[test]
fn small_mesh_indices_are_valid() {
    let mut data = vec![0u64; CHUNK_AREA];
    for i in 0..100 {
        data[i * 7] = 0x0F0F_00FF;
    }
    let mesh = mesh_bitboard(OpaqueChunk { data });
    assert!(mesh.vertices().len() <= 0x10000);
    assert_eq!(mesh.indices().len() * 2, mesh.vertices().len() * 3);
    for &i in mesh.indices() {
        assert!((i as usize) < mesh.vertices().len());
    }
}

#[test]
fn mesh_triangle_is_one_triangle() {
    let mesh = mesh_triangle();
    assert_eq!(mesh.vertices(), &vec![v(2, 0, -1), v(0, 2, -1), v(-2, 0, -1)]);
    assert_eq!(mesh.indices(), &vec![0, 1, 2]);
}

#[test]
fn mesh_cube_has_twelve_triangles() {
    let mesh = mesh_cube();
    assert_eq!(mesh.vertices().len(), 8);
    assert_eq!(mesh.vertices()[0], v(2, 2, 2));
    assert_eq!(mesh.vertices()[7], v(-2, -2, -2));
    assert_eq!(mesh.indices().len(), 36);
    assert_eq!(&mesh.indices()[0..6], &[0, 1, 5, 0, 5, 6]);
    assert_eq!(&mesh.indices()[30..36], &[4, 7, 6, 4, 6, 5]);
}

#[test]
fn image_new_is_zeroed() {
    let img = ImageBuffer::new(3, 2);
    assert_eq!(img.width_px(), 3);
    assert_eq!(img.height_px(), 2);
    for y in 0..2 {
        for x in 0..3 {
            assert_eq!(img.get(x, y), [0, 0, 0, 0]);
        }
    }
}

#[test]
fn image_get_returns_what_set_wrote() {
    let mut img = ImageBuffer::new(4, 3);
    img.set(2, 1, [10, 20, 30, 40]);
    assert_eq!(img.get(2, 1), [10, 20, 30, 40]);
    assert_eq!(img.get(1, 1), [0, 0, 0, 0]);
    assert_eq!(img.get(3, 1), [0, 0, 0, 0]);
    assert_eq!(img.get(2, 0), [0, 0, 0, 0]);
    img.set(2, 1, [1, 2, 3, 4]);
    assert_eq!(img.get(2, 1), [1, 2, 3, 4]);
}

#[test]
fn image_encodes_to_png() {
    let mut img = ImageBuffer::new(2, 2);
    img.set(1, 0, [255, 0, 0, 255]);
    let bytes = img.encode_png();
    assert_eq!(&bytes[0..8], &[137, 80, 78, 71, 13, 10, 26, 10]);
    assert_eq!(SOURCE_GAMMA, 45454);
}

#[test]
fn image_png_round_trip() {
    let mut img = ImageBuffer::new(3, 2);
    img.set(0, 0, [1, 2, 3, 4]);
    img.set(2, 1, [250, 251, 252, 253]);
    let bytes = img.encode_png();
    let back = ImageBuffer::try_from_bytes(&bytes).unwrap();
    assert_eq!(back.width_px(), 3);
    assert_eq!(back.height_px(), 2);
    assert_eq!(back.get(0, 0), [1, 2, 3, 4]);
    assert_eq!(back.get(2, 1), [250, 251, 252, 253]);
    assert_eq!(back.get(1, 1), [0, 0, 0, 0]);
    let same = ImageBuffer::from_bytes(&bytes);
    assert_eq!(same.get(2, 1), [250, 251, 252, 253]);
}

#[test]
fn image_from_garbage_is_none() {
    assert!(ImageBuffer::try_from_bytes(&[1, 2, 3, 4, 5]).is_none());
    assert!(ImageBuffer::try_from_bytes(&[]).is_none());
}

use ok_bloomer::input::{Action, CursorMode, InputEvent, InputState, Key};
use ok_bloomer::random::corner_hash;

#[test]
fn corner_hash_hashes_corner_seed() {
    assert_eq!(corner_hash(0, 0, 0), hash(0));
    assert_eq!(corner_hash(69, 2, 3), hash(69 + 1512347 * 2 + 213154127 * 3));
}

#[test]
fn input_starts_free_with_no_keys() {
    let s = InputState::new(800, 600);
    assert_eq!(s.xres(), 800);
    assert_eq!(s.yres(), 600);
    assert!(!s.lock_cursor());
    assert!(!s.is_held(Key::W));
    assert_eq!(s.movement_direction(), vec3i(0, 0, 0));
    assert_eq!(s.cursor_mode(), CursorMode::Free);
}

#[test]
fn input_tracks_held_keys() {
    let mut s = InputState::new(800, 800);
    assert_eq!(s.handle_event(InputEvent::KeyPressed(Key::W)), Action::Nothing);
    assert_eq!(s.handle_event(InputEvent::KeyPressed(Key::W)), Action::Nothing);
    s.handle_event(InputEvent::KeyPressed(Key::D));
    s.handle_event(InputEvent::KeyPressed(Key::Other(42)));
    assert!(s.is_held(Key::W) && s.is_held(Key::D) && s.is_held(Key::Other(42)));
    assert!(!s.is_held(Key::Other(43)));
    assert_eq!(s.movement_direction(), vec3i(-1, 0, 1));
    s.handle_event(InputEvent::KeyReleased(Key::W));
    assert!(!s.is_held(Key::W));
    assert!(s.is_held(Key::D));
    assert_eq!(s.movement_direction(), vec3i(-1, 0, 0));
    s.handle_event(InputEvent::KeyPressed(Key::A));
    s.handle_event(InputEvent::KeyPressed(Key::LShift));
    s.handle_event(InputEvent::KeyPressed(Key::S));
    assert_eq!(s.movement_direction(), vec3i(1, -1, -1));
    s.handle_event(InputEvent::KeyPressed(Key::Space));
    assert_eq!(s.movement_direction(), vec3i(1, 1, -1));
    s.handle_event(InputEvent::KeyReleased(Key::Other(7)));
    assert!(s.is_held(Key::A));
}

#[test]
fn input_escape_toggles_cursor_lock() {
    let mut s = InputState::new(800, 601);
    assert_eq!(s.handle_event(InputEvent::MouseMotion), Action::Nothing);
    s.handle_event(InputEvent::KeyPressed(Key::Escape));
    assert!(s.lock_cursor());
    assert_eq!(s.cursor_mode(), CursorMode::Locked(400, 300));
    assert_eq!(s.handle_event(InputEvent::MouseMotion), Action::TurnCamera);
    s.handle_event(InputEvent::KeyReleased(Key::Escape));
    assert!(s.lock_cursor());
    s.handle_event(InputEvent::KeyPressed(Key::Escape));
    assert!(!s.lock_cursor());
    s.handle_event(InputEvent::KeyPressed(Key::Escape));
    assert!(s.lock_cursor());
    assert_eq!(s.handle_event(InputEvent::CursorLeft), Action::Nothing);
    assert!(!s.lock_cursor());
}

#[test]
fn input_resize_quit_and_frame() {
    let mut s = InputState::new(800, 800);
    assert_eq!(s.handle_event(InputEvent::Resized(1024, 768)), Action::SetViewport(1024, 768));
    assert_eq!((s.xres(), s.yres()), (1024, 768));
    assert_eq!(s.handle_event(InputEvent::Resized(u32::MAX, 3)), Action::SetViewport(-1, 3));
    assert_eq!(s.handle_event(InputEvent::Quit), Action::Exit);
    assert_eq!(s.handle_event(InputEvent::MainEventsCleared), Action::Frame);
    assert_eq!(s.handle_event(InputEvent::Ignored), Action::Nothing);
}

#[test]
fn input_cursor_centre_rounds_toward_zero() {
    let mut s = InputState::new(-5, 7);
    s.handle_event(InputEvent::KeyPressed(Key::Escape));
    assert_eq!(s.cursor_mode(), CursorMode::Locked(-2, 3));
}

#[test]
fn image_bytes_follow_rows() {
    let mut img = ImageBuffer::new(2, 2);
    img.set(1, 1, [9, 8, 7, 6]);
    assert_eq!(img.as_bytes().len(), 16);
    assert_eq!(&img.as_bytes()[12..16], &[9, 8, 7, 6]);
}

#[test]
fn push_col_nocombine_split_column_equals_whole() {
    let xy = Vec2i { x: 5, y: -2 };
    let low = 0b1011u64;
    let high = 0b1100_0000u64 << 8;
    let mut a = IndexedMesh::new();
    a.push_col_nocombine(0b1, Vec2i { x: 0, y: 0 }, 1);
    let mut b = IndexedMesh::new();
    b.push_col_nocombine(0b1, Vec2i { x: 0, y: 0 }, 1);
    a.push_col_nocombine(low, xy, 1);
    a.push_col_nocombine(high, xy, 1);
    b.push_col_nocombine(low | high, xy, 1);
    assert_eq!(a.vertices(), b.vertices());
    assert_eq!(a.indices(), b.indices());
}

#[test]
fn mesh_bitboard_quads_follow_index_pattern() {
    let mut data = vec![0u64; CHUNK_AREA];
    for i in 0..300 {
        data[i * 53 % CHUNK_AREA] = 0x00F0_0FF0_F00F_0F0F ^ (i as u64);
    }
    let mesh = mesh_bitboard(OpaqueChunk { data });
    let n = mesh.vertices().len();
    assert_eq!(n % 4, 0);
    assert_eq!(mesh.indices().len(), n / 4 * 6);
    for q in 0..n / 4 {
        let b = 4 * q;
        let expect = [b + 3, b + 2, b, b + 1, b, b + 3].map(|v| v as u16);
        assert_eq!(&mesh.indices()[6 * q..6 * q + 6], &expect);
    }
}
