use jaankaup_core::index_tables::{
    create_fmm_index_table, create_hash_table, index_to_uvec3, work_x_index_to_uvec3,
};
use jaankaup_core::index_testing::Array3D;
use jaankaup_core::misc::{
    create_vb_descriptor, encode_rgba_u32, multisampled, VertexAttribute, VertexFormat,
};

#[test]
fn it_works() {
    assert_eq!(2 + 2, 4);
}

#[test]
fn work_index_splits_into_coordinates() {
    assert_eq!(work_x_index_to_uvec3(0, 4, 4, 4), [0, 0, 0]);
    assert_eq!(work_x_index_to_uvec3(5, 4, 4, 4), [1, 1, 0]);
    assert_eq!(work_x_index_to_uvec3(63, 4, 4, 4), [3, 3, 3]);
    assert_eq!(work_x_index_to_uvec3(37, 10, 5, 8), [7, 3, 0]);
    assert_eq!(work_x_index_to_uvec3(123, 10, 5, 8), [3, 2, 2]);
    // dim_z plays no part: indices past the last layer keep counting layers.
    assert_eq!(work_x_index_to_uvec3(70, 4, 4, 1), [2, 1, 4]);
}

#[test]
fn index_to_uvec3_of_flat_grid() {
    assert_eq!(index_to_uvec3(17, 16, 1), [1, 0, 1]);
    assert_eq!(index_to_uvec3(255, 16, 1), [15, 0, 15]);
    assert_eq!(index_to_uvec3(0, 16, 1), [0, 0, 0]);
}

#[test]
fn work_index_round_trip() {
    let (dx, dy, dz) = (3u32, 5u32, 7u32);
    for i in 0..dx * dy * dz {
        let c = work_x_index_to_uvec3(i, dx, dy, dz);
        assert_eq!(c[0] as u32 + c[1] as u32 * dx + c[2] as u32 * dx * dy, i);
        assert!((c[0] as u32) < dx && (c[1] as u32) < dy && (c[2] as u32) < dz);
    }
}

#[test]
fn fmm_index_table_of_4x4x4_block() {
    let t = create_fmm_index_table(4, 4, 4, 3, 3, 3);
    assert_eq!(t.len(), 64 + 6 * 16);
    assert_eq!(t[0], [0, 0, 0, 0]);
    assert_eq!(t[1], [1, 0, 0, 1]);
    assert_eq!(t[2], [2, 0, 0, 2]);
    assert_eq!(t[63], [3, 3, 3, 63]);
    // Below: offset_z = 64 * 3 * 3 - 16 = 560.
    assert_eq!(t[64], [0, 0, -1, -560]);
    assert_eq!(t[65], [1, 0, -1, -559]);
    // Above.
    assert_eq!(t[80], [0, 0, 4, 608]);
    assert_eq!(t[81], [1, 0, 4, 609]);
    // Right: offset_x = 1 + 64 - 4 = 61.
    assert_eq!(t[96], [4, 0, 0, 64]);
    assert_eq!(t[97], [4, 1, 0, 68]);
    // Left.
    assert_eq!(t[112], [-1, 0, 0, -61]);
    assert_eq!(t[113], [-1, 1, 0, -57]);
    // In front: offset_y = 64 * 3 - 12 = 180.
    assert_eq!(t[128], [0, -1, 0, -180]);
    assert_eq!(t[129], [1, -1, 0, -179]);
    // Behind.
    assert_eq!(t[144], [0, 4, 0, 192]);
    assert_eq!(t[145], [1, 4, 0, 193]);
    assert_eq!(t[159], [3, 4, 3, 243]);
}

#[test]
fn fmm_index_table_of_empty_block() {
    let t = create_fmm_index_table(0, 4, 4, 3, 3, 3);
    assert_eq!(t.len(), 0);
}

#[test]
fn hash_table_of_4x4x4_block() {
    let (mapping, thread_id_mapping, table) = create_hash_table(4, 4, 4, 3, 3, 3);
    assert_eq!(table, create_fmm_index_table(4, 4, 4, 3, 3, 3));
    assert_eq!(mapping.len(), 216);
    assert_eq!(thread_id_mapping.len(), 216);
    // Corner cells of the grown block have no entry.
    assert_eq!(mapping[0], 0);
    assert_eq!(thread_id_mapping[0], 777);
    assert_eq!(thread_id_mapping[215], 777);
    // Cell (0, 0, 0) of the block.
    assert_eq!(mapping[43], 0);
    assert_eq!(thread_id_mapping[43], 0);
    // The ghost cell below (0, 0, 0).
    assert_eq!(mapping[7], -560);
    assert_eq!(thread_id_mapping[7], 64);
    assert_eq!(mapping[37], -180);
    assert_eq!(thread_id_mapping[37], 128);
    assert_eq!(mapping[208], 623);
    assert_eq!(thread_id_mapping[208], 95);
    assert_eq!(thread_id_mapping.iter().filter(|v| **v != 777).count(), 160);
}

#[test]
fn hash_table_looks_up_every_entry() {
    let (mapping, thread_id_mapping, table) = create_hash_table(4, 4, 4, 32, 32, 32);
    for (k, e) in table.iter().enumerate() {
        let h = ((e[0] + 1) + (e[1] + 1) * 6 + (e[2] + 1) * 36) as usize;
        assert_eq!(thread_id_mapping[h], k as u32);
        assert_eq!(mapping[h], e[3]);
    }
}

#[test]
fn array3d_indices() {
    let array = Array3D::init(10, 5, 8, 0.0f32);
    assert_eq!(array.get_index(0, 0, 0), 0);
    assert_eq!(array.get_index(1, 2, 3), 171);
    assert_eq!(array.get_index(9, 4, 7), 399);
    assert_eq!(array.get_3d_index(171), (1, 2, 3));
    assert_eq!(array.get_3d_index(399), (9, 4, 7));
    for x in 0..10 {
        for y in 0..5 {
            for z in 0..8 {
                assert_eq!(array.get_3d_index(array.get_index(x, y, z)), (x, y, z));
            }
        }
    }
}

#[test]
fn rgba_packing() {
    assert_eq!(encode_rgba_u32(0x12, 0x34, 0x56, 0x78), 0x1234_5678);
    assert_eq!(encode_rgba_u32(255, 0, 0, 255), 0xff00_00ff);
    assert_eq!(encode_rgba_u32(0, 0, 0, 0), 0);
    let c = encode_rgba_u32(1, 2, 3, 4);
    assert_eq!(((c >> 24) & 0xff, (c >> 16) & 0xff, (c >> 8) & 0xff, c & 0xff), (1, 2, 3, 4));
}

#[test]
fn sample_counts() {
    assert!(!multisampled(1));
    assert!(multisampled(2));
    assert!(multisampled(4));
    assert!(multisampled(8));
    assert!(multisampled(16));
}

#[test]
fn vertex_buffer_layouts() {
    let (stride, attributes) =
        create_vb_descriptor(&vec![VertexFormat::Float32x4, VertexFormat::Float32x4]);
    assert_eq!(stride, 32);
    assert_eq!(
        attributes,
        vec![
            VertexAttribute { format: VertexFormat::Float32x4, offset: 0, shader_location: 0 },
            VertexAttribute { format: VertexFormat::Float32x4, offset: 16, shader_location: 1 },
        ]
    );
    let (stride, attributes) =
        create_vb_descriptor(&vec![VertexFormat::Float32x3, VertexFormat::Uint32]);
    assert_eq!(stride, 16);
    assert_eq!(attributes[1].offset, 12);
    assert_eq!(attributes[1].shader_location, 1);
    let (stride, attributes) = create_vb_descriptor(&vec![
        VertexFormat::Uint8x2,
        VertexFormat::Snorm16x4,
        VertexFormat::Sint32x3,
        VertexFormat::Unorm8x4,
    ]);
    assert_eq!(stride, 2 + 8 + 12 + 4);
    assert_eq!(
        attributes.iter().map(|a| a.offset).collect::<Vec<u64>>(),
        vec![0, 2, 10, 22]
    );
    let (stride, attributes) = create_vb_descriptor(&vec![]);
    assert_eq!(stride, 0);
    assert!(attributes.is_empty());
}

#[test]
fn fmm_index_table_faces_in_closed_form() {
    for (gx, gy) in [(1i32, 1i32), (3, 3), (32, 32), (5, 2)] {
        let table = create_fmm_index_table(4, 4, 4, gx as u32, gy as u32, 1);
        assert_eq!(table.len(), 160);
        let (layer, row) = (64 * gx * gy - 16, 64 * gx - 12);
        for k in 0..160i32 {
            let expected = if k < 64 {
                [k % 4, (k / 4) % 4, k / 16, k]
            } else {
                let (side, j) = ((k - 64) / 16, (k - 64) % 16);
                let (a, b) = (j % 4, j / 4);
                match side {
                    0 => [a, b, -1, j - layer],
                    1 => [a, b, 4, layer + 48 + j],
                    2 => [4, a, b, 61 + 4 * j + 3],
                    3 => [-1, a, b, 4 * j - 61],
                    4 => [a, -1, b, a + 16 * b - row],
                    _ => [a, 4, b, row + 12 + a + 16 * b],
                }
            };
            assert_eq!(table[k as usize], expected);
        }
    }
}
