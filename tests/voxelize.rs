use modelutils::grid::ArrayModel;
use modelutils::model::{Faces, Model, Points, TextureCoords, TextureFaces};
use modelutils::model2arr::{make_range, model_2_arr, optional_texture_plane, voxelize};
use modelutils::texture::{precompute_imgs, Rgb, TextureImage};
use modelutils::vec2::Vec2;
use modelutils::FIXED_ONE;

fn fx(v: &[i64]) -> Vec<i64> {
    v.iter().map(|c| c * FIXED_ONE).collect()
}

fn flat_triangle() -> Model {
    Model::new(
        Points::from_flat_vec(fx(&[1, 1, 3, 6, 1, 3, 1, 6, 3])),
        Faces::from_triangles(vec![0, 1, 2]),
        None,
        None,
        None,
    )
}

fn cube() -> Model {
    let corners = [
        1, 1, 1, 4, 1, 1, 4, 4, 1, 1, 4, 1, 1, 1, 4, 4, 1, 4, 4, 4, 4, 1, 4, 4,
    ];
    let faces = vec![
        0, 1, 2, 0, 2, 3, // floor
        4, 5, 6, 4, 6, 7, // ceiling
        0, 1, 5, 0, 5, 4, // y = 1
        3, 2, 6, 3, 6, 7, // y = 4
        0, 3, 7, 0, 7, 4, // x = 1
        1, 2, 6, 1, 6, 5, // x = 4
    ];
    Model::new(Points::from_flat_vec(fx(&corners)), Faces::from_triangles(faces), None, None, None)
}

fn filled_count(g: &ArrayModel, empty: i16) -> usize {
    g.blocks.iter().filter(|b| **b != empty).count()
}

#[test]
fn sampling_ranges() {
    assert_eq!(make_range(-1024, 3072, 1), (0, 4));
    assert_eq!(make_range(512, 1536, 2), (1, 4));
    assert_eq!(make_range(512, 512, 1), (1, 2));
    assert_eq!(make_range(1536, 2560, 1), (2, 4));
}

#[test]
fn flat_triangle_fills_its_footprint() {
    let g = voxelize(&flat_triangle(), (10, 10, 10), 1, &vec![]);
    for x in 0..10usize {
        for y in 0..10usize {
            for z in 0..10usize {
                let inside = x >= 1 && y >= 1 && x + y <= 7 && z == 3;
                let expected = if inside { -1 } else { 0 };
                assert_eq!(g.get((x, y, z)), expected, "cell ({}, {}, {})", x, y, z);
            }
        }
    }
    assert_eq!(filled_count(&g, 0), 21);
}

#[test]
fn triangle_with_equal_a_and_c_rows_fills_its_footprint() {
    let m = Model::new(
        Points::from_flat_vec(fx(&[0, 0, 2, 0, 4, 2, 4, 0, 2])),
        Faces::from_triangles(vec![0, 1, 2]),
        None,
        None,
        None,
    );
    let g = voxelize(&m, (10, 10, 10), 1, &vec![]);
    for x in 0..10usize {
        for y in 0..10usize {
            for z in 0..10usize {
                let expected = if x + y <= 4 && z == 2 { -1 } else { 0 };
                assert_eq!(g.get((x, y, z)), expected, "cell ({}, {}, {})", x, y, z);
            }
        }
    }
}

#[test]
fn cube_gives_a_shell() {
    let g = voxelize(&cube(), (6, 6, 6), 1, &vec![]);
    for x in 0..6usize {
        for y in 0..6usize {
            for z in 0..6usize {
                let in_box = (1..=4).contains(&x) && (1..=4).contains(&y) && (1..=4).contains(&z);
                let on_face = x == 1 || x == 4 || y == 1 || y == 4 || z == 1 || z == 4;
                let expected = if in_box && on_face { -1 } else { 0 };
                assert_eq!(g.get((x, y, z)), expected, "cell ({}, {}, {})", x, y, z);
            }
        }
    }
    assert_eq!(filled_count(&g, 0), 56);
}

#[test]
fn vertical_wall_fills_whole_columns() {
    let wall = Model::new(
        Points::from_flat_vec(fx(&[1, 2, 1, 4, 2, 1, 4, 2, 4])),
        Faces::from_triangles(vec![0, 1, 2]),
        None,
        None,
        None,
    );
    let g = voxelize(&wall, (6, 6, 6), 1, &vec![]);
    for x in 0..6usize {
        for z in 0..6usize {
            let expected = if (1..=4).contains(&x) && (1..=4).contains(&z) { -1 } else { 0 };
            assert_eq!(g.get((x, 2, z)), expected, "cell ({}, 2, {})", x, z);
        }
    }
    assert_eq!(filled_count(&g, 0), 16);
}

#[test]
fn slanted_wall_fills_only_the_columns_under_it() {
    let wall = Model::new(
        Points::from_flat_vec(fx(&[0, 0, 0, 4, 4, 0, 4, 4, 4])),
        Faces::from_triangles(vec![0, 1, 2]),
        None,
        None,
        None,
    );
    let g = voxelize(&wall, (6, 6, 6), 1, &vec![]);
    for x in 0..6usize {
        for y in 0..6usize {
            for z in 0..6usize {
                let expected = if x == y && x <= 4 && z <= 4 { -1 } else { 0 };
                assert_eq!(g.get((x, y, z)), expected, "cell ({}, {}, {})", x, y, z);
            }
        }
    }
    assert_eq!(filled_count(&g, 0), 25);
}

#[test]
fn floor_fills_one_layer() {
    let floor = Model::new(
        Points::from_flat_vec(fx(&[1, 1, 2, 4, 1, 2, 4, 4, 2, 1, 4, 2])),
        Faces::from_triangles(vec![0, 1, 2, 0, 2, 3]),
        None,
        None,
        None,
    );
    let g = voxelize(&floor, (6, 6, 6), 1, &vec![]);
    assert_eq!(filled_count(&g, 0), 16);
    assert!((1..=4).all(|x| (1..=4).all(|y| g.get((x, y, 2)) == -1)));
}

#[test]
fn depth_outside_grid_is_skipped() {
    let high = Model::new(
        Points::from_flat_vec(fx(&[1, 1, 12, 3, 1, 12, 1, 3, 12])),
        Faces::from_triangles(vec![0, 1, 2]),
        None,
        None,
        None,
    );
    let g = voxelize(&high, (5, 5, 5), 1, &vec![]);
    assert_eq!(filled_count(&g, 0), 0);
    let wide = Model::new(
        Points::from_flat_vec(fx(&[1, 1, 1, 9, 1, 1, 1, 9, 1])),
        Faces::from_triangles(vec![0, 1, 2]),
        None,
        None,
        None,
    );
    let g = voxelize(&wide, (4, 4, 4), 1, &vec![]);
    // cells (x, y, 1) with x, y in 1..=3 lie in the grid and under the triangle
    assert_eq!(filled_count(&g, 0), 9);
}

#[test]
fn higher_resolution_keeps_filled_cells() {
    let low = voxelize(&flat_triangle(), (10, 10, 10), 1, &vec![]);
    let high = voxelize(&flat_triangle(), (10, 10, 10), 2, &vec![]);
    let higher = voxelize(&flat_triangle(), (10, 10, 10), 4, &vec![]);
    assert!(filled_count(&high, 0) >= filled_count(&low, 0));
    assert!(filled_count(&higher, 0) >= filled_count(&high, 0));
    assert_eq!(high.resolution, 2);
    assert_eq!(high.dims, (10, 10, 10));
}

#[test]
fn voxelizing_twice_gives_identical_grids() {
    let m = cube();
    let first = voxelize(&m, (6, 6, 6), 3, &vec![]);
    let second = voxelize(&m, (6, 6, 6), 3, &vec![]);
    assert_eq!(first.blocks, second.blocks);
    assert_eq!(first.to_nested(), second.to_nested());
}

fn uniform(c: u8) -> TextureImage {
    TextureImage::new(2, 2, vec![Rgb { r: c, g: c, b: c }; 4]).unwrap()
}

fn textured_triangle() -> Model {
    let dark = Rgb { r: 10, g: 10, b: 10 };
    let bright = Rgb { r: 200, g: 200, b: 200 };
    Model::new(
        Points::from_flat_vec(fx(&[1, 1, 3, 6, 1, 3, 1, 6, 3])),
        Faces::from_triangles(vec![0, 1, 2]),
        TextureImage::new(2, 2, vec![dark, bright, bright, bright]),
        TextureCoords::from_flat_vec(fx(&[0, 0, 2, 0, 0, 2])),
        TextureFaces::from_triangles(vec![0, 1, 2]),
    )
}

#[test]
fn texture_plane_from_first_uv_face() {
    let m = textured_triangle();
    let tp = optional_texture_plane(&m.texture_faces, &m.texture_coords).unwrap();
    assert_eq!(tp.origin, Vec2::new(0, 0));
    assert_eq!(tp.a2b, Vec2::new(2 * FIXED_ONE, 0));
    assert_eq!(tp.a2c, Vec2::new(0, 2 * FIXED_ONE));
    assert!(optional_texture_plane(&None, &m.texture_coords).is_none());
}

#[test]
fn textured_voxels_take_texture_ids() {
    let textures = vec![(0, uniform(10)), (1, uniform(200))];
    let g = model_2_arr(textured_triangle(), (10, 10, 10), 1, textures);
    // the corner A samples the dark pixel (0, 0)
    assert_eq!(g.get((1, 1, 3)), 0);
    // x = 2 maps to u = 0.4: still pixel (0, 0)
    assert_eq!(g.get((2, 1, 3)), 0);
    // x = 4 maps to u = 1.2: the bright pixel (1, 0), nearest to texture 1
    assert_eq!(g.get((4, 1, 3)), 1);
    // B maps to u = 2: outside the image, so no material
    assert_eq!(g.get((6, 1, 3)), -1);
    // unfilled cells hold -1 when texture ids are assigned
    assert_eq!(g.get((0, 0, 0)), -1);
    assert_eq!(g.get((9, 9, 9)), -1);
}

#[test]
fn precomputed_statistics_can_be_reused() {
    let stats = precompute_imgs(&vec![(0, uniform(10)), (1, uniform(200))]);
    let a = voxelize(&textured_triangle(), (10, 10, 10), 1, &stats);
    let b = model_2_arr(textured_triangle(), (10, 10, 10), 1, vec![(0, uniform(10)), (1, uniform(200))]);
    assert_eq!(a.blocks, b.blocks);
}

#[test]
fn wall_layers_are_truncated_to_cells() {
    // a vertical wall from z = 0 up to z = 0.6 (614 / 1024)
    let wall = Model::new(
        Points::from_flat_vec(vec![1024, 2048, 0, 3072, 2048, 0, 3072, 2048, 614]),
        Faces::from_triangles(vec![0, 1, 2]),
        None,
        None,
        None,
    );
    // resolution 1: Z samples 0 and 1 (0.6 rounds up), cells 0 and 1
    let g = voxelize(&wall, (4, 4, 4), 1, &vec![]);
    assert_eq!(g.get((1, 2, 0)), -1);
    assert_eq!(g.get((1, 2, 1)), -1);
    // resolution 2: Z samples 0 and 1 (1.2 rounds down), both in cell 0
    let g = voxelize(&wall, (4, 4, 4), 2, &vec![]);
    assert_eq!(g.get((1, 2, 0)), -1);
    assert_eq!(g.get((1, 2, 1)), 0);
}
