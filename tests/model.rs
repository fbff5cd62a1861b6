use modelutils::coords::{Axis, Order, RotMtx};
use modelutils::grid::ArrayModel;
use modelutils::model::{Faces, Model, Points, TextureCoords, TextureFaces};
use modelutils::texture::{Rgb, TextureImage};
use modelutils::utils::MinMax;
use modelutils::vec2::Vec2;
use modelutils::vec3::Vec3;
use modelutils::FIXED_ONE;

fn model_of(points: Vec<i64>, indices: Vec<u32>) -> Model {
    Model::new(Points::from_flat_vec(points), Faces::from_triangles(indices), None, None, None)
}

#[test]
fn points_from_flat_array() {
    let p = Points::from_flat_vec(vec![1, 2, 3, 4, 5, 6, 7]);
    assert_eq!(p.0, vec![Vec3::new(1, 2, 3), Vec3::new(4, 5, 6)]);
}

#[test]
fn faces_from_flat_indices() {
    let f = Faces::from_triangles(vec![0, 1, 2, 3, 4, 5, 6]);
    assert_eq!(f.0, vec![[0, 1, 2], [3, 4, 5]]);
    assert!(Faces::from_triangles(vec![]).0.is_empty());
}

#[test]
fn texture_faces_need_whole_triangles() {
    assert!(TextureFaces::from_triangles(vec![]).is_none());
    assert!(TextureFaces::from_triangles(vec![0, 1, 2, 3]).is_none());
    let f = TextureFaces::from_triangles(vec![2, 1, 0]).unwrap();
    assert_eq!(f.0, vec![[2, 1, 0]]);
}

#[test]
fn texture_coords_need_whole_pairs() {
    assert!(TextureCoords::from_flat_vec(vec![]).is_none());
    assert!(TextureCoords::from_flat_vec(vec![1, 2, 3]).is_none());
    let c = TextureCoords::from_flat_vec(vec![1, 2, 3, 4]).unwrap();
    assert_eq!(c.0, vec![Vec2::new(1, 2), Vec2::new(3, 4)]);
}

#[test]
fn bounding_box_of_vertices() {
    let m = model_of(vec![3, -1, 7, -2, 5, 0, 1, 1, 9], vec![0, 1, 2]);
    let (lo, hi) = m.model_dims().unwrap();
    assert_eq!(lo, Vec3::new(-2, -1, 0));
    assert_eq!(hi, Vec3::new(3, 5, 9));
}

#[test]
fn empty_mesh_has_no_bounding_box() {
    let m = model_of(vec![], vec![]);
    assert!(m.model_dims().is_none());
    assert_eq!(m.scale_for_box(Vec3::from_scalar(10)), (None, None, None));
    assert_eq!(m.fit_scale(Vec3::from_scalar(10)), None);
}

#[test]
fn move_shifts_every_vertex() {
    let mut m = model_of(vec![3, -1, 7, -2, 5, 0], vec![]);
    let (lo, _) = m.model_dims().unwrap();
    m.mv(Vec3::new(-lo.x, -lo.y, -lo.z));
    assert_eq!(m.vertices.0, vec![Vec3::new(5, 0, 7), Vec3::new(0, 6, 0)]);
}

#[test]
fn scale_multiplies_componentwise() {
    let mut m = model_of(vec![1024, 2048, -3072, 10, 0, 0], vec![]);
    // factors 2, 0.5 and 1.5
    m.scale(Vec3::new(2048, 512, 1536));
    assert_eq!(m.vertices.0[0], Vec3::new(2048, 1024, -4608));
    // 10 * 2 / 1024 rounds to 20 / 1024
    assert_eq!(m.vertices.0[1], Vec3::new(20, 0, 0));
}

#[test]
fn scale_to_fit_box() {
    let m = model_of(vec![0, 0, 0, 2048, 1024, 4096], vec![]);
    let f = m.scale_for_box(Vec3::from_scalar(9 * FIXED_ONE));
    // 9 / 2, 9 / 1 and 9 / 4 in fixed point
    assert_eq!(f, (Some(4608), Some(9216), Some(2304)));
    assert_eq!(m.fit_scale(Vec3::from_scalar(9 * FIXED_ONE)), Some(2304));
}

#[test]
fn flat_mesh_keeps_its_other_ratios() {
    let flat = model_of(vec![0, 0, 0, 2048, 1024, 0], vec![]);
    let f = flat.scale_for_box(Vec3::from_scalar(9 * FIXED_ONE));
    assert_eq!(f, (Some(4608), Some(9216), None));
    assert_eq!(flat.fit_scale(Vec3::from_scalar(9 * FIXED_ONE)), Some(4608));
    let point = model_of(vec![5, 5, 5], vec![]);
    assert_eq!(point.fit_scale(Vec3::from_scalar(9 * FIXED_ONE)), None);
}

#[test]
fn rotation_orders() {
    assert_eq!(Order::XYZ.order_arr(), [Axis::X, Axis::Y, Axis::Z]);
    assert_eq!(Order::YXZ.order_arr(), [Axis::Y, Axis::X, Axis::Z]);
    assert_eq!(Order::XZY.order_arr(), [Axis::X, Axis::Z, Axis::Y]);
    assert_eq!(Order::YZX.order_arr(), [Axis::Y, Axis::Z, Axis::X]);
    assert_eq!(Order::ZXY.order_arr(), [Axis::Z, Axis::X, Axis::Y]);
    assert_eq!(Order::ZYX.order_arr(), [Axis::Z, Axis::Y, Axis::X]);
}

#[test]
fn rotation_matrices() {
    assert_eq!(RotMtx::new().0, [[0; 3]; 3]);
    assert_eq!(RotMtx::x_axis(0, 1024).0, [[1024, 0, 0], [0, 0, -1024], [0, 1024, 0]]);
    assert_eq!(RotMtx::y_axis(0, 1024).0, [[0, 0, 1024], [0, 1024, 0], [-1024, 0, 0]]);
    assert_eq!(RotMtx::z_axis(0, 1024).0, [[0, -1024, 0], [1024, 0, 0], [0, 0, 1024]]);
    let v = RotMtx::z_axis(0, 1024).mul(Vec3::new(1024, 0, 512));
    assert_eq!(v, Vec3::new(0, 1024, 512));
}

#[test]
fn rotate_applies_axes_in_order() {
    let identity_x = RotMtx::x_axis(1024, 0);
    let quarter_y = RotMtx::y_axis(0, 1024);
    let quarter_z = RotMtx::z_axis(0, 1024);
    // Z then Y: (1, 0, 0) -> (0, 1, 0) -> (0, 1, 0)
    let mut m = model_of(vec![1024, 0, 0], vec![]);
    m.rotate(&identity_x, &quarter_y, &quarter_z, Order::XZY);
    assert_eq!(m.vertices.0[0], Vec3::new(0, 1024, 0));
    // Y then Z: (1, 0, 0) -> (0, 0, -1) -> (0, 0, -1)
    let mut m = model_of(vec![1024, 0, 0], vec![]);
    m.rotate(&identity_x, &quarter_y, &quarter_z, Order::XYZ);
    assert_eq!(m.vertices.0[0], Vec3::new(0, 0, -1024));
}

#[test]
fn min_max_tracks_range() {
    let mut r = MinMax::new(5, 3);
    assert_eq!((r.min, r.max), (3, 5));
    r.update(7);
    r.update(-2);
    r.update(4);
    assert_eq!((r.min, r.max), (-2, 7));
    assert_eq!(r.range(), 9);
}

#[test]
fn model_validity() {
    let ok = model_of(vec![0, 0, 0, 1, 1, 1, 2, 0, 0], vec![0, 1, 2]);
    assert!(ok.is_valid());
    let bad_index = model_of(vec![0, 0, 0, 1, 1, 1], vec![0, 1, 2]);
    assert!(!bad_index.is_valid());
    let far = model_of(vec![0, 0, 1 << 40, 1, 1, 1, 2, 0, 0], vec![0, 1, 2]);
    assert!(!far.is_valid());
    let mut img = TextureImage::new(1, 1, vec![Rgb { r: 0, g: 0, b: 0 }]).unwrap();
    img.pixels.push(Rgb { r: 0, g: 0, b: 0 });
    let broken_image = Model::new(
        Points::from_flat_vec(vec![0, 0, 0]),
        Faces::from_triangles(vec![]),
        Some(img),
        None,
        None,
    );
    assert!(!broken_image.is_valid());
    let bad_uv = Model::new(
        Points::from_flat_vec(vec![0, 0, 0]),
        Faces::from_triangles(vec![]),
        None,
        TextureCoords::from_flat_vec(vec![0, 0]),
        TextureFaces::from_triangles(vec![0, 0, 1]),
    );
    assert!(!bad_uv.is_valid());
}

#[test]
fn grid_cells_and_layout() {
    let mut g = ArrayModel::new((2, 3, 4), 1);
    assert_eq!(g.blocks.len(), 24);
    assert!(g.blocks.iter().all(|b| *b == 0));
    g.set((1, 2, 3), 9);
    assert_eq!(g.get((1, 2, 3)), 9);
    assert_eq!(g.blocks[(2 * 2 + 1) * 4 + 3], 9);
    g.clamp_voxel_write(0, 1, 2, 5);
    g.clamp_voxel_write(-1, 0, 0, 7);
    g.clamp_voxel_write(0, 3, 0, 7);
    g.clamp_voxel_write(0, 0, 4, 7);
    assert_eq!(g.blocks.iter().filter(|b| **b == 7).count(), 0);
    let nested = g.to_nested();
    assert_eq!(nested.len(), 3);
    assert_eq!(nested[0].len(), 2);
    assert_eq!(nested[0][0].len(), 4);
    assert_eq!(nested[2][1][3], 9);
    assert_eq!(nested[1][0][2], 5);
    let filled = ArrayModel::filled((1, 1, 2), 3, -1);
    assert_eq!(filled.blocks, vec![-1, -1]);
    assert_eq!(filled.resolution, 3);
}
