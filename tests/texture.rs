use modelutils::plane::Weights;
use modelutils::texture::{
    get_texture_id, nearest_texture, precompute_imgs, texture_stat, Rgb, TextureImage,
    TexturePlane, TextureStat, DEFAULT_TEXTURE_ID,
};
use modelutils::vec2::Vec2;
use modelutils::FIXED_ONE;

fn uniform(w: u32, h: u32, c: u8) -> TextureImage {
    let px = vec![Rgb { r: c, g: c, b: c }; (w * h) as usize];
    TextureImage::new(w, h, px).unwrap()
}

#[test]
fn image_size_must_match_pixels() {
    assert!(TextureImage::new(2, 2, vec![Rgb { r: 0, g: 0, b: 0 }; 3]).is_none());
    assert!(TextureImage::new(0, 5, vec![]).is_some());
}

#[test]
fn statistics_of_one_image() {
    let img = TextureImage::new(2, 1, vec![Rgb { r: 1, g: 2, b: 3 }, Rgb { r: 4, g: 5, b: 6 }]).unwrap();
    let t = texture_stat(7, &img);
    assert_eq!(t.block, 7);
    assert_eq!((t.r_sum, t.r_sum_sq), (5, 17));
    assert_eq!((t.g_sum, t.g_sum_sq), (7, 29));
    assert_eq!((t.b_sum, t.b_sum_sq), (9, 45));
    assert_eq!(t.count, 2);
}

#[test]
fn statistics_keep_texture_order() {
    let stats = precompute_imgs(&vec![(3, uniform(1, 1, 9)), (8, uniform(2, 1, 1))]);
    assert_eq!(stats.len(), 2);
    assert_eq!((stats[0].block, stats[0].r_sum, stats[0].count), (3, 9, 1));
    assert_eq!((stats[1].block, stats[1].r_sum_sq, stats[1].count), (8, 2, 2));
}

#[test]
fn pixel_matching_dark_texture_selects_it() {
    let stats = precompute_imgs(&vec![(0, uniform(2, 2, 10)), (1, uniform(2, 2, 200))]);
    // mean brightness 30 against 600
    assert_eq!(nearest_texture(&stats, 30), 0);
    let swapped = precompute_imgs(&vec![(5, uniform(2, 2, 200)), (6, uniform(2, 2, 10))]);
    assert_eq!(nearest_texture(&swapped, 30), 6);
}

#[test]
fn pixel_matching_bright_texture_selects_it() {
    let stats = precompute_imgs(&vec![(0, uniform(2, 2, 10)), (1, uniform(2, 2, 200))]);
    assert_eq!(nearest_texture(&stats, 600), 1);
    let single = precompute_imgs(&vec![(0, uniform(1, 1, 0)), (1, uniform(1, 1, 100))]);
    assert_eq!(nearest_texture(&single, 300), 1);
    // a mean of 600 is nearer to 320 than a mean of 30 is
    assert_eq!(nearest_texture(&stats, 320), 1);
    assert_eq!(nearest_texture(&stats, 310), 0);
}

#[test]
fn texture_without_pixels_is_never_chosen() {
    let stats = precompute_imgs(&vec![(3, uniform(0, 0, 0)), (4, uniform(1, 1, 50))]);
    assert_eq!(stats[0].count, 0);
    assert_eq!(nearest_texture(&stats, 0), 4);
    let empty_only = precompute_imgs(&vec![(3, uniform(0, 0, 0))]);
    assert_eq!(nearest_texture(&empty_only, 0), DEFAULT_TEXTURE_ID);
}

#[test]
fn equal_distances_keep_the_first_texture() {
    let t = TextureStat {
        block: 5,
        r_sum: 4,
        r_sum_sq: 16,
        g_sum: 4,
        g_sum_sq: 16,
        b_sum: 4,
        b_sum_sq: 16,
        count: 1,
    };
    let u = TextureStat { block: 7, ..t };
    assert_eq!(nearest_texture(&vec![t, u], 12), 5);
    assert_eq!(nearest_texture(&vec![], 12), DEFAULT_TEXTURE_ID);
}

fn mapping() -> TexturePlane {
    TexturePlane::new(
        &Vec2::new(0, 0),
        &Vec2::new(2 * FIXED_ONE, 0),
        &Vec2::new(0, 2 * FIXED_ONE),
    )
}

fn two_tone() -> TextureImage {
    let dark = Rgb { r: 10, g: 10, b: 10 };
    let bright = Rgb { r: 200, g: 200, b: 200 };
    TextureImage::new(2, 2, vec![dark, bright, bright, bright]).unwrap()
}

#[test]
fn mapping_plane_point() {
    let tp = TexturePlane::new(&Vec2::new(1024, 2048), &Vec2::new(3072, 2048), &Vec2::new(1024, 5120));
    assert_eq!(tp.a2b, Vec2::new(2048, 0));
    assert_eq!(tp.a2c, Vec2::new(0, 3072));
    // origin + 0.5 * a2b + 0.25 * a2c = (2, 2.75)
    let (x, y) = tp.calc_p(Weights { w1: 2, w2: 1, den: 4 });
    assert_eq!(x.num * 1, 2 * x.den);
    assert_eq!(y.num * 4, 11 * y.den);
}

#[test]
fn texture_id_of_sampled_pixel() {
    let stats = precompute_imgs(&vec![(0, uniform(2, 2, 10)), (1, uniform(2, 2, 200))]);
    let tp = Some(mapping());
    let img = Some(two_tone());
    // w = (0.25, 0) maps to (0.5, 0): the dark pixel (0, 0)
    let id = get_texture_id(Weights { w1: 1, w2: 0, den: 4 }, &tp, &img, &stats);
    assert_eq!(id, 0);
    let stats_bright_first = precompute_imgs(&vec![(4, uniform(2, 2, 200)), (9, uniform(2, 2, 10))]);
    let id = get_texture_id(Weights { w1: 1, w2: 0, den: 4 }, &tp, &img, &stats_bright_first);
    assert_eq!(id, 9);
}

#[test]
fn texture_id_outside_image_or_without_mapping() {
    let stats = precompute_imgs(&vec![(0, uniform(2, 2, 10))]);
    let img = Some(two_tone());
    // w = (1, 1) maps to (2, 2): past the last pixel
    let id = get_texture_id(Weights { w1: 1, w2: 1, den: 1 }, &Some(mapping()), &img, &stats);
    assert_eq!(id, DEFAULT_TEXTURE_ID);
    let id = get_texture_id(Weights { w1: -1, w2: 0, den: 4 }, &Some(mapping()), &img, &stats);
    assert_eq!(id, DEFAULT_TEXTURE_ID);
    let id = get_texture_id(Weights { w1: 1, w2: 0, den: 4 }, &None, &img, &stats);
    assert_eq!(id, DEFAULT_TEXTURE_ID);
    let id = get_texture_id(Weights { w1: 1, w2: 0, den: 4 }, &Some(mapping()), &None, &stats);
    assert_eq!(id, DEFAULT_TEXTURE_ID);
}
