use game_engine::loader::{Loader, StringMap};
use game_engine::model_texture::{ModelTexture, TextureError};
use game_engine::raw_model::RawModel;
use game_engine::scalar::NANOS_PER_UNIT;

fn png_bytes(width: u32, height: u32, pixel: [u8; 4]) -> Vec<u8> {
    let img = image::RgbaImage::from_pixel(width, height, image::Rgba(pixel));
    let mut bytes: Vec<u8> = Vec::new();
    img.write_to(&mut std::io::Cursor::new(&mut bytes), image::ImageFormat::Png)
        .unwrap();
    bytes
}

#[test]
fn texture_roundtrip_returns_construction_values() {
    let mut loader = Loader::new();
    let bytes = png_bytes(2, 1, [10, 20, 30, 40]);
    let (texture, img) = loader.load_texture(&bytes).unwrap();
    assert_eq!(texture.get_texture_id(), 1);
    assert_eq!(texture.get_shine().nanos, NANOS_PER_UNIT);
    assert_eq!(texture.get_reflectivity().nanos, 0);
    assert_eq!(texture.get_number_of_rows(), 1);
    assert_eq!(img.width, 2);
    assert_eq!(img.height, 1);
    assert_eq!(img.pixels, vec![10, 20, 30, 40, 10, 20, 30, 40]);
}

#[test]
fn texture_identities_count_up_and_are_not_reused() {
    let mut loader = Loader::new();
    let bytes = png_bytes(1, 1, [1, 2, 3, 4]);
    let (first, _) = loader.load_texture(&bytes).unwrap();
    let (second, _) = loader.load_texture(&bytes).unwrap();
    assert_eq!(first.get_texture_id(), 1);
    assert_eq!(second.get_texture_id(), 2);
}

#[test]
fn undecodable_bytes_are_rejected_without_spending_an_identity() {
    let mut loader = Loader::new();
    let garbage = vec![0u8, 1, 2, 3, 4, 5];
    assert!(matches!(
        loader.load_texture(&garbage),
        Err(TextureError::DecodeFailed)
    ));
    let bytes = png_bytes(1, 1, [9, 9, 9, 9]);
    let (texture, _) = loader.load_texture(&bytes).unwrap();
    assert_eq!(texture.get_texture_id(), 1);
}

#[test]
fn model_texture_defaults() {
    let t = ModelTexture::new(7);
    assert_eq!(t.get_texture_id(), 7);
    assert_eq!(t.get_shine().nanos, NANOS_PER_UNIT);
    assert_eq!(t.get_reflectivity().nanos, 0);
    assert_eq!(t.get_number_of_rows(), 1);
}

#[test]
fn string_map_assigns_first_seen_ranks() {
    let mut map = StringMap::new();
    assert_eq!(map.len(), 0);
    assert_eq!(map.add(&b"1/1/1".to_vec()), 0);
    assert_eq!(map.add(&b"2/2/2".to_vec()), 1);
    assert_eq!(map.add(&b"1/1/1".to_vec()), 0);
    assert_eq!(map.add(&b"3/3/3".to_vec()), 2);
    assert_eq!(map.len(), 3);
}

#[test]
fn interleaving_matches_flat_data() {
    let loader = Loader::new();
    let src = b"v 0.5 0 0\nv 0 1 0\nv 0 0 1\nvt 0.25 0.75\nvt 1 0\nvt 0 1\nvn 0 0 1\nvn 1 0 0\nvn 0 1 0\nf 1/1/1 2/2/2 3/3/3\n".to_vec();
    let data = Loader::load_obj_file(&src).unwrap();
    let (vertices, indices, model) = loader.load_3d_model(&data).unwrap();
    assert_eq!(vertices.len(), 3);
    assert_eq!(indices, vec![0u16, 1, 2]);
    assert_eq!(model, RawModel { num_vertices: 3, num_indices: 3 });
    assert_eq!(vertices[0].position.x.nanos, 500_000_000);
    assert_eq!(vertices[0].tex_coords.x.nanos, 250_000_000);
    assert_eq!(vertices[0].tex_coords.y.nanos, 750_000_000);
    assert_eq!(vertices[1].position.y.nanos, 1_000_000_000);
    assert_eq!(vertices[2].normal.y.nanos, 1_000_000_000);
}

#[test]
fn fallback_triangle_mesh() {
    let loader = Loader::new();
    let (vertices, indices, model) = loader.triangle();
    assert_eq!(vertices.len(), 9);
    assert_eq!(indices, vec![0u16, 1, 2, 3, 4, 5, 6, 7, 8]);
    assert_eq!(model, RawModel { num_vertices: 9, num_indices: 9 });
    assert_eq!(vertices[0].position.x.nanos, -86_824_100);
    assert_eq!(vertices[0].position.y.nanos, 492_403_860);
    assert_eq!(vertices[0].tex_coords.x.nanos, 500_000_000);
    assert_eq!(vertices[8].normal.z.nanos, NANOS_PER_UNIT);
}
