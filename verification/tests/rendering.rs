use game_engine::camera::Camera;
use game_engine::entity::Entity;
use game_engine::light::Light;
use game_engine::master_renderer::{DrawCommand, MasterRenderer};
use game_engine::model_texture::ModelTexture;
use game_engine::raw_model::RawModel;
use game_engine::scalar::{Scalar, Vec3S, NANOS_PER_UNIT};
use game_engine::textured_model::TexturedModel;

fn scalar(nanos: i64) -> Scalar {
    Scalar { nanos }
}

fn entity_with_texture_id(id: u32) -> Entity {
    let model = RawModel::new(3, 3);
    let texture = ModelTexture::new(id);
    let textured = TexturedModel::new(&model, &texture);
    Entity::new(
        textured,
        Vec3S::zero(),
        scalar(0),
        scalar(0),
        scalar(0),
        scalar(NANOS_PER_UNIT),
        0,
    )
}

fn bind_ids(plan: &[DrawCommand]) -> Vec<u32> {
    plan.iter()
        .filter_map(|c| match c {
            DrawCommand::Bind(m) => Some(m.texture.id),
            DrawCommand::Draw(_) => None,
        })
        .collect()
}

#[test]
fn entities_sharing_a_model_render_under_one_bind() {
    let mut renderer = MasterRenderer::new();
    renderer.add_entity(entity_with_texture_id(5));
    renderer.add_entity(entity_with_texture_id(5));
    let plan = renderer.render();
    assert_eq!(plan.len(), 3);
    assert!(matches!(plan[0], DrawCommand::Bind(_)));
    assert!(matches!(plan[1], DrawCommand::Draw(_)));
    assert!(matches!(plan[2], DrawCommand::Draw(_)));
    assert_eq!(bind_ids(&plan), vec![5]);
}

#[test]
fn distinct_models_get_their_own_bind_groups() {
    let mut renderer = MasterRenderer::new();
    renderer.add_entity(entity_with_texture_id(1));
    renderer.add_entity(entity_with_texture_id(2));
    renderer.add_entity(entity_with_texture_id(1));
    let plan = renderer.render();
    // bucket one: two draws; bucket two: one draw
    assert_eq!(plan.len(), 5);
    assert_eq!(bind_ids(&plan), vec![1, 2]);
    assert!(matches!(plan[0], DrawCommand::Bind(ref m) if m.texture.id == 1));
    assert!(matches!(plan[1], DrawCommand::Draw(_)));
    assert!(matches!(plan[2], DrawCommand::Draw(_)));
    assert!(matches!(plan[3], DrawCommand::Bind(ref m) if m.texture.id == 2));
    assert!(matches!(plan[4], DrawCommand::Draw(_)));
}

#[test]
fn clearing_empties_every_bucket() {
    let mut renderer = MasterRenderer::new();
    renderer.add_entity(entity_with_texture_id(1));
    renderer.clear_entities();
    assert!(renderer.render().is_empty());
}

#[test]
fn same_texture_identity_means_equal_textured_models() {
    let texture = ModelTexture::new(3);
    let a = TexturedModel::new(&RawModel::new(3, 3), &texture);
    let b = TexturedModel::new(&RawModel::new(600, 600), &texture);
    assert!(a == b);
    let other = TexturedModel::new(&RawModel::new(3, 3), &ModelTexture::new(4));
    assert!(a != other);
}

#[test]
fn entity_moves_and_rotates_by_exact_deltas() {
    let mut e = entity_with_texture_id(1);
    e.increase_position(scalar(250_000_000), scalar(0), scalar(-1_000_000_000));
    e.increase_position(scalar(250_000_000), scalar(0), scalar(0));
    let p = e.get_position();
    assert_eq!(p.x.nanos, 500_000_000);
    assert_eq!(p.y.nanos, 0);
    assert_eq!(p.z.nanos, -1_000_000_000);
    e.increase_rotation(scalar(1), scalar(2), scalar(3));
    assert_eq!(e.rot_x.nanos, 1);
    assert_eq!(e.rot_y.nanos, 2);
    assert_eq!(e.rot_z.nanos, 3);
    e.set_texture_index(9);
    assert_eq!(e.texture_index, 9);
}

#[test]
fn atlas_offset_fractions_stay_inside_the_unit_square() {
    let mut e = entity_with_texture_id(1);
    e.model.texture.number_of_rows = 2;
    e.set_texture_index(3);
    let offset = e.get_texture_offset();
    assert_eq!(offset.rows, 2);
    assert_eq!(offset.column, 1);
    assert_eq!(offset.row, 1);
    assert!(offset.column < offset.rows);
    assert!(offset.row < offset.rows);
}

#[test]
fn atlas_offset_for_a_single_row_texture_is_zero() {
    let e = entity_with_texture_id(1);
    let offset = e.get_texture_offset();
    assert_eq!(offset.rows, 1);
    assert_eq!(offset.column, 0);
    assert_eq!(offset.row, 0);
}

#[test]
fn camera_starts_at_origin_and_moves_exactly() {
    let mut camera = Camera::new();
    assert_eq!(camera.get_position().x.nanos, 0);
    camera.move_camera(Vec3S {
        x: scalar(1_000_000_000),
        y: scalar(0),
        z: scalar(-500_000_000),
    });
    camera.move_camera(Vec3S {
        x: scalar(1_000_000_000),
        y: scalar(0),
        z: scalar(0),
    });
    let p = camera.get_position();
    assert_eq!(p.x.nanos, 2_000_000_000);
    assert_eq!(p.z.nanos, -500_000_000);
    assert_eq!(camera.pitch.nanos, 0);
}

#[test]
fn light_defaults_to_white_at_origin() {
    let light = Light::new();
    assert_eq!(light.get_position().x.nanos, 0);
    assert_eq!(light.get_colour().x.nanos, NANOS_PER_UNIT);
    assert_eq!(light.get_colour().z.nanos, NANOS_PER_UNIT);
}
