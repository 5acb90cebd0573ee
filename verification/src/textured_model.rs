use vstd::prelude::*;

use crate::model_texture::ModelTexture;
use crate::raw_model::RawModel;

verus! {

/// A mesh paired with its texture: the unit of rendering and of batching.
/// Equality is keyed on the texture's identity alone, so two textured models
/// sharing one texture identity fall into one batch; meshes that need
/// separate batches must not share a texture identity.
#[derive(Clone, Copy, Debug)]
pub struct TexturedModel {
    pub model: RawModel,
    pub texture: ModelTexture,
}

impl PartialEq for TexturedModel {
    fn eq(&self, other: &Self) -> (r: bool) {
        self.texture.id == other.texture.id
    }
}

impl vstd::std_specs::cmp::PartialEqSpecImpl for TexturedModel {
    open spec fn obeys_eq_spec() -> bool {
        true
    }

    open spec fn eq_spec(&self, other: &TexturedModel) -> bool {
        self.texture.id == other.texture.id
    }
}

impl TexturedModel {
    pub fn new(model: &RawModel, text_id: &ModelTexture) -> (r: TexturedModel)
        ensures
            r.model == *model,
            r.texture == *text_id,
    {
        TexturedModel { model: *model, texture: *text_id }
    }

    pub fn get_texture(&self) -> (r: ModelTexture)
        ensures
            r == self.texture,
    {
        self.texture
    }

    pub fn get_model(&self) -> (r: RawModel)
        ensures
            r == self.model,
    {
        self.model
    }
}

} // verus!
