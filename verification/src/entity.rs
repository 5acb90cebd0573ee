use vstd::prelude::*;

use crate::scalar::{Scalar, Vec3S};
use crate::textured_model::TexturedModel;

verus! {

/// A positioned, rotated and uniformly scaled instance of a shared textured
/// model, plus an atlas index selecting a sub-region of the bound texture.
/// Many entities may reference one model; movement and rotation mutate the
/// entity in place by exact additive deltas.
#[derive(Clone, Copy, Debug)]
pub struct Entity {
    pub model: TexturedModel,
    pub position: Vec3S,
    pub rot_x: Scalar,
    pub rot_y: Scalar,
    pub rot_z: Scalar,
    pub scale: Scalar,
    pub texture_index: u32,
}

/// An atlas offset as two exact fractions with one denominator: the column
/// fraction is `column / rows`, the row fraction `row / rows`.
#[derive(Clone, Copy, PartialEq, Eq, Structural, Debug)]
pub struct TextureOffset {
    pub column: u32,
    pub row: u32,
    pub rows: u32,
}

impl Entity {
    pub fn new(
        model: TexturedModel,
        position: Vec3S,
        rot_x: Scalar,
        rot_y: Scalar,
        rot_z: Scalar,
        scale: Scalar,
        texture_index: u32,
    ) -> (r: Entity)
        ensures
            r == (Entity { model, position, rot_x, rot_y, rot_z, scale, texture_index }),
    {
        Entity { model, position, rot_x, rot_y, rot_z, scale, texture_index }
    }

    pub fn set_texture_index(&mut self, new_index: u32)
        ensures
            final(self).texture_index == new_index,
            final(self).model == old(self).model,
            final(self).position == old(self).position,
            final(self).rot_x == old(self).rot_x,
            final(self).rot_y == old(self).rot_y,
            final(self).rot_z == old(self).rot_z,
            final(self).scale == old(self).scale,
    {
        self.texture_index = new_index;
    }

    /// Move the entity by an exact componentwise delta.
    pub fn increase_position(&mut self, dx: Scalar, dy: Scalar, dz: Scalar)
        requires
            i64::MIN <= old(self).position.x.nanos + dx.nanos <= i64::MAX,
            i64::MIN <= old(self).position.y.nanos + dy.nanos <= i64::MAX,
            i64::MIN <= old(self).position.z.nanos + dz.nanos <= i64::MAX,
        ensures
            final(self).position.x.nanos == old(self).position.x.nanos + dx.nanos,
            final(self).position.y.nanos == old(self).position.y.nanos + dy.nanos,
            final(self).position.z.nanos == old(self).position.z.nanos + dz.nanos,
            final(self).model == old(self).model,
            final(self).rot_x == old(self).rot_x,
            final(self).rot_y == old(self).rot_y,
            final(self).rot_z == old(self).rot_z,
            final(self).scale == old(self).scale,
            final(self).texture_index == old(self).texture_index,
    {
        self.position = self.position.plus(Vec3S { x: dx, y: dy, z: dz });
    }

    /// Turn the entity by an exact delta about each axis.
    pub fn increase_rotation(&mut self, dx: Scalar, dy: Scalar, dz: Scalar)
        requires
            i64::MIN <= old(self).rot_x.nanos + dx.nanos <= i64::MAX,
            i64::MIN <= old(self).rot_y.nanos + dy.nanos <= i64::MAX,
            i64::MIN <= old(self).rot_z.nanos + dz.nanos <= i64::MAX,
        ensures
            final(self).rot_x.nanos == old(self).rot_x.nanos + dx.nanos,
            final(self).rot_y.nanos == old(self).rot_y.nanos + dy.nanos,
            final(self).rot_z.nanos == old(self).rot_z.nanos + dz.nanos,
            final(self).model == old(self).model,
            final(self).position == old(self).position,
            final(self).scale == old(self).scale,
            final(self).texture_index == old(self).texture_index,
    {
        self.rot_x = self.rot_x.plus(dx);
        self.rot_y = self.rot_y.plus(dy);
        self.rot_z = self.rot_z.plus(dz);
    }

    pub fn get_model(&self) -> (r: TexturedModel)
        ensures
            r == self.model,
    {
        self.model
    }

    pub fn get_position(&self) -> (r: Vec3S)
        ensures
            r == self.position,
    {
        self.position
    }

    /// The atlas offset selected by this entity's texture index: column
    /// `index mod rows`, row `index div rows`, both over denominator `rows`.
    /// The column fraction always lies in the unit interval.
    pub fn get_texture_offset(&self) -> (r: TextureOffset)
        requires
            self.model.texture.number_of_rows >= 1,
        ensures
            r.rows == self.model.texture.number_of_rows,
            r.column == self.texture_index % r.rows,
            r.row == self.texture_index / r.rows,
            r.column < r.rows,
    {
        let rows = self.model.texture.number_of_rows;
        TextureOffset {
            column: self.texture_index % rows,
            row: self.texture_index / rows,
            rows,
        }
    }
}

/// For every atlas index and row count at least one, the offset fractions
/// lie in the unit interval: the column fraction always, and the row
/// fraction whenever the index addresses one of the rows-squared atlas
/// cells.  An index of `rows * rows` or beyond leaves the atlas, and its row
/// fraction reaches one.
pub proof fn lemma_texture_offset_in_unit_square(index: u32, rows: u32)
    requires
        rows >= 1,
    ensures
        index % rows < rows,
        index < rows * rows ==> index / rows < rows,
{
    if (index as int) < (rows as int) * (rows as int) {
        vstd::arithmetic::div_mod::lemma_multiply_divide_lt(
            index as int,
            rows as int,
            rows as int,
        );
    }
}

} // verus!
