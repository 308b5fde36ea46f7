use std::sync::Arc;

use vstd::prelude::*;

verus! {

/// Calls `Arc::clone`: another pointer to the same value.
#[verifier::external_body]
fn share<T>(value: &Arc<T>) -> (r: Arc<T>)
    ensures
        r == *value,
{
    value.clone()
}

/// A cell of a sprite sheet: its column `x` and row `y`.
#[derive(Clone, Copy, Debug, PartialEq, Eq, Structural)]
pub struct SheetPosition {
    pub x: u32,
    pub y: u32,
}

/// An image cut into equal sprites, laid out row by row; `T` is the loaded
/// texture that the image became.
pub struct SpriteSheet<T> {
    sprite_width: u32,
    sprite_height: u32,
    dimensions: (u32, u32),
    texture: Arc<T>,
    texture_path: String,
    normal_path: Option<String>,
    manual_premultiply: bool,
}

impl<T> SpriteSheet<T> {
    pub closed spec fn spec_sprite_width(&self) -> u32 {
        self.sprite_width
    }

    pub closed spec fn spec_sprite_height(&self) -> u32 {
        self.sprite_height
    }

    pub closed spec fn spec_dimensions(&self) -> (u32, u32) {
        self.dimensions
    }

    pub closed spec fn spec_texture(&self) -> Arc<T> {
        self.texture
    }

    pub closed spec fn spec_texture_path(&self) -> Seq<char> {
        self.texture_path@
    }

    pub closed spec fn spec_normal_path(&self) -> Option<Seq<char>> {
        match self.normal_path {
            Some(p) => Some(p@),
            None => None,
        }
    }

    pub closed spec fn spec_manual_premultiply(&self) -> bool {
        self.manual_premultiply
    }

    /// The number of sprites in one row of the sheet.
    pub open spec fn columns(&self) -> int {
        (self.spec_dimensions().0 / self.spec_sprite_width()) as int
    }

    /// Whether sprites can be located by index: a sprite has a width and at
    /// least one fits in a row.
    pub open spec fn can_locate(&self) -> bool {
        self.spec_sprite_width() > 0 && self.columns() > 0
    }

    /// A sheet of sprites of `sprite_width` by `sprite_height` pixels cut
    /// from `texture`, which was loaded from `texture_path` (and the normal
    /// map at `normal_path`) and measures `dimensions` pixels.
    pub fn new(
        texture: Arc<T>,
        dimensions: (u32, u32),
        texture_path: String,
        normal_path: Option<String>,
        sprite_width: u32,
        sprite_height: u32,
        manual_premultiply: bool,
    ) -> (sheet: Self)
        ensures
            sheet.spec_texture() == texture,
            sheet.spec_dimensions() == dimensions,
            sheet.spec_texture_path() == texture_path@,
            sheet.spec_normal_path() == (match normal_path {
                Some(p) => Some(p@),
                None => None::<Seq<char>>,
            }),
            sheet.spec_sprite_width() == sprite_width,
            sheet.spec_sprite_height() == sprite_height,
            sheet.spec_manual_premultiply() == manual_premultiply,
    {
        SpriteSheet {
            sprite_width,
            sprite_height,
            dimensions,
            texture,
            texture_path,
            normal_path,
            manual_premultiply,
        }
    }

    /// The cell of the sprite with the given index, counting row by row.
    pub fn get_position_by_index(&self, index: u32) -> (position: SheetPosition)
        requires
            self.can_locate(),
        ensures
            position.x == (index as int) % self.columns(),
            position.y == (index as int) / self.columns(),
            position.x < self.columns(),
            position.y * self.columns() + position.x == index,
    {
        let num_sprites: u32 = self.dimensions.0 / self.sprite_width;
        let position = SheetPosition { x: index % num_sprites, y: index / num_sprites };
        proof {
            vstd::arithmetic::div_mod::lemma_fundamental_div_mod(index as int, num_sprites as int);
            vstd::arithmetic::mul::lemma_mul_is_commutative(
                num_sprites as int,
                (index / num_sprites) as int,
            );
        }
        position
    }

    /// The texture of the sheet.
    pub fn texture(&self) -> (texture: Arc<T>)
        ensures
            texture == self.spec_texture(),
    {
        share(&self.texture)
    }

    /// Replaces the texture by `texture`, the sheet's image loaded again;
    /// nothing else changes.
    pub fn resize(&mut self, texture: Arc<T>)
        ensures
            final(self).spec_texture() == texture,
            final(self).spec_dimensions() == old(self).spec_dimensions(),
            final(self).spec_sprite_width() == old(self).spec_sprite_width(),
            final(self).spec_sprite_height() == old(self).spec_sprite_height(),
            final(self).spec_texture_path() == old(self).spec_texture_path(),
            final(self).spec_normal_path() == old(self).spec_normal_path(),
            final(self).spec_manual_premultiply() == old(self).spec_manual_premultiply(),
    {
        self.texture = texture;
    }

    /// The width of one sprite, in pixels.
    pub fn sprite_width(&self) -> (w: u32)
        ensures
            w == self.spec_sprite_width(),
    {
        self.sprite_width
    }

    /// The height of one sprite, in pixels.
    pub fn sprite_height(&self) -> (h: u32)
        ensures
            h == self.spec_sprite_height(),
    {
        self.sprite_height
    }

    /// The size of the whole sheet, in pixels.
    pub fn dimensions(&self) -> (d: (u32, u32))
        ensures
            d == self.spec_dimensions(),
    {
        self.dimensions
    }

    /// Where the sheet's image is loaded from.
    pub fn texture_path(&self) -> (p: &str)
        ensures
            p@ == self.spec_texture_path(),
    {
        self.texture_path.as_str()
    }

    /// Where the sheet's normal map is loaded from, if it has one.
    pub fn normal_path(&self) -> (p: Option<&str>)
        ensures
            match p {
                Some(s) => self.spec_normal_path() == Some(s@),
                None => self.spec_normal_path() is None,
            },
    {
        match &self.normal_path {
            Some(path) => Some(path.as_str()),
            None => None,
        }
    }

    /// Whether colours are multiplied by alpha when the image is loaded.
    pub fn manual_premultiply(&self) -> (b: bool)
        ensures
            b == self.spec_manual_premultiply(),
    {
        self.manual_premultiply
    }
}

/// Law: a row of the sheet holds as many sprites as fit side by side across
/// its width, whatever their height: `columns` sprites of the sprite width
/// fit within the sheet's width, and one more would not.
pub proof fn lemma_row_holds_what_fits<T>(sheet: SpriteSheet<T>)
    requires
        sheet.spec_sprite_width() > 0,
    ensures
        sheet.columns() * sheet.spec_sprite_width() <= sheet.spec_dimensions().0,
        sheet.spec_dimensions().0 < (sheet.columns() + 1) * sheet.spec_sprite_width(),
{
    let w = sheet.spec_sprite_width() as int;
    let d = sheet.spec_dimensions().0 as int;
    vstd::arithmetic::div_mod::lemma_fundamental_div_mod(d, w);
    vstd::arithmetic::mul::lemma_mul_is_commutative(w, d / w);
    assert((d / w + 1) * w == (d / w) * w + w) by (nonlinear_arith);
}

/// Law: a sprite located by index lies within the sheet's width: its column
/// starts `x` sprite widths from the left and ends by the right edge.
pub proof fn lemma_located_sprite_within_row<T>(sheet: SpriteSheet<T>, index: u32)
    requires
        sheet.can_locate(),
    ensures
        ((index as int) % sheet.columns() + 1) * sheet.spec_sprite_width()
            <= sheet.spec_dimensions().0,
{
    lemma_row_holds_what_fits(sheet);
    let c = sheet.columns();
    let x = (index as int) % c;
    let w = sheet.spec_sprite_width() as int;
    vstd::arithmetic::div_mod::lemma_mod_bound(index as int, c);
    assert(x + 1 <= c);
    assert((x + 1) * w <= c * w) by (nonlinear_arith)
        requires x + 1 <= c, w > 0;
}

} // verus!
