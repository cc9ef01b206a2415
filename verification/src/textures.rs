//! The texture store: images keyed by the symbol that selects them.

use vstd::prelude::*;
use crate::color::Color;

verus! {

/// Model of one stored image.
pub struct TextureData {
    pub id: char,
    pub width: int,
    pub height: int,
    pub texels: Seq<Color>,
}

impl TextureData {
    /// The texel at `(tx, ty)`; a coordinate past the last column or row
    /// reads the last one.
    pub open spec fn texel(self, tx: int, ty: int) -> Color {
        let x = if tx < self.width { tx } else { self.width - 1 };
        let y = if ty < self.height { ty } else { self.height - 1 };
        self.texels[y * self.width + x]
    }
}

/// The image stored last under `id`, if any.
pub open spec fn lookup(textures: Seq<TextureData>, id: char) -> Option<TextureData>
    decreases textures.len(),
{
    if textures.len() == 0 {
        None
    } else if textures.last().id == id {
        Some(textures.last())
    } else {
        lookup(textures.drop_last(), id)
    }
}

/// The color that the store gives for texel `(tx, ty)` of the image `id`:
/// white when no image is stored under `id`.
pub open spec fn sample(textures: Seq<TextureData>, id: char, tx: int, ty: int) -> Color {
    match lookup(textures, id) {
        Some(t) => t.texel(tx, ty),
        None => Color::white(),
    }
}

/// One image: `width * height` texels, row by row.
pub struct Texture {
    id: char,
    width: usize,
    height: usize,
    texels: Vec<Color>,
}

impl View for Texture {
    type V = TextureData;

    closed spec fn view(&self) -> TextureData {
        TextureData {
            id: self.id,
            width: self.width as int,
            height: self.height as int,
            texels: self.texels@,
        }
    }
}

impl Texture {
    #[verifier::type_invariant]
    spec fn inv(&self) -> bool {
        &&& self.width >= 1
        &&& self.height >= 1
        &&& self.texels@.len() == self.width * self.height
    }

    /// Whether `texels` can be the rows of a `width` by `height` image.
    pub open spec fn fits(width: usize, height: usize, texels: Seq<Color>) -> bool {
        width >= 1 && height >= 1 && texels.len() == width * height
    }

    /// An image from its rows, or `None` when the size is zero or does not
    /// match the number of texels.
    pub fn new(id: char, width: usize, height: usize, texels: Vec<Color>) -> (t: Option<Texture>)
        ensures
            t.is_some() == Texture::fits(width, height, texels@),
            t matches Some(tex) ==> tex@ == (TextureData {
                id,
                width: width as int,
                height: height as int,
                texels: texels@,
            }),
    {
        if width == 0 || height == 0 {
            return None;
        }
        let len = texels.len();
        match width.checked_mul(height) {
            Some(n) => {
                if n == len {
                    Some(Texture { id, width, height, texels })
                } else {
                    None
                }
            },
            None => None,
        }
    }

    /// The texel at `(tx, ty)`; a coordinate past the last column or row
    /// reads the last one.
    pub fn get(&self, tx: usize, ty: usize) -> (c: Color)
        ensures
            c == self@.texel(tx as int, ty as int),
    {
        proof {
            use_type_invariant(self);
        }
        let x: usize = if tx < self.width { tx } else { self.width - 1 };
        let y: usize = if ty < self.height { ty } else { self.height - 1 };
        proof {
            assert(0 <= y * self.width <= y * self.width + x < self.width * self.height)
                by (nonlinear_arith)
                requires
                    0 <= x < self.width,
                    0 <= y < self.height,
            ;
            assert(self.texels.len() == self.width * self.height);
        }
        self.texels[y * self.width + x]
    }
}

/// The images of a scene.
pub struct TextureManager {
    textures: Vec<Texture>,
}

impl View for TextureManager {
    type V = Seq<TextureData>;

    closed spec fn view(&self) -> Seq<TextureData> {
        Seq::new(self.textures@.len(), |i: int| self.textures@[i]@)
    }
}

impl TextureManager {
    /// A store with no image in it.
    pub fn new() -> (m: TextureManager)
        ensures
            m@ == Seq::<TextureData>::empty(),
    {
        let m = TextureManager { textures: Vec::new() };
        assert(m@ =~= Seq::<TextureData>::empty());
        m
    }

    /// Stores `texture`; it replaces any image stored earlier under its symbol.
    pub fn insert(&mut self, texture: Texture)
        ensures
            final(self)@ == old(self)@.push(texture@),
    {
        self.textures.push(texture);
        assert(self@ =~= old(self)@.push(texture@));
    }

    /// The color of texel `(tx, ty)` of the image stored under `ch`; white
    /// when there is none.
    pub fn get_pixel_color(&self, ch: char, tx: usize, ty: usize) -> (c: Color)
        ensures
            c == sample(self@, ch, tx as int, ty as int),
    {
        let mut i: usize = self.textures.len();
        proof {
            assert(self@.take(i as int) =~= self@);
        }
        while i > 0
            invariant
                i <= self.textures.len(),
                lookup(self@, ch) == lookup(self@.take(i as int), ch),
            decreases i,
        {
            i = i - 1;
            proof {
                let prefix = self@.take(i + 1);
                assert(prefix.last() == self.textures@[i as int]@);
                assert(prefix.drop_last() =~= self@.take(i as int));
            }
            if self.textures[i].id == ch {
                return self.textures[i].get(tx, ty);
            }
        }
        proof {
            assert(self@.take(0).len() == 0);
        }
        Color::white()
    }
}

} // verus!
