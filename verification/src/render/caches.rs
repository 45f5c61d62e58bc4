use vstd::prelude::*;

use crate::size;
use super::{Error, Result};

verus! {

/// Size of an atlas texture, in pixels.
pub type Size = size::Size<u32>;

/// Where a glyph's bitmap was put: the texture of the atlas and the
/// rectangle inside it, in pixels.
#[derive(Debug, Clone, Copy, PartialEq, Eq)]
pub struct Placement {
    pub atlas: u32,
    pub x: u32,
    pub y: u32,
    pub width: u32,
    pub height: u32,
}

/// Two rectangles share no pixel.
pub open spec fn disjoint(a: Placement, b: Placement) -> bool {
    ||| a.x + a.width <= b.x
    ||| b.x + b.width <= a.x
    ||| a.y + a.height <= b.y
    ||| b.y + b.height <= a.y
}

/// A texture that glyphs are packed into, row by row ("shelves").
///
/// ```text
///             current x
///             v
/// +---------------------------------------------------+
/// |           |                                       |
/// |     f     |                                       |
/// |           |                                       |
/// |---------------------------------------------------| < Base Line
/// |     a     |   b   |   c   |    d    |   e    |    | this row is full
/// +---------------------------------------------------+
/// ```
pub struct Atlas {
    // the current x within the atlas
    x: u32,
    // the current baseline of the atlas
    base_line: u32,
    // the size of the underlying texture
    size: Size,
    // the height of the largest subtexture in the current row.
    max_height: u32,
    // the gl texture handle
    texture_id: u32,
    // the atlas id
    id: u32,
    // every rectangle handed out so far
    placed: Ghost<Seq<Placement>>,
}

impl Clone for Atlas {
    /// The same atlas: the copy describes the same texture and placements.
    fn clone(&self) -> (c: Self)
        ensures
            c == *self,
    {
        proof {
            use_type_invariant(self);
        }
        Atlas {
            x: self.x,
            base_line: self.base_line,
            size: self.size,
            max_height: self.max_height,
            texture_id: self.texture_id,
            id: self.id,
            placed: Ghost(self.placed@),
        }
    }
}

impl Atlas {
    /// Where the next glyph of the current row starts.
    pub closed spec fn cursor_x(&self) -> u32 {
        self.x
    }

    /// The top of the current row.
    pub closed spec fn base_line(&self) -> u32 {
        self.base_line
    }

    /// The height of the tallest glyph in the current row.
    pub closed spec fn row_height(&self) -> u32 {
        self.max_height
    }

    /// The size of the texture.
    pub closed spec fn dims(&self) -> Size {
        self.size
    }

    /// The handle of the texture.
    pub closed spec fn texture(&self) -> u32 {
        self.texture_id
    }

    /// The rectangles handed out so far, oldest first.
    pub closed spec fn placed(&self) -> Seq<Placement> {
        self.placed@
    }

    /// A rectangle lies in the part of the atlas that is already used:
    /// above the current row, or in the current row left of the cursor.
    pub open spec fn in_used_part(&self, r: Placement) -> bool {
        ||| r.y + r.height <= self.base_line()
        ||| {
            &&& self.base_line() <= r.y
            &&& r.y + r.height <= self.base_line() + self.row_height()
            &&& r.x + r.width <= self.cursor_x()
        }
    }

    /// The atlas is consistent: the current row fits in the texture, the
    /// rectangles handed out lie in its used part, carry its texture, and
    /// no two of them overlap. Every atlas is.
    #[verifier::type_invariant]
    pub open spec fn wf(&self) -> bool {
        &&& self.base_line() + self.row_height() <= self.dims().y
        &&& forall|i: int| 0 <= i < self.placed().len() ==> #[trigger] self.in_used_part(self.placed()[i])
        &&& forall|i: int| 0 <= i < self.placed().len() ==> (#[trigger] self.placed()[i]).atlas == self.texture()
        &&& forall|i: int, j: int|
            0 <= i < j < self.placed().len() ==> disjoint(#[trigger] self.placed()[i], #[trigger] self.placed()[j])
    }

    /// An empty atlas of `size` over the texture `texture_id`.
    pub fn new(size: Size, texture_id: u32) -> (a: Self)
        ensures
            a.cursor_x() == 0,
            a.base_line() == 0,
            a.row_height() == 0,
            a.dims() == size,
            a.texture() == texture_id,
            a.placed() == Seq::<Placement>::empty(),
    {
        Self {
            x: 0,
            base_line: 0,
            size,
            max_height: 0,
            texture_id,
            id: 0,
            placed: Ghost(Seq::empty()),
        }
    }

    /// The size of the texture.
    pub fn size(&self) -> (s: Size)
        ensures
            s == self.dims(),
    {
        self.size
    }

    /// The handle of the texture.
    pub fn texture_id(&self) -> (t: u32)
        ensures
            t == self.texture(),
    {
        self.texture_id
    }

    /// Whether a glyph of width `width` still fits in the current row.
    fn has_space(&self, width: u32) -> (b: bool)
        ensures
            b == (self.cursor_x() + width < self.dims().x),
    {
        (self.x as u64) + (width as u64) < (self.size.x as u64)
    }

    /// Moves to the next row, below the tallest glyph of the current one.
    /// Fails when the current row already reaches the bottom of the texture.
    fn advance(&mut self) -> (r: Result<()>)
        ensures
            final(self).dims() == old(self).dims(),
            final(self).texture() == old(self).texture(),
            final(self).placed() == old(self).placed(),
            old(self).base_line() + old(self).row_height() < old(self).dims().y ==> {
                &&& r is Ok
                &&& final(self).cursor_x() == 0
                &&& final(self).base_line() == old(self).base_line() + old(self).row_height()
                &&& final(self).row_height() == 0
            },
            !(old(self).base_line() + old(self).row_height() < old(self).dims().y) ==> {
                &&& r matches Err(Error::AtlasError(m)) && m@ == "last line of atlas"@
                &&& *final(self) == *old(self)
            },
    {
        proof {
            use_type_invariant(&*self);
        }
        if self.base_line + self.max_height < self.size.y {
            let ghost prev = *self;
            proof {
                assert forall|i: int| 0 <= i < prev.placed().len() implies #[trigger] prev.placed()[i].y + prev.placed()[i].height
                    <= prev.base_line() + prev.row_height() by {
                    assert(prev.in_used_part(prev.placed()[i]));
                }
            }
            let next = Atlas {
                x: 0,
                base_line: self.base_line + self.max_height,
                size: self.size,
                max_height: 0,
                texture_id: self.texture_id,
                id: self.id,
                placed: Ghost(self.placed@),
            };
            *self = next;
            Ok(())
        } else {
            Err(Error::AtlasError("last line of atlas".to_owned()))
        }
    }
}


impl Atlas {
    /// A glyph of `width` pixels still fits in the current row.
    pub open spec fn fits_in_row(&self, width: u32) -> bool {
        self.cursor_x() + width < self.dims().x
    }

    /// There is room below the current row for another one.
    pub open spec fn can_advance(&self) -> bool {
        self.base_line() + self.row_height() < self.dims().y
    }

    /// The top of the row a glyph of `width` pixels goes into.
    pub open spec fn row_top_for(&self, width: u32) -> int {
        if self.fits_in_row(width) {
            self.base_line() as int
        } else {
            self.base_line() + self.row_height()
        }
    }

    /// The column a glyph of `width` pixels starts at.
    pub open spec fn column_for(&self, width: u32) -> u32 {
        if self.fits_in_row(width) {
            self.cursor_x()
        } else {
            0
        }
    }

    /// The height of the row a glyph of `width` pixels goes into, before it
    /// is added.
    pub open spec fn row_height_for(&self, width: u32) -> u32 {
        if self.fits_in_row(width) {
            self.row_height()
        } else {
            0
        }
    }


    /// What `insert(width, height)` does to an atlas `before`, leaving
    /// `after` and returning `r`.
    pub open spec fn inserted(before: Atlas, after: Atlas, width: u32, height: u32, r: Result<Placement>) -> bool {
        &&& after.dims() == before.dims()
        &&& after.texture() == before.texture()
        &&& !before.fits_in_row(width) && !before.can_advance() ==> {
            &&& r matches Err(Error::AtlasError(m)) && m@ == "last line of atlas"@
            &&& after == before
        }
        &&& before.fits_in_row(width) || before.can_advance() ==> {
            &&& after.base_line() == before.row_top_for(width)
            &&& before.row_top_for(width) + height > before.dims().y ==> {
                &&& r matches Err(Error::AtlasFull)
                &&& after.cursor_x() == before.column_for(width)
                &&& after.row_height() == before.row_height_for(width)
                &&& after.placed() == before.placed()
            }
            &&& before.row_top_for(width) + height <= before.dims().y ==> {
                let p = Placement {
                    atlas: before.texture(),
                    x: before.column_for(width),
                    y: before.row_top_for(width) as u32,
                    width,
                    height,
                };
                &&& r == Ok::<Placement, Error>(p)
                &&& after.cursor_x() == before.column_for(width) + width
                &&& after.row_height() == if height > before.row_height_for(width) {
                    height
                } else {
                    before.row_height_for(width)
                }
                &&& after.placed() == before.placed().push(p)
            }
        }
    }

    /// Reserves a `width` x `height` rectangle for a glyph. When the current
    /// row has no room left for the width, moves to the next row first; the
    /// glyph must then fit above the bottom of the texture.
    pub fn insert(&mut self, width: u32, height: u32) -> (r: Result<Placement>)
        ensures
            Atlas::inserted(*old(self), *final(self), width, height, r),
            // a reserved rectangle overlaps none handed out before, ends above
            // the bottom of the texture, and ends left of its right edge when
            // it is narrower than the texture
            r matches Ok(p) ==> {
                &&& forall|i: int| 0 <= i < old(self).placed().len() ==> disjoint(#[trigger] old(self).placed()[i], p)
                &&& p.y + p.height <= old(self).dims().y
                &&& width < old(self).dims().x ==> p.x + p.width < old(self).dims().x
            },
    {
        proof {
            use_type_invariant(&*self);
        }
        if !self.has_space(width) {
            self.advance()?;
        }
        proof {
            use_type_invariant(&*self);
        }
        if (self.base_line as u64) + (height as u64) > (self.size.y as u64) {
            return Err(Error::AtlasFull);
        }
        let ghost before = *self;
        let max_height = if height > self.max_height { height } else { self.max_height };
        let new_x = self.x + width;
        let p = Placement { atlas: self.texture_id, x: self.x, y: self.base_line, width, height };
        let ghost placed = before.placed().push(p);
        proof {
            assert forall|i: int| 0 <= i < before.placed().len() implies disjoint(#[trigger] before.placed()[i], p) by {
                assert(before.in_used_part(before.placed()[i]));
            }
            assert forall|i: int| 0 <= i < placed.len() implies {
                ||| #[trigger] placed[i].y + placed[i].height <= before.base_line()
                ||| {
                    &&& before.base_line() <= placed[i].y
                    &&& placed[i].y + placed[i].height <= before.base_line() + max_height
                    &&& placed[i].x + placed[i].width <= new_x
                }
            } by {
                if i < before.placed().len() {
                    assert(before.in_used_part(before.placed()[i]));
                }
            }
            assert forall|i: int| 0 <= i < placed.len() implies (#[trigger] placed[i]).atlas == before.texture() by {
                if i < before.placed().len() {
                    assert(placed[i] == before.placed()[i]);
                }
            }
            assert forall|i: int, j: int| 0 <= i < j < placed.len() implies disjoint(#[trigger] placed[i], #[trigger] placed[j]) by {
                if j < before.placed().len() {
                    assert(disjoint(before.placed()[i], before.placed()[j]));
                } else {
                    assert(disjoint(before.placed()[i], p));
                }
            }
        }
        let next = Atlas {
            x: new_x,
            base_line: self.base_line,
            size: self.size,
            max_height,
            texture_id: self.texture_id,
            id: self.id,
            placed: Ghost(placed),
        };
        *self = next;
        Ok(p)
    }
}


/// A glyph that runs the atlas cursor to the end of a fresh atlas can
/// still be placed: an empty atlas whose texture has rows accepts any glyph
/// that is not taller than the texture. (So asking for a new atlas after
/// `AtlasFull` and trying again ends.)
pub proof fn lemma_fresh_atlas_accepts(a: Atlas, width: u32, height: u32)
    requires
        a.wf(),
        a.cursor_x() == 0,
        a.base_line() == 0,
        a.row_height() == 0,
        0 < a.dims().y,
        height <= a.dims().y,
    ensures
        a.fits_in_row(width) || a.can_advance(),
        a.row_top_for(width) + height <= a.dims().y,
{
}

/// Where `insert` puts a glyph, said from the atlas's cursor alone: a glyph
/// narrower than what is left of the current row goes at the cursor in that
/// row; otherwise, when there is room below, at the left end of the next
/// row, just below the tallest glyph of the current one. It is placed
/// whenever its top plus its height stays within the texture, and
/// `AtlasFull` is returned only when it does not.
pub proof fn lemma_insert_places_when_it_fits(before: Atlas, after: Atlas, width: u32, height: u32, r: Result<Placement>)
    requires
        Atlas::inserted(before, after, width, height, r),
    ensures
        ({
            let fits = before.cursor_x() + width < before.dims().x;
            let below = before.base_line() + before.row_height();
            let top: int = if fits { before.base_line() as int } else { below };
            &&& (fits || below < before.dims().y) && top + height <= before.dims().y ==> r == Ok::<Placement, Error>(
                Placement {
                    atlas: before.texture(),
                    x: if fits { before.cursor_x() } else { 0 },
                    y: top as u32,
                    width,
                    height,
                },
            )
            &&& r matches Err(Error::AtlasFull) ==> (fits || below < before.dims().y) && top + height > before.dims().y
            &&& r is Ok ==> (fits || below < before.dims().y) && top + height <= before.dims().y
        }),
{
}

/// Two glyphs inserted one after the other sit side by side in one row when
/// both fit in its width and height: the second starts where the first
/// ends, at the same top.
pub proof fn lemma_glyphs_side_by_side(
    a0: Atlas,
    a1: Atlas,
    a2: Atlas,
    w1: u32,
    h1: u32,
    w2: u32,
    h2: u32,
    r1: Result<Placement>,
    r2: Result<Placement>,
)
    requires
        Atlas::inserted(a0, a1, w1, h1, r1),
        Atlas::inserted(a1, a2, w2, h2, r2),
        r1 is Ok,
        r1->Ok_0.x + w1 + w2 < a0.dims().x,
        r1->Ok_0.y + h2 <= a0.dims().y,
    ensures
        r2 == Ok::<Placement, Error>(
            Placement { atlas: a0.texture(), x: (r1->Ok_0.x + w1) as u32, y: r1->Ok_0.y, width: w2, height: h2 },
        ),
{
}

/// What became of a glyph handed to the list of atlases.
#[derive(Debug, Clone, Copy)]
pub enum Loaded {
    /// The glyph was placed in the current atlas.
    Placed(Placement),
    /// The current atlas is full: the next one, of this size, is to be
    /// used (and appended to the list when there is none).
    NeedsAtlas(Size),
}

/// Puts a `width` x `height` glyph into the atlas `atlas[last]`. When that
/// atlas is full, `last` moves on to the next atlas and the size of a new
/// atlas is returned: the caller appends one when `last` is now past the
/// end of the list, and tries again.
pub fn load_glyph(atlas: &mut Vec<Atlas>, last: &mut usize, width: u32, height: u32) -> (r: Result<Loaded>)
    requires
        *old(last) < old(atlas).len(),
    ensures
        final(atlas).len() == old(atlas).len(),
        forall|i: int| 0 <= i < old(atlas).len() && i != *old(last) ==> final(atlas)@[i] == old(atlas)@[i],
        r matches Ok(Loaded::Placed(p)) ==> {
            &&& Atlas::inserted(old(atlas)@[*old(last) as int], final(atlas)@[*old(last) as int], width, height, Ok(p))
            &&& *final(last) == *old(last)
        },
        r matches Ok(Loaded::NeedsAtlas(s)) ==> {
            &&& Atlas::inserted(old(atlas)@[*old(last) as int], final(atlas)@[*old(last) as int], width, height, Err(Error::AtlasFull))
            &&& s == old(atlas)@[*old(last) as int].dims()
            &&& *final(last) == *old(last) + 1
        },
        r matches Err(e) ==> {
            &&& Atlas::inserted(old(atlas)@[*old(last) as int], final(atlas)@[*old(last) as int], width, height, Err(e))
            &&& !(e is AtlasFull)
            &&& *final(last) == *old(last)
        },
{
    let index = *last;
    let res = atlas[index].insert(width, height);
    let size = atlas[index].size();
    match res {
        Ok(glyph) => Ok(Loaded::Placed(glyph)),
        Err(Error::AtlasFull) => {
            *last = index + 1;
            Ok(Loaded::NeedsAtlas(size))
        },
        Err(e) => Err(e),
    }
}

/// The characters whose glyphs are loaded up front: the printable ASCII
/// characters `33..=126` followed by `161..=256`.
pub fn preload_chars() -> (chars: Vec<u32>)
    ensures
        chars@.len() == 190,
        forall|i: int| 0 <= i < 94 ==> chars@[i] == 33 + i,
        forall|i: int| 94 <= i < 190 ==> chars@[i] == 161 + (i - 94),
{
    let mut chars: Vec<u32> = Vec::new();
    let mut c: u32 = 33;
    while c <= 126
        invariant
            33 <= c <= 127,
            chars@.len() == c - 33,
            forall|i: int| 0 <= i < chars@.len() ==> chars@[i] == 33 + i,
        decreases 127 - c,
    {
        chars.push(c);
        c = c + 1;
    }
    let mut c: u32 = 161;
    while c <= 256
        invariant
            161 <= c <= 257,
            chars@.len() == 94 + (c - 161),
            forall|i: int| 0 <= i < 94 ==> chars@[i] == 33 + i,
            forall|i: int| 94 <= i < chars@.len() ==> chars@[i] == 161 + (i - 94),
        decreases 257 - c,
    {
        chars.push(c);
        c = c + 1;
    }
    chars
}

} // verus!
