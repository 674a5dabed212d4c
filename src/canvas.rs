use vstd::prelude::*;

verus! {

/// A `width` by `height` grid of pixels, stored row by row.
#[derive(Clone, Debug)]
pub struct Canvas<P> {
    width: usize,
    height: usize,
    bitmap: Vec<P>,
}

/// Where pixel `(x, y)` stands in the row-major buffer of a canvas `width`
/// pixels wide.
pub open spec fn pixel_index(width: nat, x: int, y: int) -> int {
    y * width + x
}

/// Distinct pixels of a `width` by `height` canvas have distinct places in
/// its buffer, and every place lies inside it.
pub proof fn lemma_pixel_index_bounds(width: nat, height: nat, x: int, y: int, x2: int, y2: int)
    requires
        0 <= x < width,
        0 <= y < height,
        0 <= x2 < width,
        0 <= y2 < height,
    ensures
        0 <= pixel_index(width, x, y) < width * height,
        (x, y) != (x2, y2) ==> pixel_index(width, x, y) != pixel_index(width, x2, y2),
{
    assert(0 <= y * width + x < width * height) by (nonlinear_arith)
        requires
            0 <= x < width,
            0 <= y < height,
    ;
    if (x, y) != (x2, y2) {
        if y == y2 {
            assert(x != x2);
        } else if y < y2 {
            assert(y * width + width <= y2 * width) by (nonlinear_arith)
                requires
                    y < y2,
            ;
        } else {
            assert(y2 * width + width <= y * width) by (nonlinear_arith)
                requires
                    y2 < y,
            ;
        }
    }
}

impl<P> View for Canvas<P> {
    type V = Seq<P>;

    /// The pixels, row by row.
    closed spec fn view(&self) -> Seq<P> {
        self.bitmap@
    }
}

impl<P: Copy> Canvas<P> {
    /// The number of pixels in a row.
    pub closed spec fn spec_width(&self) -> nat {
        self.width as nat
    }

    /// The number of rows.
    pub closed spec fn spec_height(&self) -> nat {
        self.height as nat
    }

    /// The buffer holds one pixel for each place of the grid.
    pub open spec fn wf(&self) -> bool {
        self@.len() == self.spec_width() * self.spec_height()
    }

    /// The pixel in column `x` of row `y`.
    pub open spec fn pixel(&self, x: int, y: int) -> P {
        self@[pixel_index(self.spec_width(), x, y)]
    }

    /// A canvas of the given size with every pixel set to `fill`.
    pub fn new(width: usize, height: usize, fill: P) -> (r: Canvas<P>)
        requires
            width * height <= usize::MAX,
        ensures
            r.wf(),
            r.spec_width() == width,
            r.spec_height() == height,
            r@ == Seq::new((width * height) as nat, |i: int| fill),
    {
        let count = width * height;
        let mut bitmap: Vec<P> = Vec::new();
        let mut i: usize = 0;
        while i < count
            invariant
                0 <= i <= count,
                bitmap@.len() == i,
                forall|a: int| 0 <= a < i ==> #[trigger] bitmap@[a] == fill,
            decreases count - i,
        {
            bitmap.push(fill);
            i += 1;
        }
        let r = Canvas { width, height, bitmap };
        proof {
            assert(r@ =~= Seq::new((width * height) as nat, |i: int| fill));
        }
        r
    }

    /// The number of pixels in a row.
    pub fn width(&self) -> (r: usize)
        ensures
            r == self.spec_width(),
    {
        self.width
    }

    /// The number of rows.
    pub fn height(&self) -> (r: usize)
        ensures
            r == self.spec_height(),
    {
        self.height
    }

    /// All pixels, row by row.
    pub fn pixels(&self) -> (r: &Vec<P>)
        ensures
            r@ == self@,
    {
        &self.bitmap
    }

    /// Sets the pixel in column `x` of row `y` to `color`; the size and every
    /// other pixel stay.
    pub fn write_pixel(&mut self, x: usize, y: usize, color: P)
        requires
            old(self).wf(),
            x < old(self).spec_width(),
            y < old(self).spec_height(),
        ensures
            final(self).wf(),
            final(self).spec_width() == old(self).spec_width(),
            final(self).spec_height() == old(self).spec_height(),
            final(self)@ == old(self)@.update(
                pixel_index(old(self).spec_width(), x as int, y as int),
                color,
            ),
    {
        let len = self.bitmap.len();
        proof {
            lemma_pixel_index_bounds(
                self.width as nat,
                self.height as nat,
                x as int,
                y as int,
                x as int,
                y as int,
            );
        }
        let i = y * self.width + x;
        self.bitmap.set(i, color);
    }

    /// The pixel in column `x` of row `y`.
    pub fn pixel_at(&self, x: usize, y: usize) -> (r: P)
        requires
            self.wf(),
            x < self.spec_width(),
            y < self.spec_height(),
        ensures
            r == self.pixel(x as int, y as int),
    {
        let len = self.bitmap.len();
        proof {
            lemma_pixel_index_bounds(
                self.width as nat,
                self.height as nat,
                x as int,
                y as int,
                x as int,
                y as int,
            );
        }
        self.bitmap[y * self.width + x]
    }
}

/// Reading a pixel after writing it gives back exactly the color written,
/// and every other pixel reads as it did before the write.
pub proof fn lemma_read_after_write<P: Copy>(
    before: Canvas<P>,
    after: Canvas<P>,
    x: int,
    y: int,
    color: P,
    x2: int,
    y2: int,
)
    requires
        before.wf(),
        0 <= x < before.spec_width(),
        0 <= y < before.spec_height(),
        0 <= x2 < before.spec_width(),
        0 <= y2 < before.spec_height(),
        after.spec_width() == before.spec_width(),
        after.spec_height() == before.spec_height(),
        after@ == before@.update(pixel_index(before.spec_width(), x, y), color),
    ensures
        after.pixel(x, y) == color,
        (x2, y2) != (x, y) ==> after.pixel(x2, y2) == before.pixel(x2, y2),
{
    lemma_pixel_index_bounds(before.spec_width(), before.spec_height(), x, y, x2, y2);
    lemma_pixel_index_bounds(before.spec_width(), before.spec_height(), x2, y2, x, y);
}

} // verus!
