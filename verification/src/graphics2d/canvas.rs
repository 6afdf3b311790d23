use vstd::prelude::*;

verus! {

/// A grid of pixels, `width` across and `height` down, kept row after row in
/// `raw_buffer`.
#[derive(Default, Debug)]
pub struct Canvas<P> {
    pub width: u16,
    pub height: u16,
    pub raw_buffer: Vec<P>,
}

/// Where the pixel `(x, y)` of a canvas `width` across stands in its buffer.
pub open spec fn buffer_index(x: int, y: int, width: int) -> int {
    y * width + x
}

/// The place in the buffer of the pixel in column `x` and row `y` of a canvas
/// `width` across and `height` down, or `None` where the canvas has no such
/// pixel.
pub fn get_2dbuffer_index(x: u16, y: u16, width: u16, height: u16) -> (index: Option<usize>)
    ensures
        index == if x < width && y < height {
            Some(buffer_index(x as int, y as int, width as int) as usize)
        } else {
            None
        },
        index matches Some(i) ==> i == buffer_index(x as int, y as int, width as int) && i
            < width * height,
{
    if x >= width || y >= height {
        return None;
    }
    assert(y * width + x < width * height) by (nonlinear_arith)
        requires
            0 <= x < width,
            0 <= y < height,
    ;
    assert(y * width <= 0xffff * 0xffff) by (nonlinear_arith)
        requires
            0 <= y <= 0xffff,
            0 <= width <= 0xffff,
    ;
    Some(y as usize * width as usize + x as usize)
}

impl<P: Copy + Default> Canvas<P> {
    /// The buffer holds one pixel for each place of the grid.
    pub open spec fn well_formed(&self) -> bool {
        self.raw_buffer@.len() == self.width * self.height
    }

    /// The pixel in column `x` and row `y`.
    pub open spec fn pixel(&self, x: int, y: int) -> P {
        self.raw_buffer@[buffer_index(x, y, self.width as int)]
    }

    /// A canvas `width` across and `height` down, each pixel a
    /// `P::default()`.
    #[must_use]
    pub fn new(width: u16, height: u16) -> (canvas: Self)
        ensures
            canvas.width == width,
            canvas.height == height,
            canvas.well_formed(),
            forall|i: int|
                0 <= i < width * height ==> call_ensures(
                    P::default,
                    (),
                    #[trigger] canvas.raw_buffer@[i],
                ),
    {
        assert(width * height <= 0xffff * 0xffff) by (nonlinear_arith)
            requires
                0 <= width <= 0xffff,
                0 <= height <= 0xffff,
        ;
        let size = width as usize * height as usize;
        let blank = P::default();
        let mut raw_buffer: Vec<P> = Vec::new();
        while raw_buffer.len() < size
            invariant
                raw_buffer@.len() <= size,
                forall|i: int| 0 <= i < raw_buffer@.len() ==> #[trigger] raw_buffer@[i] == blank,
            decreases size - raw_buffer@.len(),
        {
            raw_buffer.push(blank);
        }
        Self { width, height, raw_buffer }
    }

    /// The place in the buffer of the pixel in column `x` and row `y`.
    fn get_2dbuffer_index(&self, x: u16, y: u16) -> (index: Option<usize>)
        ensures
            index == if x < self.width && y < self.height {
                Some(buffer_index(x as int, y as int, self.width as int) as usize)
            } else {
                None
            },
            index matches Some(i) ==> i == buffer_index(x as int, y as int, self.width as int)
                && i < self.width * self.height,
    {
        get_2dbuffer_index(x, y, self.width, self.height)
    }

    /// The pixel in column `x` and row `y`.
    #[must_use]
    pub fn get_pixel_at(&self, x: u16, y: u16) -> (pixel: P)
        requires
            self.well_formed(),
            x < self.width,
            y < self.height,
        ensures
            pixel == self.pixel(x as int, y as int),
    {
        let idx = self.get_2dbuffer_index(x, y).expect("Canvas Coordinates out of range!");
        self.raw_buffer[idx]
    }

    /// Puts `color` in column `x` and row `y`; every other pixel stays.
    pub fn set_pixel_at(&mut self, x: u16, y: u16, color: P)
        requires
            old(self).well_formed(),
            x < old(self).width,
            y < old(self).height,
        ensures
            final(self).width == old(self).width,
            final(self).height == old(self).height,
            final(self).raw_buffer@ == old(self).raw_buffer@.update(
                buffer_index(x as int, y as int, old(self).width as int),
                color,
            ),
    {
        let idx = self.get_2dbuffer_index(x, y).expect("Canvas Coordinates out of range!");
        self.raw_buffer[idx] = color;
    }
}

} // verus!
