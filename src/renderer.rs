use vstd::prelude::*;

verus! {

/// Offset of the first byte of pixel `(x, y)` in a row-major RGB frame of the
/// given width; row `0` is the top of the image.
pub open spec fn pixel_offset(width: int, x: int, y: int) -> int {
    3 * (y * width + x)
}

/// The three bytes of pixel `(x, y)` in `frame`.
pub open spec fn pixel_at(frame: Seq<u8>, width: int, x: int, y: int) -> [u8; 3] {
    let o = pixel_offset(width, x, y);
    [frame[o], frame[o + 1], frame[o + 2]]
}

/// Frame driver: the number of samples to integrate per pixel.
#[derive(Clone, Copy, Debug)]
pub struct Renderer {
    samples_per_pixel: usize,
}

impl Renderer {
    pub closed spec fn spec_samples_per_pixel(&self) -> usize {
        self.samples_per_pixel
    }

    pub fn new(samples_per_pixel: usize) -> (r: Self)
        ensures
            r.spec_samples_per_pixel() == samples_per_pixel,
    {
        Renderer { samples_per_pixel }
    }

    pub fn samples_per_pixel(&self) -> (r: usize)
        ensures
            r == self.spec_samples_per_pixel(),
    {
        self.samples_per_pixel
    }
}

proof fn lemma_next_offset(width: int, x: int, y: int)
    requires
        0 <= x < width,
        0 <= y,
    ensures
        pixel_offset(width, x, y) + 3 == if x + 1 == width {
            pixel_offset(width, 0, y + 1)
        } else {
            pixel_offset(width, x + 1, y)
        },
{
    assert((y + 1) * width == y * width + width) by (nonlinear_arith);
}

proof fn lemma_offset_bounds(width: int, height: int, x: int, y: int)
    requires
        0 <= x < width,
        0 <= y < height,
    ensures
        0 <= pixel_offset(width, x, y),
        pixel_offset(width, x, y) + 3 <= 3 * (width * height),
{
    assert(y * width + x < width * height) by (nonlinear_arith)
        requires
            0 <= x < width,
            0 <= y < height,
    ;
    assert(0 <= y * width) by (nonlinear_arith)
        requires
            0 <= y,
            0 <= width,
    ;
}

/// Fills a `width` × `height` RGB frame, asking `shade` for the bytes of each
/// pixel. Rows go top to bottom, pixels left to right, channels R, G, B.
pub fn assemble_frame<F: Fn(usize, usize) -> [u8; 3]>(width: usize, height: usize, shade: &F) -> (r: Vec<u8>)
    requires
        3 * width * height <= usize::MAX,
        forall|x: usize, y: usize| x < width && y < height ==> #[trigger] shade.requires((x, y)),
    ensures
        r@.len() == 3 * width * height,
        forall|x: usize, y: usize|
            x < width && y < height ==> #[trigger] shade.ensures(
                (x, y),
                pixel_at(r@, width as int, x as int, y as int),
            ),
{
    let mut frame: Vec<u8> = Vec::new();
    let mut y: usize = 0;
    while y < height
        invariant
            y <= height,
            3 * width * height <= usize::MAX,
            forall|x: usize, y: usize| x < width && y < height ==> #[trigger] shade.requires((x, y)),
            frame@.len() == pixel_offset(width as int, 0, y as int),
            forall|px: usize, py: usize|
                px < width && py < y ==> #[trigger] shade.ensures(
                    (px, py),
                    pixel_at(frame@, width as int, px as int, py as int),
                ),
        decreases height - y,
    {
        let mut x: usize = 0;
        while x < width
            invariant
                y < height,
                x <= width,
                3 * width * height <= usize::MAX,
                forall|x: usize, y: usize| x < width && y < height ==> #[trigger] shade.requires((x, y)),
                frame@.len() == pixel_offset(width as int, x as int, y as int),
                forall|px: usize, py: usize|
                    (px < width && py < y) || (px < x && py == y) ==> #[trigger] shade.ensures(
                        (px, py),
                        pixel_at(frame@, width as int, px as int, py as int),
                    ),
            decreases width - x,
        {
            proof {
                lemma_offset_bounds(width as int, height as int, x as int, y as int);
                lemma_next_offset(width as int, x as int, y as int);
            }
            let c = shade(x, y);
            let ghost before = frame@;
            frame.push(c[0]);
            frame.push(c[1]);
            frame.push(c[2]);
            proof {
                assert forall|px: usize, py: usize|
                    (px < width && py < y) || (px < x + 1 && py == y) implies #[trigger] shade.ensures(
                        (px, py),
                        pixel_at(frame@, width as int, px as int, py as int),
                    ) by {
                    if px == x && py == y {
                        assert(pixel_at(frame@, width as int, px as int, py as int) =~= c);
                    } else {
                        lemma_offset_bounds(width as int, y as int + 1, px as int, py as int);
                        if py < y {
                            assert(pixel_offset(width as int, px as int, py as int) + 3 <= pixel_offset(width as int, 0, y as int)) by {
                                lemma_offset_bounds(width as int, y as int, px as int, py as int);
                            }
                        } else {
                            assert(py as int * width == y as int * width);
                        }
                        assert(pixel_at(frame@, width as int, px as int, py as int) == pixel_at(before, width as int, px as int, py as int));
                    }
                }
            }
            x = x + 1;
        }
        assert((y + 1) * width == y * width + width) by (nonlinear_arith);
        y = y + 1;
    }
    proof {
        assert(pixel_offset(width as int, 0, height as int) == 3 * width * height) by (nonlinear_arith);
    }
    frame
}

} // verus!
