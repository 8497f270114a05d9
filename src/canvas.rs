use vstd::prelude::*;

verus! {

/// An 8-bit-per-channel RGBA colour.
#[derive(Clone, Copy, Debug, PartialEq, Eq, Structural)]
pub struct RGBA8 {
    pub r: u8,
    pub g: u8,
    pub b: u8,
    pub a: u8,
}

/// Opaque black, the sampler's fallback colour.
pub open spec fn black_spec() -> RGBA8 {
    RGBA8 { r: 0, g: 0, b: 0, a: 255 }
}

/// Draws one byte from the thread-local generator.
/// Relies on rand::random::<u8>: any byte may come back, nothing is promised.
#[verifier::external_body]
fn random_byte() -> (r: u8) {
    rand::random::<u8>()
}

impl RGBA8 {
    /// A colour with random channels; the alpha channel is opaque unless
    /// `include_alpha` asks for a random one too.
    pub fn random(include_alpha: bool) -> (r: RGBA8)
        ensures
            !include_alpha ==> r.a == 255,
    {
        let r = random_byte();
        let g = random_byte();
        let b = random_byte();
        let a = if include_alpha { random_byte() } else { 255u8 };
        RGBA8 { r, g, b, a }
    }

    pub fn black() -> (r: RGBA8)
        ensures
            r == black_spec(),
    {
        RGBA8 { r: 0u8, g: 0u8, b: 0u8, a: 255u8 }
    }

    pub fn white() -> (r: RGBA8)
        ensures
            r == (RGBA8 { r: 255, g: 255, b: 255, a: 255 }),
    {
        RGBA8 { r: 255u8, g: 255u8, b: 255u8, a: 255u8 }
    }
}

/// How a texture is read between pixel centres.
#[derive(Clone, Copy, Debug, PartialEq, Eq, Structural)]
pub enum SampleMode {
    NearestNeighbor,
    BiLinear,
    BiCubic,
}


/// The colour stored at pixel number `q` (row-major) of an RGBA byte buffer.
pub open spec fn pixel_of(data: Seq<u8>, q: int) -> RGBA8 {
    RGBA8 { r: data[4 * q], g: data[4 * q + 1], b: data[4 * q + 2], a: data[4 * q + 3] }
}

/// Position `(x, y)` of a grid `w` columns wide, counted row by row.
pub open spec fn cell_index(w: int, x: int, y: int) -> int {
    y * w + x
}

proof fn lemma_cell_index_bounds(w: int, h: int, x: int, y: int)
    requires
        0 <= x < w,
        0 <= y < h,
    ensures
        0 <= cell_index(w, x, y) < w * h,
        (cell_index(w, x, y) + 1) * 4 <= w * h * 4,
{
    assert(y * w + x < w * h) by (nonlinear_arith)
        requires
            0 <= x < w,
            0 <= y < h,
    ;
    assert(0 <= y * w) by (nonlinear_arith)
        requires
            0 <= y,
            0 <= w,
    ;
}

proof fn lemma_cell_index_injective(w: int, x1: int, y1: int, x2: int, y2: int)
    requires
        0 <= x1 < w,
        0 <= x2 < w,
        0 <= y1,
        0 <= y2,
        cell_index(w, x1, y1) == cell_index(w, x2, y2),
    ensures
        x1 == x2,
        y1 == y2,
{
    if y1 < y2 {
        assert(y1 * w + w <= y2 * w) by (nonlinear_arith)
            requires
                y1 < y2,
                0 <= w,
        ;
    } else if y2 < y1 {
        assert(y2 * w + w <= y1 * w) by (nonlinear_arith)
            requires
                y2 < y1,
                0 <= w,
        ;
    }
}

/// A surface that single pixels can be drawn on.
pub trait PixelDraw {
    /// Well-formedness of the surface's own state.
    spec fn inv(&self) -> bool;

    /// Number of columns that can be drawn.
    spec fn draw_width(&self) -> nat;

    /// Number of rows that can be drawn.
    spec fn draw_height(&self) -> nat;

    /// Whether drawing takes effect in the current state.
    spec fn draws(&self) -> bool;

    /// The colour at column `x`, row `y`, for a position inside the surface.
    spec fn pixel_at(&self, x: int, y: int) -> RGBA8;

    /// Stores `col` at column `x`, row `y` when the surface draws; every other
    /// pixel keeps its colour.
    fn set_pixel(&mut self, x: u32, y: u32, col: &RGBA8)
        requires
            old(self).inv(),
            x < old(self).draw_width(),
            y < old(self).draw_height(),
        ensures
            final(self).inv(),
            final(self).draw_width() == old(self).draw_width(),
            final(self).draw_height() == old(self).draw_height(),
            final(self).draws() == old(self).draws(),
            forall|i: int, j: int|
                0 <= i < old(self).draw_width() && 0 <= j < old(self).draw_height()
                    ==> #[trigger] final(self).pixel_at(i, j) == if old(self).draws() && i == x
                    && j == y {
                    *col
                } else {
                    old(self).pixel_at(i, j)
                },
    ;
}

/// A readable pixel grid.
pub trait Canvas: PixelDraw {
    fn get_width(&self) -> (r: u32)
        ensures
            r == self.draw_width(),
    ;

    fn get_height(&self) -> (r: u32)
        ensures
            r == self.draw_height(),
    ;

    fn get_pixel(&self, x: u32, y: u32) -> (r: RGBA8)
        requires
            self.inv(),
            x < self.draw_width(),
            y < self.draw_height(),
        ensures
            r == self.pixel_at(x as int, y as int),
    ;

    /// Paints every pixel with `color` when the surface draws.
    fn fill(&mut self, color: &RGBA8)
        requires
            old(self).inv(),
        ensures
            final(self).inv(),
            final(self).draw_width() == old(self).draw_width(),
            final(self).draw_height() == old(self).draw_height(),
            final(self).draws() == old(self).draws(),
            forall|i: int, j: int|
                0 <= i < old(self).draw_width() && 0 <= j < old(self).draw_height()
                    ==> #[trigger] final(self).pixel_at(i, j) == if old(self).draws() {
                    *color
                } else {
                    old(self).pixel_at(i, j)
                },
    ;
}

/// An owned, mutable RGBA buffer of `w` by `h` pixels, four bytes per pixel,
/// row by row.
pub struct HeapCanvas {
    w: u32,
    h: u32,
    data: Vec<u8>,
}

impl HeapCanvas {
    /// A canvas of `w` by `h` transparent black pixels.
    pub fn new(w: u32, h: u32) -> (r: HeapCanvas)
        requires
            w * h * 4 <= usize::MAX,
        ensures
            r.inv(),
            r.draw_width() == w,
            r.draw_height() == h,
            r.draws(),
            forall|i: int, j: int|
                0 <= i < w && 0 <= j < h ==> #[trigger] r.pixel_at(i, j) == (RGBA8 {
                    r: 0,
                    g: 0,
                    b: 0,
                    a: 0,
                }),
    {
        let s: usize = (w as usize) * (h as usize) * 4usize;
        let data: Vec<u8> = vec![0u8; s];
        let r = HeapCanvas { w, h, data };
        assert forall|i: int, j: int| 0 <= i < w && 0 <= j < h implies #[trigger] r.pixel_at(
            i,
            j,
        ) == (RGBA8 { r: 0, g: 0, b: 0, a: 0 }) by {
            lemma_cell_index_bounds(w as int, h as int, i, j);
        }
        r
    }

    /// Number of bytes held.
    pub fn get_size(&self) -> (r: usize)
        requires
            self.inv(),
        ensures
            r == self.draw_width() * self.draw_height() * 4,
    {
        self.data.len()
    }

    /// Offset of the first byte of pixel `(x, y)`.
    pub fn compute_index(&self, x: u32, y: u32) -> (r: usize)
        requires
            (y * self.draw_width() + x) * 4 <= usize::MAX,
        ensures
            r == cell_index(self.draw_width() as int, x as int, y as int) * 4,
    {
        proof {
            assert(0 <= y * self.w) by (nonlinear_arith);
            assert((y as int) * (self.w as int) * 4 == (y * self.w + x) * 4 - x * 4) by (nonlinear_arith);
        }
        ((y as usize) * (self.w as usize) * 4usize) + ((x as usize) * 4usize)
    }

    /// Offset of the first byte of pixel `(x, y)`, which lies inside the canvas.
    pub fn compute_safe_index(&self, x: u32, y: u32) -> (r: usize)
        requires
            self.inv(),
            x < self.draw_width(),
            y < self.draw_height(),
        ensures
            r == cell_index(self.draw_width() as int, x as int, y as int) * 4,
            r + 4 <= self.draw_width() * self.draw_height() * 4,
    {
        proof {
            lemma_cell_index_bounds(self.w as int, self.h as int, x as int, y as int);
        }
        let max: usize = self.get_size();
        let ret: usize = self.compute_index(x, y);
        assert(ret < max);
        ret
    }

    /// The raw bytes, four per pixel, row by row.
    pub fn as_bytes(&self) -> (r: &[u8])
        requires
            self.inv(),
        ensures
            r@.len() == self.draw_width() * self.draw_height() * 4,
            forall|i: int, j: int|
                0 <= i < self.draw_width() && 0 <= j < self.draw_height() ==> #[trigger] self.pixel_at(
                    i,
                    j,
                ) == pixel_of(r@, cell_index(self.draw_width() as int, i, j)),
    {
        self.data.as_slice()
    }
}

impl PixelDraw for HeapCanvas {
    closed spec fn inv(&self) -> bool {
        self.data@.len() == self.w * self.h * 4
    }

    closed spec fn draw_width(&self) -> nat {
        self.w as nat
    }

    closed spec fn draw_height(&self) -> nat {
        self.h as nat
    }

    open spec fn draws(&self) -> bool {
        true
    }

    closed spec fn pixel_at(&self, x: int, y: int) -> RGBA8 {
        pixel_of(self.data@, cell_index(self.w as int, x, y))
    }

    fn set_pixel(&mut self, x: u32, y: u32, col: &RGBA8) {
        let idx: usize = self.compute_safe_index(x, y);
        self.data.set(idx, col.r);
        self.data.set(idx + 1, col.g);
        self.data.set(idx + 2, col.b);
        self.data.set(idx + 3, col.a);
        proof {
            assert forall|i: int, j: int|
                0 <= i < old(self).draw_width() && 0 <= j < old(self).draw_height()
                    implies #[trigger] self.pixel_at(i, j) == if i == x && j == y {
                    *col
                } else {
                    old(self).pixel_at(i, j)
                } by {
                let q = cell_index(self.w as int, i, j);
                lemma_cell_index_bounds(self.w as int, self.h as int, i, j);
                if q == cell_index(self.w as int, x as int, y as int) {
                    lemma_cell_index_injective(self.w as int, i, j, x as int, y as int);
                }
            }
        }
    }
}

impl Canvas for HeapCanvas {
    fn get_width(&self) -> (r: u32) {
        self.w
    }

    fn get_height(&self) -> (r: u32) {
        self.h
    }

    fn get_pixel(&self, x: u32, y: u32) -> (r: RGBA8) {
        let idx: usize = self.compute_safe_index(x, y);
        let ghost q = cell_index(self.w as int, x as int, y as int);
        assert(idx == 4 * q);
        RGBA8 { r: self.data[idx], g: self.data[idx + 1], b: self.data[idx + 2], a: self.data[idx + 3] }
    }

    fn fill(&mut self, color: &RGBA8) {
        let size: usize = self.get_size();
        let n: usize = (self.w as usize) * (self.h as usize);
        let mut q: usize = 0;
        while q < n
            invariant
                n == self.w * self.h,
                self.inv(),
                self.w == old(self).w,
                self.h == old(self).h,
                self.data@.len() == n * 4,
                size == n * 4,
                q <= n,
                forall|p: int| 0 <= p < q ==> #[trigger] pixel_of(self.data@, p) == *color,
            decreases n - q,
        {
            let ghost prev = self.data@;
            let i: usize = q * 4;
            self.data.set(i, color.r);
            self.data.set(i + 1, color.g);
            self.data.set(i + 2, color.b);
            self.data.set(i + 3, color.a);
            proof {
                assert forall|p: int| 0 <= p < q + 1 implies #[trigger] pixel_of(self.data@, p)
                    == *color by {
                    if p < q {
                        assert(pixel_of(prev, p) == *color);
                    }
                }
            }
            q = q + 1;
        }
        proof {
            assert forall|i: int, j: int|
                0 <= i < old(self).draw_width() && 0 <= j < old(self).draw_height()
                    implies #[trigger] self.pixel_at(i, j) == *color by {
                lemma_cell_index_bounds(self.w as int, self.h as int, i, j);
            }
        }
    }
}


#[verifier::external_type_specification]
#[verifier::external_body]
pub struct ExDynamicImage(image::DynamicImage);

/// Converts a decoded image to 8-bit RGBA and hands out its dimensions and
/// its bytes. Relies on image::DynamicImage::into_rgba8, then on the
/// resulting image::ImageBuffer's width, height and into_raw: every
/// constructor of an ImageBuffer checks or allocates at least four bytes for
/// each of its `width * height` RGBA pixels, row by row.
#[verifier::external_body]
fn rgba8_parts(img: image::DynamicImage) -> (r: (u32, u32, Vec<u8>))
    ensures
        r.2@.len() >= r.0 * r.1 * 4,
{
    let buffer = img.into_rgba8();
    (buffer.width(), buffer.height(), buffer.into_raw())
}

/// A canvas over the pixels of a decoded image asset.
pub struct ImageCanvas {
    buffer: HeapCanvas,
}

impl ImageCanvas {
    /// Takes the pixels of `img`, converted to 8-bit RGBA.
    pub fn new(img: image::DynamicImage) -> (r: ImageCanvas)
        ensures
            r.inv(),
            r.draws(),
    {
        let (w, h, data) = rgba8_parts(img);
        ImageCanvas::from_rgba8(w, h, data)
    }

    /// A canvas of `w` by `h` pixels read from the first `w * h * 4` bytes
    /// of `data`, four bytes per pixel (red, green, blue, alpha), row by row.
    pub fn from_rgba8(w: u32, h: u32, data: Vec<u8>) -> (r: ImageCanvas)
        requires
            w * h * 4 <= data@.len(),
        ensures
            r.inv(),
            r.draws(),
            r.draw_width() == w,
            r.draw_height() == h,
            forall|i: int, j: int|
                0 <= i < w && 0 <= j < h ==> #[trigger] r.pixel_at(i, j) == pixel_of(
                    data@,
                    cell_index(w as int, i, j),
                ),
    {
        let mut data = data;
        let ghost original = data@;
        let len: usize = data.len();
        proof {
            assert(w * h <= w * h * 4) by (nonlinear_arith);
        }
        let size: usize = (w as usize) * (h as usize) * 4usize;
        assert(size <= len);
        data.truncate(size);
        let r = ImageCanvas { buffer: HeapCanvas { w, h, data } };
        assert forall|i: int, j: int| 0 <= i < w && 0 <= j < h implies #[trigger] r.pixel_at(i, j)
            == pixel_of(original, cell_index(w as int, i, j)) by {
            lemma_cell_index_bounds(w as int, h as int, i, j);
        }
        r
    }
}

impl PixelDraw for ImageCanvas {
    closed spec fn inv(&self) -> bool {
        self.buffer.inv()
    }

    closed spec fn draw_width(&self) -> nat {
        self.buffer.draw_width()
    }

    closed spec fn draw_height(&self) -> nat {
        self.buffer.draw_height()
    }

    open spec fn draws(&self) -> bool {
        true
    }

    closed spec fn pixel_at(&self, x: int, y: int) -> RGBA8 {
        self.buffer.pixel_at(x, y)
    }

    fn set_pixel(&mut self, x: u32, y: u32, col: &RGBA8) {
        self.buffer.set_pixel(x, y, col);
    }
}

impl Canvas for ImageCanvas {
    fn get_width(&self) -> (r: u32) {
        self.buffer.get_width()
    }

    fn get_height(&self) -> (r: u32) {
        self.buffer.get_height()
    }

    fn get_pixel(&self, x: u32, y: u32) -> (r: RGBA8) {
        self.buffer.get_pixel(x, y)
    }

    fn fill(&mut self, color: &RGBA8) {
        self.buffer.fill(color);
    }
}

/// Why a texture could not be opened or decoded.
pub struct ImageCanvasError {
    msg: String,
}

impl View for ImageCanvasError {
    type V = Seq<char>;

    /// The text of the message.
    closed spec fn view(&self) -> Seq<char> {
        self.msg@
    }
}

impl ImageCanvasError {
    pub fn new(msg: String) -> (r: ImageCanvasError)
        ensures
            r@ == msg@,
    {
        ImageCanvasError { msg }
    }

    pub fn message(&self) -> (r: &str)
        ensures
            r@ == self@,
    {
        self.msg.as_str()
    }
}

/// Whether the 2 by 2 block whose top-left pixel is `(x, y)` lies inside a
/// canvas of `w` by `h` pixels that is at least 2 by 2 itself.
pub open spec fn cell_in_range(w: int, h: int, x: int, y: int) -> bool {
    w >= 2 && h >= 2 && x + 1 < w && y + 1 < h
}

/// `c + d`, moved to the nearest position in `0 .. n`.
pub open spec fn clamp_index(c: int, d: int, n: int) -> int {
    if c + d < 0 {
        0
    } else if c + d >= n {
        n - 1
    } else {
        c + d
    }
}

/// What nearest-neighbour sampling reads in the block at `(x, y)`.
pub open spec fn nearest_spec<C: Canvas>(canvas: &C, x: int, y: int, round_x: bool, round_y: bool) -> RGBA8 {
    if cell_in_range(canvas.draw_width() as int, canvas.draw_height() as int, x, y) {
        canvas.pixel_at(x + if round_x { 1int } else { 0int }, y + if round_y { 1int } else { 0int })
    } else {
        black_spec()
    }
}

/// Nearest-neighbour sampling returns every stored pixel unchanged: on a
/// canvas of at least 2 by 2 pixels, pixel `(px, py)` is what the block at
/// column `min(px, w - 2)` and row `min(py, h - 2)` gives, rounded up
/// exactly along the axes where the pixel lies in the last column or row.
pub proof fn lemma_nearest_exact<C: Canvas>(canvas: &C, px: int, py: int)
    requires
        canvas.draw_width() >= 2,
        canvas.draw_height() >= 2,
        0 <= px < canvas.draw_width(),
        0 <= py < canvas.draw_height(),
    ensures
        nearest_spec(
            canvas,
            if px == canvas.draw_width() - 1 { px - 1 } else { px },
            if py == canvas.draw_height() - 1 { py - 1 } else { py },
            px == canvas.draw_width() - 1,
            py == canvas.draw_height() - 1,
        ) == canvas.pixel_at(px, py),
{
}

/// A clamped neighbour index stays inside a canvas side of `n >= 1` pixels,
/// so gathering a neighbourhood never reads past an edge.
pub proof fn lemma_clamp_index_in_range(c: int, d: int, n: int)
    requires
        n >= 1,
    ensures
        0 <= clamp_index(c, d, n) < n,
        0 <= c + d < n ==> clamp_index(c, d, n) == c + d,
{
}

/// The pixel that nearest-neighbour sampling reads in the block at `(x, y)`:
/// the top-left one, moved right when `round_x` and down when `round_y`
/// (a fractional part of one half or more rounds up). Opaque black where the
/// block leaves the canvas.
pub fn sample_nearest<C: Canvas>(canvas: &C, x: u32, y: u32, round_x: bool, round_y: bool) -> (r:
    RGBA8)
    requires
        canvas.inv(),
    ensures
        r == nearest_spec(canvas, x as int, y as int, round_x, round_y),
{
    let w: u32 = canvas.get_width();
    let h: u32 = canvas.get_height();
    if w < 2 || h < 2 || x >= w - 1 || y >= h - 1 {
        return RGBA8::black();
    }
    let px: u32 = if round_x { x + 1 } else { x };
    let py: u32 = if round_y { y + 1 } else { y };
    canvas.get_pixel(px, py)
}

/// The four pixels that bilinear sampling blends in the block at `(x, y)`,
/// as top-left, top-right, bottom-left, bottom-right; `None` where the block
/// leaves the canvas.
pub fn bilinear_cell<C: Canvas>(canvas: &C, x: u32, y: u32) -> (r: Option<[RGBA8; 4]>)
    requires
        canvas.inv(),
    ensures
        r is Some <==> cell_in_range(
            canvas.draw_width() as int,
            canvas.draw_height() as int,
            x as int,
            y as int,
        ),
        r matches Some(s) ==> {
            &&& s[0] == canvas.pixel_at(x as int, y as int)
            &&& s[1] == canvas.pixel_at(x + 1, y as int)
            &&& s[2] == canvas.pixel_at(x as int, y + 1)
            &&& s[3] == canvas.pixel_at(x + 1, y + 1)
        },
{
    let w: u32 = canvas.get_width();
    let h: u32 = canvas.get_height();
    if w < 2 || h < 2 || x >= w - 1 || y >= h - 1 {
        return None;
    }
    let tl = canvas.get_pixel(x, y);
    let tr = canvas.get_pixel(x + 1, y);
    let bl = canvas.get_pixel(x, y + 1);
    let br = canvas.get_pixel(x + 1, y + 1);
    Some([tl, tr, bl, br])
}

/// `c + d - 1` moved into `0 .. n`, for an offset `d` in `0 .. 4`.
fn clamp_offset(c: u32, d: u32, n: u32) -> (r: u32)
    requires
        c + 1 < n,
        d < 4,
    ensures
        r == clamp_index(c as int, d - 1, n as int),
        r < n,
{
    if d == 0 {
        if c > 0 {
            c - 1
        } else {
            c
        }
    } else {
        let t: u32 = c + (d - 1);
        if t >= n {
            t - 1
        } else {
            t
        }
    }
}

/// The sixteen pixels that bicubic sampling convolves around the block at
/// `(x, y)`: entry `4 * i + j` is the pixel at column offset `i - 1` and row
/// offset `j - 1`, each clamped to the canvas edge; `None` where the block
/// leaves the canvas.
pub fn bicubic_cell<C: Canvas>(canvas: &C, x: u32, y: u32) -> (r: Option<[RGBA8; 16]>)
    requires
        canvas.inv(),
    ensures
        r is Some <==> cell_in_range(
            canvas.draw_width() as int,
            canvas.draw_height() as int,
            x as int,
            y as int,
        ),
        r matches Some(s) ==> forall|k: int|
            0 <= k < 16 ==> #[trigger] s[k] == canvas.pixel_at(
                clamp_index(x as int, k / 4 - 1, canvas.draw_width() as int),
                clamp_index(y as int, k % 4 - 1, canvas.draw_height() as int),
            ),
{
    let w: u32 = canvas.get_width();
    let h: u32 = canvas.get_height();
    if w < 2 || h < 2 || x >= w - 1 || y >= h - 1 {
        return None;
    }
    let xs: [u32; 4] = [
        clamp_offset(x, 0, w),
        clamp_offset(x, 1, w),
        clamp_offset(x, 2, w),
        clamp_offset(x, 3, w),
    ];
    let ys: [u32; 4] = [
        clamp_offset(y, 0, h),
        clamp_offset(y, 1, h),
        clamp_offset(y, 2, h),
        clamp_offset(y, 3, h),
    ];
    let mut samples: [RGBA8; 16] = [RGBA8::black(); 16];
    let mut k: usize = 0;
    while k < 16
        invariant
            w == canvas.draw_width(),
            h == canvas.draw_height(),
            cell_in_range(w as int, h as int, x as int, y as int),
            canvas.inv(),
            k <= 16,
            forall|i: int| 0 <= i < 4 ==> #[trigger] xs[i] == clamp_index(x as int, i - 1, w as int),
            forall|i: int| 0 <= i < 4 ==> #[trigger] ys[i] == clamp_index(y as int, i - 1, h as int),
            forall|i: int| 0 <= i < 4 ==> #[trigger] xs[i] < w,
            forall|i: int| 0 <= i < 4 ==> #[trigger] ys[i] < h,
            forall|m: int|
                0 <= m < k ==> #[trigger] samples[m] == canvas.pixel_at(
                    clamp_index(x as int, m / 4 - 1, w as int),
                    clamp_index(y as int, m % 4 - 1, h as int),
                ),
        decreases 16 - k,
    {
        let px: u32 = xs[k / 4];
        let py: u32 = ys[k % 4];
        let c: RGBA8 = canvas.get_pixel(px, py);
        samples[k] = c;
        k = k + 1;
    }
    Some(samples)
}

} // verus!
