//! The picture of a QR code: a square grey-scale image in which each module
//! of the code is a block of pixels, with a light border around the code.

use qrcodegen::QrCode;
use vstd::prelude::*;

verus! {

/// `qrcodegen::QrCode`, which the verifier knows by name only. Its modules
/// are spoken of through [`qr_side`] and [`qr_dark`].
#[verifier::external_type_specification]
#[verifier::external_body]
pub struct ExQrCode(QrCode);

/// The side of a module's block, in pixels.
pub const SCALE: usize = 10;

/// The width of the light border, in modules.
pub const BORDER: usize = 2;

/// The largest side that a QR code has, in modules.
pub const MAX_SIDE: usize = 177;

/// The value of a dark pixel.
pub const DARK: u8 = 0;

/// The value of a light pixel.
pub const LIGHT: u8 = 0xFF;

/// The side of a QR code, in modules.
pub uninterp spec fn qr_side(qr: QrCode) -> int;

/// Whether the module of a QR code at the column `x` and the row `y` is dark.
pub uninterp spec fn qr_dark(qr: QrCode, x: int, y: int) -> bool;

/// `QrCode::size`: the side of the code in modules, which lies between 21
/// and 177 and depends on the code alone.
pub assume_specification[ QrCode::size ](qr: &QrCode) -> (side: i32)
    ensures
        side == qr_side(*qr),
        21 <= side <= 177,
;

/// `QrCode::get_module`: whether the module at the given column and row is
/// dark. The answer depends on the code and the place alone.
pub assume_specification[ QrCode::get_module ](qr: &QrCode, x: i32, y: i32) -> (dark: bool)
    ensures
        dark == qr_dark(*qr, x as int, y as int),
;

/// The modules of a QR code, row by row.
#[derive(Clone, Debug, PartialEq, Eq)]
pub struct QrMatrix {
    pub side: usize,
    pub modules: Vec<bool>,
}

impl QrMatrix {
    /// A matrix is well formed when it is no larger than a QR code can be and
    /// holds one module for each place.
    pub open spec fn wf(&self) -> bool {
        &&& self.side <= MAX_SIDE
        &&& self.modules@.len() == self.side * self.side
    }

    /// Whether the matrix is well formed.
    pub fn is_valid(&self) -> (valid: bool)
        ensures
            valid == self.wf(),
    {
        if self.side > MAX_SIDE {
            return false;
        }
        proof {
            assert(self.side * self.side <= 177 * 177) by (nonlinear_arith)
                requires
                    self.side <= 177,
            ;
        }
        self.modules.len() == self.side * self.side
    }

    /// Whether the module at the column `x` and the row `y` is dark. Outside
    /// the matrix every module is light.
    pub open spec fn dark(&self, x: int, y: int) -> bool {
        0 <= x < self.side && 0 <= y < self.side && self.modules@[y * self.side + x]
    }

    /// The side of the image of the matrix, in pixels.
    pub open spec fn image_side(&self) -> int {
        (self.side + 2 * BORDER) * SCALE
    }

    /// The value of the pixel at the column `px` and the row `py` of the
    /// image: dark where the module that the pixel falls in is dark.
    pub open spec fn pixel(&self, px: int, py: int) -> u8 {
        if self.dark(px / (SCALE as int) - BORDER, py / (SCALE as int) - BORDER) {
            DARK
        } else {
            LIGHT
        }
    }
}

/// The place of a pixel in an image that is `width` pixels wide.
pub open spec fn place(width: int, px: int, py: int) -> int {
    py * width + px
}

proof fn lemma_place(width: int, px: int, py: int)
    requires
        0 <= px < width,
        0 <= py < width,
    ensures
        0 <= place(width, px, py) < width * width,
{
    assert(py * width + px < width * width) by (nonlinear_arith)
        requires
            0 <= px < width,
            0 <= py < width,
    ;
    assert(0 <= py * width) by (nonlinear_arith)
        requires
            0 <= py,
            0 < width,
    ;
}

proof fn lemma_place_is_one_to_one(width: int, px: int, py: int, qx: int, qy: int)
    requires
        0 <= px < width,
        0 <= qx < width,
        place(width, px, py) == place(width, qx, qy),
    ensures
        px == qx,
        py == qy,
{
    assert(py == qy) by (nonlinear_arith)
        requires
            0 <= px < width,
            0 <= qx < width,
            py * width + px == qy * width + qx,
    ;
}

/// Reads the modules of a QR code.
pub fn read_matrix(qr: &QrCode) -> (matrix: QrMatrix)
    ensures
        matrix.wf(),
        matrix.side == qr_side(*qr),
        forall|x: int, y: int|
            0 <= x < matrix.side && 0 <= y < matrix.side ==> #[trigger] matrix.dark(x, y)
                == qr_dark(*qr, x, y),
{
    let size = qr.size();
    let side = size as usize;
    let mut modules: Vec<bool> = Vec::new();
    let mut y: usize = 0;
    while y < side
        invariant
            y <= side,
            side == size,
            size == qr_side(*qr),
            21 <= size <= 177,
            modules@.len() == y * side,
            forall|x: int, v: int|
                0 <= x < side && 0 <= v < y ==> #[trigger] modules@[place(side as int, x, v)]
                    == qr_dark(*qr, x, v),
        decreases side - y,
    {
        let mut x: usize = 0;
        while x < side
            invariant
                x <= side,
                y < side,
                side == size,
                size == qr_side(*qr),
                21 <= size <= 177,
                modules@.len() == y * side + x,
                forall|u: int, v: int|
                    0 <= u < side && 0 <= v < y ==> #[trigger] modules@[place(side as int, u, v)]
                        == qr_dark(*qr, u, v),
                forall|u: int|
                    0 <= u < x ==> #[trigger] modules@[place(side as int, u, y as int)] == qr_dark(
                        *qr,
                        u,
                        y as int,
                    ),
            decreases side - x,
        {
            let ghost before = modules@;
            modules.push(qr.get_module(x as i32, y as i32));
            proof {
                assert forall|u: int, v: int| 0 <= u < side && 0 <= v < y implies #[trigger] modules@[place(
                    side as int,
                    u,
                    v,
                )] == qr_dark(*qr, u, v) by {
                    assert(place(side as int, u, v) < y * side) by (nonlinear_arith)
                        requires
                            0 <= u < side,
                            0 <= v < y,
                            place(side as int, u, v) == v * side + u,
                    ;
                    assert(modules@[place(side as int, u, v)] == before[place(side as int, u, v)]);
                }
            }
            x += 1;
        }
        proof {
            assert((y + 1) * side == y * side + side) by (nonlinear_arith);
        }
        y += 1;
    }
    let matrix = QrMatrix { side, modules };
    proof {
        assert forall|x: int, y: int| 0 <= x < matrix.side && 0 <= y < matrix.side implies #[trigger] matrix.dark(
            x,
            y,
        ) == qr_dark(*qr, x, y) by {
            assert(matrix.modules@[place(side as int, x, y)] == qr_dark(*qr, x, y));
        }
    }
    matrix
}

/// Whether the module at the column `mx` and the row `my` comes before the one
/// at `x` and `y`, going row by row.
spec fn before(mx: int, my: int, x: int, y: int) -> bool {
    my < y || (my == y && mx < x)
}

/// The value of a pixel while the image is painted: dark if its module is
/// dark and was reached already.
spec fn painted(matrix: &QrMatrix, x: int, y: int, px: int, py: int) -> u8 {
    let mx = px / (SCALE as int) - BORDER;
    let my = py / (SCALE as int) - BORDER;
    if matrix.dark(mx, my) && before(mx, my, x, y) {
        DARK
    } else {
        LIGHT
    }
}

/// Whether a pixel lies in the block of the module at `x` and `y`, in one of
/// the rows before `dy` or in the row `dy` before the column `dx`.
spec fn in_block(x: int, y: int, dx: int, dy: int, px: int, py: int) -> bool {
    let left = (BORDER + x) * SCALE;
    let top = (BORDER + y) * SCALE;
    left <= px < left + SCALE && (top <= py < top + dy || (py == top + dy && px < left + dx))
}

/// Paints the block of the dark module at `x` and `y`.
fn paint_block(image: &mut Vec<u8>, matrix: &QrMatrix, x: usize, y: usize)
    requires
        matrix.wf(),
        x < matrix.side,
        y < matrix.side,
        matrix.dark(x as int, y as int),
        old(image)@.len() == matrix.image_side() * matrix.image_side(),
        forall|px: int, py: int|
            0 <= px < matrix.image_side() && 0 <= py < matrix.image_side() ==> old(image)@[#[trigger] place(
                matrix.image_side(),
                px,
                py,
            )] == painted(matrix, x as int, y as int, px, py),
    ensures
        final(image)@.len() == matrix.image_side() * matrix.image_side(),
        forall|px: int, py: int|
            0 <= px < matrix.image_side() && 0 <= py < matrix.image_side() ==> final(image)@[#[trigger] place(
                matrix.image_side(),
                px,
                py,
            )] == painted(matrix, x + 1, y as int, px, py),
{
    let img_size = (matrix.side + 2 * BORDER) * SCALE;
    let ghost width = matrix.image_side();
    let mut dy: usize = 0;
    while dy < SCALE
        invariant
            dy <= SCALE,
            matrix.wf(),
            x < matrix.side,
            y < matrix.side,
            img_size == width,
            width == matrix.image_side(),
            image@.len() == width * width,
            forall|px: int, py: int|
                0 <= px < width && 0 <= py < width ==> image@[#[trigger] place(width, px, py)] == if in_block(
                    x as int,
                    y as int,
                    0,
                    dy as int,
                    px,
                    py,
                ) {
                    DARK
                } else {
                    painted(matrix, x as int, y as int, px, py)
                },
        decreases SCALE - dy,
    {
        let mut dx: usize = 0;
        while dx < SCALE
            invariant
                dx <= SCALE,
                dy < SCALE,
                matrix.wf(),
                x < matrix.side,
                y < matrix.side,
                img_size == width,
                width == matrix.image_side(),
                image@.len() == width * width,
                forall|px: int, py: int|
                    0 <= px < width && 0 <= py < width ==> image@[#[trigger] place(width, px, py)]
                        == if in_block(x as int, y as int, dx as int, dy as int, px, py) {
                        DARK
                    } else {
                        painted(matrix, x as int, y as int, px, py)
                    },
            decreases SCALE - dx,
        {
            let px = (BORDER + x) * SCALE + dx;
            let py = (BORDER + y) * SCALE + dy;
            proof {
                lemma_place(width, px as int, py as int);
                assert(width * width <= 1810 * 1810) by (nonlinear_arith)
                    requires
                        0 <= width <= 1810,
                ;
            }
            let ghost earlier = image@;
            image.set(py * img_size + px, DARK);
            proof {
                assert forall|qx: int, qy: int| 0 <= qx < width && 0 <= qy < width implies image@[#[trigger] place(
                    width,
                    qx,
                    qy,
                )] == if in_block(x as int, y as int, dx + 1, dy as int, qx, qy) {
                    DARK
                } else {
                    painted(matrix, x as int, y as int, qx, qy)
                } by {
                    lemma_place(width, qx, qy);
                    if place(width, qx, qy) == place(width, px as int, py as int) {
                        lemma_place_is_one_to_one(width, qx, qy, px as int, py as int);
                    } else {
                        assert(image@[place(width, qx, qy)] == earlier[place(width, qx, qy)]);
                    }
                }
            }
            dx += 1;
        }
        dy += 1;
    }
}

/// Paints the image of a matrix: one byte for each pixel, row by row, dark
/// where the module that the pixel falls in is dark and light elsewhere, the
/// border included.
pub fn paint(matrix: &QrMatrix) -> (image: Vec<u8>)
    requires
        matrix.wf(),
    ensures
        image@.len() == matrix.image_side() * matrix.image_side(),
        forall|px: int, py: int|
            0 <= px < matrix.image_side() && 0 <= py < matrix.image_side() ==> image@[#[trigger] place(
                matrix.image_side(),
                px,
                py,
            )] == matrix.pixel(px, py),
{
    let size = matrix.side;
    let img_size = (size + 2 * BORDER) * SCALE;
    let ghost width = matrix.image_side();
    proof {
        assert(width * width <= 1810 * 1810) by (nonlinear_arith)
            requires
                0 <= width <= 1810,
        ;
    }
    let mut image: Vec<u8> = vec![LIGHT; img_size * img_size];
    proof {
        assert forall|px: int, py: int| 0 <= px < width && 0 <= py < width implies image@[#[trigger] place(
            width,
            px,
            py,
        )] == painted(matrix, 0, 0, px, py) by {
            lemma_place(width, px, py);
        }
    }
    let mut y: usize = 0;
    while y < size
        invariant
            y <= size,
            size == matrix.side,
            matrix.wf(),
            width == matrix.image_side(),
            image@.len() == width * width,
            forall|px: int, py: int|
                0 <= px < width && 0 <= py < width ==> image@[#[trigger] place(width, px, py)]
                    == painted(matrix, 0, y as int, px, py),
        decreases size - y,
    {
        let mut x: usize = 0;
        while x < size
            invariant
                x <= size,
                y < size,
                size == matrix.side,
                matrix.wf(),
                width == matrix.image_side(),
                image@.len() == width * width,
                forall|px: int, py: int|
                    0 <= px < width && 0 <= py < width ==> image@[#[trigger] place(width, px, py)]
                        == painted(matrix, x as int, y as int, px, py),
            decreases size - x,
        {
            proof {
                assert(y * size + x < size * size <= 177 * 177) by (nonlinear_arith)
                    requires
                        0 <= x < size,
                        0 <= y < size,
                        size <= 177,
                ;
            }
            if matrix.modules[y * size + x] {
                paint_block(&mut image, matrix, x, y);
            }
            x += 1;
        }
        y += 1;
    }
    image
}

/// The side of the image of a QR code, in pixels.
pub open spec fn qr_image_side(qr: QrCode) -> int {
    (qr_side(qr) + 2 * BORDER) * SCALE
}

/// The value of the pixel at the column `px` and the row `py` of the image of
/// a QR code: dark where the module that the pixel falls in is dark, light
/// elsewhere and in the border.
pub open spec fn qr_pixel(qr: QrCode, px: int, py: int) -> u8 {
    let x = px / (SCALE as int) - BORDER;
    let y = py / (SCALE as int) - BORDER;
    if 0 <= x < qr_side(qr) && 0 <= y < qr_side(qr) && qr_dark(qr, x, y) {
        DARK
    } else {
        LIGHT
    }
}

/// The side of the image of a QR code, in pixels.
pub fn image_side(qr: &QrCode) -> (side: usize)
    ensures
        side == qr_image_side(*qr),
{
    (qr.size() as usize + 2 * BORDER) * SCALE
}

/// The image of a QR code: one byte for each pixel, row by row.
pub fn gen_qr_image(qr: &QrCode) -> (image: Vec<u8>)
    ensures
        image@.len() == qr_image_side(*qr) * qr_image_side(*qr),
        forall|px: int, py: int|
            0 <= px < qr_image_side(*qr) && 0 <= py < qr_image_side(*qr) ==> image@[#[trigger] place(
                qr_image_side(*qr),
                px,
                py,
            )] == qr_pixel(*qr, px, py),
{
    let matrix = read_matrix(qr);
    paint(&matrix)
}

} // verus!
