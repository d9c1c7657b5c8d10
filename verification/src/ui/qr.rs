//! QR codes out of half-block characters: two rows of modules in one row of
//! the terminal, with a quiet zone of two modules on every side.
use vstd::prelude::*;
use vstd::string::StringSliceAdditionalSpecFns;

verus! {

/// Modules of the quiet zone on each side.
pub const QUIET_ZONE: usize = 2;

/// How much of a QR code may be lost before it cannot be read.
#[derive(Debug, Clone, Copy, PartialEq, Eq, Structural)]
pub enum Correction {
    Low,
    Medium,
    Quartile,
    High,
}

/// The QR code of some bytes at an error correction level: modules per side,
/// and whether each is dark, row by row. There is none where the bytes are too
/// many.
pub uninterp spec fn qr_code(data: Seq<u8>, level: Correction) -> Option<(usize, Seq<bool>)>;

/// A square of modules.
pub struct Modules {
    /// Modules per side.
    pub width: usize,
    /// Whether each is dark, row by row.
    pub dark: Vec<bool>,
}

impl Modules {
    /// As many modules as a square has, of a size that QR codes come in.
    pub open spec fn wf(&self) -> bool {
        21 <= self.width <= 177 && self.dark@.len() == self.width * self.width
    }
}

/// `qrcode::QrCode::with_error_correction_level`, then `width` and
/// `into_colors`. Versions 1 to 40 are 21 to 177 modules wide, and there
/// is a colour for every module.
#[verifier::external_body]
fn qr_modules(data: &str, level: Correction) -> (r: Option<Modules>)
    ensures
        match r {
            Some(m) => m.wf() && qr_code(data.spec_bytes(), level) == Some((m.width, m.dark@)),
            None => qr_code(data.spec_bytes(), level) is None,
        },
{
    let level = match level {
        Correction::Low => qrcode::EcLevel::L,
        Correction::Medium => qrcode::EcLevel::M,
        Correction::Quartile => qrcode::EcLevel::Q,
        Correction::High => qrcode::EcLevel::H,
    };
    let code = qrcode::QrCode::with_error_correction_level(data, level).ok()?;
    let width = code.width();
    let colors = code.into_colors();
    let dark = colors.into_iter().map(|c| matches!(c, qrcode::Color::Dark)).collect();
    Some(Modules { width, dark })
}

/// Two modules in one cell of the terminal.
#[derive(Debug, Clone, Copy, PartialEq, Eq, Structural)]
pub enum QrCell {
    /// Both are dark.
    Full,
    /// The upper one is dark.
    Upper,
    /// The lower one is dark.
    Lower,
    /// Neither is.
    Blank,
}

impl QrCell {
    /// The cell of two modules.
    pub open spec fn of_spec(top: bool, bottom: bool) -> QrCell {
        if top && bottom {
            QrCell::Full
        } else if top {
            QrCell::Upper
        } else if bottom {
            QrCell::Lower
        } else {
            QrCell::Blank
        }
    }

    /// The cell of two modules.
    pub fn of(top: bool, bottom: bool) -> (r: QrCell)
        ensures
            r == Self::of_spec(top, bottom),
    {
        if top && bottom {
            QrCell::Full
        } else if top {
            QrCell::Upper
        } else if bottom {
            QrCell::Lower
        } else {
            QrCell::Blank
        }
    }

    /// The character of the cell.
    pub fn glyph(self) -> (r: char)
        ensures
            r == (match self {
                QrCell::Full => '█',
                QrCell::Upper => '▀',
                QrCell::Lower => '▄',
                QrCell::Blank => ' ',
            }),
    {
        match self {
            QrCell::Full => '█',
            QrCell::Upper => '▀',
            QrCell::Lower => '▄',
            QrCell::Blank => ' ',
        }
    }

    /// Whether the character is drawn in black, and whether it is drawn on
    /// black; the other colour is white.
    pub fn colors(self) -> (r: (bool, bool))
        ensures
            r == (self != QrCell::Blank, self == QrCell::Full),
    {
        (self != QrCell::Blank, self == QrCell::Full)
    }
}

/// Whether the module at a place of the grid with its quiet zone is dark.
pub open spec fn dark_at(width: int, dark: Seq<bool>, row: int, col: int) -> bool {
    let q = QUIET_ZONE as int;
    q <= row < q + width && q <= col < q + width && dark[(row - q) * width + (col - q)]
}

/// Modules per side, with the quiet zone.
pub open spec fn grid_size(width: int) -> int {
    width + 2 * QUIET_ZONE
}

/// Rows of the terminal that a grid takes.
pub open spec fn grid_rows(width: int) -> int {
    (grid_size(width) + 1) / 2
}

/// The cell at a place of the terminal.
pub open spec fn cell_at(width: int, dark: Seq<bool>, row: int, col: int) -> QrCell {
    QrCell::of_spec(dark_at(width, dark, 2 * row, col), dark_at(width, dark, 2 * row + 1, col))
}

/// Whether the module at a place of the grid is dark.
fn module_at(m: &Modules, row: usize, col: usize) -> (r: bool)
    requires
        m.wf(),
    ensures
        r == dark_at(m.width as int, m.dark@, row as int, col as int),
{
    if row < QUIET_ZONE || row >= QUIET_ZONE + m.width || col < QUIET_ZONE || col >= QUIET_ZONE
        + m.width {
        return false;
    }
    let y: usize = row - QUIET_ZONE;
    let x: usize = col - QUIET_ZONE;
    assert(y * m.width + x < m.width * m.width && y * m.width <= 177 * 177) by (nonlinear_arith)
        requires
            y < m.width,
            x < m.width,
            m.width <= 177,
    ;
    m.dark[y * m.width + x]
}

/// The cells of a QR code, row by row.
pub fn qr_grid(m: &Modules) -> (r: Vec<Vec<QrCell>>)
    requires
        m.wf(),
    ensures
        r@.len() == grid_rows(m.width as int),
        forall|row: int|
            0 <= row < r@.len() ==> (#[trigger] r@[row])@.len() == grid_size(m.width as int),
        forall|row: int, col: int|
            0 <= row < r@.len() && 0 <= col < grid_size(m.width as int) ==> #[trigger] r@[row]@[col]
                == cell_at(m.width as int, m.dark@, row, col),
{
    let total: usize = m.width + 2 * QUIET_ZONE;
    let rows: usize = (total + 1) / 2;
    let mut lines: Vec<Vec<QrCell>> = Vec::new();
    let mut row: usize = 0;
    while row < rows
        invariant
            m.wf(),
            row <= rows <= 91,
            total == grid_size(m.width as int),
            rows == grid_rows(m.width as int),
            lines@.len() == row,
            forall|y: int| 0 <= y < row ==> (#[trigger] lines@[y])@.len() == total,
            forall|y: int, x: int|
                0 <= y < row && 0 <= x < total ==> #[trigger] lines@[y]@[x] == cell_at(
                    m.width as int,
                    m.dark@,
                    y,
                    x,
                ),
        decreases rows - row,
    {
        let mut line: Vec<QrCell> = Vec::new();
        let mut col: usize = 0;
        while col < total
            invariant
                m.wf(),
                row < rows <= 91,
                col <= total <= 181,
                line@.len() == col,
                forall|x: int|
                    0 <= x < col ==> #[trigger] line@[x] == cell_at(
                        m.width as int,
                        m.dark@,
                        row as int,
                        x,
                    ),
            decreases total - col,
        {
            let top = module_at(m, 2 * row, col);
            let bottom = module_at(m, 2 * row + 1, col);
            line.push(QrCell::of(top, bottom));
            col = col + 1;
        }
        lines.push(line);
        row = row + 1;
    }
    lines
}

/// The cells of the QR code of a text, or nothing where it is too long for
/// one.
pub fn qr_lines(data: &str) -> (r: Option<Vec<Vec<QrCell>>>)
    ensures
        match r {
            Some(lines) => {
                &&& qr_code(data.spec_bytes(), Correction::Medium) matches Some((width, dark))
                &&& lines@.len() == grid_rows(width as int)
                &&& forall|row: int|
                    0 <= row < lines@.len() ==> (#[trigger] lines@[row])@.len() == grid_size(
                        width as int,
                    )
                &&& forall|row: int, col: int|
                    0 <= row < lines@.len() && 0 <= col < grid_size(width as int)
                        ==> #[trigger] lines@[row]@[col] == cell_at(width as int, dark, row, col)
            },
            None => qr_code(data.spec_bytes(), Correction::Medium) is None,
        },
{
    match qr_modules(data, Correction::Medium) {
        Some(m) => Some(qr_grid(&m)),
        None => None,
    }
}

/// What stands in the place of a QR code that cannot be made.
pub fn qr_failure() -> (r: &'static str)
    ensures
        r@ == "[QR generation failed — data may be too large]"@,
{
    "[QR generation failed — data may be too large]"
}

/// Columns of the terminal that the QR code of a text takes, none where there
/// is none.
pub fn qr_terminal_width(data: &str) -> (r: u16)
    ensures
        r == (match qr_code(data.spec_bytes(), Correction::Medium) {
            Some((width, _)) => grid_size(width as int),
            None => 0,
        }),
        r <= 181,
{
    match qr_modules(data, Correction::Medium) {
        Some(m) => (m.width + 2 * QUIET_ZONE) as u16,
        None => 0,
    }
}

/// Rows of the terminal that the QR code of a text takes, none where there is
/// none.
pub fn qr_terminal_height(data: &str) -> (r: u16)
    ensures
        r == (match qr_code(data.spec_bytes(), Correction::Medium) {
            Some((width, _)) => grid_rows(width as int),
            None => 0,
        }),
        r <= 91,
{
    match qr_modules(data, Correction::Medium) {
        Some(m) => ((m.width + 2 * QUIET_ZONE + 1) / 2) as u16,
        None => 0,
    }
}

/// Whether the QR code of a text fits into a popup of a size, with its border
/// and eight rows of text below it.
pub fn qr_fits(data: &str, popup_width: u16, popup_height: u16) -> (r: bool)
    ensures
        r == (match qr_code(data.spec_bytes(), Correction::Medium) {
            Some((width, _)) => grid_size(width as int) <= inside(popup_width) && grid_rows(
                width as int,
            ) + 8 <= inside(popup_height),
            None => false,
        }),
{
    let w: u16 = qr_terminal_width(data);
    let h: u16 = qr_terminal_height(data);
    let inner_w: u16 = if popup_width >= 2 {
        popup_width - 2
    } else {
        0
    };
    let inner_h: u16 = if popup_height >= 2 {
        popup_height - 2
    } else {
        0
    };
    w > 0 && w <= inner_w && h + 8 <= inner_h
}

/// What a border leaves of a side.
pub open spec fn inside(n: u16) -> int {
    if n >= 2 {
        n - 2
    } else {
        0
    }
}

/// Pixels per module of a picture.
pub const SCALE: usize = 4;

/// Pixels of the border round a picture.
pub const BORDER: usize = 16;

/// Pixels per side of the picture of a QR code.
pub open spec fn picture_size(width: int) -> int {
    width * SCALE + 2 * BORDER
}

/// Whether a pixel of the picture of a QR code is black.
pub open spec fn black_at(width: int, dark: Seq<bool>, y: int, x: int) -> bool {
    let b = BORDER as int;
    let s = SCALE as int;
    b <= y < b + width * s && b <= x < b + width * s && dark[(y - b) / s * width + (x - b) / s]
}

/// Whether a pixel of the picture of a QR code is black.
fn pixel_at(m: &Modules, y: usize, x: usize) -> (r: bool)
    requires
        m.wf(),
    ensures
        r == black_at(m.width as int, m.dark@, y as int, x as int),
{
    let end: usize = BORDER + m.width * SCALE;
    if y < BORDER || y >= end || x < BORDER || x >= end {
        return false;
    }
    let row: usize = (y - BORDER) / SCALE;
    let col: usize = (x - BORDER) / SCALE;
    assert(row < m.width && col < m.width);
    assert(row * m.width + col < m.width * m.width && row * m.width <= 177 * 177) by (
        nonlinear_arith)
        requires
            row < m.width,
            col < m.width,
            m.width <= 177,
    ;
    m.dark[row * m.width + col]
}

/// The picture of a QR code: whether each pixel is black, row by row.
pub fn qr_picture(m: &Modules) -> (r: Vec<Vec<bool>>)
    requires
        m.wf(),
    ensures
        r@.len() == picture_size(m.width as int),
        forall|y: int|
            0 <= y < r@.len() ==> (#[trigger] r@[y])@.len() == picture_size(m.width as int),
        forall|y: int, x: int|
            0 <= y < r@.len() && 0 <= x < r@.len() ==> #[trigger] r@[y]@[x] == black_at(
                m.width as int,
                m.dark@,
                y,
                x,
            ),
{
    let size: usize = m.width * SCALE + 2 * BORDER;
    let mut rows: Vec<Vec<bool>> = Vec::new();
    let mut y: usize = 0;
    while y < size
        invariant
            m.wf(),
            y <= size,
            size == picture_size(m.width as int),
            rows@.len() == y,
            forall|i: int| 0 <= i < y ==> (#[trigger] rows@[i])@.len() == size,
            forall|i: int, j: int|
                0 <= i < y && 0 <= j < size ==> #[trigger] rows@[i]@[j] == black_at(
                    m.width as int,
                    m.dark@,
                    i,
                    j,
                ),
        decreases size - y,
    {
        let mut line: Vec<bool> = Vec::new();
        let mut x: usize = 0;
        while x < size
            invariant
                m.wf(),
                x <= size,
                line@.len() == x,
                forall|j: int|
                    0 <= j < x ==> #[trigger] line@[j] == black_at(
                        m.width as int,
                        m.dark@,
                        y as int,
                        j,
                    ),
            decreases size - x,
        {
            line.push(pixel_at(m, y, x));
            x = x + 1;
        }
        rows.push(line);
        y = y + 1;
    }
    rows
}

/// The picture of the QR code of a text, or nothing where it is too long for
/// one.
pub fn qr_image(data: &str) -> (r: Option<Vec<Vec<bool>>>)
    ensures
        match r {
            Some(rows) => {
                &&& qr_code(data.spec_bytes(), Correction::Medium) matches Some((width, dark))
                &&& rows@.len() == picture_size(width as int)
                &&& forall|y: int|
                    0 <= y < rows@.len() ==> (#[trigger] rows@[y])@.len() == rows@.len()
                &&& forall|y: int, x: int|
                    0 <= y < rows@.len() && 0 <= x < rows@.len() ==> #[trigger] rows@[y]@[x]
                        == black_at(width as int, dark, y, x)
            },
            None => qr_code(data.spec_bytes(), Correction::Medium) is None,
        },
{
    match qr_modules(data, Correction::Medium) {
        Some(m) => Some(qr_picture(&m)),
        None => None,
    }
}

/// Every module is shown: the module in row `y` and column `x` is the upper or
/// the lower half of its cell, as its row is even or odd.
pub proof fn every_module_is_shown(width: int, dark: Seq<bool>, y: int, x: int)
    requires
        0 <= y < width,
        0 <= x < width,
    ensures
        ({
            let cell = cell_at(width, dark, (y + QUIET_ZONE) / 2, x + QUIET_ZONE);
            let shown = if y % 2 == 0 {
                cell == QrCell::Full || cell == QrCell::Upper
            } else {
                cell == QrCell::Full || cell == QrCell::Lower
            };
            &&& shown == dark[y * width + x]
            &&& 0 <= (y + QUIET_ZONE) / 2 < grid_rows(width)
            &&& 0 <= x + QUIET_ZONE < grid_size(width)
        }),
{
    let row = (y + QUIET_ZONE) / 2;
    if y % 2 == 0 {
        assert(2 * row == y + QUIET_ZONE);
    } else {
        assert(2 * row + 1 == y + QUIET_ZONE);
    }
}

/// The quiet zone is blank on every side.
pub proof fn quiet_zone_is_blank(width: int, dark: Seq<bool>, row: int, col: int)
    requires
        0 <= row,
        0 <= col,
        2 * row + 1 < QUIET_ZONE || 2 * row >= width + QUIET_ZONE || col < QUIET_ZONE || col
            >= width + QUIET_ZONE,
    ensures
        cell_at(width, dark, row, col) == QrCell::Blank,
{
}

/// Every module is a square of pixels of its colour, and the border is white.
pub proof fn every_module_is_drawn(width: int, dark: Seq<bool>, y: int, x: int, i: int, j: int)
    requires
        0 <= i < SCALE,
        0 <= j < SCALE,
    ensures
        0 <= y < width && 0 <= x < width ==> black_at(
            width,
            dark,
            BORDER + y * SCALE + i,
            BORDER + x * SCALE + j,
        ) == dark[y * width + x],
        y < BORDER || x < BORDER || y >= picture_size(width) - BORDER || x >= picture_size(width)
            - BORDER ==> !black_at(width, dark, y, x),
{
    if 0 <= y < width && 0 <= x < width {
        assert((y * SCALE + i) / 4 == y);
        assert((x * SCALE + j) / 4 == x);
    }
}

} // verus!
