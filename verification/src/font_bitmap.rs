use vstd::prelude::*;

verus! {

/// How the pixels of a rendered glyph bitmap are stored.
#[derive(Debug, Clone, Copy, PartialEq, Eq)]
pub enum PixelMode {
    /// One bit per pixel, most significant bit first.
    Mono,
    /// One byte of coverage per pixel.
    Gray,
    /// Three bytes per pixel (sub-pixel rendering); `width` counts bytes.
    Lcd,
}

/// The byte a one-bit pixel becomes: 255 when bit `shift` of `b` is set,
/// else 0.
pub open spec fn mono_value(b: u8, shift: u8) -> u8 {
    if (b >> shift) & 1u8 == 1u8 {
        255
    } else {
        0
    }
}

/// The bytes pixel `j` of the row starting at `start` becomes: a one-bit
/// pixel is expanded to 0 or 255, a gray pixel is repeated for the three
/// colour channels, an LCD byte is copied.
pub open spec fn pixel_bytes(mode: PixelMode, buf: Seq<u8>, start: int, j: int) -> Seq<u8> {
    match mode {
        PixelMode::Mono => seq![
            mono_value(buf[start + j / 8], (7 - j % 8) as u8),
            mono_value(buf[start + j / 8], (7 - j % 8) as u8),
            mono_value(buf[start + j / 8], (7 - j % 8) as u8),
        ],
        PixelMode::Gray => seq![buf[start + j], buf[start + j], buf[start + j]],
        PixelMode::Lcd => seq![buf[start + j]],
    }
}

/// The bytes of the first `width` pixels of the row starting at `start`.
pub open spec fn row_bytes(mode: PixelMode, buf: Seq<u8>, start: int, width: nat) -> Seq<u8>
    decreases width,
{
    if width == 0 {
        Seq::empty()
    } else {
        row_bytes(mode, buf, start, (width - 1) as nat) + pixel_bytes(mode, buf, start, width - 1)
    }
}

/// The bytes of the first `rows` rows of a bitmap whose rows are `pitch`
/// bytes apart in `buf`.
pub open spec fn bitmap_bytes(mode: PixelMode, buf: Seq<u8>, pitch: nat, width: nat, rows: nat) -> Seq<u8>
    decreases rows,
{
    if rows == 0 {
        Seq::empty()
    } else {
        bitmap_bytes(mode, buf, pitch, width, (rows - 1) as nat) + row_bytes(mode, buf, (rows - 1) * pitch, width)
    }
}

/// How many bytes a pixel becomes.
pub open spec fn bytes_per_pixel(mode: PixelMode) -> nat {
    match mode {
        PixelMode::Lcd => 1,
        _ => 3,
    }
}

/// How many bytes of its row the last pixel of a `width` pixel row reads.
pub open spec fn row_extent(mode: PixelMode, width: nat) -> nat {
    match mode {
        PixelMode::Mono => if width == 0 { 0 } else { ((width - 1) / 8 + 1) as nat },
        _ => width,
    }
}

/// Every byte the bitmap's pixels are read from lies in `buf`.
pub open spec fn bitmap_in_bounds(mode: PixelMode, buf_len: nat, pitch: nat, width: nat, rows: nat) -> bool {
    rows == 0 || (mode is Mono && width == 0) || (rows - 1) * pitch + row_extent(mode, width) <= buf_len
}

proof fn lemma_row_bytes_len(mode: PixelMode, buf: Seq<u8>, start: int, width: nat)
    ensures
        row_bytes(mode, buf, start, width).len() == width * bytes_per_pixel(mode),
    decreases width,
{
    if width > 0 {
        lemma_row_bytes_len(mode, buf, start, (width - 1) as nat);
        assert(pixel_bytes(mode, buf, start, width - 1).len() == bytes_per_pixel(mode));
        let b = bytes_per_pixel(mode);
        let w1 = (width - 1) as nat;
        assert(width * b == w1 * b + b) by (nonlinear_arith)
            requires
                w1 + 1 == width,
        ;
        assert(row_bytes(mode, buf, start, width) == row_bytes(mode, buf, start, (width - 1) as nat) + pixel_bytes(mode, buf, start, width - 1));
    } else {
        assert(width * bytes_per_pixel(mode) == 0) by (nonlinear_arith)
            requires
                width == 0,
        ;
    }
}

/// A bitmap of `rows` rows of `width` pixels becomes `rows * width` pixels
/// of `bytes_per_pixel(mode)` bytes each.
pub proof fn lemma_bitmap_bytes_len(mode: PixelMode, buf: Seq<u8>, pitch: nat, width: nat, rows: nat)
    ensures
        bitmap_bytes(mode, buf, pitch, width, rows).len() == rows * width * bytes_per_pixel(mode),
    decreases rows,
{
    if rows > 0 {
        lemma_bitmap_bytes_len(mode, buf, pitch, width, (rows - 1) as nat);
        lemma_row_bytes_len(mode, buf, (rows - 1) * pitch, width);
        let b = bytes_per_pixel(mode);
        let r1 = (rows - 1) as nat;
        assert(rows * width * b == r1 * width * b + width * b) by (nonlinear_arith)
            requires
                r1 + 1 == rows,
        ;
        assert(bitmap_bytes(mode, buf, pitch, width, rows) == bitmap_bytes(mode, buf, pitch, width, (rows - 1) as nat) + row_bytes(mode, buf, (rows - 1) * pitch, width));
    } else {
        assert(rows * width * bytes_per_pixel(mode) == 0) by (nonlinear_arith)
            requires
                rows == 0,
        ;
    }
}

/// Byte `n * j + c` of a converted row (`n` bytes per pixel) comes from
/// pixel `j` of the row that starts at `start`.
proof fn lemma_row_byte(mode: PixelMode, buf: Seq<u8>, start: int, width: nat, j: int, c: int)
    requires
        0 <= j < width,
        0 <= c < bytes_per_pixel(mode),
    ensures
        row_bytes(mode, buf, start, width)[bytes_per_pixel(mode) * j + c] == pixel_bytes(mode, buf, start, j)[c],
    decreases width,
{
    let n = bytes_per_pixel(mode);
    let w1 = (width - 1) as nat;
    lemma_row_bytes_len(mode, buf, start, w1);
    assert(row_bytes(mode, buf, start, width) == row_bytes(mode, buf, start, w1) + pixel_bytes(mode, buf, start, w1 as int));
    if j < w1 {
        lemma_row_byte(mode, buf, start, w1, j, c);
        assert(n * j + c < n * w1) by (nonlinear_arith)
            requires
                j < w1,
                c < n,
        ;
    } else {
        assert(n * j + c - n * w1 == c) by (nonlinear_arith)
            requires
                j == w1,
        ;
    }
}

/// Every pixel of a glyph bitmap is read from its own row: row `i` starts
/// at byte `i * pitch` of `buf`, in every mode. Pixel `j` of row `i` becomes
/// bytes `n * (i * width + j)` onwards of the texture (`n` = 3, or 1 for an
/// LCD bitmap): for a one-bit bitmap 255 in all three channels exactly when
/// bit `7 - j % 8` of byte `i * pitch + j / 8` is set and 0 otherwise, for a
/// gray bitmap its coverage byte `i * pitch + j` in all three channels, for
/// an LCD bitmap byte `i * pitch + j` itself.
pub proof fn lemma_bitmap_pixel(mode: PixelMode, buf: Seq<u8>, pitch: nat, width: nat, rows: nat, i: int, j: int, c: int)
    requires
        0 <= i < rows,
        0 <= j < width,
        0 <= c < (if mode is Lcd { 1int } else { 3int }),
    ensures
        ({
            let n: int = if mode is Lcd { 1int } else { 3int };
            let out = bitmap_bytes(mode, buf, pitch, width, rows);
            &&& n * (i * width + j) + c < out.len()
            &&& out[n * (i * width + j) + c] == match mode {
                PixelMode::Mono => if (buf[i * pitch + j / 8] >> ((7 - j % 8) as u8)) & 1u8 == 1u8 {
                    255u8
                } else {
                    0u8
                },
                PixelMode::Gray => buf[i * pitch + j],
                PixelMode::Lcd => buf[i * pitch + j],
            }
        }),
    decreases rows,
{
    let n = bytes_per_pixel(mode);
    let r1 = (rows - 1) as nat;
    lemma_bitmap_bytes_len(mode, buf, pitch, width, rows);
    lemma_bitmap_bytes_len(mode, buf, pitch, width, r1);
    assert(bitmap_bytes(mode, buf, pitch, width, rows) == bitmap_bytes(mode, buf, pitch, width, r1) + row_bytes(mode, buf, (r1 * pitch) as int, width));
    assert(n * (i * width + j) + c < rows * width * n) by (nonlinear_arith)
        requires
            i < rows,
            j < width,
            c < n,
    ;
    if i < r1 {
        lemma_bitmap_pixel(mode, buf, pitch, width, r1, i, j, c);
        assert(n * (i * width + j) + c < r1 * width * n) by (nonlinear_arith)
            requires
                i < r1,
                j < width,
                c < n,
        ;
    } else {
        assert(n * (i * width + j) + c - r1 * width * n == n * j + c) by (nonlinear_arith)
            requires
                i == r1,
        ;
        lemma_row_byte(mode, buf, (r1 * pitch) as int, width, j, c);
    }
}

/// Turns the pixels of a rendered glyph bitmap into the bytes of an RGB
/// texture: `rows` rows of `width` pixels, each row starting `pitch` bytes
/// after the previous one in `buf`. One-bit pixels become 0 or 255 in all
/// three channels, gray pixels are repeated in all three channels, LCD
/// bytes are copied as they are.
pub fn normalize_buffer(buf: &Vec<u8>, rows: usize, width: usize, pitch: usize, mode: PixelMode) -> (data: Vec<u8>)
    requires
        bitmap_in_bounds(mode, buf@.len(), pitch as nat, width as nat, rows as nat),
    ensures
        data@ == bitmap_bytes(mode, buf@, pitch as nat, width as nat, rows as nat),
        data@.len() == rows * width * bytes_per_pixel(mode),
{
    let mut data: Vec<u8> = Vec::new();
    let is_mono = match mode {
        PixelMode::Mono => true,
        _ => false,
    };
    if is_mono && width == 0 {
        // no pixel is read: every row is empty
        let mut i: usize = 0;
        while i < rows
            invariant
                i <= rows,
                width == 0,
                data@ == bitmap_bytes(mode, buf@, pitch as nat, width as nat, i as nat),
            decreases rows - i,
        {
            i = i + 1;
        }
        proof {
            lemma_bitmap_bytes_len(mode, buf@, pitch as nat, width as nat, rows as nat);
        }
        return data;
    }
    let buf_len = buf.len();
    let mut i: usize = 0;
    while i < rows
        invariant
            i <= rows,
            buf_len == buf@.len(),
            !(mode is Mono && width == 0),
            bitmap_in_bounds(mode, buf@.len(), pitch as nat, width as nat, rows as nat),
            data@ == bitmap_bytes(mode, buf@, pitch as nat, width as nat, i as nat),
        decreases rows - i,
    {
        assert(i * pitch <= (rows - 1) * pitch) by (nonlinear_arith)
            requires
                i < rows,
        ;
        assert((rows - 1) * pitch + row_extent(mode, width as nat) <= buf_len);
        let start = i * pitch;
        let ghost prefix = data@;
        let mut j: usize = 0;
        while j < width
            invariant
                j <= width,
                buf_len == buf@.len(),
                start == i * pitch,
                i < rows,
                !(mode is Mono && width == 0),
                start + row_extent(mode, width as nat) <= buf@.len(),
                data@ == prefix + row_bytes(mode, buf@, start as int, j as nat),
            decreases width - j,
        {
            let ghost before = data@;
            match mode {
                PixelMode::Mono => {
                    assert(j / 8 <= (width - 1) / 8) by (nonlinear_arith)
                        requires
                            j < width,
                    ;
                    assert(start + j / 8 < buf_len);
                    let byte = buf[start + j / 8];
                    let shift: u8 = (7 - j % 8) as u8;
                    let value: u8 = if (byte >> shift) & 1u8 == 1u8 {
                        255
                    } else {
                        0
                    };
                    data.push(value);
                    data.push(value);
                    data.push(value);
                },
                PixelMode::Gray => {
                    assert(start + j < buf_len);
                    let byte = buf[start + j];
                    data.push(byte);
                    data.push(byte);
                    data.push(byte);
                },
                PixelMode::Lcd => {
                    assert(start + j < buf_len);
                    let byte = buf[start + j];
                    data.push(byte);
                },
            }
            assert(data@ =~= before + pixel_bytes(mode, buf@, start as int, j as int));
            assert(data@ =~= prefix + row_bytes(mode, buf@, start as int, (j + 1) as nat));
            j = j + 1;
        }
        assert(data@ =~= bitmap_bytes(mode, buf@, pitch as nat, width as nat, (i + 1) as nat));
        i = i + 1;
    }
    proof {
        lemma_bitmap_bytes_len(mode, buf@, pitch as nat, width as nat, rows as nat);
    }
    data
}


/// How the pixels of a rasterized canvas are stored.
#[derive(Debug, Clone, Copy, PartialEq, Eq)]
pub enum CanvasFormat {
    /// One byte of coverage per pixel.
    A8,
    /// Three bytes (red, green, blue) per pixel.
    Rgb24,
}

/// How many bytes a canvas pixel takes.
pub open spec fn canvas_bytes_per_pixel(format: CanvasFormat) -> nat {
    match format {
        CanvasFormat::A8 => 1,
        CanvasFormat::Rgb24 => 3,
    }
}

/// The RGB bytes of pixel `x` of the canvas row starting at `start`: a
/// coverage byte repeated in the three channels, or the pixel's own three
/// bytes.
pub open spec fn canvas_pixel_rgb(format: CanvasFormat, pixels: Seq<u8>, start: int, x: int) -> Seq<u8> {
    match format {
        CanvasFormat::A8 => seq![pixels[start + x], pixels[start + x], pixels[start + x]],
        CanvasFormat::Rgb24 => seq![pixels[start + x * 3], pixels[start + x * 3 + 1], pixels[start + x * 3 + 2]],
    }
}

/// The RGB bytes of the first `width` pixels of the row starting at `start`.
pub open spec fn canvas_row_rgb(format: CanvasFormat, pixels: Seq<u8>, start: int, width: nat) -> Seq<u8>
    decreases width,
{
    if width == 0 {
        Seq::empty()
    } else {
        canvas_row_rgb(format, pixels, start, (width - 1) as nat) + canvas_pixel_rgb(format, pixels, start, width - 1)
    }
}

/// The RGB bytes of the first `height` rows of a canvas whose rows are
/// `stride` bytes apart.
pub open spec fn canvas_rgb(format: CanvasFormat, pixels: Seq<u8>, stride: nat, width: nat, height: nat) -> Seq<u8>
    decreases height,
{
    if height == 0 {
        Seq::empty()
    } else {
        canvas_rgb(format, pixels, stride, width, (height - 1) as nat) + canvas_row_rgb(format, pixels, (height - 1) * stride, width)
    }
}

proof fn lemma_canvas_row_len(format: CanvasFormat, pixels: Seq<u8>, start: int, width: nat)
    ensures
        canvas_row_rgb(format, pixels, start, width).len() == 3 * width,
    decreases width,
{
    if width > 0 {
        lemma_canvas_row_len(format, pixels, start, (width - 1) as nat);
    }
}

/// A canvas of `height` rows of `width` pixels becomes `3 * width * height`
/// bytes.
pub proof fn lemma_canvas_rgb_len(format: CanvasFormat, pixels: Seq<u8>, stride: nat, width: nat, height: nat)
    ensures
        canvas_rgb(format, pixels, stride, width, height).len() == 3 * width * height,
    decreases height,
{
    if height > 0 {
        lemma_canvas_rgb_len(format, pixels, stride, width, (height - 1) as nat);
        lemma_canvas_row_len(format, pixels, (height - 1) * stride, width);
        let h1 = (height - 1) as nat;
        assert(3 * width * height == 3 * width * h1 + 3 * width) by (nonlinear_arith)
            requires
                h1 + 1 == height,
        ;
    } else {
        assert(3 * width * height == 0) by (nonlinear_arith)
            requires
                height == 0,
        ;
    }
}

/// Byte `3 * x + c` of a converted canvas row comes from pixel `x` of the
/// row that starts at `start`.
proof fn lemma_canvas_row_byte(format: CanvasFormat, pixels: Seq<u8>, start: int, width: nat, x: int, c: int)
    requires
        0 <= x < width,
        0 <= c < 3,
    ensures
        canvas_row_rgb(format, pixels, start, width)[3 * x + c] == canvas_pixel_rgb(format, pixels, start, x)[c],
    decreases width,
{
    let w1 = (width - 1) as nat;
    lemma_canvas_row_len(format, pixels, start, w1);
    if x < w1 {
        lemma_canvas_row_byte(format, pixels, start, w1, x, c);
    }
}

/// Every pixel of a canvas is read from its own place: row `y` starts at
/// byte `y * stride`, and pixel `x` of it becomes bytes `3 * (y * width + x)`
/// to `3 * (y * width + x) + 2` of the texture: for an A8 canvas its coverage
/// byte `y * stride + x` in all three channels, for an RGB24 canvas its
/// bytes `y * stride + 3 * x + c`, channel `c` for channel `c`.
pub proof fn lemma_canvas_pixel(format: CanvasFormat, pixels: Seq<u8>, stride: nat, width: nat, height: nat, y: int, x: int, c: int)
    requires
        0 <= y < height,
        0 <= x < width,
        0 <= c < 3,
    ensures
        ({
            let out = canvas_rgb(format, pixels, stride, width, height);
            &&& 3 * (y * width + x) + c < out.len()
            &&& out[3 * (y * width + x) + c] == match format {
                CanvasFormat::A8 => pixels[y * stride + x],
                CanvasFormat::Rgb24 => pixels[y * stride + 3 * x + c],
            }
        }),
    decreases height,
{
    let h1 = (height - 1) as nat;
    lemma_canvas_rgb_len(format, pixels, stride, width, height);
    lemma_canvas_rgb_len(format, pixels, stride, width, h1);
    assert(3 * (y * width + x) + c < 3 * width * height) by (nonlinear_arith)
        requires
            y < height,
            x < width,
            c < 3,
    ;
    if y < h1 {
        lemma_canvas_pixel(format, pixels, stride, width, h1, y, x, c);
        assert(3 * (y * width + x) + c < 3 * width * h1) by (nonlinear_arith)
            requires
                y < h1,
                x < width,
                c < 3,
        ;
    } else {
        assert(3 * (y * width + x) + c - 3 * width * h1 == 3 * x + c) by (nonlinear_arith)
            requires
                y == h1,
        ;
        lemma_canvas_row_byte(format, pixels, (h1 * stride) as int, width, x, c);
    }
}

/// Turns the first `width` pixels of each of the `height` rows of a
/// rasterized canvas (rows `stride` bytes apart) into the bytes of an RGB
/// texture, row by row: a coverage byte is repeated in the three channels,
/// an RGB pixel is copied. Each row is read as the `stride` bytes it spans.
pub fn canvas_to_rgb(pixels: &Vec<u8>, stride: usize, width: usize, height: usize, format: CanvasFormat) -> (image: Vec<u8>)
    requires
        height == 0 || (height * stride <= pixels@.len() && width * canvas_bytes_per_pixel(format) <= stride),
    ensures
        image@ == canvas_rgb(format, pixels@, stride as nat, width as nat, height as nat),
        image@.len() == 3 * width * height,
{
    let mut image: Vec<u8> = Vec::new();
    let len = pixels.len();
    let mut y: usize = 0;
    while y < height
        invariant
            y <= height,
            len == pixels@.len(),
            height > 0 ==> height * stride <= len,
            height > 0 ==> width * canvas_bytes_per_pixel(format) <= stride,
            image@ == canvas_rgb(format, pixels@, stride as nat, width as nat, y as nat),
        decreases height - y,
    {
        assert((y + 1) * stride <= height * stride && y * stride + stride == (y + 1) * stride) by (nonlinear_arith)
            requires
                y < height,
        ;
        let row_start = y * stride;
        let ghost prefix = image@;
        let mut x: usize = 0;
        while x < width
            invariant
                x <= width,
                len == pixels@.len(),
                row_start == y * stride,
                row_start + stride <= len,
                width * canvas_bytes_per_pixel(format) <= stride,
                image@ == prefix + canvas_row_rgb(format, pixels@, row_start as int, x as nat),
            decreases width - x,
        {
            let ghost before = image@;
            match format {
                CanvasFormat::A8 => {
                    assert(x < stride) by (nonlinear_arith)
                        requires
                            x < width,
                            width * 1 <= stride,
                    ;
                    let p = pixels[row_start + x];
                    image.push(p);
                    image.push(p);
                    image.push(p);
                },
                CanvasFormat::Rgb24 => {
                    assert(x * 3 + 2 < stride) by (nonlinear_arith)
                        requires
                            x < width,
                            width * 3 <= stride,
                    ;
                    image.push(pixels[row_start + x * 3]);
                    image.push(pixels[row_start + x * 3 + 1]);
                    image.push(pixels[row_start + x * 3 + 2]);
                },
            }
            assert(image@ =~= before + canvas_pixel_rgb(format, pixels@, row_start as int, x as int));
            assert(image@ =~= prefix + canvas_row_rgb(format, pixels@, row_start as int, (x + 1) as nat));
            x = x + 1;
        }
        assert(image@ =~= canvas_rgb(format, pixels@, stride as nat, width as nat, (y + 1) as nat));
        y = y + 1;
    }
    proof {
        lemma_canvas_rgb_len(format, pixels@, stride as nat, width as nat, height as nat);
    }
    image
}

} // verus!
