//! Raw pictures: rows of four bytes for each pixel, with padding between them.
use vstd::prelude::*;
use vstd::utf8::*;

use crate::text;

verus! {

/// Where a row of `width` pixels lies in a picture with `stride` bytes from row to row.
pub open spec fn row_of(b: Seq<u8>, width: nat, stride: nat, row: int) -> Seq<u8> {
    b.subrange(row * stride, row * stride + 4 * width)
}

/// The first `height` rows, one behind the other, without what lies between them.
pub open spec fn packed(b: Seq<u8>, width: nat, stride: nat, height: int) -> Seq<u8>
    decreases height,
{
    if height <= 0 {
        Seq::empty()
    } else {
        packed(b, width, stride, height - 1) + row_of(b, width, stride, height - 1)
    }
}

/// Every row lies inside the picture.
pub open spec fn rows_fit(b: Seq<u8>, width: nat, stride: nat, height: nat) -> bool {
    height == 0 || (height - 1) * stride + 4 * width <= b.len()
}

pub(crate) proof fn lemma_row_fits(len: nat, width: nat, stride: nat, height: nat, row: int)
    requires
        0 <= row < height,
        (height - 1) * stride + 4 * width <= len,
    ensures
        0 <= row * stride <= row * stride + 4 * width <= len,
{
    assert(row * stride <= (height - 1) * stride) by (nonlinear_arith)
        requires
            0 <= row <= height - 1,
            0 <= stride,
    ;
    assert(0 <= row * stride) by (nonlinear_arith)
        requires
            0 <= row,
            0 <= stride,
    ;
}

/// A picture without the padding between its rows. `None` for a picture without pixels, and for a
/// buffer that does not hold all of its rows.
pub fn pack_rows(bytes: &[u8], width: usize, height: usize, stride: usize) -> (res: Option<Vec<u8>>)
    requires
        stride * height <= usize::MAX,
        width * 4 <= usize::MAX,
        width > 0 && height > 0 && stride * height <= bytes@.len() ==> rows_fit(
            bytes@,
            width as nat,
            stride as nat,
            height as nat,
        ),
    ensures
        res is None <==> width == 0 || height == 0 || bytes@.len() < stride * height,
        res matches Some(p) ==> p@ == packed(bytes@, width as nat, stride as nat, height as int),
{
    if width == 0 || height == 0 || bytes.len() < stride * height {
        return None;
    }
    let mut out: Vec<u8> = Vec::new();
    let mut row: usize = 0;
    while row < height
        invariant
            row <= height,
            width * 4 <= usize::MAX,
            height > 0,
            (height - 1) * stride + 4 * width <= bytes.len(),
            out@ == packed(bytes@, width as nat, stride as nat, row as int),
        decreases height - row,
    {
        proof {
            lemma_row_fits(
                bytes@.len(),
                width as nat,
                stride as nat,
                height as nat,
                row as int,
            );
        }
        let start: usize = row * stride;
        let line = vstd::slice::slice_subrange(bytes, start, start + width * 4);
        out.extend_from_slice(line);
        assert(line@ =~= row_of(bytes@, width as nat, stride as nat, row as int));
        row = row + 1;
    }
    Some(out)
}

/// The layout of the four bytes of a pixel.
#[derive(Debug, Clone, Copy, PartialEq, Eq, Structural)]
pub enum VideoFormat {
    Bgrx,
    Bgra,
    Rgbx,
    Rgba,
    Xrgb,
    Argb,
    Xbgr,
    Abgr,
    /// Anything else.
    Other,
}

/// Why a picture could not be converted.
#[derive(Debug, Clone, Copy, PartialEq, Eq, Structural)]
pub enum PictureError {
    /// The layout of the pixels is not known.
    UnknownFormat,
    /// The buffer is shorter than its rows.
    ShortBuffer,
}

/// Where red, green and blue are in a pixel.
pub open spec fn channels(f: VideoFormat) -> Option<(int, int, int)> {
    match f {
        VideoFormat::Bgrx => Some((2, 1, 0)),
        VideoFormat::Bgra => Some((2, 1, 0)),
        VideoFormat::Rgbx => Some((0, 1, 2)),
        VideoFormat::Rgba => Some((0, 1, 2)),
        VideoFormat::Xrgb => Some((1, 2, 3)),
        VideoFormat::Argb => Some((1, 2, 3)),
        VideoFormat::Xbgr => Some((3, 2, 1)),
        VideoFormat::Abgr => Some((3, 2, 1)),
        VideoFormat::Other => None,
    }
}

/// Red, green and blue of the first `n` pixels of a packed picture.
pub open spec fn rgb(p: Seq<u8>, c: (int, int, int), n: int) -> Seq<u8>
    decreases n,
{
    if n <= 0 {
        Seq::empty()
    } else {
        rgb(p, c, n - 1) + seq![
            p[4 * (n - 1) + c.0],
            p[4 * (n - 1) + c.1],
            p[4 * (n - 1) + c.2],
        ]
    }
}

/// The header of a PPM file.
pub open spec fn ppm_header(width: nat, height: nat) -> Seq<char> {
    "P6\n"@ + text::decimal(width) + " "@ + text::decimal(height) + "\n255\n"@
}

/// A picture as a PPM file.
pub open spec fn ppm(
    b: Seq<u8>,
    width: nat,
    height: nat,
    stride: nat,
    f: VideoFormat,
) -> Result<Seq<u8>, PictureError> {
    match channels(f) {
        None => Err(PictureError::UnknownFormat),
        Some(c) => if !rows_fit(b, width, stride, height) {
            Err(PictureError::ShortBuffer)
        } else {
            Ok(
                encode_utf8(ppm_header(width, height)) + rgb(
                    packed(b, width, stride, height as int),
                    c,
                    (width * height) as int,
                ),
            )
        },
    }
}

proof fn lemma_packed_len(b: Seq<u8>, width: nat, stride: nat, height: nat, k: int)
    requires
        0 <= k <= height,
        height > 0 ==> (height - 1) * stride + 4 * width <= b.len(),
    ensures
        packed(b, width, stride, k).len() == 4 * width * k,
    decreases k,
{
    if k > 0 {
        lemma_packed_len(b, width, stride, height, k - 1);
        lemma_row_fits(b.len(), width, stride, height, k - 1);
        assert(4 * width * k == 4 * width * (k - 1) + 4 * width) by (nonlinear_arith);
    } else {
        assert(4 * width * 0 == 0) by (nonlinear_arith);
    }
}

fn offsets(f: VideoFormat) -> (res: Option<(usize, usize, usize)>)
    ensures
        channels(f) == (match res {
            Some(c) => Some((c.0 as int, c.1 as int, c.2 as int)),
            None => None,
        }),
        res matches Some(c) ==> c.0 < 4 && c.1 < 4 && c.2 < 4,
{
    match f {
        VideoFormat::Bgrx | VideoFormat::Bgra => Some((2, 1, 0)),
        VideoFormat::Rgbx | VideoFormat::Rgba => Some((0, 1, 2)),
        VideoFormat::Xrgb | VideoFormat::Argb => Some((1, 2, 3)),
        VideoFormat::Xbgr | VideoFormat::Abgr => Some((3, 2, 1)),
        VideoFormat::Other => None,
    }
}

/// Appends red, green and blue of a packed picture.
fn push_rgb(out: &mut Vec<u8>, p: &Vec<u8>, c: (usize, usize, usize))
    requires
        c.0 < 4,
        c.1 < 4,
        c.2 < 4,
        p@.len() % 4 == 0,
    ensures
        final(out)@ == old(out)@ + rgb(
            p@,
            (c.0 as int, c.1 as int, c.2 as int),
            p@.len() as int / 4,
        ),
{
    let ghost k = (c.0 as int, c.1 as int, c.2 as int);
    let mut i: usize = 0;
    assert(out@ =~= old(out)@ + rgb(p@, k, 0));
    while i < p.len() / 4
        invariant
            c.0 < 4,
            c.1 < 4,
            c.2 < 4,
            k == (c.0 as int, c.1 as int, c.2 as int),
            i <= p.len() / 4,
            out@ == old(out)@ + rgb(p@, k, i as int),
        decreases p.len() - i,
    {
        let at: usize = 4 * i;
        out.push(p[at + c.0]);
        out.push(p[at + c.1]);
        out.push(p[at + c.2]);
        assert(out@ =~= old(out)@ + rgb(p@, k, i + 1));
        i = i + 1;
    }
}

/// A picture as the contents of a PPM file.
pub fn to_ppm(
    bytes: &[u8],
    width: usize,
    height: usize,
    stride: usize,
    format: VideoFormat,
) -> (res: Result<Vec<u8>, PictureError>)
    requires
        height > 0 ==> (height - 1) * stride + 4 * width <= usize::MAX,
        4 * width <= usize::MAX,
    ensures
        ppm(bytes@, width as nat, height as nat, stride as nat, format) == (match res {
            Ok(f) => Ok(f@),
            Err(e) => Err(e),
        }),
{
    let c = match offsets(format) {
        None => {
            return Err(PictureError::UnknownFormat);
        },
        Some(c) => c,
    };
    if height > 0 {
        proof {
            lemma_row_fits(
                ((height - 1) * stride + 4 * width) as nat,
                width as nat,
                stride as nat,
                height as nat,
                height - 1,
            );
        }
        let last: usize = (height - 1) * stride;
        if last + 4 * width > bytes.len() {
            return Err(PictureError::ShortBuffer);
        }
    }
    let mut rows: Vec<u8> = Vec::new();
    let mut row: usize = 0;
    while row < height
        invariant
            row <= height,
            4 * width <= usize::MAX,
            height > 0 ==> (height - 1) * stride + 4 * width <= bytes.len(),
            rows@ == packed(bytes@, width as nat, stride as nat, row as int),
        decreases height - row,
    {
        proof {
            lemma_row_fits(
                bytes@.len(),
                width as nat,
                stride as nat,
                height as nat,
                row as int,
            );
        }
        let start: usize = row * stride;
        let line = vstd::slice::slice_subrange(bytes, start, start + 4 * width);
        rows.extend_from_slice(line);
        assert(line@ =~= row_of(bytes@, width as nat, stride as nat, row as int));
        row = row + 1;
    }
    proof {
        lemma_packed_len(bytes@, width as nat, stride as nat, height as nat, height as int);
        let n = (width * height) as int;
        assert(rows@.len() == 4 * n) by (nonlinear_arith)
            requires
                rows@.len() == 4 * width * height,
                n == width * height,
        ;
        assert(rows@.len() % 4 == 0 && rows@.len() as int / 4 == n);
    }
    let mut header = "P6\n".to_owned();
    text::push_decimal(&mut header, width as u64);
    header.append(" ");
    text::push_decimal(&mut header, height as u64);
    header.append("\n255\n");
    let mut out: Vec<u8> = Vec::new();
    out.extend_from_slice(header.as_str().as_bytes());
    assert(out@ =~= encode_utf8(ppm_header(width as nat, height as nat)));
    push_rgb(&mut out, &rows, c);
    Ok(out)
}

// ---- laws ----

/// A packed picture has four bytes for each pixel, and packing one without padding changes nothing.
pub proof fn packing_keeps_the_pixels(b: Seq<u8>, width: nat, stride: nat, height: nat)
    requires
        rows_fit(b, width, stride, height),
    ensures
        packed(b, width, stride, height as int).len() == 4 * width * height,
        stride == 4 * width && b.len() == 4 * width * height ==> packed(
            b,
            width,
            stride,
            height as int,
        ) == b,
{
    lemma_packed_len(b, width, stride, height, height as int);
    if stride == 4 * width && b.len() == 4 * width * height {
        lemma_packed_prefix(b, width, height, height as int);
        assert(b.take(4 * width * height as int) =~= b);
    }
}

proof fn lemma_packed_prefix(b: Seq<u8>, width: nat, height: nat, k: int)
    requires
        0 <= k <= height,
        b.len() == 4 * width * height,
    ensures
        4 * width * k <= b.len(),
        packed(b, width, 4 * width, k) == b.take(4 * width * k),
    decreases k,
{
    assert(4 * width * k <= 4 * width * height) by (nonlinear_arith)
        requires
            0 <= k <= height,
    ;
    if k > 0 {
        lemma_packed_prefix(b, width, height, k - 1);
        assert(4 * width * k == 4 * width * (k - 1) + 4 * width) by (nonlinear_arith);
        assert((k - 1) * (4 * width) == 4 * width * (k - 1)) by (nonlinear_arith);
        assert(packed(b, width, 4 * width, k) =~= b.take(4 * width * k));
    } else {
        assert(4 * width * 0 == 0) by (nonlinear_arith);
        assert(packed(b, width, 4 * width, k) =~= b.take(4 * width * k));
    }
}

/// Each byte of a row keeps its place in it, and the rows follow each other in their order: what lies
/// between them in the buffer is left out, and nothing else.
pub proof fn bytes_keep_their_place(
    b: Seq<u8>,
    width: nat,
    stride: nat,
    height: nat,
    k: int,
    row: int,
    at: int,
)
    requires
        height > 0 ==> (height - 1) * stride + 4 * width <= b.len(),
        0 <= row < k <= height,
        0 <= at < 4 * width,
    ensures
        packed(b, width, stride, k).len() == 4 * width * k,
        0 <= 4 * width * row + at < 4 * width * k,
        packed(b, width, stride, k)[4 * width * row + at] == b[row * stride + at],
    decreases k,
{
    lemma_packed_len(b, width, stride, height, k);
    lemma_packed_len(b, width, stride, height, k - 1);
    lemma_row_fits(b.len(), width, stride, height, k - 1);
    assert(4 * width * k == 4 * width * (k - 1) + 4 * width) by (nonlinear_arith);
    assert(0 <= 4 * width * row) by (nonlinear_arith)
        requires
            0 <= row,
    ;
    if row < k - 1 {
        bytes_keep_their_place(b, width, stride, height, k - 1, row, at);
    }
}

/// Where the colours are in a pixel, by the name of its layout: blue first or red first, with the byte
/// that is no colour behind them or in front.
pub proof fn layouts_are_read_from_their_names(f: VideoFormat)
    ensures
        channels(VideoFormat::Rgba) == Some((0int, 1int, 2int)),
        channels(VideoFormat::Bgra) == Some((2int, 1int, 0int)),
        channels(VideoFormat::Argb) == Some((1int, 2int, 3int)),
        channels(VideoFormat::Abgr) == Some((3int, 2int, 1int)),
        channels(VideoFormat::Rgbx) == channels(VideoFormat::Rgba),
        channels(VideoFormat::Bgrx) == channels(VideoFormat::Bgra),
        channels(VideoFormat::Xrgb) == channels(VideoFormat::Argb),
        channels(VideoFormat::Xbgr) == channels(VideoFormat::Abgr),
        channels(f) is None <==> f == VideoFormat::Other,
{
}

proof fn lemma_rgb(p: Seq<u8>, c: (int, int, int), n: int, i: int)
    requires
        0 <= i < n,
    ensures
        rgb(p, c, n).len() == 3 * n,
        rgb(p, c, n)[3 * i] == p[4 * i + c.0],
        rgb(p, c, n)[3 * i + 1] == p[4 * i + c.1],
        rgb(p, c, n)[3 * i + 2] == p[4 * i + c.2],
    decreases n,
{
    lemma_rgb_len(p, c, n);
    lemma_rgb_len(p, c, n - 1);
    if i < n - 1 {
        lemma_rgb(p, c, n - 1, i);
    }
}

proof fn lemma_rgb_len(p: Seq<u8>, c: (int, int, int), n: int)
    ensures
        rgb(p, c, n).len() == if n <= 0 {
            0
        } else {
            3 * n
        },
    decreases n,
{
    if n > 0 {
        lemma_rgb_len(p, c, n - 1);
    }
}

/// A PPM file begins with its kind, the size of the picture and the greatest value of a colour, and
/// then has red, green and blue of each pixel, row by row: those of the pixel at `x` and `y` are the
/// ones that the buffer has for it. A layout that is not known is refused, and so is a buffer that does
/// not hold all the pixels.
pub proof fn a_ppm_file_has_the_colours_of_each_pixel(
    b: Seq<u8>,
    width: nat,
    height: nat,
    stride: nat,
    f: VideoFormat,
    x: int,
    y: int,
)
    ensures
        f == VideoFormat::Other ==> ppm(b, width, height, stride, f) == Err::<Seq<u8>, _>(
            PictureError::UnknownFormat,
        ),
        f != VideoFormat::Other && height > 0 && (height - 1) * stride + 4 * width > b.len() ==> ppm(
            b,
            width,
            height,
            stride,
            f,
        ) == Err::<Seq<u8>, _>(PictureError::ShortBuffer),
        f != VideoFormat::Other && (height == 0 || (height - 1) * stride + 4 * width <= b.len()) ==> ({
            let head = encode_utf8(
                "P6\n"@ + text::decimal(width) + " "@ + text::decimal(height) + "\n255\n"@,
            );
            let (r, g, l) = channels(f).unwrap();
            &&& ppm(b, width, height, stride, f) matches Ok(file)
            &&& file.len() == head.len() + 3 * (width * height)
            &&& file.take(head.len() as int) == head
            &&& 0 <= x < width && 0 <= y < height ==> ({
                let at = head.len() + 3 * (y * width + x);
                let pixel = y * stride + 4 * x;
                &&& file[at] == b[pixel + r]
                &&& file[at + 1] == b[pixel + g]
                &&& file[at + 2] == b[pixel + l]
            })
        }),
{
    if f != VideoFormat::Other && (height == 0 || (height - 1) * stride + 4 * width <= b.len()) {
        let head = encode_utf8(ppm_header(width, height));
        let c = channels(f).unwrap();
        let p = packed(b, width, stride, height as int);
        let n = (width * height) as int;
        let file = head + rgb(p, c, n);
        assert(n >= 0) by (nonlinear_arith)
            requires
                n == width * height,
        ;
        lemma_rgb_len(p, c, n);
        assert(file.take(head.len() as int) =~= head);
        if 0 <= x < width && 0 <= y < height {
            let i = y * width + x;
            assert(0 <= i < n) by (nonlinear_arith)
                requires
                    i == y * width + x,
                    n == width * height,
                    0 <= x < width,
                    0 <= y < height,
            ;
            lemma_rgb(p, c, n, i);
            bytes_keep_their_place(b, width, stride, height, height as int, y, 4 * x + c.0);
            bytes_keep_their_place(b, width, stride, height, height as int, y, 4 * x + c.1);
            bytes_keep_their_place(b, width, stride, height, height as int, y, 4 * x + c.2);
            assert(4 * i == 4 * width * y + 4 * x) by (nonlinear_arith)
                requires
                    i == y * width + x,
            ;
        }
    }
}

/// A picture is packed where it has pixels and its buffer is as long as its rows.
pub proof fn a_picture_with_all_its_rows_is_packed(
    bytes: &[u8],
    width: usize,
    height: usize,
    stride: usize,
    res: Option<Vec<u8>>,
)
    requires
        call_ensures(pack_rows, (bytes, width, height, stride), res),
    ensures
        res is Some <==> width > 0 && height > 0 && stride * height <= bytes@.len(),
        res matches Some(p) ==> p@ == packed(bytes@, width as nat, stride as nat, height as int),
{
}

} // verus!
