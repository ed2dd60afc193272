//! RGB24 pixel rows and their encoding as a 24-bit uncompressed bitmap.
use vstd::prelude::*;

verus! {

/// Bytes of the file header and the information header together, which is
/// also where the pixel array starts.
pub const HEADER_SIZE: u32 = 54;

/// Pixels per metre stored for both axes, 72 dots per inch.
pub const PIXELS_PER_METRE: u32 = 2835;

/// Bytes of one stored row of `width` pixels: three per pixel, rounded up to a
/// multiple of four.
pub open spec fn row_size(width: nat) -> nat {
    ((width * 3 + 3) / 4 * 4) as nat
}

/// Bytes of the pixel array.
pub open spec fn image_size(width: nat, height: nat) -> nat {
    row_size(width) * height
}

pub open spec fn le16(v: nat) -> Seq<u8> {
    seq![(v % 256) as u8, (v / 256 % 256) as u8]
}

pub open spec fn le32(v: nat) -> Seq<u8> {
    seq![(v % 256) as u8, (v / 256 % 256) as u8, (v / 65536 % 256) as u8, (v / 16777216 % 256) as u8]
}

/// The file header followed by the information header.
pub open spec fn bmp_header(width: nat, height: nat) -> Seq<u8> {
    seq![66u8, 77u8] + le32(54 + image_size(width, height)) + le16(0) + le16(0) + le32(54)
        + le32(40) + le32(width) + le32(height) + le16(1) + le16(24) + le32(0)
        + le32(image_size(width, height)) + le32(2835) + le32(2835) + le32(0) + le32(0)
}

/// The first `n` pixels of an RGB row, each with its channels reversed.
pub open spec fn bgr_pixels(row: Seq<u8>, n: nat) -> Seq<u8>
    decreases n,
{
    if n == 0 {
        Seq::empty()
    } else {
        let p = 3 * (n - 1);
        bgr_pixels(row, (n - 1) as nat) + seq![row[p + 2], row[p + 1], row[p]]
    }
}

/// Row `y` of a tightly packed RGB24 image `width` pixels wide.
pub open spec fn source_row(rgb: Seq<u8>, width: nat, y: nat) -> Seq<u8> {
    rgb.subrange((y * 3 * width) as int, (y * 3 * width + 3 * width) as int)
}

/// Row `y` as stored: BGR pixels, then zero bytes up to the row size.
pub open spec fn bmp_row(rgb: Seq<u8>, width: nat, y: nat) -> Seq<u8> {
    bgr_pixels(source_row(rgb, width, y), width)
        + Seq::new((row_size(width) - 3 * width) as nat, |i: int| 0u8)
}

/// The first `n` stored rows, which are source rows `height - 1` down to
/// `height - n`.
pub open spec fn bmp_rows(rgb: Seq<u8>, width: nat, height: nat, n: nat) -> Seq<u8>
    decreases n,
{
    if n == 0 {
        Seq::empty()
    } else {
        bmp_rows(rgb, width, height, (n - 1) as nat) + bmp_row(rgb, width, (height - n) as nat)
    }
}

/// The whole bitmap file of an RGB24 image.
pub open spec fn bmp_image(rgb: Seq<u8>, width: nat, height: nat) -> Seq<u8> {
    bmp_header(width, height) + bmp_rows(rgb, width, height, height)
}

/// The first `n` rows of `bw` bytes each, row `r` read at `r * stride`.
pub open spec fn tight_rows(data: Seq<u8>, stride: nat, bw: nat, n: nat) -> Seq<u8>
    decreases n,
{
    if n == 0 {
        Seq::empty()
    } else {
        let start = (n - 1) * stride;
        tight_rows(data, stride, bw, (n - 1) as nat) + data.subrange(start as int, (start + bw) as int)
    }
}

/// A stored row is the smallest multiple of four bytes that holds three bytes
/// per pixel, and the pixel array is one such row per line of the image.
pub proof fn lemma_row_padding(width: nat, height: nat)
    ensures
        row_size(width) % 4 == 0,
        3 * width <= row_size(width) < 3 * width + 4,
        forall|m: nat| #[trigger] (m % 4) == 0 && 3 * width <= m ==> row_size(width) <= m,
        image_size(width, height) == row_size(width) * height,
{
    let a = 3 * width + 3;
    assert(a == 4 * (a / 4) + a % 4 && 0 <= a % 4 < 4) by (nonlinear_arith);
    assert((a / 4 * 4) % 4 == 0) by (nonlinear_arith);
    assert forall|m: nat| #[trigger] (m % 4) == 0 && 3 * width <= m implies row_size(width) <= m by {
        assert(m == 4 * (m / 4)) by (nonlinear_arith)
            requires m % 4 == 0;
        assert(a / 4 <= m / 4) by (nonlinear_arith)
            requires a == 4 * (a / 4) + a % 4, 0 <= a % 4 < 4, m == 4 * (m / 4), 3 * width <= m, a == 3 * width + 3;
        assert(a / 4 * 4 <= m) by (nonlinear_arith)
            requires a / 4 <= m / 4, m == 4 * (m / 4);
    }
}

proof fn lemma_bgr_pixels(row: Seq<u8>, n: nat)
    requires
        3 * n <= row.len(),
    ensures
        bgr_pixels(row, n).len() == 3 * n,
        forall|x: int, c: int| 0 <= x < n && 0 <= c < 3
            ==> #[trigger] bgr_pixels(row, n)[3 * x + 2 - c] == row[3 * x + c],
    decreases n,
{
    if n > 0 {
        lemma_bgr_pixels(row, (n - 1) as nat);
    }
}

proof fn lemma_bmp_row(rgb: Seq<u8>, width: nat, y: nat)
    requires
        (y + 1) * (3 * width) <= rgb.len(),
    ensures
        bmp_row(rgb, width, y).len() == row_size(width),
        forall|x: int, c: int| 0 <= x < width && 0 <= c < 3
            ==> #[trigger] bmp_row(rgb, width, y)[3 * x + 2 - c] == rgb[y * 3 * width + 3 * x + c],
{
    assert(y * 3 * width + 3 * width == (y + 1) * (3 * width)) by (nonlinear_arith);
    assert(0 <= y * 3 * width) by (nonlinear_arith);
    lemma_row_padding(width, 0);
    lemma_bgr_pixels(source_row(rgb, width, y), width);
}

proof fn lemma_bmp_rows_len(rgb: Seq<u8>, width: nat, height: nat, n: nat)
    requires
        n <= height,
        3 * width * height <= rgb.len(),
    ensures
        bmp_rows(rgb, width, height, n).len() == n * row_size(width),
    decreases n,
{
    if n > 0 {
        let y = (height - n) as nat;
        assert((y + 1) * (3 * width) <= 3 * width * height) by (nonlinear_arith)
            requires y + 1 <= height;
        lemma_bmp_row(rgb, width, y);
        lemma_bmp_rows_len(rgb, width, height, (n - 1) as nat);
        assert(n * row_size(width) == (n - 1) * row_size(width) + row_size(width)) by (nonlinear_arith);
        assert(bmp_rows(rgb, width, height, n) == bmp_rows(rgb, width, height, (n - 1) as nat)
            + bmp_row(rgb, width, y));
    } else {
        assert(n * row_size(width) == 0) by (nonlinear_arith)
            requires n == 0;
    }
}

proof fn lemma_bmp_rows_at(rgb: Seq<u8>, width: nat, height: nat, n: nat, r: nat, i: int)
    requires
        n <= height,
        r < n,
        0 <= i < row_size(width),
        3 * width * height <= rgb.len(),
    ensures
        bmp_rows(rgb, width, height, n)[r * row_size(width) + i]
            == bmp_row(rgb, width, (height - 1 - r) as nat)[i],
    decreases n,
{
    let rs = row_size(width);
    let y = (height - n) as nat;
    assert((y + 1) * (3 * width) <= 3 * width * height) by (nonlinear_arith)
        requires y + 1 <= height;
    lemma_bmp_row(rgb, width, y);
    lemma_bmp_rows_len(rgb, width, height, (n - 1) as nat);
    assert(0 <= r * rs) by (nonlinear_arith);
    if r < n - 1 {
        assert(r * rs + i < (n - 1) * rs) by (nonlinear_arith)
            requires r + 1 <= n - 1, 0 <= i < rs;
        lemma_bmp_rows_at(rgb, width, height, (n - 1) as nat, r, i);
    } else {
        assert(r * rs == (n - 1) * rs);
    }
}

/// Reading an encoded image back gives the source: the headers hold its width
/// and height, and the byte that a reader takes for channel `c` of pixel
/// (`x`, `y`) (rows stored bottom-up, channels in reverse order, after the
/// headers) is that channel's source byte.
pub proof fn lemma_bitmap_round_trip(rgb: Seq<u8>, width: nat, height: nat, x: nat, y: nat, c: nat)
    requires
        3 * width * height <= rgb.len(),
        x < width,
        y < height,
        c < 3,
    ensures
        bmp_image(rgb, width, height).len() == 54 + image_size(width, height),
        bmp_image(rgb, width, height).subrange(18, 22) == le32(width),
        bmp_image(rgb, width, height).subrange(22, 26) == le32(height),
        bmp_image(rgb, width, height)[54 + (height - 1 - y) * row_size(width) + 3 * x + 2 - c]
            == rgb[(y * 3 * width + 3 * x + c) as int],
        y * 3 * width + 3 * x + c == 3 * (y * width + x) + c,
{
    assert(y * 3 * width + 3 * x + c == 3 * (y * width + x) + c) by (nonlinear_arith);
    let r = (height - 1 - y) as nat;
    let i = 3 * x + 2 - c;
    assert((y + 1) * (3 * width) <= 3 * width * height) by (nonlinear_arith)
        requires y + 1 <= height;
    lemma_bmp_row(rgb, width, y);
    lemma_row_padding(width, height);
    assert(0 <= i < row_size(width));
    lemma_bmp_rows_len(rgb, width, height, height);
    lemma_bmp_rows_at(rgb, width, height, height, r, i);
    assert(0 <= r * row_size(width)) by (nonlinear_arith);
    assert(r * row_size(width) + i < height * row_size(width)) by (nonlinear_arith)
        requires r + 1 <= height, 0 <= i < row_size(width);
    assert(bmp_rows(rgb, width, height, height)[r * row_size(width) + i]
        == bmp_row(rgb, width, y)[i]);
    assert(bmp_header(width, height).len() == 54);
    assert(bmp_image(rgb, width, height).subrange(18, 22) =~= le32(width));
    assert(bmp_image(rgb, width, height).subrange(22, 26) =~= le32(height));
}

proof fn lemma_tight_rows_len(data: Seq<u8>, stride: nat, bw: nat, n: nat)
    requires
        n > 0 ==> (n - 1) * stride + bw <= data.len(),
    ensures
        tight_rows(data, stride, bw, n).len() == bw * n,
    decreases n,
{
    if n > 0 {
        if n > 1 {
            assert((n - 2) * stride + bw <= (n - 1) * stride + bw) by (nonlinear_arith)
                requires n >= 2;
        }
        lemma_tight_rows_len(data, stride, bw, (n - 1) as nat);
        assert(0 <= (n - 1) * stride) by (nonlinear_arith)
            requires n >= 1;
        assert(bw * n == bw * (n - 1) + bw) by (nonlinear_arith);
    } else {
        assert(bw * n == 0) by (nonlinear_arith)
            requires n == 0;
    }
}

/// Whether a plane of `len` bytes with rows `stride` apart holds `height`
/// rows of `width` RGB24 pixels, and the resulting bitmap stays within the
/// sizes that its headers and this machine can express.
pub open spec fn rgb_plane_fits(len: nat, stride: nat, width: nat, height: nat) -> bool {
    &&& height > 0 ==> (height - 1) * stride + 3 * width <= len
    &&& 3 * width * height <= usize::MAX
    &&& 54 + image_size(width, height) <= u32::MAX
}

/// Packs the rows of an RGB24 plane and encodes them as a bitmap file, or
/// gives `None` when the plane is too short for the image or the image too
/// large for the format.
pub fn rgb_plane_to_bmp(data: &[u8], stride: usize, width: u32, height: u32) -> (r: Option<Vec<u8>>)
    ensures
        r is Some <==> rgb_plane_fits(data@.len(), stride as nat, width as nat, height as nat),
        r matches Some(v) ==> v@ == bmp_image(
            tight_rows(data@, stride as nat, 3 * width as nat, height as nat),
            width as nat,
            height as nat,
        ),
{
    let len: u128 = data.len() as u128;
    let w: u128 = width as u128;
    let h: u128 = height as u128;
    let byte_width: u128 = 3 * w;
    proof {
        assert(h * (stride as u128) <= 0x1_0000_0000 * 0x1_0000_0000_0000_0000) by (nonlinear_arith)
            requires h < 0x1_0000_0000, stride <= 0x1_0000_0000_0000_0000;
        assert(byte_width * h <= 0x3_0000_0000 * 0x1_0000_0000) by (nonlinear_arith)
            requires byte_width < 0x3_0000_0000, h < 0x1_0000_0000;
        assert(h >= 1 ==> (h - 1) * (stride as u128) <= h * (stride as u128)) by (nonlinear_arith);
    }
    if h > 0 && (h - 1) * (stride as u128) + byte_width > len {
        return None;
    }
    if byte_width * h > usize::MAX as u128 {
        return None;
    }
    let stored_row: u128 = (byte_width + 3) / 4 * 4;
    proof {
        assert(stored_row * h <= 0x4_0000_0000 * 0x1_0000_0000) by (nonlinear_arith)
            requires stored_row <= 0x4_0000_0000, h < 0x1_0000_0000;
    }
    if 54 + stored_row * h > u32::MAX as u128 {
        return None;
    }
    let packed = turn_frame_into_bitmap(data, stride, width, height);
    proof {
        lemma_tight_rows_len(data@, stride as nat, 3 * width as nat, height as nat);
        assert(3 * width * height == 3 * width * height as nat);
    }
    Some(create_bmp_image(packed, width, height))
}

fn push_le16(out: &mut Vec<u8>, v: u16)
    ensures
        final(out)@ == old(out)@ + le16(v as nat),
{
    out.push((v % 256) as u8);
    out.push((v / 256 % 256) as u8);
    assert(final(out)@ =~= old(out)@ + le16(v as nat));
}

fn push_le32(out: &mut Vec<u8>, v: u32)
    ensures
        final(out)@ == old(out)@ + le32(v as nat),
{
    out.push((v % 256) as u8);
    out.push((v / 256 % 256) as u8);
    out.push((v / 65536 % 256) as u8);
    out.push((v / 16777216 % 256) as u8);
    assert(final(out)@ =~= old(out)@ + le32(v as nat));
}

/// Copies `height` rows of `3 * width` bytes out of a plane whose rows start
/// `stride` bytes apart, dropping whatever padding follows each row.
pub fn turn_frame_into_bitmap(data: &[u8], stride: usize, width: u32, height: u32) -> (r: Vec<u8>)
    requires
        height > 0 ==> (height - 1) * stride + 3 * width <= data@.len(),
        3 * width * height <= usize::MAX,
    ensures
        r@ == tight_rows(data@, stride as nat, 3 * width as nat, height as nat),
{
    let mut out: Vec<u8> = Vec::new();
    if height == 0 {
        return out;
    }
    proof {
        assert(3 * width * 1 <= 3 * width * height) by (nonlinear_arith)
            requires height >= 1;
    }
    let bw: usize = 3 * (width as usize);
    let rows: usize = height as usize;
    let len: usize = data.len();
    let mut row: usize = 0;
    while row < rows
        invariant
            0 <= row <= rows,
            rows == height,
            len == data@.len(),
            height > 0,
            (height - 1) * stride + bw <= data@.len(),
            bw == 3 * width,
            out@ == tight_rows(data@, stride as nat, bw as nat, row as nat),
        decreases rows - row,
    {
        proof {
            assert(row * stride <= (rows - 1) * stride) by (nonlinear_arith)
                requires row <= rows - 1;
        }
        let begin: usize = row * stride;
        assert(begin + bw <= data@.len());
        let ghost before = out@;
        let mut j: usize = 0;
        while j < bw
            invariant
                0 <= j <= bw,
                begin + bw <= data@.len(),
                len == data@.len(),
                out@ == before + data@.subrange(begin as int, begin + j),
            decreases bw - j,
        {
            out.push(data[begin + j]);
            assert(data@.subrange(begin as int, begin + j + 1)
                =~= data@.subrange(begin as int, begin + j).push(data@[begin + j]));
            j = j + 1;
        }
        row = row + 1;
    }
    out
}

fn push_bmp_header(out: &mut Vec<u8>, width: u32, height: u32, pixel_bytes: u32)
    requires
        old(out)@.len() == 0,
        pixel_bytes == image_size(width as nat, height as nat),
        54 + pixel_bytes <= u32::MAX,
    ensures
        final(out)@ == bmp_header(width as nat, height as nat),
{
    out.push(66u8);
    out.push(77u8);
    push_le32(out, HEADER_SIZE + pixel_bytes);
    push_le16(out, 0u16);
    push_le16(out, 0u16);
    push_le32(out, HEADER_SIZE);

    push_le32(out, 40u32);
    push_le32(out, width);
    push_le32(out, height);
    push_le16(out, 1u16);
    push_le16(out, 24u16);
    push_le32(out, 0u32);
    push_le32(out, pixel_bytes);
    push_le32(out, PIXELS_PER_METRE);
    push_le32(out, PIXELS_PER_METRE);
    push_le32(out, 0u32);
    push_le32(out, 0u32);
    assert(out@ =~= bmp_header(width as nat, height as nat));
}

/// Appends stored row `y`: its pixels in BGR order, then `row_padding` zeros.
fn push_bmp_row(out: &mut Vec<u8>, rgb_data: &Vec<u8>, width: u32, y: u32, row_padding: u64)
    requires
        (y + 1) * (3 * width) <= rgb_data@.len(),
        row_padding == row_size(width as nat) - 3 * width,
    ensures
        final(out)@ == old(out)@ + bmp_row(rgb_data@, width as nat, y as nat),
{
    let ghost w = width as nat;
    let ghost src = source_row(rgb_data@, w, y as nat);
    let len: usize = rgb_data.len();
    let yy: usize = y as usize;
    proof {
        assert(y * 3 * w == y * (3 * w)) by (nonlinear_arith);
        assert((y + 1) * (3 * w) == y * (3 * w) + 3 * w) by (nonlinear_arith);
        assert(0 <= y * (3 * w)) by (nonlinear_arith);
    }
    let bw: usize = 3 * (width as usize);
    let row_start: usize = yy * bw;
    let mut x: usize = 0;
    while x < width as usize
        invariant
            0 <= x <= w,
            w == width,
            bw == 3 * w,
            row_start == y * 3 * w,
            row_start + bw <= rgb_data@.len(),
            len == rgb_data@.len(),
            src == source_row(rgb_data@, w, y as nat),
            out@ == old(out)@ + bgr_pixels(src, x as nat),
        decreases w - x,
    {
        let i: usize = row_start + 3 * x;
        out.push(rgb_data[i + 2]);
        out.push(rgb_data[i + 1]);
        out.push(rgb_data[i]);
        assert(bgr_pixels(src, (x + 1) as nat)
            =~= bgr_pixels(src, x as nat) + seq![src[3 * x + 2], src[3 * x + 1], src[3 * x]]);
        assert(out@ =~= old(out)@ + bgr_pixels(src, (x + 1) as nat));
        x = x + 1;
    }
    let ghost pixels = out@;
    let mut p: u64 = 0;
    while p < row_padding
        invariant
            0 <= p <= row_padding,
            out@ == pixels + Seq::new(p as nat, |i: int| 0u8),
        decreases row_padding - p,
    {
        out.push(0u8);
        assert(Seq::new((p + 1) as nat, |i: int| 0u8) =~= Seq::new(p as nat, |i: int| 0u8).push(0u8));
        p = p + 1;
    }
    assert(out@ =~= old(out)@ + bmp_row(rgb_data@, w, y as nat));
}

/// Encodes a tightly packed RGB24 image as a 24-bit uncompressed bitmap file:
/// both headers, then the rows bottom-up with channels in BGR order, each row
/// padded with zeros to a multiple of four bytes.
pub fn create_bmp_image(rgb_data: Vec<u8>, width: u32, height: u32) -> (r: Vec<u8>)
    requires
        3 * width * height <= rgb_data@.len(),
        54 + image_size(width as nat, height as nat) <= u32::MAX,
    ensures
        r@ == bmp_image(rgb_data@, width as nat, height as nat),
{
    let byte_width: u64 = 3 * (width as u64);
    let padded: u64 = byte_width + 3;
    let stored_row: u64 = padded & !3u64;
    assert(padded & !3u64 == padded / 4 * 4) by (bit_vector);
    let row_padding: u64 = stored_row - byte_width;
    let pixel_bytes: u64 = stored_row * (height as u64);
    let mut bmp_data: Vec<u8> = Vec::new();
    push_bmp_header(&mut bmp_data, width, height, pixel_bytes as u32);

    let ghost w = width as nat;
    let ghost h = height as nat;
    let mut y: u32 = height;
    while y > 0
        invariant
            0 <= y <= height,
            w == width,
            h == height,
            3 * w * h <= rgb_data@.len(),
            row_padding == row_size(w) - 3 * w,
            bmp_data@ == bmp_header(w, h) + bmp_rows(rgb_data@, w, h, (h - y) as nat),
        decreases y,
    {
        y = y - 1;
        proof {
            assert((y + 1) * (3 * w) <= h * (3 * w)) by (nonlinear_arith)
                requires y + 1 <= h;
            assert(h * (3 * w) == 3 * w * h) by (nonlinear_arith);
        }
        push_bmp_row(&mut bmp_data, &rgb_data, width, y, row_padding);
        assert(bmp_rows(rgb_data@, w, h, (h - y) as nat)
            == bmp_rows(rgb_data@, w, h, (h - y - 1) as nat) + bmp_row(rgb_data@, w, y as nat));
        assert(bmp_data@ =~= bmp_header(w, h) + bmp_rows(rgb_data@, w, h, (h - y) as nat));
    }
    bmp_data
}

} // verus!
