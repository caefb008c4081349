//! Raw compositor frames to RGBA images.
//!
//! KWin hands over a QImage as raw rows (`stride` bytes apart) in one of a few
//! pixel formats: 4 RGB32, 5 ARGB32, 6 premultiplied ARGB32 (all BGRA byte
//! order in memory) and 17/18 RGBA8888. The conversion to tightly packed RGBA
//! is done here, into a frame of packed RGBA pixels that an encoder takes.
use crate::drivers::{Shot, ShotFormat};
use crate::error::{fail, BackendError};
use crate::types::{Bbox, ToolError};
use crate::text::{chars_of, decimal, decimal_string, eq_lit, starts_with_lit};
use vstd::prelude::*;
use vstd::string::*;

verus! {

/// A decoded frame: `width` by `height` pixels, row by row, four bytes
/// (red, green, blue, alpha) each.
#[derive(Debug, Clone)]
pub struct RgbaFrame {
    pub width: u32,
    pub height: u32,
    pub pixels: Vec<u8>,
}

/// BGRA pixels (whole pixels only) reordered to RGBA; with `opaque`, alpha is
/// forced to 255.
pub open spec fn bgra_to_rgba(line: Seq<u8>, opaque: bool) -> Seq<u8>
    decreases line.len(),
{
    if line.len() < 4 {
        Seq::empty()
    } else {
        let n = line.len() - 4;
        bgra_to_rgba(line.take(n), opaque) + seq![
            line[n + 2],
            line[n + 1],
            line[n],
            if opaque { 255u8 } else { line[n + 3] },
        ]
    }
}

/// One row of the output, from `row_bytes` bytes of the input row.
pub open spec fn convert_row(line: Seq<u8>, format: u32) -> Seq<u8> {
    if format == 17 || format == 18 {
        line
    } else {
        bgra_to_rgba(line, format == 4)
    }
}

/// The first `rows` output rows.
pub open spec fn qimage_rows(bytes: Seq<u8>, stride: int, row_bytes: int, rows: int, format: u32) -> Seq<u8>
    decreases rows,
{
    if rows <= 0 {
        Seq::empty()
    } else {
        qimage_rows(bytes, stride, row_bytes, rows - 1, format) + convert_row(
            bytes.subrange((rows - 1) * stride, (rows - 1) * stride + row_bytes),
            format,
        )
    }
}

pub open spec fn supported_format(format: u32) -> bool {
    (4 <= format && format <= 6) || format == 17 || format == 18
}

/// The packed RGBA bytes of a QImage frame, or why it is refused.
pub open spec fn qimage_verdict(bytes: Seq<u8>, width: u32, height: u32, stride: u32, format: u32) -> Result<Seq<u8>, Seq<char>> {
    let row_bytes = width * 4;
    let need = if stride * height > usize::MAX { usize::MAX as int } else { stride * height };
    if width == 0 || height == 0 {
        Err("screenshot zero dimensions"@)
    } else if stride < row_bytes || bytes.len() < need {
        Err(
            "screenshot bytes too short: got "@ + decimal(bytes.len()) + ", need "@ + decimal(
                need as nat,
            ) + ", width "@ + decimal(width as nat) + ", height "@ + decimal(height as nat)
                + ", stride "@ + decimal(stride as nat),
        )
    } else if !supported_format(format) {
        Err("unsupported QImage::Format "@ + decimal(format as nat))
    } else {
        Ok(qimage_rows(bytes, stride as int, row_bytes, height as int, format))
    }
}

proof fn lemma_row_in_bounds(row: int, stride: int, row_bytes: int, height: int, len: int)
    requires
        0 <= row < height,
        row_bytes <= stride,
        stride * height <= len,
        0 <= row_bytes,
    ensures
        0 <= row * stride,
        row * stride + row_bytes <= len,
        row * stride + stride == (row + 1) * stride,
{
    assert(row * stride + stride == (row + 1) * stride) by (nonlinear_arith);
    assert((row + 1) * stride <= height * stride) by (nonlinear_arith)
        requires
            row + 1 <= height,
            0 <= stride,
    ;
    assert(0 <= row * stride) by (nonlinear_arith)
        requires
            0 <= row,
            0 <= stride,
    ;
    assert(stride * height == height * stride) by (nonlinear_arith);
}

proof fn lemma_bgra_len(line: Seq<u8>, opaque: bool)
    requires
        line.len() % 4 == 0,
    ensures
        bgra_to_rgba(line, opaque).len() == line.len(),
    decreases line.len(),
{
    if line.len() >= 4 {
        lemma_bgra_len(line.take(line.len() - 4), opaque);
    }
}

/// The packed RGBA bytes of one row.
fn convert_row_exec(bytes: &[u8], start: usize, row_bytes: usize, format: u32, out: &mut Vec<u8>)
    requires
        start + row_bytes <= bytes@.len(),
        bytes@.len() <= usize::MAX,
        row_bytes % 4 == 0,
    ensures
        final(out)@ == old(out)@ + convert_row(bytes@.subrange(start as int, start + row_bytes), format),
{
    let ghost line = bytes@.subrange(start as int, start + row_bytes);
    let ghost base = old(out)@;
    if format == 17 || format == 18 {
        let mut k: usize = 0;
        while k < row_bytes
            invariant
                k <= row_bytes,
                start + row_bytes <= bytes@.len(),
                bytes@.len() <= usize::MAX,
                line == bytes@.subrange(start as int, start + row_bytes),
                out@ == base + line.take(k as int),
            decreases row_bytes - k,
        {
            out.push(bytes[start + k]);
            k += 1;
            assert(out@ =~= base + line.take(k as int));
        }
        assert(line.take(k as int) =~= line);
    } else {
        let opaque = format == 4;
        let mut k: usize = 0;
        assert(line.take(0) =~= Seq::<u8>::empty());
        while k < row_bytes
            invariant
                k <= row_bytes,
                k % 4 == 0,
                row_bytes % 4 == 0,
                start + row_bytes <= bytes@.len(),
                bytes@.len() <= usize::MAX,
                line == bytes@.subrange(start as int, start + row_bytes),
                opaque == (format == 4),
                out@ == base + bgra_to_rgba(line.take(k as int), opaque),
            decreases row_bytes - k,
        {
            let p = start + k;
            let a = if opaque { 255u8 } else { bytes[p + 3] };
            out.push(bytes[p + 2]);
            out.push(bytes[p + 1]);
            out.push(bytes[p]);
            out.push(a);
            k += 4;
            assert(line.take(k as int).take(k - 4) =~= line.take(k - 4));
            assert(out@ =~= base + bgra_to_rgba(line.take(k as int), opaque));
        }
        assert(line.take(k as int) =~= line);
    }
}

/// The packed RGBA bytes of a QImage frame.
pub fn qimage_rgba(bytes: &[u8], width: u32, height: u32, stride: u32, format: u32) -> (r: Result<Vec<u8>, BackendError>)
    requires
        width * 4 <= usize::MAX,
        bytes@.len() <= isize::MAX,
    ensures
        match qimage_verdict(bytes@, width, height, stride, format) {
            Ok(px) => r matches Ok(v) && v@ == px,
            Err(msg) => r matches Err(BackendError::ExternalCommandFailed { stderr }) && stderr@ == msg,
        },
{
    if width == 0 || height == 0 {
        return Err(BackendError::ExternalCommandFailed { stderr: String::from_str("screenshot zero dimensions") });
    }
    let row_bytes: usize = width as usize * 4;
    let stride_n: usize = stride as usize;
    let h: usize = height as usize;
    let need: usize = if stride_n > usize::MAX / h {
        assert(stride_n * h > usize::MAX) by (nonlinear_arith)
            requires
                stride_n > usize::MAX / h,
                h > 0,
        ;
        usize::MAX
    } else {
        assert(stride_n * h <= usize::MAX) by (nonlinear_arith)
            requires
                stride_n <= usize::MAX / h,
                h > 0,
        ;
        stride_n * h
    };
    if stride_n < row_bytes || bytes.len() < need {
        let mut m = String::from_str("screenshot bytes too short: got ");
        m.append(decimal_string(bytes.len() as u64).as_str());
        m.append(", need ");
        m.append(decimal_string(need as u64).as_str());
        m.append(", width ");
        m.append(decimal_string(width as u64).as_str());
        m.append(", height ");
        m.append(decimal_string(height as u64).as_str());
        m.append(", stride ");
        m.append(decimal_string(stride as u64).as_str());
        return Err(BackendError::ExternalCommandFailed { stderr: m });
    }
    if !((4 <= format && format <= 6) || format == 17 || format == 18) {
        let mut m = String::from_str("unsupported QImage::Format ");
        m.append(decimal_string(format as u64).as_str());
        return Err(BackendError::ExternalCommandFailed { stderr: m });
    }
    assert(stride_n * h <= bytes@.len());
    let mut out: Vec<u8> = Vec::new();
    let mut row: usize = 0;
    while row < h
        invariant
            row <= h,
            h == height as int,
            row_bytes == width * 4,
            row_bytes % 4 == 0,
            row_bytes <= stride_n,
            stride_n == stride,
            stride_n * h <= bytes@.len(),
            bytes@.len() <= isize::MAX,
            out@ == qimage_rows(bytes@, stride_n as int, row_bytes as int, row as int, format),
        decreases h - row,
    {
        proof {
            lemma_row_in_bounds(row as int, stride_n as int, row_bytes as int, h as int, bytes@.len() as int);
            assert(stride_n * row == row * stride_n) by (nonlinear_arith);
        }
        convert_row_exec(bytes, row * stride_n, row_bytes, format, &mut out);
        row += 1;
    }
    Ok(out)
}

/// A QImage frame decoded into packed RGBA pixels, or why it is refused.
pub fn decode_qimage(bytes: &[u8], width: u32, height: u32, stride: u32, format: u32) -> (r: Result<RgbaFrame, BackendError>)
    requires
        width * 4 <= usize::MAX,
        bytes@.len() <= isize::MAX,
    ensures
        match qimage_verdict(bytes@, width, height, stride, format) {
            Ok(px) => r matches Ok(f) && f.width == width && f.height == height && f.pixels@ == px
                && f.pixels@.len() == 4 * width * height,
            Err(msg) => r matches Err(BackendError::ExternalCommandFailed { stderr }) && stderr@ == msg,
        },
{
    let px = match qimage_rgba(bytes, width, height, stride, format) {
        Ok(px) => px,
        Err(e) => {
            return Err(e);
        },
    };
    proof {
        assert(stride as int * height <= bytes@.len());
        lemma_rows_len(bytes@, stride as int, width * 4, height as int, format);
        assert(4 * width * height == (width * 4) * height) by (nonlinear_arith);
    }
    Ok(RgbaFrame { width, height, pixels: px })
}

proof fn lemma_rows_len(bytes: Seq<u8>, stride: int, row_bytes: int, rows: int, format: u32)
    requires
        row_bytes % 4 == 0,
        row_bytes >= 0,
        rows >= 0,
        row_bytes <= stride,
        stride * rows <= bytes.len(),
    ensures
        qimage_rows(bytes, stride, row_bytes, rows, format).len() == row_bytes * rows,
    decreases rows,
{
    if rows > 0 {
        lemma_row_in_bounds(rows - 1, stride, row_bytes, rows, bytes.len() as int);
        assert(stride * (rows - 1) <= stride * rows) by (nonlinear_arith)
            requires
                stride >= 0,
                rows >= 1,
        ;
        lemma_rows_len(bytes, stride, row_bytes, rows - 1, format);
        let line = bytes.subrange((rows - 1) * stride, (rows - 1) * stride + row_bytes);
        lemma_bgra_len(line, format == 4);
        assert(line.len() == row_bytes);
        assert(convert_row(line, format).len() == row_bytes);
        assert(qimage_rows(bytes, stride, row_bytes, rows, format) == qimage_rows(bytes, stride, row_bytes, rows - 1, format) + convert_row(line, format));
        assert(row_bytes * (rows - 1) + row_bytes == row_bytes * rows) by (nonlinear_arith);
    } else {
        assert(row_bytes * rows == 0) by (nonlinear_arith)
            requires
                rows == 0,
        ;
    }
}

/// The largest screenshot transfer accepted, in bytes.
pub const MAX_TRANSFER_BYTES: usize = 134217728;

/// A chunk of `count` bytes may join the `have` already read only while the
/// transfer stays within 128 MiB.
pub fn check_transfer(have: usize, count: usize) -> (r: Result<(), BackendError>)
    ensures
        have + count <= MAX_TRANSFER_BYTES ==> r is Ok,
        have + count > MAX_TRANSFER_BYTES ==> (r matches Err(BackendError::Failed(m)) && m@
            == "Screenshot exceeds 128 MiB"@),
{
    if have > MAX_TRANSFER_BYTES || count > MAX_TRANSFER_BYTES - have {
        Err(BackendError::Failed(String::from_str("Screenshot exceeds 128 MiB")))
    } else {
        Ok(())
    }
}

/// A capture that delivered no bytes at all is refused.
pub fn check_delivered(len: usize) -> (r: Result<(), BackendError>)
    ensures
        len > 0 ==> r is Ok,
        len == 0 ==> (r matches Err(BackendError::ExternalCommandFailed { stderr }) && stderr@
            == "screenshot pipe returned 0 bytes"@),
{
    if len == 0 {
        Err(BackendError::ExternalCommandFailed { stderr: String::from_str("screenshot pipe returned 0 bytes") })
    } else {
        Ok(())
    }
}

/// The refusal of a capture reply that lacks a whole-number field `key`.
pub fn missing_field(key: &str) -> (e: BackendError)
    ensures
        e matches BackendError::ExternalCommandFailed { stderr } && stderr@
            == "screenshot result missing/invalid u32 field: "@ + key@,
{
    let mut m = String::from_str("screenshot result missing/invalid u32 field: ");
    m.append(key);
    BackendError::ExternalCommandFailed { stderr: m }
}

/// What a failed capture leads to.
#[derive(Debug, Clone, Copy, PartialEq, Eq, Structural)]
pub enum CaptureRetry {
    /// Capture again at once: the transfer came short.
    Transfer,
    /// Capture again after 200 ms: the compositor has not yet authorized
    /// this program.
    Authorization,
    /// Answer the failure.
    GiveUp,
}

/// After attempt `attempt` (counted from 1) failed with `error`: a short
/// transfer is captured again once (`retried_transfer` says whether it
/// was), a denied authorization up to five more times, anything else is
/// answered.
pub fn capture_retry(error: &BackendError, attempt: u32, retried_transfer: bool) -> (r: CaptureRetry)
    ensures
        r == match error {
            BackendError::ExternalCommandFailed { stderr } => if !retried_transfer && "screenshot bytes too short"@.len()
                <= stderr@.len() && stderr@.take("screenshot bytes too short"@.len() as int)
                == "screenshot bytes too short"@ {
                CaptureRetry::Transfer
            } else {
                CaptureRetry::GiveUp
            },
            BackendError::PermissionDenied { .. } => if attempt < 6 {
                CaptureRetry::Authorization
            } else {
                CaptureRetry::GiveUp
            },
            _ => CaptureRetry::GiveUp,
        },
{
    match error {
        BackendError::ExternalCommandFailed { stderr } => {
            let c = chars_of(stderr.as_str());
            if !retried_transfer && starts_with_lit(c.as_slice(), "screenshot bytes too short") {
                CaptureRetry::Transfer
            } else {
                CaptureRetry::GiveUp
            }
        },
        BackendError::PermissionDenied { .. } => if attempt < 6 {
            CaptureRetry::Authorization
        } else {
            CaptureRetry::GiveUp
        },
        _ => CaptureRetry::GiveUp,
    }
}

/// What a failed capture call reports: KWin's refusal of a program it has
/// not authorized (a method error named `...ScreenShot2.Error.NoAuthorized`)
/// as a permission failure, anything else (`detail`) as a lost bus.
pub fn capture_call_error(method_error: Option<&str>, detail: String) -> (e: BackendError)
    ensures
        (method_error matches Some(n) && n@ == "org.kde.KWin.ScreenShot2.Error.NoAuthorized"@) ==> (e matches BackendError::PermissionDenied {
            reason,
        } && reason@ == not_authorized_text()),
        !(method_error matches Some(n) && n@ == "org.kde.KWin.ScreenShot2.Error.NoAuthorized"@) ==> (e matches BackendError::BusDisconnected {
            detail: d,
        } && d@ == detail@),
{
    let denied = match method_error {
        Some(n) => {
            let c = chars_of(n);
            eq_lit(c.as_slice(), "org.kde.KWin.ScreenShot2.Error.NoAuthorized")
        },
        None => false,
    };
    if denied {
        BackendError::PermissionDenied {
            reason: String::from_str(
                "KWin requires an authorized .desktop entry for this server executable in the compositor's application directory. Install the host application entry or restart the server joined to its private seat.",
            ),
        }
    } else {
        BackendError::BusDisconnected { detail }
    }
}

pub open spec fn not_authorized_text() -> Seq<char> {
    "KWin requires an authorized .desktop entry for this server executable in the compositor's application directory. Install the host application entry or restart the server joined to its private seat."@
}

/// The bits per pixel of the first pixmap format listed for `depth`, each
/// format given as `(depth, bits_per_pixel)`.
pub open spec fn first_bpp(formats: Seq<(u8, u8)>, depth: u8) -> Option<u8>
    decreases formats.len(),
{
    if formats.len() == 0 {
        None
    } else if formats[0].0 == depth {
        Some(formats[0].1)
    } else {
        first_bpp(formats.drop_first(), depth)
    }
}

proof fn lemma_first_bpp(formats: Seq<(u8, u8)>, depth: u8, i: int)
    requires
        0 <= i <= formats.len(),
        forall|j: int| 0 <= j < i ==> #[trigger] formats[j].0 != depth,
    ensures
        i < formats.len() && formats[i].0 == depth ==> first_bpp(formats, depth) == Some(formats[i].1),
        i == formats.len() ==> first_bpp(formats, depth) is None,
    decreases i,
{
    if i > 0 {
        let rest = formats.drop_first();
        assert forall|j: int| 0 <= j < i - 1 implies #[trigger] rest[j].0 != depth by {
            assert(rest[j] == formats[j + 1]);
        }
        lemma_first_bpp(rest, depth, i - 1);
    }
}

/// Whether an X11 server's images can be read: little-endian, with a
/// 32-bit pixmap format for the drawable's depth.
pub fn x11_image_format(lsb_first: bool, depth: u8, formats: &[(u8, u8)]) -> (r: Result<(), BackendError>)
    ensures
        !lsb_first ==> (r matches Err(BackendError::Unsupported { reason }) && reason@
            == "big-endian X11 servers are not supported"@),
        lsb_first && first_bpp(formats@, depth) is None ==> (r matches Err(BackendError::Unsupported { reason })
            && reason@ == "X11 root has no pixmap format for depth "@ + decimal(depth as nat)),
        lsb_first && (first_bpp(formats@, depth) matches Some(b) && b != 32) ==> (r matches Err(
            BackendError::Unsupported { reason },
        ) && reason@ == "unsupported X11 bits-per-pixel "@ + decimal(first_bpp(formats@, depth)->0 as nat)),
        lsb_first && first_bpp(formats@, depth) == Some(32u8) ==> r is Ok,
{
    if !lsb_first {
        return Err(BackendError::Unsupported { reason: String::from_str("big-endian X11 servers are not supported") });
    }
    let mut i: usize = 0;
    while i < formats.len()
        invariant
            lsb_first,
            i <= formats@.len(),
            forall|j: int| 0 <= j < i ==> #[trigger] formats@[j].0 != depth,
        decreases formats@.len() - i,
    {
        if formats[i].0 == depth {
            proof {
                lemma_first_bpp(formats@, depth, i as int);
            }
            let bpp = formats[i].1;
            if bpp != 32 {
                let mut m = String::from_str("unsupported X11 bits-per-pixel ");
                let d = decimal_string(bpp as u64);
                m.append(d.as_str());
                return Err(BackendError::Unsupported { reason: m });
            }
            return Ok(());
        }
        i += 1;
    }
    proof {
        lemma_first_bpp(formats@, depth, i as int);
    }
    let mut m = String::from_str("X11 root has no pixmap format for depth ");
    let d = decimal_string(depth as u64);
    m.append(d.as_str());
    Err(BackendError::Unsupported { reason: m })
}

/// The RGBA pixels of a `width` by `height` X11 image from its BGRX data:
/// alpha comes from the data at depth 32 and is opaque otherwise; data
/// shorter than the image is refused.
pub fn x11_rgba(data: &[u8], width: u16, height: u16, depth: u8) -> (r: Result<Vec<u8>, BackendError>)
    requires
        4 * width * height <= usize::MAX,
    ensures
        data@.len() < 4 * width * height ==> (r matches Err(BackendError::Failed(m)) && m@
            == "truncated X11 image: got "@ + decimal(data@.len()) + ", need "@ + decimal((4 * width * height) as nat)),
        data@.len() >= 4 * width * height ==> (r matches Ok(v) && v@ == bgra_to_rgba(
            data@.take(4 * width * height),
            depth != 32,
        )),
{
    let w = width as usize;
    let h = height as usize;
    assert(4 * (w * h) <= usize::MAX) by (nonlinear_arith)
        requires w == width, h == height, 4 * width * height <= usize::MAX;
    let need = 4 * (w * h);
    assert(need == 4 * width * height) by (nonlinear_arith)
        requires w == width, h == height, need == 4 * (w * h);
    if data.len() < need {
        let mut m = String::from_str("truncated X11 image: got ");
        let got = decimal_string(data.len() as u64);
        m.append(got.as_str());
        m.append(", need ");
        let n = decimal_string(need as u64);
        m.append(n.as_str());
        return Err(BackendError::Failed(m));
    }
    let format: u32 = if depth == 32 { 5 } else { 4 };
    let mut out: Vec<u8> = Vec::new();
    convert_row_exec(data, 0, need, format, &mut out);
    assert(out@ =~= bgra_to_rgba(data@.take(need as int), depth != 32)) by {
        assert(data@.subrange(0, need as int) =~= data@.take(need as int));
        assert(Seq::<u8>::empty() + convert_row(data@.subrange(0, need as int), format) =~= convert_row(
            data@.subrange(0, need as int),
            format,
        ));
    }
    Ok(out)
}

/// A `width` by `height` X11 image decoded from its reply data into a
/// frame of the pixels `x11_rgba` reads.
pub fn x11_image(data: &[u8], width: u16, height: u16, depth: u8) -> (r: Result<RgbaFrame, BackendError>)
    requires
        4 * width * height <= usize::MAX,
    ensures
        data@.len() >= 4 * width * height ==> (r matches Ok(f) && f.width == width && f.height == height
            && f.pixels@ == bgra_to_rgba(data@.take(4 * width * height), depth != 32)
            && f.pixels@.len() == 4 * width * height),
        data@.len() < 4 * width * height ==> (r matches Err(BackendError::Failed(m)) && m@
            == "truncated X11 image: got "@ + decimal(data@.len()) + ", need "@ + decimal((4 * width * height) as nat)),
{
    let px = match x11_rgba(data, width, height, depth) {
        Ok(px) => px,
        Err(e) => return Err(e),
    };
    proof {
        let k = width * height;
        assert(4 * width * height == k * 4) by (nonlinear_arith)
            requires k == width * height;
        vstd::arithmetic::div_mod::lemma_mod_multiples_basic(k, 4);
        lemma_bgra_len(data@.take(4 * width * height), depth != 32);
    }
    Ok(RgbaFrame { width: width as u32, height: height as u32, pixels: px })
}

/// Whether a crop lies on the X11 root: a non-empty area starting at
/// non-negative coordinates and ending within the root's size.
pub open spec fn crop_fits(area: Bbox, root_width: u16, root_height: u16) -> bool {
    &&& area.x >= 0
    &&& area.y >= 0
    &&& area.w > 0
    &&& area.h > 0
    &&& area.x + area.w <= root_width
    &&& area.y + area.h <= root_height
}

/// An X11 capture of an area is refused unless the area lies on the root.
pub fn check_crop(area: Bbox, root_width: u16, root_height: u16) -> (r: Result<(), ToolError>)
    ensures
        crop_fits(area, root_width, root_height) ==> r is Ok,
        !crop_fits(area, root_width, root_height) ==> (r matches Err(e) && e.code@ == "invalid_geometry"@
            && e.message@ == "Crop is outside the X11 root"@ && !e.retryable),
{
    if area.x < 0 || area.y < 0 || area.w == 0 || area.h == 0 || area.x as u64 + area.w as u64 > root_width as u64
        || area.y as u64 + area.h as u64 > root_height as u64 {
        Err(fail("invalid_geometry", "Crop is outside the X11 root"))
    } else {
        Ok(())
    }
}

/// The PNG encoding of a `width` by `height` frame of RGBA pixels, or the
/// encoder's error text.
pub uninterp spec fn png_of(width: u32, height: u32, pixels: Seq<u8>) -> Result<Seq<u8>, Seq<char>>;

/// `image::write_buffer_with_format` with `ExtendedColorType::Rgba8` and
/// `ImageFormat::Png`, into an in-memory buffer; its error as text. The
/// encoder requires exactly four bytes per pixel (it panics otherwise), which
/// `requires` asks for.
#[verifier::external_body]
fn png_encode(width: u32, height: u32, pixels: &[u8]) -> (r: Result<Vec<u8>, String>)
    requires
        pixels@.len() == 4 * width * height,
    ensures
        match png_of(width, height, pixels@) {
            Ok(b) => r matches Ok(v) && v@ == b,
            Err(m) => r matches Err(s) && s@ == m,
        },
{
    let mut out = std::io::Cursor::new(Vec::new());
    match image::write_buffer_with_format(
        &mut out,
        pixels,
        width,
        height,
        image::ExtendedColorType::Rgba8,
        image::ImageFormat::Png,
    ) {
        Ok(()) => Ok(out.into_inner()),
        Err(error) => Err(error.to_string()),
    }
}

/// The screenshot an encoding gives: the PNG bytes, with the size that its
/// coordinates span, or the encoder's failure.
pub fn png_shot(encoded: Result<Vec<u8>, String>, coord_w: u32, coord_h: u32) -> (r: Result<Shot, BackendError>)
    ensures
        match encoded {
            Ok(b) => r matches Ok(s) && s.bytes@ == b@ && s.format == ShotFormat::Png && s.coord_w == coord_w
                && s.coord_h == coord_h,
            Err(m) => r matches Err(BackendError::ExternalCommandFailed { stderr }) && stderr@ == "png encode: "@
                + m@,
        },
{
    match encoded {
        Ok(bytes) => Ok(Shot { bytes, format: ShotFormat::Png, coord_w, coord_h }),
        Err(m) => {
            let mut stderr = String::from_str("png encode: ");
            stderr.append(m.as_str());
            Err(BackendError::ExternalCommandFailed { stderr })
        },
    }
}

/// A frame encoded as a PNG screenshot whose coordinates span `coord_w` by
/// `coord_h` (the size before any downscaling).
pub fn encode_shot(frame: &RgbaFrame, coord_w: u32, coord_h: u32) -> (r: Result<Shot, BackendError>)
    requires
        frame.pixels@.len() == 4 * frame.width * frame.height,
    ensures
        match png_of(frame.width, frame.height, frame.pixels@) {
            Ok(b) => r matches Ok(s) && s.bytes@ == b && s.format == ShotFormat::Png && s.coord_w == coord_w
                && s.coord_h == coord_h,
            Err(m) => r matches Err(BackendError::ExternalCommandFailed { stderr }) && stderr@ == "png encode: "@
                + m,
        },
{
    let encoded = png_encode(frame.width, frame.height, frame.pixels.as_slice());
    png_shot(encoded, coord_w, coord_h)
}

} // verus!
