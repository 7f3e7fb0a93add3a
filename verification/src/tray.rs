//! The picture of the tray icon.
use vstd::prelude::*;

verus! {

/// A decoded picture: its rows from top to bottom, without gaps.
#[derive(Debug)]
pub struct Picture {
    pub width: u32,
    pub height: u32,
    pub data: Vec<u8>,
}

/// An icon as the tray takes it: four bytes for each pixel, alpha first.
#[derive(Debug)]
pub struct Icon {
    pub width: i32,
    pub height: i32,
    pub data: Vec<u8>,
}

/// The width, the height and the bytes of the first frame that the `png` crate decodes from a
/// file, `None` where it reports an error, on a machine where sizes go up to the given number: a
/// picture that would not fit is an error too.
pub uninterp spec fn png_frame(file: Seq<u8>, largest_size: nat) -> Option<(u32, u32, Seq<u8>)>;

/// `png::Decoder::read_info`, then `Reader::output_buffer_size` and `Reader::next_frame`, without
/// transformations: the first frame, as it is stored. Its result is named, not described. Memory
/// for the picture is asked for first, as much as the file says that it takes.
#[verifier::external_body]
fn decode_png(file: &[u8]) -> (r: Option<Picture>)
    ensures
        match r {
            Some(p) => png_frame(file@, usize::MAX as nat) == Some((p.width, p.height, p.data@)),
            None => png_frame(file@, usize::MAX as nat) is None,
        },
{
    let mut reader = png::Decoder::new(std::io::Cursor::new(file)).read_info().ok()?;
    let mut data = vec![0u8; reader.output_buffer_size()?];
    let info = reader.next_frame(&mut data).ok()?;
    data.truncate(info.buffer_size());
    Some(Picture { width: info.width, height: info.height, data })
}

/// Pixels of red, green, blue and alpha with alpha moved to the front; bytes that make no whole
/// pixel are dropped.
pub open spec fn argb(rgba: Seq<u8>) -> Seq<u8> {
    Seq::new(
        (rgba.len() / 4 * 4) as nat,
        |i: int|
            if i % 4 == 0 {
                rgba[i + 3]
            } else {
                rgba[i - 1]
            },
    )
}

/// The icon that shows a picture.
pub fn to_argb32(picture: &Picture) -> (r: Icon)
    ensures
        r.width == picture.width as i32,
        r.height == picture.height as i32,
        r.data@ == argb(picture.data@),
{
    let rgba = &picture.data;
    let len: usize = rgba.len();
    let n: usize = len / 4;
    let mut data: Vec<u8> = Vec::new();
    let mut k: usize = 0;
    while k < n
        invariant
            k <= n,
            len == rgba@.len(),
            n == len / 4,
            data@ == argb(rgba@).take(4 * k),
        decreases n - k,
    {
        data.push(rgba[4 * k + 3]);
        data.push(rgba[4 * k]);
        data.push(rgba[4 * k + 1]);
        data.push(rgba[4 * k + 2]);
        k += 1;
        assert(data@ == argb(rgba@).take(4 * k));
    }
    assert(data@ == argb(rgba@));
    Icon { width: picture.width as i32, height: picture.height as i32, data }
}

/// The icon in a PNG file, if the file can be decoded.
pub fn decode_png_to_argb32(file: &[u8]) -> (r: Option<Icon>)
    ensures
        match (r, png_frame(file@, usize::MAX as nat)) {
            (Some(icon), Some(frame)) => icon.width == frame.0 as i32 && icon.height
                == frame.1 as i32 && icon.data@ == argb(frame.2),
            (None, None) => true,
            _ => false,
        },
{
    match decode_png(file) {
        Some(picture) => Some(to_argb32(&picture)),
        None => None,
    }
}

/// Every pixel keeps its four bytes, and the icon has as many bytes as the picture has in whole
/// pixels.
pub proof fn pixels_keep_their_bytes(rgba: Seq<u8>, k: int)
    requires
        0 <= k < rgba.len() / 4,
    ensures
        argb(rgba).len() == rgba.len() / 4 * 4,
        argb(rgba)[4 * k] == rgba[4 * k + 3],
        argb(rgba)[4 * k + 1] == rgba[4 * k],
        argb(rgba)[4 * k + 2] == rgba[4 * k + 1],
        argb(rgba)[4 * k + 3] == rgba[4 * k + 2],
{
}

} // verus!
