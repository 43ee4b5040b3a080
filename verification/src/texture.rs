//! Textures: square pictures of 64 by 64 texels.

use crate::color::Color;
use vstd::prelude::*;

verus! {

/// The width and the height of every texture, in texels. A power of two, so
/// that a texel coordinate wraps by a bit mask.
pub const TEXTURE_SIZE: usize = 64;

/// The length of a texture in bytes: three for each texel.
pub const TEXTURE_BYTES: usize = 12288;

/// A texture in rows from the top, each texel as red, green, blue.
pub struct Texture {
    pub pixels: Vec<u8>,
}

/// Why a file gave no texture.
#[derive(Debug)]
pub enum TextureError {
    /// The decoder refused the file; this is its report.
    Decode(String),
    /// The picture in the file takes this many bytes, which is not `TEXTURE_BYTES`.
    Size(usize),
}

/// The number of bytes that the first frame of a PNG file with these bytes
/// takes once decoded, or `None` where the decoder refuses the file's header.
pub uninterp spec fn png_frame_size(file: Seq<u8>) -> Option<usize>;

/// The content of a buffer of `size` bytes after the PNG decoder has written the
/// first frame of a file with these bytes into it, or `None` where the decoder
/// reports an error.
pub uninterp spec fn png_pixels(file: Seq<u8>, size: usize) -> Option<Seq<u8>>;

/// Reads the header of a PNG file with `png::Decoder::new` and
/// `Decoder::read_info`, and returns what `OutputInfo::buffer_size` gives: the
/// number of bytes of the decoded frame. Nothing is proved of it. The contract
/// only names the outcome: the decoder reads nothing but the bytes of the
/// file, so the same file always gives the same size or always fails. An error
/// comes back as the decoder's report, formatted for debugging.
#[verifier::external_body]
fn read_frame_size(file: &[u8]) -> (r: Result<usize, String>)
    ensures
        match r {
            Ok(size) => png_frame_size(file@) == Some(size),
            Err(_) => png_frame_size(file@).is_none(),
        },
{
    let (info, _) = png::Decoder::new(file).read_info().map_err(|e| format!("{:?}", e))?;
    Ok(info.buffer_size())
}

/// Decodes the first frame of a PNG file with `png::Decoder::new`,
/// `Decoder::read_info` and `Reader::next_frame` into a new buffer of `size`
/// bytes. Nothing is proved of it. The contract names the outcome, which
/// depends on the file and the size alone, and says that the buffer has the
/// size asked for. An error, also that of a buffer too small for the frame,
/// comes back as the decoder's report, formatted for debugging.
#[verifier::external_body]
fn decode_png(file: &[u8], size: usize) -> (r: Result<Vec<u8>, String>)
    ensures
        match r {
            Ok(pixels) => png_pixels(file@, size) == Some(pixels@) && pixels@.len() == size,
            Err(_) => png_pixels(file@, size).is_none(),
        },
{
    let (_, mut reader) = png::Decoder::new(file).read_info().map_err(|e| format!("{:?}", e))?;
    let mut buf = vec![0; size];
    reader.next_frame(&mut buf).map_err(|e| format!("{:?}", e))?;
    Ok(buf)
}

/// Whether a decoded picture of `size` bytes can be a texture: only one of
/// `TEXTURE_BYTES` bytes can.
pub fn check_size(size: usize) -> (r: Result<(), TextureError>)
    ensures
        match r {
            Ok(_) => size == TEXTURE_BYTES,
            Err(TextureError::Size(n)) => n == size && size != TEXTURE_BYTES,
            Err(TextureError::Decode(_)) => false,
        },
{
    if size == TEXTURE_BYTES {
        Ok(())
    } else {
        Err(TextureError::Size(size))
    }
}

/// Decodes a PNG file into the pixels of a texture. The size of the picture
/// is read from the file's header and checked before anything is decoded, so
/// that no file can ask for more than the bytes of a texture. Fails where the
/// decoder does, and where the picture does not have the size of a texture in
/// three channels.
pub fn load_png(texture: &[u8]) -> (r: Result<Vec<u8>, TextureError>)
    ensures
        match r {
            Ok(pixels) => {
                &&& png_frame_size(texture@) == Some(TEXTURE_BYTES)
                &&& png_pixels(texture@, TEXTURE_BYTES) == Some(pixels@)
                &&& pixels@.len() == TEXTURE_BYTES
            },
            Err(TextureError::Size(n)) => png_frame_size(texture@) == Some(n) && n
                != TEXTURE_BYTES,
            Err(TextureError::Decode(_)) => png_frame_size(texture@).is_none() || (png_frame_size(
                texture@,
            ) == Some(TEXTURE_BYTES) && png_pixels(texture@, TEXTURE_BYTES).is_none()),
        },
{
    let size: usize = match read_frame_size(texture) {
        Ok(size) => size,
        Err(report) => {
            return Err(TextureError::Decode(report));
        },
    };
    match check_size(size) {
        Ok(_) => {},
        Err(e) => {
            return Err(e);
        },
    }
    match decode_png(texture, TEXTURE_BYTES) {
        Ok(pixels) => Ok(pixels),
        Err(report) => Err(TextureError::Decode(report)),
    }
}

impl Texture {
    /// The invariant of a texture: it has all its bytes.
    pub open spec fn wf(&self) -> bool {
        self.pixels@.len() == TEXTURE_BYTES
    }

    /// The color of the texel in column `tx` of row `ty`.
    pub open spec fn texel(&self, tx: int, ty: int) -> Color
        recommends
            0 <= tx < TEXTURE_SIZE,
            0 <= ty < TEXTURE_SIZE,
    {
        Color {
            r: self.pixels@[(TEXTURE_SIZE * ty + tx) * 3],
            g: self.pixels@[(TEXTURE_SIZE * ty + tx) * 3 + 1],
            b: self.pixels@[(TEXTURE_SIZE * ty + tx) * 3 + 2],
        }
    }

    /// Whether the invariant holds.
    pub fn is_wf(&self) -> (r: bool)
        ensures
            r == self.wf(),
    {
        self.pixels.len() == TEXTURE_BYTES
    }

    /// Takes decoded pixels as a texture; `None` unless there are exactly
    /// `TEXTURE_BYTES` of them.
    pub fn from_rgb(pixels: Vec<u8>) -> (r: Option<Texture>)
        ensures
            r.is_some() == (pixels@.len() == TEXTURE_BYTES),
            r matches Some(t) ==> t.pixels == pixels && t.wf(),
    {
        if pixels.len() == TEXTURE_BYTES {
            Some(Texture { pixels })
        } else {
            None
        }
    }

    /// Decodes a PNG file into a texture. Fails where `load_png` does.
    pub fn from_png(file: &[u8]) -> (r: Result<Texture, TextureError>)
        ensures
            match r {
                Ok(t) => {
                    &&& t.wf()
                    &&& png_frame_size(file@) == Some(TEXTURE_BYTES)
                    &&& png_pixels(file@, TEXTURE_BYTES) == Some(t.pixels@)
                },
                Err(TextureError::Size(n)) => png_frame_size(file@) == Some(n) && n
                    != TEXTURE_BYTES,
                Err(TextureError::Decode(_)) => png_frame_size(file@).is_none() || (
                png_frame_size(file@) == Some(TEXTURE_BYTES) && png_pixels(
                    file@,
                    TEXTURE_BYTES,
                ).is_none()),
            },
    {
        match load_png(file) {
            Ok(pixels) => Ok(Texture { pixels }),
            Err(e) => Err(e),
        }
    }

    /// The color of the texel in column `tx` of row `ty`.
    pub fn sample(&self, tx: usize, ty: usize) -> (c: Color)
        requires
            self.wf(),
            tx < TEXTURE_SIZE,
            ty < TEXTURE_SIZE,
        ensures
            c == self.texel(tx as int, ty as int),
    {
        let at: usize = (TEXTURE_SIZE * ty + tx) * 3;
        Color { r: self.pixels[at], g: self.pixels[at + 1], b: self.pixels[at + 2] }
    }
}

} // verus!
