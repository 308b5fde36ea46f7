use vstd::prelude::*;

verus! {

/// The error that `image` reports when bytes do not decode as an image.
#[verifier::external_type_specification]
#[verifier::external_body]
pub struct ExImageError(image::ImageError);

/// What decoding `bytes` as an image gives: its width, its height and its
/// pixels as RGBA bytes, row by row; `None` where the bytes do not decode.
pub uninterp spec fn decoded_rgba(bytes: Seq<u8>) -> Option<(u32, u32, Seq<u8>)>;

/// Calls `image::load_from_memory`, which guesses the format from the
/// bytes and decodes them, and converts the image to RGBA. The result is
/// named `decoded_rgba` of the bytes; what it is is not spelled out.
#[verifier::external_body]
fn decode_rgba(bytes: &[u8]) -> (r: Result<(u32, u32, Vec<u8>), image::ImageError>)
    ensures
        match r {
            Ok(t) => decoded_rgba(bytes@) == Some((t.0, t.1, t.2@)),
            Err(_) => decoded_rgba(bytes@) is None,
        },
{
    match image::load_from_memory(bytes) {
        Ok(img) => {
            let rgba = img.to_rgba8();
            Ok((rgba.width(), rgba.height(), rgba.into_raw()))
        },
        Err(e) => Err(e),
    }
}

/// A decoded image: its size and its pixels as RGBA bytes, row by row.
pub struct DecodedImage {
    pub width: u32,
    pub height: u32,
    pub rgba: Vec<u8>,
}

impl DecodedImage {
    /// Whether this is the decoding of `bytes`.
    pub open spec fn decodes(&self, bytes: Seq<u8>) -> bool {
        decoded_rgba(bytes) == Some((self.width, self.height, self.rgba@))
    }
}

/// A sprite sheet's image and, if it has one that decodes, its normal map.
pub struct DecodedSheet {
    pub texture: DecodedImage,
    pub normal: Option<DecodedImage>,
}

/// Why a sprite sheet's image could not be loaded.
pub enum TextureError {
    /// The image bytes do not decode.
    Decode(image::ImageError),
}

/// Whether a sheet whose image is `texture_bytes` and whose normal map is
/// `normal_bytes` can be decoded without a mismatch: where both decode,
/// they have the same width and height.
pub open spec fn sizes_agree(texture_bytes: Seq<u8>, normal_bytes: Option<Seq<u8>>) -> bool {
    match (decoded_rgba(texture_bytes), normal_bytes) {
        (Some(t), Some(n)) => match decoded_rgba(n) {
            Some(m) => t.0 == m.0 && t.1 == m.1,
            None => true,
        },
        _ => true,
    }
}

/// The bytes of an optional normal map, as a sequence.
pub open spec fn optional_bytes(bytes: Option<&[u8]>) -> Option<Seq<u8>> {
    match bytes {
        Some(b) => Some(b@),
        None => None,
    }
}

/// Whether `r` is what decoding a sheet with image `texture_bytes` and
/// normal map `normal_bytes` gives: an error exactly when the image does
/// not decode; otherwise the decoded image, and the decoded normal map where
/// there is one that decodes.
pub open spec fn is_sheet_decoding(
    r: Result<DecodedSheet, TextureError>,
    texture_bytes: Seq<u8>,
    normal_bytes: Option<Seq<u8>>,
) -> bool {
    &&& (r is Err <==> decoded_rgba(texture_bytes) is None)
    &&& r matches Ok(sheet) ==> {
        &&& sheet.texture.decodes(texture_bytes)
        &&& match normal_bytes {
            None => sheet.normal is None,
            Some(n) => match sheet.normal {
                Some(m) => m.decodes(n),
                None => decoded_rgba(n) is None,
            },
        }
    }
}

/// Decodes a sprite sheet's image and normal map. An image that does not
/// decode is an error; a normal map that does not decode is left out. A
/// normal map that decodes must have the image's size.
pub fn decode_sheet(texture_bytes: &[u8], normal_bytes: Option<&[u8]>) -> (r: Result<
    DecodedSheet,
    TextureError,
>)
    requires
        sizes_agree(texture_bytes@, optional_bytes(normal_bytes)),
    ensures
        is_sheet_decoding(r, texture_bytes@, optional_bytes(normal_bytes)),
{
    let texture = match decode_rgba(texture_bytes) {
        Ok(t) => DecodedImage { width: t.0, height: t.1, rgba: t.2 },
        Err(e) => {
            return Err(TextureError::Decode(e));
        },
    };
    let normal = match normal_bytes {
        None => None,
        Some(n) => match decode_rgba(n) {
            Ok(t) => Some(DecodedImage { width: t.0, height: t.1, rgba: t.2 }),
            Err(_) => None,
        },
    };
    Ok(DecodedSheet { texture, normal })
}

/// Decodes a sprite sheet as `decode_sheet` does where the image and a
/// normal map that both decode have the same size; `None` where they do not.
pub fn try_decode_sheet(texture_bytes: &[u8], normal_bytes: Option<&[u8]>) -> (r: Option<
    Result<DecodedSheet, TextureError>,
>)
    ensures
        r is None <==> !sizes_agree(texture_bytes@, optional_bytes(normal_bytes)),
        r matches Some(d) ==> is_sheet_decoding(d, texture_bytes@, optional_bytes(normal_bytes)),
{
    if let (Ok(t), Some(n)) = (decode_rgba(texture_bytes), normal_bytes) {
        if let Ok(m) = decode_rgba(n) {
            if t.0 != m.0 || t.1 != m.1 {
                return None;
            }
        }
    }
    Some(decode_sheet(texture_bytes, normal_bytes))
}

/// Law: where the image and the normal map have the same size, a decoded
/// sheet's normal map has the decoded image's width and height.
pub proof fn lemma_normal_matches_texture(
    r: Result<DecodedSheet, TextureError>,
    texture_bytes: Seq<u8>,
    normal_bytes: Option<Seq<u8>>,
)
    requires
        sizes_agree(texture_bytes, normal_bytes),
        is_sheet_decoding(r, texture_bytes, normal_bytes),
    ensures
        r matches Ok(sheet) ==> (sheet.normal matches Some(m) ==> m.width == sheet.texture.width
            && m.height == sheet.texture.height),
{
}

/// Law: the normal map is decoded just as the image is: a sheet whose normal
/// map has the image's own bytes gets back the image as its normal map.
pub proof fn lemma_same_bytes_same_image(
    r: Result<DecodedSheet, TextureError>,
    texture_bytes: Seq<u8>,
)
    requires
        is_sheet_decoding(r, texture_bytes, Some(texture_bytes)),
    ensures
        r matches Ok(sheet) ==> (sheet.normal matches Some(m) && m.width == sheet.texture.width
            && m.height == sheet.texture.height && m.rgba@ == sheet.texture.rgba@),
{
}

/// Law: a decoded sheet holds what decoding gives, width first, then height,
/// then the pixels: for the image always, and for the normal map where it has
/// one that decodes.
pub proof fn lemma_sheet_holds_decodings(
    r: Result<DecodedSheet, TextureError>,
    texture_bytes: Seq<u8>,
    normal_bytes: Option<Seq<u8>>,
)
    requires
        is_sheet_decoding(r, texture_bytes, normal_bytes),
    ensures
        r matches Ok(sheet) ==> {
            &&& decoded_rgba(texture_bytes) matches Some(t) && t.0 == sheet.texture.width && t.1
                == sheet.texture.height && t.2 == sheet.texture.rgba@
            &&& sheet.normal matches Some(m) ==> (normal_bytes matches Some(n) && decoded_rgba(
                n,
            ) matches Some(d) && d.0 == m.width && d.1 == m.height && d.2 == m.rgba@)
        },
        r is Err <==> decoded_rgba(texture_bytes) is None,
{
}

} // verus!
