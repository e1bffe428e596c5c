//! The integer-valued vocabulary of the scene tree: node paths, the
//! [`Node`] update protocol, and the font check behind text shapes.

use vstd::prelude::*;

verus! {

/// The standard I/O error, carried opaquely by [`TextError::Io`].
#[verifier::external_type_specification]
#[verifier::external_body]
pub struct ExIoError(std::io::Error);

/// A node in a scene tree.
///
/// Every node knows how to update itself and walk its own children, so a
/// whole tree updates with a single call to [`Node::visit`]: the visit runs
/// on every node in post-order (children before their parent), and each
/// node's [`Node::process`] runs once per visit.
pub trait Node {
    /// Per-frame update for this node, called once per [`Node::visit`],
    /// after the node's children have been visited. The default does
    /// nothing.
    fn process(&mut self) {
    }

    /// Visits this node and all of its descendants in post-order: each
    /// child's [`Node::visit`] runs before [`Node::process`] on this node,
    /// so a node's `process` sees its children already updated.
    fn visit(&mut self);
}

/// The position of a node within a scene: the group that contains the
/// node (the base group, which is the scene's root subtree, or one of the
/// scene's explicit layers) and the child-index path from that group's
/// root down to the node.
#[derive(Clone, Debug)]
pub struct NodePath {
    /// The group the node lives in: `None` for the base group (the scene's
    /// root subtree), `Some(i)` for the `i`th layer of the scene.
    pub group: Option<usize>,
    /// Child indices from the group's root down to the node: the first is
    /// the root's child, the second that child's child, and so on. An empty
    /// path names the group's root itself.
    pub children: Vec<usize>,
}

/// An error while creating a text shape from a font file.
#[derive(Debug)]
pub enum TextError {
    /// The file could not be read.
    Io(std::io::Error),
    /// The file was read but is not a TrueType/OpenType font.
    InvalidFont,
}

impl TextError {
    /// The error's human-readable description, as its `Display` text: a
    /// fixed sentence for an invalid font, and for a read failure a fixed
    /// lead-in followed by the I/O error's own `Display` text.
    pub fn message(&self) -> (text: String)
        ensures
            self is InvalidFont ==> text@ == "the font file is not a TrueType/OpenType font"@,
            self matches TextError::Io(e) ==> exists|d: String|
                vstd::string::to_string_from_display_ensures::<std::io::Error>(&e, d) && text@
                    == "failed to read the font file: "@ + d@,
    {
        match self {
            TextError::Io(err) => {
                let mut text = "failed to read the font file: ".to_string();
                proof {
                    reveal_strlit("failed to read the font file: ");
                }
                let detail = err.to_string();
                text.append(detail.as_str());
                text
            },
            TextError::InvalidFont => {
                proof {
                    reveal_strlit("the font file is not a TrueType/OpenType font");
                }
                "the font file is not a TrueType/OpenType font".to_string()
            },
        }
    }
}

/// The big-endian `u32` at byte `offset` of `data`, or `None` when fewer
/// than four bytes start there.
pub open spec fn be_u32_at(data: Seq<u8>, offset: int) -> Option<u32> {
    if 0 <= offset && offset + 4 <= data.len() {
        Some(
            (data[offset] as int * 0x100_0000 + data[offset + 1] as int * 0x1_0000 + data[offset
                + 2] as int * 0x100 + data[offset + 3] as int) as u32,
        )
    } else {
        None
    }
}

/// Whether a font's table directory starts at byte `offset` of `data`: its
/// first four bytes are the TrueType version 0x00010000, `OTTO` (CFF
/// outlines) or `true` (Apple TrueType).
pub open spec fn font_tag_at(data: Seq<u8>, offset: int) -> bool {
    match be_u32_at(data, offset) {
        Some(tag) => tag == 0x0001_0000 || tag == 0x4F54_544F || tag == 0x7472_7565,
        None => false,
    }
}

/// Whether `font` holds a font the parser opens at index 0: a single font
/// whose table directory starts at byte 0, or a `ttcf` collection that
/// counts at least one font and whose first offset (at byte 12) points at
/// a font's table directory.
pub open spec fn parses_as_font(font: Seq<u8>) -> bool {
    if font_tag_at(font, 0) {
        true
    } else if be_u32_at(font, 0) == Some(0x7474_6366u32) {
        match (be_u32_at(font, 8), be_u32_at(font, 12)) {
            (Some(count), Some(first)) => count > 0 && font_tag_at(font, first as int),
            _ => false,
        }
    } else {
        false
    }
}

/// Whether the font parser accepts `font`: `swash::FontRef::from_index`
/// with index 0 returns a font. Its source checks only the header tags
/// that [`parses_as_font`] states, never panics, and reads nothing but the
/// bytes.
#[verifier::external_body]
fn font_parses(font: &[u8]) -> (ok: bool)
    ensures
        ok == parses_as_font(font@),
{
    swash::FontRef::from_index(font, 0).is_some()
}

/// The outcome of the font check from the parser's answer: `Ok` for a
/// usable font, [`TextError::InvalidFont`] otherwise.
pub fn font_check_outcome(parses: bool) -> (r: Result<(), TextError>)
    ensures
        r is Ok <==> parses,
        r matches Err(e) ==> e is InvalidFont,
{
    if parses {
        Ok(())
    } else {
        Err(TextError::InvalidFont)
    }
}

/// Checks that `font` holds a TrueType/OpenType font, as text shapes and
/// the diagnostics overlay do before keeping the bytes: `Ok` when the
/// parser accepts the bytes, [`TextError::InvalidFont`] when it does not.
pub fn check_font(font: &[u8]) -> (r: Result<(), TextError>)
    ensures
        r is Ok <==> parses_as_font(font@),
        r matches Err(e) ==> e is InvalidFont,
{
    font_check_outcome(font_parses(font))
}

/// The decoded image of the image crate, carried opaquely from the decode
/// to the RGBA8 conversion.
#[verifier::external_type_specification]
#[verifier::external_body]
pub struct ExDynamicImage(image::DynamicImage);

/// The image crate's decoding error, carried opaquely by
/// [`SpriteError::Decode`].
#[verifier::external_type_specification]
#[verifier::external_body]
pub struct ExImageError(image::ImageError);

/// An error while creating a sprite from a PNG file.
#[derive(Debug)]
pub enum SpriteError {
    /// The file could not be read.
    Io(std::io::Error),
    /// The file was read but is not a decodable image.
    Decode(image::ImageError),
}

impl SpriteError {
    /// The error's human-readable description, as its `Display` text: a
    /// fixed lead-in naming the failing stage, then the underlying error's
    /// own text.
    pub fn message(&self) -> (text: String)
        ensures
            self matches SpriteError::Io(e) ==> exists|d: String|
                vstd::string::to_string_from_display_ensures::<std::io::Error>(&e, d) && text@
                    == "failed to read the sprite file: "@ + d@,
            self matches SpriteError::Decode(e) ==> exists|d: String|
                vstd::string::to_string_from_display_ensures::<image::ImageError>(&e, d) && text@
                    == "failed to decode the sprite as a PNG image: "@ + d@,
    {
        match self {
            SpriteError::Io(err) => {
                let mut text = "failed to read the sprite file: ".to_string();
                proof {
                    reveal_strlit("failed to read the sprite file: ");
                }
                let detail = err.to_string();
                text.append(detail.as_str());
                text
            },
            SpriteError::Decode(err) => {
                let mut text = "failed to decode the sprite as a PNG image: ".to_string();
                proof {
                    reveal_strlit("failed to decode the sprite as a PNG image: ");
                }
                let detail = err.to_string();
                text.append(detail.as_str());
                text
            },
        }
    }
}

/// The RGBA8 pixels of a sprite image, row by row, top row first.
pub struct SpritePixels {
    /// The RGBA8 pixel data, at least `width * height * 4` bytes.
    pub data: Vec<u8>,
    /// The image width in pixels.
    pub width: u32,
    /// The image height in pixels.
    pub height: u32,
}

impl SpritePixels {
    /// The buffer holds every pixel of the image.
    pub open spec fn wf(&self) -> bool {
        self.data@.len() >= self.width as int * self.height as int * 4
    }
}

/// Decodes `bytes` with `image::load_from_memory`, guessing the format
/// from the data. Whether it succeeds is not stated: it depends on the
/// bytes and also on the format-detection and decoding hooks that any code
/// of the process may have registered with the image crate; nothing is
/// claimed of the decoded image.
#[verifier::external_body]
fn decode_image(bytes: &[u8]) -> Result<image::DynamicImage, image::ImageError> {
    image::load_from_memory(bytes)
}

/// Converts a decoded image to RGBA8 with `DynamicImage::to_rgba8` and
/// hands out its size and its raw buffer (`ImageBuffer::dimensions` and
/// `ImageBuffer::into_raw`). Claims only what every image buffer holds: a
/// raw buffer of at least `width * height` four-byte pixels (a buffer may
/// carry more bytes than its pixels need).
#[verifier::external_body]
fn rgba8_pixels(decoded: &image::DynamicImage) -> (pixels: (u32, u32, Vec<u8>))
    ensures
        pixels.2@.len() >= pixels.0 as int * pixels.1 as int * 4,
{
    let rgba = decoded.to_rgba8();
    let (width, height) = rgba.dimensions();
    (width, height, rgba.into_raw())
}

/// The sprite of a decoder outcome given as plain values: for a decoded
/// image, its width, height and RGBA8 bytes as they are; for a decoder
/// error, [`SpriteError::Decode`] carrying it.
pub fn sprite_from_decoded(decoded: Result<(u32, u32, Vec<u8>), image::ImageError>) -> (r: Result<
    SpritePixels,
    SpriteError,
>)
    ensures
        r is Ok <==> decoded is Ok,
        decoded matches Ok(t) ==> (r matches Ok(p) && p.width == t.0 && p.height == t.1 && p.data@
            == t.2@),
        decoded matches Err(e) ==> (r matches Err(f) && f == SpriteError::Decode(e)),
{
    match decoded {
        Ok((width, height, data)) => Ok(SpritePixels { data, width, height }),
        Err(err) => Err(SpriteError::Decode(err)),
    }
}

/// Decodes an image file's bytes (PNG, for sprites) to RGBA8 pixels up
/// front, so a non-image buffer fails here, not at render time. Whether
/// the decoder accepts the bytes is its own decision (see
/// [`decode_image`]); a decoded image comes out as [`sprite_from_decoded`]
/// states, with a buffer holding every pixel.
pub fn decode_sprite(bytes: &[u8]) -> (r: Result<SpritePixels, SpriteError>)
    ensures
        r matches Ok(p) ==> p.wf(),
        r matches Err(e) ==> e is Decode,
{
    let decoded = match decode_image(bytes) {
        Ok(image) => Ok(rgba8_pixels(&image)),
        Err(err) => Err(err),
    };
    sprite_from_decoded(decoded)
}

/// Where the overlay puts its text node among the scene root's
/// `child_count` children: at the index it `remembered` while that index
/// still names a child, else at a new child appended at the end. Returns
/// the index and whether a child must be appended.
pub open spec fn overlay_slot(remembered: Option<usize>, child_count: usize) -> (usize, bool) {
    match remembered {
        Some(index) => if index < child_count {
            (index, false)
        } else {
            (child_count, true)
        },
        None => (child_count, true),
    }
}

/// The index of the overlay's text node among the scene root's
/// `child_count` children, and whether a child must be appended for it, as
/// [`overlay_slot`] states: the index is always a child's once an appended
/// child is in place.
pub fn overlay_node_index(remembered: Option<usize>, child_count: usize) -> (slot: (usize, bool))
    ensures
        slot == overlay_slot(remembered, child_count),
        slot.0 < child_count + if slot.1 { 1int } else { 0int },
        remembered matches Some(index) ==> (index < child_count ==> slot == (index, false)),
        slot.1 <==> (remembered is None || remembered->0 >= child_count),
        slot.1 ==> slot.0 == child_count,
{
    match remembered {
        Some(index) => if index < child_count {
            (index, false)
        } else {
            (child_count, true)
        },
        None => (child_count, true),
    }
}

/// The overlay keeps its node while it exists: a remembered index that
/// still names one of the root's children is reused in place, whichever
/// child it is (the last one included); a child is appended exactly when
/// nothing is remembered or the remembered index names no child any more,
/// and the appended child is the new last one.
pub proof fn lemma_overlay_keeps_its_node(remembered: Option<usize>, child_count: usize)
    ensures
        remembered matches Some(index) ==> (index < child_count ==> overlay_slot(remembered, child_count)
            == (index, false)),
        overlay_slot(remembered, child_count).1 <==> (remembered is None || remembered->0 >= child_count),
        overlay_slot(remembered, child_count).1 ==> overlay_slot(remembered, child_count).0 == child_count,
{
}

} // verus!
