use vstd::prelude::*;

verus! {

/// What the image library decodes from the encoded image `encoded`: its width,
/// height, and its pixels as RGBA with eight and with sixteen bits per channel.
pub uninterp spec fn decoded_rgba(encoded: Seq<u8>) -> Option<(u32, u32, Seq<u8>, Seq<u16>)>;

/// The PNG file that the image library encodes from an 8-bit RGBA raster.
pub uninterp spec fn encoded_png(width: u32, height: u32, pixels: Seq<u8>) -> Option<Seq<u8>>;

/// Calls `image::load_from_memory` and converts the image with
/// `DynamicImage::to_rgba8`, `DynamicImage::to_rgba16` and
/// `ImageBuffer::into_raw`. Claimed: the result is a fixed function of the
/// bytes, `None` standing for the library's error, and both rasters hold
/// exactly four channels per pixel (the converted buffers are allocated to the
/// image's size).
#[verifier::external_body]
fn decode_rgba(encoded: &[u8]) -> (r: Option<(u32, u32, Vec<u8>, Vec<u16>)>)
    ensures
        match r {
            Some((w, h, px, wide)) => decoded_rgba(encoded@) == Some((w, h, px@, wide@)),
            None => decoded_rgba(encoded@) is None,
        },
        r matches Some((w, h, px, wide)) ==> px@.len() == 4 * w * h && wide@.len() == 4 * w * h,
{
    image::load_from_memory(encoded).ok().map(|img| {
        let narrow = img.to_rgba8();
        let wide = img.to_rgba16();
        (narrow.width(), narrow.height(), narrow.into_raw(), wide.into_raw())
    })
}

/// Calls `image::ImageBuffer::from_raw` on the raster and writes it as PNG with
/// `DynamicImage::write_to` into a byte vector. The raster must hold exactly
/// four bytes per pixel: the PNG encoder asserts that length. Claimed: the
/// result is a fixed function of the raster, `None` standing for the library's
/// error (such as an image without width or height).
#[verifier::external_body]
fn encode_png(width: u32, height: u32, pixels: Vec<u8>) -> (r: Option<Vec<u8>>)
    requires
        pixels@.len() == 4 * width * height,
    ensures
        match r {
            Some(out) => encoded_png(width, height, pixels@) == Some(out@),
            None => encoded_png(width, height, pixels@) is None,
        },
{
    let raster = image::RgbaImage::from_raw(width, height, pixels)?;
    let mut out: Vec<u8> = Vec::new();
    image::DynamicImage::ImageRgba8(raster).write_to(
        &mut std::io::Cursor::new(&mut out),
        image::ImageFormat::Png,
    ).ok()?;
    Some(out)
}

/// Why an icon could not be tinted.
#[derive(Clone, Copy, Debug, PartialEq, Eq, Structural)]
pub enum TintError {
    /// The image library cannot decode the bytes.
    Undecodable,
    /// The image library cannot encode the tinted raster as PNG.
    Unencodable,
}

/// The byte at `i` of the 8-bit raster `px` after tinting its first
/// `pixel_count` pixels, where `wide` is the same image at sixteen bits per
/// channel: a colour channel of a pixel that is not fully transparent (its
/// alpha at the higher depth is not zero) becomes the matching component of
/// (`red`, `green`, `blue`); every other byte stays.
pub open spec fn tinted_byte(
    px: Seq<u8>,
    wide: Seq<u16>,
    pixel_count: int,
    red: u8,
    green: u8,
    blue: u8,
    i: int,
) -> u8 {
    let channel = i % 4;
    if i < 4 * pixel_count && channel != 3 && wide[i - channel + 3] > 0 {
        if channel == 0 {
            red
        } else if channel == 1 {
            green
        } else {
            blue
        }
    } else {
        px[i]
    }
}

/// `px` with its first `pixel_count` pixels tinted to (`red`, `green`, `blue`).
pub open spec fn tinted_pixels(
    px: Seq<u8>,
    wide: Seq<u16>,
    pixel_count: int,
    red: u8,
    green: u8,
    blue: u8,
) -> Seq<u8> {
    Seq::new(px.len(), |i: int| tinted_byte(px, wide, pixel_count, red, green, blue, i))
}

/// The PNG that tinting the image `encoded` gives, or why there is none.
pub open spec fn tinted_png(encoded: Seq<u8>, red: u8, green: u8, blue: u8) -> Result<
    Seq<u8>,
    TintError,
> {
    match decoded_rgba(encoded) {
        Some((w, h, px, wide)) => match encoded_png(
            w,
            h,
            tinted_pixels(px, wide, w * h, red, green, blue),
        ) {
            Some(out) => Ok(out),
            None => Err(TintError::Unencodable),
        },
        None => Err(TintError::Undecodable),
    }
}

/// Re-colours to (`red`, `green`, `blue`), keeping alpha, every pixel among the
/// first `pixel_count` pixels of the 8-bit RGBA raster `px` that is not fully
/// transparent, judged by its alpha in `wide`, the same image at sixteen bits
/// per channel.
pub fn tint_rgba_pixels(
    px: &mut Vec<u8>,
    wide: &Vec<u16>,
    pixel_count: usize,
    red: u8,
    green: u8,
    blue: u8,
)
    requires
        4 * pixel_count <= old(px)@.len(),
        4 * pixel_count <= wide@.len(),
    ensures
        final(px)@ == tinted_pixels(old(px)@, wide@, pixel_count as int, red, green, blue),
{
    let ghost start = px@;
    let len = px.len();
    let mut p: usize = 0;
    while p < pixel_count
        invariant
            p <= pixel_count,
            4 * pixel_count <= start.len(),
            4 * pixel_count <= wide@.len(),
            start.len() == len,
            px@.len() == start.len(),
            forall|i: int|
                0 <= i < 4 * p ==> #[trigger] px@[i] == tinted_byte(
                    start,
                    wide@,
                    pixel_count as int,
                    red,
                    green,
                    blue,
                    i,
                ),
            forall|i: int| 4 * p <= i < start.len() ==> #[trigger] px@[i] == start[i],
        decreases pixel_count - p,
    {
        let base = 4 * p;
        if wide[base + 3] > 0 {
            px.set(base, red);
            px.set(base + 1, green);
            px.set(base + 2, blue);
        }
        proof {
            assert forall|i: int| base <= i < base + 4 implies #[trigger] px@[i] == tinted_byte(
                start,
                wide@,
                pixel_count as int,
                red,
                green,
                blue,
                i,
            ) by {
                assert(i - i % 4 == base);
            }
        }
        p += 1;
    }
    assert(px@ =~= tinted_pixels(start, wide@, pixel_count as int, red, green, blue));
}

/// Re-colours every pixel of the image `encoded` that is not fully transparent
/// to (`red`, `green`, `blue`), keeping alpha, and encodes the result as an
/// 8-bit RGBA PNG. Where the image library cannot decode the input or encode
/// the result, the error says which; a caller that must have an icon fails there.
pub fn tint_png(encoded: &[u8], red: u8, green: u8, blue: u8) -> (r: Result<Vec<u8>, TintError>)
    ensures
        match r {
            Ok(out) => tinted_png(encoded@, red, green, blue) == Ok::<Seq<u8>, TintError>(out@),
            Err(e) => tinted_png(encoded@, red, green, blue) == Err::<Seq<u8>, TintError>(e),
        },
{
    match decode_rgba(encoded) {
        None => Err(TintError::Undecodable),
        Some((width, height, pixels, wide)) => {
            let mut pixels = pixels;
            let len = pixels.len();
            proof {
                assert(width as int * height as int <= len) by (nonlinear_arith)
                    requires
                        4 * width * height == len,
                ;
            }
            let pixel_count: usize = (width as usize) * (height as usize);
            proof {
                assert(4 * pixel_count == len) by (nonlinear_arith)
                    requires
                        pixel_count == width * height,
                        4 * width * height == len,
                ;
            }
            tint_rgba_pixels(&mut pixels, &wide, pixel_count, red, green, blue);
            match encode_png(width, height, pixels) {
                Some(out) => Ok(out),
                None => Err(TintError::Unencodable),
            }
        },
    }
}

} // verus!

verus! {

proof fn lemma_pixel_channels(p: int)
    requires
        0 <= p,
    ensures
        (4 * p) % 4 == 0,
        (4 * p + 1) % 4 == 1,
        (4 * p + 2) % 4 == 2,
        (4 * p + 3) % 4 == 3,
{
    assert((4 * p) % 4 == 0) by (nonlinear_arith);
    assert((4 * p + 1) % 4 == 1) by (nonlinear_arith);
    assert((4 * p + 2) % 4 == 2) by (nonlinear_arith);
    assert((4 * p + 3) % 4 == 3) by (nonlinear_arith);
}

/// Tinting keeps every alpha byte and every byte past the pixels, paints each
/// pixel that is not fully transparent in the new colour, leaves fully
/// transparent pixels as they were, and tinting twice with one colour is
/// tinting once.
pub proof fn lemma_tint_keeps_alpha(
    px: Seq<u8>,
    wide: Seq<u16>,
    pixel_count: int,
    red: u8,
    green: u8,
    blue: u8,
)
    requires
        0 <= pixel_count,
        4 * pixel_count <= px.len(),
        4 * pixel_count <= wide.len(),
    ensures
        ({
            let t = tinted_pixels(px, wide, pixel_count, red, green, blue);
            &&& t.len() == px.len()
            &&& forall|p: int| 0 <= p < pixel_count ==> #[trigger] t[4 * p + 3] == px[4 * p + 3]
            &&& forall|p: int|
                0 <= p < pixel_count && wide[4 * p + 3] > 0 ==> #[trigger] t[4 * p] == red && t[4
                    * p + 1] == green && t[4 * p + 2] == blue
            &&& forall|p: int|
                0 <= p < pixel_count && wide[4 * p + 3] == 0 ==> #[trigger] t[4 * p] == px[4 * p]
                    && t[4 * p + 1] == px[4 * p + 1] && t[4 * p + 2] == px[4 * p + 2]
            &&& forall|i: int| 4 * pixel_count <= i < px.len() ==> #[trigger] t[i] == px[i]
            &&& tinted_pixels(t, wide, pixel_count, red, green, blue) == t
        }),
{
    let t = tinted_pixels(px, wide, pixel_count, red, green, blue);
    assert forall|p: int| 0 <= p < pixel_count implies #[trigger] t[4 * p + 3] == px[4 * p + 3] by {
        lemma_pixel_channels(p);
    }
    assert forall|p: int| 0 <= p < pixel_count && wide[4 * p + 3] > 0 implies #[trigger] t[4 * p]
        == red && t[4 * p + 1] == green && t[4 * p + 2] == blue by {
        lemma_pixel_channels(p);
    }
    assert forall|p: int| 0 <= p < pixel_count && wide[4 * p + 3] == 0 implies #[trigger] t[4 * p]
        == px[4 * p] && t[4 * p + 1] == px[4 * p + 1] && t[4 * p + 2] == px[4 * p + 2] by {
        lemma_pixel_channels(p);
    }
    let tt = tinted_pixels(t, wide, pixel_count, red, green, blue);
    assert forall|i: int| 0 <= i < px.len() implies #[trigger] tt[i] == t[i] by {}
    assert(tt =~= t);
}

} // verus!

verus! {

/// Tinting with one colour and then another is tinting with the second, judged
/// by the same 16-bit alphas.
pub proof fn lemma_tint_last_colour_wins(
    px: Seq<u8>,
    wide: Seq<u16>,
    pixel_count: int,
    first: (u8, u8, u8),
    second: (u8, u8, u8),
)
    requires
        0 <= pixel_count,
        4 * pixel_count <= px.len(),
        4 * pixel_count <= wide.len(),
    ensures
        tinted_pixels(
            tinted_pixels(px, wide, pixel_count, first.0, first.1, first.2),
            wide,
            pixel_count,
            second.0,
            second.1,
            second.2,
        ) == tinted_pixels(px, wide, pixel_count, second.0, second.1, second.2),
{
    let once = tinted_pixels(px, wide, pixel_count, first.0, first.1, first.2);
    let twice = tinted_pixels(once, wide, pixel_count, second.0, second.1, second.2);
    let direct = tinted_pixels(px, wide, pixel_count, second.0, second.1, second.2);
    assert forall|i: int| 0 <= i < px.len() implies #[trigger] twice[i] == direct[i] by {}
    assert(twice =~= direct);
}

} // verus!

verus! {

/// A pixel of the tinted raster `t`, made from the decoded raster `px` (and its
/// 16-bit alphas `wide`): it keeps its alpha, takes the new colour when it is
/// not fully transparent, and keeps its colour when it is.
pub open spec fn pixel_tinted(
    t: Seq<u8>,
    px: Seq<u8>,
    wide: Seq<u16>,
    p: int,
    red: u8,
    green: u8,
    blue: u8,
) -> bool {
    &&& t[4 * p + 3] == px[4 * p + 3]
    &&& wide[4 * p + 3] > 0 ==> t[4 * p] == red && t[4 * p + 1] == green && t[4 * p + 2] == blue
    &&& wide[4 * p + 3] == 0 ==> t[4 * p] == px[4 * p] && t[4 * p + 1] == px[4 * p + 1] && t[4 * p
        + 2] == px[4 * p + 2]
}

/// The tinted icon is the encoding of the decoded raster with every one of its
/// `width * height` pixels recoloured when not fully transparent and left as it
/// was otherwise, alpha kept everywhere; undecodable bytes give `Undecodable`.
pub proof fn lemma_tinted_png_recolours_every_pixel(encoded: Seq<u8>, red: u8, green: u8, blue: u8)
    ensures
        match decoded_rgba(encoded) {
            None => tinted_png(encoded, red, green, blue) == Err::<Seq<u8>, TintError>(
                TintError::Undecodable,
            ),
            Some((w, h, px, wide)) => tinted_png(encoded, red, green, blue) matches Ok(out)
                ==> exists|t: Seq<u8>|
                #![trigger encoded_png(w, h, t)]
                {
                    &&& encoded_png(w, h, t) == Some(out)
                    &&& t.len() == px.len()
                    &&& forall|p: int|
                        0 <= p < w * h && 4 * p + 3 < px.len() ==> #[trigger] pixel_tinted(
                            t,
                            px,
                            wide,
                            p,
                            red,
                            green,
                            blue,
                        )
                    &&& forall|i: int| 4 * (w * h) <= i < px.len() ==> #[trigger] t[i] == px[i]
                },
        },
{
    match decoded_rgba(encoded) {
        None => {},
        Some((w, h, px, wide)) => {
            let count = w * h;
            let t = tinted_pixels(px, wide, count, red, green, blue);
            assert forall|p: int|
                0 <= p < count && 4 * p + 3 < px.len() implies #[trigger] pixel_tinted(
                t,
                px,
                wide,
                p,
                red,
                green,
                blue,
            ) by {
                lemma_pixel_channels(p);
            }
            assert(encoded_png(w, h, t) == encoded_png(w, h, t));
        },
    }
}

} // verus!
