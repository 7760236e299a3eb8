//! The postcard wire format of animations: encoding baked revolutions and
//! decoding uploaded bytes back into an `Animation`.

use vstd::prelude::*;
use crate::frame::Frame;
use crate::animation::{Animation, Keyframe, Page, changed_keyframes, frames_to_page};

verus! {

/// A keyframe as it travels on the wire: its tick and its rows.
pub type WireKeyframe = (u16, [u16; 16]);

/// Postcard's variable-length integer: seven bits per byte, least
/// significant group first, the top bit set on every byte but the last.
pub open spec fn varint(n: nat) -> Seq<u8>
    decreases n,
{
    if n < 128 {
        seq![n as u8]
    } else {
        seq![(n % 128 + 128) as u8] + varint(n / 128)
    }
}

/// The varints of the first `k` rows of a frame, one after the other.
pub open spec fn rows_bytes(frame: [u16; 16], k: int) -> Seq<u8>
    decreases k,
{
    if k <= 0 {
        Seq::empty()
    } else {
        rows_bytes(frame, k - 1) + varint(frame@[k - 1] as nat)
    }
}

/// A keyframe on the wire: its tick, then its sixteen rows (a fixed-size
/// array carries no length).
pub open spec fn keyframe_bytes(k: WireKeyframe) -> Seq<u8> {
    varint(k.0 as nat) + rows_bytes(k.1, 16)
}

/// The keyframes of a page, one after the other.
pub open spec fn keyframes_bytes(ks: Seq<WireKeyframe>) -> Seq<u8>
    decreases ks.len(),
{
    if ks.len() == 0 {
        Seq::empty()
    } else {
        keyframes_bytes(ks.drop_last()) + keyframe_bytes(ks.last())
    }
}

/// A page on the wire: its keyframe count, then its keyframes.
pub open spec fn page_bytes(page: Seq<WireKeyframe>) -> Seq<u8> {
    varint(page.len()) + keyframes_bytes(page)
}

/// The pages, one after the other.
pub open spec fn pages_bytes(pages: Seq<Seq<WireKeyframe>>) -> Seq<u8>
    decreases pages.len(),
{
    if pages.len() == 0 {
        Seq::empty()
    } else {
        pages_bytes(pages.drop_last()) + page_bytes(pages.last())
    }
}

/// The bytes that postcard produces for a list of pages of keyframes: the
/// page count, then the pages.
pub open spec fn postcard_encoding(pages: Seq<Seq<WireKeyframe>>) -> Seq<u8> {
    varint(pages.len()) + pages_bytes(pages)
}

/// What postcard reads from `bytes` as a list of pages of keyframes: the
/// pages, or the `Debug` text of the error it reports for these bytes.
pub uninterp spec fn postcard_decoding(bytes: Seq<u8>) -> Result<Seq<Seq<WireKeyframe>>, Seq<char>>;

/// A list of pages small enough to exist as vectors in memory.
pub open spec fn wire_fits(pages: Seq<Seq<WireKeyframe>>) -> bool {
    &&& pages.len() <= usize::MAX
    &&& forall|i: int| 0 <= i < pages.len() ==> (#[trigger] pages[i]).len() <= usize::MAX
}

/// The view of nested wire vectors.
pub open spec fn wire_view(pages: Seq<Vec<WireKeyframe>>) -> Seq<Seq<WireKeyframe>> {
    pages.map_values(|p: Vec<WireKeyframe>| p@)
}

/// A keyframe on the wire.
pub open spec fn keyframe_wire(k: Keyframe) -> WireKeyframe {
    (k.angle_tick, k.frame)
}

/// The keyframes of a page on the wire.
pub open spec fn keyframes_wire(keyframes: Seq<Keyframe>) -> Seq<WireKeyframe> {
    keyframes.map_values(|k: Keyframe| keyframe_wire(k))
}

/// Pages of keyframes on the wire.
pub open spec fn pages_wire(pages: Seq<Seq<Keyframe>>) -> Seq<Seq<WireKeyframe>> {
    pages.map_values(|p: Seq<Keyframe>| keyframes_wire(p))
}

/// An animation on the wire: a list of pages of keyframes.
pub open spec fn animation_wire(anim: Animation) -> Seq<Seq<WireKeyframe>> {
    anim.pages@.map_values(|p: Page| keyframes_wire(p.keyframes@))
}

/// The wire form of the animation baked from revolutions of frames.
pub open spec fn baked_wire(revolutions: Seq<Seq<Frame>>) -> Seq<Seq<WireKeyframe>> {
    revolutions.map_values(|frames: Seq<Frame>| keyframes_wire(changed_keyframes(frames)))
}

/// Serialises nested pages of keyframes with `postcard::to_allocvec`.
/// Claimed: the result is postcard's encoding of the pages (sequence
/// lengths and `u16`s as varints, arrays without a length); serialising
/// sequences of known length into a growable vector does not fail.
#[verifier::external_body]
fn postcard_encode(pages: &Vec<Vec<WireKeyframe>>) -> (bytes: Vec<u8>)
    ensures
        bytes@ == postcard_encoding(wire_view(pages@)),
{
    match postcard::to_allocvec(pages) {
        Ok(bytes) => bytes,
        Err(_) => Vec::new(),
    }
}

/// The names of postcard's error kinds, which are the texts their derived
/// `Debug` formatting prints.
pub open spec fn postcard_error_names() -> Seq<Seq<char>> {
    seq![
        "WontImplement"@,
        "NotYetImplemented"@,
        "SerializeBufferFull"@,
        "SerializeSeqLengthUnknown"@,
        "DeserializeUnexpectedEnd"@,
        "DeserializeBadVarint"@,
        "DeserializeBadBool"@,
        "DeserializeBadChar"@,
        "DeserializeBadUtf8"@,
        "DeserializeBadOption"@,
        "DeserializeBadEnum"@,
        "DeserializeBadEncoding"@,
        "DeserializeBadCrc"@,
        "SerdeSerCustom"@,
        "SerdeDeCustom"@,
        "CollectStrError"@,
    ]
}

/// Deserialises nested pages of keyframes with `postcard::from_bytes`,
/// giving an error as its `Debug` text (`format!("{:?}", ..)`).
/// Claimed: the outcome is postcard's decoding of the bytes; the error's
/// derived `Debug`, its variants carrying no data, prints the variant's
/// name; and bytes that postcard produced for some pages decode to those
/// pages.
#[verifier::external_body]
fn postcard_decode(bytes: &[u8]) -> (res: Result<Vec<Vec<WireKeyframe>>, String>)
    ensures
        res is Ok <==> postcard_decoding(bytes@) is Ok,
        res is Ok ==> postcard_decoding(bytes@) == Ok::<Seq<Seq<WireKeyframe>>, Seq<char>>(
            wire_view(res->Ok_0@),
        ),
        res is Err ==> postcard_decoding(bytes@) == Err::<Seq<Seq<WireKeyframe>>, Seq<char>>(
            res->Err_0@,
        ),
        res is Err ==> postcard_error_names().contains(res->Err_0@),
        forall|pages: Seq<Seq<WireKeyframe>>|
            #![trigger postcard_encoding(pages)]
            wire_fits(pages) && bytes@ == postcard_encoding(pages) ==> res is Ok
                && wire_view(res->Ok_0@) == pages,
{
    match postcard::from_bytes(bytes) {
        Ok(pages) => Ok(pages),
        Err(err) => Err(format!("{:?}", err)),
    }
}

/// Why uploaded bytes could not be read as an animation.
#[derive(Debug)]
pub struct DecodeError {
    /// The decoder's own description of the failure.
    pub detail: String,
}

fn page_to_wire(page: &Page) -> (out: Vec<WireKeyframe>)
    ensures
        out@ == keyframes_wire(page.keyframes@),
{
    let mut out: Vec<WireKeyframe> = Vec::new();
    let mut i: usize = 0;
    while i < page.keyframes.len()
        invariant
            0 <= i <= page.keyframes@.len(),
            out@ == keyframes_wire(page.keyframes@.subrange(0, i as int)),
        decreases page.keyframes@.len() - i,
    {
        let k = page.keyframes[i];
        out.push((k.angle_tick, k.frame));
        assert(keyframes_wire(page.keyframes@.subrange(0, i + 1)) =~= keyframes_wire(
            page.keyframes@.subrange(0, i as int),
        ).push(keyframe_wire(k)));
        i += 1;
    }
    assert(page.keyframes@.subrange(0, page.keyframes@.len() as int) =~= page.keyframes@);
    out
}

fn animation_to_wire(anim: &Animation) -> (out: Vec<Vec<WireKeyframe>>)
    ensures
        wire_view(out@) == animation_wire(*anim),
{
    let mut out: Vec<Vec<WireKeyframe>> = Vec::new();
    let mut i: usize = 0;
    while i < anim.pages.len()
        invariant
            0 <= i <= anim.pages@.len(),
            out@.len() == i,
            forall|j: int| 0 <= j < i ==> (#[trigger] out@[j])@ == keyframes_wire(anim.pages@[j].keyframes@),
        decreases anim.pages@.len() - i,
    {
        let w = page_to_wire(&anim.pages[i]);
        out.push(w);
        i += 1;
    }
    assert(wire_view(out@) =~= animation_wire(*anim));
    out
}

fn page_from_wire(w: &Vec<WireKeyframe>) -> (page: Page)
    ensures
        keyframes_wire(page.keyframes@) == w@,
{
    let mut keyframes: Vec<Keyframe> = Vec::new();
    let mut i: usize = 0;
    while i < w.len()
        invariant
            0 <= i <= w@.len(),
            keyframes_wire(keyframes@) == w@.subrange(0, i as int),
        decreases w@.len() - i,
    {
        let (angle_tick, frame) = w[i];
        let k = Keyframe { angle_tick, frame };
        let ghost before = keyframes@;
        keyframes.push(k);
        assert(keyframes@ == before.push(k));
        assert(keyframes_wire(before.push(k)) =~= keyframes_wire(before).push(keyframe_wire(k)));
        assert(w@.subrange(0, i + 1) =~= w@.subrange(0, i as int).push(w@[i as int]));
        i += 1;
    }
    assert(w@.subrange(0, w@.len() as int) =~= w@);
    Page { keyframes }
}

fn animation_from_wire(w: &Vec<Vec<WireKeyframe>>) -> (anim: Animation)
    ensures
        animation_wire(anim) == wire_view(w@),
{
    let mut pages: Vec<Page> = Vec::new();
    let mut i: usize = 0;
    while i < w.len()
        invariant
            0 <= i <= w@.len(),
            pages@.len() == i,
            forall|j: int| 0 <= j < i ==> keyframes_wire((#[trigger] pages@[j]).keyframes@) == w@[j]@,
        decreases w@.len() - i,
    {
        let p = page_from_wire(&w[i]);
        pages.push(p);
        i += 1;
    }
    let anim = Animation { pages };
    assert(animation_wire(anim) =~= wire_view(w@));
    anim
}

/// Serialises an animation in the postcard wire format.
pub fn encode_animation(anim: &Animation) -> (bytes: Vec<u8>)
    ensures
        bytes@ == postcard_encoding(animation_wire(*anim)),
{
    let w = animation_to_wire(anim);
    postcard_encode(&w)
}

/// Reads an animation from postcard bytes. Succeeds exactly when postcard
/// decodes the bytes, and otherwise reports postcard's error for them; bytes produced by `encode_animation` (or by the bake
/// functions) read back as the animation that was written.
pub fn decode_animation(bytes: &[u8]) -> (res: Result<Animation, DecodeError>)
    ensures
        res is Ok <==> postcard_decoding(bytes@) is Ok,
        res matches Ok(anim) ==> postcard_decoding(bytes@) == Ok::<Seq<Seq<WireKeyframe>>, Seq<char>>(
            animation_wire(anim),
        ),
        res matches Err(e) ==> postcard_decoding(bytes@) == Err::<Seq<Seq<WireKeyframe>>, Seq<char>>(
            e.detail@,
        ),
        res matches Err(e) ==> postcard_error_names().contains(e.detail@),
        forall|pages: Seq<Seq<WireKeyframe>>|
            #![trigger postcard_encoding(pages)]
            wire_fits(pages) && bytes@ == postcard_encoding(pages) ==> (res matches Ok(anim)
                && animation_wire(anim) == pages),
{
    match postcard_decode(bytes) {
        Ok(w) => Ok(animation_from_wire(&w)),
        Err(detail) => Err(DecodeError { detail }),
    }
}

/// Bakes revolutions of frames into a postcard-encoded animation with one
/// page per revolution, each page keeping only the frames that change.
pub fn bake_animation(pages: &[Vec<Frame>]) -> (bytes: Vec<u8>)
    ensures
        bytes@ == postcard_encoding(baked_wire(pages@.map_values(|v: Vec<Frame>| v@))),
{
    let mut out: Vec<Page> = Vec::new();
    let mut i: usize = 0;
    while i < pages.len()
        invariant
            0 <= i <= pages@.len(),
            out@.len() == i,
            forall|j: int| 0 <= j < i ==> (#[trigger] out@[j]).keyframes@ == changed_keyframes(pages@[j]@),
        decreases pages@.len() - i,
    {
        let p = frames_to_page(pages[i].as_slice());
        out.push(p);
        i += 1;
    }
    let anim = Animation { pages: out };
    assert(animation_wire(anim) =~= baked_wire(pages@.map_values(|v: Vec<Frame>| v@)));
    encode_animation(&anim)
}

/// Bakes a single revolution of frames into a one-page postcard animation.
pub fn bake_frames(frames: &[Frame]) -> (bytes: Vec<u8>)
    ensures
        bytes@ == postcard_encoding(seq![keyframes_wire(changed_keyframes(frames@))]),
{
    let page = frames_to_page(frames);
    let mut pages: Vec<Page> = Vec::new();
    pages.push(page);
    let anim = Animation { pages };
    assert(animation_wire(anim) =~= seq![keyframes_wire(changed_keyframes(frames@))]);
    encode_animation(&anim)
}

} // verus!
