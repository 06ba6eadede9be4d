//! Decoded crosshair images and the animation frame scheduler.
use crate::pixel::{is_premultiplied, process_buffer, OPACITY_ONE};
use vstd::arithmetic::div_mod::{lemma_add_mod_noop, lemma_mod_add_multiples_vanish, lemma_small_mod};
use image::{AnimationDecoder, ImageDecoder};
use vstd::prelude::*;

verus! {

#[verifier::external_type_specification]
#[verifier::external_body]
pub struct ExImageError(image::ImageError);

/// One frame of an animation: premultiplied BGRA bytes and how long it shows.
pub struct GifFrame {
    pub data: Vec<u8>,
    pub delay_ms: u128,
}

/// The single frame of a still image: premultiplied BGRA bytes.
pub struct Frame {
    pub data: Vec<u8>,
}

/// An animation being played. `last_frame_time` is a reading, in
/// milliseconds, of a monotonic clock chosen by the caller.
pub struct GifImage {
    pub frames: Vec<GifFrame>,
    pub current_frame: usize,
    pub last_frame_time: u64,
}

pub enum CrosshairImage {
    Static(Frame),
    Gif(GifImage),
}

pub enum LoadImageError {
    /// The bytes are in a recognised format but could not be decoded.
    Image(image::ImageError),
    /// No known image format starts with these bytes.
    UnknownFormat,
    /// The animation holds no frame.
    EmptyAnimation,
}

/// Milliseconds from `last` to `now`; a clock reading earlier than `last`
/// counts as no time at all.
pub open spec fn elapsed_ms(last: u64, now: u64) -> int {
    if now >= last {
        now - last
    } else {
        0
    }
}

/// The frame that follows frame `i` in an animation of `n` frames.
pub open spec fn next_index(i: int, n: int) -> int {
    (i + 1) % n
}

/// The frame reached from frame `i` after `k` advances.
pub open spec fn index_after(i: int, n: int, k: nat) -> int
    decreases k,
{
    if k == 0 {
        i
    } else {
        next_index(index_after(i, n, (k - 1) as nat), n)
    }
}

/// Whether the current frame has shown for its full delay at time `now`.
pub open spec fn frame_due(g: GifImage, now: u64) -> bool {
    elapsed_ms(g.last_frame_time, now) >= g.frames@[g.current_frame as int].delay_ms
}

/// `new` is `old` after the scheduler's step at time `now`: the next frame,
/// with the clock restarted, when the current one is due; otherwise `old`
/// itself.
pub open spec fn advance_spec(old: GifImage, new: GifImage, now: u64) -> bool {
    &&& new.frames == old.frames
    &&& if frame_due(old, now) {
        new.current_frame == next_index(old.current_frame as int, old.frames@.len() as int)
            && new.last_frame_time == now
    } else {
        new.current_frame == old.current_frame && new.last_frame_time == old.last_frame_time
    }
}

impl GifImage {
    pub open spec fn wf(&self) -> bool {
        &&& self.frames@.len() > 0
        &&& self.current_frame < self.frames@.len()
    }

    /// The scheduler's step on a frame-ready notification at time `now_ms`:
    /// once the current frame has shown for its delay, move to the next frame
    /// (wrapping round) and restart the clock. Returns whether it moved.
    pub fn advance(&mut self, now_ms: u64) -> (advanced: bool)
        requires
            old(self).wf(),
        ensures
            final(self).wf(),
            advance_spec(*old(self), *final(self), now_ms),
            advanced == frame_due(*old(self), now_ms),
    {
        let elapsed: u64 = if now_ms >= self.last_frame_time {
            now_ms - self.last_frame_time
        } else {
            0
        };
        let delay = self.frames[self.current_frame].delay_ms;
        if elapsed as u128 >= delay {
            let n: usize = self.frames.len();
            self.current_frame = (self.current_frame + 1) % n;
            self.last_frame_time = now_ms;
            true
        } else {
            false
        }
    }

    /// The bytes of the frame on show.
    pub fn current_data(&self) -> (r: &Vec<u8>)
        requires
            self.wf(),
        ensures
            r == self.frames@[self.current_frame as int].data,
    {
        &self.frames[self.current_frame].data
    }
}

impl CrosshairImage {
    pub open spec fn wf(&self) -> bool {
        match self {
            CrosshairImage::Static(_) => true,
            CrosshairImage::Gif(g) => g.wf(),
        }
    }

    /// The bytes to present now: the still frame, or the animation's current
    /// frame.
    pub fn current_data(&self) -> (r: &Vec<u8>)
        requires
            self.wf(),
        ensures
            r == (match self {
                CrosshairImage::Static(f) => f.data,
                CrosshairImage::Gif(g) => g.frames@[g.current_frame as int].data,
            }),
    {
        match self {
            CrosshairImage::Static(f) => &f.data,
            CrosshairImage::Gif(g) => g.current_data(),
        }
    }

    pub fn is_animated(&self) -> (r: bool)
        ensures
            r == (self is Gif),
    {
        match self {
            CrosshairImage::Static(_) => false,
            CrosshairImage::Gif(_) => true,
        }
    }
}

proof fn lemma_index_after_mod(i: int, n: int, k: nat)
    requires
        0 <= i < n,
    ensures
        index_after(i, n, k) == (i + k) % n,
    decreases k,
{
    if k == 0 {
        lemma_small_mod(i as nat, n as nat);
    } else {
        lemma_index_after_mod(i, n, (k - 1) as nat);
        let x = i + k - 1;
        lemma_add_mod_noop(x, 1, n);
        if n > 1 {
            lemma_small_mod(1, n as nat);
        }
    }
}

/// Advancing an animation once per frame brings it back to the frame it
/// started from, and every index reached on the way is a valid frame.
pub proof fn lemma_advance_cycles(i: int, n: int)
    requires
        0 <= i < n,
    ensures
        index_after(i, n, n as nat) == i,
        forall|k: nat| 0 <= #[trigger] index_after(i, n, k) < n,
{
    lemma_index_after_mod(i, n, n as nat);
    lemma_mod_add_multiples_vanish(i, n);
    lemma_small_mod(i as nat, n as nat);
    assert forall|k: nat| 0 <= #[trigger] index_after(i, n, k) < n by {
        lemma_index_after_mod(i, n, k);
    }
}

/// What `image::guess_format` finds in these bytes: `Some(true)` for GIF,
/// `Some(false)` for another format, `None` for none.
pub uninterp spec fn guessed_is_gif(bytes: Seq<u8>) -> Option<bool>;

/// Width, height and RGBA bytes that `image` decodes from a still image.
pub uninterp spec fn decoded_still(bytes: Seq<u8>) -> Option<(u32, u32, Seq<u8>)>;

/// Width, height and the frames (delay numerator in milliseconds, RGBA bytes)
/// that `image`'s GIF decoder produces.
pub uninterp spec fn decoded_gif(bytes: Seq<u8>) -> Option<(u32, u32, Seq<(u32, Seq<u8>)>)>;

/// Relies on `image::guess_format`, which inspects the leading bytes only.
#[verifier::external_body]
fn guess_is_gif(bytes: &Vec<u8>) -> (r: Option<bool>)
    ensures
        r == guessed_is_gif(bytes@),
{
    match image::guess_format(bytes) {
        Ok(image::ImageFormat::Gif) => Some(true),
        Ok(_) => Some(false),
        Err(_) => None,
    }
}

/// Relies on `image::load_from_memory` with `DynamicImage::to_rgba8`: the
/// decoded image as width, height and packed RGBA bytes.
#[verifier::external_body]
fn decode_still(bytes: &Vec<u8>) -> (r: Result<(u32, u32, Vec<u8>), image::ImageError>)
    ensures
        match r {
            Ok((w, h, px)) => decoded_still(bytes@) == Some((w, h, px@)),
            Err(_) => decoded_still(bytes@) is None,
        },
{
    let rgba = image::load_from_memory(bytes)?.to_rgba8();
    let (w, h) = rgba.dimensions();
    Ok((w, h, rgba.into_raw()))
}

/// Relies on `image::codecs::gif::GifDecoder` (`new`, `dimensions`,
/// `into_frames`, `collect_frames`): the screen size and every composited
/// frame with its delay.
#[verifier::external_body]
fn decode_gif(bytes: &Vec<u8>) -> (r: Result<(u32, u32, Vec<(u32, Vec<u8>)>), image::ImageError>)
    ensures
        match r {
            Ok((w, h, frames)) => decoded_gif(bytes@) == Some(
                (w, h, frames@.map_values(|f: (u32, Vec<u8>)| (f.0, f.1@))),
            ),
            Err(_) => decoded_gif(bytes@) is None,
        },
{
    let decoder = image::codecs::gif::GifDecoder::new(std::io::Cursor::new(bytes.as_slice()))?;
    let (w, h) = decoder.dimensions();
    let frames = decoder.into_frames().collect_frames()?;
    Ok((w, h, frames.into_iter().map(|f| (f.delay().numer_denom_ms().0, f.into_buffer().into_raw())).collect()))
}

/// `f` is the prepared form of a decoded frame `(delay, rgba)`.
pub open spec fn frame_prepared(f: GifFrame, src: (u32, Seq<u8>), opacity: int) -> bool {
    &&& f.delay_ms == src.0 as u128
    &&& is_premultiplied(f.data@, src.1, opacity)
}

/// Decodes an image file's bytes and prepares its frames for presentation
/// with the given opacity. A GIF becomes an animation that starts on its
/// first frame at time `now_ms`; any other recognised format becomes a still
/// image.
pub fn load_image(bytes: &Vec<u8>, opacity: u32, now_ms: u64) -> (r: Result<
    (u32, u32, CrosshairImage),
    LoadImageError,
>)
    requires
        opacity <= OPACITY_ONE,
    ensures
        match guessed_is_gif(bytes@) {
            None => r matches Err(LoadImageError::UnknownFormat),
            Some(false) => match decoded_still(bytes@) {
                None => r matches Err(LoadImageError::Image(_)),
                Some((w, h, px)) => r matches Ok((rw, rh, CrosshairImage::Static(f))) && rw == w
                    && rh == h && is_premultiplied(f.data@, px, opacity as int),
            },
            Some(true) => match decoded_gif(bytes@) {
                None => r matches Err(LoadImageError::Image(_)),
                Some((w, h, fs)) => if fs.len() == 0 {
                    r matches Err(LoadImageError::EmptyAnimation)
                } else {
                    r matches Ok((rw, rh, CrosshairImage::Gif(g))) && rw == w && rh == h
                        && g.current_frame == 0 && g.last_frame_time == now_ms
                        && g.frames@.len() == fs.len() && forall|i: int|
                        0 <= i < fs.len() ==> #[trigger] frame_prepared(
                            g.frames@[i],
                            fs[i],
                            opacity as int,
                        )
                },
            },
        },
        r matches Ok((_, _, img)) ==> img.wf(),
{
    match guess_is_gif(bytes) {
        None => Err(LoadImageError::UnknownFormat),
        Some(false) => match decode_still(bytes) {
            Err(e) => Err(LoadImageError::Image(e)),
            Ok((w, h, px)) => {
                let data = process_buffer(&px, opacity);
                Ok((w, h, CrosshairImage::Static(Frame { data })))
            },
        },
        Some(true) => match decode_gif(bytes) {
            Err(e) => Err(LoadImageError::Image(e)),
            Ok((w, h, decoded)) => {
                let ghost src = decoded@.map_values(|f: (u32, Vec<u8>)| (f.0, f.1@));
                if decoded.len() == 0 {
                    return Err(LoadImageError::EmptyAnimation);
                }
                let mut frames: Vec<GifFrame> = Vec::new();
                let mut i: usize = 0;
                while i < decoded.len()
                    invariant
                        i <= decoded@.len(),
                        opacity <= OPACITY_ONE,
                        src == decoded@.map_values(|f: (u32, Vec<u8>)| (f.0, f.1@)),
                        frames@.len() == i,
                        forall|j: int|
                            0 <= j < i ==> #[trigger] frame_prepared(
                                frames@[j],
                                src[j],
                                opacity as int,
                            ),
                    decreases decoded@.len() - i,
                {
                    let data = process_buffer(&decoded[i].1, opacity);
                    frames.push(GifFrame { data, delay_ms: decoded[i].0 as u128 });
                    i = i + 1;
                }
                Ok((w, h, CrosshairImage::Gif(GifImage { frames, current_frame: 0, last_frame_time: now_ms })))
            },
        },
    }
}

} // verus!
