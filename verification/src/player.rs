use vstd::prelude::*;
use vstd::arithmetic::div_mod::{
    lemma_fundamental_div_mod, lemma_fundamental_div_mod_converse, lemma_mod_pos_bound,
};
use crate::art::{AsciiArt, AsciiArtConverterError, SizeError};
use crate::braille::{is_braille_grid, BrailleArtConverter};
use crate::raster::{
    luma8_view, resized_image, threshold_fits, threshold_limits, thresholded_pixel, DynamicImage,
    FilterType,
};

verus! {

/// Player to convert and play frames.
#[derive(Debug, Clone)]
pub struct AsciiPlayer {}

impl AsciiPlayer {
    /// Reverse ASCII string: the same characters in the opposite order.
    pub fn reverse_ascii_string(ascii_string: String) -> (r: String)
        ensures
            r@ == ascii_string@.reverse(),
    {
        let s = ascii_string.as_str();
        let n = s.unicode_len();
        let mut res = String::new();
        let mut i: usize = 0;
        while i < n
            invariant
                n == s@.len(),
                s@ == ascii_string@,
                i <= n,
                res@.len() == i,
                forall|j: int| 0 <= j < i ==> #[trigger] res@[j] == s@[n - 1 - j],
            decreases n - i,
        {
            let one = s.substring_char(n - 1 - i, n - i);
            res.append(one);
            i = i + 1;
        }
        assert(res@ =~= ascii_string@.reverse());
        res
    }
}

/// Reversing a string twice gives it back.
pub proof fn lemma_reverse_twice(s: Seq<char>)
    ensures
        s.reverse().reverse() == s,
{
    assert(s.reverse().reverse() =~= s);
}


/// Size a frame is resized to before braille conversion: twice the requested
/// number of columns (`per_cell` 2) or four times the requested number of rows
/// (`per_cell` 4), and unbounded when no size is requested.
pub open spec fn braille_target(size: Option<u32>, per_cell: int) -> u32 {
    match size {
        Some(n) => (n * per_cell) as u32,
        None => u32::MAX,
    }
}

/// Block radius of the thresholding in braille mode: the one requested, else 5.
pub open spec fn braille_block_radius(threshold: Option<u32>) -> u32 {
    match threshold {
        Some(t) => t,
        None => 5,
    }
}

/// `r` is what converting one frame in braille mode gives: the frame `img` is
/// resized to fit two pixels per requested column and four per requested row
/// (keeping its aspect ratio), then drawn as braille art with the requested
/// block radius (5 when none is given); `None`, converting nothing, when the
/// resized frame is at least 8 by 8 and its local thresholding would overflow
/// or has a radius of 0 or beyond `i32` ([`threshold_limits`]).
pub open spec fn is_braille_frame(
    img: DynamicImage,
    width: Option<u32>,
    height: Option<u32>,
    threshold: Option<u32>,
    filter: FilterType,
    r: Option<Result<AsciiArt, AsciiArtConverterError>>,
) -> bool {
    let resized = resized_image(
        img.is_luma8(),
        img.spec_width(),
        img.spec_height(),
        img.raw_pixels(),
        braille_target(width, 2),
        braille_target(height, 4),
        filter,
    );
    let rw = resized.0;
    let rh = resized.1;
    let luma = luma8_view(img.is_luma8(), rw, rh, resized.2);
    let radius = braille_block_radius(threshold);
    let small = rw < 8 || rh < 8;
    &&& r is None <==> (!small && !threshold_limits(luma, rw, rh, radius))
    &&& r matches Some(res) ==> {
        &&& res is Err <==> small
        &&& res matches Err(e) ==> e == AsciiArtConverterError::SizeError(SizeError)
        &&& res matches Ok(art) ==> {
            &&& is_braille_grid(
                art,
                rw,
                rh,
                |x: int, y: int| thresholded_pixel(luma, rw as int, rh as int, x, y, radius as int),
            )
            &&& width matches Some(w) ==> art.width <= w
            &&& height matches Some(h) ==> art.height <= h
        }
    }
}

/// The frame is resized to `2 * w` columns for `Some(w)` and `4 * h` rows for
/// `Some(h)`, and left unbounded (`u32::MAX`) for `None`; the block radius is
/// the one requested, or 5 when none is.
pub proof fn lemma_braille_frame_parameters(size: Option<u32>, threshold: Option<u32>)
    ensures
        size matches Some(n) ==> (n * 2 <= u32::MAX ==> braille_target(size, 2) == n * 2),
        size matches Some(n) ==> (n * 4 <= u32::MAX ==> braille_target(size, 4) == n * 4),
        size is None ==> braille_target(size, 2) == u32::MAX && braille_target(size, 4)
            == u32::MAX,
        threshold is None ==> braille_block_radius(threshold) == 5,
        threshold matches Some(t) ==> braille_block_radius(threshold) == t,
{
}

/// Converting a frame with no block radius given is converting it with a
/// block radius of 5.
pub proof fn lemma_braille_frame_default_radius(
    img: DynamicImage,
    width: Option<u32>,
    height: Option<u32>,
    filter: FilterType,
    r: Option<Result<AsciiArt, AsciiArtConverterError>>,
)
    ensures
        is_braille_frame(img, width, height, None, filter, r) <==> is_braille_frame(
            img,
            width,
            height,
            Some(5u32),
            filter,
            r,
        ),
{
}

/// Converts one frame in braille mode: resizes it to fit two pixels per
/// requested column and four per requested row (keeping its aspect ratio),
/// then draws it as braille art with the requested block radius (5 when none
/// is given); see [`is_braille_frame`].
pub fn braille_frame(
    img: &DynamicImage,
    width: Option<u32>,
    height: Option<u32>,
    threshold: Option<u32>,
    filter: FilterType,
) -> (r: Option<Result<AsciiArt, AsciiArtConverterError>>)
    requires
        img.wf(),
        width matches Some(w) ==> w * 2 <= u32::MAX,
        height matches Some(h) ==> h * 4 <= u32::MAX,
    ensures
        is_braille_frame(*img, width, height, threshold, filter, r),
{
    let target_width = match width {
        Some(w) => w * 2,
        None => u32::MAX,
    };
    let target_height = match height {
        Some(h) => h * 4,
        None => u32::MAX,
    };
    let resized = img.resize(target_width, target_height, filter);
    let radius = match threshold {
        Some(t) => t,
        None => 5,
    };
    let gray = resized.to_luma8();
    if gray.width() >= 8 && gray.height() >= 8 && !threshold_fits(&gray, radius) {
        return None;
    }
    Some(resized.braille_art(radius))
}

/// Where playback stands: the next frame to show, and whether no frame has
/// been shown yet.
#[derive(Debug, Clone, Copy, PartialEq, Eq, Structural)]
pub struct PlaybackState {
    pub next_frame: usize,
    pub first_frame: bool,
}

/// What playback does next.
#[derive(Debug, Clone, Copy, PartialEq, Eq, Structural)]
pub enum PlaybackStep {
    /// Show frame `frame`, after moving the cursor up over the previous one
    /// when `move_up`.
    Show { frame: usize, move_up: bool },
    /// All frames were shown; start again from the first.
    Rewind,
    /// All frames were shown; playback is over.
    Stop,
}

/// One step of playing `frame_count` frames: the frames are shown in order,
/// each but the very first over the previous one; after the last, playback
/// starts again when `looped` and stops otherwise.
pub open spec fn playback_step(state: PlaybackState, frame_count: usize, looped: bool) -> (
    PlaybackState,
    PlaybackStep,
) {
    if state.next_frame < frame_count {
        (
            PlaybackState { next_frame: (state.next_frame + 1) as usize, first_frame: false },
            PlaybackStep::Show { frame: state.next_frame, move_up: !state.first_frame },
        )
    } else if looped {
        (PlaybackState { next_frame: 0, first_frame: state.first_frame }, PlaybackStep::Rewind)
    } else {
        (state, PlaybackStep::Stop)
    }
}

/// Playback state after `steps` steps from the start.
pub open spec fn playback_after(frame_count: usize, looped: bool, steps: nat) -> PlaybackState
    decreases steps,
{
    if steps == 0 {
        PlaybackState { next_frame: 0, first_frame: true }
    } else {
        playback_step(playback_after(frame_count, looped, (steps - 1) as nat), frame_count, looped).0
    }
}

/// Played from the start, the first `frame_count` steps show the frames in
/// order, the first in place and every later one over the one before; then
/// playback stops, or, when looped, starts again from the first frame, which
/// is then shown over the last one.
pub proof fn lemma_playback_order(frame_count: usize, looped: bool, k: nat)
    requires
        k <= frame_count,
    ensures
        playback_after(frame_count, looped, k) == (PlaybackState {
            next_frame: k as usize,
            first_frame: k == 0,
        }),
        k < frame_count ==> playback_step(playback_after(frame_count, looped, k), frame_count, looped).1
            == (PlaybackStep::Show { frame: k as usize, move_up: k > 0 }),
        k == frame_count && !looped ==> playback_step(
            playback_after(frame_count, looped, k),
            frame_count,
            looped,
        ).1 == PlaybackStep::Stop,
        k == frame_count && looped ==> playback_step(
            playback_after(frame_count, looped, k),
            frame_count,
            looped,
        ) == (PlaybackState { next_frame: 0, first_frame: k == 0 }, PlaybackStep::Rewind),
    decreases k,
{
    if k > 0 {
        lemma_playback_order(frame_count, looped, (k - 1) as nat);
    }
}

/// Looped playback of one frame or more runs in rounds of `frame_count + 1`
/// steps: step `s` shows frame `s % (frame_count + 1)` while that is a frame,
/// over the previous frame for every step but the very first, and the last
/// step of each round starts again from the first frame.
pub proof fn lemma_looped_playback(frame_count: usize, s: nat)
    requires
        frame_count > 0,
    ensures
        ({
            let m = frame_count as int + 1;
            let j = s as int % m;
            &&& playback_after(frame_count, true, s) == (PlaybackState {
                next_frame: j as usize,
                first_frame: s == 0,
            })
            &&& playback_step(playback_after(frame_count, true, s), frame_count, true).1 == if j
                < frame_count {
                PlaybackStep::Show { frame: j as usize, move_up: s > 0 }
            } else {
                PlaybackStep::Rewind
            }
        }),
    decreases s,
{
    let m = frame_count as int + 1;
    if s > 0 {
        let t = (s - 1) as nat;
        lemma_looped_playback(frame_count, t);
        let j = t as int % m;
        let q = t as int / m;
        lemma_fundamental_div_mod(t as int, m);
        lemma_mod_pos_bound(t as int, m);
        assert(t as int == q * m + j) by (nonlinear_arith)
            requires
                t as int == m * q + j,
        ;
        if j < frame_count {
            lemma_fundamental_div_mod_converse(s as int, m, q, j + 1);
        } else {
            assert(s as int == (q + 1) * m + 0) by (nonlinear_arith)
                requires
                    t as int == q * m + j,
                    j == m - 1,
                    s == t + 1,
            ;
            lemma_fundamental_div_mod_converse(s as int, m, q + 1, 0);
            assert(t > 0) by {
                if t == 0 {
                    assert(0int % m == 0);
                }
            }
        }
    }
}

impl PlaybackState {
    /// Playback before the first frame.
    pub fn new() -> (s: PlaybackState)
        ensures
            s == (PlaybackState { next_frame: 0, first_frame: true }),
    {
        PlaybackState { next_frame: 0, first_frame: true }
    }

    /// Advances playback of `frame_count` frames by one step.
    pub fn next_step(&mut self, frame_count: usize, looped: bool) -> (step: PlaybackStep)
        ensures
            (*final(self), step) == playback_step(*old(self), frame_count, looped),
    {
        if self.next_frame < frame_count {
            let frame = self.next_frame;
            let move_up = !self.first_frame;
            self.next_frame = self.next_frame + 1;
            self.first_frame = false;
            PlaybackStep::Show { frame, move_up }
        } else if looped {
            self.next_frame = 0;
            PlaybackStep::Rewind
        } else {
            PlaybackStep::Stop
        }
    }
}

} // verus!
