//! The overlay surface's lifecycle: configure, frame-ready and close events
//! in, the protocol work to perform out.
use crate::crosshair::{advance_spec, CrosshairImage};
use crate::pool::{frame_bytes, frame_bytes_exec, growth_for, BufferPool};
use vstd::prelude::*;

verus! {

/// Logical output size assumed when the output reports none.
pub const FALLBACK_OUTPUT_WIDTH: i32 = 1920;

pub const FALLBACK_OUTPUT_HEIGHT: i32 = 1080;

/// What is known of the display the overlay is placed on.
#[derive(Clone, Copy, PartialEq, Eq, Debug)]
pub struct OutputInfo {
    pub logical_size: Option<(i32, i32)>,
}

/// An event from the compositor.
pub enum Event {
    /// A proposed size; a zero dimension keeps the current one. `output` is
    /// the first output's information, when there is one.
    Configure { width: u32, height: u32, output: Option<OutputInfo> },
    /// The compositor is ready for a new frame; `now_ms` is a reading of the
    /// caller's monotonic clock.
    FrameReady { now_ms: u64 },
    Closed,
}

#[derive(Clone, Copy, PartialEq, Eq, Debug)]
pub enum Phase {
    AwaitingFirstConfigure,
    Configured,
    Closed,
}

/// Whether the surface has been anchored so that the target pixel sits at the
/// centre of the output, and with which margins.
#[derive(Clone, Copy, PartialEq, Eq, Debug)]
pub enum Placement {
    Unpositioned,
    Positioned { top: i32, left: i32 },
}

/// The protocol work an event asks for, to be carried out in this order:
/// grow the pool, anchor top-left with the margins and commit, commit
/// unpositioned, redraw (and, for an animation, ask for the next frame).
#[derive(Clone, Copy, PartialEq, Eq, Debug)]
pub struct Actions {
    pub grow_pool: Option<u128>,
    pub margins: Option<(i32, i32)>,
    pub commit_unpositioned: bool,
    pub draw: bool,
    pub request_frame: bool,
    pub exit: bool,
}

pub open spec fn no_actions() -> Actions {
    Actions {
        grow_pool: None,
        margins: None,
        commit_unpositioned: false,
        draw: false,
        request_frame: false,
        exit: false,
    }
}

/// Half of `v`, rounded toward zero.
pub open spec fn half(v: int) -> int {
    if v >= 0 {
        v / 2
    } else {
        -((-v) / 2)
    }
}

pub open spec fn clamp_i32(v: int) -> int {
    if v < i32::MIN {
        i32::MIN as int
    } else if v > i32::MAX {
        i32::MAX as int
    } else {
        v
    }
}

/// The margin that puts image pixel `target` at the middle of a screen
/// extent `screen`.
pub open spec fn margin(screen: int, target: int) -> int {
    clamp_i32(half(screen) - target)
}

/// The logical size used for an output.
pub open spec fn output_size(info: OutputInfo) -> (i32, i32) {
    match info.logical_size {
        Some(s) => s,
        None => (FALLBACK_OUTPUT_WIDTH, FALLBACK_OUTPUT_HEIGHT),
    }
}

/// `(top, left)` margins for an output and a target pixel.
pub open spec fn margins_for(info: OutputInfo, target_x: u32, target_y: u32) -> (i32, i32) {
    let (w, h) = output_size(info);
    (margin(h as int, target_y as int) as i32, margin(w as int, target_x as int) as i32)
}

/// A proposed dimension, zero meaning "keep the current one".
pub open spec fn proposed(current: u32, new: u32) -> u32 {
    if new == 0 {
        current
    } else {
        new
    }
}

fn half_exec(v: i32) -> (r: i64)
    ensures
        r == half(v as int),
{
    if v >= 0 {
        ((v as u64) / 2) as i64
    } else {
        let m: u64 = (-(v as i64)) as u64;
        -((m / 2) as i64)
    }
}

fn margin_exec(screen: i32, target: u32) -> (r: i32)
    ensures
        r == margin(screen as int, target as int),
{
    let v: i64 = half_exec(screen) - target as i64;
    if v < i32::MIN as i64 {
        i32::MIN
    } else if v > i32::MAX as i64 {
        i32::MAX
    } else {
        v as i32
    }
}

/// The `(top, left)` margins that centre image pixel `(target_x, target_y)`
/// on the output: half the output's height less `target_y`, half its width
/// less `target_x`, each held to the range of an `i32`.
pub fn compute_margins(info: OutputInfo, target_x: u32, target_y: u32) -> (r: (i32, i32))
    ensures
        r == margins_for(info, target_x, target_y),
{
    let (w, h) = match info.logical_size {
        Some(s) => s,
        None => (FALLBACK_OUTPUT_WIDTH, FALLBACK_OUTPUT_HEIGHT),
    };
    (margin_exec(h, target_y), margin_exec(w, target_x))
}

/// The bytes of a `canvas_len`-byte buffer after a redraw: transparent
/// everywhere, with the frame's bytes at the start (those that fit).
pub fn render_canvas(frame: &Vec<u8>, canvas_len: usize) -> (canvas: Vec<u8>)
    ensures
        canvas@.len() == canvas_len,
        forall|i: int|
            0 <= i < canvas_len ==> #[trigger] canvas@[i] == if i < frame@.len() {
                frame@[i]
            } else {
                0u8
            },
{
    let mut canvas: Vec<u8> = Vec::with_capacity(canvas_len);
    let mut i: usize = 0;
    while i < canvas_len
        invariant
            i <= canvas_len,
            canvas@.len() == i,
            forall|j: int|
                0 <= j < i ==> #[trigger] canvas@[j] == if j < frame@.len() {
                    frame@[j]
                } else {
                    0u8
                },
        decreases canvas_len - i,
    {
        if i < frame.len() {
            canvas.push(frame[i]);
        } else {
            canvas.push(0);
        }
        i = i + 1;
    }
    canvas
}

/// `a` is the growth request that `g` describes.
pub open spec fn grow_request_is(a: Option<u128>, g: Option<int>) -> bool {
    match a {
        Some(t) => g == Some(t as int),
        None => g is None,
    }
}

/// The state and the actions after a configure event proposing
/// `(width, height)`, with `output` the first output's information.
pub open spec fn configure_spec(
    old: Overlay,
    new: Overlay,
    a: Actions,
    width: u32,
    height: u32,
    output: Option<OutputInfo>,
) -> bool {
    let nw = proposed(old.width, width);
    let nh = proposed(old.height, height);
    let first = old.phase == Phase::AwaitingFirstConfigure;
    let changed = nw != old.width || nh != old.height;
    &&& new.width == nw && new.height == nh
    &&& new.target_x == old.target_x && new.target_y == old.target_y
    &&& new.phase == Phase::Configured
    &&& new.pool == old.pool && new.image == old.image
    &&& grow_request_is(
        a.grow_pool,
        growth_for(old.pool.capacity as int, frame_bytes(nw, nh), frame_bytes(old.width, old.height)),
    )
    &&& match output {
        Some(info) => {
            let (top, left) = margins_for(info, old.target_x, old.target_y);
            a.margins == Some((top, left)) && new.placement == (Placement::Positioned { top, left })
        },
        None => a.margins is None && new.placement == old.placement,
    }
    &&& a.draw == (first || changed)
    &&& a.commit_unpositioned == (a.draw && new.placement == Placement::Unpositioned)
    &&& a.request_frame == (a.draw && old.image is Gif)
    &&& !a.exit
}

/// The state and the actions after a close event: only the phase changes.
pub open spec fn closed_spec(old: Overlay, new: Overlay, a: Actions) -> bool {
    &&& new == (Overlay { phase: Phase::Closed, ..old })
    &&& a == (Actions { exit: true, ..no_actions() })
}

/// The state and the actions after a frame-ready notification at `now`.
pub open spec fn frame_ready_spec(old: Overlay, new: Overlay, a: Actions, now: u64) -> bool {
    match old.image {
        CrosshairImage::Static(_) => new == old && a == no_actions(),
        CrosshairImage::Gif(g) => {
            &&& new.image matches CrosshairImage::Gif(g2) && advance_spec(g, g2, now)
            &&& new.width == old.width && new.height == old.height
            &&& new.target_x == old.target_x && new.target_y == old.target_y
            &&& new.phase == old.phase && new.placement == old.placement
            &&& new.pool == old.pool
            &&& a == (Actions { draw: true, request_frame: true, ..no_actions() })
        },
    }
}

/// The overlay's run-time state.
pub struct Overlay {
    pub width: u32,
    pub height: u32,
    pub target_x: u32,
    pub target_y: u32,
    pub phase: Phase,
    pub placement: Placement,
    pub pool: BufferPool,
    pub image: CrosshairImage,
}

impl Overlay {
    pub open spec fn wf(&self) -> bool {
        self.image.wf()
    }

    /// A surface of the image's size, awaiting its first configure, with a
    /// pool sized for one frame.
    pub fn new(width: u32, height: u32, target_x: u32, target_y: u32, image: CrosshairImage) -> (r:
        Overlay)
        requires
            image.wf(),
        ensures
            r.wf(),
            r.width == width,
            r.height == height,
            r.target_x == target_x,
            r.target_y == target_y,
            r.phase == Phase::AwaitingFirstConfigure,
            r.placement == Placement::Unpositioned,
            r.pool.capacity == frame_bytes(width, height),
            r.image == image,
    {
        let capacity = frame_bytes_exec(width, height);
        Overlay {
            width,
            height,
            target_x,
            target_y,
            phase: Phase::AwaitingFirstConfigure,
            placement: Placement::Unpositioned,
            pool: BufferPool::new(capacity),
            image,
        }
    }

    pub fn is_closed(&self) -> (r: bool)
        ensures
            r == (self.phase == Phase::Closed),
    {
        match self.phase {
            Phase::Closed => true,
            _ => false,
        }
    }

    /// Records that the pool was reallocated with `target` bytes.
    pub fn pool_grown(&mut self, target: u128)
        requires
            target > old(self).pool.capacity,
        ensures
            final(self).pool.capacity == target,
            final(self).width == old(self).width,
            final(self).height == old(self).height,
            final(self).target_x == old(self).target_x,
            final(self).target_y == old(self).target_y,
            final(self).phase == old(self).phase,
            final(self).placement == old(self).placement,
            final(self).image == old(self).image,
    {
        self.pool.grown(target);
    }

    /// The canvas bytes for the current geometry and frame.
    pub fn render(&self) -> (canvas: Vec<u8>)
        requires
            self.wf(),
            frame_bytes(self.width, self.height) <= usize::MAX,
        ensures
            canvas@.len() == frame_bytes(self.width, self.height),
            forall|i: int|
                0 <= i < canvas@.len() ==> #[trigger] canvas@[i] == if i < self.current_frame_spec().len() {
                    self.current_frame_spec()[i]
                } else {
                    0u8
                },
    {
        let len = frame_bytes_exec(self.width, self.height) as usize;
        render_canvas(self.image.current_data(), len)
    }

    /// Reacts to one compositor event and returns the work it asks for. Once
    /// closed, the overlay ignores every event.
    pub fn handle_event(&mut self, event: Event) -> (a: Actions)
        requires
            old(self).wf(),
        ensures
            final(self).wf(),
            old(self).phase == Phase::Closed ==> *final(self) == *old(self) && a == no_actions(),
            old(self).phase != Phase::Closed ==> match event {
                Event::Closed => closed_spec(*old(self), *final(self), a),
                Event::Configure { width, height, output } => configure_spec(
                    *old(self),
                    *final(self),
                    a,
                    width,
                    height,
                    output,
                ),
                Event::FrameReady { now_ms } => frame_ready_spec(*old(self), *final(self), a, now_ms),
            },
    {
        let none = Actions {
            grow_pool: None,
            margins: None,
            commit_unpositioned: false,
            draw: false,
            request_frame: false,
            exit: false,
        };
        if self.is_closed() {
            return none;
        }
        match event {
            Event::Closed => {
                self.phase = Phase::Closed;
                Actions { exit: true, ..none }
            },
            Event::Configure { width, height, output } => self.configure(width, height, output),
            Event::FrameReady { now_ms } => {
                if let CrosshairImage::Gif(g) = &mut self.image {
                    g.advance(now_ms);
                    Actions { draw: true, request_frame: true, ..none }
                } else {
                    none
                }
            },
        }
    }

    fn configure(&mut self, width: u32, height: u32, output: Option<OutputInfo>) -> (a: Actions)
        requires
            old(self).wf(),
            old(self).phase != Phase::Closed,
        ensures
            final(self).wf(),
            configure_spec(*old(self), *final(self), a, width, height, output),
    {
        let nw = if width == 0 {
            self.width
        } else {
            width
        };
        let nh = if height == 0 {
            self.height
        } else {
            height
        };
        let grow_pool = self.pool.growth_target(
            frame_bytes_exec(nw, nh),
            frame_bytes_exec(self.width, self.height),
        );
        let changed = nw != self.width || nh != self.height;
        let first = match self.phase {
            Phase::AwaitingFirstConfigure => true,
            _ => false,
        };
        self.width = nw;
        self.height = nh;
        self.phase = Phase::Configured;
        let margins = match output {
            Some(info) => {
                let (top, left) = compute_margins(info, self.target_x, self.target_y);
                self.placement = Placement::Positioned { top, left };
                Some((top, left))
            },
            None => None,
        };
        let draw = first || changed;
        let unpositioned = match self.placement {
            Placement::Unpositioned => true,
            _ => false,
        };
        Actions {
            grow_pool,
            margins,
            commit_unpositioned: draw && unpositioned,
            draw,
            request_frame: draw && self.image.is_animated(),
            exit: false,
        }
    }

    pub open spec fn current_frame_spec(&self) -> Seq<u8> {
        match self.image {
            CrosshairImage::Static(f) => f.data@,
            CrosshairImage::Gif(g) => g.frames@[g.current_frame as int].data@,
        }
    }
}

} // verus!
