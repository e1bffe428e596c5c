//! The run configuration and the window's initial placement.

use vstd::prelude::*;

verus! {

/// Options for running the engine's event loop.
#[derive(Clone, Copy, Debug)]
pub struct Config {
    /// Present frames in sync with the display's vertical blank ("vsync").
    ///
    /// When `true`, frames are presented once per vertical blank and the
    /// frame rate is capped at the display's refresh rate. When `false`,
    /// frames are presented as soon as they are rendered, uncapped.
    pub vsync: bool,
    /// The window's initial inner size in logical pixels, `[width, height]`.
    ///
    /// `None` keeps the platform default. The user can resize the window
    /// afterwards; this only sets the size it opens at.
    pub window_size: Option<[u32; 2]>,
}

impl Default for Config {
    /// Vsync on, and the platform's default window size.
    fn default() -> (config: Self)
        ensures
            config.vsync,
            config.window_size is None,
    {
        Config { vsync: true, window_size: None }
    }
}

/// The offset along one axis that centers an extent of `frame` pixels in
/// an extent of `screen` pixels, or 0 when the frame is the larger.
pub open spec fn centered_offset(screen: u32, frame: u32) -> int {
    if screen >= frame {
        (screen - frame) / 2
    } else {
        0
    }
}

/// The outer position, in physical pixels, that centers a window whose
/// outer frame (title bar and borders included) is `frame` pixels on a
/// monitor of `screen` pixels, `[width, height]`. When the window is
/// larger than the monitor along an axis, it is clamped to the monitor's
/// top-left along that axis.
///
/// Where the window fits, its two margins differ by at most one pixel,
/// the right (or bottom) one being the larger.
pub fn centered_position(screen: [u32; 2], frame: [u32; 2]) -> (pos: [i32; 2])
    ensures
        pos[0] == centered_offset(screen[0], frame[0]),
        pos[1] == centered_offset(screen[1], frame[1]),
        forall|axis: int|
            0 <= axis < 2 && screen[axis] >= frame[axis] ==> {
                let margin = screen[axis] - frame[axis] - pos[axis];
                margin == pos[axis] || margin == pos[axis] + 1
            },
{
    let x = if screen[0] >= frame[0] {
        ((screen[0] - frame[0]) / 2) as i32
    } else {
        0
    };
    let y = if screen[1] >= frame[1] {
        ((screen[1] - frame[1]) / 2) as i32
    } else {
        0
    };
    [x, y]
}

} // verus!
