//! The host's half of the engine bridge: the frame buffer that the engine
//! draws into, and what the host answers when the engine calls back.
//!
//! The engine itself is reached by the worker. It hands the worker's
//! questions and the engine's answers to this type as plain values.

use crate::pixel::{memory_image, pixels_as_bytes};
use crate::schedule::Event;
use crate::screen::{clone_pixels, pixel_buffer_bytes, pixel_buffer_size, PixelBuffer};
use vstd::prelude::*;

verus! {

/// The host's half of the bridge, as the contracts see it.
pub struct Bridge {
    /// The width of the screen, in pixels.
    pub width: u32,
    /// The height of the screen, in pixels.
    pub height: u32,
    /// The frame buffer, row by row.
    pub pixels: Seq<u32>,
    /// A frame was completed since the engine was last called.
    pub frame_ready: bool,
}

/// A call of the engine that the worker has to make.
#[derive(Debug, Clone, Copy, PartialEq, Eq, Structural)]
pub enum EngineCall {
    /// Let the engine run up to its next point of rest.
    Run,
    /// Switch the engine's turbo mode, in which it keeps no time.
    SetTurbo { on: bool, no_frame_skip: bool },
}

/// The host's half of the bridge to the engine.
pub struct SameBoy {
    framebuffer: Vec<u32>,
    width: u32,
    height: u32,
    frame_ready: bool,
}

/// A run of pixels cut down or filled up with black to the given length.
pub open spec fn resized(pixels: Seq<u32>, len: nat) -> Seq<u32> {
    Seq::new(
        len,
        |i: int|
            if i < pixels.len() {
                pixels[i]
            } else {
                0u32
            },
    )
}

impl SameBoy {
    /// What the contracts say of the bridge.
    pub closed spec fn view(&self) -> Bridge {
        Bridge {
            width: self.width,
            height: self.height,
            pixels: self.framebuffer@,
            frame_ready: self.frame_ready,
        }
    }

    /// The frame buffer has one pixel for each point of the screen.
    pub open spec fn wf(&self) -> bool {
        self@.pixels.len() == self@.width * self@.height
    }

    /// The host's half of a bridge to an engine that has just been set up
    /// and reports a screen of the given size: a black frame buffer of that
    /// size.
    pub fn new(width: u32, height: u32) -> (host: Self)
        requires
            width * height <= usize::MAX,
        ensures
            host.wf(),
            host@ == (Bridge {
                width,
                height,
                pixels: resized(Seq::empty(), (width * height) as nat),
                frame_ready: false,
            }),
    {
        let mut host = SameBoy { framebuffer: Vec::new(), width: 0, height: 0, frame_ready: false };
        host.resize_framebuffer(width, height);
        host
    }

    /// Brings the frame buffer to the size of the screen that the engine
    /// reports. The pixels that stay keep their place in the buffer.
    fn resize_framebuffer(&mut self, width: u32, height: u32)
        requires
            width * height <= usize::MAX,
        ensures
            final(self).wf(),
            final(self)@ == (Bridge {
                width,
                height,
                pixels: resized(old(self)@.pixels, (width * height) as nat),
                frame_ready: old(self)@.frame_ready,
            }),
    {
        assert(width * height == (width as usize) * (height as usize)) by (nonlinear_arith)
            requires
                width * height <= usize::MAX,
        ;
        let len = width as usize * height as usize;
        self.framebuffer.resize(len, 0);
        self.width = width;
        self.height = height;
        assert(self.framebuffer@ =~= resized(old(self)@.pixels, len as nat));
    }

    /// The engine was switched to another hardware model and reset, and
    /// reports a screen of the given size: the frame buffer takes that size.
    pub fn change_model(&mut self, width: u32, height: u32)
        requires
            width * height <= usize::MAX,
        ensures
            final(self).wf(),
            final(self)@ == (Bridge {
                width,
                height,
                pixels: resized(old(self)@.pixels, (width * height) as nat),
                frame_ready: old(self)@.frame_ready,
            }),
    {
        self.resize_framebuffer(width, height);
    }

    /// The width of the screen, in pixels.
    pub fn width(&self) -> (width: u32)
        ensures
            width == self@.width,
    {
        self.width
    }

    /// The height of the screen, in pixels.
    pub fn height(&self) -> (height: u32)
        ensures
            height == self@.height,
    {
        self.height
    }

    /// The frame buffer, row by row.
    pub fn framebuffer(&self) -> (pixels: &[u32])
        ensures
            pixels@ == self@.pixels,
    {
        self.framebuffer.as_slice()
    }

    /// The frame buffer, for the engine to draw into. What is written
    /// through the slice is in the frame buffer afterwards; nothing else
    /// changes.
    pub fn framebuffer_mut(&mut self) -> (pixels: &mut [u32])
        ensures
            pixels@ == old(self)@.pixels,
            final(self)@ == (Bridge { pixels: final(pixels)@, ..old(self)@ }),
    {
        self.framebuffer.as_mut_slice()
    }

    /// A copy of the frame buffer as it is now, for the user interface: four
    /// bytes for each point of the screen.
    fn update_screen(&self) -> (frame: PixelBuffer)
        requires
            self.wf(),
        ensures
            pixel_buffer_bytes(frame) == memory_image(self@.pixels),
            pixel_buffer_bytes(frame).len() == 4 * (self@.width * self@.height),
            pixel_buffer_size(frame) == (self@.width, self@.height),
    {
        let bytes = pixels_as_bytes(self.framebuffer.as_slice());
        clone_pixels(bytes, self.width, self.height)
    }

    /// The engine has completed a frame: notes it, and copies the frame for
    /// the user interface.
    pub fn vblank_callback(&mut self) -> (frame: PixelBuffer)
        requires
            old(self).wf(),
        ensures
            final(self)@ == (Bridge { frame_ready: true, ..old(self)@ }),
            pixel_buffer_bytes(frame) == memory_image(old(self)@.pixels),
            pixel_buffer_bytes(frame).len() == 4 * (old(self)@.width * old(self)@.height),
            pixel_buffer_size(frame) == (old(self)@.width, old(self)@.height),
    {
        self.frame_ready = true;
        self.update_screen()
    }

    /// Everything that the user interface shows of the engine's state: at
    /// present, the screen.
    pub fn render_everything(&self) -> (frame: PixelBuffer)
        requires
            self.wf(),
        ensures
            pixel_buffer_bytes(frame) == memory_image(self@.pixels),
            pixel_buffer_bytes(frame).len() == 4 * (self@.width * self@.height),
            pixel_buffer_size(frame) == (self@.width, self@.height),
    {
        self.update_screen()
    }

    /// The engine calls that let the engine run once, with its ordinary
    /// timing. While they are made, the engine may call back any number of
    /// times.
    pub fn run_once(&mut self) -> (calls: [EngineCall; 1])
        ensures
            calls@ == seq![EngineCall::Run],
            final(self)@ == (Bridge { frame_ready: false, ..old(self)@ }),
    {
        self.frame_ready = false;
        let calls = [EngineCall::Run];
        assert(calls@ =~= seq![EngineCall::Run]);
        calls
    }

    /// The engine calls that make a single step: timekeeping is switched
    /// off, the engine runs once, and timekeeping is switched on again.
    pub fn step(&mut self) -> (calls: [EngineCall; 3])
        ensures
            calls@ == seq![
                EngineCall::SetTurbo { on: true, no_frame_skip: true },
                EngineCall::Run,
                EngineCall::SetTurbo { on: false, no_frame_skip: true },
            ],
            final(self)@ == (Bridge { frame_ready: false, ..old(self)@ }),
    {
        self.frame_ready = false;
        let calls = [
            EngineCall::SetTurbo { on: true, no_frame_skip: true },
            EngineCall::Run,
            EngineCall::SetTurbo { on: false, no_frame_skip: true },
        ];
        assert(calls@ =~= seq![
            EngineCall::SetTurbo { on: true, no_frame_skip: true },
            EngineCall::Run,
            EngineCall::SetTurbo { on: false, no_frame_skip: true },
        ]);
        calls
    }

    /// The engine calls of `run_once` or `step` have been made: what the
    /// worker reports to the scheduler.
    pub fn engine_returned(&self) -> (event: Event)
        ensures
            event == (Event::Yielded { frame_ready: self@.frame_ready }),
    {
        Event::Yielded { frame_ready: self.frame_ready }
    }
}

} // verus!
