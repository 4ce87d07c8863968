//! Loopback lifecycle and stream-buffer decisions of the audio service.
//!
//! The application owns the audio devices, streams and worker threads; this
//! module owns the service's state (whether loopback runs, the preferred
//! buffer size) and tells the application what to start, stop or rebuild.
use vstd::prelude::*;

verus! {

/// A stream's requested buffer size, as an audio host configures it.
#[derive(PartialEq, Eq, Structural, Clone, Copy, Debug)]
pub enum BufferSizeSetting {
    /// Let the host choose.
    Default,
    /// This many frames.
    Fixed(u32),
}

/// The frame count used when the host chooses the buffer size.
pub const DEFAULT_BUFFER_FRAMES: u32 = 256;

/// Smallest buffer size, in frames, that a user may select.
pub const MIN_BUFFER_FRAMES: u32 = 64;

/// Largest buffer size, in frames, that a user may select.
pub const MAX_BUFFER_FRAMES: u32 = 4096;

/// Smallest ring buffer between the audio callbacks and the worker.
pub const MIN_RING_BUFFER_SAMPLES: usize = 512;

/// The frame count of a buffer-size setting.
pub open spec fn frames_of(setting: BufferSizeSetting) -> u32 {
    match setting {
        BufferSizeSetting::Fixed(f) => f,
        BufferSizeSetting::Default => DEFAULT_BUFFER_FRAMES,
    }
}

impl BufferSizeSetting {
    /// The frame count, with 256 frames when the host chooses.
    pub fn frames_or_default(self) -> (r: u32)
        ensures
            r == frames_of(self),
    {
        match self {
            BufferSizeSetting::Fixed(f) => f,
            BufferSizeSetting::Default => DEFAULT_BUFFER_FRAMES,
        }
    }
}

/// The ring-buffer size for a stream of `frames` frames: four buffers' worth,
/// and never under 512 samples.
pub open spec fn ring_buffer_size_for(frames: int) -> int {
    if frames * 4 > MIN_RING_BUFFER_SAMPLES {
        frames * 4
    } else {
        MIN_RING_BUFFER_SAMPLES as int
    }
}

/// The ring-buffer size for a stream of `frames` frames.
pub fn ring_buffer_size(frames: u32) -> (r: usize)
    requires
        4 * frames <= usize::MAX,
    ensures
        r == ring_buffer_size_for(frames as int),
        r >= MIN_RING_BUFFER_SAMPLES,
        r >= 4 * frames,
{
    let f = frames as usize * 4;
    if f > MIN_RING_BUFFER_SAMPLES {
        f
    } else {
        MIN_RING_BUFFER_SAMPLES
    }
}

/// What the application must do with the loopback worker.
#[derive(PartialEq, Eq, Structural, Clone, Copy, Debug)]
pub enum LoopbackAction {
    /// Nothing.
    Keep,
    /// Open the streams and start the worker.
    Start,
    /// Stop the worker and join it.
    Stop,
}

/// How the application must replace the audio handler (devices and stream
/// configurations).
#[derive(PartialEq, Eq, Structural, Clone, Copy, Debug)]
pub enum HandlerSwap {
    /// Keep the current handler.
    Unchanged,
    /// Build the new handler; when `restart` holds, stop the running loopback
    /// before the swap and start it again after.
    Replace { restart: bool },
}

/// The state of the audio service: whether the loopback runs and the buffer
/// size the user prefers for both streams.
pub struct AudioService {
    is_active: bool,
    preferred_buffer_frames: u32,
}

impl AudioService {
    /// Whether the loopback runs.
    pub closed spec fn active(&self) -> bool {
        self.is_active
    }

    /// The preferred stream buffer size in frames.
    pub closed spec fn frames(&self) -> u32 {
        self.preferred_buffer_frames
    }

    /// A stopped service whose preferred buffer size is the one of the output
    /// stream's configuration (256 frames when the host chooses).
    pub fn new_with_handler(output_buffer_size: BufferSizeSetting) -> (r: Self)
        ensures
            !r.active(),
            r.frames() == frames_of(output_buffer_size),
    {
        AudioService { is_active: false, preferred_buffer_frames: output_buffer_size.frames_or_default() }
    }

    /// Whether the loopback runs.
    pub fn is_active(&self) -> (r: bool)
        ensures
            r == self.active(),
    {
        self.is_active
    }

    /// The user-selected stream buffer size in frames.
    pub fn buffer_size_frames(&self) -> (r: u32)
        ensures
            r == self.frames(),
    {
        self.preferred_buffer_frames
    }

    /// The buffer size both streams are built with after a device switch.
    pub fn stream_buffer_size(&self) -> (r: BufferSizeSetting)
        ensures
            r == BufferSizeSetting::Fixed(self.frames()),
    {
        BufferSizeSetting::Fixed(self.preferred_buffer_frames)
    }

    /// The ring-buffer size between the audio callbacks and the worker.
    pub fn loopback_ring_buffer_size(&self) -> (r: usize)
        requires
            4 * self.frames() <= usize::MAX,
        ensures
            r == ring_buffer_size_for(self.frames() as int),
    {
        ring_buffer_size(self.preferred_buffer_frames)
    }

    /// Marks the loopback as running; `true` when it was stopped and the
    /// worker must now be started, `false` (a no-op) when it already ran.
    pub fn start_loopback(&mut self) -> (r: bool)
        ensures
            r == !old(self).active(),
            final(self).active(),
            final(self).frames() == old(self).frames(),
    {
        if self.is_active {
            return false;
        }
        self.is_active = true;
        true
    }

    /// Marks the loopback as stopped; `true` when it ran and the worker must
    /// now be stopped, `false` (a no-op) when it was not running.
    pub fn stop_loopback(&mut self) -> (r: bool)
        ensures
            r == old(self).active(),
            !final(self).active(),
            final(self).frames() == old(self).frames(),
    {
        if !self.is_active {
            return false;
        }
        self.is_active = false;
        true
    }

    /// Switches the loopback on or off; the loopback ends in the requested
    /// state, and only a change of state asks for work.
    pub fn toggle_loopback(&mut self, is_on: bool) -> (r: LoopbackAction)
        ensures
            final(self).active() == is_on,
            final(self).frames() == old(self).frames(),
            r == (if old(self).active() == is_on {
                LoopbackAction::Keep
            } else if is_on {
                LoopbackAction::Start
            } else {
                LoopbackAction::Stop
            }),
    {
        if self.is_active == is_on {
            return LoopbackAction::Keep;
        }
        if is_on {
            self.start_loopback();
            LoopbackAction::Start
        } else {
            self.stop_loopback();
            LoopbackAction::Stop
        }
    }

    /// Replaces the audio handler: a running loopback is stopped for the swap
    /// and restarted after it, so whether it runs does not change.
    pub fn set_audio_handler(&mut self) -> (r: HandlerSwap)
        ensures
            r == (HandlerSwap::Replace { restart: old(self).active() }),
            final(self).active() == old(self).active(),
            final(self).frames() == old(self).frames(),
    {
        let was_active = self.is_active;
        if was_active {
            self.stop_loopback();
        }
        if was_active {
            self.start_loopback();
        }
        HandlerSwap::Replace { restart: was_active }
    }

    /// Applies a user-selected buffer size to both streams: refused outside
    /// 64..=4096 frames, a no-op when unchanged, else the handler is rebuilt
    /// with the new size.
    pub fn set_buffer_size_frames(&mut self, frames: u32) -> (r: Result<HandlerSwap, String>)
        ensures
            final(self).active() == old(self).active(),
            !(MIN_BUFFER_FRAMES <= frames <= MAX_BUFFER_FRAMES) ==> {
                &&& r matches Err(e) && e@ == "Buffer size must be between 64 and 4096 frames"@
                &&& final(self).frames() == old(self).frames()
            },
            MIN_BUFFER_FRAMES <= frames <= MAX_BUFFER_FRAMES ==> {
                &&& final(self).frames() == frames
                &&& r matches Ok(swap) && swap == (if old(self).frames() == frames {
                    HandlerSwap::Unchanged
                } else {
                    HandlerSwap::Replace { restart: old(self).active() }
                })
            },
    {
        if !(MIN_BUFFER_FRAMES <= frames && frames <= MAX_BUFFER_FRAMES) {
            return Err(String::from_str("Buffer size must be between 64 and 4096 frames"));
        }
        if self.preferred_buffer_frames == frames {
            return Ok(HandlerSwap::Unchanged);
        }
        self.preferred_buffer_frames = frames;
        Ok(self.set_audio_handler())
    }

    /// Switches the input device: the new input stream uses the preferred
    /// buffer size, and the handler is replaced.
    pub fn set_input_device(&mut self) -> (r: (BufferSizeSetting, HandlerSwap))
        ensures
            r.0 == BufferSizeSetting::Fixed(old(self).frames()),
            r.1 == (HandlerSwap::Replace { restart: old(self).active() }),
            final(self).active() == old(self).active(),
            final(self).frames() == old(self).frames(),
    {
        let size = self.stream_buffer_size();
        let swap = self.set_audio_handler();
        (size, swap)
    }

    /// Switches the output device: the new output stream uses the preferred
    /// buffer size, and the handler is replaced.
    pub fn set_output_device(&mut self) -> (r: (BufferSizeSetting, HandlerSwap))
        ensures
            r.0 == BufferSizeSetting::Fixed(old(self).frames()),
            r.1 == (HandlerSwap::Replace { restart: old(self).active() }),
            final(self).active() == old(self).active(),
            final(self).frames() == old(self).frames(),
    {
        let size = self.stream_buffer_size();
        let swap = self.set_audio_handler();
        (size, swap)
    }
}

} // verus!
