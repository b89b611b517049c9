//! The recording plan for a window and the decisions of the capture loop:
//! when to stop, and what to do with each capture result.
use vstd::prelude::*;

use super::window::WindowTarget;

verus! {

/// What to record, at which frame rate, and for how long (`None`: until stopped).
#[derive(Debug, Clone, PartialEq, Eq)]
pub struct RecorderConfig {
    pub target: WindowTarget,
    pub fps: u32,
    /// Seconds after which recording stops by itself.
    pub duration: Option<u32>,
}

/// The part of the screen that is captured: the window's bounds.
#[derive(Debug, Clone, Copy, PartialEq, Eq)]
pub struct CropArea {
    pub x: i32,
    pub y: i32,
    pub width: u32,
    pub height: u32,
}

/// Where the capturer takes its pictures from.
#[derive(Debug, Clone, Copy, PartialEq, Eq)]
pub enum CaptureSource {
    /// The whole main display (then cut to the crop area).
    MainDisplay,
}

/// The pixel format of captured frames.
#[derive(Debug, Clone, Copy, PartialEq, Eq)]
pub enum FrameFormat {
    /// Blue, green, red and alpha bytes per pixel.
    Bgra,
}

/// The size of the frames the capturer hands out.
#[derive(Debug, Clone, Copy, PartialEq, Eq)]
pub enum OutputResolution {
    /// Whatever the capturer uses when none is asked for.
    CapturerDefault,
}

/// The options the screen capturer is built with.
#[derive(Debug, Clone, Copy, PartialEq, Eq)]
pub struct CaptureSettings {
    pub fps: u32,
    pub show_cursor: bool,
    pub show_highlight: bool,
    pub source: CaptureSource,
    pub crop: CropArea,
    pub format: FrameFormat,
    pub output_resolution: OutputResolution,
    pub captures_audio: bool,
    pub exclude_current_process_audio: bool,
}

/// What the capture loop does after handing a frame to the encoder.
#[derive(Debug, Clone, Copy, PartialEq, Eq)]
pub enum DeliveryOutcome {
    /// Go on with the next frame.
    Continue,
    /// Leave the loop at once with the encoder's error, without stopping the
    /// capturer first.
    Abort,
}

/// A recording of one window: its configuration and the size of its frames.
/// The screen is captured whole and cut to the window's bounds, so frames
/// have the window's size.
#[derive(Debug)]
pub struct Recorder {
    config: RecorderConfig,
    frame_size: [u32; 2],
}

/// What the capture loop does before asking for the next frame.
#[derive(Debug, Clone, Copy, PartialEq, Eq)]
pub enum LoopStep {
    /// Leave the loop and stop capturing.
    Stop,
    /// Wait for the next frame.
    NextFrame,
}

/// What the capturer handed back when asked for a frame.
#[derive(Debug, Clone, Copy, PartialEq, Eq)]
pub enum FrameEvent {
    /// A video frame in BGRA pixels.
    Bgra,
    /// A frame of some other kind.
    Other,
    /// Capturing the frame failed.
    Failed,
}

/// What the capture loop does with a capture result.
#[derive(Debug, Clone, Copy, PartialEq, Eq)]
pub enum FrameAction {
    /// Hand the frame's pixels on to the encoder.
    Deliver,
    /// Drop it and go on.
    Skip,
    /// Leave the loop and stop capturing.
    Stop,
}

/// Recording stops when it is no longer wanted, or once the configured
/// duration has fully elapsed.
pub open spec fn stop_due(duration: Option<u32>, running: bool, elapsed_secs: u64) -> bool {
    !running || (duration matches Some(d) && elapsed_secs >= d)
}

/// The action for a capture result: a BGRA frame is delivered, other frames
/// are skipped, and a failure ends recording only when it is no longer wanted.
pub open spec fn frame_action(event: FrameEvent, running: bool) -> FrameAction {
    match event {
        FrameEvent::Bgra => FrameAction::Deliver,
        FrameEvent::Other => FrameAction::Skip,
        FrameEvent::Failed => if running {
            FrameAction::Skip
        } else {
            FrameAction::Stop
        },
    }
}

impl Recorder {
    /// The configuration the recording was made with.
    pub closed spec fn settings(&self) -> RecorderConfig {
        self.config
    }

    /// The size of the frames, width first.
    pub closed spec fn frame_dims(&self) -> (u32, u32) {
        (self.frame_size[0], self.frame_size[1])
    }

    /// A recording of `config.target`; its frames have the window's size.
    pub fn new(config: RecorderConfig) -> (r: Recorder)
        ensures
            r.settings() == config,
            r.frame_dims() == (config.target.width, config.target.height),
    {
        let frame_size = [config.target.width, config.target.height];
        Recorder { config, frame_size }
    }

    /// The output frame size, `[width, height]`.
    pub fn get_frame_size(&self) -> (r: [u32; 2])
        ensures
            r[0] == self.frame_dims().0,
            r[1] == self.frame_dims().1,
    {
        self.frame_size
    }

    /// The configuration the recording was made with.
    pub fn config(&self) -> (r: &RecorderConfig)
        ensures
            *r == self.settings(),
    {
        &self.config
    }

    /// The part of the screen to capture: the target window's bounds.
    pub fn crop_area(&self) -> (r: CropArea)
        ensures
            r == (CropArea {
                x: self.settings().target.x,
                y: self.settings().target.y,
                width: self.settings().target.width,
                height: self.settings().target.height,
            }),
    {
        CropArea {
            x: self.config.target.x,
            y: self.config.target.y,
            width: self.config.target.width,
            height: self.config.target.height,
        }
    }

    /// The capturer's options: the main display cut to the window's bounds,
    /// at the configured frame rate, with the cursor drawn and clicks not
    /// highlighted, BGRA frames at the capturer's default resolution, no audio.
    pub fn capture_settings(&self) -> (r: CaptureSettings)
        ensures
            r == (CaptureSettings {
                fps: self.settings().fps,
                show_cursor: true,
                show_highlight: false,
                source: CaptureSource::MainDisplay,
                crop: CropArea {
                    x: self.settings().target.x,
                    y: self.settings().target.y,
                    width: self.settings().target.width,
                    height: self.settings().target.height,
                },
                format: FrameFormat::Bgra,
                output_resolution: OutputResolution::CapturerDefault,
                captures_audio: false,
                exclude_current_process_audio: false,
            }),
    {
        CaptureSettings {
            fps: self.config.fps,
            show_cursor: true,
            show_highlight: false,
            source: CaptureSource::MainDisplay,
            crop: self.crop_area(),
            format: FrameFormat::Bgra,
            output_resolution: OutputResolution::CapturerDefault,
            captures_audio: false,
            exclude_current_process_audio: false,
        }
    }

    /// After a frame was handed to the encoder: go on when that worked, else
    /// abort the recording with the encoder's error.
    pub fn after_delivery(&self, delivered: bool) -> (r: DeliveryOutcome)
        ensures
            r == (if delivered {
                DeliveryOutcome::Continue
            } else {
                DeliveryOutcome::Abort
            }),
    {
        if delivered {
            DeliveryOutcome::Continue
        } else {
            DeliveryOutcome::Abort
        }
    }

    /// Before each frame: stop when recording is no longer wanted or the
    /// configured duration has elapsed, else wait for the next frame.
    pub fn poll(&self, running: bool, elapsed_secs: u64) -> (r: LoopStep)
        ensures
            r == (if stop_due(self.settings().duration, running, elapsed_secs) {
                LoopStep::Stop
            } else {
                LoopStep::NextFrame
            }),
    {
        if !running {
            return LoopStep::Stop;
        }
        match self.config.duration {
            Some(secs) => {
                if elapsed_secs >= secs as u64 {
                    LoopStep::Stop
                } else {
                    LoopStep::NextFrame
                }
            },
            None => LoopStep::NextFrame,
        }
    }

    /// After a capture result: what to do with it, given whether recording is
    /// still wanted at that moment.
    pub fn on_frame_event(&self, event: FrameEvent, running: bool) -> (r: FrameAction)
        ensures
            r == frame_action(event, running),
    {
        match event {
            FrameEvent::Bgra => FrameAction::Deliver,
            FrameEvent::Other => FrameAction::Skip,
            FrameEvent::Failed => if running {
                FrameAction::Skip
            } else {
                FrameAction::Stop
            },
        }
    }
}

/// Whether the progress line is due after `frames` frames: every 30 frames,
/// about once a second at the default rate.
pub fn progress_due(frames: u64) -> (r: bool)
    ensures
        r == (frames % 30 == 0),
{
    frames % 30 == 0
}

/// Once the loop has decided to stop, it stays stopped: later checks, with
/// more time elapsed, stop too.
pub proof fn law_stop_is_final(duration: Option<u32>, running: bool, t1: u64, t2: u64)
    requires
        t1 <= t2,
        stop_due(duration, running, t1),
    ensures
        stop_due(duration, running, t2),
{
}

/// A recording with a duration of `d` seconds stops once `d` seconds have elapsed.
pub proof fn law_duration_ends_recording(d: u32, running: bool, elapsed_secs: u64)
    requires
        elapsed_secs >= d,
    ensures
        stop_due(Some(d), running, elapsed_secs),
{
}

/// While recording is wanted, a recording with a duration of `d` seconds does
/// not stop before `d` seconds have elapsed: the loop waits for the next frame.
pub proof fn law_duration_not_cut_short(d: u32, elapsed_secs: u64)
    requires
        elapsed_secs < d,
    ensures
        !stop_due(Some(d), true, elapsed_secs),
        (if stop_due(Some(d), true, elapsed_secs) {
            LoopStep::Stop
        } else {
            LoopStep::NextFrame
        }) == LoopStep::NextFrame,
{
}

/// While recording is wanted and no duration is set, it never stops by itself.
pub proof fn law_no_duration_runs_until_stopped(elapsed_secs: u64)
    ensures
        !stop_due(None, true, elapsed_secs),
{
}

/// A recording that is no longer wanted stops at once, whatever its duration.
pub proof fn law_unwanted_stops(duration: Option<u32>, elapsed_secs: u64)
    ensures
        stop_due(duration, false, elapsed_secs),
{
}

/// Only BGRA frames reach the encoder, and a capture failure while recording
/// is wanted never ends the recording.
pub proof fn law_only_bgra_delivered(event: FrameEvent, running: bool)
    ensures
        frame_action(event, running) == FrameAction::Deliver <==> event == FrameEvent::Bgra,
        running ==> frame_action(event, running) != FrameAction::Stop,
{
}

} // verus!
