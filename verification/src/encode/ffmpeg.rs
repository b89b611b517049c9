//! The settings of the H.264 encoder and the `ffmpeg` command line they make.
use vstd::prelude::*;

use crate::error::LoomError;
use crate::text::{decimal, push_decimal};

verus! {

/// How captured frames are encoded.
#[derive(Debug, PartialEq, Eq)]
pub struct EncodeConfig {
    /// Width of the raw input frames.
    pub width: u32,
    /// Height of the raw input frames.
    pub height: u32,
    /// Frames per second of the input.
    pub fps: u32,
    /// Where the video is written.
    pub output_path: String,
    /// The size the video is scaled and padded to.
    pub target_resolution: (u32, u32),
    /// Constant rate factor: lower is better quality and larger files.
    pub crf: u8,
}

/// The rate factor used for recordings: 23, the balance of quality and size
/// that the output format documents.
pub open spec fn recording_crf() -> u8 {
    23
}

/// The video filter that scales frames to fit `w`x`h`, keeping their aspect
/// ratio, and pads them to exactly that size, centred.
pub open spec fn scale_filter_text(w: u32, h: u32) -> Seq<char> {
    "scale="@ + decimal(w as nat) + ":"@ + decimal(h as nat)
        + ":force_original_aspect_ratio=decrease,pad="@ + decimal(w as nat) + ":"@ + decimal(
        h as nat,
    ) + ":(ow-iw)/2:(oh-ih)/2"@
}

/// The arguments given to `ffmpeg`: raw BGRA frames of the configured size and
/// rate on standard input, encoded as H.264 with the `fast` preset and the
/// configured rate factor, in YUV 4:2:0, scaled and padded to the target
/// resolution, with the index at the start of the file, written over any
/// existing file at the output path.
pub open spec fn ffmpeg_arguments(c: EncodeConfig) -> Seq<Seq<char>> {
    seq![
        "-y"@,
        "-f"@,
        "rawvideo"@,
        "-pixel_format"@,
        "bgra"@,
        "-video_size"@,
        decimal(c.width as nat) + "x"@ + decimal(c.height as nat),
        "-framerate"@,
        decimal(c.fps as nat),
        "-i"@,
        "-"@,
        "-c:v"@,
        "libx264"@,
        "-preset"@,
        "fast"@,
        "-crf"@,
        decimal(c.crf as nat),
        "-pix_fmt"@,
        "yuv420p"@,
        "-vf"@,
        scale_filter_text(c.target_resolution.0, c.target_resolution.1),
        "-movflags"@,
        "+faststart"@,
        c.output_path@,
    ]
}

impl EncodeConfig {
    /// The settings for recording frames of `frame_size` at `fps` into
    /// `output_path`, scaled to `target_resolution`, at the recording rate factor.
    pub fn for_recording(
        frame_size: [u32; 2],
        fps: u32,
        output_path: String,
        target_resolution: (u32, u32),
    ) -> (r: EncodeConfig)
        ensures
            r == (EncodeConfig {
                width: frame_size[0],
                height: frame_size[1],
                fps,
                output_path,
                target_resolution,
                crf: recording_crf(),
            }),
    {
        EncodeConfig {
            width: frame_size[0],
            height: frame_size[1],
            fps,
            output_path,
            target_resolution,
            crf: 23,
        }
    }

    /// The scale-and-pad video filter for the target resolution.
    pub fn scale_filter(&self) -> (r: String)
        ensures
            r@ == scale_filter_text(self.target_resolution.0, self.target_resolution.1),
    {
        let (w, h) = self.target_resolution;
        let mut s = String::from_str("scale=");
        push_decimal(&mut s, w as u64);
        s.append(":");
        push_decimal(&mut s, h as u64);
        s.append(":force_original_aspect_ratio=decrease,pad=");
        push_decimal(&mut s, w as u64);
        s.append(":");
        push_decimal(&mut s, h as u64);
        s.append(":(ow-iw)/2:(oh-ih)/2");
        s
    }

    /// The arguments for the `ffmpeg` encoder process.
    pub fn ffmpeg_args(&self) -> (r: Vec<String>)
        ensures
            r@.map_values(|a: String| a@) == ffmpeg_arguments(*self),
    {
        let mut size = String::new();
        push_decimal(&mut size, self.width as u64);
        size.append("x");
        push_decimal(&mut size, self.height as u64);
        let mut rate = String::new();
        push_decimal(&mut rate, self.fps as u64);
        let mut crf = String::new();
        push_decimal(&mut crf, self.crf as u64);
        let filter = self.scale_filter();
        let mut v: Vec<String> = Vec::new();
        v.push(String::from_str("-y"));
        v.push(String::from_str("-f"));
        v.push(String::from_str("rawvideo"));
        v.push(String::from_str("-pixel_format"));
        v.push(String::from_str("bgra"));
        v.push(String::from_str("-video_size"));
        v.push(size);
        v.push(String::from_str("-framerate"));
        v.push(rate);
        v.push(String::from_str("-i"));
        v.push(String::from_str("-"));
        v.push(String::from_str("-c:v"));
        v.push(String::from_str("libx264"));
        v.push(String::from_str("-preset"));
        v.push(String::from_str("fast"));
        v.push(String::from_str("-crf"));
        v.push(crf);
        v.push(String::from_str("-pix_fmt"));
        v.push(String::from_str("yuv420p"));
        v.push(String::from_str("-vf"));
        v.push(filter);
        v.push(String::from_str("-movflags"));
        v.push(String::from_str("+faststart"));
        v.push(self.output_path.clone());
        assert(v@.map_values(|a: String| a@) =~= ffmpeg_arguments(*self));
        v
    }
}

/// How the encoder's exit is judged: success, or an encoding failure that
/// quotes the exit status as the system describes it.
pub fn check_exit(success: bool, status: &str) -> (r: Result<(), LoomError>)
    ensures
        success ==> r is Ok,
        !success ==> (r matches Err(LoomError::EncodingFailed(m)) && m@
            == "ffmpeg exited with status: "@ + status@),
{
    if success {
        Ok(())
    } else {
        let mut m = String::from_str("ffmpeg exited with status: ");
        m.append(status);
        Err(LoomError::EncodingFailed(m))
    }
}

/// Each setting reads back from the argument after its option: the rate
/// factor after `-crf`, the frame rate after `-framerate`, the output path
/// last; the input is standard input and the codec H.264.
pub proof fn law_arguments_carry_settings(c: EncodeConfig)
    ensures
        ffmpeg_arguments(c).len() == 24,
        ffmpeg_arguments(c)[15] == "-crf"@,
        crate::text::parse_unsigned(ffmpeg_arguments(c)[16], 255) == Some(c.crf as nat),
        ffmpeg_arguments(c)[7] == "-framerate"@,
        crate::text::parse_unsigned(ffmpeg_arguments(c)[8], u32::MAX as nat) == Some(c.fps as nat),
        ffmpeg_arguments(c)[5] == "-video_size"@,
        ffmpeg_arguments(c)[9] == "-i"@,
        ffmpeg_arguments(c)[10] == "-"@,
        ffmpeg_arguments(c)[11] == "-c:v"@,
        ffmpeg_arguments(c)[12] == "libx264"@,
        ffmpeg_arguments(c)[19] == "-vf"@,
        ffmpeg_arguments(c)[20] == scale_filter_text(c.target_resolution.0, c.target_resolution.1),
        ffmpeg_arguments(c)[23] == c.output_path@,
{
    crate::text::lemma_parse_decimal(c.crf as nat, 255);
    crate::text::lemma_parse_decimal(c.fps as nat, u32::MAX as nat);
}

/// Configurations that differ in their rate factor give different command lines.
pub proof fn law_crf_changes_arguments(c1: EncodeConfig, c2: EncodeConfig)
    requires
        c1.crf != c2.crf,
    ensures
        ffmpeg_arguments(c1) != ffmpeg_arguments(c2),
{
    law_arguments_carry_settings(c1);
    law_arguments_carry_settings(c2);
}

/// The frame size that `ffmpeg` is told, read back the way the resolution
/// option is read, is the configured frame size.
pub proof fn law_video_size_reads_back(c: EncodeConfig)
    ensures
        crate::cli::resolution_of(ffmpeg_arguments(c)[6]) == (c.width, c.height),
{
    crate::cli::law_resolution_round_trip(c.width, c.height);
    assert(ffmpeg_arguments(c)[6] == decimal(c.width as nat) + "x"@ + decimal(c.height as nat));
    assert("x"@ == seq!['x']) by {
        reveal_strlit("x");
    }
}

} // verus!
