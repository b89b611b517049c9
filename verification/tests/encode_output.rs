use vloom::encode::ffmpeg::{check_exit, EncodeConfig};
use vloom::error::LoomError;
use vloom::output::clipboard::generate_llm_prompt;
use vloom::output::file_name::{chrono_timestamp, default_output_file_name, recordings_dir_name};

fn config() -> EncodeConfig {
    EncodeConfig::for_recording([1440, 900], 30, "/tmp/out.mp4".to_string(), (1280, 720))
}

#[test]
fn recording_config_uses_crf_23() {
    let c = config();
    assert_eq!(c.crf, 23);
    assert_eq!((c.width, c.height, c.fps), (1440, 900, 30));
    assert_eq!(c.target_resolution, (1280, 720));
}

#[test]
fn scale_filter_text() {
    assert_eq!(
        config().scale_filter(),
        "scale=1280:720:force_original_aspect_ratio=decrease,pad=1280:720:(ow-iw)/2:(oh-ih)/2"
    );
}

#[test]
fn ffmpeg_command_line() {
    let expected: Vec<String> = [
        "-y", "-f", "rawvideo", "-pixel_format", "bgra", "-video_size", "1440x900",
        "-framerate", "30", "-i", "-", "-c:v", "libx264", "-preset", "fast", "-crf", "23",
        "-pix_fmt", "yuv420p", "-vf",
        "scale=1280:720:force_original_aspect_ratio=decrease,pad=1280:720:(ow-iw)/2:(oh-ih)/2",
        "-movflags", "+faststart", "/tmp/out.mp4",
    ]
    .iter()
    .map(|s| s.to_string())
    .collect();
    assert_eq!(config().ffmpeg_args(), expected);
}

#[test]
fn ffmpeg_command_line_other_values() {
    let c = EncodeConfig {
        width: 7,
        height: 0,
        fps: 60,
        output_path: "a b.mp4".to_string(),
        target_resolution: (3840, 2160),
        crf: 23,
    };
    let args = c.ffmpeg_args();
    assert_eq!(args[6], "7x0");
    assert_eq!(args[8], "60");
    assert_eq!(args[16], "23");
    assert_eq!(args[20], "scale=3840:2160:force_original_aspect_ratio=decrease,pad=3840:2160:(ow-iw)/2:(oh-ih)/2");
    assert_eq!(args[23], "a b.mp4");
    assert_eq!(args.len(), 24);
}

#[test]
fn prompt_text() {
    let path = "/Users/you/loom-recordings/loom-2024-03-05_14-30-22.mp4";
    let expected = format!(
        r#"I recorded a video of a feature implementation. Please analyze this recording:

Video path: {}

The video shows my web application running in Chrome. Please:
1. Describe what you observe in the UI
2. Identify any potential UX improvements
3. Note any bugs or unexpected behavior

[Attach the video file to your message]
"#,
        path
    );
    assert_eq!(generate_llm_prompt(path), expected);
    assert!(generate_llm_prompt(path).contains(path));
}

#[test]
fn prompts_differ_with_paths() {
    assert_ne!(generate_llm_prompt("/a.mp4"), generate_llm_prompt("/b.mp4"));
}

#[test]
fn timestamp_at_epoch() {
    assert_eq!(chrono_timestamp(0), "1970-01-01_00-00-00");
}

#[test]
fn timestamp_end_of_first_day() {
    assert_eq!(chrono_timestamp(86399), "1970-01-01_23-59-59");
}

#[test]
fn timestamp_thirteenth_month() {
    assert_eq!(chrono_timestamp(86400 * 364), "1970-13-05_00-00-00");
}

#[test]
fn timestamp_recent_and_extreme() {
    assert_eq!(chrono_timestamp(1709649022), "2024-03-18_14-30-22");
    assert_eq!(chrono_timestamp(1725029869), "2024-09-16_14-57-49");
    assert_eq!(chrono_timestamp(u64::MAX), "584942419325-01-27_07-00-15");
}

#[test]
fn timestamps_of_consecutive_seconds_differ() {
    for t in [0u64, 59, 3599, 86399, 31535999, 1709649022] {
        assert_ne!(chrono_timestamp(t), chrono_timestamp(t + 1));
    }
}

#[test]
fn default_file_name() {
    assert_eq!(default_output_file_name(1709649022), "vloom-2024-03-18_14-30-22.mp4");
    assert_eq!(recordings_dir_name(), "vloom-recordings");
}

#[test]
fn video_size_argument_reads_back_as_resolution() {
    let c = config();
    let args = c.ffmpeg_args();
    let parsed = vloom::cli::Args {
        target: None,
        duration: None,
        output: None,
        fps: 30,
        resolution: args[6].clone(),
        list: false,
        verbose: false,
    }
    .resolution_tuple();
    assert_eq!(parsed, (c.width, c.height));
}

#[test]
fn encoder_exit_judgement() {
    assert_eq!(check_exit(true, "exit status: 0"), Ok(()));
    assert_eq!(
        check_exit(false, "exit status: 1"),
        Err(LoomError::EncodingFailed("ffmpeg exited with status: exit status: 1".to_string()))
    );
}

#[test]
fn timestamps_sort_in_time_order() {
    let times = [0u64, 59, 60, 3599, 3600, 86399, 86400, 86400 * 29, 86400 * 30, 86400 * 364, 86400 * 365, 1709649022, 1725029869];
    for w in times.windows(2) {
        assert!(chrono_timestamp(w[0]) <= chrono_timestamp(w[1]));
        assert!(default_output_file_name(w[0]) < default_output_file_name(w[1]));
    }
}
