use vloom::capture::recorder::{
    progress_due, CaptureSettings, CaptureSource, CropArea, DeliveryOutcome, FrameAction, FrameEvent,
    FrameFormat, LoopStep, OutputResolution, Recorder, RecorderConfig,
};
use vloom::capture::window::{
    choice_entry_line, choose_target, filter_windows, get_window_dimensions, list_all_windows,
    list_entry_line, select_window, selection_prompt, CaptureTarget, ContentWindow,
    ShareableContent, TargetChoice, TargetReading, WindowFrame, WindowTarget,
};
use vloom::error::LoomError;

fn win(title: &str, width: u32, height: u32, x: i32, y: i32) -> WindowTarget {
    WindowTarget { title: title.to_string(), width, height, x, y }
}

fn three_windows() -> Vec<WindowTarget> {
    vec![
        win("Google Chrome - GitHub", 1440, 900, 0, 25),
        win("VS Code - main.rs", 1200, 800, 100, 50),
        win("Slack - general", 800, 600, -300, 10),
    ]
}

fn content() -> ShareableContent {
    ShareableContent {
        windows: vec![
            ContentWindow { id: 7, frame: WindowFrame { width: 1440, height: 900, x: 0, y: 25 } },
            ContentWindow { id: 9, frame: WindowFrame { width: 800, height: 600, x: -300, y: 10 } },
            ContentWindow { id: 7, frame: WindowFrame { width: 1, height: 1, x: 1, y: 1 } },
        ],
        displays: vec![
            WindowFrame { width: 2560, height: 1600, x: 0, y: 0 },
            WindowFrame { width: 1920, height: 1080, x: 2560, y: 0 },
        ],
    }
}

#[test]
fn dimensions_of_known_window_come_from_first_match() {
    let t = CaptureTarget::Window { id: 7, title: "GitHub".to_string() };
    assert_eq!(get_window_dimensions(&t, &Some(content())), (1440, 900, 0, 25));
    let t = CaptureTarget::Window { id: 9, title: "Slack".to_string() };
    assert_eq!(get_window_dimensions(&t, &Some(content())), (800, 600, -300, 10));
}

#[test]
fn dimensions_of_unknown_window_default_to_720p() {
    let t = CaptureTarget::Window { id: 42, title: "Gone".to_string() };
    assert_eq!(get_window_dimensions(&t, &Some(content())), (1280, 720, 0, 0));
    assert_eq!(get_window_dimensions(&t, &None), (1280, 720, 0, 0));
}

#[test]
fn dimensions_of_display() {
    let t = CaptureTarget::Display { id: 1 };
    assert_eq!(get_window_dimensions(&t, &Some(content())), (2560, 1600, 0, 0));
    assert_eq!(get_window_dimensions(&t, &None), (1920, 1080, 0, 0));
    let empty = ShareableContent { windows: vec![], displays: vec![] };
    assert_eq!(get_window_dimensions(&t, &Some(empty)), (1920, 1080, 0, 0));
}

fn read_all(targets: &[CaptureTarget], content: &Option<ShareableContent>) -> Vec<TargetReading> {
    targets
        .iter()
        .map(|t| TargetReading { target: t.clone(), content: content.clone() })
        .collect()
}

fn sample_targets() -> Vec<CaptureTarget> {
    vec![
        CaptureTarget::Display { id: 1 },
        CaptureTarget::Window { id: 9, title: "Slack - general".to_string() },
        CaptureTarget::Window { id: 3, title: String::new() },
        CaptureTarget::Window { id: 7, title: "Google Chrome - GitHub".to_string() },
        CaptureTarget::Window { id: 5, title: "Unplaced".to_string() },
    ]
}

#[test]
fn listing_keeps_titled_windows_in_order() {
    let targets = sample_targets();
    let listed = list_all_windows(&read_all(&targets, &Some(content()))).unwrap();
    assert_eq!(
        listed,
        vec![
            win("Slack - general", 800, 600, -300, 10),
            win("Google Chrome - GitHub", 1440, 900, 0, 25),
            win("Unplaced", 1280, 720, 0, 0),
        ]
    );
    let listed = list_all_windows(&read_all(&targets, &None)).unwrap();
    assert_eq!(listed.len(), 3);
    assert!(listed.iter().all(|w| (w.width, w.height, w.x, w.y) == (1280, 720, 0, 0)));
}

#[test]
fn listing_looks_each_window_up_in_its_own_reading() {
    let targets = sample_targets();
    let mut readings = read_all(&targets, &Some(content()));
    // The reading for the second window failed; the first one's stands.
    readings[3].content = None;
    let listed = list_all_windows(&readings).unwrap();
    assert_eq!(
        listed,
        vec![
            win("Slack - general", 800, 600, -300, 10),
            win("Google Chrome - GitHub", 1280, 720, 0, 0),
            win("Unplaced", 1280, 720, 0, 0),
        ]
    );
}

#[test]
fn listing_of_nothing_is_empty() {
    assert_eq!(list_all_windows(&vec![]), Ok(vec![]));
}

#[test]
fn filter_is_partial_and_ignores_case() {
    let ws = three_windows();
    assert_eq!(filter_windows(&ws, "github"), vec![ws[0].clone()]);
    assert_eq!(filter_windows(&ws, " - "), ws.clone());
    assert_eq!(filter_windows(&ws, "zoom"), vec![]);
    assert_eq!(filter_windows(&ws, ""), ws.clone());
}

#[test]
fn choice_without_windows() {
    assert_eq!(choose_target(&vec![], Some("x")), TargetChoice::NoWindows);
    assert_eq!(choose_target(&vec![], None), TargetChoice::NoWindows);
}

#[test]
fn choice_without_filter_prompts_all() {
    let ws = three_windows();
    assert_eq!(choose_target(&ws, None), TargetChoice::Prompt(ws.clone()));
    let one = vec![win("Only", 1, 1, 0, 0)];
    assert_eq!(choose_target(&one, None), TargetChoice::Prompt(one.clone()));
}

#[test]
fn choice_with_filter() {
    let ws = three_windows();
    assert_eq!(choose_target(&ws, Some("CODE")), TargetChoice::Selected(ws[1].clone()));
    assert_eq!(choose_target(&ws, Some("nothing here")), TargetChoice::NoMatch);
    assert_eq!(
        choose_target(&ws, Some("e")),
        TargetChoice::Prompt(ws.clone())
    );
    assert_eq!(
        choose_target(&ws, Some("g")),
        TargetChoice::Prompt(vec![ws[0].clone(), ws[2].clone()])
    );
}

#[test]
fn selection_by_number() {
    let ws = three_windows();
    assert_eq!(select_window(&ws, "1\n"), Ok(ws[0].clone()));
    assert_eq!(select_window(&ws, "  3  \n"), Ok(ws[2].clone()));
    assert_eq!(select_window(&ws, "+2"), Ok(ws[1].clone()));
    assert_eq!(select_window(&ws, "02"), Ok(ws[1].clone()));
}

#[test]
fn selection_out_of_range_or_garbage() {
    let ws = three_windows();
    assert_eq!(select_window(&ws, "0"), Err(LoomError::WindowNotFound));
    assert_eq!(select_window(&ws, "4"), Err(LoomError::WindowNotFound));
    assert_eq!(select_window(&ws, "two"), Err(LoomError::WindowNotFound));
    assert_eq!(select_window(&ws, ""), Err(LoomError::WindowNotFound));
    assert_eq!(select_window(&ws, "-1"), Err(LoomError::WindowNotFound));
    assert_eq!(select_window(&ws, "1 2"), Err(LoomError::WindowNotFound));
    assert_eq!(select_window(&ws, "99999999999999999999999999"), Err(LoomError::WindowNotFound));
    assert_eq!(select_window(&vec![], "1"), Err(LoomError::WindowNotFound));
}

#[test]
fn listed_number_selects_that_window() {
    let ws = three_windows();
    for (i, w) in ws.iter().enumerate() {
        let line = list_entry_line(i + 1, w);
        let number: String = line.trim_start().trim_start_matches('[').chars().take_while(|c| c.is_ascii_digit()).collect();
        assert_eq!(select_window(&ws, &format!(" {}\n", number)), Ok(w.clone()));
    }
}

#[test]
fn list_lines() {
    let w = win("Slack - general", 800, 600, -300, 10);
    assert_eq!(list_entry_line(3, &w), "  [3] Slack - general");
    assert_eq!(choice_entry_line(3, &w), "  [3] Slack - general (800x600 at -300,10)");
    assert_eq!(selection_prompt(3), "Select window [1-3]: ");
}

fn recorder(duration: Option<u32>) -> Recorder {
    Recorder::new(RecorderConfig { target: win("App", 1440, 900, 12, -8), fps: 30, duration })
}

#[test]
fn recorder_uses_window_bounds() {
    let r = recorder(None);
    assert_eq!(r.get_frame_size(), [1440, 900]);
    assert_eq!(r.crop_area(), CropArea { x: 12, y: -8, width: 1440, height: 900 });
    assert_eq!(r.config().fps, 30);
}

#[test]
fn recorder_stops_after_duration() {
    let r = recorder(Some(5));
    assert_eq!(r.poll(true, 0), LoopStep::NextFrame);
    assert_eq!(r.poll(true, 4), LoopStep::NextFrame);
    assert_eq!(r.poll(true, 5), LoopStep::Stop);
    assert_eq!(r.poll(true, 6), LoopStep::Stop);
    assert_eq!(r.poll(false, 0), LoopStep::Stop);
}

#[test]
fn recorder_without_duration_runs_until_stopped() {
    let r = recorder(None);
    assert_eq!(r.poll(true, u64::MAX), LoopStep::NextFrame);
    assert_eq!(r.poll(false, 0), LoopStep::Stop);
    let z = recorder(Some(0));
    assert_eq!(z.poll(true, 0), LoopStep::Stop);
}

#[test]
fn recorder_frame_actions() {
    let r = recorder(None);
    assert_eq!(r.on_frame_event(FrameEvent::Bgra, true), FrameAction::Deliver);
    assert_eq!(r.on_frame_event(FrameEvent::Bgra, false), FrameAction::Deliver);
    assert_eq!(r.on_frame_event(FrameEvent::Other, false), FrameAction::Skip);
    assert_eq!(r.on_frame_event(FrameEvent::Failed, true), FrameAction::Skip);
    assert_eq!(r.on_frame_event(FrameEvent::Failed, false), FrameAction::Stop);
}

#[test]
fn progress_every_thirty_frames() {
    assert!(progress_due(30));
    assert!(progress_due(60));
    assert!(!progress_due(31));
    assert!(!progress_due(1));
}

#[test]
fn recorder_capture_settings() {
    let r = recorder(Some(3));
    assert_eq!(
        r.capture_settings(),
        CaptureSettings {
            fps: 30,
            show_cursor: true,
            show_highlight: false,
            source: CaptureSource::MainDisplay,
            crop: CropArea { x: 12, y: -8, width: 1440, height: 900 },
            format: FrameFormat::Bgra,
            output_resolution: OutputResolution::CapturerDefault,
            captures_audio: false,
            exclude_current_process_audio: false,
        }
    );
}

#[test]
fn recorder_aborts_when_encoder_fails() {
    let r = recorder(None);
    assert_eq!(r.after_delivery(true), DeliveryOutcome::Continue);
    assert_eq!(r.after_delivery(false), DeliveryOutcome::Abort);
}
