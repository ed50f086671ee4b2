use vr_pipeline::batch::{conversion_plan, outcome_of_exit, settled_outcome, summarize, BatchSummary, ItemOutcome};
use vr_pipeline::convert::{candidate, convert_step, parse_mode, transcode_args, ConvertStep, EncodingMode};
use vr_pipeline::links::{download_args, download_plan, links_from_decoded, parse_link_list, DownloadLinks, LinkError};
use vr_pipeline::progress::{classify_download_line, ConvertNotice, ConvertProgress, DownloadLine, DownloadProgress};

fn strs(v: &[&str]) -> Vec<String> {
    v.iter().map(|s| s.to_string()).collect()
}

fn frame_line(frame: u64) -> String {
    format!(
        "frame={:5} fps= 25 q=28.0 size=    1024kB time=00:00:20.00 bitrate= 419.4kbits/s speed=1.02x",
        frame
    )
}

#[test]
fn download_notices_follow_twenty_point_rule() {
    let lines = [
        "[download]   5.0% of 10.00MiB at 1.00MiB/s ETA 00:09",
        "[download]  22.0% of 10.00MiB at 1.00MiB/s ETA 00:07",
        "[download]  41.0% of 10.00MiB at 1.00MiB/s ETA 00:05",
        "[download]  61.0% of 10.00MiB at 1.00MiB/s ETA 00:03",
        "[download]  80.0% of 10.00MiB at 1.00MiB/s ETA 00:02",
        "[download] 100% of 10.00MiB in 00:10",
    ];
    let mut t = DownloadProgress::new();
    let shown: Vec<u64> = lines.iter().filter_map(|l| t.observe(l)).collect();
    assert_eq!(shown, vec![22, 61, 100]);
}

#[test]
fn download_reading_below_twenty_is_never_shown() {
    let mut t = DownloadProgress::new();
    assert_eq!(t.step(DownloadLine::Percent(5)), None);
    assert_eq!(t.step(DownloadLine::Percent(19)), None);
    assert_eq!(t.step(DownloadLine::Percent(20)), Some(20));
    assert_eq!(t.last_shown, 20);
    assert_eq!(t.step(DownloadLine::Percent(99)), Some(99));
    assert_eq!(t.step(DownloadLine::Complete), Some(100));
    assert_eq!(t.step(DownloadLine::Complete), Some(100));
}

#[test]
fn download_lines_are_classified() {
    assert_eq!(classify_download_line("[download]  45.2% of 12.5MiB"), DownloadLine::Percent(45));
    assert_eq!(classify_download_line("[download] Destination: a.mp4"), DownloadLine::Other);
    assert_eq!(classify_download_line("[download] 100% of 12.5MiB"), DownloadLine::Complete);
    assert_eq!(classify_download_line("[download] 100.0% of 12.5MiB"), DownloadLine::Percent(100));
    assert_eq!(classify_download_line("[download] x% then 7%%"), DownloadLine::Percent(7));
    assert_eq!(classify_download_line("[download] 3.% now"), DownloadLine::Percent(3));
    assert_eq!(classify_download_line("[info] 45.2%"), DownloadLine::Other);
    assert_eq!(classify_download_line("[download] half%"), DownloadLine::Other);
    assert_eq!(classify_download_line(""), DownloadLine::Other);
}

#[test]
fn a_100_percent_reading_is_always_shown() {
    let mut t = DownloadProgress::new();
    assert_eq!(t.observe("[download]  95.0% of 12.5MiB"), Some(95));
    assert_eq!(t.observe("[download] 100.0% of 12.5MiB"), Some(100));
    assert_eq!(t.last_shown, 95);
    assert_eq!(t.step(DownloadLine::Percent(250)), Some(100));
}

#[test]
fn conversion_notices_need_a_thousand_frames() {
    let mut t = ConvertProgress::new();
    let mut shown = Vec::new();
    for f in [0u64, 500, 999, 1000, 1500, 2000] {
        if let ConvertNotice::Frame { frame, speed } = t.observe(&frame_line(f)) {
            assert_eq!(speed, "1.02x");
            shown.push(frame);
        }
    }
    assert_eq!(shown, vec![1000, 2000]);
    assert_eq!(t.last_frame, 2000);
    assert_eq!(t.lines_seen, 6);
}

#[test]
fn conversion_speed_defaults_to_question_mark() {
    let mut t = ConvertProgress::new();
    let n = t.observe("frame=1200 speed=");
    assert_eq!(n, ConvertNotice::Frame { frame: 1200, speed: "?".to_string() });
}

#[test]
fn conversion_frame_text_must_be_digits() {
    let mut t = ConvertProgress::new();
    assert_eq!(t.observe("frame=N/A fps=0 speed=N/A"), ConvertNotice::Quiet);
    assert_eq!(t.observe("frame= 12x34 speed=2x"), ConvertNotice::Quiet);
    assert_eq!(t.last_frame, 0);
}

#[test]
fn conversion_sign_of_life_every_hundredth_line() {
    let mut t = ConvertProgress::new();
    for _ in 0..99 {
        assert_eq!(t.observe("size=N/A time=00:00:01.00"), ConvertNotice::Quiet);
    }
    assert_eq!(t.observe("size=N/A time=00:00:02.00"), ConvertNotice::Alive);
    assert_eq!(t.observe("size=N/A time=00:00:03.00"), ConvertNotice::Quiet);
    for _ in 0..98 {
        t.observe("Stream mapping:");
    }
    assert_eq!(t.lines_seen, 199);
    assert_eq!(t.observe("no marker here"), ConvertNotice::Quiet);
}

#[test]
fn link_list_is_read_in_order() {
    let links = parse_link_list(r#"["https://example.com/a","https://example.com/b","https://example.com/a"]"#).unwrap();
    assert_eq!(links.0, strs(&["https://example.com/a", "https://example.com/b", "https://example.com/a"]));
}

#[test]
fn empty_link_list_is_valid() {
    let links = parse_link_list(" [ ] ").unwrap();
    assert!(links.0.is_empty());
    assert!(download_plan(&links, "downloaded_videos").is_empty());
}

#[test]
fn malformed_link_lists_are_refused() {
    assert_eq!(parse_link_list("[1, 2]").unwrap_err(), LinkError::Malformed);
    assert_eq!(parse_link_list("{\"a\": \"b\"}").unwrap_err(), LinkError::Malformed);
    assert_eq!(parse_link_list("[\"a\"").unwrap_err(), LinkError::Malformed);
    assert_eq!(parse_link_list("").unwrap_err(), LinkError::Malformed);
}

#[test]
fn decoded_outcome_becomes_links() {
    let err = serde_json::from_str::<Vec<String>>("nope").unwrap_err();
    assert_eq!(links_from_decoded(Err(err)).unwrap_err(), LinkError::Malformed);
    let l = links_from_decoded(Ok(strs(&["x"]))).unwrap();
    assert_eq!(l.0, strs(&["x"]));
}

#[test]
fn download_command_line() {
    assert_eq!(
        download_args("https://example.com/a", "downloaded_videos"),
        strs(&[
            "-f",
            "bv[height<=720][ext=mp4]+ba[ext=m4a]/best[ext=mp4]",
            "--merge-output-format",
            "mp4",
            "--check-formats",
            "--no-part",
            "--no-overwrites",
            "--progress",
            "--newline",
            "-o",
            "downloaded_videos/%(title)s.%(ext)s",
            "https://example.com/a",
        ])
    );
}

#[test]
fn one_download_per_link_in_order() {
    let links = DownloadLinks(strs(&["u1", "u2", "u1"]));
    let plan = download_plan(&links, "d");
    assert_eq!(plan.len(), 3);
    for (args, link) in plan.iter().zip(links.0.iter()) {
        assert_eq!(args, &download_args(link, "d"));
        assert_eq!(args.last().unwrap(), link);
    }
}

#[test]
fn two_links_one_fails_batch_goes_on() {
    let links = parse_link_list(r#"["https://example.com/a","https://example.com/b"]"#).unwrap();
    let plan = download_plan(&links, "downloaded_videos");
    assert_eq!(plan.len(), 2);
    assert_eq!(plan[0].last().unwrap(), "https://example.com/a");
    assert_eq!(plan[1].last().unwrap(), "https://example.com/b");
    let s = summarize(plan.len(), &vec![ItemOutcome::Succeeded, ItemOutcome::Failed]);
    assert_eq!((s.processed, s.succeeded, s.failed, s.skipped, s.rejected), (2, 1, 1, 0, 0));
}

#[test]
fn only_media_files_are_candidates() {
    let c = candidate("in/clip.mp4", "clip.mp4", "vr").unwrap();
    assert_eq!(c.input_path, "in/clip.mp4");
    assert_eq!(c.stem, "clip");
    assert_eq!(c.output_path, "vr/clip_VR.mp4");
    assert!(candidate("in/notes.txt", "notes.txt", "vr").is_none());
    assert!(candidate("in/.mp4", ".mp4", "vr").is_none());
    assert!(candidate("in/clip.MP4", "clip.MP4", "vr").is_none());
    assert!(candidate("in/mp4", "mp4", "vr").is_none());
    assert!(candidate("in/clip.mp45", "clip.mp45", "vr").is_none());
}

#[test]
fn output_name_keeps_inner_dots() {
    let c = candidate("x/a.b.mp4", "a.b.mp4", "out").unwrap();
    assert_eq!(c.stem, "a.b");
    assert_eq!(c.output_path, "out/a.b_VR.mp4");
    let again = candidate("elsewhere/a.b.mp4", "a.b.mp4", "out").unwrap();
    assert_eq!(again.output_path, c.output_path);
}

#[test]
fn existing_output_is_skipped() {
    let c = candidate("in/clip.mp4", "clip.mp4", "vr").unwrap();
    assert!(matches!(convert_step(&c, "cpu", true), ConvertStep::Skip));
    assert!(matches!(convert_step(&c, "bogus", true), ConvertStep::Skip));
}

#[test]
fn modes_ignore_case() {
    assert_eq!(parse_mode("cpu"), Some(EncodingMode::Cpu));
    assert_eq!(parse_mode("CpU"), Some(EncodingMode::Cpu));
    assert_eq!(parse_mode("GPU"), Some(EncodingMode::Gpu));
    assert_eq!(parse_mode("tpu"), None);
    assert_eq!(parse_mode("cpu "), None);
    assert_eq!(parse_mode(""), None);
}

#[test]
fn encoder_blocks_by_mode() {
    let c = candidate("in/clip.mp4", "clip.mp4", "vr").unwrap();
    let filter = "[0:v]scale=iw/2:ih[left];[0:v]scale=iw/2:ih[right];[left][right]hstack";
    assert_eq!(
        transcode_args(&c, EncodingMode::Cpu),
        strs(&["-i", "in/clip.mp4", "-filter_complex", filter, "-c:v", "libx264", "-crf", "18", "-preset", "slow", "vr/clip_VR.mp4"])
    );
    assert_eq!(
        transcode_args(&c, EncodingMode::Gpu),
        strs(&["-i", "in/clip.mp4", "-filter_complex", filter, "-c:v", "h264_nvenc", "-cq", "18", "-preset", "slow", "vr/clip_VR.mp4"])
    );
}

#[test]
fn unknown_mode_rejects_each_file_and_goes_on() {
    let cands = vec![
        candidate("in/a.mp4", "a.mp4", "vr").unwrap(),
        candidate("in/b.mp4", "b.mp4", "vr").unwrap(),
        candidate("in/c.mp4", "c.mp4", "vr").unwrap(),
    ];
    let plan = conversion_plan(&cands, "vulkan", &vec![false, true, false]);
    assert_eq!(plan.len(), 3);
    assert!(matches!(plan[0], ConvertStep::Reject));
    assert!(matches!(plan[1], ConvertStep::Skip));
    assert!(matches!(plan[2], ConvertStep::Reject));
    let s = summarize(3, &vec![ItemOutcome::Rejected, ItemOutcome::Skipped, ItemOutcome::Rejected]);
    assert_eq!((s.processed, s.rejected, s.skipped, s.failed), (3, 2, 1, 0));
}

#[test]
fn clip_converted_notes_ignored() {
    let entries = [("in/clip.mp4", "clip.mp4"), ("in/notes.txt", "notes.txt")];
    let cands: Vec<_> = entries.iter().filter_map(|(p, n)| candidate(p, n, "vr")).collect();
    assert_eq!(cands.len(), 1);
    let plan = conversion_plan(&cands, "cpu", &vec![false]);
    match &plan[0] {
        ConvertStep::Run(args) => {
            assert_eq!(args.last().unwrap(), "vr/clip_VR.mp4");
            assert_eq!(args[1], "in/clip.mp4");
        }
        _ => panic!("expected a run"),
    }
    let s = summarize(cands.len(), &vec![ItemOutcome::Succeeded]);
    assert_eq!((s.eligible, s.processed, s.succeeded), (1, 1, 1));
}

#[test]
fn tally_never_exceeds_eligible() {
    let s = summarize(1, &vec![ItemOutcome::Succeeded, ItemOutcome::Failed, ItemOutcome::Failed]);
    assert_eq!((s.processed, s.succeeded, s.failed), (1, 1, 0));
    let mut t = BatchSummary::new(1);
    assert!(t.record(ItemOutcome::Skipped));
    assert!(!t.record(ItemOutcome::Failed));
    assert_eq!((t.processed, t.skipped, t.failed), (1, 1, 0));
    let z = summarize(0, &vec![ItemOutcome::Failed]);
    assert_eq!(z.processed, 0);
}

#[test]
fn outcomes_of_steps_and_exits() {
    assert_eq!(outcome_of_exit(true), ItemOutcome::Succeeded);
    assert_eq!(outcome_of_exit(false), ItemOutcome::Failed);
    assert_eq!(settled_outcome(&ConvertStep::Skip), Some(ItemOutcome::Skipped));
    assert_eq!(settled_outcome(&ConvertStep::Reject), Some(ItemOutcome::Rejected));
    assert_eq!(settled_outcome(&ConvertStep::Run(Vec::new())), None);
}
