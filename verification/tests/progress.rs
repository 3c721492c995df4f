//! Following a conversion and saying how it ended.

use ana_convert::progress::{describe_outputs, format_duration, Finished, Joined, RunningRender};
use ana_convert::render::{Progress, RenderSummary};
use ana_convert::scalar::F64;

fn float(v: f64) -> F64 {
    F64 { bits: v.to_bits() }
}

fn value(v: F64) -> f64 {
    f64::from_bits(v.bits)
}

fn per(n: u64, t: F64) -> F64 {
    float(n as f64 / value(t))
}

#[test]
fn render_durations_read_naturally_at_every_scale() {
    assert_eq!(format_duration(9), "9s");
    assert_eq!(format_duration(95), "1m35s");
    assert_eq!(format_duration(3725), "1h02m");
}

#[test]
fn a_single_output_is_named_in_full() {
    let outputs = vec!["/films/out.mkv".to_string()];
    assert_eq!(describe_outputs(&outputs, false), "/films/out.mkv");
}

#[test]
fn a_pair_of_outputs_is_named_by_file() {
    let outputs = vec!["/films/out-left.mkv".to_string(), "/films/out-right.mkv".to_string()];
    assert_eq!(describe_outputs(&outputs, false), "out-left.mkv and out-right.mkv");
}

#[test]
fn no_outputs_is_stated_rather_than_blank() {
    assert_eq!(describe_outputs(&[], false), "nothing");
}

#[test]
fn reports_add_up() {
    let mut run = RunningRender::start();
    assert_eq!((run.frames_done(), run.total_frames()), (0, None));
    assert!(run.rate(float(3.0), &per).is_none(), "no frame yet");
    run.pump(vec![
        Progress::Started { total_frames: Some(40), width: 64, height: 48 },
        Progress::Note("mind the gap".to_string()),
        Progress::Frame { done: 10, total: Some(40) },
    ]);
    assert_eq!((run.frames_done(), run.total_frames()), (10, Some(40)));
    assert_eq!(run.notes(), ["mind the gap".to_string()]);
    assert_eq!(run.fraction(), Some((10, 40)));
    assert_eq!(value(run.rate(float(5.0), &per).unwrap()), 2.0);
    assert_eq!(value(run.eta(float(5.0), &per).unwrap()), 15.0);
    assert!(run.eta(float(0.0), &per).is_none(), "no time has passed");
    run.pump(vec![Progress::Finished { frames: 40, cancelled: false }]);
    assert_eq!(run.fraction(), Some((40, 40)));
    assert!(!run.is_cancelling());
    run.cancel();
    assert!(run.is_cancelling());
}

#[test]
fn a_run_past_its_estimate_is_never_more_than_whole() {
    let mut run = RunningRender::start();
    run.pump(vec![Progress::Frame { done: 50, total: Some(40) }]);
    assert_eq!(run.fraction(), Some((40, 40)));
    assert_eq!(value(run.eta(float(5.0), &per).unwrap()), 0.0);
    run.pump(vec![Progress::Frame { done: 51, total: Some(0) }]);
    assert_eq!(run.fraction(), None);
}

#[test]
fn the_status_says_as_much_as_is_known() {
    let seconds = |t: F64| value(t) as u64;
    let show = |v: F64| format!("{:.1}", value(v));
    let mut run = RunningRender::start();
    run.pump(vec![Progress::Frame { done: 3, total: None }]);
    let (share, text) = run.status(float(1.5), &per, &seconds, &show);
    assert_eq!((share, text.as_str()), (None, "3 frames"));
    run.pump(vec![Progress::Frame { done: 3, total: Some(123) }]);
    let (share, text) = run.status(float(1.5), &per, &seconds, &show);
    assert_eq!(share, Some((3, 123)));
    assert_eq!(text, "3 / 123  ·  2.0 fps  ·  1m00s left");
}

#[test]
fn an_ending_is_put_into_words() {
    let summary = RenderSummary {
        frames: 12,
        outputs: vec!["/f/a.mkv".to_string()],
        cancelled: false,
    };
    let done = Finished::of(Joined::Returned(Ok(summary)), 65);
    assert_eq!(done.outcome(false), "converted 12 frames in 1m05s → /f/a.mkv");
    let summary = RenderSummary { frames: 3, outputs: vec![], cancelled: true };
    let stopped = Finished::of(Joined::Returned(Ok(summary)), 2);
    assert_eq!(stopped.outcome(false), "stopped after 3 frames in 2s → nothing");
    let failed = Finished::of(Joined::Returned(Err("disk full".to_string())), 2);
    assert_eq!(failed.outcome(false), "render failed");
    assert!(matches!(failed, Finished::Failed(m) if m == "disk full"));
    let panicked = Finished::of(Joined::Panicked, 2);
    assert!(matches!(panicked, Finished::Failed(m) if m == "the render thread panicked"));
}

#[test]
fn reports_in_portions_are_the_same_as_at_once() {
    let report = |k: u64| Progress::Frame { done: k, total: Some(9) };
    let mut at_once = RunningRender::start();
    at_once.pump((1..6).map(report).collect());
    let mut portions = RunningRender::start();
    portions.pump((1..3).map(report).collect());
    portions.pump((3..6).map(report).collect());
    assert_eq!(at_once.frames_done(), portions.frames_done());
    assert_eq!(at_once.fraction(), portions.fraction());
}
