//! Following a conversion while it runs, and saying how it ended.
//!
//! A feature-length render takes tens of minutes, so it happens on a worker
//! thread and reports back. What the reports add up to is here; the window takes
//! them in once per repaint.

use crate::encode::texts;
use crate::path::{file_name, name_of};
use crate::render::{Progress, RenderSummary};
use crate::scalar::F64;
use crate::text::{decimal, decimal_text, two_digit_text, two_digits};
use vstd::prelude::*;
use vstd::string::*;

verus! {

/// A render in flight, as far as it has been heard of.
#[derive(Debug)]
pub struct RunningRender {
    notes: Vec<String>,
    done: u64,
    total: Option<u64>,
    cancelling: bool,
}

/// What is known of a render in flight.
pub struct RunningView {
    pub notes: Seq<Seq<char>>,
    pub done: nat,
    pub total: Option<u64>,
    pub cancelling: bool,
}

/// A render that nothing has been heard of.
pub open spec fn unheard() -> RunningView {
    RunningView { notes: Seq::empty(), done: 0, total: None, cancelling: false }
}

impl RunningView {
    /// What is known once a report has come in.
    pub open spec fn heard(self, progress: Progress) -> RunningView {
        match progress {
            Progress::Started { total_frames, .. } => RunningView { total: total_frames, ..self },
            Progress::Frame { done, total } => RunningView { done: done as nat, total, ..self },
            Progress::Note(message) => RunningView { notes: self.notes.push(message@), ..self },
            Progress::Finished { frames, .. } => RunningView { done: frames as nat, ..self },
        }
    }

    /// What is known once several reports have come in, one after the other.
    pub open spec fn heard_all(self, reports: Seq<Progress>) -> RunningView
        decreases reports.len(),
    {
        if reports.len() == 0 {
            self
        } else {
            self.heard_all(reports.drop_last()).heard(reports.last())
        }
    }

    /// How much is done of how much, where that is known.
    pub open spec fn share(self) -> Option<(nat, nat)> {
        match self.total {
            Some(total) => if total > 0 {
                Some((if self.done < total { self.done } else { total as nat }, total as nat))
            } else {
                None
            },
            None => None,
        }
    }

    /// How many frames are still to come.
    pub open spec fn remaining(self) -> nat {
        match self.total {
            Some(total) => if self.done < total { (total - self.done) as nat } else { 0 },
            None => 0,
        }
    }
}

impl View for RunningRender {
    type V = RunningView;

    closed spec fn view(&self) -> RunningView {
        RunningView {
            notes: texts(self.notes@),
            done: self.done as nat,
            total: self.total,
            cancelling: self.cancelling,
        }
    }
}

impl RunningRender {
    /// A render that has just been started.
    pub fn start() -> (r: Self)
        ensures
            r@ == unheard(),
    {
        let r = RunningRender { notes: Vec::new(), done: 0, total: None, cancelling: false };
        assert(r@.notes =~= Seq::empty());
        r
    }

    /// Takes in one report.
    fn hear(&mut self, progress: Progress)
        ensures
            final(self)@ == old(self)@.heard(progress),
    {
        match progress {
            Progress::Started { total_frames, width: _, height: _ } => {
                self.total = total_frames;
            },
            Progress::Frame { done, total } => {
                self.done = done;
                self.total = total;
            },
            Progress::Note(message) => {
                self.notes.push(message);
            },
            Progress::Finished { frames, cancelled: _ } => {
                self.done = frames;
            },
        }
        assert(self@.notes =~= old(self)@.heard(progress).notes);
    }

    /// Takes in whatever the worker has reported since the last repaint.
    pub fn pump(&mut self, reports: Vec<Progress>)
        ensures
            final(self)@ == old(self)@.heard_all(reports@),
    {
        let ghost all = reports@;
        let ghost start = self@;
        for progress in it: reports
            invariant
                it.seq() == all,
                self@ == start.heard_all(all.take(it.index() as int)),
        {
            self.hear(progress);
            proof {
                let so_far = all.take(it.index() + 1);
                assert(so_far.drop_last() =~= all.take(it.index() as int));
                assert(so_far.last() == progress);
            }
        }
        assert(all.take(all.len() as int) =~= all);
    }

    /// Asks the worker to stop after the frame it is on.
    pub fn cancel(&mut self)
        ensures
            final(self)@ == (RunningView { cancelling: true, ..old(self)@ }),
    {
        self.cancelling = true;
    }

    pub fn is_cancelling(&self) -> (r: bool)
        ensures
            r == self@.cancelling,
    {
        self.cancelling
    }

    /// Anything the conversion wanted to mention, such as a source it had to
    /// reshape to fit.
    pub fn notes(&self) -> (r: &[String])
        ensures
            texts(r@) == self@.notes,
    {
        self.notes.as_slice()
    }

    pub fn frames_done(&self) -> (r: u64)
        ensures
            r == self@.done,
    {
        self.done
    }

    pub fn total_frames(&self) -> (r: Option<u64>)
        ensures
            r == self@.total,
    {
        self.total
    }

    /// Frames per second so far, or `None` before the first frame lands or any
    /// time has passed. `per` divides a count by a time.
    pub fn rate<P: Fn(u64, F64) -> F64>(&self, elapsed: F64, per: &P) -> (r: Option<F64>)
        requires
            forall|n: u64, t: F64| #[trigger] call_requires(*per, (n, t)),
        ensures
            r is Some <==> self@.done > 0 && elapsed.above_zero(),
            r matches Some(v) ==> call_ensures(*per, (self@.done as u64, elapsed), v),
    {
        if self.done > 0 && elapsed.is_above_zero() {
            Some(per(self.done, elapsed))
        } else {
            None
        }
    }

    /// How much is done, as frames of frames, when the length is known. Never more
    /// than all of them.
    pub fn fraction(&self) -> (r: Option<(u64, u64)>)
        ensures
            match (r, self@.share()) {
                (Some(a), Some(b)) => a.0 == b.0 && a.1 == b.1,
                (None, None) => true,
                _ => false,
            },
            r matches Some(f) ==> f.0 <= f.1 && f.1 > 0,
    {
        match self.total {
            Some(total) => if total == 0 {
                None
            } else if self.done < total {
                Some((self.done, total))
            } else {
                Some((total, total))
            },
            None => None,
        }
    }

    /// Estimated time remaining, when the length and the rate are known.
    pub fn eta<P: Fn(u64, F64) -> F64>(&self, elapsed: F64, per: &P) -> (r: Option<F64>)
        requires
            forall|n: u64, t: F64| #[trigger] call_requires(*per, (n, t)),
        ensures
            remains(*per, self@, elapsed, r),
    {
        let rate = self.rate(elapsed, per);
        match (self.total, rate) {
            (Some(total), Some(rate)) => {
                assert(call_ensures(*per, (self@.done as u64, elapsed), rate));
                if rate.is_above_zero() {
                    let left: u64 = if self.done < total {
                        total - self.done
                    } else {
                        0
                    };
                    Some(per(left, rate))
                } else {
                    None
                }
            },
            _ => None,
        }
    }

    /// What the bar says of a running conversion: how far it is, how fast and how
    /// much longer, where all of that is known, and otherwise the frames so far.
    /// `show` writes a rate.
    pub fn status<P: Fn(u64, F64) -> F64, C: Fn(F64) -> u64, W: Fn(F64) -> String>(
        &self,
        elapsed: F64,
        per: &P,
        seconds: &C,
        show: &W,
    ) -> (r: (Option<(u64, u64)>, String))
        requires
            forall|n: u64, t: F64| #[trigger] call_requires(*per, (n, t)),
            forall|t: F64| #[trigger] call_requires(*seconds, (t,)),
            forall|v: F64| #[trigger] call_requires(*show, (v,)),
        ensures
            states(*per, *seconds, *show, self@, elapsed, r.0, r.1@),
    {
        let (fraction, rate, eta) = (self.fraction(), self.rate(elapsed, per), self.eta(elapsed, per));
        match (fraction, rate, eta) {
            (Some(f), Some(rate), Some(eta)) => {
                let written = show(rate);
                let left: u64 = seconds(eta);
                let total: u64 = match self.total {
                    Some(total) => total,
                    None => 0,
                };
                let text = decimal(self.done).concat(" / ").concat(decimal(total).as_str()).concat(
                    "  \u{B7}  ",
                ).concat(written.as_str()).concat(" fps  \u{B7}  ").concat(
                    format_duration(left).as_str(),
                ).concat(" left");
                proof {
                    assert(call_ensures(*per, (self@.done as u64, elapsed), rate));
                    assert(remains(*per, self@, elapsed, Some(eta)));
                    assert(call_ensures(*show, (rate,), written));
                    assert(call_ensures(*seconds, (eta,), left));
                    assert(text@ == status_text(
                        self@.done,
                        total as nat,
                        written@,
                        left as nat,
                    ));
                    assert(measured(*per, *seconds, *show, self@, elapsed, text@));
                }
                (Some(f), text)
            },
            _ => (None, decimal(self.done).concat(" frames")),
        }
    }
}

/// `r` is the time that is left: what the remaining frames take at the rate so
/// far, where both are known and the rate is above zero.
pub open spec fn remains<P: Fn(u64, F64) -> F64>(
    per: P,
    run: RunningView,
    elapsed: F64,
    r: Option<F64>,
) -> bool {
    if run.total is Some && run.done > 0 && elapsed.above_zero() {
        exists|rate: F64| #[trigger]
            call_ensures(per, (run.done as u64, elapsed), rate) && (if rate.above_zero() {
                r matches Some(t) && call_ensures(per, (run.remaining() as u64, rate), t)
            } else {
                r is None
            })
    } else {
        r is None
    }
}

/// What is said of a conversion whose length and rate are known.
pub open spec fn status_text(done: nat, total: nat, rate: Seq<char>, left: nat) -> Seq<char> {
    decimal_text(done) + " / "@ + decimal_text(total) + "  \u{B7}  "@ + rate + " fps  \u{B7}  "@
        + duration_text(left) + " left"@
}

/// `text` says how far a conversion is, how fast and how much longer.
pub open spec fn measured<P: Fn(u64, F64) -> F64, C: Fn(F64) -> u64, W: Fn(F64) -> String>(
    per: P,
    seconds: C,
    show: W,
    run: RunningView,
    elapsed: F64,
    text: Seq<char>,
) -> bool {
    exists|rate: F64, eta: F64, left: u64, written: String|
        call_ensures(per, (run.done as u64, elapsed), rate) && remains(per, run, elapsed, Some(eta))
            && #[trigger] call_ensures(seconds, (eta,), left) && #[trigger] call_ensures(
            show,
            (rate,),
            written,
        ) && text == status_text(run.done, run.total->0 as nat, written@, left as nat)
}

/// `share` and `text` are what the bar shows of a conversion.
pub open spec fn states<P: Fn(u64, F64) -> F64, C: Fn(F64) -> u64, W: Fn(F64) -> String>(
    per: P,
    seconds: C,
    show: W,
    run: RunningView,
    elapsed: F64,
    share: Option<(u64, u64)>,
    text: Seq<char>,
) -> bool {
    match share {
        Some(f) => run.share() == Some((f.0 as nat, f.1 as nat)) && measured(
            per,
            seconds,
            show,
            run,
            elapsed,
            text,
        ),
        None => text == decimal_text(run.done) + " frames"@ && (run.share() is None || remains(
            per,
            run,
            elapsed,
            None,
        )),
    }
}

/// Once a conversion has been heard to convert all its frames, nothing remains and
/// all of it is done.
pub proof fn law_a_finished_run_is_all_done(run: RunningView, frames: u64, cancelled: bool)
    requires
        run.total == Some(frames),
        frames > 0,
    ensures
        run.heard(Progress::Finished { frames, cancelled }).share() == Some(
            (frames as nat, frames as nat),
        ),
        run.heard(Progress::Finished { frames, cancelled }).remaining() == 0,
{
}

/// Reports taken in together are the same as reports taken in one repaint after
/// the other.
pub proof fn law_reports_may_come_in_any_portions(
    run: RunningView,
    first: Seq<Progress>,
    second: Seq<Progress>,
)
    ensures
        run.heard_all(first + second) == run.heard_all(first).heard_all(second),
    decreases second.len(),
{
    if second.len() == 0 {
        assert(first + second =~= first);
    } else {
        assert((first + second).drop_last() =~= first + second.drop_last());
        law_reports_may_come_in_any_portions(run, first, second.drop_last());
    }
}

/// How the worker came back.
#[derive(Debug)]
pub enum Joined {
    Returned(Result<RenderSummary, String>),
    Panicked,
}

/// How a finished render turned out.
#[derive(Debug)]
pub enum Finished {
    Succeeded {
        summary: RenderSummary,
        /// Whole seconds the render took.
        elapsed: u64,
    },
    Failed(String),
}

impl Finished {
    /// The outcome, once the worker has stopped.
    pub fn of(joined: Joined, elapsed: u64) -> (r: Self)
        ensures
            match joined {
                Joined::Returned(Ok(summary)) => r == (Finished::Succeeded { summary, elapsed }),
                Joined::Returned(Err(message)) => r == Finished::Failed(message),
                Joined::Panicked => r matches Finished::Failed(message) && message@
                    == "the render thread panicked"@,
            },
    {
        match joined {
            Joined::Returned(Ok(summary)) => Finished::Succeeded { summary, elapsed },
            Joined::Returned(Err(message)) => Finished::Failed(message),
            Joined::Panicked => Finished::Failed("the render thread panicked".to_owned()),
        }
    }

    /// What is said once the render is over.
    pub open spec fn outcome_text(self, windows: bool) -> Seq<char> {
        match self {
            Finished::Succeeded { summary, elapsed } => verb(summary.cancelled) + " "@
                + decimal_text(summary.frames as nat) + " frames in "@ + duration_text(
                elapsed as nat,
            ) + " \u{2192} "@ + outputs_text(texts(summary.outputs@), windows),
            Finished::Failed(_) => "render failed"@,
        }
    }

    /// What is said once the render is over.
    pub fn outcome(&self, windows: bool) -> (text: String)
        ensures
            text@ == self.outcome_text(windows),
    {
        match self {
            Finished::Succeeded { summary, elapsed } => {
                let verb = if summary.cancelled {
                    "stopped after"
                } else {
                    "converted"
                };
                verb.to_owned().concat(" ").concat(decimal(summary.frames).as_str()).concat(
                    " frames in ",
                ).concat(format_duration(*elapsed).as_str()).concat(" \u{2192} ").concat(
                    describe_outputs(summary.outputs.as_slice(), windows).as_str(),
                )
            },
            Finished::Failed(_) => "render failed".to_owned(),
        }
    }
}

/// How a run is said to have ended.
pub open spec fn verb(cancelled: bool) -> Seq<char> {
    if cancelled {
        "stopped after"@
    } else {
        "converted"@
    }
}

/// So many seconds, at the scale a reader thinks in.
pub open spec fn duration_text(seconds: nat) -> Seq<char> {
    let (h, m, s) = (seconds / 3600, seconds % 3600 / 60, seconds % 60);
    if h > 0 {
        decimal_text(h) + "h"@ + two_digit_text(m) + "m"@
    } else if m > 0 {
        decimal_text(m) + "m"@ + two_digit_text(s) + "s"@
    } else {
        decimal_text(s) + "s"@
    }
}

/// Turns a number of seconds into something readable at a glance.
pub fn format_duration(seconds: u64) -> (text: String)
    ensures
        text@ == duration_text(seconds as nat),
{
    let (h, m, s) = (seconds / 3600, seconds % 3600 / 60, seconds % 60);
    if h > 0 {
        decimal(h).concat("h").concat(two_digits(m).as_str()).concat("m")
    } else if m > 0 {
        decimal(m).concat("m").concat(two_digits(s).as_str()).concat("s")
    } else {
        decimal(s).concat("s")
    }
}

/// The names of the files that paths name.
pub open spec fn names_of(paths: Seq<Seq<char>>, windows: bool) -> Seq<Seq<char>>
    decreases paths.len(),
{
    if paths.len() == 0 {
        Seq::empty()
    } else {
        match name_of(paths.last(), windows) {
            Some(name) => names_of(paths.drop_last(), windows).push(name),
            None => names_of(paths.drop_last(), windows),
        }
    }
}

/// Names in a row, each but the first behind an "and".
pub open spec fn listed(names: Seq<Seq<char>>) -> Seq<char>
    decreases names.len(),
{
    if names.len() == 0 {
        Seq::empty()
    } else if names.len() == 1 {
        names[0]
    } else {
        listed(names.drop_last()) + " and "@ + names.last()
    }
}

/// What is said of the files a render writes.
pub open spec fn outputs_text(outputs: Seq<Seq<char>>, windows: bool) -> Seq<char> {
    if outputs.len() == 0 {
        "nothing"@
    } else if outputs.len() == 1 {
        outputs[0]
    } else {
        listed(names_of(outputs, windows))
    }
}

/// Where a render's output goes: one file by its whole path, several by their
/// names.
pub fn describe_outputs(outputs: &[String], windows: bool) -> (text: String)
    ensures
        text@ == outputs_text(texts(outputs@), windows),
{
    if outputs.len() == 0 {
        return "nothing".to_owned();
    }
    if outputs.len() == 1 {
        return outputs[0].clone();
    }
    let ghost paths = texts(outputs@);
    let mut text = String::new();
    let mut count: usize = 0;
    let mut i: usize = 0;
    while i < outputs.len()
        invariant
            i <= outputs@.len(),
            paths == texts(outputs@),
            count <= i,
            count == names_of(paths.take(i as int), windows).len(),
            text@ == listed(names_of(paths.take(i as int), windows)),
        decreases outputs@.len() - i,
    {
        let ghost before = names_of(paths.take(i as int), windows);
        proof {
            let so_far = paths.take(i + 1);
            assert(so_far.drop_last() =~= paths.take(i as int));
            assert(so_far.last() == outputs@[i as int]@);
        }
        if let Some(name) = file_name(outputs[i].as_str(), windows) {
            let ghost after = before.push(name@);
            assert(after.drop_last() =~= before);
            if count > 0 {
                text.append(" and ");
            }
            text.append(name.as_str());
            assert(text@ =~= listed(after));
            count += 1;
        }
        i += 1;
    }
    assert(paths.take(i as int) =~= paths);
    text
}

/// A report that starts a run tells its length, one of a frame how many are done and of
/// how many, a note adds itself behind the others, and the last report how many frames
/// came of it; nothing else of what is known changes, and no report stops a run.
pub proof fn law_each_report_tells_its_own(run: RunningView, progress: Progress)
    ensures
        ({
            let after = run.heard(progress);
            &&& after.cancelling == run.cancelling
            &&& progress matches Progress::Started { total_frames, .. } ==> after.total == total_frames
                && after.done == run.done && after.notes == run.notes
            &&& progress matches Progress::Frame { done, total } ==> after.done == done && after.total
                == total && after.notes == run.notes
            &&& progress matches Progress::Note(message) ==> after.notes.len() == run.notes.len() + 1
                && after.notes.last() == message@ && after.notes.drop_last() == run.notes && after.done
                == run.done && after.total == run.total
            &&& progress matches Progress::Finished { frames, .. } ==> after.done == frames
                && after.total == run.total && after.notes == run.notes
        }),
{
    if let Progress::Note(message) = progress {
        assert(run.notes.push(message@).drop_last() =~= run.notes);
    }
}

/// The reports of one repaint are taken in one by one, the first first.
pub proof fn law_reports_are_taken_in_in_order(
    run: &mut RunningRender,
    reports: Vec<Progress>,
    first: Progress,
    second: Progress,
)
    requires
        call_ensures(RunningRender::pump, (run, reports), ()),
    ensures
        reports@.len() == 0 ==> final(run)@ == old(run)@,
        reports@ == seq![first] ==> final(run)@ == old(run)@.heard(first),
        reports@ == seq![first, second] ==> final(run)@ == old(run)@.heard(first).heard(second),
{
    reveal_with_fuel(RunningView::heard_all, 3);
    assert(seq![first].drop_last() =~= Seq::empty());
    assert(seq![first, second].drop_last() =~= seq![first]);
}

/// Asking a run to stop changes that and nothing else; a run that has just been started
/// has done nothing, knows nothing of its length and is not to stop.
pub proof fn law_stopping_is_only_asked_for(run: &mut RunningRender, fresh: RunningRender)
    requires
        call_ensures(RunningRender::cancel, (run,), ()),
        call_ensures(RunningRender::start, (), fresh),
    ensures
        final(run)@.cancelling,
        final(run)@.done == old(run)@.done && final(run)@.total == old(run)@.total,
        final(run)@.notes == old(run)@.notes,
        fresh@.done == 0 && fresh@.total is None && fresh@.notes.len() == 0 && !fresh@.cancelling,
{
}

/// What is done of a run is told as frames of frames, never more than all of them and
/// only where the length is known and not nothing; what is done and what remains add up
/// to the whole.
pub proof fn law_what_is_done_and_what_remains_add_up(run: &RunningRender, r: Option<(u64, u64)>)
    requires
        call_ensures(RunningRender::fraction, (run,), r),
    ensures
        r is Some <==> (run@.total matches Some(n) && n > 0),
        r matches Some(f) ==> Some(f.1) == run@.total && f.0 <= f.1,
        r matches Some(f) ==> run@.done <= f.1 ==> f.0 == run@.done && run@.remaining() + run@.done
            == f.1,
        r matches Some(f) ==> run@.done > f.1 ==> f.0 == f.1 && run@.remaining() == 0,
{
}

/// How fast a run is and how much longer it takes: its frames over the time that has
/// passed, and the frames that remain at that rate. Before the first frame, and where the
/// length is unknown, that is not told.
pub proof fn law_the_rest_takes_as_long_as_its_rate<P: Fn(u64, F64) -> F64>(
    run: &RunningRender,
    elapsed: F64,
    per: &P,
    rate: Option<F64>,
    left: Option<F64>,
)
    requires
        call_ensures(RunningRender::rate::<P>, (run, elapsed, per), rate),
        call_ensures(RunningRender::eta::<P>, (run, elapsed, per), left),
    ensures
        rate is Some <==> run@.done > 0 && elapsed.above_zero(),
        rate matches Some(v) ==> call_ensures(*per, (run@.done as u64, elapsed), v),
        run@.total is None || run@.done == 0 || !elapsed.above_zero() ==> left is None,
        left matches Some(t) ==> exists|v: F64| #[trigger]
            call_ensures(*per, (run@.done as u64, elapsed), v) && v.above_zero() && call_ensures(
                *per,
                ((if run@.done < run@.total->0 {
                    (run@.total->0 - run@.done) as u64
                } else {
                    0u64
                }), v),
                t,
            ),
{
}

/// A worker that returned is believed; one that panicked failed, and that is said.
pub proof fn law_a_worker_is_believed(joined: Joined, elapsed: u64, r: Finished)
    requires
        call_ensures(Finished::of, (joined, elapsed), r),
    ensures
        joined matches Joined::Returned(Ok(summary)) ==> (r matches Finished::Succeeded {
            summary: told,
            elapsed: took,
        } && told == summary && took == elapsed),
        joined matches Joined::Returned(Err(message)) ==> r == Finished::Failed(message),
        joined is Panicked ==> (r matches Finished::Failed(message) && message@
            == "the render thread panicked"@),
{
}

/// What is said once a run is over: that it converted its frames, or stopped after them,
/// in how long and where to; or that it failed.
pub proof fn law_an_outcome_is_told(f: &Finished, windows: bool, text: String)
    requires
        call_ensures(Finished::outcome, (f, windows), text),
    ensures
        *f is Failed ==> text@ == "render failed"@,
        *f matches Finished::Succeeded { summary, elapsed } ==> !summary.cancelled ==> text@
            == "converted"@ + " "@ + decimal_text(summary.frames as nat) + " frames in "@
            + duration_text(elapsed as nat) + " \u{2192} "@ + outputs_text(
            texts(summary.outputs@),
            windows,
        ),
        *f matches Finished::Succeeded { summary, elapsed } ==> summary.cancelled ==> text@
            == "stopped after"@ + " "@ + decimal_text(summary.frames as nat) + " frames in "@
            + duration_text(elapsed as nat) + " \u{2192} "@ + outputs_text(
            texts(summary.outputs@),
            windows,
        ),
{
}

/// A length of time is told at the scale it has: hours and minutes, minutes and seconds,
/// or seconds.
pub proof fn law_a_time_is_told_at_its_scale(h: nat, m: nat, s: nat, n: u64, text: String)
    requires
        m < 60 && s < 60,
        n == 3600 * h + 60 * m + s,
        call_ensures(format_duration, (n,), text),
    ensures
        h > 0 ==> text@ == decimal_text(h) + "h"@ + two_digit_text(m) + "m"@,
        h == 0 && m > 0 ==> text@ == decimal_text(m) + "m"@ + two_digit_text(s) + "s"@,
        h == 0 && m == 0 ==> text@ == decimal_text(s) + "s"@,
{
    let t = n as int;
    vstd::arithmetic::div_mod::lemma_fundamental_div_mod_converse(
        t,
        3600,
        h as int,
        (60 * m + s) as int,
    );
    vstd::arithmetic::div_mod::lemma_fundamental_div_mod_converse(
        (60 * m + s) as int,
        60,
        m as int,
        s as int,
    );
    vstd::arithmetic::div_mod::lemma_fundamental_div_mod_converse(
        t,
        60,
        (60 * h + m) as int,
        s as int,
    );
}

/// One file that was written is told by its whole path, two by their names with an "and"
/// between them, the first first, and none as nothing.
pub proof fn law_written_files_are_told(outputs: &[String], windows: bool, text: String, a: Seq<char>, b: Seq<char>)
    requires
        call_ensures(describe_outputs, (outputs, windows), text),
    ensures
        outputs@.len() == 0 ==> text@ == "nothing"@,
        outputs@.len() == 1 ==> text@ == outputs@[0]@,
        outputs@.len() == 2 && name_of(outputs@[0]@, windows) == Some(a) && name_of(
            outputs@[1]@,
            windows,
        ) == Some(b) ==> text@ == a + " and "@ + b,
{
    let paths = texts(outputs@);
    if outputs@.len() == 1 {
        assert(paths[0] == outputs@[0]@);
    }
    if outputs@.len() == 2 && name_of(outputs@[0]@, windows) == Some(a) && name_of(
        outputs@[1]@,
        windows,
    ) == Some(b) {
        reveal_with_fuel(names_of, 3);
        reveal_with_fuel(listed, 3);
        assert(paths.last() == outputs@[1]@);
        assert(paths.drop_last().last() == outputs@[0]@);
        assert(paths.drop_last().drop_last() =~= Seq::empty());
        let names = names_of(paths, windows);
        assert(names =~= seq![a, b]);
        assert(names.drop_last() =~= seq![a]);
    }
}

/// The bar says how far a run is, how fast and how much longer where all that is known:
/// frames done of frames in all, the rate and the time left. Otherwise it counts frames.
pub proof fn law_the_bar_says_how_far_a_run_is<
    P: Fn(u64, F64) -> F64,
    C: Fn(F64) -> u64,
    W: Fn(F64) -> String,
>(
    run: &RunningRender,
    elapsed: F64,
    per: &P,
    seconds: &C,
    show: &W,
    r: (Option<(u64, u64)>, String),
)
    requires
        call_ensures(RunningRender::status::<P, C, W>, (run, elapsed, per, seconds, show), r),
    ensures
        r.0 is None ==> r.1@ == decimal_text(run@.done) + " frames"@,
        r.0 matches Some(f) ==> exists|rate: F64, written: String, left: u64| #[trigger]
            call_ensures(*show, (rate,), written) && call_ensures(
                *per,
                (run@.done as u64, elapsed),
                rate,
            ) && r.1@ == decimal_text(run@.done) + " / "@ + decimal_text(run@.total->0 as nat)
                + "  \u{B7}  "@ + written@ + " fps  \u{B7}  "@ + #[trigger] duration_text(left as nat)
                + " left"@,
{
    if r.0 is Some {
        let (rate, eta, left, written) = choose|rate: F64, eta: F64, left: u64, written: String|
            call_ensures(*per, (run@.done as u64, elapsed), rate) && remains(
                *per,
                run@,
                elapsed,
                Some(eta),
            ) && #[trigger] call_ensures(*seconds, (eta,), left) && #[trigger] call_ensures(
                *show,
                (rate,),
                written,
            ) && r.1@ == status_text(run@.done, run@.total->0 as nat, written@, left as nat);
        assert(call_ensures(*show, (rate,), written));
        let told = duration_text(left as nat);
    }
}

/// A render in flight tells what has been heard of it.
pub proof fn law_a_render_tells_what_was_heard(
    run: &RunningRender,
    cancelling: bool,
    notes: &[String],
    done: u64,
    total: Option<u64>,
)
    requires
        call_ensures(RunningRender::is_cancelling, (run,), cancelling),
        call_ensures(RunningRender::notes, (run,), notes),
        call_ensures(RunningRender::frames_done, (run,), done),
        call_ensures(RunningRender::total_frames, (run,), total),
    ensures
        cancelling <==> run@.cancelling,
        notes@.len() == run@.notes.len(),
        forall|i: int| 0 <= i < notes@.len() ==> (#[trigger] notes@[i])@ == run@.notes[i],
        done == run@.done,
        total == run@.total,
{
    assert forall|i: int| 0 <= i < notes@.len() implies (#[trigger] notes@[i])@ == run@.notes[i] by {
        assert(texts(notes@)[i] == notes@[i]@);
    }
    assert(texts(notes@).len() == notes@.len());
}

} // verus!
