//! The decisions of a launch: which outside step comes next, given what the
//! previous one reported. The caller performs each step (looking for the
//! client, checking it, starting it, waiting on it) and hands back what it
//! observed; the launch answers with the next step or the final result.

use vstd::prelude::*;
use crate::client::{already_running_message, already_running_text, debugging_args, debugging_arguments, launched_message, launched_text, needs_discovery, Platform};
use crate::settings::{spec_tz, tz, Settings, ZoneCatalog};
use crate::supervise::{early_exit_message, early_exit_text};
use crate::text::{text_result, trim};

verus! {

/// The outside step a launch is waiting on.
#[derive(PartialEq, Eq, Structural, Clone, Copy, Debug)]
pub enum LaunchStage {
    /// Looking for an installed client.
    Discovering,
    /// Checking the client at the chosen path.
    Validating,
    /// Asking whether that client is already running.
    CheckingRunning,
    /// Finding the skin tool, its debugging port, and checking the port is free.
    PreparingSkin,
    /// Storing the settings.
    Saving,
    /// Starting the client.
    Spawning,
    /// Looking whether the client exited right after its start.
    Watching,
    /// Waiting for the client's debugging endpoint.
    WaitingEndpoint,
    /// Running the skin tool's script.
    ApplyingSkin,
    /// The launch has ended.
    Finished,
}

/// A launch in progress.
#[derive(Debug)]
pub struct Launch {
    pub stage: LaunchStage,
    pub platform: Platform,
    pub skin: bool,
    pub tz: String,
    pub path: String,
    pub port: u16,
    pub profile: Option<String>,
}

/// The plain values of a launch: where it stands, the platform, whether the
/// skin is applied, the `TZ` value the client gets, the path being checked,
/// and the debugging port and profile folder found for the skin.
pub struct LaunchView {
    pub stage: LaunchStage,
    pub platform: Platform,
    pub skin: bool,
    pub tz: Seq<char>,
    pub path: Seq<char>,
    pub port: u16,
    pub profile: Option<Seq<char>>,
}

impl View for Launch {
    type V = LaunchView;

    open spec fn view(&self) -> LaunchView {
        LaunchView {
            stage: self.stage,
            platform: self.platform,
            skin: self.skin,
            tz: self.tz@,
            path: self.path@,
            port: self.port,
            profile: self.profile.deep_view(),
        }
    }
}

/// What the caller observed in performing the step it was asked for.
#[derive(Debug)]
pub enum LaunchEvent {
    /// The search for a client gave this path (empty when it found none).
    Found(String),
    /// The step succeeded.
    Done,
    /// The step failed with this message.
    Failed(String),
    /// Whether the chosen client is running.
    Running(bool),
    /// The skin tool is installed and expects the client's endpoint at
    /// `port`, which is free; `profile` is the profile folder it asks for.
    SkinReady { port: u16, profile: Option<String> },
    /// The client's exit status if it has already exited, else `None`.
    Exited(Option<String>),
}

/// The plain values of a `LaunchEvent`.
pub enum LaunchEventView {
    Found(Seq<char>),
    Done,
    Failed(Seq<char>),
    Running(bool),
    SkinReady { port: u16, profile: Option<Seq<char>> },
    Exited(Option<Seq<char>>),
}

impl View for LaunchEvent {
    type V = LaunchEventView;

    open spec fn view(&self) -> LaunchEventView {
        match self {
            LaunchEvent::Found(p) => LaunchEventView::Found(p@),
            LaunchEvent::Done => LaunchEventView::Done,
            LaunchEvent::Failed(m) => LaunchEventView::Failed(m@),
            LaunchEvent::Running(r) => LaunchEventView::Running(*r),
            LaunchEvent::SkinReady { port, profile } => LaunchEventView::SkinReady { port: *port, profile: profile.deep_view() },
            LaunchEvent::Exited(s) => LaunchEventView::Exited(s.deep_view()),
        }
    }
}

/// The step the caller is to perform next.
#[derive(Debug)]
pub enum LaunchAction {
    /// Look for an installed client and report `Found`.
    Discover,
    /// Check the client at this path; report `Done` or `Failed`.
    Validate(String),
    /// Check whether the validated client runs; report `Running`.
    CheckRunning,
    /// Find the skin tool and its port; report `SkinReady`.
    PrepareSkin,
    /// Store the settings; report `Done`.
    Save,
    /// Start the validated client with `TZ` set to `tz` and these extra
    /// arguments; report `Done`.
    Spawn { tz: String, args: Vec<String> },
    /// Look whether the client has exited; report `Exited`.
    Watch,
    /// Wait for the debugging endpoint at this port; report `Done`.
    WaitEndpoint(u16),
    /// Apply the skin through the endpoint at this port; report `Done`.
    ApplySkin(u16),
    /// The launch is over: the message of a successful start, or the refusal.
    Finish(Result<String, String>),
}

/// The plain values of a `LaunchAction`.
pub enum LaunchActionView {
    Discover,
    Validate(Seq<char>),
    CheckRunning,
    PrepareSkin,
    Save,
    Spawn { tz: Seq<char>, args: Seq<Seq<char>> },
    Watch,
    WaitEndpoint(u16),
    ApplySkin(u16),
    Finish(Result<Seq<char>, Seq<char>>),
}

impl View for LaunchAction {
    type V = LaunchActionView;

    open spec fn view(&self) -> LaunchActionView {
        match self {
            LaunchAction::Discover => LaunchActionView::Discover,
            LaunchAction::Validate(p) => LaunchActionView::Validate(p@),
            LaunchAction::CheckRunning => LaunchActionView::CheckRunning,
            LaunchAction::PrepareSkin => LaunchActionView::PrepareSkin,
            LaunchAction::Save => LaunchActionView::Save,
            LaunchAction::Spawn { tz, args } => LaunchActionView::Spawn { tz: tz@, args: args@.map_values(|a: String| a@) },
            LaunchAction::Watch => LaunchActionView::Watch,
            LaunchAction::WaitEndpoint(p) => LaunchActionView::WaitEndpoint(*p),
            LaunchAction::ApplySkin(p) => LaunchActionView::ApplySkin(*p),
            LaunchAction::Finish(r) => LaunchActionView::Finish(text_result(*r)),
        }
    }
}

/// The extra arguments the client is started with: those that open its
/// debugging endpoint when the skin is applied, none otherwise.
pub open spec fn spawn_args(st: LaunchView) -> Seq<Seq<char>> {
    if st.skin {
        debugging_args(st.port, st.profile)
    } else {
        seq![]
    }
}

/// The step that a launch at stage `st.stage` waits on (a finished launch
/// waits on nothing and is never asked; `Finish` with an empty message
/// stands there).
pub open spec fn stage_action(st: LaunchView) -> LaunchActionView {
    match st.stage {
        LaunchStage::Discovering => LaunchActionView::Discover,
        LaunchStage::Validating => LaunchActionView::Validate(st.path),
        LaunchStage::CheckingRunning => LaunchActionView::CheckRunning,
        LaunchStage::PreparingSkin => LaunchActionView::PrepareSkin,
        LaunchStage::Saving => LaunchActionView::Save,
        LaunchStage::Spawning => LaunchActionView::Spawn { tz: st.tz, args: spawn_args(st) },
        LaunchStage::Watching => LaunchActionView::Watch,
        LaunchStage::WaitingEndpoint => LaunchActionView::WaitEndpoint(st.port),
        LaunchStage::ApplyingSkin => LaunchActionView::ApplySkin(st.port),
        LaunchStage::Finished => LaunchActionView::Finish(Err(seq![])),
    }
}

/// `st` moved on to stage `stage`.
pub open spec fn at_stage(st: LaunchView, stage: LaunchStage) -> LaunchView {
    LaunchView { stage, ..st }
}

/// `st` ended with the result `r`.
pub open spec fn finish(st: LaunchView, r: Result<Seq<char>, Seq<char>>) -> (LaunchView, LaunchActionView) {
    (at_stage(st, LaunchStage::Finished), LaunchActionView::Finish(r))
}

/// `st` moved on to `stage`, asking for that stage's step.
pub open spec fn advance(st: LaunchView, stage: LaunchStage) -> (LaunchView, LaunchActionView) {
    (at_stage(st, stage), stage_action(at_stage(st, stage)))
}

/// How a launch goes on after the caller reports `ev` for the step it was
/// asked for. A failed step ends the launch with its message. An answer that
/// does not fit the step leaves the launch where it is and asks again.
pub open spec fn spec_launch_step(st: LaunchView, ev: LaunchEventView) -> (LaunchView, LaunchActionView) {
    match ev {
        LaunchEventView::Failed(m) => finish(st, Err(m)),
        _ => match (st.stage, ev) {
            (LaunchStage::Discovering, LaunchEventView::Found(p)) => advance(LaunchView { path: p, ..st }, LaunchStage::Validating),
            (LaunchStage::Validating, LaunchEventView::Done) => advance(st, LaunchStage::CheckingRunning),
            (LaunchStage::CheckingRunning, LaunchEventView::Running(running)) => if running {
                finish(st, Err(already_running_text(st.platform)))
            } else if st.skin {
                advance(st, LaunchStage::PreparingSkin)
            } else {
                advance(st, LaunchStage::Saving)
            },
            (LaunchStage::PreparingSkin, LaunchEventView::SkinReady { port, profile }) => advance(LaunchView { port, profile, ..st }, LaunchStage::Saving),
            (LaunchStage::Saving, LaunchEventView::Done) => advance(st, LaunchStage::Spawning),
            (LaunchStage::Spawning, LaunchEventView::Done) => advance(st, LaunchStage::Watching),
            (LaunchStage::Watching, LaunchEventView::Exited(status)) => match status {
                Some(code) => finish(st, Err(early_exit_text(code, st.platform == Platform::MacOs))),
                None => if st.skin {
                    advance(st, LaunchStage::WaitingEndpoint)
                } else {
                    finish(st, Ok(launched_text(st.platform, false)))
                },
            },
            (LaunchStage::WaitingEndpoint, LaunchEventView::Done) => advance(st, LaunchStage::ApplyingSkin),
            (LaunchStage::ApplyingSkin, LaunchEventView::Done) => finish(st, Ok(launched_text(st.platform, true))),
            _ => (st, stage_action(st)),
        },
    }
}

/// How a launch for settings with these fields begins: refused when they name
/// no valid zone; else looking for the client when `executable` is blank, or
/// checking `executable` itself.
pub open spec fn spec_launch_start(
    mode: Seq<char>,
    zone_id: Seq<char>,
    offset: int,
    zones: Seq<Seq<char>>,
    executable: Seq<char>,
    skin: bool,
    platform: Platform,
) -> (LaunchView, LaunchActionView) {
    let st = LaunchView { stage: LaunchStage::Finished, platform, skin, tz: seq![], path: seq![], port: 0, profile: None };
    match spec_tz(mode, zone_id, offset, zones) {
        Err(m) => finish(st, Err(m)),
        Ok(z) => if trim(executable).len() == 0 {
            advance(LaunchView { tz: z, ..st }, LaunchStage::Discovering)
        } else {
            advance(LaunchView { tz: z, path: executable, ..st }, LaunchStage::Validating)
        },
    }
}

impl Launch {
    /// Begins the launch of the client with settings `s` on `platform`, and
    /// gives the first step.
    pub fn start(s: &Settings, zones: &ZoneCatalog, platform: Platform) -> (res: (Launch, LaunchAction))
        ensures
            (res.0@, res.1@) == spec_launch_start(s.mode@, s.zone_id@, s.offset as int, zones@, s.executable@, s.dream_skin_compatible, platform),
    {
        let mut launch = Launch {
            stage: LaunchStage::Finished,
            platform,
            skin: s.dream_skin_compatible,
            tz: String::new(),
            path: String::new(),
            port: 0,
            profile: None,
        };
        match tz(s, zones) {
            Err(m) => (launch, LaunchAction::Finish(Err(m))),
            Ok(z) => {
                launch.tz = z;
                if needs_discovery(s.executable.as_str()) {
                    launch.stage = LaunchStage::Discovering;
                    (launch, LaunchAction::Discover)
                } else {
                    launch.path = s.executable.clone();
                    launch.stage = LaunchStage::Validating;
                    let action = LaunchAction::Validate(s.executable.clone());
                    (launch, action)
                }
            },
        }
    }

    /// The extra arguments the client is started with.
    fn arguments(&self) -> (res: Vec<String>)
        ensures
            res@.map_values(|a: String| a@) == spawn_args(self@),
    {
        if self.skin {
            let profile: Option<&str> = match &self.profile {
                Some(p) => Some(p.as_str()),
                None => None,
            };
            debugging_arguments(self.port, profile)
        } else {
            let none: Vec<String> = Vec::new();
            assert(none@.map_values(|a: String| a@) =~= Seq::<Seq<char>>::empty());
            none
        }
    }

    /// The step the launch waits on.
    fn current_action(&self) -> (res: LaunchAction)
        ensures
            res@ == stage_action(self@),
    {
        match self.stage {
            LaunchStage::Discovering => LaunchAction::Discover,
            LaunchStage::Validating => LaunchAction::Validate(self.path.clone()),
            LaunchStage::CheckingRunning => LaunchAction::CheckRunning,
            LaunchStage::PreparingSkin => LaunchAction::PrepareSkin,
            LaunchStage::Saving => LaunchAction::Save,
            LaunchStage::Spawning => LaunchAction::Spawn { tz: self.tz.clone(), args: self.arguments() },
            LaunchStage::Watching => LaunchAction::Watch,
            LaunchStage::WaitingEndpoint => LaunchAction::WaitEndpoint(self.port),
            LaunchStage::ApplyingSkin => LaunchAction::ApplySkin(self.port),
            LaunchStage::Finished => LaunchAction::Finish(Err(String::new())),
        }
    }

    fn advance(&mut self, stage: LaunchStage) -> (res: LaunchAction)
        ensures
            (final(self)@, res@) == advance(old(self)@, stage),
    {
        self.stage = stage;
        self.current_action()
    }

    fn finish(&mut self, r: Result<String, String>) -> (res: LaunchAction)
        ensures
            (final(self)@, res@) == finish(old(self)@, text_result(r)),
    {
        self.stage = LaunchStage::Finished;
        LaunchAction::Finish(r)
    }

    /// Takes what the caller observed in the step it was asked for, and gives
    /// the next step.
    pub fn step(&mut self, ev: LaunchEvent) -> (res: LaunchAction)
        requires
            old(self)@.stage != LaunchStage::Finished,
        ensures
            (final(self)@, res@) == spec_launch_step(old(self)@, ev@),
    {
        match ev {
            LaunchEvent::Failed(m) => self.finish(Err(m)),
            LaunchEvent::Found(p) => if self.stage == LaunchStage::Discovering {
                self.path = p;
                self.advance(LaunchStage::Validating)
            } else {
                self.current_action()
            },
            LaunchEvent::Done => match self.stage {
                LaunchStage::Validating => self.advance(LaunchStage::CheckingRunning),
                LaunchStage::Saving => self.advance(LaunchStage::Spawning),
                LaunchStage::Spawning => self.advance(LaunchStage::Watching),
                LaunchStage::WaitingEndpoint => self.advance(LaunchStage::ApplyingSkin),
                LaunchStage::ApplyingSkin => {
                    let m = launched_message(self.platform, true);
                    self.finish(Ok(m))
                },
                _ => self.current_action(),
            },
            LaunchEvent::Running(running) => if self.stage == LaunchStage::CheckingRunning {
                if running {
                    let m = already_running_message(self.platform);
                    self.finish(Err(m))
                } else if self.skin {
                    self.advance(LaunchStage::PreparingSkin)
                } else {
                    self.advance(LaunchStage::Saving)
                }
            } else {
                self.current_action()
            },
            LaunchEvent::SkinReady { port, profile } => if self.stage == LaunchStage::PreparingSkin {
                self.port = port;
                self.profile = profile;
                self.advance(LaunchStage::Saving)
            } else {
                self.current_action()
            },
            LaunchEvent::Exited(status) => if self.stage == LaunchStage::Watching {
                match status {
                    Some(code) => {
                        let m = early_exit_message(code.as_str(), self.platform == Platform::MacOs);
                        self.finish(Err(m))
                    },
                    None => if self.skin {
                        self.advance(LaunchStage::WaitingEndpoint)
                    } else {
                        let m = launched_message(self.platform, false);
                        self.finish(Ok(m))
                    },
                }
            } else {
                self.current_action()
            },
        }
    }
}

/// The order of the stages: a launch never goes back to an earlier one.
pub open spec fn stage_rank(stage: LaunchStage) -> int {
    match stage {
        LaunchStage::Discovering => 0,
        LaunchStage::Validating => 1,
        LaunchStage::CheckingRunning => 2,
        LaunchStage::PreparingSkin => 3,
        LaunchStage::Saving => 4,
        LaunchStage::Spawning => 5,
        LaunchStage::Watching => 6,
        LaunchStage::WaitingEndpoint => 7,
        LaunchStage::ApplyingSkin => 8,
        LaunchStage::Finished => 9,
    }
}

/// Whether `st` waits on a skin step only when the skin is applied.
pub open spec fn launch_consistent(st: LaunchView) -> bool {
    !st.skin ==> !(st.stage == LaunchStage::PreparingSkin || st.stage == LaunchStage::WaitingEndpoint
        || st.stage == LaunchStage::ApplyingSkin)
}

/// The steps a launch at `st` asks for in answer to the reports `evs`, one
/// per report, until it ends.
pub open spec fn launch_run(st: LaunchView, evs: Seq<LaunchEventView>) -> Seq<LaunchActionView>
    decreases evs.len(),
{
    if evs.len() == 0 || st.stage == LaunchStage::Finished {
        seq![]
    } else {
        seq![spec_launch_step(st, evs[0]).1] + launch_run(spec_launch_step(st, evs[0]).0, evs.drop_first())
    }
}

/// Where a launch at `st` stands after the reports `evs`.
pub open spec fn launch_after(st: LaunchView, evs: Seq<LaunchEventView>) -> LaunchView
    decreases evs.len(),
{
    if evs.len() == 0 || st.stage == LaunchStage::Finished {
        st
    } else {
        launch_after(spec_launch_step(st, evs[0]).0, evs.drop_first())
    }
}

proof fn lemma_step_facts(st: LaunchView, ev: LaunchEventView)
    requires
        st.stage != LaunchStage::Finished,
    ensures
        stage_rank(spec_launch_step(st, ev).0.stage) >= stage_rank(st.stage),
        (spec_launch_step(st, ev).0.stage == LaunchStage::Finished) == (spec_launch_step(st, ev).1 is Finish),
        spec_launch_step(st, ev).0.stage != LaunchStage::Finished ==> spec_launch_step(st, ev).1 == stage_action(spec_launch_step(st, ev).0),
        spec_launch_step(st, ev).0.platform == st.platform,
        spec_launch_step(st, ev).0.skin == st.skin,
        spec_launch_step(st, ev).0.tz == st.tz,
        launch_consistent(st) ==> launch_consistent(spec_launch_step(st, ev).0),
        stage_rank(st.stage) >= stage_rank(LaunchStage::Saving) ==> spec_launch_step(st, ev).0.port == st.port
            && spec_launch_step(st, ev).0.profile == st.profile,
{
}

proof fn lemma_run_index(st: LaunchView, evs: Seq<LaunchEventView>, k: int)
    requires
        0 <= k < launch_run(st, evs).len(),
    ensures
        k < evs.len(),
        launch_after(st, evs.take(k)).stage != LaunchStage::Finished,
        launch_run(st, evs)[k] == spec_launch_step(launch_after(st, evs.take(k)), evs[k]).1,
        launch_after(st, evs.take(k + 1)) == spec_launch_step(launch_after(st, evs.take(k)), evs[k]).0,
    decreases k,
{
    let n = spec_launch_step(st, evs[0]).0;
    let ds = evs.drop_first();
    if k > 0 {
        lemma_run_index(n, ds, k - 1);
        assert(evs.take(k).drop_first() =~= ds.take(k - 1));
        assert(ds[k - 1] == evs[k]);
        assert(evs.take(k)[0] == evs[0]);
    } else {
        assert(launch_after(n, ds.take(0)) == n);
    }
    assert(evs.take(k + 1).drop_first() =~= ds.take(k));
    assert(evs.take(k + 1)[0] == evs[0]);
}

proof fn lemma_after_keeps(st: LaunchView, evs: Seq<LaunchEventView>)
    ensures
        stage_rank(launch_after(st, evs).stage) >= stage_rank(st.stage),
        launch_after(st, evs).platform == st.platform,
        launch_after(st, evs).skin == st.skin,
        launch_after(st, evs).tz == st.tz,
        launch_consistent(st) ==> launch_consistent(launch_after(st, evs)),
        stage_rank(st.stage) >= stage_rank(LaunchStage::Saving) ==> launch_after(st, evs).port == st.port
            && launch_after(st, evs).profile == st.profile,
    decreases evs.len(),
{
    if evs.len() > 0 && st.stage != LaunchStage::Finished {
        lemma_step_facts(st, evs[0]);
        lemma_after_keeps(spec_launch_step(st, evs[0]).0, evs.drop_first());
    }
}

proof fn lemma_after_forward(st: LaunchView, evs: Seq<LaunchEventView>, a: int, b: int)
    requires
        0 <= a <= b <= evs.len(),
    ensures
        stage_rank(launch_after(st, evs.take(a)).stage) <= stage_rank(launch_after(st, evs.take(b)).stage),
    decreases a,
{
    if a == 0 {
        lemma_after_keeps(st, evs.take(b));
    } else if st.stage != LaunchStage::Finished {
        let n = spec_launch_step(st, evs[0]).0;
        let ds = evs.drop_first();
        assert(evs.take(a).drop_first() =~= ds.take(a - 1));
        assert(evs.take(b).drop_first() =~= ds.take(b - 1));
        lemma_after_forward(n, ds, a - 1, b - 1);
    }
}

proof fn lemma_run_ends(st: LaunchView, evs: Seq<LaunchEventView>, k: int)
    requires
        0 <= k < launch_run(st, evs).len(),
        launch_after(st, evs.take(k + 1)).stage == LaunchStage::Finished,
    ensures
        launch_run(st, evs).len() == k + 1,
    decreases k,
{
    lemma_run_index(st, evs, k);
    let n = spec_launch_step(st, evs[0]).0;
    let ds = evs.drop_first();
    assert(evs.take(k + 1).drop_first() =~= ds.take(k));
    assert(evs.take(k + 1)[0] == evs[0]);
    assert(launch_run(st, evs) == seq![spec_launch_step(st, evs[0]).1] + launch_run(n, ds));
    if k > 0 {
        lemma_run_ends(n, ds, k - 1);
    } else {
        assert(launch_after(st, evs.take(0)) == st);
        assert(launch_run(n, ds).len() == 0);
    }
}

/// Whether answering `ev` takes a launch at `st` from stage rank `r` or
/// lower to a later stage at which it is still going on.
pub open spec fn passes(st: LaunchView, ev: LaunchEventView, r: int) -> bool {
    &&& st.stage != LaunchStage::Finished
    &&& stage_rank(st.stage) <= r
    &&& stage_rank(spec_launch_step(st, ev).0.stage) > r
    &&& spec_launch_step(st, ev).0.stage != LaunchStage::Finished
}

proof fn lemma_passed(st: LaunchView, evs: Seq<LaunchEventView>, k: int, r: int)
    requires
        0 <= k <= evs.len(),
        stage_rank(st.stage) <= r,
        stage_rank(launch_after(st, evs.take(k)).stage) > r,
        launch_after(st, evs.take(k)).stage != LaunchStage::Finished,
    ensures
        exists|j: int| 0 <= j < k && passes(#[trigger] launch_after(st, evs.take(j)), evs[j], r),
    decreases k,
{
    if k > 0 {
        let n = spec_launch_step(st, evs[0]).0;
        let ds = evs.drop_first();
        assert(evs.take(k).drop_first() =~= ds.take(k - 1));
        assert(launch_after(st, evs.take(0)) == st);
        if stage_rank(n.stage) <= r {
            lemma_passed(n, ds, k - 1, r);
            let j = choose|j: int| 0 <= j < k - 1 && passes(#[trigger] launch_after(n, ds.take(j)), ds[j], r);
            assert(evs.take(j + 1).drop_first() =~= ds.take(j));
            assert(ds[j] == evs[j + 1]);
            assert(passes(launch_after(st, evs.take(j + 1)), evs[j + 1], r));
        } else {
            if n.stage == LaunchStage::Finished {
                assert(launch_after(n, ds.take(k - 1)) == n);
            }
            assert(passes(launch_after(st, evs.take(0)), evs[0], r));
        }
    }
}

/// A launch that is told the client already runs ends right there with the
/// refusal, and neither stores the settings nor starts the client at any
/// point of its run.
pub proof fn law_running_client_refused(st: LaunchView, evs: Seq<LaunchEventView>, j: int)
    requires
        0 <= j < launch_run(st, evs).len(),
        launch_after(st, evs.take(j)).stage == LaunchStage::CheckingRunning,
        evs[j] == LaunchEventView::Running(true),
    ensures
        launch_run(st, evs)[j] == LaunchActionView::Finish(Err(already_running_text(st.platform))),
        launch_run(st, evs).len() == j + 1,
        forall|k: int| 0 <= k < launch_run(st, evs).len() ==> !(#[trigger] launch_run(st, evs)[k] is Save) && !(launch_run(st, evs)[k] is Spawn),
{
    lemma_run_index(st, evs, j);
    lemma_after_keeps(st, evs.take(j));
    lemma_run_ends(st, evs, j);
    assert forall|k: int| 0 <= k < launch_run(st, evs).len() implies !(#[trigger] launch_run(st, evs)[k] is Save) && !(launch_run(st, evs)[k] is Spawn) by {
        lemma_run_index(st, evs, k);
        lemma_step_facts(launch_after(st, evs.take(k)), evs[k]);
        if k < j {
            lemma_after_forward(st, evs, k + 1, j);
        }
    }
}

/// The settings are stored only after the running check of the chosen
/// client answered that it does not run: in a run from any stage up to that
/// check, every `Save` answers a report at or after that answer.
pub proof fn law_save_after_running_check(st: LaunchView, evs: Seq<LaunchEventView>, k: int)
    requires
        stage_rank(st.stage) <= stage_rank(LaunchStage::CheckingRunning),
        0 <= k < launch_run(st, evs).len(),
        launch_run(st, evs)[k] is Save,
    ensures
        exists|j: int| 0 <= j <= k && #[trigger] launch_after(st, evs.take(j)).stage == LaunchStage::CheckingRunning
            && evs[j] == LaunchEventView::Running(false),
{
    lemma_run_index(st, evs, k);
    let sk = launch_after(st, evs.take(k));
    lemma_step_facts(sk, evs[k]);
    if stage_rank(sk.stage) <= 2 {
        assert(launch_after(st, evs.take(k)).stage == LaunchStage::CheckingRunning && evs[k] == LaunchEventView::Running(false));
    } else {
        lemma_passed(st, evs, k, 2);
        let j = choose|j: int| 0 <= j < k && passes(#[trigger] launch_after(st, evs.take(j)), evs[j], 2);
        assert(launch_after(st, evs.take(j)).stage == LaunchStage::CheckingRunning && evs[j] == LaunchEventView::Running(false));
    }
}

/// The client is started only after the settings were stored, with the
/// launch's `TZ` value: in a run from any stage up to storing, every `Spawn`
/// answers a report at or after the report that the save succeeded.
pub proof fn law_spawn_after_save(st: LaunchView, evs: Seq<LaunchEventView>, k: int)
    requires
        stage_rank(st.stage) <= stage_rank(LaunchStage::Saving),
        0 <= k < launch_run(st, evs).len(),
        launch_run(st, evs)[k] is Spawn,
    ensures
        exists|j: int| 0 <= j <= k && #[trigger] launch_after(st, evs.take(j)).stage == LaunchStage::Saving
            && evs[j] == LaunchEventView::Done,
        launch_run(st, evs)[k]->Spawn_tz == st.tz,
{
    lemma_run_index(st, evs, k);
    let sk = launch_after(st, evs.take(k));
    lemma_step_facts(sk, evs[k]);
    lemma_after_keeps(st, evs.take(k));
    if stage_rank(sk.stage) <= 4 {
        assert(launch_after(st, evs.take(k)).stage == LaunchStage::Saving && evs[k] == LaunchEventView::Done);
    } else {
        lemma_passed(st, evs, k, 4);
        let j = choose|j: int| 0 <= j < k && passes(#[trigger] launch_after(st, evs.take(j)), evs[j], 4);
        assert(launch_after(st, evs.take(j)).stage == LaunchStage::Saving && evs[j] == LaunchEventView::Done);
    }
}

/// A launch reports success only when the client was still running at the
/// look after its start, and, with the skin, only once the skin script
/// succeeded; the message is the platform's success message.
pub proof fn law_success_after_watch(st: LaunchView, evs: Seq<LaunchEventView>, k: int, m: Seq<char>)
    requires
        launch_consistent(st),
        stage_rank(st.stage) <= stage_rank(LaunchStage::Watching),
        0 <= k < launch_run(st, evs).len(),
        launch_run(st, evs)[k] == LaunchActionView::Finish(Ok(m)),
    ensures
        m == launched_text(st.platform, st.skin),
        exists|j: int| 0 <= j <= k && #[trigger] launch_after(st, evs.take(j)).stage == LaunchStage::Watching
            && evs[j] == LaunchEventView::Exited(None),
        st.skin ==> launch_after(st, evs.take(k)).stage == LaunchStage::ApplyingSkin && evs[k] == LaunchEventView::Done,
{
    lemma_run_index(st, evs, k);
    let sk = launch_after(st, evs.take(k));
    lemma_step_facts(sk, evs[k]);
    lemma_after_keeps(st, evs.take(k));
    if stage_rank(sk.stage) <= 6 {
        assert(launch_after(st, evs.take(k)).stage == LaunchStage::Watching && evs[k] == LaunchEventView::Exited(None));
    } else {
        lemma_passed(st, evs, k, 6);
        let j = choose|j: int| 0 <= j < k && passes(#[trigger] launch_after(st, evs.take(j)), evs[j], 6);
        assert(launch_after(st, evs.take(j)).stage == LaunchStage::Watching && evs[j] == LaunchEventView::Exited(None));
    }
}

proof fn lemma_port_kept(st: LaunchView, evs: Seq<LaunchEventView>, a: int, b: int)
    requires
        0 <= a <= b <= evs.len(),
        stage_rank(launch_after(st, evs.take(a)).stage) >= stage_rank(LaunchStage::Saving),
    ensures
        launch_after(st, evs.take(b)).port == launch_after(st, evs.take(a)).port,
        launch_after(st, evs.take(b)).profile == launch_after(st, evs.take(a)).profile,
    decreases a,
{
    if a == 0 {
        lemma_after_keeps(st, evs.take(b));
    } else if st.stage != LaunchStage::Finished {
        let n = spec_launch_step(st, evs[0]).0;
        let ds = evs.drop_first();
        assert(evs.take(a).drop_first() =~= ds.take(a - 1));
        assert(evs.take(b).drop_first() =~= ds.take(b - 1));
        lemma_port_kept(n, ds, a - 1, b - 1);
    }
}

/// With the skin, the endpoint the launch waits for and the endpoint the
/// skin is applied through are at the port the client was started with: an
/// earlier `Spawn` of the run carries the debugging arguments for that port.
pub proof fn law_skin_port_used(st: LaunchView, evs: Seq<LaunchEventView>, k: int, port: u16)
    requires
        launch_consistent(st),
        stage_rank(st.stage) <= stage_rank(LaunchStage::Saving),
        0 <= k < launch_run(st, evs).len(),
        launch_run(st, evs)[k] == LaunchActionView::WaitEndpoint(port) || launch_run(st, evs)[k] == LaunchActionView::ApplySkin(port),
    ensures
        exists|j: int| 0 <= j < k && (#[trigger] launch_run(st, evs)[j] is Spawn)
            && launch_run(st, evs)[j]->Spawn_tz == st.tz
            && launch_run(st, evs)[j]->Spawn_args == debugging_args(port, launch_after(st, evs.take(j + 1)).profile),
{
    lemma_run_index(st, evs, k);
    let sk = launch_after(st, evs.take(k));
    lemma_step_facts(sk, evs[k]);
    lemma_after_keeps(st, evs.take(k));
    lemma_passed(st, evs, k, 4);
    let j = choose|j: int| 0 <= j < k && passes(#[trigger] launch_after(st, evs.take(j)), evs[j], 4);
    let sj = launch_after(st, evs.take(j));
    lemma_run_index(st, evs, j);
    lemma_step_facts(sj, evs[j]);
    lemma_after_keeps(st, evs.take(j));
    lemma_port_kept(st, evs, j + 1, k);
    assert(launch_run(st, evs)[j]->Spawn_args == debugging_args(port, launch_after(st, evs.take(j + 1)).profile));
}

/// A step reported as failed ends the launch with that step's message,
/// whatever stage it was: after a failed validation, running check, skin
/// preparation, save, start, look, wait or skin script, nothing else is done.
pub proof fn law_failure_ends_launch(st: LaunchView, m: Seq<char>)
    requires
        st.stage != LaunchStage::Finished,
    ensures
        spec_launch_step(st, LaunchEventView::Failed(m)).0.stage == LaunchStage::Finished,
        spec_launch_step(st, LaunchEventView::Failed(m)).1 == LaunchActionView::Finish(Err(m)),
        spec_launch_step(st, LaunchEventView::Failed(m)).0.tz == st.tz,
        spec_launch_step(st, LaunchEventView::Failed(m)).0.path == st.path,
{
}

/// In a run, a report of failure is the last report answered: the launch
/// answers it by ending with its message, and asks for no further step.
pub proof fn law_failure_is_last(st: LaunchView, evs: Seq<LaunchEventView>, j: int, m: Seq<char>)
    requires
        0 <= j < launch_run(st, evs).len(),
        evs[j] == LaunchEventView::Failed(m),
    ensures
        launch_run(st, evs)[j] == LaunchActionView::Finish(Err(m)),
        launch_run(st, evs).len() == j + 1,
{
    lemma_run_index(st, evs, j);
    lemma_run_ends(st, evs, j);
}

/// Without skin compatibility a launch never prepares, waits for or applies
/// the skin, and starts the client without extra arguments.
pub proof fn law_no_skin_steps(st: LaunchView, evs: Seq<LaunchEventView>, k: int)
    requires
        launch_consistent(st),
        !st.skin,
        0 <= k < launch_run(st, evs).len(),
    ensures
        !(launch_run(st, evs)[k] is PrepareSkin),
        !(launch_run(st, evs)[k] is WaitEndpoint),
        !(launch_run(st, evs)[k] is ApplySkin),
        launch_run(st, evs)[k] is Spawn ==> launch_run(st, evs)[k]->Spawn_args.len() == 0,
{
    lemma_run_index(st, evs, k);
    let sk = launch_after(st, evs.take(k));
    lemma_after_keeps(st, evs.take(k));
    lemma_step_facts(sk, evs[k]);
}

/// A launch begins consistent and before the running check: refused at once
/// when the settings name no valid zone, else with the settings' `TZ` value,
/// looking for the client when no executable is configured and otherwise
/// checking the configured one.
pub proof fn law_launch_start(
    mode: Seq<char>,
    zone_id: Seq<char>,
    offset: int,
    zones: Seq<Seq<char>>,
    executable: Seq<char>,
    skin: bool,
    platform: Platform,
)
    ensures
        ({
            let (st, first) = spec_launch_start(mode, zone_id, offset, zones, executable, skin, platform);
            &&& launch_consistent(st)
            &&& st.skin == skin && st.platform == platform
            &&& st.stage == LaunchStage::Finished || stage_rank(st.stage) <= stage_rank(LaunchStage::CheckingRunning)
            &&& match spec_tz(mode, zone_id, offset, zones) {
                Err(e) => first == LaunchActionView::Finish(Err(e)),
                Ok(z) => st.tz == z && if trim(executable).len() == 0 {
                    first == LaunchActionView::Discover
                } else {
                    first == LaunchActionView::Validate(executable)
                },
            }
        }),
{
}

} // verus!
