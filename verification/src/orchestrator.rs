//! The provisioning orchestrator, as an explicit state machine.
//!
//! A run walks a fixed, ordered list of service descriptors. It first reads
//! the settings file; then, service by service, it builds the service,
//! installs its unit file, removes and recreates its override directory and
//! writes the override conf file; only when every service has finished its
//! setup does it reload the service manager, once; and only after the reload
//! does it enable and then start each service, again in list order. Any step
//! whose external invocation fails moves the machine to the failed state and
//! nothing further is performed.
//!
//! The machine itself performs no side effect: `next_action` says which
//! external step is due and `advance` consumes the step's outcome. A driver
//! loop performs the actions (subprocesses and file writes) and reports
//! whether each invocation completed. An external command's own exit status
//! is observed but not inspected, and removal of an override directory that
//! does not exist counts as a completed invocation: both match the
//! best-effort stance of the run.

use vstd::prelude::*;

verus! {

/// One service to provision: its name, the source directory its executable
/// is built from, and the path of its pre-authored unit file.
pub struct ServiceSpec {
    pub name: String,
    pub source_path: String,
    pub unit_file_path: String,
}

/// The configuration of a run: the ordered list of services to provision and
/// the path of the settings file.
pub struct Config {
    pub services: Vec<ServiceSpec>,
    pub settings_path: String,
}

/// One per-service setup step, in the order the run performs them.
#[derive(Clone, Copy, PartialEq, Eq, Structural, Debug)]
pub enum SetupStep {
    Build,
    InstallUnit,
    RemoveOverrideDir,
    CreateOverrideDir,
    WriteConf,
}

/// One per-service activation step, in the order the run performs them.
#[derive(Clone, Copy, PartialEq, Eq, Structural, Debug)]
pub enum ActivateStep {
    Enable,
    Start,
}

/// An external step the driver is asked to perform. Service steps carry the
/// index of the service in the configuration's list.
#[derive(Clone, Copy, PartialEq, Eq, Structural, Debug)]
pub enum Action {
    /// Read the settings file; fails when the file is missing or unreadable.
    ReadSettings,
    /// Build and install the service's executable from its source path.
    Build(usize),
    /// Copy the service's unit file into the service manager's unit
    /// directory, overwriting any prior version.
    InstallUnit(usize),
    /// Remove the service's override directory; a missing directory counts
    /// as a completed removal.
    RemoveOverrideDir(usize),
    /// Create the service's override directory, fresh and empty.
    CreateOverrideDir(usize),
    /// Write the rendered conf file into the service's override directory.
    WriteOverrideConf(usize),
    /// Reload the service manager's daemon state.
    Reload,
    /// Mark the service to start on boot.
    Enable(usize),
    /// Start the service now.
    Start(usize),
}

/// The state of a run.
#[derive(Clone, Copy, PartialEq, Eq, Structural, Debug)]
pub enum Phase {
    /// The settings file is about to be read.
    ReadSettings,
    /// Service `i` is in per-service setup, at the given step.
    Setup(usize, SetupStep),
    /// Every service has completed setup; the daemon reload is due.
    Reload,
    /// Service `i` is in per-service activation, at the given step.
    Activate(usize, ActivateStep),
    /// The run completed every step.
    Done,
    /// A step's external invocation failed; the run stopped.
    Failed,
}

/// Service indices held in a phase lie inside the service list.
pub open spec fn phase_inv(n: nat, p: Phase) -> bool {
    match p {
        Phase::Setup(i, _) => (i as nat) < n,
        Phase::Activate(i, _) => (i as nat) < n,
        _ => true,
    }
}

/// The setup action for service `i` at step `s`.
pub open spec fn setup_action(i: usize, s: SetupStep) -> Action {
    match s {
        SetupStep::Build => Action::Build(i),
        SetupStep::InstallUnit => Action::InstallUnit(i),
        SetupStep::RemoveOverrideDir => Action::RemoveOverrideDir(i),
        SetupStep::CreateOverrideDir => Action::CreateOverrideDir(i),
        SetupStep::WriteConf => Action::WriteOverrideConf(i),
    }
}

/// The activation action for service `i` at step `s`.
pub open spec fn activate_action(i: usize, s: ActivateStep) -> Action {
    match s {
        ActivateStep::Enable => Action::Enable(i),
        ActivateStep::Start => Action::Start(i),
    }
}

/// The action due in a phase; none in a terminal phase.
pub open spec fn action_of(p: Phase) -> Option<Action> {
    match p {
        Phase::ReadSettings => Some(Action::ReadSettings),
        Phase::Setup(i, s) => Some(setup_action(i, s)),
        Phase::Reload => Some(Action::Reload),
        Phase::Activate(i, s) => Some(activate_action(i, s)),
        Phase::Done => None,
        Phase::Failed => None,
    }
}

/// The transition relation of the machine: the phase after performing the
/// due action of `p` in a run over `n` services, where `ok` says whether the
/// action's external invocation completed.
pub open spec fn advance_spec(n: nat, p: Phase, ok: bool) -> Phase {
    match p {
        Phase::ReadSettings => if !ok {
            Phase::Failed
        } else if n == 0 {
            Phase::Reload
        } else {
            Phase::Setup(0, SetupStep::Build)
        },
        Phase::Setup(i, s) => if !ok {
            Phase::Failed
        } else {
            match s {
                SetupStep::Build => Phase::Setup(i, SetupStep::InstallUnit),
                SetupStep::InstallUnit => Phase::Setup(i, SetupStep::RemoveOverrideDir),
                SetupStep::RemoveOverrideDir => Phase::Setup(i, SetupStep::CreateOverrideDir),
                SetupStep::CreateOverrideDir => Phase::Setup(i, SetupStep::WriteConf),
                SetupStep::WriteConf => if (i as nat) + 1 < n {
                    Phase::Setup((i + 1) as usize, SetupStep::Build)
                } else {
                    Phase::Reload
                },
            }
        },
        Phase::Reload => if !ok {
            Phase::Failed
        } else if n == 0 {
            Phase::Done
        } else {
            Phase::Activate(0, ActivateStep::Enable)
        },
        Phase::Activate(i, s) => if !ok {
            Phase::Failed
        } else {
            match s {
                ActivateStep::Enable => Phase::Activate(i, ActivateStep::Start),
                ActivateStep::Start => if (i as nat) + 1 < n {
                    Phase::Activate((i + 1) as usize, ActivateStep::Enable)
                } else {
                    Phase::Done
                },
            }
        },
        Phase::Done => Phase::Done,
        Phase::Failed => Phase::Failed,
    }
}

/// The phase a run starts in.
pub fn initial_phase() -> (p: Phase)
    ensures
        p == Phase::ReadSettings,
{
    Phase::ReadSettings
}

/// The external step due in phase `p`, or none when the run has ended.
pub fn next_action(p: &Phase) -> (a: Option<Action>)
    ensures
        a == action_of(*p),
{
    match *p {
        Phase::ReadSettings => Some(Action::ReadSettings),
        Phase::Setup(i, s) => Some(
            match s {
                SetupStep::Build => Action::Build(i),
                SetupStep::InstallUnit => Action::InstallUnit(i),
                SetupStep::RemoveOverrideDir => Action::RemoveOverrideDir(i),
                SetupStep::CreateOverrideDir => Action::CreateOverrideDir(i),
                SetupStep::WriteConf => Action::WriteOverrideConf(i),
            },
        ),
        Phase::Reload => Some(Action::Reload),
        Phase::Activate(i, s) => Some(
            match s {
                ActivateStep::Enable => Action::Enable(i),
                ActivateStep::Start => Action::Start(i),
            },
        ),
        Phase::Done => None,
        Phase::Failed => None,
    }
}

/// Whether the run has ended, in success or failure.
pub fn is_terminal(p: &Phase) -> (r: bool)
    ensures
        r == (*p == Phase::Done || *p == Phase::Failed),
{
    match *p {
        Phase::Done => true,
        Phase::Failed => true,
        _ => false,
    }
}

/// Consume the outcome of the due action and move to the next phase.
pub fn advance(cfg: &Config, p: &Phase, ok: bool) -> (q: Phase)
    requires
        phase_inv(cfg.services@.len(), *p),
    ensures
        q == advance_spec(cfg.services@.len(), *p, ok),
        phase_inv(cfg.services@.len(), q),
{
    let n = cfg.services.len();
    match *p {
        Phase::ReadSettings => if !ok {
            Phase::Failed
        } else if n == 0 {
            Phase::Reload
        } else {
            Phase::Setup(0, SetupStep::Build)
        },
        Phase::Setup(i, s) => if !ok {
            Phase::Failed
        } else {
            match s {
                SetupStep::Build => Phase::Setup(i, SetupStep::InstallUnit),
                SetupStep::InstallUnit => Phase::Setup(i, SetupStep::RemoveOverrideDir),
                SetupStep::RemoveOverrideDir => Phase::Setup(i, SetupStep::CreateOverrideDir),
                SetupStep::CreateOverrideDir => Phase::Setup(i, SetupStep::WriteConf),
                SetupStep::WriteConf => if i + 1 < n {
                    Phase::Setup(i + 1, SetupStep::Build)
                } else {
                    Phase::Reload
                },
            }
        },
        Phase::Reload => if !ok {
            Phase::Failed
        } else if n == 0 {
            Phase::Done
        } else {
            Phase::Activate(0, ActivateStep::Enable)
        },
        Phase::Activate(i, s) => if !ok {
            Phase::Failed
        } else {
            match s {
                ActivateStep::Enable => Phase::Activate(i, ActivateStep::Start),
                ActivateStep::Start => if i + 1 < n {
                    Phase::Activate(i + 1, ActivateStep::Enable)
                } else {
                    Phase::Done
                },
            }
        },
        Phase::Done => Phase::Done,
        Phase::Failed => Phase::Failed,
    }
}

/// A run of the machine over `n` services: the sequence of phases visited,
/// starting at the initial phase, with `oks[k]` the outcome of the action
/// performed in `phases[k]`.
pub open spec fn is_run(n: nat, phases: Seq<Phase>, oks: Seq<bool>) -> bool {
    &&& n <= usize::MAX
    &&& phases.len() == oks.len() + 1
    &&& phases[0] == Phase::ReadSettings
    &&& forall|k: int|
        0 <= k < oks.len() ==> phases[k + 1] == advance_spec(n, phases[k], oks[k])
}

/// The position of a phase in the global order of a run's stages.
pub open spec fn stage_of(p: Phase) -> int {
    match p {
        Phase::ReadSettings => 0,
        Phase::Setup(_, _) => 1,
        Phase::Reload => 2,
        Phase::Activate(_, _) => 3,
        Phase::Done => 4,
        Phase::Failed => 5,
    }
}

/// One transition never moves to an earlier stage.
pub proof fn lemma_stage_step(n: nat, p: Phase, ok: bool)
    ensures
        stage_of(p) <= stage_of(advance_spec(n, p, ok)),
{
}

/// Along a run, stages only move forward.
pub proof fn lemma_stage_monotone(n: nat, phases: Seq<Phase>, oks: Seq<bool>, k: int, l: int)
    requires
        is_run(n, phases, oks),
        0 <= k <= l < phases.len(),
    ensures
        stage_of(phases[k]) <= stage_of(phases[l]),
    decreases l - k,
{
    if k < l {
        lemma_stage_monotone(n, phases, oks, k, l - 1);
        assert(phases[l] == advance_spec(n, phases[l - 1], oks[l - 1]));
        lemma_stage_step(n, phases[l - 1], oks[l - 1]);
    }
}

/// Every phase of a run keeps its service index inside the service list.
pub proof fn lemma_run_inv(n: nat, phases: Seq<Phase>, oks: Seq<bool>, k: int)
    requires
        is_run(n, phases, oks),
        0 <= k < phases.len(),
    ensures
        phase_inv(n, phases[k]),
    decreases k,
{
    if k > 0 {
        lemma_run_inv(n, phases, oks, k - 1);
        assert(phases[k] == advance_spec(n, phases[k - 1], oks[k - 1]));
    }
}

/// The rank of a setup step within a service's setup sequence.
pub open spec fn step_rank(s: SetupStep) -> int {
    match s {
        SetupStep::Build => 0,
        SetupStep::InstallUnit => 1,
        SetupStep::RemoveOverrideDir => 2,
        SetupStep::CreateOverrideDir => 3,
        SetupStep::WriteConf => 4,
    }
}

/// The rank of a per-service setup step within the whole setup pass.
pub open spec fn setup_rank(i: usize, s: SetupStep) -> int {
    5 * (i as int) + step_rank(s)
}

/// Setup ranks identify the service and the step.
pub proof fn lemma_setup_rank_injective(i1: usize, s1: SetupStep, i2: usize, s2: SetupStep)
    requires
        setup_rank(i1, s1) == setup_rank(i2, s2),
    ensures
        i1 == i2,
        s1 == s2,
{
}

/// A run that stands at a setup phase has visited every earlier setup phase:
/// all steps of earlier services and all earlier steps of this service.
pub proof fn lemma_setup_history(
    n: nat,
    phases: Seq<Phase>,
    oks: Seq<bool>,
    k: int,
    i: usize,
    s: SetupStep,
)
    requires
        is_run(n, phases, oks),
        0 <= k < phases.len(),
        phases[k] == Phase::Setup(i, s),
    ensures
        forall|i2: usize, s2: SetupStep|
            #[trigger] setup_rank(i2, s2) < setup_rank(i, s) ==> exists|j: int|
                0 <= j < k && phases[j] == Phase::Setup(i2, s2),
    decreases k,
{
    assert(k > 0);
    let pred = phases[k - 1];
    assert(phases[k] == advance_spec(n, pred, oks[k - 1]));
    match pred {
        Phase::ReadSettings => {
            assert(i == 0 && s == SetupStep::Build);
        },
        Phase::Setup(pi, ps) => {
            lemma_setup_history(n, phases, oks, k - 1, pi, ps);
            assert(setup_rank(i, s) == setup_rank(pi, ps) + 1);
            assert forall|i2: usize, s2: SetupStep|
                #[trigger] setup_rank(i2, s2) < setup_rank(i, s) implies exists|j: int|
                0 <= j < k && phases[j] == Phase::Setup(i2, s2) by {
                if setup_rank(i2, s2) < setup_rank(pi, ps) {
                    let j = choose|j: int| 0 <= j < k - 1 && phases[j] == Phase::Setup(i2, s2);
                    assert(0 <= j < k && phases[j] == Phase::Setup(i2, s2));
                } else {
                    lemma_setup_rank_injective(i2, s2, pi, ps);
                    assert(phases[k - 1] == Phase::Setup(i2, s2));
                }
            }
        },
        _ => {
            assert(false);
        },
    }
}

/// A run that stands at the reload phase has visited every setup phase of
/// every service.
pub proof fn lemma_reload_after_all_setups(n: nat, phases: Seq<Phase>, oks: Seq<bool>, k: int)
    requires
        is_run(n, phases, oks),
        0 <= k < phases.len(),
        phases[k] == Phase::Reload,
    ensures
        forall|i: usize, s: SetupStep|
            (i as nat) < n && #[trigger] setup_rank(i, s) >= 0 ==> exists|j: int|
                0 <= j < k && phases[j] == Phase::Setup(i, s),
    decreases k,
{
    assert(k > 0);
    let pred = phases[k - 1];
    assert(phases[k] == advance_spec(n, pred, oks[k - 1]));
    match pred {
        Phase::ReadSettings => {
            assert(n == 0);
        },
        Phase::Setup(pi, ps) => {
            lemma_run_inv(n, phases, oks, k - 1);
            assert((pi as nat) + 1 == n);
            assert(ps == SetupStep::WriteConf);
            lemma_setup_history(n, phases, oks, k - 1, pi, ps);
            assert forall|i: usize, s: SetupStep|
                (i as nat) < n && #[trigger] setup_rank(i, s) >= 0 implies exists|j: int|
                0 <= j < k && phases[j] == Phase::Setup(i, s) by {
                if i == pi && s == SetupStep::WriteConf {
                    assert(phases[k - 1] == Phase::Setup(i, s));
                } else {
                    assert(setup_rank(i, s) < setup_rank(pi, ps));
                    let j = choose|j: int|
                        0 <= j < k - 1 && phases[j] == Phase::Setup(i, s);
                    assert(0 <= j < k && phases[j] == Phase::Setup(i, s));
                }
            }
        },
        Phase::Reload => {
            assert(false);
        },
        _ => {
            assert(false);
        },
    }
}

/// A run that stands at an activation phase has performed the reload.
pub proof fn lemma_activate_after_reload(
    n: nat,
    phases: Seq<Phase>,
    oks: Seq<bool>,
    k: int,
    i: usize,
    s: ActivateStep,
)
    requires
        is_run(n, phases, oks),
        0 <= k < phases.len(),
        phases[k] == Phase::Activate(i, s),
    ensures
        exists|j: int| 0 <= j < k && phases[j] == Phase::Reload,
    decreases k,
{
    assert(k > 0);
    let pred = phases[k - 1];
    assert(phases[k] == advance_spec(n, pred, oks[k - 1]));
    match pred {
        Phase::Reload => {
            assert(phases[k - 1] == Phase::Reload);
        },
        Phase::Activate(pi, ps) => {
            lemma_activate_after_reload(n, phases, oks, k - 1, pi, ps);
            let j = choose|j: int| 0 <= j < k - 1 && phases[j] == Phase::Reload;
            assert(0 <= j < k && phases[j] == Phase::Reload);
        },
        _ => {
            assert(false);
        },
    }
}

/// The orchestrator never performs the reload before every service has
/// completed every per-service setup step: when the action due in a run is
/// the reload, the action of every setup step of every service was due at an
/// earlier point of the run.
pub proof fn lemma_reload_ordering(n: nat, phases: Seq<Phase>, oks: Seq<bool>, k: int)
    requires
        is_run(n, phases, oks),
        0 <= k < phases.len(),
        action_of(phases[k]) == Some(Action::Reload),
    ensures
        forall|i: usize, s: SetupStep|
            (i as nat) < n ==> exists|j: int|
                0 <= j < k && action_of(phases[j]) == Some(#[trigger] setup_action(i, s)),
{
    assert(phases[k] == Phase::Reload);
    lemma_reload_after_all_setups(n, phases, oks, k);
    assert forall|i: usize, s: SetupStep| (i as nat) < n implies exists|j: int|
        0 <= j < k && action_of(phases[j]) == Some(#[trigger] setup_action(i, s)) by {
        assert(setup_rank(i, s) >= 0);
        let j = choose|j: int| 0 <= j < k && phases[j] == Phase::Setup(i, s);
        assert(action_of(phases[j]) == Some(setup_action(i, s)));
    }
}

/// The orchestrator never performs an enable or start before the reload:
/// when the action due in a run enables or starts a service, the reload was
/// due at an earlier point of the run.
pub proof fn lemma_activation_ordering(n: nat, phases: Seq<Phase>, oks: Seq<bool>, k: int, i: usize)
    requires
        is_run(n, phases, oks),
        0 <= k < phases.len(),
        action_of(phases[k]) == Some(Action::Enable(i)) || action_of(phases[k]) == Some(
            Action::Start(i),
        ),
    ensures
        exists|j: int| 0 <= j < k && action_of(phases[j]) == Some(Action::Reload),
{
    if phases[k] == Phase::Activate(i, ActivateStep::Enable) {
        lemma_activate_after_reload(n, phases, oks, k, i, ActivateStep::Enable);
    } else {
        assert(phases[k] == Phase::Activate(i, ActivateStep::Start));
        lemma_activate_after_reload(n, phases, oks, k, i, ActivateStep::Start);
    }
    let j = choose|j: int| 0 <= j < k && phases[j] == Phase::Reload;
    assert(action_of(phases[j]) == Some(Action::Reload));
}

/// A run whose settings read fails performs nothing afterwards: every later
/// phase is the failed state, so no override directory — nor anything else —
/// is touched.
pub proof fn lemma_settings_failure_aborts(n: nat, phases: Seq<Phase>, oks: Seq<bool>, k: int)
    requires
        is_run(n, phases, oks),
        oks.len() >= 1,
        !oks[0],
        1 <= k < phases.len(),
    ensures
        phases[k] == Phase::Failed,
    decreases k,
{
    if k == 1 {
        assert(phases[1] == advance_spec(n, phases[0], oks[0]));
    } else {
        lemma_settings_failure_aborts(n, phases, oks, k - 1);
        assert(phases[k] == advance_spec(n, phases[k - 1], oks[k - 1]));
    }
}

} // verus!
