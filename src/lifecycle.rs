use vstd::prelude::*;

verus! {

/// The host runtime's phases, in order.
#[derive(Clone, Copy, Debug, PartialEq, Eq, Structural)]
pub enum Phase {
    Constructed,
    PreInit,
    Migrate,
    Init,
    Start,
    Running,
    Stopping,
    Terminated,
}

/// Whether the runtime goes through the whole lifecycle or stops after the
/// migration phase.
#[derive(Clone, Copy, Debug, PartialEq, Eq, Structural)]
pub enum RunMode {
    Full,
    MigrateOnly,
}

/// How the current phase ended.
#[derive(Clone, Copy, Debug, PartialEq, Eq, Structural)]
pub enum PhaseOutcome {
    Completed,
    Failed,
}

pub open spec fn phase_rank(p: Phase) -> int {
    match p {
        Phase::Constructed => 0,
        Phase::PreInit => 1,
        Phase::Migrate => 2,
        Phase::Init => 3,
        Phase::Start => 4,
        Phase::Running => 5,
        Phase::Stopping => 6,
        Phase::Terminated => 7,
    }
}

/// The phase after `current`: the next one in order while phases complete
/// and the root token is not cancelled (a migration run ends after
/// `Migrate`); `Stopping` after a failure, after cancellation observed at the
/// end of a phase, and after `Running`; `Terminated` after `Stopping`.
pub open spec fn next_phase_spec(current: Phase, outcome: PhaseOutcome, cancelled: bool, mode: RunMode) -> Phase {
    match current {
        Phase::Terminated => Phase::Terminated,
        Phase::Stopping => Phase::Terminated,
        Phase::Running => Phase::Stopping,
        _ => if outcome == PhaseOutcome::Failed || cancelled {
            Phase::Stopping
        } else {
            match current {
                Phase::Constructed => Phase::PreInit,
                Phase::PreInit => Phase::Migrate,
                Phase::Migrate => if mode == RunMode::MigrateOnly {
                    Phase::Terminated
                } else {
                    Phase::Init
                },
                Phase::Init => Phase::Start,
                _ => Phase::Running,
            }
        },
    }
}

/// The phase after `current`, as `next_phase_spec` states it.
pub fn next_phase(current: Phase, outcome: PhaseOutcome, cancelled: bool, mode: RunMode) -> (r: Phase)
    ensures
        r == next_phase_spec(current, outcome, cancelled, mode),
{
    match current {
        Phase::Terminated => Phase::Terminated,
        Phase::Stopping => Phase::Terminated,
        Phase::Running => Phase::Stopping,
        _ => {
            if outcome == PhaseOutcome::Failed || cancelled {
                Phase::Stopping
            } else {
                match current {
                    Phase::Constructed => Phase::PreInit,
                    Phase::PreInit => Phase::Migrate,
                    Phase::Migrate => {
                        if mode == RunMode::MigrateOnly {
                            Phase::Terminated
                        } else {
                            Phase::Init
                        }
                    },
                    Phase::Init => Phase::Start,
                    _ => Phase::Running,
                }
            }
        },
    }
}

/// The runtime never goes back to an earlier phase, and a migration run
/// never reaches `Init`.
pub proof fn lemma_phases_move_forward(current: Phase, outcome: PhaseOutcome, cancelled: bool, mode: RunMode)
    ensures
        phase_rank(next_phase_spec(current, outcome, cancelled, mode)) >= phase_rank(current),
        current != Phase::Terminated ==> phase_rank(next_phase_spec(current, outcome, cancelled, mode))
            > phase_rank(current),
        mode == RunMode::MigrateOnly && phase_rank(current) <= phase_rank(Phase::Migrate) ==> {
            let n = next_phase_spec(current, outcome, cancelled, mode);
            n == Phase::PreInit || n == Phase::Migrate || n == Phase::Stopping || n
                == Phase::Terminated
        },
{
}

/// How far one module got: the last phase that it completed.
#[derive(Debug, PartialEq, Eq)]
pub struct ModuleProgress {
    pub name: String,
    pub completed: Phase,
}

/// The modules, latest first, whose stop hooks run: those that completed
/// `Init` or a later phase.
pub open spec fn stop_order_spec(progress: Seq<ModuleProgress>) -> Seq<Seq<char>>
    decreases progress.len(),
{
    if progress.len() == 0 {
        Seq::empty()
    } else {
        let last = progress[progress.len() - 1];
        let rest = stop_order_spec(progress.subrange(0, progress.len() - 1));
        if phase_rank(last.completed) >= phase_rank(Phase::Init) {
            seq![last.name@] + rest
        } else {
            rest
        }
    }
}

/// The names of the modules to stop, in reverse registry order.
pub fn stop_order(progress: &Vec<ModuleProgress>) -> (r: Vec<String>)
    ensures
        r@.map_values(|s: String| s@) == stop_order_spec(progress@),
{
    let mut out: Vec<String> = Vec::new();
    let mut i: usize = progress.len();
    proof {
        assert(progress@.subrange(0, i as int) =~= progress@);
        assert(out@.map_values(|s: String| s@) =~= Seq::<Seq<char>>::empty());
        assert(Seq::<Seq<char>>::empty() + stop_order_spec(progress@) =~= stop_order_spec(progress@));
    }
    while i > 0
        invariant
            i <= progress.len(),
            stop_order_spec(progress@) == out@.map_values(|s: String| s@) + stop_order_spec(
                progress@.subrange(0, i as int),
            ),
        decreases i,
    {
        let ghost before = out@;
        let ghost sub = progress@.subrange(0, i as int);
        proof {
            assert(sub.subrange(0, sub.len() - 1) =~= progress@.subrange(0, i - 1));
        }
        let p = &progress[i - 1];
        let reached = match p.completed {
            Phase::Init | Phase::Start | Phase::Running | Phase::Stopping | Phase::Terminated => true,
            _ => false,
        };
        if reached {
            out.push(p.name.clone());
            proof {
                assert(out@.map_values(|s: String| s@) =~= before.map_values(|s: String| s@).push(p.name@));
                assert(out@.map_values(|s: String| s@) + stop_order_spec(progress@.subrange(0, i - 1))
                    =~= before.map_values(|s: String| s@) + (seq![p.name@] + stop_order_spec(progress@.subrange(0, i - 1))));
            }
        }
        i = i - 1;
    }
    proof {
        assert(progress@.subrange(0, 0) =~= Seq::<ModuleProgress>::empty());
        assert(out@.map_values(|s: String| s@) + Seq::<Seq<char>>::empty() =~= out@.map_values(|s: String| s@));
    }
    out
}

} // verus!
