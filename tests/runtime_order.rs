use modkit_host::lifecycle::{next_phase, stop_order, ModuleProgress, Phase, PhaseOutcome, RunMode};
use modkit_host::registry::{order_modules, ModuleDecl, RegistryError};

fn decl(name: &str, deps: &[&str]) -> ModuleDecl {
    ModuleDecl { name: name.to_string(), deps: deps.iter().map(|d| d.to_string()).collect() }
}

fn names(ms: &[ModuleDecl], order: &[usize]) -> Vec<String> {
    order.iter().map(|&i| ms[i].name.clone()).collect()
}

#[test]
fn registry_orders_dependencies_first() {
    let ms = vec![decl("c", &["a"]), decl("a", &[]), decl("b", &["a"])];
    let order = order_modules(&ms).unwrap();
    assert_eq!(names(&ms, &order), vec!["a", "b", "c"]);
}

#[test]
fn registry_breaks_ties_by_name() {
    let ms = vec![decl("zeta", &[]), decl("alpha", &[]), decl("mid", &[]), decl("al", &["zeta"])];
    let order = order_modules(&ms).unwrap();
    assert_eq!(names(&ms, &order), vec!["alpha", "mid", "zeta", "al"]);
}

#[test]
fn registry_refuses_cycle() {
    let ms = vec![decl("a", &["b"]), decl("b", &["c"]), decl("c", &["a"]), decl("d", &[])];
    assert_eq!(order_modules(&ms), Err(RegistryError::DependencyCycle));
}

#[test]
fn registry_refuses_unknown_dependency() {
    let ms = vec![decl("a", &[]), decl("b", &["ghost"])];
    assert_eq!(
        order_modules(&ms),
        Err(RegistryError::UnknownDependency { module: "b".to_string(), dependency: "ghost".to_string() })
    );
}

#[test]
fn registry_of_nothing_is_empty() {
    assert_eq!(order_modules(&Vec::new()), Ok(Vec::new()));
}

#[test]
fn full_lifecycle_walks_every_phase() {
    let mut p = Phase::Constructed;
    let mut seen = vec![p];
    while p != Phase::Terminated {
        p = next_phase(p, PhaseOutcome::Completed, false, RunMode::Full);
        seen.push(p);
    }
    assert_eq!(
        seen,
        vec![
            Phase::Constructed,
            Phase::PreInit,
            Phase::Migrate,
            Phase::Init,
            Phase::Start,
            Phase::Running,
            Phase::Stopping,
            Phase::Terminated,
        ]
    );
}

#[test]
fn migration_run_stops_after_migrate() {
    assert_eq!(next_phase(Phase::PreInit, PhaseOutcome::Completed, false, RunMode::MigrateOnly), Phase::Migrate);
    assert_eq!(next_phase(Phase::Migrate, PhaseOutcome::Completed, false, RunMode::MigrateOnly), Phase::Terminated);
    assert_eq!(next_phase(Phase::Migrate, PhaseOutcome::Failed, false, RunMode::MigrateOnly), Phase::Stopping);
}

#[test]
fn failure_or_cancellation_goes_to_stopping() {
    assert_eq!(next_phase(Phase::Init, PhaseOutcome::Failed, false, RunMode::Full), Phase::Stopping);
    assert_eq!(next_phase(Phase::Start, PhaseOutcome::Completed, true, RunMode::Full), Phase::Stopping);
    assert_eq!(next_phase(Phase::Stopping, PhaseOutcome::Failed, true, RunMode::Full), Phase::Terminated);
    assert_eq!(next_phase(Phase::Terminated, PhaseOutcome::Completed, false, RunMode::Full), Phase::Terminated);
}

#[test]
fn stop_hooks_run_in_reverse_for_initialized_modules() {
    let progress = vec![
        ModuleProgress { name: "a".to_string(), completed: Phase::Start },
        ModuleProgress { name: "b".to_string(), completed: Phase::Migrate },
        ModuleProgress { name: "c".to_string(), completed: Phase::Init },
        ModuleProgress { name: "d".to_string(), completed: Phase::Running },
    ];
    assert_eq!(stop_order(&progress), vec!["d".to_string(), "c".to_string(), "a".to_string()]);
}
