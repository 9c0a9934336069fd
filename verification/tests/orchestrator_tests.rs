use dustcfg::orchestrator::{
    advance, initial_phase, is_terminal, next_action, Action, Config, Phase, ServiceSpec,
};

fn two_service_config() -> Config {
    Config {
        services: vec![
            ServiceSpec {
                name: String::from("dustweb"),
                source_path: String::from("/dust/dustweb/."),
                unit_file_path: String::from("/dust/dustcfg/dustweb.service"),
            },
            ServiceSpec {
                name: String::from("dustdb"),
                source_path: String::from("/dust/dustdb/."),
                unit_file_path: String::from("/dust/dustcfg/dustdb.service"),
            },
        ],
        settings_path: String::from("dust.settings"),
    }
}

/// Drive a run, answering each due action from `outcomes` (and with success
/// once outcomes run out), and collect the actions in the order they were
/// due.
fn drive(cfg: &Config, outcomes: &[bool]) -> (Vec<Action>, Phase) {
    let mut phase = initial_phase();
    let mut actions = Vec::new();
    let mut step = 0usize;
    while let Some(action) = next_action(&phase) {
        actions.push(action);
        let ok = outcomes.get(step).copied().unwrap_or(true);
        phase = advance(cfg, &phase, ok);
        step += 1;
    }
    (actions, phase)
}

#[test]
fn test_full_run_action_order() {
    let cfg = two_service_config();
    let (actions, end) = drive(&cfg, &[]);
    assert_eq!(end, Phase::Done);
    assert_eq!(
        actions,
        vec![
            Action::ReadSettings,
            Action::Build(0),
            Action::InstallUnit(0),
            Action::RemoveOverrideDir(0),
            Action::CreateOverrideDir(0),
            Action::WriteOverrideConf(0),
            Action::Build(1),
            Action::InstallUnit(1),
            Action::RemoveOverrideDir(1),
            Action::CreateOverrideDir(1),
            Action::WriteOverrideConf(1),
            Action::Reload,
            Action::Enable(0),
            Action::Start(0),
            Action::Enable(1),
            Action::Start(1),
        ]
    );
}

#[test]
fn test_reload_after_all_setups_and_before_activation() {
    let cfg = two_service_config();
    let (actions, _) = drive(&cfg, &[]);
    let reload_at = actions.iter().position(|a| *a == Action::Reload).unwrap();
    for (k, action) in actions.iter().enumerate() {
        match action {
            Action::ReadSettings
            | Action::Build(_)
            | Action::InstallUnit(_)
            | Action::RemoveOverrideDir(_)
            | Action::CreateOverrideDir(_)
            | Action::WriteOverrideConf(_) => assert!(k < reload_at),
            Action::Reload => assert_eq!(k, reload_at),
            Action::Enable(_) | Action::Start(_) => assert!(k > reload_at),
        }
    }
}

#[test]
fn test_missing_settings_aborts_before_anything_else() {
    let cfg = two_service_config();
    let (actions, end) = drive(&cfg, &[false]);
    assert_eq!(end, Phase::Failed);
    assert_eq!(actions, vec![Action::ReadSettings]);
}

#[test]
fn test_setup_failure_stops_the_run() {
    let cfg = two_service_config();
    // The build of the second service fails: its later setup steps, the
    // reload and every activation are never due.
    let ok_through_first_service = [true, true, true, true, true, true, false];
    let (actions, end) = drive(&cfg, &ok_through_first_service);
    assert_eq!(end, Phase::Failed);
    assert_eq!(actions.last(), Some(&Action::Build(1)));
    assert!(!actions.contains(&Action::Reload));
    assert!(!actions.contains(&Action::Enable(0)));
}

#[test]
fn test_empty_service_list_still_reads_and_reloads() {
    let cfg = Config { services: Vec::new(), settings_path: String::from("dust.settings") };
    let (actions, end) = drive(&cfg, &[]);
    assert_eq!(end, Phase::Done);
    assert_eq!(actions, vec![Action::ReadSettings, Action::Reload]);
}

#[test]
fn test_terminal_phases() {
    let cfg = two_service_config();
    assert!(!is_terminal(&initial_phase()));
    let (_, end) = drive(&cfg, &[]);
    assert!(is_terminal(&end));
    assert_eq!(next_action(&end), None);
}
