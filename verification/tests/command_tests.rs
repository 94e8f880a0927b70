use fischys_fancontrol::commands::characteristics::{
    association_source, select_controllers, use_discovery, AssociationSource, DiscoveryOutcome, StoredAssociations,
};
use fischys_fancontrol::commands::interactive_console::pwm::{cmd_pwm, select_pwms, PwmCommand, PwmValue};
use fischys_fancontrol::commands::interactive_console::tokenizer::{tokenize, TokenStream};
use fischys_fancontrol::commands::interactive_console::utils::{eol_msg, expect_on_off};
use fischys_fancontrol::commands::interactive_console::{cmd_entry, Command};
use fischys_fancontrol::commands::service::{
    after_run, contains_key, controlled_controllers, error_list_text, open_failure_kind, poll_rate,
    restart_after_signal, NextStep, OpenFailure, RunOutcome, ServiceError, ServiceErrorKind, WaitSignal,
    DEFAULT_POLL_RATE,
};
use fischys_fancontrol::pattern::Pattern;

fn strings(v: &[&str]) -> Vec<String> {
    v.iter().map(|s| s.to_string()).collect()
}

fn stream(line: &str) -> TokenStream {
    TokenStream::new(tokenize(line))
}

#[test]
fn tokens_rejoin_to_the_line() {
    for line in ["pwm set pwm1 max", "", " ", "a  b", " lead", "trail "] {
        let tokens = tokenize(line);
        assert_eq!(tokens.join(" "), line);
        assert_eq!(tokens, line.split(' ').map(String::from).collect::<Vec<_>>());
    }
    let mut ts = stream("a b");
    assert_eq!(ts.next().as_deref(), Some("a"));
    assert_eq!(ts.next().as_deref(), Some("b"));
    assert_eq!(ts.next(), None);
    assert_eq!(ts.next(), None);
}

#[test]
fn on_off() {
    assert_eq!(expect_on_off(&mut stream("on")), Ok(true));
    assert_eq!(expect_on_off(&mut stream("off")), Ok(false));
    assert_eq!(expect_on_off(&mut stream("maybe")), Err("Unexpected token maybe".to_string()));
    assert_eq!(expect_on_off(&mut TokenStream::new(vec![])), Err(eol_msg()));
    assert_eq!(eol_msg(), "Expected a command, found EOL");
}

#[test]
fn pwm_list_commands() {
    match cmd_pwm(&mut stream("list")) {
        Ok(PwmCommand::List(None)) => {},
        _ => panic!("expected a list of all"),
    }
    match cmd_pwm(&mut stream("list ^pwm[12]$")) {
        Ok(PwmCommand::List(Some(p))) => {
            assert_eq!(p.as_str(), "^pwm[12]$");
            assert!(p.is_match("pwm2"));
            assert!(!p.is_match("pwm3"));
        },
        _ => panic!("expected a filtered list"),
    }
    let e = cmd_pwm(&mut stream("list (")).err().unwrap();
    assert!(e.starts_with("pwm_name is invalid regex: "));
}

#[test]
fn pwm_auto_and_set_commands() {
    match cmd_pwm(&mut stream("auto pwm1 on")) {
        Ok(PwmCommand::Auto(p, true)) => assert_eq!(p.as_str(), "pwm1"),
        _ => panic!("expected auto on"),
    }
    match cmd_pwm(&mut stream("auto . off")) {
        Ok(PwmCommand::Auto(_, false)) => {},
        _ => panic!("expected auto off"),
    }
    match cmd_pwm(&mut stream("set pwm max")) {
        Ok(PwmCommand::SetValue(p, PwmValue::Max)) => assert_eq!(p.as_str(), "pwm"),
        _ => panic!("expected set max"),
    }
    match cmd_pwm(&mut stream("set pwm min")) {
        Ok(PwmCommand::SetValue(_, PwmValue::Min)) => {},
        _ => panic!("expected set min"),
    }
    match cmd_pwm(&mut stream("set pwm 127.5")) {
        Ok(PwmCommand::SetValue(_, PwmValue::Value(v))) => assert_eq!(v, "127.5"),
        _ => panic!("expected set value"),
    }
    assert_eq!(cmd_pwm(&mut stream("auto pwm1")).err(), Some(eol_msg()));
    assert_eq!(cmd_pwm(&mut stream("set pwm1")).err(), Some(eol_msg()));
    assert_eq!(cmd_pwm(&mut stream("auto")).err(), Some(eol_msg()));
    assert_eq!(cmd_pwm(&mut stream("auto pwm1 yes")).err(), Some("Unexpected token yes".to_string()));
    assert_eq!(cmd_pwm(&mut stream("spin")).err(), Some("Unexpected token spin".to_string()));
    assert_eq!(cmd_pwm(&mut TokenStream::new(vec![])).err(), Some(eol_msg()));
    assert!(cmd_pwm(&mut stream("set [ max")).err().unwrap().starts_with("pwm_name is invalid regex: "));
}

#[test]
fn console_entry() {
    match cmd_entry(&mut stream("pwm list")) {
        Ok(Command::Pwm(PwmCommand::List(None))) => {},
        _ => panic!("expected pwm list"),
    }
    assert_eq!(cmd_entry(&mut stream("fan list")).err(), Some("Unexpected token fan".to_string()));
    assert_eq!(cmd_entry(&mut TokenStream::new(vec![])).err(), Some(eol_msg()));
}

#[test]
fn pwm_selection_by_pattern() {
    let keys = strings(&["pwm1", "pwm2", "pwm10", "fan1"]);
    let p = Pattern::new("^pwm1").ok().unwrap();
    assert_eq!(select_pwms(&keys, &p), vec![0, 2]);
    let all = Pattern::new("").ok().unwrap();
    assert_eq!(select_pwms(&keys, &all), vec![0, 1, 2, 3]);
    assert!(Pattern::new("a{").is_err());
}

#[test]
fn service_error_kinds_and_text() {
    assert_eq!(open_failure_kind(OpenFailure::NotFound), ServiceErrorKind::NeedsIntervention);
    assert_eq!(open_failure_kind(OpenFailure::PermissionDenied), ServiceErrorKind::NeedsIntervention);
    assert_eq!(open_failure_kind(OpenFailure::Other), ServiceErrorKind::Recoverable);

    let e = ServiceError::needs_intervention_ctx("Failed to parse config file", 7u8);
    assert_eq!(e.kind(), ServiceErrorKind::NeedsIntervention);
    assert_eq!(e.describe("bad json"), "Failed to parse config file: bad json");
    let r = ServiceError::recoverable(7u8);
    assert_eq!(r.kind(), ServiceErrorKind::Recoverable);
    assert_eq!(r.describe("oops"), "oops");
    assert_eq!(ServiceError::recoverable_ctx("ctx", ()).kind(), ServiceErrorKind::Recoverable);
    assert_eq!(ServiceError::needs_intervention(()).describe("x"), "x");
    let w = ServiceError::with_context(ServiceErrorKind::Recoverable, "Could not open config file", ());
    assert_eq!(w.describe("denied"), "Could not open config file: denied");
}

#[test]
fn service_restarts() {
    assert_eq!(after_run(RunOutcome::Finished), NextStep::Exit);
    assert_eq!(after_run(RunOutcome::Failed(ServiceErrorKind::Recoverable)), NextStep::WaitAndRestart);
    assert_eq!(after_run(RunOutcome::Failed(ServiceErrorKind::NeedsIntervention)), NextStep::AwaitSignal);
    assert_eq!(after_run(RunOutcome::Panicked), NextStep::WaitAndRestart);
    assert!(restart_after_signal(WaitSignal::Hangup));
    assert!(!restart_after_signal(WaitSignal::Interrupt));
    assert!(!restart_after_signal(WaitSignal::Terminate));
    assert!(restart_after_signal(WaitSignal::Other(10)));
    assert!(restart_after_signal(WaitSignal::Nothing));
}

#[test]
fn poll_rates() {
    assert_eq!(poll_rate(None), DEFAULT_POLL_RATE);
    assert_eq!(poll_rate(Some("10")), 10);
    assert_eq!(poll_rate(Some("+4")), 4);
    assert_eq!(poll_rate(Some("ten")), DEFAULT_POLL_RATE);
    assert_eq!(poll_rate(Some("")), DEFAULT_POLL_RATE);
    assert_eq!(poll_rate(Some("18446744073709551615")), u64::MAX);
    assert_eq!(poll_rate(Some("18446744073709551616")), DEFAULT_POLL_RATE);
    assert_eq!(DEFAULT_POLL_RATE, 3);
}

#[test]
fn controlled_controller_positions() {
    let keys = strings(&["pwm1", "pwm2", "gpu/0", "pwm1"]);
    let curves = strings(&["pwm1", "gpu/0", "missing"]);
    assert_eq!(controlled_controllers(&keys, &curves), vec![0, 2, 3]);
    assert!(controlled_controllers(&keys, &vec![]).is_empty());
    assert!(contains_key(&curves, "gpu/0"));
    assert!(!contains_key(&curves, "gpu"));
}

#[test]
fn failed_adjustments_text() {
    assert_eq!(error_list_text(&strings(&["a", "b c"])), "[a,b c,]");
    assert_eq!(error_list_text(&vec![]), "[]");
}

#[test]
fn association_sources() {
    assert_eq!(association_source(true, StoredAssociations::Read), AssociationSource::Discover);
    assert_eq!(association_source(true, StoredAssociations::Unreadable), AssociationSource::Discover);
    assert_eq!(association_source(false, StoredAssociations::Read), AssociationSource::Stored);
    assert_eq!(association_source(false, StoredAssociations::NotFound), AssociationSource::Discover);
    assert_eq!(association_source(false, StoredAssociations::Unreadable), AssociationSource::Abort);
    assert!(use_discovery(DiscoveryOutcome::Saved));
    assert!(use_discovery(DiscoveryOutcome::NotSaved));
    assert!(!use_discovery(DiscoveryOutcome::Failed));
}

#[test]
fn controllers_to_analyse() {
    let keys = strings(&["pwm3", "pwm1", "gpu/0", "pwm2", "pwm1"]);
    assert_eq!(select_controllers(&keys, &vec![]), vec![0, 1, 2, 3, 4]);
    let wanted = strings(&["pwm1", "pwm3", "gpu/0", "absent"]);
    // sorted by key, equal keys in scan order
    assert_eq!(select_controllers(&keys, &wanted), vec![2, 1, 4, 0]);
    assert!(select_controllers(&keys, &strings(&["absent"])).is_empty());
}
