use nix_bindings::flake::{has_changes_from, optional_reply, FlagStep, InputsLocker, LockMode, LockerError};

struct Settings;
struct Inputs(u32);
struct Lock;
struct Ref(&'static str);

#[test]
fn plan_of_a_full_locker() {
    let settings = Settings;
    let old = Lock;
    let custom = Ref("github:me/custom");
    let plan = InputsLocker::<Settings, Inputs, Lock, Ref>::new(&settings)
        .with_inputs(Inputs(2))
        .source_path("/path/to/flake")
        .old_lock_file(&old)
        .update_inputs(vec!["nixpkgs".to_string(), "rust-overlay".to_string()])
        .update_input("git-hooks")
        .override_input("custom", &custom)
        .mode(LockMode::Virtual)
        .use_registries(true)
        .lock_plan();
    let steps = &plan.flag_steps;
    assert_eq!(steps.len(), 6);
    assert!(matches!(steps[0], FlagStep::ModeVirtual));
    assert!(matches!(steps[1], FlagStep::UseRegistries(true)));
    assert!(matches!(&steps[2], FlagStep::AddInputUpdate(s) if s == "nixpkgs"));
    assert!(matches!(&steps[3], FlagStep::AddInputUpdate(s) if s == "rust-overlay"));
    assert!(matches!(&steps[4], FlagStep::AddInputUpdate(s) if s == "git-hooks"));
    assert!(matches!(&steps[5], FlagStep::AddInputOverride(s, r) if s == "custom" && r.0 == "github:me/custom"));
    let call = plan.finish.ok().unwrap();
    assert_eq!(call.inputs.0, 2);
    assert_eq!(call.source_path, "/path/to/flake");
    assert!(call.old_lock.is_some());
}

#[test]
fn default_plan_writes_as_needed_without_registries() {
    let settings = Settings;
    let plan = InputsLocker::<Settings, Inputs, Lock, Ref>::new(&settings)
        .with_inputs(Inputs(0))
        .source_path("/src".to_string())
        .lock_plan();
    assert_eq!(plan.flag_steps.len(), 2);
    assert!(matches!(plan.flag_steps[0], FlagStep::ModeWriteAsNeeded));
    assert!(matches!(plan.flag_steps[1], FlagStep::UseRegistries(false)));
    let call = plan.finish.ok().unwrap();
    assert!(call.old_lock.is_none());
}

#[test]
fn update_all_recreates_the_lock_file() {
    let settings = Settings;
    let plan = InputsLocker::<Settings, Inputs, Lock, Ref>::new(&settings)
        .update_all()
        .mode(LockMode::Check)
        .update_input(String::from("a"))
        .with_inputs(Inputs(1))
        .source_path("/s".to_string())
        .lock_plan();
    assert_eq!(plan.flag_steps.len(), 4);
    assert!(matches!(plan.flag_steps[0], FlagStep::ModeCheck));
    assert!(matches!(plan.flag_steps[2], FlagStep::RecreateLockFile));
    assert!(matches!(&plan.flag_steps[3], FlagStep::AddInputUpdate(s) if s == "a"));
}

#[test]
fn the_last_mode_wins() {
    let settings = Settings;
    let plan = InputsLocker::<Settings, Inputs, Lock, Ref>::new(&settings)
        .mode(LockMode::Check)
        .mode(LockMode::WriteAsNeeded)
        .lock_plan();
    assert!(matches!(plan.flag_steps[0], FlagStep::ModeWriteAsNeeded));
}

#[test]
fn inputs_are_required_before_the_source_path() {
    let settings = Settings;
    let r1 = Ref("a");
    let r2 = Ref("b");
    let plan = InputsLocker::<Settings, Inputs, Lock, Ref>::new(&settings).lock_plan();
    assert_eq!(plan.finish.err(), Some(LockerError::InputsNotSet));
    let plan = InputsLocker::<Settings, Inputs, Lock, Ref>::new(&settings)
        .source_path("/s".to_string())
        .lock_plan();
    assert_eq!(plan.finish.err(), Some(LockerError::InputsNotSet));
    let plan = InputsLocker::<Settings, Inputs, Lock, Ref>::new(&settings)
        .with_inputs(Inputs(1))
        .overrides(vec![("x".to_string(), &r1), ("y".to_string(), &r2)])
        .lock_plan();
    assert_eq!(plan.finish.err(), Some(LockerError::SourcePathNotSet));
    assert_eq!(plan.flag_steps.len(), 4);
    assert!(matches!(&plan.flag_steps[2], FlagStep::AddInputOverride(s, r) if s == "x" && r.0 == "a"));
    assert!(matches!(&plan.flag_steps[3], FlagStep::AddInputOverride(s, r) if s == "y" && r.0 == "b"));
}

#[test]
fn empty_reply_means_none() {
    assert_eq!(optional_reply(String::new()), None);
    assert_eq!(
        optional_reply("github:NixOS/nixpkgs".to_string()),
        Some("github:NixOS/nixpkgs".to_string())
    );
    assert_eq!(optional_reply("sha256-abc".to_string()), Some("sha256-abc".to_string()));
}

#[test]
fn has_changes_is_not_equal() {
    assert_eq!(has_changes_from::<String>(Ok(true)), Ok(false));
    assert_eq!(has_changes_from::<String>(Ok(false)), Ok(true));
    assert_eq!(has_changes_from::<String>(Err("boom".to_string())), Err("boom".to_string()));
}
