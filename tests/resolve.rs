use ginit::{
    call_for_targets, fallback_targets, get_targets, try_get_targets, Catalog, FallbackBehavior,
    OrElse, Profile, Target, TargetError, TargetTrait,
};

fn apple() -> Catalog<Target> {
    let mut catalog = Catalog::new();
    catalog.insert(
        "arm64".to_string(),
        Target::new("aarch64-apple-darwin".to_string(), "arm64".to_string()),
    );
    catalog.insert(
        "x86_64".to_string(),
        Target::new("x86_64-apple-darwin".to_string(), "x86_64".to_string()),
    );
    catalog
}

fn no_default<'a>(or_else: OrElse) -> FallbackBehavior<fn() -> Option<&'a Target>> {
    let mut fallback = FallbackBehavior::all_targets();
    fallback.or_else = or_else;
    fallback
}

fn policy_default<'a>() -> FallbackBehavior<fn() -> Option<&'a Target>> {
    FallbackBehavior::default()
}

fn names(list: &[&str]) -> Vec<String> {
    list.iter().map(|s| s.to_string()).collect()
}

fn triples(targets: &[&Target]) -> Vec<String> {
    targets.iter().map(|t| t.triple().to_string()).collect()
}

#[test]
fn profile_predicates_and_labels() {
    assert!(Profile::Debug.is_debug());
    assert!(!Profile::Debug.is_release());
    assert!(Profile::Release.is_release());
    assert!(!Profile::Release.is_debug());
    assert_eq!(Profile::Debug.as_str(), "debug");
    assert_eq!(Profile::Release.as_str(), "release");
}

#[test]
fn or_else_defaults_to_give_up() {
    assert_eq!(OrElse::default(), OrElse::GiveUp);
}

#[test]
fn fallback_constructors() {
    let fallback: FallbackBehavior<fn() -> Option<&'static Target>> = FallbackBehavior::default();
    assert!(fallback.get_target.is_none());
    assert_eq!(fallback.or_else, OrElse::GiveUp);
    let all = no_default(OrElse::TryAll);
    assert!(all.get_target.is_none());
    let all: FallbackBehavior<fn() -> Option<&'static Target>> = FallbackBehavior::all_targets();
    assert_eq!(all.or_else, OrElse::TryAll);
    let with = FallbackBehavior::get_target(|| None::<&Target>, OrElse::TryAll);
    assert!(with.get_target.is_some());
    assert_eq!(with.or_else, OrElse::TryAll);
}

#[test]
fn catalog_insert_keeps_names_unique() {
    let mut catalog = apple();
    assert_eq!(catalog.len(), 2);
    let old = catalog.insert(
        "arm64".to_string(),
        Target::new("arm64-apple-ios".to_string(), "arm64".to_string()),
    );
    assert_eq!(old.unwrap().triple(), "aarch64-apple-darwin");
    assert_eq!(catalog.len(), 2);
    assert_eq!(triples(&catalog.all()), vec!["arm64-apple-ios", "x86_64-apple-darwin"]);
    let fresh = catalog.insert(
        "i386".to_string(),
        Target::new("i386-apple-ios".to_string(), "i386".to_string()),
    );
    assert!(fresh.is_none());
    assert_eq!(catalog.len(), 3);
}

#[test]
fn lookup_by_name_is_exact() {
    let catalog = apple();
    assert_eq!(catalog.for_name("arm64").unwrap().triple(), "aarch64-apple-darwin");
    assert_eq!(catalog.for_name("x86_64").unwrap().arch(), "x86_64");
    assert!(catalog.for_name("ARM64").is_none());
    assert!(catalog.for_name("arm").is_none());
    assert!(catalog.for_name("arm64 ").is_none());
    assert!(catalog.for_name("").is_none());
}

#[test]
fn lookup_by_arch_takes_first_match() {
    let mut catalog = apple();
    catalog.insert(
        "arm64-sim".to_string(),
        Target::new("aarch64-apple-ios-sim".to_string(), "arm64".to_string()),
    );
    assert_eq!(catalog.for_arch("arm64").unwrap().triple(), "aarch64-apple-darwin");
    assert_eq!(catalog.for_arch("x86_64").unwrap().triple(), "x86_64-apple-darwin");
    assert!(catalog.for_arch("riscv64").is_none());
    assert!(Catalog::<Target>::new().for_arch("arm64").is_none());
}

#[test]
fn explicit_single_name() {
    let catalog = apple();
    let requested = names(&["arm64"]);
    let r = get_targets(&catalog, Some(&requested), no_default(OrElse::GiveUp)).unwrap();
    assert_eq!(triples(&r), vec!["aarch64-apple-darwin"]);
}

#[test]
fn explicit_names_keep_order_and_duplicates() {
    let catalog = apple();
    let requested = names(&["x86_64", "arm64", "x86_64"]);
    let r = get_targets(&catalog, Some(&requested), no_default(OrElse::TryAll)).unwrap();
    assert_eq!(
        triples(&r),
        vec!["x86_64-apple-darwin", "aarch64-apple-darwin", "x86_64-apple-darwin"]
    );
}

#[test]
fn explicit_names_win_over_default() {
    let catalog = apple();
    let other = Target::new("wasm32-unknown-unknown".to_string(), "wasm32".to_string());
    let requested = names(&["arm64"]);
    let pick = || Some(&other);
    let r = get_targets(&catalog, Some(&requested), FallbackBehavior::get_target(pick, OrElse::TryAll))
        .unwrap();
    assert_eq!(triples(&r), vec!["aarch64-apple-darwin"]);
}

#[test]
fn unknown_name_is_rejected_whole() {
    let catalog = apple();
    let requested = names(&["bogus"]);
    let r = try_get_targets(&catalog, Some(&requested), no_default(OrElse::TryAll));
    assert_eq!(r.unwrap_err(), TargetError::InvalidTarget("bogus".to_string()));
    let requested = names(&["arm64", "Arm64", "nope"]);
    let r = try_get_targets(&catalog, Some(&requested), no_default(OrElse::GiveUp));
    assert_eq!(r.unwrap_err(), TargetError::InvalidTarget("Arm64".to_string()));
}

#[test]
fn try_get_targets_resolves_known_names() {
    let catalog = apple();
    let requested = names(&["x86_64", "arm64"]);
    let r = try_get_targets(&catalog, Some(&requested), no_default(OrElse::GiveUp)).unwrap().unwrap();
    assert_eq!(triples(&r), vec!["x86_64-apple-darwin", "aarch64-apple-darwin"]);
    let r = try_get_targets(&catalog, None, no_default(OrElse::GiveUp)).unwrap();
    assert!(r.is_none());
}

#[test]
fn nothing_named_and_give_up_resolves_nothing() {
    let catalog = apple();
    assert!(get_targets(&catalog, None, policy_default()).is_none());
    let empty: Vec<String> = Vec::new();
    assert!(get_targets(&catalog, Some(&empty), policy_default()).is_none());
}

#[test]
fn default_capability_gives_singleton() {
    let catalog = apple();
    let pick = || catalog.for_arch("x86_64");
    let r = get_targets(&catalog, None, FallbackBehavior::get_target(pick, OrElse::TryAll)).unwrap();
    assert_eq!(triples(&r), vec!["x86_64-apple-darwin"]);
}

#[test]
fn default_capability_ignores_catalog() {
    let catalog = apple();
    let other = Target::new("wasm32-unknown-unknown".to_string(), "wasm32".to_string());
    let empty: Vec<String> = Vec::new();
    let pick = || Some(&other);
    let r = get_targets(&catalog, Some(&empty), FallbackBehavior::get_target(pick, OrElse::GiveUp))
        .unwrap();
    assert_eq!(triples(&r), vec!["wasm32-unknown-unknown"]);
}

#[test]
fn capability_without_result_falls_to_strategy() {
    let catalog = apple();
    let pick = || catalog.for_arch("riscv64");
    let r = get_targets(&catalog, None, FallbackBehavior::get_target(pick, OrElse::GiveUp));
    assert!(r.is_none());
    let r = get_targets(&catalog, None, FallbackBehavior::get_target(pick, OrElse::TryAll)).unwrap();
    assert_eq!(triples(&r), vec!["aarch64-apple-darwin", "x86_64-apple-darwin"]);
}

#[test]
fn try_all_gives_whole_catalog_in_order() {
    let catalog = apple();
    let r = get_targets(&catalog, None, no_default(OrElse::TryAll)).unwrap();
    assert_eq!(r.len(), catalog.len());
    assert_eq!(triples(&r), vec!["aarch64-apple-darwin", "x86_64-apple-darwin"]);
}

#[test]
fn try_all_on_empty_catalog() {
    let catalog: Catalog<Target> = Catalog::new();
    let r = get_targets(&catalog, None, no_default(OrElse::TryAll)).unwrap();
    assert!(r.is_empty());
}

#[test]
fn fallback_targets_for_each_outcome() {
    let catalog = apple();
    let other = Target::new("wasm32-unknown-unknown".to_string(), "wasm32".to_string());
    let r = fallback_targets(&catalog, Some(&other), OrElse::GiveUp).unwrap();
    assert_eq!(triples(&r), vec!["wasm32-unknown-unknown"]);
    assert!(fallback_targets(&catalog, None, OrElse::GiveUp).is_none());
    let r = fallback_targets(&catalog, None, OrElse::TryAll).unwrap();
    assert_eq!(triples(&r), vec!["aarch64-apple-darwin", "x86_64-apple-darwin"]);
}

#[test]
fn call_for_targets_runs_once_per_target_in_order() {
    let catalog = apple();
    let requested = names(&["x86_64", "arm64", "x86_64"]);
    let outs = call_for_targets(&catalog, Some(&requested), no_default(OrElse::GiveUp), |t: &Target| {
        t.arch().to_string()
    })
    .unwrap();
    assert_eq!(outs, vec!["x86_64", "arm64", "x86_64"]);
    let outs = call_for_targets(&catalog, None, no_default(OrElse::TryAll), |t: &Target| {
        t.triple().len()
    })
    .unwrap();
    assert_eq!(outs, vec![20, 19]);
}

#[test]
fn call_for_targets_fails_without_targets() {
    let catalog = apple();
    let calls = std::cell::Cell::new(0u32);
    let r = call_for_targets(&catalog, None, no_default(OrElse::GiveUp), |_t: &Target| {
        calls.set(calls.get() + 1)
    });
    assert_eq!(r.unwrap_err(), TargetError::NoValidTargets);
    assert_eq!(calls.get(), 0);
}

#[test]
fn call_for_targets_fails_on_unknown_name() {
    let catalog = apple();
    let calls = std::cell::Cell::new(0u32);
    let requested = names(&["arm64", "bogus"]);
    let r = call_for_targets(&catalog, Some(&requested), no_default(OrElse::TryAll), |_t: &Target| {
        calls.set(calls.get() + 1)
    });
    assert_eq!(r.unwrap_err(), TargetError::InvalidTarget("bogus".to_string()));
    assert_eq!(calls.get(), 0);
}
