use agent_vcpu::config::{
    default_distress_before_mig, default_duree, default_migration_cooldown,
    default_min_samples_before_action, default_vcpu_change_cooldown, default_window_size, AppConfig,
    NamedProfile, Profile,
};
use agent_vcpu::json::{parse_record, Record};
use agent_vcpu::load::Load;
use agent_vcpu::vm_recognizer::{
    choose_profile, detect_profile, eligible_profile, matching, ostype_to_profile_name, recognize,
    standing, tags, takes_part, Found, Means, Standing,
};
use agent_vcpu::vm_state::Limits;

fn named(name: &str, iso_pattern: &str, max: u32) -> NamedProfile {
    NamedProfile {
        name: name.to_string(),
        profile: Profile { iso_pattern: iso_pattern.to_string(), min: 1, max },
    }
}

fn profiles() -> Vec<NamedProfile> {
    vec![
        named("web", "Debian", 8),
        named("desktop", "desktop", 4),
        named("linux", "", 6),
        named("windows", "", 5),
    ]
}

fn record(text: &str) -> Record {
    parse_record(text).unwrap()
}

fn max_of(text: &str) -> Option<u32> {
    detect_profile(&record(text), &profiles()).map(|p| p.max)
}

#[test]
fn iso_comes_first() {
    assert_eq!(
        max_of(r#"{"ide2":"local:iso/DEBIAN-12.iso,media=cdrom","tags":"desktop","ostype":"win10"}"#),
        Some(8)
    );
}

#[test]
fn tag_comes_second() {
    assert_eq!(max_of(r#"{"tags":"vcpu-agent; My-DESKTOP ","ostype":"win10"}"#), Some(4));
    assert_eq!(
        max_of(r#"{"ide2":"local:iso/arch.iso","tags":"desktop","ostype":"win10"}"#),
        Some(4)
    );
}

#[test]
fn ostype_comes_third() {
    assert_eq!(max_of(r#"{"tags":"vcpu-agent","ostype":"win10"}"#), Some(5));
    assert_eq!(max_of(r#"{"ostype":"l26"}"#), Some(6));
}

#[test]
fn linux_is_the_fallback() {
    assert_eq!(max_of("{}"), Some(6));
    let few = vec![named("web", "debian", 8)];
    assert!(detect_profile(&record(r#"{"ostype":"win10"}"#), &few).is_none());
}

#[test]
fn windows_profile_may_be_missing() {
    let few = vec![named("linux", "", 6)];
    let p = detect_profile(&record(r#"{"ostype":"win10"}"#), &few).unwrap();
    assert_eq!((p.min, p.max), (1, 6));
}

#[test]
fn case_is_ignored_beyond_ascii() {
    let few = vec![named("web", "ÉTÉ", 8)];
    let cfg = record(r#"{"tags":"mon-été"}"#);
    assert_eq!(detect_profile(&cfg, &few).unwrap().iso_pattern, "ÉTÉ");
}

#[test]
fn ostypes_have_profiles() {
    for os in ["win7", "win8", "win10", "win11", "wxp", "w2k", "w2k3", "w2k8", "wvista"] {
        assert_eq!(ostype_to_profile_name(os), "windows");
    }
    for os in ["l24", "l26", "solaris", ""] {
        assert_eq!(ostype_to_profile_name(os), "linux");
    }
}

#[test]
fn tagged_vms_take_part() {
    assert!(takes_part(&record(r#"{"tags":"a; vcpu-agent ;b"}"#)));
    assert!(!takes_part(&record(r#"{"tags":"vcpu-agents"}"#)));
    assert!(!takes_part(&record("{}")));
    assert_eq!(tags(&record(r#"{"tags":" a;; b ; "}"#)), vec!["a", "b"]);
}

#[test]
fn vms_without_the_tag_have_no_profile_to_balance() {
    assert!(eligible_profile(&record(r#"{"tags":"web","ostype":"l26"}"#), &profiles()).is_none());
    let p = eligible_profile(&record(r#"{"tags":"vcpu-agent","ostype":"l26"}"#), &profiles());
    assert_eq!(p.unwrap().max, 6);
}

#[test]
fn patterns_match_anywhere() {
    let patterns = vec![None, Some("b".to_string()), Some("a".to_string())];
    assert_eq!(matching("xxa", &patterns), Some(2));
    assert_eq!(matching("ab", &patterns), Some(1));
    assert_eq!(matching("zz", &patterns), None);
}

#[test]
fn choice_goes_by_iso_tags_and_system() {
    let all = profiles();
    let patterns = vec![Some("debian".to_string()), Some("desktop".to_string()), None, None];
    let none: Vec<String> = Vec::new();
    let tagged = vec!["x".to_string(), "desktop".to_string()];
    let found = |index: usize, means: Means| Some(Found { index, means });
    assert_eq!(
        choose_profile(Some("debian"), &tagged, Some("win7"), &patterns, &all),
        found(0, Means::Iso)
    );
    assert_eq!(
        choose_profile(Some("arch"), &tagged, Some("win7"), &patterns, &all),
        found(1, Means::Tag)
    );
    assert_eq!(
        choose_profile(None, &none, Some("win7"), &patterns, &all),
        found(3, Means::Ostype)
    );
    assert_eq!(choose_profile(None, &none, None, &patterns, &all), found(2, Means::Fallback));
    assert_eq!(recognize(&record(r#"{"ostype":"l26"}"#), &all), found(2, Means::Ostype));
}

#[test]
fn settings_need_a_window_for_their_samples() {
    let config = |min: usize, window: usize| AppConfig {
        profiles: Vec::new(),
        check_interval: 2,
        window_size: window,
        min_samples_before_action: min,
        seuil_detresse: Load::Undefined,
        seuil_donneuse: Load::Undefined,
        seuil_remboursement: Load::Undefined,
        duree_avant_action: 2,
        migration_cooldown_seconds: 100,
        distress_before_migration: 4,
        vcpu_change_cooldown_cycles: 2,
    };
    assert!(config(2, 2).check().is_ok());
    assert_eq!(
        config(3, 2).check().unwrap_err(),
        "min_samples_before_action (3) doit être ≤ window_size (2)"
    );
}

#[test]
fn defaults_are_those_of_the_settings() {
    assert_eq!(default_window_size(), 2);
    assert_eq!(default_min_samples_before_action(), 1);
    assert_eq!(default_migration_cooldown(), 100);
    assert_eq!(default_distress_before_mig(), 4);
    assert_eq!(default_duree(), 2);
    assert_eq!(default_vcpu_change_cooldown(), 2);
}

#[test]
fn standing_tells_opting_out_from_lacking_a_profile() {
    let few = vec![named("web", "debian", 8)];
    assert_eq!(standing(None, &few), Standing::Unread);
    assert_eq!(standing(Some(&record(r#"{"tags":"debian"}"#)), &few), Standing::OptedOut);
    assert_eq!(standing(Some(&record(r#"{"tags":"vcpu-agent"}"#)), &few), Standing::NoProfile);
    assert_eq!(
        standing(Some(&record(r#"{"tags":"vcpu-agent;debian"}"#)), &few),
        Standing::Active { limits: Limits { min: 1, max: 8 } }
    );
}
