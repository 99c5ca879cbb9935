use yamcl::rules::{Action, Host, HostArch, HostOs, MCRule, OSRule};

fn linux_host() -> Host {
    Host { os: HostOs::Linux, arch: HostArch::X86_64 }
}

fn windows_host() -> Host {
    Host { os: HostOs::Windows, arch: HostArch::X86_64 }
}

#[test]
fn disallow_windows_applies_on_linux() {
    let rule = MCRule {
        action: Action::Disallow,
        os: Some(OSRule { name: Some("windows".to_string()), arch: None }),
        features: None,
    };
    assert!(rule.applies(&linux_host()));
}

#[test]
fn disallow_windows_does_not_apply_on_windows() {
    let rule = MCRule {
        action: Action::Disallow,
        os: Some(OSRule { name: Some("windows".to_string()), arch: None }),
        features: None,
    };
    assert!(!rule.applies(&windows_host()));
}

#[test]
fn allow_without_os_always_applies() {
    let rule = MCRule { action: Action::Allow, os: None, features: None };
    assert!(rule.applies(&linux_host()));
    assert!(rule.applies(&windows_host()));
}

#[test]
fn disallow_without_os_never_applies() {
    // an absent OS predicate always matches, so a Disallow rule's effect
    // never applies
    let rule = MCRule { action: Action::Disallow, os: None, features: None };
    assert!(!rule.applies(&linux_host()));
    assert!(!rule.applies(&windows_host()));
}

#[test]
fn allow_matching_os_applies() {
    let rule = MCRule {
        action: Action::Allow,
        os: Some(OSRule { name: Some("linux".to_string()), arch: None }),
        features: None,
    };
    assert!(rule.applies(&linux_host()));
    assert!(!rule.applies(&windows_host()));
}

#[test]
fn allow_unknown_arch_never_matches() {
    let rule = MCRule {
        action: Action::Allow,
        os: Some(OSRule { name: None, arch: Some("sparc".to_string()) }),
        features: None,
    };
    assert!(!rule.applies(&linux_host()));
    let inverted = MCRule {
        action: Action::Disallow,
        os: Some(OSRule { name: None, arch: Some("sparc".to_string()) }),
        features: None,
    };
    assert!(inverted.applies(&linux_host()));
}

#[test]
fn allow_arch_x86_64_matches() {
    let rule = MCRule {
        action: Action::Allow,
        os: Some(OSRule { name: None, arch: Some("x86_64".to_string()) }),
        features: None,
    };
    assert!(rule.applies(&linux_host()));
    let x86_host = Host { os: HostOs::Linux, arch: HostArch::X86 };
    assert!(!rule.applies(&x86_host));
}
