use vstd::prelude::*;
use crate::strutil::str_eq;

verus! {

/// The operating system family of the machine the launcher runs on.
#[derive(Clone, Copy, Debug, PartialEq, Eq, Structural)]
pub enum HostOs {
    Linux,
    Osx,
    Windows,
    Other,
}

/// The processor architecture of the machine the launcher runs on.
#[derive(Clone, Copy, Debug, PartialEq, Eq, Structural)]
pub enum HostArch {
    X86,
    X86_64,
    Other,
}

/// The host a launch is prepared on; rule evaluation is a pure predicate
/// over this value.
#[derive(Clone, Copy, Debug, PartialEq, Eq, Structural)]
pub struct Host {
    pub os: HostOs,
    pub arch: HostArch,
}

/// Whether a rule grants or withholds what it guards.
#[derive(Clone, Copy, Debug, PartialEq, Eq, Structural)]
pub enum Action {
    Allow,
    Disallow,
}

/// The operating-system predicate of a rule; an absent part constrains
/// nothing.
#[derive(Clone, Debug)]
pub struct OSRule {
    pub name: Option<String>,
    pub arch: Option<String>,
}

/// Launch-feature switches a manifest rule may mention; they do not take
/// part in rule evaluation.
#[derive(Clone, Debug)]
pub struct FeatureFlags {
    pub is_demo_user: Option<bool>,
    pub has_custom_resolution: Option<bool>,
    pub has_quick_plays_support: Option<bool>,
    pub is_quick_play_singleplayer: Option<bool>,
    pub is_quick_play_multiplayer: Option<bool>,
    pub is_quick_play_realms: Option<bool>,
}

/// A named feature reference.
#[derive(Clone, Debug)]
pub struct FeatureRule {
    pub name: String,
}

/// A conditional rule guarding a library or an argument.
#[derive(Clone, Debug)]
pub struct MCRule {
    pub action: Action,
    pub os: Option<OSRule>,
    pub features: Option<FeatureFlags>,
}

/// The architecture part of an OS predicate matches the host: absent means
/// always, an unknown architecture name never matches.
pub open spec fn spec_arch_matches(arch: Option<String>, host: Host) -> bool {
    match arch {
        None => true,
        Some(a) => if a@ == "x86"@ {
            host.arch == HostArch::X86
        } else if a@ == "x86_64"@ {
            host.arch == HostArch::X86_64
        } else {
            false
        },
    }
}

/// The name part of an OS predicate matches the host: absent means always,
/// an unknown OS name never matches.
pub open spec fn spec_os_matches(name: Option<String>, host: Host) -> bool {
    match name {
        None => true,
        Some(o) => if o@ == "linux"@ {
            host.os == HostOs::Linux
        } else if o@ == "osx"@ {
            host.os == HostOs::Osx
        } else if o@ == "windows"@ {
            host.os == HostOs::Windows
        } else {
            false
        },
    }
}

/// Whether a rule's effect applies on `host`. A rule without an OS
/// predicate always matches, so there `Allow` applies and `Disallow` does
/// not. With a predicate, `Allow` applies exactly when architecture and OS
/// both match; `Disallow` applies exactly when they do not both match (the
/// whole effect is negated, not each component).
pub open spec fn spec_rule_applies(rule: MCRule, host: Host) -> bool {
    let both = match rule.os {
        None => true,
        Some(os_rule) => spec_arch_matches(os_rule.arch, host) && spec_os_matches(
            os_rule.name,
            host,
        ),
    };
    match rule.action {
        Action::Allow => both,
        Action::Disallow => !both,
    }
}

impl MCRule {
    /// Evaluates the rule on `host`, exactly as `spec_rule_applies` states.
    pub fn applies(&self, host: &Host) -> (r: bool)
        ensures
            r == spec_rule_applies(*self, *host),
    {
        let both: bool = match &self.os {
            None => true,
            Some(os_rule) => {
                let arch_matches: bool = match &os_rule.arch {
                    None => true,
                    Some(a) => {
                        if str_eq(a.as_str(), "x86") {
                            host.arch == HostArch::X86
                        } else if str_eq(a.as_str(), "x86_64") {
                            host.arch == HostArch::X86_64
                        } else {
                            false
                        }
                    },
                };
                let os_matches: bool = match &os_rule.name {
                    None => true,
                    Some(o) => {
                        if str_eq(o.as_str(), "linux") {
                            host.os == HostOs::Linux
                        } else if str_eq(o.as_str(), "osx") {
                            host.os == HostOs::Osx
                        } else if str_eq(o.as_str(), "windows") {
                            host.os == HostOs::Windows
                        } else {
                            false
                        }
                    },
                };
                arch_matches && os_matches
            },
        };
        match self.action {
            Action::Allow => both,
            Action::Disallow => !both,
        }
    }
}

/// All rules of a list apply on `host` (a guarded entry needs every one of
/// its rules, not just the first match).
pub open spec fn spec_all_rules_apply(rules: Seq<MCRule>, host: Host) -> bool {
    forall|i: int| 0 <= i < rules.len() ==> spec_rule_applies(#[trigger] rules[i], host)
}

/// Evaluates a whole rule list on `host`: true exactly when every rule
/// applies.
pub fn all_rules_apply(rules: &Vec<MCRule>, host: &Host) -> (r: bool)
    ensures
        r == spec_all_rules_apply(rules@, *host),
{
    let n = rules.len();
    let mut i: usize = 0;
    while i < n
        invariant
            n == rules@.len(),
            0 <= i <= n,
            forall|k: int| 0 <= k < i ==> spec_rule_applies(#[trigger] rules@[k], *host),
        decreases n - i,
    {
        if !rules[i].applies(host) {
            return false;
        }
        i = i + 1;
    }
    true
}

/// A `Disallow` rule naming only an OS applies on every host of a different
/// OS: the rule's effect is negated as a whole, so a non-matching OS makes
/// the rule apply.
pub proof fn lemma_disallow_other_os_applies(rule: MCRule, host: Host, os_rule: OSRule)
    requires
        rule.action == Action::Disallow,
        rule.os == Some(os_rule),
        os_rule.arch is None,
        os_rule.name matches Some(n) && n@ == "windows"@,
        host.os != HostOs::Windows,
    ensures
        spec_rule_applies(rule, host),
{
    reveal_strlit("windows");
    reveal_strlit("linux");
    reveal_strlit("osx");
    assert("windows"@.len() == 7);
    assert("linux"@.len() == 5);
    assert("osx"@.len() == 3);
    let n = rule.os->Some_0.name->Some_0;
    assert(n@ != "linux"@);
    assert(n@ != "osx"@);
    assert(!spec_os_matches(os_rule.name, host));
}

/// An `Allow` rule without an OS predicate applies on every host.
pub proof fn lemma_allow_without_os_applies(rule: MCRule, host: Host)
    requires
        rule.action == Action::Allow,
        rule.os is None,
    ensures
        spec_rule_applies(rule, host),
{
}

/// A `Disallow` rule without an OS predicate applies on no host: an absent
/// predicate always matches, and `Disallow` applies only when the match
/// fails.
pub proof fn lemma_disallow_without_os_never_applies(rule: MCRule, host: Host)
    requires
        rule.action == Action::Disallow,
        rule.os is None,
    ensures
        !spec_rule_applies(rule, host),
{
}

} // verus!
