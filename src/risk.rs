use vstd::prelude::*;
use crate::names::{has_infix, has_prefix, str_contains, str_starts_with, utf8};

verus! {

/// How much harm a capability can do; decides prompt severity and the
/// default lifetime of a grant.
#[derive(Debug, Clone, Copy, PartialEq, Eq, Structural)]
pub enum RiskLevel {
    /// Read-only or confined operations.
    Low,
    /// Network or external communication.
    Medium,
    /// Privacy-sensitive hardware.
    High,
    /// System modification or administrative access; needs physical presence.
    Critical,
}

/// Default grant lifetime in seconds; zero means single use.
pub open spec fn duration_of(r: RiskLevel) -> u64 {
    match r {
        RiskLevel::Low => 3600,
        RiskLevel::Medium => 300,
        RiskLevel::High => 60,
        RiskLevel::Critical => 0,
    }
}

impl RiskLevel {
    /// Default lifetime of a grant at this level, in seconds (zero: single use).
    pub fn default_duration(&self) -> (r: u64)
        ensures
            r == duration_of(*self),
    {
        match self {
            RiskLevel::Low => 3600,
            RiskLevel::Medium => 300,
            RiskLevel::High => 60,
            RiskLevel::Critical => 0,
        }
    }

    /// Human-readable description shown in prompts.
    pub fn description(&self) -> (r: &'static str)
        ensures
            *self == RiskLevel::Low ==> r@ == "Low risk - Read-only or confined operation"@,
            *self == RiskLevel::Medium ==> r@ == "Medium risk - Network or external communication"@,
            *self == RiskLevel::High ==> r@ == "High risk - Privacy-sensitive hardware access"@,
            *self == RiskLevel::Critical ==> r@ == "CRITICAL - System modification or admin access"@,
    {
        match self {
            RiskLevel::Low => "Low risk - Read-only or confined operation",
            RiskLevel::Medium => "Medium risk - Network or external communication",
            RiskLevel::High => "High risk - Privacy-sensitive hardware access",
            RiskLevel::Critical => "CRITICAL - System modification or admin access",
        }
    }
}

/// Risk of a clear name, by the first rule that matches.
pub open spec fn risk_of(n: Seq<u8>) -> RiskLevel {
    if has_prefix(n, utf8("system.")) || has_prefix(n, utf8("disk.")) || has_prefix(
        n,
        utf8("admin."),
    ) || has_infix(n, utf8("restore")) || has_infix(n, utf8("configure")) {
        RiskLevel::Critical
    } else if has_prefix(n, utf8("camera.")) || has_prefix(n, utf8("microphone.")) || has_prefix(
        n,
        utf8("location."),
    ) || has_prefix(n, utf8("biometric.")) {
        RiskLevel::High
    } else if has_prefix(n, utf8("network.")) {
        if has_infix(n, utf8("local")) || has_infix(n, utf8("lan")) {
            RiskLevel::High
        } else {
            RiskLevel::Medium
        }
    } else if has_prefix(n, utf8("files.")) {
        if has_infix(n, utf8("system")) || has_infix(n, utf8("etc")) {
            RiskLevel::High
        } else if has_infix(n, utf8("home")) || has_infix(n, utf8("documents")) {
            RiskLevel::Medium
        } else if has_infix(n, utf8("download")) || has_infix(n, utf8("temp")) {
            RiskLevel::Low
        } else {
            RiskLevel::Medium
        }
    } else if has_prefix(n, utf8("process.")) {
        if has_infix(n, utf8("kill")) || has_infix(n, utf8("debug")) {
            RiskLevel::High
        } else {
            RiskLevel::Medium
        }
    } else if has_prefix(n, utf8("graphics.")) || has_prefix(n, utf8("gpu.")) {
        RiskLevel::Medium
    } else if has_prefix(n, utf8("audio.out")) {
        RiskLevel::Low
    } else if has_prefix(n, utf8("audio.in")) {
        RiskLevel::High
    } else {
        RiskLevel::Medium
    }
}

/// Classify a clear name. Defined for every string.
pub fn assess_risk(cap_name: &str) -> (r: RiskLevel)
    ensures
        r == risk_of(utf8(cap_name)),
{
    if str_starts_with(cap_name, "system.") || str_starts_with(cap_name, "disk.")
        || str_starts_with(cap_name, "admin.") || str_contains(cap_name, "restore")
        || str_contains(cap_name, "configure") {
        return RiskLevel::Critical;
    }
    if str_starts_with(cap_name, "camera.") || str_starts_with(cap_name, "microphone.")
        || str_starts_with(cap_name, "location.") || str_starts_with(cap_name, "biometric.") {
        return RiskLevel::High;
    }
    if str_starts_with(cap_name, "network.") {
        if str_contains(cap_name, "local") || str_contains(cap_name, "lan") {
            return RiskLevel::High;
        }
        return RiskLevel::Medium;
    }
    if str_starts_with(cap_name, "files.") {
        if str_contains(cap_name, "system") || str_contains(cap_name, "etc") {
            return RiskLevel::High;
        }
        if str_contains(cap_name, "home") || str_contains(cap_name, "documents") {
            return RiskLevel::Medium;
        }
        if str_contains(cap_name, "download") || str_contains(cap_name, "temp") {
            return RiskLevel::Low;
        }
        return RiskLevel::Medium;
    }
    if str_starts_with(cap_name, "process.") {
        if str_contains(cap_name, "kill") || str_contains(cap_name, "debug") {
            return RiskLevel::High;
        }
        return RiskLevel::Medium;
    }
    if str_starts_with(cap_name, "graphics.") || str_starts_with(cap_name, "gpu.") {
        return RiskLevel::Medium;
    }
    if str_starts_with(cap_name, "audio.out") {
        return RiskLevel::Low;
    }
    if str_starts_with(cap_name, "audio.in") {
        return RiskLevel::High;
    }
    RiskLevel::Medium
}

/// Classification depends on the name's bytes alone: equal names get equal
/// levels, whoever asks and whenever.
pub proof fn risk_is_deterministic(a: &str, b: &str)
    requires
        utf8(a) == utf8(b),
    ensures
        risk_of(utf8(a)) == risk_of(utf8(b)),
{
}

/// Human wording of a lifetime in seconds.
pub fn format_duration(seconds: u64) -> (r: &'static str)
    ensures
        seconds == 0 ==> r@ == "one-time use"@,
        0 < seconds < 60 ==> r@ == "briefly"@,
        60 <= seconds < 300 ==> r@ == "for a few minutes"@,
        300 <= seconds < 3600 ==> r@ == "for a while"@,
        3600 <= seconds ==> r@ == "for an extended period"@,
{
    if seconds == 0 {
        "one-time use"
    } else if seconds < 60 {
        "briefly"
    } else if seconds < 300 {
        "for a few minutes"
    } else if seconds < 3600 {
        "for a while"
    } else {
        "for an extended period"
    }
}

} // verus!
