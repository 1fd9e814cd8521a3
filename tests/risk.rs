use kozo_policy::risk::{assess_risk, format_duration, RiskLevel};

#[test]
fn critical_prefixes_and_words() {
    assert_eq!(assess_risk("system.restore"), RiskLevel::Critical);
    assert_eq!(assess_risk("disk.format"), RiskLevel::Critical);
    assert_eq!(assess_risk("admin.elevate"), RiskLevel::Critical);
    assert_eq!(assess_risk("files.home.restore"), RiskLevel::Critical);
    assert_eq!(assess_risk("network.configure"), RiskLevel::Critical);
}

#[test]
fn privacy_hardware_is_high() {
    assert_eq!(assess_risk("camera.use"), RiskLevel::High);
    assert_eq!(assess_risk("microphone.record"), RiskLevel::High);
    assert_eq!(assess_risk("location.fine"), RiskLevel::High);
    assert_eq!(assess_risk("biometric.face"), RiskLevel::High);
}

#[test]
fn network_rules() {
    assert_eq!(assess_risk("network.local"), RiskLevel::High);
    assert_eq!(assess_risk("network.lan"), RiskLevel::High);
    assert_eq!(assess_risk("network.outbound"), RiskLevel::Medium);
    assert_eq!(assess_risk("network.inbound"), RiskLevel::Medium);
}

#[test]
fn file_rules() {
    assert_eq!(assess_risk("files.system.read"), RiskLevel::High);
    assert_eq!(assess_risk("files.etc.read"), RiskLevel::High);
    assert_eq!(assess_risk("files.home.write"), RiskLevel::Medium);
    assert_eq!(assess_risk("files.documents.read"), RiskLevel::Medium);
    assert_eq!(assess_risk("files.download.read"), RiskLevel::Low);
    assert_eq!(assess_risk("files.temp.write"), RiskLevel::Low);
    assert_eq!(assess_risk("files.media.read"), RiskLevel::Medium);
}

#[test]
fn process_graphics_audio_and_default() {
    assert_eq!(assess_risk("process.kill"), RiskLevel::High);
    assert_eq!(assess_risk("process.debug"), RiskLevel::High);
    assert_eq!(assess_risk("process.spawn"), RiskLevel::Medium);
    assert_eq!(assess_risk("graphics.render"), RiskLevel::Medium);
    assert_eq!(assess_risk("gpu.compute"), RiskLevel::Medium);
    assert_eq!(assess_risk("audio.out"), RiskLevel::Low);
    assert_eq!(assess_risk("audio.in"), RiskLevel::High);
    assert_eq!(assess_risk("unknown.thing"), RiskLevel::Medium);
    assert_eq!(assess_risk(""), RiskLevel::Medium);
}

#[test]
fn classification_is_deterministic() {
    let names = ["camera.use", "files.temp.read", "system.x", "audio.out", "zzz"];
    for n in names {
        let owned = String::from(n);
        assert_eq!(assess_risk(n), assess_risk(owned.as_str()));
        assert_eq!(assess_risk(n), assess_risk(n));
    }
}

#[test]
fn default_durations() {
    assert_eq!(RiskLevel::Low.default_duration(), 3600);
    assert_eq!(RiskLevel::Medium.default_duration(), 300);
    assert_eq!(RiskLevel::High.default_duration(), 60);
    assert_eq!(RiskLevel::Critical.default_duration(), 0);
}

#[test]
fn descriptions() {
    assert_eq!(RiskLevel::Low.description(), "Low risk - Read-only or confined operation");
    assert_eq!(RiskLevel::Critical.description(), "CRITICAL - System modification or admin access");
}

#[test]
fn duration_wording() {
    assert_eq!(format_duration(0), "one-time use");
    assert_eq!(format_duration(59), "briefly");
    assert_eq!(format_duration(60), "for a few minutes");
    assert_eq!(format_duration(299), "for a few minutes");
    assert_eq!(format_duration(300), "for a while");
    assert_eq!(format_duration(3599), "for a while");
    assert_eq!(format_duration(3600), "for an extended period");
}
