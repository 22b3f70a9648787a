use filesmind_launcher::thermal::{
    detect_low_power_mode, extract_int_from_key, infer_thermal_level, now_unix_ms,
    select_command_output, snapshot_macos_runtime_state, unsupported_snapshot, ThermalLevel,
};

#[test]
fn extract_finds_key_value() {
    assert_eq!(
        extract_int_from_key("CPU_Speed_Limit = 45", "cpu_speed_limit"),
        Some(45)
    );
}

#[test]
fn extract_missing_key_yields_nothing() {
    assert_eq!(
        extract_int_from_key("Scheduler_Limit = 70", "cpu_speed_limit"),
        None
    );
}

#[test]
fn extract_picks_matching_line() {
    let out = "Scheduler_Limit = 70\nCPU_Speed_Limit = 45\nCPU_Available_CPUs = 8";
    assert_eq!(extract_int_from_key(out, "cpu_speed_limit"), Some(45));
    assert_eq!(extract_int_from_key(out, "scheduler_limit"), Some(70));
    assert_eq!(extract_int_from_key(out, "cpu_available_cpus"), Some(8));
}

#[test]
fn extract_handles_negative_numbers() {
    assert_eq!(extract_int_from_key("offset = -5", "offset"), Some(-5));
}

#[test]
fn extract_skips_line_with_unparseable_number() {
    let out = "cpu_speed_limit = 99999999999\ncpu_speed_limit = 45";
    assert_eq!(extract_int_from_key(out, "cpu_speed_limit"), Some(45));
}

#[test]
fn extract_is_case_insensitive() {
    assert_eq!(
        extract_int_from_key("THERMAL LEVEL: 2", "thermal level"),
        Some(2)
    );
}

#[test]
fn extract_handles_crlf_lines() {
    let out = "Scheduler_Limit = 70\r\nCPU_Speed_Limit = 45\r\n";
    assert_eq!(extract_int_from_key(out, "cpu_speed_limit"), Some(45));
}

#[test]
fn thermal_limit_thresholds() {
    assert_eq!(
        infer_thermal_level(None, Some(40), None, ""),
        ThermalLevel::Critical
    );
    assert_eq!(
        infer_thermal_level(None, Some(70), None, ""),
        ThermalLevel::Serious
    );
    assert_eq!(
        infer_thermal_level(None, Some(85), None, ""),
        ThermalLevel::Fair
    );
    assert_eq!(
        infer_thermal_level(None, Some(95), None, ""),
        ThermalLevel::Nominal
    );
}

#[test]
fn thermal_raw_level_wins_over_limits() {
    assert_eq!(
        infer_thermal_level(Some(3), Some(95), Some(95), ""),
        ThermalLevel::Critical
    );
    assert_eq!(
        infer_thermal_level(Some(2), None, None, ""),
        ThermalLevel::Serious
    );
    assert_eq!(
        infer_thermal_level(Some(1), None, None, ""),
        ThermalLevel::Fair
    );
    assert_eq!(
        infer_thermal_level(Some(0), None, None, ""),
        ThermalLevel::Nominal
    );
    assert_eq!(
        infer_thermal_level(Some(7), None, None, ""),
        ThermalLevel::Critical
    );
}

#[test]
fn thermal_takes_minimum_of_both_limits() {
    assert_eq!(
        infer_thermal_level(None, Some(80), Some(60), ""),
        ThermalLevel::Serious
    );
    assert_eq!(
        infer_thermal_level(None, None, Some(88), ""),
        ThermalLevel::Fair
    );
}

#[test]
fn thermal_no_warning_text_is_nominal() {
    assert_eq!(
        infer_thermal_level(None, None, None, "Note: No Thermal Warning seen"),
        ThermalLevel::Nominal
    );
}

#[test]
fn thermal_without_evidence_is_unknown() {
    assert_eq!(
        infer_thermal_level(None, None, None, "nothing of note"),
        ThermalLevel::Unknown
    );
}

#[test]
fn thermal_labels() {
    assert_eq!(ThermalLevel::Nominal.label(), "nominal");
    assert_eq!(ThermalLevel::Fair.label(), "fair");
    assert_eq!(ThermalLevel::Serious.label(), "serious");
    assert_eq!(ThermalLevel::Critical.label(), "critical");
    assert_eq!(ThermalLevel::Unknown.label(), "unknown");
}

#[test]
fn low_power_numeric_token_decides() {
    assert_eq!(detect_low_power_mode("LowPowerMode 1"), Some(true));
    assert_eq!(detect_low_power_mode("lowpowermode 0"), Some(false));
    assert_eq!(detect_low_power_mode(" LowPowerMode = 1"), Some(true));
    assert_eq!(detect_low_power_mode("SleepDisabled 0\nlowpowermode 3"), Some(true));
}

#[test]
fn low_power_falls_back_to_equals_text() {
    assert_eq!(detect_low_power_mode("lowpowermode =1x"), Some(true));
    assert_eq!(detect_low_power_mode("lowpowermode =0x"), Some(false));
}

#[test]
fn low_power_absent_evidence_is_unknown() {
    assert_eq!(detect_low_power_mode("lowpowermode broken"), None);
    assert_eq!(detect_low_power_mode("SleepDisabled 0"), None);
    assert_eq!(detect_low_power_mode(""), None);
}

#[test]
fn select_output_prefers_stdout() {
    assert_eq!(
        select_command_output("out".to_string(), "err".to_string()),
        Some("out".to_string())
    );
}

#[test]
fn select_output_falls_back_to_stderr() {
    assert_eq!(
        select_command_output("  \n".to_string(), "err".to_string()),
        Some("err".to_string())
    );
}

#[test]
fn select_output_blank_streams_yield_nothing() {
    assert_eq!(select_command_output("".to_string(), " \t".to_string()), None);
}

#[test]
fn snapshot_composes_fields() {
    let therm = "CPU_Speed_Limit = 70\nCPU_Available_CPUs = 8";
    let settings = "Currently in use:\n lowpowermode 1";
    let snap = snapshot_macos_runtime_state(therm, settings, 2, true);
    assert_eq!(snap.platform, "macos");
    assert_eq!(snap.source, "pmset");
    assert_eq!(snap.cpu_speed_limit, Some(70));
    assert_eq!(snap.scheduler_limit, None);
    assert_eq!(snap.available_cpus, Some(8));
    assert_eq!(snap.thermal_level, ThermalLevel::Serious);
    assert_eq!(snap.low_power_mode, Some(true));
    assert_eq!(snap.perf_active_tokens, 2);
    assert!(snap.caffeinate_active);
    assert!(snap.timestamp_ms > 0);
}

#[test]
fn snapshot_raw_thermal_level_dominates() {
    let therm = "Thermal Level: 3\nCPU_Speed_Limit = 95";
    let snap = snapshot_macos_runtime_state(therm, "", 0, false);
    assert_eq!(snap.thermal_level, ThermalLevel::Critical);
    assert_eq!(snap.cpu_speed_limit, Some(95));
}

#[test]
fn unsupported_snapshot_is_degraded_but_well_formed() {
    let snap = unsupported_snapshot("linux".to_string(), 1, false);
    assert_eq!(snap.platform, "linux");
    assert_eq!(snap.source, "unsupported");
    assert_eq!(snap.thermal_level, ThermalLevel::Unknown);
    assert_eq!(snap.cpu_speed_limit, None);
    assert_eq!(snap.scheduler_limit, None);
    assert_eq!(snap.available_cpus, None);
    assert_eq!(snap.low_power_mode, None);
    assert_eq!(snap.perf_active_tokens, 1);
    assert!(!snap.caffeinate_active);
    assert!(snap.timestamp_ms > 0);
}

#[test]
fn clock_reads_after_epoch() {
    assert!(now_unix_ms() > 0);
}
