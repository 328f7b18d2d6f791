use lg_ultragear::state::DdcGuardrails;
use lg_ultragear::tui::{check_brightness_value, guardrail_choices, prompt_u32_value, prompt_u8_value};

#[test]
fn byte_prompt_reads_decimal_bytes() {
    assert_eq!(prompt_u8_value("0"), Ok(0));
    assert_eq!(prompt_u8_value("255"), Ok(255));
    assert_eq!(prompt_u8_value("+7"), Ok(7));
    assert_eq!(prompt_u8_value("007"), Ok(7));
}

#[test]
fn byte_prompt_refuses_what_is_not_a_byte() {
    assert_eq!(prompt_u8_value("256"), Err("Could not parse '256' as u8".to_string()));
    assert_eq!(prompt_u8_value("70000"), Err("Could not parse '70000' as u8".to_string()));
    assert_eq!(prompt_u8_value(""), Err("Could not parse '' as u8".to_string()));
    assert_eq!(prompt_u8_value("-1"), Err("Could not parse '-1' as u8".to_string()));
    assert_eq!(prompt_u8_value("0x10"), Err("Could not parse '0x10' as u8".to_string()));
}

#[test]
fn u32_prompt_reads_decimal_values() {
    assert_eq!(prompt_u32_value("50"), Ok(50));
    assert_eq!(prompt_u32_value("4294967295"), Ok(u32::MAX));
    assert_eq!(prompt_u32_value("4294967296"), Err("Could not parse '4294967296' as u32".to_string()));
    assert_eq!(prompt_u32_value("12a"), Err("Could not parse '12a' as u32".to_string()));
}

#[test]
fn studio_brightness_is_at_most_100() {
    assert_eq!(check_brightness_value(0), Ok(0));
    assert_eq!(check_brightness_value(100), Ok(100));
    assert_eq!(check_brightness_value(101), Err("brightness must be 0..100".to_string()));
}

#[test]
fn guardrail_menu_marks_the_toggles_that_are_on() {
    let g = DdcGuardrails { enabled: true, min_brightness: 10, max_brightness: 90, confirm_risky_writes: false };
    let c = guardrail_choices(&g);
    let keys: Vec<char> = c.iter().map(|x| x.key).collect();
    assert_eq!(keys, vec!['1', '2', '3', '4', '5']);
    assert_eq!(c[0].label, "Toggle Guardrails Enabled");
    assert!(c[0].current);
    assert!(!c[3].current);
    assert_eq!(c[4].label, "Reset to Defaults");
}
