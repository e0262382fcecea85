use sj_probe::conditions::{
    battery_state, consents, linux_on_ac, mac_battery, mac_speed_limit, power_plan_name,
    power_source_label, power_warnings, share_decision,
};

#[test]
fn battery_status_values() {
    assert_eq!(battery_state("none"), (false, Some(true)));
    assert_eq!(battery_state(""), (false, Some(true)));
    assert_eq!(battery_state(" 1 "), (true, Some(false)));
    assert_eq!(battery_state("2"), (true, Some(true)));
}

#[test]
fn plan_name_from_powercfg() {
    assert_eq!(
        power_plan_name("Power Scheme GUID: 381b4222-f694-41f0-9685-ff5bb260df2e  (Balanced)"),
        "Balanced"
    );
    assert_eq!(power_plan_name("GUID: x  (High performance)\n"), "High performance");
    assert_eq!(power_plan_name("no parenthesis here"), "no parenthesis here");
    assert_eq!(power_plan_name("weird ()"), "weird ()");
    assert_eq!(power_plan_name("a (b (c))"), "c");
    assert_eq!(power_plan_name("GUID: e9a42b02  (Ultimate Performance)"), "Ultimate Performance");
}

#[test]
fn linux_power_source() {
    assert_eq!(linux_on_ac(Some("1\n"), true), Some(true));
    assert_eq!(linux_on_ac(Some("0\n"), false), Some(false));
    assert_eq!(linux_on_ac(None, true), None);
    assert_eq!(linux_on_ac(None, false), Some(true));
}

#[test]
fn mac_power_source_and_limit() {
    let batt = "Now drawing from 'AC Power'\n -InternalBattery-0 (id=1)\t100%; charged;";
    assert_eq!(mac_battery(batt), (true, Some(true)));
    let on_batt = "Now drawing from 'Battery Power'\n -InternalBattery-0 (id=1)\t80%;";
    assert_eq!(mac_battery(on_batt), (true, Some(false)));
    assert_eq!(mac_battery("Now drawing from 'AC Power'"), (false, Some(true)));
    let therm = "Note: No thermal warning level has been recorded\n  CPU_Speed_Limit \t= 100  \nx";
    assert_eq!(mac_speed_limit(therm).as_deref(), Some("CPU_Speed_Limit \t= 100"));
    assert_eq!(mac_speed_limit("nothing"), None);
}

#[test]
fn power_warnings_for_battery_and_saver() {
    assert!(power_warnings(false, Some(true), "Balanced").is_empty());
    assert_eq!(
        power_warnings(true, Some(false), "Balanced"),
        vec!["Running on battery; plug in for a full-speed result."]
    );
    assert_eq!(
        power_warnings(true, Some(true), "Power Saver"),
        vec!["Power mode is \"Power Saver\"; set it to Balanced or Best Performance for a full-speed result."]
    );
    assert_eq!(power_warnings(false, None, "powersave").len(), 1);
    assert_eq!(power_warnings(true, Some(false), "Best power efficiency").len(), 2);
    assert_eq!(power_warnings(true, None, "ECO").len(), 1);
}

#[test]
fn power_source_labels() {
    assert_eq!(power_source_label(true, Some(true)), "plugged in");
    assert_eq!(power_source_label(true, Some(false)), "on battery");
    assert_eq!(power_source_label(false, Some(false)), "mains powered");
    assert_eq!(power_source_label(true, None), "power source unknown");
}

#[test]
fn share_prompt_answers() {
    assert!(consents("\n"));
    assert!(consents("y\n"));
    assert!(consents("yes"));
    assert!(!consents("n\n"));
    assert!(!consents("  No \r\n"));
    assert!(!consents("NO"));
    assert!(consents("nope"));
}

#[test]
fn end_of_input_is_not_consent() {
    assert!(share_decision(Some(1), "\n"));
    assert!(share_decision(Some(2), "y\n"));
    assert!(!share_decision(Some(3), "n\n"));
    assert!(!share_decision(Some(0), ""));
    assert!(!share_decision(None, ""));
    assert!(!share_decision(None, "y\n"));
}
