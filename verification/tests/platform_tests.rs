use fischy::platform::{get_roblox_executable_name, max_scroll, scroll_plan, Platform, ScrollPlan};

#[test]
fn executable_name_per_platform() {
    assert_eq!(get_roblox_executable_name(Platform::Linux), "sober");
    assert_eq!(get_roblox_executable_name(Platform::Windows), "RobloxPlayerBeta.exe");
}

#[test]
fn max_scroll_per_platform() {
    assert_eq!(max_scroll(Platform::Linux), 8);
    assert_eq!(max_scroll(Platform::Windows), 13);
}

#[test]
fn scroll_plan_linux_sends_one_event() {
    assert_eq!(
        scroll_plan(Platform::Linux, -8),
        ScrollPlan { step: -8, repeats: 1, pause_ms: 0 }
    );
    assert_eq!(
        scroll_plan(Platform::Linux, 1),
        ScrollPlan { step: 1, repeats: 1, pause_ms: 0 }
    );
}

#[test]
fn scroll_plan_windows_sends_single_notches() {
    assert_eq!(
        scroll_plan(Platform::Windows, -13),
        ScrollPlan { step: -1, repeats: 13, pause_ms: 30 }
    );
    assert_eq!(
        scroll_plan(Platform::Windows, 1),
        ScrollPlan { step: 1, repeats: 1, pause_ms: 30 }
    );
    assert_eq!(
        scroll_plan(Platform::Windows, 0),
        ScrollPlan { step: 0, repeats: 0, pause_ms: 30 }
    );
    assert_eq!(
        scroll_plan(Platform::Windows, i32::MAX),
        ScrollPlan { step: 1, repeats: i32::MAX as u32, pause_ms: 30 }
    );
}

#[test]
fn scroll_plan_totals_the_length() {
    for platform in [Platform::Linux, Platform::Windows] {
        for length in [-13, -8, -1, 0, 1, 7, 13] {
            let plan = scroll_plan(platform, length);
            assert_eq!(plan.step as i64 * plan.repeats as i64, length as i64);
        }
    }
}
