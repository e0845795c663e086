use vstd::prelude::*;

verus! {

/// The operating systems whose game client the helper knows how to drive.
#[derive(Clone, Copy, Debug, PartialEq, Eq, Structural)]
pub enum Platform {
    Linux,
    Windows,
}

/// Name of the game client's executable on `platform`.
pub open spec fn executable_name_spec(platform: Platform) -> Seq<char> {
    match platform {
        Platform::Linux => "sober"@,
        Platform::Windows => "RobloxPlayerBeta.exe"@,
    }
}

/// Name of the game client's executable on the given platform.
pub fn get_roblox_executable_name(platform: Platform) -> (name: &'static str)
    ensures
        name@ == executable_name_spec(platform),
{
    match platform {
        Platform::Linux => "sober",
        Platform::Windows => "RobloxPlayerBeta.exe",
    }
}

/// Number of wheel notches that fully zooms the camera in or out.
pub open spec fn max_scroll_spec(platform: Platform) -> i32 {
    match platform {
        Platform::Windows => 13,
        Platform::Linux => 8,
    }
}

/// Number of wheel notches that fully zooms the camera in or out on `platform`.
pub fn max_scroll(platform: Platform) -> (notches: i32)
    ensures
        notches == max_scroll_spec(platform),
{
    match platform {
        Platform::Windows => 13,
        Platform::Linux => 8,
    }
}

/// How a scroll of some length is sent to the game: `repeats` wheel events of
/// `step` notches each, with `pause_ms` milliseconds of rest before each event.
#[derive(Clone, Copy, Debug, PartialEq, Eq, Structural)]
pub struct ScrollPlan {
    pub step: i32,
    pub repeats: u32,
    pub pause_ms: u64,
}

/// The sign of `v`: -1, 0 or 1.
pub open spec fn signum(v: int) -> int {
    if v > 0 {
        1
    } else if v < 0 {
        -1
    } else {
        0
    }
}

/// The plan for scrolling `length` notches on `platform`: one event of the whole
/// length, except on Windows, where the game only takes single notches, sent one
/// by one with a short rest before each.
pub open spec fn scroll_plan_spec(platform: Platform, length: i32) -> ScrollPlan {
    match platform {
        Platform::Linux => ScrollPlan { step: length, repeats: 1, pause_ms: 0 },
        Platform::Windows => ScrollPlan {
            step: signum(length as int) as i32,
            repeats: (if length < 0 { -(length as int) } else { length as int }) as u32,
            pause_ms: 30,
        },
    }
}

/// Plans a scroll of `length` notches on `platform` (see [`scroll_plan_spec`]).
pub fn scroll_plan(platform: Platform, length: i32) -> (plan: ScrollPlan)
    requires
        platform == Platform::Windows ==> length != i32::MIN,
    ensures
        plan == scroll_plan_spec(platform, length),
{
    match platform {
        Platform::Linux => ScrollPlan { step: length, repeats: 1, pause_ms: 0 },
        Platform::Windows => {
            let step: i32 = if length > 0 {
                1
            } else if length < 0 {
                -1
            } else {
                0
            };
            let magnitude: i32 = if length < 0 { -length } else { length };
            ScrollPlan { step, repeats: magnitude as u32, pause_ms: 30 }
        },
    }
}

/// A scroll plan moves the wheel by exactly the requested length in total.
pub proof fn lemma_scroll_plan_total(platform: Platform, length: i32)
    requires
        platform == Platform::Windows ==> length != i32::MIN,
    ensures
        scroll_plan_spec(platform, length).step * scroll_plan_spec(platform, length).repeats
            == length,
{
    let plan = scroll_plan_spec(platform, length);
    if platform == Platform::Windows {
        if length > 0 {
            assert(plan.step == 1 && plan.repeats == length);
            assert(plan.step * plan.repeats == length) by (nonlinear_arith)
                requires plan.step == 1 && plan.repeats == length;
        } else if length < 0 {
            assert(plan.step == -1 && plan.repeats == -length);
            assert(plan.step * plan.repeats == length) by (nonlinear_arith)
                requires plan.step == -1 && plan.repeats == -length;
        } else {
            assert(plan.step == 0);
            assert(plan.step * plan.repeats == length) by (nonlinear_arith)
                requires plan.step == 0, length == 0;
        }
    } else {
        assert(plan.repeats == 1);
        assert(plan.step * plan.repeats == length) by (nonlinear_arith)
            requires plan.repeats == 1, plan.step == length;
    }
}

} // verus!
