use fischy::control::{
    fishing_phase, hotbar_key, line_control, shake_wait, viewpoint_plan, FishingLoop,
    FishingPhase, LineControl, LoopAction, LoopEvent, MacroLoop, ShakeWait,
};
use fischy::geometry::Dimensions;
use fischy::platform::Platform;
use fischy::stats::Stats;

#[test]
fn shakes_up_to_the_limit_then_reels() {
    let mut stats = Stats::new(true);
    let mut m = MacroLoop::new(2);
    assert_eq!(m.step(&mut stats, LoopEvent::Reeled), LoopAction::RestartShakeTimer);
    assert_eq!(m.step(&mut stats, LoopEvent::ShakeFound), LoopAction::ClickShake);
    assert_eq!(m.step(&mut stats, LoopEvent::ShakeFound), LoopAction::ClickShake);
    assert_eq!(m.shake_count, 2);
    assert_eq!(m.step(&mut stats, LoopEvent::ShakeFound), LoopAction::Reel);
    assert_eq!(m.shake_count, 2);
    assert_eq!(stats.shakes(), 2);
    assert_eq!(m.step(&mut stats, LoopEvent::Reeled), LoopAction::RestartShakeTimer);
    assert_eq!(m.shake_count, 0);
    assert_eq!(stats.reels(), 2);
}

#[test]
fn no_shake_allowed_with_limit_zero() {
    let mut stats = Stats::new(true);
    let mut m = MacroLoop::new(0);
    assert_eq!(m.step(&mut stats, LoopEvent::ShakeFound), LoopAction::Reel);
    assert_eq!(stats.shakes(), 0);
}

#[test]
fn idle_too_long_reels() {
    let mut stats = Stats::new(true);
    let mut m = MacroLoop::new(40);
    assert_eq!(
        m.step(&mut stats, LoopEvent::NoShake { idle_ns: 5_000_000_000 }),
        LoopAction::CheckHook
    );
    assert_eq!(
        m.step(&mut stats, LoopEvent::NoShake { idle_ns: 5_000_000_001 }),
        LoopAction::Reel
    );
}

#[test]
fn eleventh_miss_reselects_rod() {
    let mut stats = Stats::new(true);
    let mut m = MacroLoop::new(40);
    for _ in 0..10 {
        assert_eq!(
            m.step(&mut stats, LoopEvent::HookChecked { hooked: false, rod_known: true }),
            LoopAction::Continue
        );
    }
    assert_eq!(m.tries_fishing, 10);
    assert_eq!(
        m.step(&mut stats, LoopEvent::HookChecked { hooked: false, rod_known: false }),
        LoopAction::ReselectRod
    );
    assert_eq!(m.tries_fishing, 0);
}

#[test]
fn hooked_fish_is_played_and_counted() {
    let mut stats = Stats::new(true);
    let mut m = MacroLoop::new(40);
    m.step(&mut stats, LoopEvent::Reeled);
    assert!(m.line_out);
    m.step(&mut stats, LoopEvent::HookChecked { hooked: false, rod_known: true });
    assert_eq!(
        m.step(&mut stats, LoopEvent::HookChecked { hooked: true, rod_known: false }),
        LoopAction::SetUpRod
    );
    assert_eq!(m.tries_fishing, 1);
    assert_eq!(m.step(&mut stats, LoopEvent::RodSetUp { ok: false }), LoopAction::Continue);
    assert_eq!(m.tries_fishing, 1);
    assert_eq!(m.step(&mut stats, LoopEvent::RodSetUp { ok: true }), LoopAction::Fish);
    assert_eq!(m.tries_fishing, 0);
    assert_eq!(
        m.step(&mut stats, LoopEvent::Caught { seconds: 12 }),
        LoopAction::RestThenReel
    );
    assert!(!m.line_out);
    assert_eq!((stats.fishes(), stats.reels()), (1, 1));
    m.step(&mut stats, LoopEvent::Reeled);
    assert_eq!(
        m.step(&mut stats, LoopEvent::HookChecked { hooked: true, rod_known: true }),
        LoopAction::Fish
    );
    m.step(&mut stats, LoopEvent::Caught { seconds: 3 });
    assert!(stats.fishes() <= stats.reels());
    assert_eq!(stats.total_fishing_time(), 15);
}

#[test]
fn fishing_phases() {
    assert_eq!(fishing_phase(true, Some(42), false), FishingPhase::Track(42));
    assert_eq!(fishing_phase(true, Some(42), true), FishingPhase::Skip);
    assert_eq!(fishing_phase(true, None, false), FishingPhase::BiteOver);
    assert_eq!(fishing_phase(false, Some(42), false), FishingPhase::BiteOver);
}

#[test]
fn line_control_at_edges() {
    assert_eq!(line_control(5, 10), LineControl::Slack);
    assert_eq!(line_control(10, 10), LineControl::Follow);
    assert_eq!(line_control(90, 10), LineControl::Follow);
    assert_eq!(line_control(91, 10), LineControl::Tighten);
    assert_eq!(line_control(50, 0), LineControl::Follow);
    assert_eq!(line_control(-1, 0), LineControl::Slack);
}

#[test]
fn follow_tracks_hook_motion() {
    let mut f = FishingLoop::new();
    let m = f.follow(300, 250);
    assert_eq!((m.range, m.speed), (50, 250));
    let m = f.follow(280, 270);
    assert_eq!((m.range, m.speed), (10, 20));
    assert_eq!(f.previous_hook_x, 270);
}

#[test]
fn hotbar_keys() {
    assert_eq!(hotbar_key(1), Some(1));
    assert_eq!(hotbar_key(9), Some(9));
    assert_eq!(hotbar_key(0), None);
    assert_eq!(hotbar_key(10), None);
}

#[test]
fn viewpoint_for_full_hd() {
    let p = viewpoint_plan(Dimensions { width: 1920, height: 1080 }, Platform::Linux);
    assert_eq!((p.safe_x, p.safe_y, p.drag_dy, p.drags, p.pause_ms), (960, 384, 360, 3, 100));
    assert_eq!((p.zoom_in, p.zoom_out), (-8, 1));
    let p = viewpoint_plan(Dimensions { width: 1001, height: 1000 }, Platform::Windows);
    assert_eq!((p.safe_x, p.safe_y, p.drag_dy), (500, 200, 333));
    assert_eq!(p.zoom_in, -13);
}

#[test]
fn viewpoint_reads_huge_height_as_negative() {
    let p = viewpoint_plan(Dimensions { width: 10, height: u32::MAX }, Platform::Linux);
    assert_eq!(p.drag_dy, 0);
    let p = viewpoint_plan(Dimensions { width: 10, height: 0xFFFF_FFF0 }, Platform::Linux);
    assert_eq!(p.drag_dy, -5);
}

#[test]
fn shake_wait_per_platform() {
    assert_eq!(
        shake_wait(Platform::Linux, 400),
        ShakeWait { first_ms: 133, move_mouse_away: true, second_ms: 266 }
    );
    assert_eq!(
        shake_wait(Platform::Windows, 400),
        ShakeWait { first_ms: 400, move_mouse_away: false, second_ms: 0 }
    );
}
