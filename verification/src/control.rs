use vstd::prelude::*;

use crate::geometry::Dimensions;
use crate::platform::{max_scroll, max_scroll_spec, Platform};
use crate::stats::{fresh_stats, lemma_stats_stay_consistent, Stats, StatsView};

verus! {

/// After this long without a shake (5 s, in nanoseconds), the line is cast again.
pub const SHAKE_TIMEOUT_NANOS: u128 = 5_000_000_000;

/// After this many checks in a row that found no fish, the rod is selected again.
pub const MAX_TRIES_FISHING: u32 = 10;

/// What the main loop learns from the outside.
#[derive(Clone, Copy, Debug, PartialEq, Eq, Structural)]
pub enum LoopEvent {
    /// A shake bubble was found and the server is alive.
    ShakeFound,
    /// No shake bubble this round; `idle_ns` have passed since the last shake or cast.
    NoShake { idle_ns: u128 },
    /// The screenshot shows a fish on the hook or not; `rod_known` tells whether
    /// the rod's place in the mini-game is known already.
    HookChecked { hooked: bool, rod_known: bool },
    /// The mini-game area was refined for the first fish (`ok`) or not.
    RodSetUp { ok: bool },
    /// The mini-game ended with the fish caught after `seconds`.
    Caught { seconds: u64 },
    /// The line was cast.
    Reeled,
}

/// What the main loop does next.
#[derive(Clone, Copy, Debug, PartialEq, Eq, Structural)]
pub enum LoopAction {
    /// Cast the line again, then report `Reeled`.
    Reel,
    /// Click the shake bubble, restart the shake timer and start the next round.
    ClickShake,
    /// Restart the shake timer and start the next round.
    RestartShakeTimer,
    /// Take a screenshot and check the hook.
    CheckHook,
    /// Refine the mini-game area for the first fish, then report `RodSetUp`.
    SetUpRod,
    /// Play the fishing mini-game; report `Caught` if the fish is caught, then
    /// rest and cast again.
    Fish,
    /// Rest a moment, then cast the line again.
    RestThenReel,
    /// Select the rod in the hotbar again.
    ReselectRod,
    /// Start the next round.
    Continue,
}

/// State of the main loop: shakes since the last cast, checks in a row that
/// found no fish, and whether a line was cast whose fish is not counted yet.
#[derive(Clone, Copy, Debug, PartialEq, Eq, Structural)]
pub struct MacroLoop {
    pub shake_count: u8,
    pub tries_fishing: u32,
    /// Shakes allowed between two casts.
    pub max_shake_count: u8,
    /// A line was cast and no fish was counted since.
    pub line_out: bool,
}

impl MacroLoop {
    /// The counters stay in their ranges.
    pub open spec fn wf(self) -> bool {
        &&& self.tries_fishing <= MAX_TRIES_FISHING
        &&& self.shake_count <= self.max_shake_count
    }

    /// The next loop state and the action for `event`.
    pub open spec fn transition(self, event: LoopEvent) -> (MacroLoop, LoopAction) {
        match event {
            LoopEvent::ShakeFound => if self.shake_count >= self.max_shake_count {
                (self, LoopAction::Reel)
            } else {
                (
                    MacroLoop { shake_count: (self.shake_count + 1) as u8, ..self },
                    LoopAction::ClickShake,
                )
            },
            LoopEvent::NoShake { idle_ns } => if idle_ns > SHAKE_TIMEOUT_NANOS {
                (self, LoopAction::Reel)
            } else {
                (self, LoopAction::CheckHook)
            },
            LoopEvent::HookChecked { hooked, rod_known } => if hooked && !rod_known {
                (self, LoopAction::SetUpRod)
            } else if hooked {
                (MacroLoop { tries_fishing: 0, ..self }, LoopAction::Fish)
            } else if self.tries_fishing >= MAX_TRIES_FISHING {
                (MacroLoop { tries_fishing: 0, ..self }, LoopAction::ReselectRod)
            } else {
                (
                    MacroLoop { tries_fishing: (self.tries_fishing + 1) as u32, ..self },
                    LoopAction::Continue,
                )
            },
            LoopEvent::RodSetUp { ok } => if ok {
                (MacroLoop { tries_fishing: 0, ..self }, LoopAction::Fish)
            } else {
                (self, LoopAction::Continue)
            },
            LoopEvent::Caught { seconds } => (
                MacroLoop { line_out: false, ..self },
                LoopAction::RestThenReel,
            ),
            LoopEvent::Reeled => (
                MacroLoop { shake_count: 0, line_out: true, ..self },
                LoopAction::RestartShakeTimer,
            ),
        }
    }

    /// The statistics after `event`: a clicked shake, a caught fish and a cast
    /// are counted.
    pub open spec fn counted(self, stats: StatsView, event: LoopEvent) -> StatsView {
        match event {
            LoopEvent::ShakeFound => if self.transition(event).1 == LoopAction::ClickShake {
                StatsView { shakes: stats.shakes + 1, ..stats }
            } else {
                stats
            },
            LoopEvent::Caught { seconds } => stats.after_fishing(seconds as nat),
            LoopEvent::Reeled => if stats.enabled {
                StatsView { reels: stats.reels + 1, ..stats }
            } else {
                stats
            },
            _ => stats,
        }
    }

    /// The counters can take `event`: none goes past `u64::MAX`, and a fish is
    /// only counted for a line that was cast.
    pub open spec fn can_step(self, stats: StatsView, event: LoopEvent) -> bool {
        match event {
            LoopEvent::ShakeFound => self.shake_count < self.max_shake_count ==> stats.shakes
                < u64::MAX,
            LoopEvent::Caught { seconds } => {
                &&& self.line_out
                &&& stats.fishes < u64::MAX
                &&& stats.total_fishing_time + seconds <= u64::MAX
            },
            LoopEvent::Reeled => stats.enabled ==> stats.reels < u64::MAX,
            _ => true,
        }
    }

    /// The loop and its statistics agree: the loop's counters are in range, the
    /// statistics are consistent, and when they are enabled there are no more
    /// fishes than casts (one fewer while a cast line waits for its fish).
    pub open spec fn session_wf(self, stats: StatsView) -> bool {
        &&& self.wf()
        &&& stats.wf()
        &&& stats.enabled ==> stats.fishes + (if self.line_out {
            1int
        } else {
            0
        }) <= stats.reels
    }

    /// A loop that has not cast, shaken nor missed yet.
    pub fn new(max_shake_count: u8) -> (s: MacroLoop)
        ensures
            s == (MacroLoop { shake_count: 0, tries_fishing: 0, max_shake_count, line_out: false }),
            s.wf(),
    {
        MacroLoop { shake_count: 0, tries_fishing: 0, max_shake_count, line_out: false }
    }

    /// Takes in `event`, counts it in `stats`, and says what to do next.
    pub fn step(&mut self, stats: &mut Stats, event: LoopEvent) -> (action: LoopAction)
        requires
            old(self).can_step(old(stats)@, event),
        ensures
            (*final(self), action) == old(self).transition(event),
            final(stats)@ == old(self).counted(old(stats)@, event),
    {
        match event {
            LoopEvent::ShakeFound => {
                if self.shake_count >= self.max_shake_count {
                    LoopAction::Reel
                } else {
                    self.shake_count = self.shake_count + 1;
                    stats.record_shake();
                    LoopAction::ClickShake
                }
            },
            LoopEvent::NoShake { idle_ns } => {
                if idle_ns > SHAKE_TIMEOUT_NANOS {
                    LoopAction::Reel
                } else {
                    LoopAction::CheckHook
                }
            },
            LoopEvent::HookChecked { hooked, rod_known } => {
                if hooked && !rod_known {
                    LoopAction::SetUpRod
                } else if hooked {
                    self.tries_fishing = 0;
                    LoopAction::Fish
                } else if self.tries_fishing >= MAX_TRIES_FISHING {
                    self.tries_fishing = 0;
                    LoopAction::ReselectRod
                } else {
                    self.tries_fishing = self.tries_fishing + 1;
                    LoopAction::Continue
                }
            },
            LoopEvent::RodSetUp { ok } => {
                if ok {
                    self.tries_fishing = 0;
                    LoopAction::Fish
                } else {
                    LoopAction::Continue
                }
            },
            LoopEvent::Caught { seconds } => {
                stats.add_fishing_time(seconds);
                self.line_out = false;
                LoopAction::RestThenReel
            },
            LoopEvent::Reeled => {
                stats.record_reel();
                self.shake_count = 0;
                self.line_out = true;
                LoopAction::RestartShakeTimer
            },
        }
    }
}

/// A fresh loop and fresh statistics agree.
pub proof fn lemma_fresh_session(max_shake_count: u8, enabled: bool)
    ensures
        (MacroLoop { shake_count: 0, tries_fishing: 0, max_shake_count, line_out: false }).session_wf(
            fresh_stats(enabled),
        ),
{
}

/// Every step keeps the loop and its statistics in agreement, and the shake
/// limit unchanged; so enabled statistics can always be reported: there are
/// never more fishes than casts.
pub proof fn lemma_step_keeps_session_wf(s: MacroLoop, stats: StatsView, event: LoopEvent)
    requires
        s.session_wf(stats),
        s.can_step(stats, event),
    ensures
        s.transition(event).0.session_wf(s.counted(stats, event)),
        s.transition(event).0.max_shake_count == s.max_shake_count,
        s.counted(stats, event).enabled ==> s.counted(stats, event).reportable(),
{
    lemma_stats_stay_consistent(stats, 0);
    if let LoopEvent::Caught { seconds } = event {
        lemma_stats_stay_consistent(stats, seconds as nat);
    }
}

/// Running `events` from `s`: the final loop state and the number of shake
/// clicks asked for.
pub open spec fn run(s: MacroLoop, events: Seq<LoopEvent>) -> (MacroLoop, nat)
    decreases events.len(),
{
    if events.len() == 0 {
        (s, 0)
    } else {
        let (t, clicks) = run(s, events.drop_last());
        let (u, action) = t.transition(events.last());
        (u, clicks + if action == LoopAction::ClickShake {
            1nat
        } else {
            0
        })
    }
}

/// Between two casts the loop asks for at most `max_shake_count` shake clicks:
/// over events with no cast, the clicks asked for are the shakes counted, and
/// the count never passes the limit.
pub proof fn lemma_clicks_between_casts(s: MacroLoop, events: Seq<LoopEvent>)
    requires
        s.wf(),
        forall|k: int| 0 <= k < events.len() ==> events[k] != LoopEvent::Reeled,
    ensures
        run(s, events).0.wf(),
        run(s, events).0.shake_count == s.shake_count + run(s, events).1,
        run(s, events).1 <= s.max_shake_count - s.shake_count,
        run(s, events).0.max_shake_count == s.max_shake_count,
    decreases events.len(),
{
    if events.len() > 0 {
        lemma_clicks_between_casts(s, events.drop_last());
    }
}

/// Casting the line forgets the shakes; a fish on the hook (rod known) is always
/// played and forgets the misses; a miss reselects the rod exactly when the
/// misses in a row have reached the limit.
pub proof fn lemma_step_outcomes(s: MacroLoop)
    ensures
        s.transition(LoopEvent::Reeled).0.shake_count == 0,
        s.transition(LoopEvent::HookChecked { hooked: true, rod_known: true }) == (
            MacroLoop { tries_fishing: 0, ..s },
            LoopAction::Fish,
        ),
        (s.transition(LoopEvent::HookChecked { hooked: false, rod_known: true }).1
            == LoopAction::ReselectRod) == (s.tries_fishing >= MAX_TRIES_FISHING),
        (s.transition(LoopEvent::HookChecked { hooked: false, rod_known: false }).1
            == LoopAction::ReselectRod) == (s.tries_fishing >= MAX_TRIES_FISHING),
{
}

/// Finding no shake bubble changes no counter of the loop and counts nothing:
/// it only decides between casting again, after more than five seconds
/// without a shake, and checking the hook.
pub proof fn lemma_no_shake_changes_nothing(s: MacroLoop, stats: StatsView, idle_ns: u128)
    ensures
        s.transition(LoopEvent::NoShake { idle_ns }).0 == s,
        s.counted(stats, LoopEvent::NoShake { idle_ns }) == stats,
        s.transition(LoopEvent::NoShake { idle_ns }).1 == (if idle_ns > 5_000_000_000 {
            LoopAction::Reel
        } else {
            LoopAction::CheckHook
        }),
{
}

/// Each counter of the loop moves only on its own events: the misses in a row
/// only on hook checks and rod set-ups, the shakes only when a shake is found or
/// the line is cast, whether a line is out only on a catch or a cast; the shake
/// limit never changes.
pub proof fn lemma_counters_move_on_their_events(s: MacroLoop, event: LoopEvent)
    ensures
        !(event is HookChecked) && !(event is RodSetUp) ==> s.transition(event).0.tries_fishing
            == s.tries_fishing,
        !(event is ShakeFound) && !(event is Reeled) ==> s.transition(event).0.shake_count
            == s.shake_count,
        !(event is Caught) && !(event is Reeled) ==> s.transition(event).0.line_out
            == s.line_out,
        s.transition(event).0.max_shake_count == s.max_shake_count,
{
}

/// One round of the main loop that finds no shake bubble, within the time
/// limit, and no fish on the hook.
pub open spec fn fishless_round(s: MacroLoop, idle_ns: u128) -> (MacroLoop, LoopAction) {
    s.transition(LoopEvent::NoShake { idle_ns }).0.transition(
        LoopEvent::HookChecked { hooked: false, rod_known: true },
    )
}

/// The loop after `n` fishless rounds, from `s`.
pub open spec fn after_fishless_rounds(s: MacroLoop, idle_ns: u128, n: nat) -> MacroLoop
    decreases n,
{
    if n == 0 {
        s
    } else {
        fishless_round(after_fishless_rounds(s, idle_ns, (n - 1) as nat), idle_ns).0
    }
}

/// From no miss, each fishless round within the time limit counts one miss, and
/// the eleventh in a row reselects the rod and starts counting again.
pub proof fn lemma_fishless_rounds_reselect(s: MacroLoop, idle_ns: u128, n: nat)
    requires
        s.tries_fishing == 0,
        idle_ns <= SHAKE_TIMEOUT_NANOS,
        n <= MAX_TRIES_FISHING,
    ensures
        after_fishless_rounds(s, idle_ns, n) == (MacroLoop { tries_fishing: n as u32, ..s }),
        fishless_round(after_fishless_rounds(s, idle_ns, n), idle_ns).1 == (if n
            < MAX_TRIES_FISHING {
            LoopAction::Continue
        } else {
            LoopAction::ReselectRod
        }),
        n == MAX_TRIES_FISHING ==> fishless_round(after_fishless_rounds(s, idle_ns, n), idle_ns).0
            == s,
    decreases n,
{
    if n > 0 {
        lemma_fishless_rounds_reselect(s, idle_ns, (n - 1) as nat);
    }
}

/// The loop after `n` fishless hook checks in a row, from `s`.
pub open spec fn after_misses(s: MacroLoop, n: nat) -> MacroLoop
    decreases n,
{
    if n == 0 {
        s
    } else {
        after_misses(s, (n - 1) as nat).transition(
            LoopEvent::HookChecked { hooked: false, rod_known: true },
        ).0
    }
}

/// From no miss, the first ten misses in a row only count, and the eleventh
/// reselects the rod and starts counting again.
pub proof fn lemma_reselect_after_eleven_misses(s: MacroLoop, n: nat)
    requires
        s.tries_fishing == 0,
        n <= MAX_TRIES_FISHING,
    ensures
        after_misses(s, n) == (MacroLoop { tries_fishing: n as u32, ..s }),
        after_misses(s, n).transition(LoopEvent::HookChecked { hooked: false, rod_known: true }).1
            == (if n < MAX_TRIES_FISHING {
            LoopAction::Continue
        } else {
            LoopAction::ReselectRod
        }),
    decreases n,
{
    if n > 0 {
        lemma_reselect_after_eleven_misses(s, (n - 1) as nat);
    }
}

/// What one round of the fishing mini-game does with what it sees.
#[derive(Clone, Copy, Debug, PartialEq, Eq, Structural)]
pub enum FishingPhase {
    /// The bite is over: release the button, count the fish, stop.
    BiteOver,
    /// Only shaking is wanted: look again.
    Skip,
    /// Follow the fish at this x coordinate.
    Track(i32),
}

/// The phase of a round: the bite goes on while the hook reports a fish and the
/// fish was found on screen.
pub open spec fn fishing_phase_spec(fish_on: bool, fish_x: Option<i32>, shake_only: bool) -> FishingPhase {
    if fish_on && fish_x is Some {
        if shake_only {
            FishingPhase::Skip
        } else {
            FishingPhase::Track(fish_x->0)
        }
    } else {
        FishingPhase::BiteOver
    }
}

/// Decides the phase of a round of the fishing mini-game.
pub fn fishing_phase(fish_on: bool, fish_x: Option<i32>, shake_only: bool) -> (phase: FishingPhase)
    ensures
        phase == fishing_phase_spec(fish_on, fish_x, shake_only),
{
    match fish_x {
        Some(x) if fish_on => {
            if shake_only {
                FishingPhase::Skip
            } else {
                FishingPhase::Track(x)
            }
        },
        _ => FishingPhase::BiteOver,
    }
}

/// How the line is handled for a fish at a given place of the mini-game bar.
#[derive(Clone, Copy, Debug, PartialEq, Eq, Structural)]
pub enum LineControl {
    /// The fish is at the far left: release the button.
    Slack,
    /// The fish is at the far right: hold the button.
    Tighten,
    /// Follow the fish with the hook.
    Follow,
}

/// The fish at `fish_pct` percent of the bar is at an edge when it is closer to
/// it than `edge_pct` percent.
pub open spec fn line_control_spec(fish_pct: i32, edge_pct: i32) -> LineControl {
    if fish_pct < edge_pct {
        LineControl::Slack
    } else if fish_pct > 100 - edge_pct {
        LineControl::Tighten
    } else {
        LineControl::Follow
    }
}

/// Decides how to handle the line for a fish at `fish_pct` percent of the bar,
/// the edges being `edge_pct` percent wide.
pub fn line_control(fish_pct: i32, edge_pct: i32) -> (c: LineControl)
    requires
        fish_pct >= edge_pct ==> 100 - edge_pct <= i32::MAX,
    ensures
        c == line_control_spec(fish_pct, edge_pct),
{
    if fish_pct < edge_pct {
        LineControl::Slack
    } else if fish_pct > 100 - edge_pct {
        LineControl::Tighten
    } else {
        LineControl::Follow
    }
}

/// Between the edges the line is followed: for edges under half the bar, a fish
/// in `[edge_pct, 100 - edge_pct]` is followed, and only there.
pub proof fn lemma_follow_between_edges(fish_pct: i32, edge_pct: i32)
    requires
        0 <= edge_pct <= 50,
    ensures
        (line_control_spec(fish_pct, edge_pct) == LineControl::Follow) == (edge_pct <= fish_pct
            <= 100 - edge_pct),
{
}

/// State of the fishing mini-game: where the hook was at the last followed round.
#[derive(Clone, Copy, Debug, PartialEq, Eq, Structural)]
pub struct FishingLoop {
    pub previous_hook_x: i32,
}

/// How far the fish is from the hook, and how far the hook moved since the last
/// followed round.
#[derive(Clone, Copy, Debug, PartialEq, Eq, Structural)]
pub struct HookMotion {
    pub range: i32,
    pub speed: i32,
}

impl FishingLoop {
    /// No round followed yet: the hook is taken to have been at 0.
    pub fn new() -> (s: FishingLoop)
        ensures
            s.previous_hook_x == 0,
    {
        FishingLoop { previous_hook_x: 0 }
    }

    /// Follows the fish at `fish_x` with the hook at `hook_x`: gives the distance
    /// from hook to fish and the hook's move since the last followed round, and
    /// remembers the hook's place.
    pub fn follow(&mut self, fish_x: i32, hook_x: i32) -> (m: HookMotion)
        requires
            i32::MIN <= fish_x - hook_x <= i32::MAX,
            i32::MIN <= hook_x - old(self).previous_hook_x <= i32::MAX,
        ensures
            m.range == fish_x - hook_x,
            m.speed == hook_x - old(self).previous_hook_x,
            final(self).previous_hook_x == hook_x,
    {
        let m = HookMotion { range: fish_x - hook_x, speed: hook_x - self.previous_hook_x };
        self.previous_hook_x = hook_x;
        m
    }
}

/// The number key (1 to 9) that selects the hotbar slot at `position`; `None`
/// for any other position.
pub fn hotbar_key(position: u16) -> (key: Option<u8>)
    ensures
        key == (if 1 <= position <= 9 {
            Some(position as u8)
        } else {
            None::<u8>
        }),
{
    if 1 <= position && position <= 9 {
        Some(position as u8)
    } else {
        None
    }
}

/// `v` read as a signed 32-bit integer (two's complement).
pub open spec fn signed_u32(v: u32) -> int {
    if v <= i32::MAX {
        v as int
    } else {
        v - 0x1_0000_0000
    }
}

/// `a / b` rounded toward zero.
pub open spec fn div_toward_zero(a: int, b: int) -> int {
    if a >= 0 {
        a / b
    } else {
        -((-a) / b)
    }
}

fn u32_as_signed_div(v: u32, d: i32) -> (q: i32)
    requires
        d >= 2,
    ensures
        q == div_toward_zero(signed_u32(v), d as int),
{
    if v <= 0x7fff_ffff {
        (v as i32) / d
    } else {
        let magnitude: u32 = ((0xffff_ffffu32 - v) + 1);
        assert(magnitude <= 0x8000_0000);
        let m: u32 = magnitude / (d as u32);
        assert(m <= 0x4000_0000) by (nonlinear_arith)
            requires
                magnitude <= 0x8000_0000,
                d >= 2,
                m == magnitude / (d as u32),
        ;
        -(m as i32)
    }
}

/// How the camera is set up at start: the mouse goes to `(safe_x, safe_y)`, then
/// `drags` times the view is dragged down by `drag_dy` pixels with the right
/// button and the mouse moved back, resting `pause_ms` between moves; then the
/// wheel zooms in by `zoom_in` notches and out by `zoom_out`.
#[derive(Clone, Copy, Debug, PartialEq, Eq, Structural)]
pub struct ViewpointPlan {
    pub safe_x: i32,
    pub safe_y: i32,
    pub drag_dy: i32,
    pub drags: u32,
    pub pause_ms: u64,
    pub zoom_in: i32,
    pub zoom_out: i32,
}

/// The camera set-up for a screen of `dims` on `platform`: the mouse goes to the
/// middle of the screen, a fifth of its width from the top; each drag is a third
/// of the screen's height; the zoom goes all the way in, then one notch out.
pub open spec fn viewpoint_plan_spec(dims: Dimensions, platform: Platform) -> ViewpointPlan {
    ViewpointPlan {
        safe_x: div_toward_zero(signed_u32(dims.width), 2) as i32,
        safe_y: (dims.width * 20 / 100) as i32,
        drag_dy: div_toward_zero(signed_u32(dims.height), 3) as i32,
        drags: 3,
        pause_ms: 100,
        zoom_in: -max_scroll_spec(platform) as i32,
        zoom_out: 1,
    }
}

/// Plans the camera set-up (see [`viewpoint_plan_spec`]).
pub fn viewpoint_plan(dims: Dimensions, platform: Platform) -> (plan: ViewpointPlan)
    requires
        dims.width * 20 <= u32::MAX,
    ensures
        plan == viewpoint_plan_spec(dims, platform),
{
    let padding: u32 = dims.width * 20 / 100;
    ViewpointPlan {
        safe_x: u32_as_signed_div(dims.width, 2),
        safe_y: padding as i32,
        drag_dy: u32_as_signed_div(dims.height, 3),
        drags: 3,
        pause_ms: 100,
        zoom_in: -max_scroll(platform),
        zoom_out: 1,
    }
}

/// How the helper waits before a shake screenshot: on Linux it rests a third of
/// `lag_ms`, moves the mouse out of the way and rests two thirds; elsewhere it
/// rests `lag_ms` without moving the mouse.
#[derive(Clone, Copy, Debug, PartialEq, Eq, Structural)]
pub struct ShakeWait {
    pub first_ms: u64,
    pub move_mouse_away: bool,
    pub second_ms: u64,
}

pub open spec fn shake_wait_spec(platform: Platform, lag_ms: u32) -> ShakeWait {
    match platform {
        Platform::Linux => ShakeWait {
            first_ms: (lag_ms / 3) as u64,
            move_mouse_away: true,
            second_ms: (lag_ms * 2 / 3) as u64,
        },
        Platform::Windows => ShakeWait { first_ms: lag_ms as u64, move_mouse_away: false, second_ms: 0 },
    }
}

/// Plans the wait before a shake screenshot (see [`shake_wait_spec`]).
pub fn shake_wait(platform: Platform, lag_ms: u32) -> (w: ShakeWait)
    requires
        platform == Platform::Linux ==> lag_ms * 2 <= u32::MAX,
    ensures
        w == shake_wait_spec(platform, lag_ms),
{
    match platform {
        Platform::Linux => ShakeWait {
            first_ms: (lag_ms / 3) as u64,
            move_mouse_away: true,
            second_ms: (lag_ms * 2 / 3) as u64,
        },
        Platform::Windows => ShakeWait { first_ms: lag_ms as u64, move_mouse_away: false, second_ms: 0 },
    }
}

} // verus!
