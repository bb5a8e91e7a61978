use vstd::prelude::*;

use crate::text::str_eq;
use crate::types::{Color, ColorPoint, ColorProfile, Frame};

verus! {

/// Interval between two interpolated frames of a linear transition.
pub const FRAME_STEP_MS: u64 = 80;

/// The duration of a frame that is held for good: the animation stops on it.
pub const HOLD_FOREVER_MS: u64 = 0;

/// Transition time used when a color point gives none.
pub const DEFAULT_TRANSITION_MS: u64 = 1000;

/// How long the single frame of a static (or switched-off) profile is held.
pub const STATIC_FRAME_MS: u64 = 1000;

/// The channel value at step `s` of `steps` on the way from `a` to `b`:
/// `a + (b - a) * s / steps`, rounded to the nearest integer, halves away from zero.
pub open spec fn channel_at(a: u8, b: u8, s: int, steps: int) -> int {
    (2 * (a * (steps - s) + b * s) + steps) / (2 * steps)
}

/// Interpolates one color channel: the value at step `s` of `steps` between `a` and `b`.
///
/// The value is computed exactly. A floating-point `a + (b - a) * (s / steps)` can
/// land just below an exact half and round down where this rounds up, so the two
/// can differ by one at such halves (for instance 0 to 11 at step 15 of 22: 8 here).
pub fn lerp_ratio(a: u8, b: u8, s: u64, steps: u64) -> (v: u8)
    requires
        0 < steps,
        s <= steps,
    ensures
        v == channel_at(a, b, s as int, steps as int),
{
    let rest: u128 = (steps - s) as u128;
    proof {
        lemma_channel_bounds(a, b, s as int, steps as int);
        assert((a as u128) * rest <= 255 * steps && (b as u128) * (s as u128) <= 255 * steps)
            by (nonlinear_arith)
            requires
                rest == steps - s,
                a <= 255,
                b <= 255,
                s <= steps,
        ;
    }
    let num: u128 = (a as u128) * rest + (b as u128) * (s as u128);
    let q: u128 = (2 * num + (steps as u128)) / (2 * (steps as u128));
    q as u8
}

/// The interpolated channel lies between its two end values, and the end points are exact.
pub proof fn lemma_channel_bounds(a: u8, b: u8, s: int, steps: int)
    requires
        0 < steps,
        0 <= s <= steps,
    ensures
        (a <= b ==> a <= channel_at(a, b, s, steps) <= b),
        (b <= a ==> b <= channel_at(a, b, s, steps) <= a),
        channel_at(a, b, 0, steps) == a,
        channel_at(a, b, steps, steps) == b,
{
    let num = a * (steps - s) + b * s;
    let lo: int = if a <= b { a as int } else { b as int };
    let hi: int = if a <= b { b as int } else { a as int };
    assert(lo * steps <= num <= hi * steps) by (nonlinear_arith)
        requires
            num == a * (steps - s) + b * s,
            0 <= s <= steps,
            lo == (if a <= b { a as int } else { b as int }),
            hi == (if a <= b { b as int } else { a as int }),
    ;
    let d = 2 * steps;
    assert(lo * d <= 2 * num + steps < (hi + 1) * d) by (nonlinear_arith)
        requires
            lo * steps <= num <= hi * steps,
            d == 2 * steps,
            steps > 0,
    ;
    lemma_div_between(2 * num + steps, d, lo, hi);
    assert(2 * (a * (steps - 0) + b * 0) + steps == a * d + steps && a * d <= a * d + steps < (a
        + 1) * d) by (nonlinear_arith)
        requires
            d == 2 * steps,
            steps > 0,
    ;
    lemma_div_between(a * d + steps, d, a as int, a as int);
    assert(2 * (a * (steps - steps) + b * steps) + steps == b * d + steps && b * d <= b * d + steps
        < (b + 1) * d) by (nonlinear_arith)
        requires
            d == 2 * steps,
            steps > 0,
    ;
    lemma_div_between(b * d + steps, d, b as int, b as int);
}

/// Along a fade each channel moves monotonically: one step further never moves it
/// back towards where it started.
pub proof fn lemma_channel_monotone(a: u8, b: u8, s: int, steps: int)
    requires
        0 < steps,
        0 <= s < steps,
    ensures
        a <= b ==> channel_at(a, b, s, steps) <= channel_at(a, b, s + 1, steps),
        b <= a ==> channel_at(a, b, s + 1, steps) <= channel_at(a, b, s, steps),
{
    let n0 = a * (steps - s) + b * s;
    let n1 = a * (steps - (s + 1)) + b * (s + 1);
    assert(n1 == n0 + (b - a)) by (nonlinear_arith)
        requires
            n0 == a * (steps - s) + b * s,
            n1 == a * (steps - (s + 1)) + b * (s + 1),
    ;
    let d = 2 * steps;
    if a <= b {
        vstd::arithmetic::div_mod::lemma_div_is_ordered(2 * n0 + steps, 2 * n1 + steps, d);
    }
    if b <= a {
        vstd::arithmetic::div_mod::lemma_div_is_ordered(2 * n1 + steps, 2 * n0 + steps, d);
    }
}

proof fn lemma_div_between(x: int, d: int, lo: int, hi: int)
    requires
        d > 0,
        lo * d <= x < (hi + 1) * d,
    ensures
        lo <= x / d <= hi,
{
    assert(lo <= x / d <= hi) by (nonlinear_arith)
        requires
            d > 0,
            lo * d <= x < (hi + 1) * d,
    ;
}

/// A color point is reached by a linear fade unless its transition is `"None"`.
pub open spec fn is_linear(p: ColorPoint) -> bool {
    !(p.transition matches Some(t) && t@ == "None"@)
}

/// The transition time of a color point: 1000 ms when absent.
pub open spec fn transition_ms(p: ColorPoint) -> u64 {
    match p.transition_time {
        Some(t) => t,
        None => DEFAULT_TRANSITION_MS,
    }
}

/// Number of interpolation steps of a linear transition lasting `t_ms`: one per
/// 80 ms, at least one.
pub open spec fn step_count(t_ms: u64) -> u64 {
    let q = t_ms / FRAME_STEP_MS;
    if q < 1 { 1 } else { q }
}

/// The color at step `s` of `steps` on the way from `from` to `to`.
pub open spec fn color_at(from: Color, to: Color, s: int, steps: int) -> Color {
    Color {
        r: channel_at(from.r, to.r, s, steps) as u8,
        g: channel_at(from.g, to.g, s, steps) as u8,
        b: channel_at(from.b, to.b, s, steps) as u8,
    }
}

/// The frames of the transition from the color `from` to the point `to`, which
/// that point's own `transition` and `transition_time` describe:
/// - a transition of 0 ms, whatever its kind, snaps to `to` and holds it for good:
///   one frame of its color with duration 0;
/// - a linear transition of `n` steps gives the `n + 1` colors at steps `0..=n`,
///   from `from` to `to`, each held 80 ms;
/// - a `"None"` transition snaps to `to` and holds it for the transition time.
pub open spec fn segment_frames(from: Color, to: ColorPoint) -> Seq<Frame> {
    let t = transition_ms(to);
    if t == 0 {
        seq![Frame { color: to.color, duration_ms: HOLD_FOREVER_MS }]
    } else if is_linear(to) {
        let n = step_count(t);
        Seq::new(
            (n + 1) as nat,
            |s: int| Frame { color: color_at(from, to.color, s, n as int), duration_ms: FRAME_STEP_MS },
        )
    } else {
        seq![Frame { color: to.color, duration_ms: t }]
    }
}

/// The frames of the first `k` transitions of a cyclic color sequence: transition
/// `i` goes from point `i` to point `i + 1`, the last one back to the first, as
/// point `i + 1` prescribes.
pub open spec fn cycle_frames(points: Seq<ColorPoint>, k: nat) -> Seq<Frame>
    decreases k,
{
    if k == 0 {
        Seq::empty()
    } else {
        cycle_frames(points, (k - 1) as nat) + segment_frames(
            points[k - 1].color,
            points[(k % points.len()) as int],
        )
    }
}

/// The frames of a profile: off is one black frame held 1000 ms, a single color
/// one frame of that color held 1000 ms, and a color sequence the frames of all its
/// transitions in order.
pub open spec fn profile_frames(profile: ColorProfile) -> Seq<Frame> {
    match profile {
        ColorProfile::Off => seq![Frame { color: Color { r: 0, g: 0, b: 0 }, duration_ms: STATIC_FRAME_MS }],
        ColorProfile::Single(c) => seq![Frame { color: c, duration_ms: STATIC_FRAME_MS }],
        ColorProfile::Multiple(points) => cycle_frames(points@, points@.len()),
    }
}

/// Precomputes the animation frames of a profile.
pub fn build_frames(profile: &ColorProfile) -> (frames: Vec<Frame>)
    ensures
        frames@ == profile_frames(*profile),
{
    match profile {
        ColorProfile::Off => vec![Frame { color: Color { r: 0, g: 0, b: 0 }, duration_ms: STATIC_FRAME_MS }],
        ColorProfile::Single(c) => vec![Frame { color: Color { r: c.r, g: c.g, b: c.b }, duration_ms: STATIC_FRAME_MS }],
        ColorProfile::Multiple(points) => {
            let mut frames: Vec<Frame> = Vec::new();
            let n = points.len();
            let mut i: usize = 0;
            while i < n
                invariant
                    n == points@.len(),
                    i <= n,
                    frames@ == cycle_frames(points@, i as nat),
                decreases n - i,
            {
                let from = points[i].color;
                let next: usize = (i + 1) % n;
                push_segment(&mut frames, from, &points[next]);
                i += 1;
            }
            frames
        },
    }
}

/// Whether a transition name selects a linear fade.
fn fades_linearly(p: &ColorPoint) -> (res: bool)
    ensures
        res == is_linear(*p),
{
    match &p.transition {
        Some(t) => !str_eq(t.as_str(), "None"),
        None => true,
    }
}

/// Appends the frames of the transition from the color `from` to the point `to`.
fn push_segment(frames: &mut Vec<Frame>, from: Color, to: &ColorPoint)
    ensures
        final(frames)@ == old(frames)@ + segment_frames(from, *to),
{
    let linear = fades_linearly(to);
    let t_ms: u64 = match to.transition_time {
        Some(t) => t,
        None => DEFAULT_TRANSITION_MS,
    };
    if t_ms == 0 {
        frames.push(Frame { color: to.color, duration_ms: HOLD_FOREVER_MS });
    } else if linear {
        let q: u64 = t_ms / FRAME_STEP_MS;
        let steps: u64 = if q < 1 { 1 } else { q };
        let ghost start = frames@;
        let ghost seg = segment_frames(from, *to);
        let mut s: u64 = 0;
        while s <= steps
            invariant
                0 < steps <= u64::MAX / 80,
                s <= steps + 1,
                transition_ms(*to) > 0,
                steps == step_count(transition_ms(*to)),
                is_linear(*to),
                seg == segment_frames(from, *to),
                seg.len() == steps + 1,
                frames@ == start + seg.take(s as int),
            decreases steps + 1 - s,
        {
            let c = Color {
                r: lerp_ratio(from.r, to.color.r, s, steps),
                g: lerp_ratio(from.g, to.color.g, s, steps),
                b: lerp_ratio(from.b, to.color.b, s, steps),
            };
            frames.push(Frame { color: c, duration_ms: FRAME_STEP_MS });
            assert(seg.take(s + 1) =~= seg.take(s as int).push(seg[s as int]));
            s += 1;
        }
        assert(seg.take(s as int) =~= seg);
    } else {
        frames.push(Frame { color: to.color, duration_ms: t_ms });
    }
}

/// Whether no point of the profile has a transition time of 0 ms (a point that
/// ends the animation).
pub open spec fn never_holds(profile: ColorProfile) -> bool {
    match profile {
        ColorProfile::Multiple(points) => forall|j: int|
            0 <= j < points@.len() ==> transition_ms(#[trigger] points@[j]) > 0,
        _ => true,
    }
}

/// Only a point with a transition time of 0 ms yields a frame that is held for good:
/// in a profile without such points every frame is held for a positive time.
pub proof fn lemma_frame_durations_positive(profile: ColorProfile)
    requires
        never_holds(profile),
    ensures
        forall|i: int|
            0 <= i < profile_frames(profile).len() ==> #[trigger] profile_frames(profile)[i].duration_ms
                > 0,
{
    if let ColorProfile::Multiple(points) = profile {
        lemma_cycle_durations_positive(points@, points@.len());
    }
}

proof fn lemma_cycle_durations_positive(points: Seq<ColorPoint>, k: nat)
    requires
        k <= points.len(),
        forall|j: int| 0 <= j < points.len() ==> transition_ms(#[trigger] points[j]) > 0,
    ensures
        forall|i: int|
            0 <= i < cycle_frames(points, k).len() ==> #[trigger] cycle_frames(points, k)[i].duration_ms
                > 0,
    decreases k,
{
    if k > 0 {
        lemma_cycle_durations_positive(points, (k - 1) as nat);
        let prev = cycle_frames(points, (k - 1) as nat);
        let to = points[(k % points.len()) as int];
        assert(transition_ms(to) > 0);
        let seg = segment_frames(points[k - 1].color, to);
        assert forall|i: int| 0 <= i < cycle_frames(points, k).len() implies #[trigger] cycle_frames(
            points,
            k,
        )[i].duration_ms > 0 by {
            if i >= prev.len() {
                assert(cycle_frames(points, k)[i] == seg[i - prev.len()]);
            }
        }
    }
}

/// The frames of the first `j` transitions begin the frames of the first `k >= j`.
pub proof fn lemma_cycle_prefix(points: Seq<ColorPoint>, j: nat, k: nat)
    requires
        j <= k,
    ensures
        cycle_frames(points, j).len() <= cycle_frames(points, k).len(),
        forall|i: int|
            0 <= i < cycle_frames(points, j).len() ==> cycle_frames(points, k)[i] == #[trigger] cycle_frames(
                points,
                j,
            )[i],
    decreases k - j,
{
    if j < k {
        lemma_cycle_prefix(points, j, (k - 1) as nat);
    }
}

/// A transition reaches its point's color and is never empty. A linear one of
/// positive time yields at least two frames and starts at the color it leaves; a
/// `"None"` one of positive time snaps to its point's color and holds it for that
/// point's time.
pub proof fn lemma_segment_endpoints(from: Color, to: ColorPoint)
    ensures
        segment_frames(from, to).len() >= 1,
        segment_frames(from, to).last().color == to.color,
        (is_linear(to) && transition_ms(to) > 0) ==> segment_frames(from, to).len() >= 2
            && segment_frames(from, to)[0].color == from,
        (!is_linear(to) && transition_ms(to) > 0) ==> segment_frames(from, to) == seq![
            Frame { color: to.color, duration_ms: transition_ms(to) },
        ],
{
    if is_linear(to) && transition_ms(to) > 0 {
        let n = step_count(transition_ms(to)) as int;
        lemma_channel_bounds(from.r, to.color.r, 0, n);
        lemma_channel_bounds(from.g, to.color.g, 0, n);
        lemma_channel_bounds(from.b, to.color.b, 0, n);
    }
}

/// A transition of 0 ms is a snap to its point's color that holds for good, whatever
/// its kind: a linear one of 0 ms gives exactly what a `"None"` one of 0 ms gives.
pub proof fn lemma_zero_time_holds(from: Color, to: ColorPoint, other: Option<String>)
    requires
        transition_ms(to) == 0,
    ensures
        segment_frames(from, to) == seq![Frame { color: to.color, duration_ms: HOLD_FOREVER_MS }],
        segment_frames(from, to) == segment_frames(
            from,
            ColorPoint { color: to.color, transition: other, transition_time: to.transition_time },
        ),
{
}

/// A profile yields no frames exactly when it is a color sequence without points.
pub proof fn lemma_frames_empty_iff(profile: ColorProfile)
    ensures
        profile_frames(profile).len() == 0 <==> (profile matches ColorProfile::Multiple(points)
            && points@.len() == 0),
{
    if let ColorProfile::Multiple(points) = profile {
        let n = points@.len();
        if n > 0 {
            lemma_cycle_prefix(points@, 1, n);
            lemma_segment_endpoints(points@[0].color, points@[(1nat % n) as int]);
            reveal_with_fuel(cycle_frames, 2);
            assert(cycle_frames(points@, 1) =~= segment_frames(points@[0].color, points@[(1nat % n) as int]));
        }
    }
}

/// The animation of a color sequence closes its loop: its last frame shows the color
/// of the first point, and when the second point is reached by a linear fade of
/// positive time, its first frame shows the first point's color too.
pub proof fn lemma_cycle_closes(points: Seq<ColorPoint>)
    requires
        points.len() > 0,
    ensures
        cycle_frames(points, points.len()).len() > 0,
        cycle_frames(points, points.len()).last().color == points[0].color,
        ({
            let second = points[(1nat % points.len()) as int];
            (is_linear(second) && transition_ms(second) > 0) ==> cycle_frames(points, points.len())[0].color
                == points[0].color
        }),
{
    let n = points.len();
    let first = segment_frames(points[0].color, points[(1nat % n) as int]);
    let last = segment_frames(points[n - 1].color, points[(n % n) as int]);
    lemma_segment_endpoints(points[0].color, points[(1nat % n) as int]);
    lemma_segment_endpoints(points[n - 1].color, points[(n % n) as int]);
    assert(n % n == 0) by {
        vstd::arithmetic::div_mod::lemma_mod_self_0(n as int);
    }
    assert(cycle_frames(points, 1) =~= first) by {
        reveal_with_fuel(cycle_frames, 2);
    }
    lemma_cycle_prefix(points, 1, n);
    let all = cycle_frames(points, n);
    assert(all == cycle_frames(points, (n - 1) as nat) + last);
    assert(all.last() == last.last());
}

/// The number of frames of the transition that reaches point `to`: one for a snap
/// (a `"None"` transition, or any transition of 0 ms), and the number of steps plus
/// one for a linear fade.
pub open spec fn segment_len(to: ColorPoint) -> nat {
    let t = transition_ms(to);
    if t == 0 || !is_linear(to) {
        1
    } else {
        (step_count(t) + 1) as nat
    }
}

/// The sum of [`segment_len`] over the first `k` points.
pub open spec fn points_len(points: Seq<ColorPoint>, k: nat) -> nat
    decreases k,
{
    if k == 0 {
        0
    } else {
        points_len(points, (k - 1) as nat) + segment_len(points[k - 1])
    }
}

proof fn lemma_segment_len(from: Color, to: ColorPoint)
    ensures
        segment_frames(from, to).len() == segment_len(to),
{
}

proof fn lemma_cycle_len_prefix(points: Seq<ColorPoint>, k: nat)
    requires
        k < points.len(),
    ensures
        cycle_frames(points, k).len() + segment_len(points[0]) == points_len(points, k + 1),
    decreases k,
{
    if k == 0 {
        assert(points_len(points, 0) == 0);
    } else {
        lemma_cycle_len_prefix(points, (k - 1) as nat);
        vstd::arithmetic::div_mod::lemma_small_mod(k, points.len());
        lemma_segment_len(points[k - 1].color, points[k as int]);
    }
}

/// A color sequence yields, for each of its points, the frames of the transition that
/// reaches it: one frame for a snap or a 0 ms transition, steps plus one for a fade.
pub proof fn lemma_frame_count(points: Seq<ColorPoint>)
    ensures
        cycle_frames(points, points.len()).len() == points_len(points, points.len()),
{
    let n = points.len();
    if n > 0 {
        lemma_cycle_len_prefix(points, (n - 1) as nat);
        vstd::arithmetic::div_mod::lemma_mod_self_0(n as int);
        lemma_segment_len(points[n - 1].color, points[(n % n) as int]);
    }
}

/// A single-color profile shows exactly that color, all three channels unchanged, in
/// one frame held 1000 ms; the off profile shows black in one frame held 1000 ms.
pub proof fn lemma_static_profiles(c: Color)
    ensures
        profile_frames(ColorProfile::Single(c)).len() == 1,
        profile_frames(ColorProfile::Single(c))[0].color.r == c.r,
        profile_frames(ColorProfile::Single(c))[0].color.g == c.g,
        profile_frames(ColorProfile::Single(c))[0].color.b == c.b,
        profile_frames(ColorProfile::Single(c))[0].duration_ms == 1000,
        profile_frames(ColorProfile::Off).len() == 1,
        profile_frames(ColorProfile::Off)[0].color == (Color { r: 0, g: 0, b: 0 }),
        profile_frames(ColorProfile::Off)[0].duration_ms == 1000,
{
}

} // verus!
