use kbd_rgbd::animation::lerp_ratio;
use kbd_rgbd::{build_frames, Color, ColorPoint, ColorProfile};

fn point(r: u8, g: u8, b: u8, transition: &str, time: u64) -> ColorPoint {
    ColorPoint {
        color: Color { r, g, b },
        transition: Some(transition.to_string()),
        transition_time: Some(time),
    }
}

#[test]
fn test_single_profile() {
    let profile = ColorProfile::Single(Color { r: 255, g: 100, b: 0 });
    match &profile {
        ColorProfile::Single(c) => {
            assert_eq!(c.r, 255);
            assert_eq!(c.g, 100);
            assert_eq!(c.b, 0);
        }
        _ => panic!("expected Single"),
    }
    let frames = build_frames(&profile);
    assert_eq!(frames.len(), 1);
    assert_eq!(frames[0].color.r, 255);
    assert_eq!(frames[0].duration_ms, 1000);
}

#[test]
fn test_none_profile() {
    let profile = ColorProfile::Off;
    let frames = build_frames(&profile);
    assert_eq!(frames.len(), 1);
    assert_eq!(frames[0].color.r, 0);
    assert_eq!(frames[0].color.g, 0);
    assert_eq!(frames[0].color.b, 0);
}

#[test]
fn test_multiple_profile_has_frames() {
    let profile = ColorProfile::Multiple(vec![
        point(255, 0, 0, "Linear", 4000),
        point(0, 255, 0, "Linear", 4000),
    ]);
    let frames = build_frames(&profile);
    assert!(frames.len() >= 100);
}

#[test]
fn test_multiple_none_transition() {
    let profile = ColorProfile::Multiple(vec![
        point(255, 0, 0, "None", 500),
        point(0, 255, 0, "None", 500),
    ]);
    let frames = build_frames(&profile);
    assert_eq!(frames.len(), 2);
    assert_eq!(frames[0].duration_ms, 500);
    assert_eq!(frames[1].duration_ms, 500);
}

#[test]
fn test_end_to_end_profile_loading() {
    // The selector and animation of the original end-to-end run, written as values.
    let color_profile = ColorProfile::Multiple(vec![
        point(255, 0, 0, "Linear", 4000),
        point(0, 255, 0, "Linear", 4000),
    ]);
    let frames = build_frames(&color_profile);
    assert!(!frames.is_empty(), "should generate frames");
    assert!(frames.len() >= 100, "rainbow should produce many frames");
    for frame in &frames {
        assert!(frame.duration_ms > 0);
    }
    assert_eq!(frames[0].color.r, 255);
    assert_eq!(frames[0].color.g, 0);
    let has_green = frames.iter().any(|f| f.color.r == 0 && f.color.g == 255);
    assert!(has_green, "should reach green at some point");

    let single_profile = ColorProfile::Single(Color { r: 255, g: 0, b: 0 });
    let single_frames = build_frames(&single_profile);
    assert_eq!(single_frames.len(), 1);
    assert_eq!(single_frames[0].color.r, 255);

    let none_profile = ColorProfile::Off;
    let none_frames = build_frames(&none_profile);
    assert_eq!(none_frames.len(), 1);
    assert_eq!(none_frames[0].color.r, 0);
}

#[test]
fn test_short_transition_steps() {
    let profile = ColorProfile::Multiple(vec![
        point(255, 0, 0, "Linear", 80),
        point(0, 255, 0, "Linear", 80),
    ]);
    let frames = build_frames(&profile);
    assert_eq!(frames.len(), 4);
    assert_eq!(frames[0].color.r, 255);
    assert_eq!(frames[0].color.g, 0);
    assert_eq!(frames[1].color.r, 0);
    assert_eq!(frames[1].color.g, 255);
}

#[test]
fn lerp_ratio_end_points() {
    assert_eq!(lerp_ratio(0, 255, 0, 1), 0);
    assert_eq!(lerp_ratio(0, 255, 1, 1), 255);
    assert_eq!(lerp_ratio(200, 10, 0, 7), 200);
    assert_eq!(lerp_ratio(200, 10, 7, 7), 10);
}

#[test]
fn lerp_ratio_rounds_halves_up() {
    assert_eq!(lerp_ratio(0, 255, 1, 2), 128);
    assert_eq!(lerp_ratio(100, 200, 1, 2), 150);
    assert_eq!(lerp_ratio(0, 3, 1, 2), 2);
    assert_eq!(lerp_ratio(3, 0, 1, 2), 2);
    assert_eq!(lerp_ratio(0, 255, 1, 3), 85);
    assert_eq!(lerp_ratio(0, 10, 1, 3), 3);
    assert_eq!(lerp_ratio(0, 10, 2, 3), 7);
}

#[test]
fn linear_segment_has_steps_plus_one_frames() {
    // 4000 ms at 80 ms per step: 50 steps, 51 frames per transition.
    let profile = ColorProfile::Multiple(vec![
        point(255, 0, 0, "Linear", 4000),
        point(0, 255, 0, "Linear", 4000),
    ]);
    let frames = build_frames(&profile);
    assert_eq!(frames.len(), 102);
    assert_eq!(frames[50].color, Color { r: 0, g: 255, b: 0 });
    assert_eq!(frames[51].color, Color { r: 0, g: 255, b: 0 });
    assert_eq!(frames[101].color, Color { r: 255, g: 0, b: 0 });
    assert_eq!(frames[25].color, Color { r: 128, g: 128, b: 0 });
    assert!(frames.iter().all(|f| f.duration_ms == 80));
}

#[test]
fn missing_transition_fades_for_a_second() {
    let profile = ColorProfile::Multiple(vec![ColorPoint {
        color: Color { r: 10, g: 20, b: 30 },
        transition: None,
        transition_time: None,
    }]);
    let frames = build_frames(&profile);
    // 1000 ms: 12 steps, 13 frames, all of the single point's color.
    assert_eq!(frames.len(), 13);
    assert!(frames.iter().all(|f| f.color == Color { r: 10, g: 20, b: 30 }));
}

#[test]
fn zero_time_transition_holds_for_good() {
    let profile = ColorProfile::Multiple(vec![
        point(1, 2, 3, "None", 0),
        point(4, 5, 6, "None", 7),
    ]);
    let frames = build_frames(&profile);
    assert_eq!(frames.len(), 2);
    assert_eq!(frames[0].color, Color { r: 4, g: 5, b: 6 });
    assert_eq!(frames[0].duration_ms, 7);
    assert_eq!(frames[1].color, Color { r: 1, g: 2, b: 3 });
    assert_eq!(frames[1].duration_ms, 0);
}

#[test]
fn zero_time_linear_is_a_snap() {
    let linear = build_frames(&ColorProfile::Multiple(vec![
        point(10, 0, 0, "Linear", 500),
        point(0, 20, 0, "Linear", 0),
    ]));
    let snap = build_frames(&ColorProfile::Multiple(vec![
        point(10, 0, 0, "Linear", 500),
        point(0, 20, 0, "None", 0),
    ]));
    assert_eq!(linear, snap);
    assert_eq!(linear[0].color, Color { r: 0, g: 20, b: 0 });
    assert_eq!(linear[0].duration_ms, 0);
}

#[test]
fn snap_points_hold_their_own_time() {
    let profile = ColorProfile::Multiple(vec![
        point(255, 0, 0, "None", 100),
        point(0, 255, 0, "None", 900),
    ]);
    let frames = build_frames(&profile);
    assert_eq!(frames.len(), 2);
    let red = frames.iter().find(|f| f.color == Color { r: 255, g: 0, b: 0 }).unwrap();
    let green = frames.iter().find(|f| f.color == Color { r: 0, g: 255, b: 0 }).unwrap();
    assert_eq!(red.duration_ms, 100);
    assert_eq!(green.duration_ms, 900);
}

#[test]
fn fade_uses_the_time_of_the_point_it_reaches() {
    let profile = ColorProfile::Multiple(vec![
        point(0, 0, 0, "Linear", 800),
        point(0, 0, 80, "Linear", 160),
    ]);
    let frames = build_frames(&profile);
    // Into the second point: 160 ms, 2 steps, 3 frames; back to the first: 800 ms,
    // 10 steps, 11 frames.
    assert_eq!(frames.len(), 14);
    assert_eq!(frames[0].color, Color { r: 0, g: 0, b: 0 });
    assert_eq!(frames[1].color, Color { r: 0, g: 0, b: 40 });
    assert_eq!(frames[2].color, Color { r: 0, g: 0, b: 80 });
    assert_eq!(frames[3].color, Color { r: 0, g: 0, b: 80 });
    assert_eq!(frames[13].color, Color { r: 0, g: 0, b: 0 });
}

#[test]
fn empty_sequence_has_no_frames() {
    let frames = build_frames(&ColorProfile::Multiple(vec![]));
    assert!(frames.is_empty());
}

#[test]
fn other_transition_names_fade() {
    let profile = ColorProfile::Multiple(vec![
        point(0, 0, 0, "Smooth", 160),
        point(0, 0, 200, "none", 160),
    ]);
    let frames = build_frames(&profile);
    // Both transitions are linear: 2 steps, 3 frames each.
    assert_eq!(frames.len(), 6);
    assert_eq!(frames[1].color, Color { r: 0, g: 0, b: 100 });
}

#[test]
fn snap_cycle_preset_holds_each_color() {
    let colors = [(255, 0, 0), (0, 255, 0), (0, 0, 255), (255, 0, 255), (0, 255, 255), (255, 255, 0)];
    let points: Vec<ColorPoint> = colors.iter().map(|&(r, g, b)| point(r, g, b, "None", 500)).collect();
    let frames = build_frames(&ColorProfile::Multiple(points));
    assert_eq!(frames.len(), 6);
    for (i, f) in frames.iter().enumerate() {
        let (r, g, b) = colors[(i + 1) % 6];
        assert_eq!(f.color, Color { r, g, b });
        assert_eq!(f.duration_ms, 500);
    }
}

#[test]
fn strobe_preset_alternates() {
    let profile = ColorProfile::Multiple(vec![
        point(255, 255, 255, "None", 100),
        point(0, 0, 0, "None", 100),
    ]);
    let frames = build_frames(&profile);
    assert_eq!(frames.len(), 2);
    assert_eq!(frames[0].color, Color { r: 0, g: 0, b: 0 });
    assert_eq!(frames[1].color, Color { r: 255, g: 255, b: 255 });
}

#[test]
fn interpolation_stays_between_end_points() {
    for &(a, b) in &[(0u8, 255u8), (255, 0), (17, 200), (90, 90)] {
        for steps in 1..20u64 {
            for s in 0..=steps {
                let v = lerp_ratio(a, b, s, steps);
                assert!(a.min(b) <= v && v <= a.max(b));
            }
        }
    }
}

#[test]
fn fade_channels_move_monotonically() {
    let profile = ColorProfile::Multiple(vec![
        point(0, 200, 37, "Linear", 1000),
        point(255, 3, 37, "Linear", 1000),
    ]);
    let frames = build_frames(&profile);
    // Each transition: 12 steps, 13 frames.
    assert_eq!(frames.len(), 26);
    for w in frames[..13].windows(2) {
        assert!(w[0].color.r <= w[1].color.r);
        assert!(w[0].color.g >= w[1].color.g);
        assert_eq!(w[1].color.b, 37);
    }
}

#[test]
fn frame_count_is_one_per_snap_and_steps_plus_one_per_fade() {
    let profile = ColorProfile::Multiple(vec![
        point(1, 1, 1, "Linear", 0),
        point(2, 2, 2, "None", 300),
        point(3, 3, 3, "Linear", 240),
    ]);
    // Point 0 (0 ms): 1; point 1 (snap): 1; point 2 (240 ms, 3 steps): 4.
    assert_eq!(build_frames(&profile).len(), 6);
}
