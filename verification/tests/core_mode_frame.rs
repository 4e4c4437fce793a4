use bedlam_core::frame::FrameState;
use bedlam_core::input::InputFrame;
use bedlam_core::mode::{ModeConfig, PuristToggle, ToggleArm};

#[test]
fn toggle_ids_round_trip_unique_and_stable() {
    let mut seen: Vec<&str> = Vec::new();
    for axis in PuristToggle::all() {
        let id = axis.id();
        assert!(!id.is_empty());
        assert!(
            !id.chars().any(char::is_whitespace),
            "id {id:?} must be whitespace-free"
        );
        assert!(!seen.contains(&id), "duplicate toggle id {id:?}");
        seen.push(id);
        assert_eq!(PuristToggle::from_id(id), Some(axis));
    }
    assert_eq!(PuristToggle::from_id("not-a-toggle"), None);
    assert_eq!(PuristToggle::from_id(""), None);
    assert_eq!(PuristToggle::TimingLock.id(), "timing-lock");
    assert_eq!(PuristToggle::ControlScheme.id(), "control-scheme");
}

#[test]
fn default_is_modern_and_classic_preset_is_purist() {
    assert_eq!(ModeConfig::default(), ModeConfig::modern());
    for axis in PuristToggle::all() {
        assert_eq!(ModeConfig::default().arm(axis), ToggleArm::Modern);
        assert!(!ModeConfig::default().is_purist(axis));
        assert_eq!(ModeConfig::classic().arm(axis), ToggleArm::Classic);
        assert!(ModeConfig::classic().is_purist(axis));
    }
    assert_ne!(ModeConfig::modern(), ModeConfig::classic());
}

#[test]
fn with_overrides_one_axis_and_never_mutates_the_source() {
    for axis in PuristToggle::all() {
        let base = ModeConfig::default();
        let purist = base.with(axis, ToggleArm::Classic);
        assert!(purist.is_purist(axis));
        for other in PuristToggle::all() {
            if other != axis {
                assert!(!purist.is_purist(other), "only {axis:?} moves");
            }
        }
        assert_eq!(base, ModeConfig::modern());
        let reverted = purist.with(axis, ToggleArm::Modern);
        assert_eq!(reverted, ModeConfig::modern());
        let one_off = ModeConfig::classic().with(axis, ToggleArm::Modern);
        for other in PuristToggle::all() {
            assert_eq!(
                one_off.arm(other),
                if other == axis {
                    ToggleArm::Modern
                } else {
                    ToggleArm::Classic
                }
            );
        }
    }
}

#[test]
fn arm_queries_agree_for_both_arms_of_every_axis() {
    for axis in PuristToggle::all() {
        for arm in [ToggleArm::Modern, ToggleArm::Classic] {
            let config = ModeConfig::default().with(axis, arm);
            assert_eq!(config.arm(axis), arm);
            assert_eq!(config.is_purist(axis), arm.is_purist());
        }
    }
}

#[test]
fn new_is_zeroed() {
    let f = FrameState::new();
    assert_eq!(f, FrameState::default());
    assert_eq!((f.cursor_x, f.cursor_y), (0, 0));
    assert_eq!(f.latch_primary, 0);
    assert_eq!(f.volume, 0);
    assert_eq!(f.cooldown_display, 0);
}

#[test]
fn cursor_integrates_then_clamps() {
    let mut f = FrameState::new();
    let input = InputFrame {
        mouse_dx: 100,
        mouse_dy: -100,
        ..InputFrame::default()
    };
    for _ in 0..10 {
        f.advance_frame(4, &input);
    }
    assert_eq!((f.cursor_x, f.cursor_y), (639, 0));
}

#[test]
fn latch_pulses_on_press_edge_only() {
    let mut f = FrameState::new();
    let press = InputFrame {
        buttons: 1,
        ..InputFrame::default()
    };
    let release = InputFrame::default();
    f.advance_frame(4, &release);
    assert_eq!(f.latch_primary, 0, "idle");
    f.advance_frame(4, &press);
    assert_eq!(f.latch_primary, 1, "press edge");
    f.advance_frame(4, &press);
    assert_eq!(f.latch_primary, 0, "held: no new edge");
    f.advance_frame(4, &release);
    assert_eq!(f.latch_primary, 0, "released");
    f.advance_frame(4, &press);
    assert_eq!(f.latch_primary, 1, "re-press edges again");
}

#[test]
fn volume_clamps_into_0_100() {
    let mut f = FrameState::new();
    f.volume = 500;
    f.advance_frame(0, &InputFrame::default());
    assert_eq!(f.volume, 100);
    f.volume = -3;
    f.advance_frame(0, &InputFrame::default());
    assert_eq!(f.volume, 0);
}

#[test]
fn cooldown_decrements_in_whole_ticks_and_saturates() {
    let mut f = FrameState::new();
    f.cooldown_display = 10;
    f.advance_frame(3, &InputFrame::default());
    assert_eq!(f.cooldown_display, 10);
    f.advance_frame(4, &InputFrame::default());
    assert_eq!(f.cooldown_display, 9);
    f.advance_frame(8, &InputFrame::default());
    assert_eq!(f.cooldown_display, 7);
    f.cooldown_display = 1;
    f.advance_frame(16, &InputFrame::default());
    assert_eq!(f.cooldown_display, 0, "saturates, never negative");
}

#[test]
fn cursor_clamps_at_the_low_corner_and_integrates_inside() {
    let mut f = FrameState::new();
    let input = InputFrame {
        mouse_dx: 7,
        mouse_dy: 5,
        ..InputFrame::default()
    };
    f.advance_frame(4, &input);
    assert_eq!((f.cursor_x, f.cursor_y), (7, 5));
    let back = InputFrame {
        mouse_dx: -20,
        mouse_dy: 500,
        ..InputFrame::default()
    };
    f.advance_frame(4, &back);
    assert_eq!((f.cursor_x, f.cursor_y), (0, 479));
}
