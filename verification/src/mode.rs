//! The mode seam: ONE immutable [`ModeConfig`] chosen at construction.
//!
//! - Mode is one immutable value: the type has NO `&mut self` method and
//!   no public field — the only way to a different mode is a different
//!   `ModeConfig`.
//! - Default = modern: every axis on the modern arm.
//! - Classic = a small purist toggle set over the feel-contested axes:
//!   [`PuristToggle::TimingLock`] and [`PuristToggle::ControlScheme`].
//! - Presentation options (window mode, vsync, resolution, refresh rate)
//!   are never mode toggles.

use vstd::prelude::*;

verus! {

broadcast use {vstd::string::axiom_spec_iter, vstd::string::next_postcondition};

/// One arm of a purist-toggle axis: the modern arm (the default) or the
/// classic arm (the purist preservation of original behavior).
#[derive(Debug, Clone, Copy, PartialEq, Eq, Hash, Default)]
pub enum ToggleArm {
    /// The modern arm: the fix / new behavior. Default everywhere.
    #[default]
    Modern,
    /// The classic arm: purist preservation of the original behavior.
    Classic,
}

impl ToggleArm {
    /// `true` iff this is the classic (purist) arm.
    pub fn is_purist(self) -> (r: bool)
        ensures
            r == (self is Classic),
    {
        match self {
            ToggleArm::Classic => true,
            ToggleArm::Modern => false,
        }
    }
}

/// A purist-toggle axis: one feel-contested classic/modern choice.
#[derive(Debug, Clone, Copy, PartialEq, Eq, Hash)]
pub enum PuristToggle {
    /// The timing-lock axis: classic = frame-locked pacing; modern = the
    /// time-based accumulator. Pacing policy only.
    TimingLock,
    /// The control-scheme axis: classic = the original scheme; modern =
    /// remappable controls.
    ControlScheme,
}

/// The stable id of an axis.
pub open spec fn toggle_id(t: PuristToggle) -> Seq<char> {
    match t {
        PuristToggle::TimingLock => "timing-lock"@,
        PuristToggle::ControlScheme => "control-scheme"@,
    }
}

/// The axis whose id is `id`, if any.
pub open spec fn toggle_from_id(id: Seq<char>) -> Option<PuristToggle> {
    if id == "timing-lock"@ {
        Some(PuristToggle::TimingLock)
    } else if id == "control-scheme"@ {
        Some(PuristToggle::ControlScheme)
    } else {
        None
    }
}

/// Whether the characters of `s` are exactly `expect`.
fn str_is(s: &str, expect: &[char]) -> (r: bool)
    ensures
        r == (s@ == expect@),
{
    let mut it = s.chars();
    let mut i: usize = 0;
    while i < expect.len()
        invariant
            i <= expect@.len(),
            vstd::std_specs::iter::IteratorSpec::remaining(&it) == s@.skip(i as int),
            s@.len() >= i,
            s@.take(i as int) == expect@.take(i as int),
        decreases expect@.len() - i,
    {
        match it.next() {
            Some(c) => {
                if c != expect[i] {
                    assert(s@[i as int] != expect@[i as int]);
                    return false;
                }
                assert(s@.take(i + 1) =~= s@.take(i as int).push(c));
                assert(expect@.take(i + 1) =~= expect@.take(i as int).push(expect@[i as int]));
                assert(s@.skip(i + 1) =~= s@.skip(i as int).drop_first());
            },
            None => {
                assert(s@.len() == i);
                return false;
            },
        }
        i = i + 1;
    }
    assert(expect@.take(i as int) =~= expect@);
    match it.next() {
        Some(_) => {
            assert(s@.len() > expect@.len());
            false
        },
        None => {
            assert(s@ =~= s@.take(i as int));
            true
        },
    }
}

impl PuristToggle {
    /// Every axis of the current toggle set, in declaration order.
    pub fn all() -> (a: [PuristToggle; 2])
        ensures
            a@ == seq![PuristToggle::TimingLock, PuristToggle::ControlScheme],
    {
        let a = [PuristToggle::TimingLock, PuristToggle::ControlScheme];
        assert(a@ =~= seq![PuristToggle::TimingLock, PuristToggle::ControlScheme]);
        a
    }

    /// The stable toggle id: non-empty, whitespace-free, unique across the
    /// set.
    pub fn id(self) -> (s: &'static str)
        ensures
            s@ == toggle_id(self),
    {
        match self {
            PuristToggle::TimingLock => "timing-lock",
            PuristToggle::ControlScheme => "control-scheme",
        }
    }

    /// Parse a toggle id (the inverse of [`PuristToggle::id`]); unknown ids
    /// return `None`.
    pub fn from_id(id: &str) -> (t: Option<PuristToggle>)
        ensures
            t == toggle_from_id(id@),
    {
        let timing = [
            't', 'i', 'm', 'i', 'n', 'g', '-', 'l', 'o', 'c', 'k',
        ];
        let control = [
            'c', 'o', 'n', 't', 'r', 'o', 'l', '-', 's', 'c', 'h', 'e', 'm', 'e',
        ];
        proof {
            reveal_strlit("timing-lock");
            reveal_strlit("control-scheme");
            assert(timing@ =~= "timing-lock"@);
            assert(control@ =~= "control-scheme"@);
        }
        if str_is(id, &timing) {
            Some(PuristToggle::TimingLock)
        } else if str_is(id, &control) {
            Some(PuristToggle::ControlScheme)
        } else {
            None
        }
    }
}

/// The toggle ids round-trip through `from_id`, are non-empty and
/// distinct, and contain no whitespace.
pub proof fn lemma_toggle_ids(t: PuristToggle)
    ensures
        toggle_from_id(toggle_id(t)) == Some(t),
        toggle_id(t).len() > 0,
        toggle_id(PuristToggle::TimingLock) != toggle_id(PuristToggle::ControlScheme),
        forall|i: int|
            0 <= i < toggle_id(t).len() ==> #[trigger] toggle_id(t)[i] != ' ' && toggle_id(t)[i]
                != '\t' && toggle_id(t)[i] != '\n' && toggle_id(t)[i] != '\r',
{
    reveal_strlit("timing-lock");
    reveal_strlit("control-scheme");
    assert("timing-lock"@.len() != "control-scheme"@.len());
}

/// The mode a simulation runs under: ONE immutable value chosen at
/// construction, never mutated — a mode change is a new simulation.
#[derive(Debug, Clone, Copy, PartialEq, Eq, Hash)]
pub struct ModeConfig {
    timing_lock: ToggleArm,
    control_scheme: ToggleArm,
}

/// The arm each axis of a mode sits on.
pub open spec fn mode_arm(timing_lock: ToggleArm, control_scheme: ToggleArm, axis: PuristToggle) -> ToggleArm {
    match axis {
        PuristToggle::TimingLock => timing_lock,
        PuristToggle::ControlScheme => control_scheme,
    }
}

impl View for ModeConfig {
    /// `(timing_lock, control_scheme)`.
    type V = (ToggleArm, ToggleArm);

    closed spec fn view(&self) -> (ToggleArm, ToggleArm) {
        (self.timing_lock, self.control_scheme)
    }
}

impl ModeConfig {
    /// The MODERN preset: every axis on the modern arm (the default mode).
    pub fn modern() -> (m: ModeConfig)
        ensures
            m@ == (ToggleArm::Modern, ToggleArm::Modern),
    {
        ModeConfig { timing_lock: ToggleArm::Modern, control_scheme: ToggleArm::Modern }
    }

    /// The CLASSIC preset: every axis of the current purist toggle set on
    /// the classic arm.
    pub fn classic() -> (m: ModeConfig)
        ensures
            m@ == (ToggleArm::Classic, ToggleArm::Classic),
    {
        ModeConfig { timing_lock: ToggleArm::Classic, control_scheme: ToggleArm::Classic }
    }

    /// A copy of this config with ONE axis set to `arm` — the only way to
    /// change anything. Consumes `self` and returns a new value.
    pub fn with(self, axis: PuristToggle, arm: ToggleArm) -> (m: ModeConfig)
        ensures
            mode_arm(m@.0, m@.1, axis) == arm,
            forall|other: PuristToggle|
                other != axis ==> mode_arm(m@.0, m@.1, other) == mode_arm(self@.0, self@.1, other),
    {
        match axis {
            PuristToggle::TimingLock => ModeConfig {
                timing_lock: arm,
                control_scheme: self.control_scheme,
            },
            PuristToggle::ControlScheme => ModeConfig {
                timing_lock: self.timing_lock,
                control_scheme: arm,
            },
        }
    }

    /// The arm one axis is set to.
    pub fn arm(self, axis: PuristToggle) -> (a: ToggleArm)
        ensures
            a == mode_arm(self@.0, self@.1, axis),
    {
        match axis {
            PuristToggle::TimingLock => self.timing_lock,
            PuristToggle::ControlScheme => self.control_scheme,
        }
    }

    /// `true` iff the axis sits on the classic (purist) arm.
    pub fn is_purist(self, axis: PuristToggle) -> (r: bool)
        ensures
            r == (mode_arm(self@.0, self@.1, axis) is Classic),
    {
        self.arm(axis).is_purist()
    }
}

impl Default for ModeConfig {
    /// Default mode = modern.
    fn default() -> (m: Self)
        ensures
            m@ == (ToggleArm::Modern, ToggleArm::Modern),
    {
        ModeConfig::modern()
    }
}

/// `with` changes exactly the chosen axis: setting an axis back to the arm
/// it had restores the original configuration.
pub proof fn lemma_with_revert(t: ToggleArm, c: ToggleArm, axis: PuristToggle, arm: ToggleArm)
    ensures
        ({
            let after = match axis {
                PuristToggle::TimingLock => (arm, c),
                PuristToggle::ControlScheme => (t, arm),
            };
            let back = match axis {
                PuristToggle::TimingLock => (mode_arm(t, c, axis), after.1),
                PuristToggle::ControlScheme => (after.0, mode_arm(t, c, axis)),
            };
            back == (t, c)
        }),
{
}

} // verus!
