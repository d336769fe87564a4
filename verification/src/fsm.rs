//! The interaction state machine shared by the clickable widgets: one state
//! active per widget, transitions keyed by (state, pointer event, hit-test
//! result, platform capability), unmatched events leave the state unchanged.
//! A gesture fires its callback exactly once: on the release that completes
//! a press inside bounds.

use vstd::prelude::*;
use crate::event::{MouseEvent, MouseState, SliderEvent};

verus! {

/// The interaction states of a clickable widget.  Exactly one is active;
/// each maps to one exclusively visible skin.
#[derive(Clone, Copy, Debug, PartialEq, Eq, Hash, Structural)]
pub enum ButtonState {
    Default,
    Disabled,
    Selected,
    Pressed,
    Hover,
}

/// The canonical transition table.  `None` means the event does not match:
/// the state stays.  `mobile` gates the Hover state: a platform without a
/// pointer never hovers.
pub open spec fn spec_transition(s: ButtonState, e: MouseEvent, mobile: bool) -> Option<
    ButtonState,
> {
    match s {
        ButtonState::Default => if e.position is Some {
            match e.state {
                MouseState::Pressed => Option::Some(ButtonState::Pressed),
                MouseState::Moved | MouseState::Scroll(..) => Option::Some(
                    if mobile {
                        ButtonState::Default
                    } else {
                        ButtonState::Hover
                    },
                ),
                _ => Option::None,
            }
        } else {
            Option::None
        },
        ButtonState::Pressed => match e.state {
            MouseState::Released => if e.position is Some {
                Option::Some(
                    if mobile {
                        ButtonState::Default
                    } else {
                        ButtonState::Hover
                    },
                )
            } else {
                Option::None
            },
            MouseState::Moved | MouseState::Scroll(..) => if e.position is None {
                Option::Some(ButtonState::Default)
            } else {
                Option::None
            },
            _ => Option::None,
        },
        ButtonState::Hover => match e.state {
            MouseState::Pressed => if e.position is Some {
                Option::Some(ButtonState::Pressed)
            } else {
                Option::None
            },
            MouseState::Moved | MouseState::Scroll(..) => if e.position is None {
                Option::Some(ButtonState::Default)
            } else {
                Option::None
            },
            _ => Option::None,
        },
        _ => Option::None,
    }
}

/// One step of the machine: the next state, and whether the bound callback
/// fires.  It fires exactly when a release inside bounds completes a press:
/// once per gesture, and never from Disabled (which only a press can start
/// and Disabled never enters Pressed).
pub open spec fn spec_step(s: ButtonState, e: MouseEvent, mobile: bool) -> (ButtonState, bool) {
    let fired = s is Pressed && e.state is Released && e.position is Some;
    let s2 = match spec_transition(s, e, mobile) {
        Option::Some(n) => n,
        Option::None => s,
    };
    (s2, fired)
}

/// A clickable widget's machine: its current state and the platform
/// capability that gates Hover.
#[derive(Clone, Copy, Debug)]
pub struct ButtonFsm {
    pub state: ButtonState,
    pub mobile: bool,
}

impl ButtonFsm {
    /// A machine in its initial state: Disabled when the external disable
    /// flag is set, Default otherwise.
    pub fn new(is_disabled: bool, mobile: bool) -> (r: ButtonFsm)
        ensures
            r.state == if is_disabled {
                ButtonState::Disabled
            } else {
                ButtonState::Default
            },
            r.mobile == mobile,
    {
        ButtonFsm {
            state: if is_disabled {
                ButtonState::Disabled
            } else {
                ButtonState::Default
            },
            mobile,
        }
    }

    /// Sets or clears the external disable flag.  Disabled overrides every
    /// other state and only this flag clears it.
    pub fn disable(&mut self, disable: bool)
        ensures
            final(self).state == if disable {
                ButtonState::Disabled
            } else {
                ButtonState::Default
            },
            final(self).mobile == old(self).mobile,
    {
        self.state = if disable {
            ButtonState::Disabled
        } else {
            ButtonState::Default
        };
    }

    /// Feeds one pointer event through the machine.  Returns whether the
    /// bound callback fires.
    pub fn handle(&mut self, e: &MouseEvent) -> (fired: bool)
        ensures
            (final(self).state, fired) == spec_step(old(self).state, *e, old(self).mobile),
            final(self).mobile == old(self).mobile,
    {
        let fired = matches!(self.state, ButtonState::Pressed) && matches!(
            e.state,
            MouseState::Released,
        ) && e.position.is_some();
        let next = match self.state {
            ButtonState::Default => {
                if e.position.is_some() {
                    match e.state {
                        MouseState::Pressed => Option::Some(ButtonState::Pressed),
                        MouseState::Moved | MouseState::Scroll(..) => Option::Some(
                            if self.mobile {
                                ButtonState::Default
                            } else {
                                ButtonState::Hover
                            },
                        ),
                        _ => Option::None,
                    }
                } else {
                    Option::None
                }
            },
            ButtonState::Pressed => {
                match e.state {
                    MouseState::Released => if e.position.is_some() {
                        Option::Some(
                            if self.mobile {
                                ButtonState::Default
                            } else {
                                ButtonState::Hover
                            },
                        )
                    } else {
                        Option::None
                    },
                    MouseState::Moved | MouseState::Scroll(..) => if e.position.is_none() {
                        Option::Some(ButtonState::Default)
                    } else {
                        Option::None
                    },
                    _ => Option::None,
                }
            },
            ButtonState::Hover => {
                match e.state {
                    MouseState::Pressed => if e.position.is_some() {
                        Option::Some(ButtonState::Pressed)
                    } else {
                        Option::None
                    },
                    MouseState::Moved | MouseState::Scroll(..) => if e.position.is_none() {
                        Option::Some(ButtonState::Default)
                    } else {
                        Option::None
                    },
                    _ => Option::None,
                }
            },
            _ => Option::None,
        };
        if let Option::Some(n) = next {
            self.state = n;
        }
        fired
    }

    /// Which of the five skins shows: exactly the one matching the state.
    pub fn skin_flags(&self) -> (r: (bool, bool, bool, bool, bool))
        ensures
            r.0 == (self.state is Default),
            r.1 == (self.state is Hover),
            r.2 == (self.state is Pressed),
            r.3 == (self.state is Selected),
            r.4 == (self.state is Disabled),
    {
        (
            matches!(self.state, ButtonState::Default),
            matches!(self.state, ButtonState::Hover),
            matches!(self.state, ButtonState::Pressed),
            matches!(self.state, ButtonState::Selected),
            matches!(self.state, ButtonState::Disabled),
        )
    }
}

/// The state and fire count after replaying an ordered event sequence from a
/// start state: a fold of `spec_step`, hence a pure function of the
/// (state, sequence) pair.
pub open spec fn spec_replay(s: ButtonState, evs: Seq<MouseEvent>, mobile: bool) -> (
    ButtonState,
    int,
)
    decreases evs.len(),
{
    if evs.len() == 0 {
        (s, 0)
    } else {
        let (mid, count) = spec_replay(s, evs.drop_last(), mobile);
        let (end, fired) = spec_step(mid, evs.last(), mobile);
        (
            end,
            count + if fired {
                1int
            } else {
                0int
            },
        )
    }
}

/// Replay is deterministic and compositional: extending a sequence by one
/// event steps the machine exactly once from the replayed state, so the
/// final state and fire count depend on nothing but the start state and the
/// ordered sequence.
pub proof fn lemma_replay_deterministic(
    s: ButtonState,
    evs: Seq<MouseEvent>,
    e: MouseEvent,
    mobile: bool,
)
    ensures
        spec_replay(s, evs.push(e), mobile).0 == spec_step(
            spec_replay(s, evs, mobile).0,
            e,
            mobile,
        ).0,
        spec_replay(s, evs.push(e), mobile).1 == spec_replay(s, evs, mobile).1 + if spec_step(
            spec_replay(s, evs, mobile).0,
            e,
            mobile,
        ).1 {
            1int
        } else {
            0int
        },
{
    assert(evs.push(e).drop_last() =~= evs);
    assert(evs.push(e).last() == e);
}

/// Replays an event sequence through a fresh machine: the observable
/// outcome is exactly the fold of the step function.
pub fn replay(start: ButtonState, events: &Vec<MouseEvent>, mobile: bool) -> (r: (
    ButtonState,
    usize,
))
    ensures
        r.0 == spec_replay(start, events@, mobile).0,
        r.1 as int == spec_replay(start, events@, mobile).1,
{
    let mut fsm = ButtonFsm { state: start, mobile };
    let mut count: usize = 0;
    let mut i: usize = 0;
    proof {
        assert(events@.subrange(0, 0) =~= Seq::<MouseEvent>::empty());
    }
    while i < events.len()
        invariant
            i <= events@.len(),
            fsm.mobile == mobile,
            fsm.state == spec_replay(start, events@.subrange(0, i as int), mobile).0,
            count as int == spec_replay(start, events@.subrange(0, i as int), mobile).1,
            count <= i,
        decreases events@.len() - i,
    {
        let e = events[i];
        let fired = fsm.handle(&e);
        if fired {
            count = count + 1;
        }
        proof {
            let pre = events@.subrange(0, i as int);
            let post = events@.subrange(0, i + 1);
            assert(post.drop_last() =~= pre);
            assert(post.last() == events@[i as int]);
        }
        i = i + 1;
    }
    proof {
        assert(events@.subrange(0, events@.len() as int) =~= events@);
    }
    (fsm.state, count)
}

/// A two-position switch.  A press inside bounds flips it and fires the
/// callback with the new value; everything else leaves it alone.
#[derive(Clone, Copy, Debug)]
pub struct Toggle {
    pub on: bool,
}

impl Toggle {
    /// A switch in the given position.
    pub fn new(is_selected: bool) -> (r: Toggle)
        ensures
            r.on == is_selected,
    {
        Toggle { on: is_selected }
    }

    /// Feeds one pointer event through.  On a press inside bounds the
    /// switch flips and the new position is returned for the callback;
    /// otherwise nothing changes.
    pub fn handle(&mut self, e: &MouseEvent) -> (fired: Option<bool>)
        ensures
            e.state is Pressed && e.position is Some ==> final(self).on == !old(self).on && fired
                == Option::Some(!old(self).on),
            !(e.state is Pressed && e.position is Some) ==> *final(self) == *old(self) && fired
                is None,
    {
        if matches!(e.state, MouseState::Pressed) && e.position.is_some() {
            self.on = !self.on;
            Option::Some(self.on)
        } else {
            Option::None
        }
    }
}

/// A value on a horizontal track, driven by slider gesture events.  The
/// bound callback runs on every gesture event and is handed the value as it
/// stood before that event re-clamps it; a drag start additionally pulses
/// the haptic.  The value stays within `[0, track]` throughout.
#[derive(Clone, Copy, Debug)]
pub struct Slider {
    pub value: u32,
    pub track: u32,
}

/// A pointer coordinate clamped onto the track.
pub open spec fn clamp_track(x: int, track: int) -> int {
    if x > track {
        track
    } else {
        x
    }
}

impl Slider {
    /// The value never leaves the track.
    pub open spec fn inv(self) -> bool {
        self.value <= self.track
    }

    /// A slider at a starting value on a track of the given length.
    pub fn new(start: u32, track: u32) -> (r: Slider)
        ensures
            r.value as int == clamp_track(start as int, track as int),
            r.track == track,
            r.inv(),
    {
        Slider { value: if start > track { track } else { start }, track }
    }

    /// Feeds one slider gesture event through.  Returns the value handed to
    /// the callback — the one standing before this event re-clamps it — and
    /// whether the haptic pulses (exactly on a drag start).
    pub fn handle(&mut self, e: &SliderEvent) -> (r: (u32, bool))
        ensures
            r.0 == old(self).value,
            r.1 == (e is Start),
            final(self).track == old(self).track,
            final(self).value as int == clamp_track(
                (match e {
                    SliderEvent::Start(x) => *x,
                    SliderEvent::Moved(x) => *x,
                }) as int,
                old(self).track as int,
            ),
            final(self).inv(),
    {
        let reported = self.value;
        let (x, haptic) = match e {
            SliderEvent::Start(x) => (*x, true),
            SliderEvent::Moved(x) => (*x, false),
        };
        self.value = if x > self.track {
            self.track
        } else {
            x
        };
        (reported, haptic)
    }
}

/// How far a release may sit from its press and still count as a tap.
pub const TAP_SLOP: u32 = 5;

/// What a scroll wrapper does with a pointer event.
#[derive(Clone, Copy, Debug, PartialEq)]
pub enum TapOutcome {
    /// Keep the event to itself.
    Swallow,
    /// Re-emit a press at this position: the gesture was a tap, not a drag.
    Reemit((u32, u32)),
    /// Hand the event on unchanged.
    Pass,
}

/// What a release at `p` after a press at `press_at` amounts to: a tap
/// (re-emit the press) when the pointer barely moved vertically, otherwise
/// a drag (swallow).
pub open spec fn spec_tap_outcome(press_at: (u32, u32), p: (u32, u32)) -> TapOutcome {
    let dy: int = if p.1 >= press_at.1 {
        p.1 - press_at.1
    } else {
        press_at.1 - p.1
    };
    if dy < TAP_SLOP {
        TapOutcome::Reemit(p)
    } else {
        TapOutcome::Swallow
    }
}

/// Distinguishes taps from drags inside a scrollable: presses are withheld,
/// and the matching release re-emits the press only if the pointer barely
/// moved vertically.
#[derive(Clone, Copy, Debug)]
pub struct TapGesture {
    pub press_at: (u32, u32),
}

impl TapGesture {
    pub fn new() -> (r: TapGesture)
        ensures
            r.press_at == (0u32, 0u32),
    {
        TapGesture { press_at: (0, 0) }
    }

    /// Feeds one pointer event through the gesture recogniser.
    pub fn handle(&mut self, e: &MouseEvent) -> (r: TapOutcome)
        ensures
            match (e.state, e.position) {
                (MouseState::Pressed, Option::Some(p)) => final(self).press_at == p && r
                    == TapOutcome::Swallow,
                (MouseState::Released, Option::Some(p)) => *final(self) == *old(self) && r
                    == spec_tap_outcome(old(self).press_at, p),
                _ => *final(self) == *old(self) && r == TapOutcome::Pass,
            },
    {
        match (e.state, e.position) {
            (MouseState::Pressed, Option::Some(p)) => {
                self.press_at = p;
                TapOutcome::Swallow
            },
            (MouseState::Released, Option::Some(p)) => {
                let dy = if p.1 >= self.press_at.1 {
                    p.1 - self.press_at.1
                } else {
                    self.press_at.1 - p.1
                };
                if dy < TAP_SLOP {
                    TapOutcome::Reemit(p)
                } else {
                    TapOutcome::Swallow
                }
            },
            _ => TapOutcome::Pass,
        }
    }
}

} // verus!
