//! Per-button debounce engine.
//!
//! Five momentary buttons share one input register; bit i of a raw
//! sample is 0 while channel i is physically pressed (active-low). Each
//! channel runs an independent four-state machine — `Released`,
//! `Pressed` with the press-start time, `Hold`, and the one-tick
//! `Clicked` pulse — driven by the raw bit, a monotonic millisecond
//! clock, and a shared hold threshold. A press released strictly before
//! the threshold elapses counts as a click; one held strictly past it
//! becomes a hold, which clears only on physical release. A release
//! exactly at the threshold counts as held long enough, so it yields
//! `Released`, not `Clicked`.
//!
//! The engine is pure: reading the sample from the bus and pacing the
//! ticks stay with the caller, which hands in the raw byte and the
//! clock reading.

use vstd::prelude::*;

verus! {

/// Debounced state of one channel. `Pressed` carries the millisecond
/// reading of the monotonic clock at which the press began.
#[derive(Copy, Clone, Debug, PartialEq, Eq, Structural)]
pub enum State {
    Released,
    Pressed(u64),
    Hold,
    Clicked,
}

/// A transition event: the channel that changed, carrying its new state.
#[derive(Copy, Clone, Debug, PartialEq, Eq, Structural)]
pub enum Button {
    A(State),
    B(State),
    C(State),
    D(State),
    E(State),
}

/// A press-start timestamp never lies in the future of the clock.
pub open spec fn state_wf(s: State, now: u64) -> bool {
    s matches State::Pressed(t0) ==> t0 <= now
}

/// All five channels' timestamps are no later than the clock.
pub open spec fn states_wf(s: Seq<State>, now: u64) -> bool {
    forall|i: int| 0 <= i < s.len() ==> state_wf(#[trigger] s[i], now)
}

/// Next state of a channel whose raw bit reads pressed.
pub open spec fn spec_pressing(s: State, now: u64, hold_threshold: u64) -> State {
    match s {
        State::Released => State::Pressed(now),
        State::Clicked => State::Pressed(now),
        State::Pressed(t0) => if now - t0 > hold_threshold {
            State::Hold
        } else {
            State::Pressed(t0)
        },
        State::Hold => State::Hold,
    }
}

/// Next state of a channel whose raw bit reads released.
pub open spec fn spec_releasing(s: State, now: u64, hold_threshold: u64) -> State {
    match s {
        State::Pressed(t0) => if now - t0 < hold_threshold {
            State::Clicked
        } else {
            State::Released
        },
        _ => State::Released,
    }
}

/// The full transition table: one tick of one channel.
pub open spec fn spec_transition(s: State, is_pressed: bool, now: u64, hold_threshold: u64) -> State {
    if is_pressed {
        spec_pressing(s, now, hold_threshold)
    } else {
        spec_releasing(s, now, hold_threshold)
    }
}

/// Channel `i` of a raw sample reads pressed: its active-low bit is 0.
pub open spec fn channel_pressed(raw: u8, i: usize) -> bool {
    raw & (0b00001u8 << i) == 0
}

impl State {
    /// Advance this channel by one tick in which its raw bit reads
    /// pressed.
    pub fn pressing(self, now: u64, hold_threshold: u64) -> (r: State)
        requires
            state_wf(self, now),
        ensures
            r == spec_pressing(self, now, hold_threshold),
    {
        match self {
            State::Released | State::Clicked => State::Pressed(now),
            State::Pressed(pressed) => {
                if now - pressed > hold_threshold {
                    State::Hold
                } else {
                    State::Pressed(pressed)
                }
            },
            State::Hold => State::Hold,
        }
    }

    /// Advance this channel by one tick in which its raw bit reads
    /// released.
    pub fn releasing(self, now: u64, hold_threshold: u64) -> (r: State)
        requires
            state_wf(self, now),
        ensures
            r == spec_releasing(self, now, hold_threshold),
    {
        match self {
            State::Pressed(pressed) => {
                if now - pressed < hold_threshold {
                    State::Clicked
                } else {
                    State::Released
                }
            },
            _ => State::Released,
        }
    }

    /// One tick of the debounce engine for one channel.
    pub fn transition(self, is_pressed: bool, now: u64, hold_threshold: u64) -> (r: State)
        requires
            state_wf(self, now),
        ensures
            r == spec_transition(self, is_pressed, now, hold_threshold),
    {
        if is_pressed {
            self.pressing(now, hold_threshold)
        } else {
            self.releasing(now, hold_threshold)
        }
    }
}

/// Closure of the engine: from any state whose timestamp does not lie
/// in the future, one tick again yields one of the four defined
/// variants, with a timestamp that does not lie in the future of any
/// later clock reading. Every reachable state therefore stays within
/// the four variants and stays well formed.
pub proof fn lemma_transition_closed(s: State, is_pressed: bool, now: u64, hold_threshold: u64)
    requires
        state_wf(s, now),
    ensures
        ({
            let r = spec_transition(s, is_pressed, now, hold_threshold);
            &&& r is Released || r is Pressed || r is Hold || r is Clicked
            &&& forall|later: u64| now <= later ==> state_wf(r, later)
        }),
{
}

/// `Clicked` never persists across two consecutive ticks: when a tick
/// leaves a channel `Clicked`, the next tick leaves it `Pressed` (raw
/// bit pressed) or `Released` (raw bit released), never `Clicked`.
pub proof fn lemma_clicked_never_persists(
    s: State,
    p1: bool,
    n1: u64,
    p2: bool,
    n2: u64,
    hold_threshold: u64,
)
    requires
        spec_transition(s, p1, n1, hold_threshold) is Clicked,
    ensures
        ({
            let after = spec_transition(
                spec_transition(s, p1, n1, hold_threshold),
                p2,
                n2,
                hold_threshold,
            );
            &&& after == if p2 {
                State::Pressed(n2)
            } else {
                State::Released
            }
            &&& !(after is Clicked)
        }),
{
}

/// The state a channel reaches when its raw bit reads pressed at every
/// one of a sequence of clock readings in turn.
pub open spec fn run_pressing(s: State, times: Seq<u64>, hold_threshold: u64) -> State
    decreases times.len(),
{
    if times.len() == 0 {
        s
    } else {
        run_pressing(spec_pressing(s, times[0], hold_threshold), times.drop_first(), hold_threshold)
    }
}

/// `Hold` is sticky: while the channel stays pressed, no further ticks
/// leave `Hold`, however much time elapses.
pub proof fn lemma_hold_persists(times: Seq<u64>, hold_threshold: u64)
    ensures
        run_pressing(State::Hold, times, hold_threshold) == State::Hold,
    decreases times.len(),
{
    if times.len() > 0 {
        lemma_hold_persists(times.drop_first(), hold_threshold);
    }
}

/// Holding a channel continuously eventually yields `Hold`: if at any
/// of the sampled clock readings the press has lasted strictly longer
/// than the threshold, the channel ends the sampled stretch in `Hold`.
pub proof fn lemma_hold_eventually(t0: u64, times: Seq<u64>, hold_threshold: u64)
    requires
        exists|k: int| 0 <= k < times.len() && times[k] - t0 > hold_threshold,
    ensures
        run_pressing(State::Pressed(t0), times, hold_threshold) == State::Hold,
    decreases times.len(),
{
    let k = choose|k: int| 0 <= k < times.len() && times[k] - t0 > hold_threshold;
    if times[0] - t0 > hold_threshold {
        lemma_hold_persists(times.drop_first(), hold_threshold);
    } else {
        assert(k >= 1);
        assert(times.drop_first()[k - 1] == times[k]);
        lemma_hold_eventually(t0, times.drop_first(), hold_threshold);
    }
}

/// The event for channel `i` entering state `s`.
pub open spec fn button_event(i: int, s: State) -> Button {
    if i == 0 {
        Button::A(s)
    } else if i == 1 {
        Button::B(s)
    } else if i == 2 {
        Button::C(s)
    } else if i == 3 {
        Button::D(s)
    } else {
        Button::E(s)
    }
}

impl Button {
    /// The event for channel index `i`, if `i` names one of the five
    /// channels.
    pub fn from_index(i: usize, state: State) -> (r: Option<Button>)
        ensures
            i < 5 ==> r == Some(button_event(i as int, state)),
            i >= 5 ==> r is None,
    {
        match i {
            0 => Some(Button::A(state)),
            1 => Some(Button::B(state)),
            2 => Some(Button::C(state)),
            3 => Some(Button::D(state)),
            4 => Some(Button::E(state)),
            _ => None,
        }
    }
}

/// Events of one tick: for each channel whose state changed, in channel
/// order, the event carrying the new state, starting at channel `i`.
pub open spec fn spec_events(prev: Seq<State>, next: Seq<State>, i: int) -> Seq<Button>
    decreases 5 - i,
{
    if i < 0 || i >= 5 {
        Seq::empty()
    } else {
        let rest = spec_events(prev, next, i + 1);
        if prev[i] != next[i] {
            seq![button_event(i, next[i])] + rest
        } else {
            rest
        }
    }
}

/// The events one tick emits: one per changed channel, in channel order
/// A before B before C before D before E.
pub fn diff_events(prev: &Vec<State>, next: &Vec<State>) -> (events: Vec<Button>)
    requires
        prev@.len() == 5,
        next@.len() == 5,
    ensures
        events@ == spec_events(prev@, next@, 0),
{
    let mut events: Vec<Button> = Vec::new();
    for i in 0..5usize
        invariant
            prev@.len() == 5,
            next@.len() == 5,
            spec_events(prev@, next@, 0) == events@ + spec_events(prev@, next@, i as int),
    {
        let ghost pre = events@;
        if prev[i] != next[i] {
            if let Some(button) = Button::from_index(i, next[i]) {
                events.push(button);
            }
            proof {
                assert(spec_events(prev@, next@, i as int) == seq![
                    button_event(i as int, next@[i as int]),
                ] + spec_events(prev@, next@, i + 1));
                assert(events@ + spec_events(prev@, next@, i + 1) =~= pre + spec_events(
                    prev@,
                    next@,
                    i as int,
                ));
            }
        }
    }
    proof {
        assert(events@ + spec_events(prev@, next@, 5) =~= events@);
    }
    events
}

/// The published debounce state: the five channel states and the hold
/// threshold they share, advanced one raw sample at a time. Reading the
/// sample from the bus and pacing the ticks stay with the caller.
#[derive(Clone, Debug)]
pub struct Buttons {
    buttons: Vec<State>,
    hold_threshold: u64,
}

impl Buttons {
    /// The channel state array always has exactly five entries.
    pub closed spec fn wf(self) -> bool {
        self.buttons@.len() == 5
    }

    /// The five channel states, channel A first.
    pub closed spec fn states(self) -> Seq<State> {
        self.buttons@
    }

    /// The hold threshold, in milliseconds of the monotonic clock.
    pub closed spec fn threshold(self) -> u64 {
        self.hold_threshold
    }

    /// A fresh engine: all channels released, the default two-second
    /// hold threshold.
    pub fn new() -> (r: Buttons)
        ensures
            r.wf(),
            r.states() == seq![
                State::Released,
                State::Released,
                State::Released,
                State::Released,
                State::Released,
            ],
            r.threshold() == 2000,
    {
        let mut buttons: Vec<State> = Vec::new();
        buttons.push(State::Released);
        buttons.push(State::Released);
        buttons.push(State::Released);
        buttons.push(State::Released);
        buttons.push(State::Released);
        proof {
            assert(buttons@ =~= seq![
                State::Released,
                State::Released,
                State::Released,
                State::Released,
                State::Released,
            ]);
        }
        Buttons { buttons, hold_threshold: 2000 }
    }

    pub fn set_hold_threshold(&mut self, hold_threshold: u64)
        ensures
            final(self).threshold() == hold_threshold,
            final(self).states() == old(self).states(),
            final(self).wf() == old(self).wf(),
    {
        self.hold_threshold = hold_threshold;
    }

    /// Current state of channel A.
    pub fn a(&self) -> (r: State)
        requires
            self.wf(),
        ensures
            r == self.states()[0],
    {
        self.buttons[0]
    }

    /// Current state of channel B.
    pub fn b(&self) -> (r: State)
        requires
            self.wf(),
        ensures
            r == self.states()[1],
    {
        self.buttons[1]
    }

    /// Current state of channel C.
    pub fn c(&self) -> (r: State)
        requires
            self.wf(),
        ensures
            r == self.states()[2],
    {
        self.buttons[2]
    }

    /// Current state of channel D.
    pub fn d(&self) -> (r: State)
        requires
            self.wf(),
        ensures
            r == self.states()[3],
    {
        self.buttons[3]
    }

    /// Current state of channel E.
    pub fn e(&self) -> (r: State)
        requires
            self.wf(),
        ensures
            r == self.states()[4],
    {
        self.buttons[4]
    }

    /// Advance all five channel states by one raw sample taken at clock
    /// reading `now`.
    pub fn get_state(current: &Vec<State>, raw: u8, now: u64, hold_threshold: u64) -> (r: Vec<
        State,
    >)
        requires
            current@.len() == 5,
            states_wf(current@, now),
        ensures
            r@.len() == 5,
            forall|i: usize|
                i < 5 ==> r@[i as int] == spec_transition(
                    current@[i as int],
                    channel_pressed(raw, i),
                    now,
                    hold_threshold,
                ),
    {
        let mut buttons: Vec<State> = Vec::new();
        for i in 0..5usize
            invariant
                current@.len() == 5,
                states_wf(current@, now),
                buttons@.len() == i,
                forall|j: usize|
                    j < i ==> buttons@[j as int] == spec_transition(
                        current@[j as int],
                        channel_pressed(raw, j),
                        now,
                        hold_threshold,
                    ),
        {
            if raw & (0b00001u8 << i) == 0 {
                buttons.push(current[i].pressing(now, hold_threshold));
            } else {
                buttons.push(current[i].releasing(now, hold_threshold));
            }
        }
        buttons
    }

    /// One synchronous sampling tick: replace the published states with
    /// the transition of every channel under the raw sample.
    pub fn update(&mut self, raw: u8, now: u64)
        requires
            old(self).wf(),
            states_wf(old(self).states(), now),
        ensures
            final(self).wf(),
            final(self).threshold() == old(self).threshold(),
            forall|i: usize|
                i < 5 ==> final(self).states()[i as int] == spec_transition(
                    old(self).states()[i as int],
                    channel_pressed(raw, i),
                    now,
                    old(self).threshold(),
                ),
    {
        self.buttons = Self::get_state(&self.buttons, raw, now, self.hold_threshold);
    }

    /// One polling tick: advance the states as `update` does and return
    /// the events of the tick, one per changed channel, in channel
    /// order.
    pub fn tick(&mut self, raw: u8, now: u64) -> (events: Vec<Button>)
        requires
            old(self).wf(),
            states_wf(old(self).states(), now),
        ensures
            final(self).wf(),
            final(self).threshold() == old(self).threshold(),
            forall|i: usize|
                i < 5 ==> final(self).states()[i as int] == spec_transition(
                    old(self).states()[i as int],
                    channel_pressed(raw, i),
                    now,
                    old(self).threshold(),
                ),
            events@ == spec_events(old(self).states(), final(self).states(), 0),
    {
        let next = Self::get_state(&self.buttons, raw, now, self.hold_threshold);
        let events = diff_events(&self.buttons, &next);
        self.buttons = next;
        events
    }
}

} // verus!
