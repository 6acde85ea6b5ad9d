//! The game's states, the request for the next one, and the Win signal.
use vstd::prelude::*;

verus! {

/// The phase the game is in. It starts in `Loading` and only moves forward.
#[derive(Clone, Copy, Debug, PartialEq, Eq, Structural)]
pub enum GameState {
    Loading,
    Playing,
    Win,
}

/// Position of a state in the order `Loading`, `Playing`, `Win`.
pub open spec fn rank(s: GameState) -> int {
    match s {
        GameState::Loading => 0,
        GameState::Playing => 1,
        GameState::Win => 2,
    }
}

/// The current state and the one requested for the next state update.
#[derive(Clone, Copy, Debug, PartialEq, Eq, Structural)]
pub struct GameFlow {
    pub current: GameState,
    pub next: Option<GameState>,
}

/// `flow` after asking for `to`: a request never points backward.
pub open spec fn request(flow: GameFlow, to: GameState) -> GameFlow {
    if rank(to) >= rank(flow.current) {
        GameFlow { current: flow.current, next: Some(to) }
    } else {
        flow
    }
}

/// `flow` after the state update: a pending request is taken.
pub open spec fn apply(flow: GameFlow) -> GameFlow {
    match flow.next {
        Some(s) => GameFlow { current: s, next: None },
        None => flow,
    }
}

/// `flow` after the Win listener has seen the signal, raised or not.
pub open spec fn listen(flow: GameFlow, raised: bool) -> GameFlow {
    if raised {
        request(flow, GameState::Win)
    } else {
        flow
    }
}

impl GameFlow {
    /// A pending request never points backward.
    pub open spec fn wf(self) -> bool {
        match self.next {
            Some(s) => rank(s) >= rank(self.current),
            None => true,
        }
    }

    /// The game as it starts: loading, with nothing requested.
    pub fn new() -> (r: Self)
        ensures
            r.current == GameState::Loading,
            r.next.is_none(),
            r.wf(),
    {
        GameFlow { current: GameState::Loading, next: None }
    }

    /// Asks for `to` at the next state update, unless it lies behind the
    /// current state.
    pub fn set_next(&mut self, to: GameState)
        requires
            old(self).wf(),
        ensures
            *final(self) == request(*old(self), to),
            final(self).wf(),
    {
        let forward = match (self.current, to) {
            (GameState::Loading, _) => true,
            (GameState::Playing, GameState::Loading) => false,
            (GameState::Playing, _) => true,
            (GameState::Win, GameState::Win) => true,
            (GameState::Win, _) => false,
        };
        if forward {
            self.next = Some(to);
        }
    }

    /// The state update: takes the pending request, and returns the state
    /// entered, if it differs from the one left.
    pub fn apply_next(&mut self) -> (entered: Option<GameState>)
        requires
            old(self).wf(),
        ensures
            *final(self) == apply(*old(self)),
            final(self).wf(),
            rank(final(self).current) >= rank(old(self).current),
            entered == (match old(self).next {
                Some(s) => if s != old(self).current {
                    Some(s)
                } else {
                    None
                },
                None => None,
            }),
    {
        match self.next {
            Some(s) => {
                let prev = self.current;
                self.current = s;
                self.next = None;
                if s != prev {
                    Some(s)
                } else {
                    None
                }
            },
            None => None,
        }
    }
}

/// The Win signal of the current frame. It carries nothing, so two raised in
/// one frame are one.
#[derive(Clone, Copy, Debug, PartialEq, Eq, Structural)]
pub struct WinEvents {
    pub raised: bool,
}

impl WinEvents {
    /// No signal.
    pub fn new() -> (r: Self)
        ensures
            !r.raised,
    {
        WinEvents { raised: false }
    }

    /// Raises the signal.
    pub fn send(&mut self)
        ensures
            final(self).raised,
    {
        self.raised = true;
    }

    /// Whether no signal is raised.
    pub fn is_empty(&self) -> (r: bool)
        ensures
            r == !self.raised,
    {
        !self.raised
    }

    /// Drops the signal.
    pub fn clear(&mut self)
        ensures
            !final(self).raised,
    {
        self.raised = false;
    }
}

/// Asks for `Win` when the signal is raised, and clears it.
pub fn win_event_listener(events: &mut WinEvents, flow: &mut GameFlow)
    requires
        old(flow).wf(),
    ensures
        *final(flow) == listen(*old(flow), old(events).raised),
        final(flow).wf(),
        !final(events).raised,
{
    if !events.is_empty() {
        flow.set_next(GameState::Win);
        events.clear();
    }
}

} // verus!
