//! Input tracking: continuous per-channel key state plus a per-tick snapshot
//! of the edges (just pressed / just released) seen in the latest batch.
use vstd::prelude::*;

verus! {

/// Number of logical input channels.
pub const CHANNEL_COUNT: usize = 6;

/// Platform key code of the escape key.
pub const KEYCODE_ESCAPE: i32 = 27;
/// Platform key code of the space bar.
pub const KEYCODE_SPACE: i32 = 32;
/// Platform key code of the right arrow.
pub const KEYCODE_RIGHT: i32 = 1073741903;
/// Platform key code of the left arrow.
pub const KEYCODE_LEFT: i32 = 1073741904;
/// Platform key code of the down arrow.
pub const KEYCODE_DOWN: i32 = 1073741905;
/// Platform key code of the up arrow.
pub const KEYCODE_UP: i32 = 1073741906;

/// A logical input channel, decoupled from the platform's key codes.
#[derive(Clone, Copy, Debug, PartialEq, Eq, Structural)]
pub enum Channel {
    Escape,
    Up,
    Down,
    Left,
    Right,
    Space,
}

impl Channel {
    /// Position of the channel in the per-channel tables.
    pub open spec fn slot(self) -> int {
        match self {
            Channel::Escape => 0,
            Channel::Up => 1,
            Channel::Down => 2,
            Channel::Left => 3,
            Channel::Right => 4,
            Channel::Space => 5,
        }
    }

    pub fn index(self) -> (r: usize)
        ensures
            r == self.slot(),
            r < CHANNEL_COUNT,
    {
        match self {
            Channel::Escape => 0,
            Channel::Up => 1,
            Channel::Down => 2,
            Channel::Left => 3,
            Channel::Right => 4,
            Channel::Space => 5,
        }
    }
}

/// The channel that a platform key code is bound to, if any.
pub open spec fn channel_for(code: i32) -> Option<Channel> {
    if code == KEYCODE_ESCAPE {
        Some(Channel::Escape)
    } else if code == KEYCODE_UP {
        Some(Channel::Up)
    } else if code == KEYCODE_DOWN {
        Some(Channel::Down)
    } else if code == KEYCODE_LEFT {
        Some(Channel::Left)
    } else if code == KEYCODE_RIGHT {
        Some(Channel::Right)
    } else if code == KEYCODE_SPACE {
        Some(Channel::Space)
    } else {
        None
    }
}

/// Looks up the channel bound to a platform key code.
pub fn channel_of_keycode(code: i32) -> (r: Option<Channel>)
    ensures
        r == channel_for(code),
{
    if code == KEYCODE_ESCAPE {
        Some(Channel::Escape)
    } else if code == KEYCODE_UP {
        Some(Channel::Up)
    } else if code == KEYCODE_DOWN {
        Some(Channel::Down)
    } else if code == KEYCODE_LEFT {
        Some(Channel::Left)
    } else if code == KEYCODE_RIGHT {
        Some(Channel::Right)
    } else if code == KEYCODE_SPACE {
        Some(Channel::Space)
    } else {
        None
    }
}


/// A raw platform input event, reduced to what the tracker reads.
#[derive(Clone, Copy, Debug, PartialEq, Eq, Structural)]
pub enum InputEvent {
    /// A key went down; carries the platform key code.
    KeyDown(i32),
    /// A key went up; carries the platform key code.
    KeyUp(i32),
    /// The window was asked to close.
    Quit,
    /// Any event outside the tracked vocabulary.
    Other,
}

/// Abstract state of the tracker: which channels are held, the edge seen on
/// each channel during the current tick, and whether a quit was requested
/// during the current tick.
pub struct InputState {
    pub held: Seq<bool>,
    pub edges: Seq<Option<bool>>,
    pub quit: bool,
}

/// An edge table with no edge on any channel.
pub open spec fn no_edges() -> Seq<Option<bool>> {
    Seq::new(CHANNEL_COUNT as nat, |i: int| None)
}

/// A held-state table with no channel held.
pub open spec fn nothing_held() -> Seq<bool> {
    Seq::new(CHANNEL_COUNT as nat, |i: int| false)
}

/// The state at the start of a tick: held keys carried over, edges cleared.
pub open spec fn tick_start(held: Seq<bool>) -> InputState {
    InputState { held, edges: no_edges(), quit: false }
}

/// The effect of one event on the tracker's state.
pub open spec fn apply_event(s: InputState, e: InputEvent) -> InputState {
    match e {
        InputEvent::KeyDown(code) => match channel_for(code) {
            Some(c) => InputState {
                held: s.held.update(c.slot(), true),
                edges: if s.held[c.slot()] {
                    s.edges
                } else {
                    s.edges.update(c.slot(), Some(true))
                },
                quit: s.quit,
            },
            None => s,
        },
        InputEvent::KeyUp(code) => match channel_for(code) {
            Some(c) => InputState {
                held: s.held.update(c.slot(), false),
                edges: s.edges.update(c.slot(), Some(false)),
                quit: s.quit,
            },
            None => s,
        },
        InputEvent::Quit => InputState { held: s.held, edges: s.edges, quit: true },
        InputEvent::Other => s,
    }
}

/// The effect of a batch of events, applied in arrival order.
pub open spec fn apply_events(s: InputState, evs: Seq<InputEvent>) -> InputState
    decreases evs.len(),
{
    if evs.len() == 0 {
        s
    } else {
        apply_event(apply_events(s, evs.drop_last()), evs.last())
    }
}

/// The edges seen during one tick: one optional transition per channel
/// (`Some(true)` just pressed, `Some(false)` just released) and a one-shot
/// quit flag.
pub struct ImmediateEvents {
    keys: Vec<Option<bool>>,
    quit: bool,
}

impl ImmediateEvents {
    #[verifier::type_invariant]
    spec fn inv(self) -> bool {
        self.keys@.len() == CHANNEL_COUNT
    }

    /// The edge recorded on each channel, by slot.
    pub closed spec fn edges(&self) -> Seq<Option<bool>> {
        self.keys@
    }

    /// Whether a quit was requested.
    pub closed spec fn quit_requested(&self) -> bool {
        self.quit
    }

    /// A snapshot with no edge on any channel and no quit request.
    pub fn new() -> (r: ImmediateEvents)
        ensures
            r.edges() == no_edges(),
            !r.quit_requested(),
    {
        let mut keys: Vec<Option<bool>> = Vec::new();
        while keys.len() < CHANNEL_COUNT
            invariant
                keys@.len() <= CHANNEL_COUNT,
                forall|i: int| 0 <= i < keys@.len() ==> keys@[i] is None,
            decreases CHANNEL_COUNT - keys@.len(),
        {
            keys.push(None);
        }
        assert(keys@ =~= no_edges());
        ImmediateEvents { keys, quit: false }
    }

    /// The edge seen on `c` during this tick, if any.
    pub fn key(&self, c: Channel) -> (r: Option<bool>)
        ensures
            r == self.edges()[c.slot()],
    {
        proof {
            use_type_invariant(self);
        }
        self.keys[c.index()]
    }

    /// Whether the window was asked to close during this tick.
    pub fn quit(&self) -> (r: bool)
        ensures
            r == self.quit_requested(),
    {
        self.quit
    }
}

/// The input tracker: continuous held state per channel, and the edge
/// snapshot of the latest tick.
pub struct Events {
    now: ImmediateEvents,
    held: Vec<bool>,
}

impl View for Events {
    type V = InputState;

    closed spec fn view(&self) -> InputState {
        InputState { held: self.held@, edges: self.now.edges(), quit: self.now.quit_requested() }
    }
}

impl Events {
    #[verifier::type_invariant]
    spec fn inv(self) -> bool {
        self.held@.len() == CHANNEL_COUNT
    }

    /// A tracker with no channel held and no edge.
    pub fn new() -> (r: Events)
        ensures
            r@ == tick_start(nothing_held()),
    {
        let mut held: Vec<bool> = Vec::new();
        while held.len() < CHANNEL_COUNT
            invariant
                held@.len() <= CHANNEL_COUNT,
                forall|i: int| 0 <= i < held@.len() ==> !held@[i],
            decreases CHANNEL_COUNT - held@.len(),
        {
            held.push(false);
        }
        assert(held@ =~= nothing_held());
        Events { now: ImmediateEvents::new(), held }
    }

    /// The edge snapshot of the latest tick.
    pub fn now(&self) -> (r: &ImmediateEvents)
        ensures
            r.edges() == self@.edges,
            r.quit_requested() == self@.quit,
    {
        &self.now
    }

    /// Whether channel `c` is currently held.
    pub fn is_held(&self, c: Channel) -> (r: bool)
        ensures
            r == self@.held[c.slot()],
    {
        proof {
            use_type_invariant(self);
        }
        self.held[c.index()]
    }

    /// Starts a new tick: clears the edge snapshot, then applies `batch` in
    /// arrival order. A key-down on a channel that was not held records a
    /// press; a key-up records a release whatever the prior state; a quit
    /// request sets the one-shot quit flag; anything else is ignored.
    pub fn pump(&mut self, batch: &Vec<InputEvent>)
        ensures
            final(self)@ == apply_events(tick_start(old(self)@.held), batch@),
    {
        proof {
            use_type_invariant(&*self);
        }
        let mut held = self.held.clone();
        let fresh = ImmediateEvents::new();
        proof {
            use_type_invariant(&fresh);
        }
        let mut keys = fresh.keys;
        let mut quit = fresh.quit;
        let ghost start = tick_start(old(self)@.held);
        assert(held@ =~= start.held);
        assert(apply_events(start, batch@.take(0)) == start);
        let mut i: usize = 0;
        while i < batch.len()
            invariant
                0 <= i <= batch@.len(),
                held@.len() == CHANNEL_COUNT,
                keys@.len() == CHANNEL_COUNT,
                held@ == apply_events(start, batch@.take(i as int)).held,
                keys@ == apply_events(start, batch@.take(i as int)).edges,
                quit == apply_events(start, batch@.take(i as int)).quit,
            decreases batch@.len() - i,
        {
            let ev = batch[i];
            assert(batch@.take(i + 1).drop_last() =~= batch@.take(i as int));
            match ev {
                InputEvent::KeyDown(code) => {
                    if let Some(c) = channel_of_keycode(code) {
                        let k = c.index();
                        if !held[k] {
                            keys.set(k, Some(true));
                        }
                        held.set(k, true);
                    }
                },
                InputEvent::KeyUp(code) => {
                    if let Some(c) = channel_of_keycode(code) {
                        let k = c.index();
                        keys.set(k, Some(false));
                        held.set(k, false);
                    }
                },
                InputEvent::Quit => {
                    quit = true;
                },
                InputEvent::Other => {},
            }
            i = i + 1;
        }
        assert(batch@.take(batch@.len() as int) =~= batch@);
        *self = Events { now: ImmediateEvents { keys, quit }, held };
    }
}

/// Whether `e` is a key-down on a key bound to `c`.
pub open spec fn presses(e: InputEvent, c: Channel) -> bool {
    match e {
        InputEvent::KeyDown(code) => channel_for(code) == Some(c),
        _ => false,
    }
}

/// Whether `e` is a key-up on a key bound to `c`.
pub open spec fn releases(e: InputEvent, c: Channel) -> bool {
    match e {
        InputEvent::KeyUp(code) => channel_for(code) == Some(c),
        _ => false,
    }
}

/// The held state after a run of ticks, each with its own batch of events.
pub open spec fn held_after(held: Seq<bool>, batches: Seq<Seq<InputEvent>>) -> Seq<bool>
    decreases batches.len(),
{
    if batches.len() == 0 {
        held
    } else {
        apply_events(tick_start(held_after(held, batches.drop_last())), batches.last()).held
    }
}

/// Events keep the per-channel tables at their size.
pub proof fn lemma_tables_keep_size(s: InputState, evs: Seq<InputEvent>)
    requires
        s.held.len() == CHANNEL_COUNT,
        s.edges.len() == CHANNEL_COUNT,
    ensures
        apply_events(s, evs).held.len() == CHANNEL_COUNT,
        apply_events(s, evs).edges.len() == CHANNEL_COUNT,
    decreases evs.len(),
{
    if evs.len() > 0 {
        lemma_tables_keep_size(s, evs.drop_last());
    }
}

/// A tick with no events leaves every channel's held state as it was and
/// reports no edge and no quit request.
pub proof fn lemma_empty_batch(held: Seq<bool>)
    ensures
        apply_events(tick_start(held), Seq::empty()).held == held,
        forall|i: int| 0 <= i < CHANNEL_COUNT ==> apply_events(tick_start(held), Seq::empty()).edges[i] is None,
        !apply_events(tick_start(held), Seq::empty()).quit,
{
}

/// A press is reported only on the tick in which the channel goes from
/// released to held: if a tick ends with a press edge on `c`, then `c` is held
/// at the end of the tick, and some key-down on `c` in that tick's batch
/// arrived while `c` was released.
pub proof fn lemma_press_edge_needs_transition(held: Seq<bool>, evs: Seq<InputEvent>, c: Channel)
    requires
        held.len() == CHANNEL_COUNT,
        apply_events(tick_start(held), evs).edges[c.slot()] == Some(true),
    ensures
        apply_events(tick_start(held), evs).held[c.slot()],
        exists|j: int|
            0 <= j < evs.len() && presses(evs[j], c) && !apply_events(tick_start(held), evs.take(j)).held[c.slot()],
    decreases evs.len(),
{
    let start = tick_start(held);
    let k = c.slot();
    if evs.len() == 0 {
        assert(no_edges()[k] is None);
    } else {
        let p = evs.drop_last();
        let e = evs.last();
        let before = apply_events(start, p);
        lemma_tables_keep_size(start, p);
        assert(evs.take(evs.len() - 1) =~= p);
        if presses(e, c) && !before.held[k] {
            assert(presses(evs[evs.len() - 1], c));
        } else {
            assert(before.edges[k] == Some(true)) by {
                match e {
                    InputEvent::KeyDown(code) => {
                        if let Some(d) = channel_for(code) {
                            if d.slot() == k {
                                assert(d == c);
                            }
                        }
                    },
                    InputEvent::KeyUp(code) => {
                        if let Some(d) = channel_for(code) {
                            if d.slot() == k {
                                assert(d == c);
                            }
                        }
                    },
                    _ => {},
                }
            }
            lemma_press_edge_needs_transition(held, p, c);
            let j = choose|j: int|
                0 <= j < p.len() && presses(p[j], c) && !apply_events(start, p.take(j)).held[k];
            assert(evs.take(j) =~= p.take(j));
            assert(evs[j] == p[j]);
        }
    }
}

/// A channel that is held at the start of a tick, and is not released during
/// it, stays held and reports no edge, however many key-downs (repeats) the
/// batch holds.
pub proof fn lemma_held_key_no_edge(held: Seq<bool>, evs: Seq<InputEvent>, c: Channel)
    requires
        held.len() == CHANNEL_COUNT,
        held[c.slot()],
        forall|j: int| 0 <= j < evs.len() ==> !releases(evs[j], c),
    ensures
        apply_events(tick_start(held), evs).held[c.slot()],
        apply_events(tick_start(held), evs).edges[c.slot()] is None,
    decreases evs.len(),
{
    let k = c.slot();
    if evs.len() > 0 {
        let p = evs.drop_last();
        lemma_held_key_no_edge(held, p, c);
        lemma_tables_keep_size(tick_start(held), p);
        assert(!releases(evs[evs.len() - 1], c));
        match evs.last() {
            InputEvent::KeyUp(code) => {
                if let Some(d) = channel_for(code) {
                    if d.slot() == k {
                        assert(d == c);
                    }
                }
            },
            _ => {},
        }
    }
}

/// Held state stays at its size across ticks.
pub proof fn lemma_held_after_size(held: Seq<bool>, batches: Seq<Seq<InputEvent>>)
    requires
        held.len() == CHANNEL_COUNT,
    ensures
        held_after(held, batches).len() == CHANNEL_COUNT,
    decreases batches.len(),
{
    if batches.len() > 0 {
        lemma_held_after_size(held, batches.drop_last());
        lemma_tables_keep_size(tick_start(held_after(held, batches.drop_last())), batches.last());
    }
}

/// A press is reported at most once: once a channel is held, every further
/// tick in which it is not released keeps it held and reports no edge on it.
pub proof fn lemma_press_reported_once(held: Seq<bool>, batches: Seq<Seq<InputEvent>>, c: Channel)
    requires
        held.len() == CHANNEL_COUNT,
        held[c.slot()],
        forall|t: int, j: int| 0 <= t < batches.len() && 0 <= j < batches[t].len() ==> !releases(batches[t][j], c),
    ensures
        held_after(held, batches)[c.slot()],
        forall|t: int|
            0 <= t < batches.len() ==> {
                let s = apply_events(tick_start(held_after(held, batches.take(t))), #[trigger] batches[t]);
                s.held[c.slot()] && s.edges[c.slot()] is None
            },
    decreases batches.len(),
{
    if batches.len() > 0 {
        let p = batches.drop_last();
        let n = batches.len() - 1;
        assert forall|t: int, j: int| 0 <= t < p.len() && 0 <= j < p[t].len() implies !releases(p[t][j], c) by {
            assert(p[t] == batches[t]);
        }
        lemma_press_reported_once(held, p, c);
        lemma_held_after_size(held, p);
        assert forall|j: int| 0 <= j < batches[n].len() implies !releases(batches[n][j], c) by {}
        lemma_held_key_no_edge(held_after(held, p), batches[n], c);
        assert(batches.take(n) =~= p);
        assert forall|t: int|
            0 <= t < batches.len() implies {
                let s = apply_events(tick_start(held_after(held, batches.take(t))), #[trigger] batches[t]);
                s.held[c.slot()] && s.edges[c.slot()] is None
            } by {
            if t < n {
                assert(batches.take(t) =~= p.take(t));
                assert(p[t] == batches[t]);
            }
        }
    }
}

} // verus!
