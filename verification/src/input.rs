//! Per-frame input tracking with edge detection: raw key events are diffed
//! against the keys' held state to produce a snapshot that reports, for each
//! tracked key, whether it was just pressed, just released, or unchanged
//! this frame.

use vstd::prelude::*;

verus! {

/// An identifier for a physical input key. The set of tracked keys is fixed
/// and declared statically.
#[derive(Clone, Copy, PartialEq, Eq, Structural, Debug)]
pub enum Key {
    Escape,
    Up,
    Down,
}

/// The per-frame tri-state of a key: it reports only the edge observed this
/// frame, never cumulative held state.
#[derive(Clone, Copy, PartialEq, Eq, Structural, Debug)]
pub enum KeyState {
    Unchanged,
    JustPressed,
    JustReleased,
}

/// A raw event drained from the input source: either a key transition or
/// something this tracker ignores.
#[derive(Clone, Copy, PartialEq, Eq, Structural, Debug)]
pub enum RawEvent {
    KeyInput { key: Key, is_down: bool },
    Ignored,
}

/// The `is_down` flags of the events for key `k`, in arrival order,
/// ignoring events for other keys and non-key events.
pub open spec fn key_flags(events: Seq<RawEvent>, k: Key) -> Seq<bool>
    decreases events.len(),
{
    if events.len() == 0 {
        Seq::empty()
    } else {
        let rest = key_flags(events.drop_last(), k);
        match events.last() {
            RawEvent::KeyInput { key, is_down } => if key == k {
                rest.push(is_down)
            } else {
                rest
            },
            RawEvent::Ignored => rest,
        }
    }
}

/// Whether a key is held after a frame: events are processed in arrival
/// order, so the last `is_down` flag decides; with no event the held state
/// is kept.
pub open spec fn down_after(down: bool, flags: Seq<bool>) -> bool {
    if flags.len() == 0 {
        down
    } else {
        flags.last()
    }
}

/// The edge a key reports for a frame: the last event wins, and it reports
/// a transition only if it flipped the held state as it stood just before
/// that event; a frame without an event for the key reports `Unchanged`.
pub open spec fn state_after(down: bool, flags: Seq<bool>) -> KeyState {
    if flags.len() == 0 {
        KeyState::Unchanged
    } else {
        let before = down_after(down, flags.drop_last());
        if flags.last() && !before {
            KeyState::JustPressed
        } else if !flags.last() && before {
            KeyState::JustReleased
        } else {
            KeyState::Unchanged
        }
    }
}

/// The state a snapshot reports for key `k`: the entry of the first matching
/// tracked key, or `Unchanged` for a key the snapshot does not track.
pub open spec fn snap_get(s: Seq<(Key, KeyState)>, k: Key) -> KeyState
    decreases s.len(),
{
    if s.len() == 0 {
        KeyState::Unchanged
    } else if s[0].0 == k {
        s[0].1
    } else {
        snap_get(s.drop_first(), k)
    }
}

/// A snapshot lookup reads the entry of the first occurrence of a key: at
/// the index of a key that no earlier entry repeats, the lookup returns
/// exactly that entry's state. This ties the per-index contract of a poll
/// to what a lookup on the fresh snapshot reports.
pub proof fn lemma_snap_get_at_index(s: Seq<(Key, KeyState)>, k: Key, i: int)
    requires
        0 <= i < s.len(),
        s[i].0 == k,
        forall|m: int| 0 <= m < i ==> s[m].0 != k,
    ensures
        snap_get(s, k) == s[i].1,
    decreases i,
{
    if i > 0 {
        lemma_snap_get_at_index(s.drop_first(), k, i - 1);
    }
}

/// An immutable-per-frame record of the edge each tracked key reported this
/// frame. A new instance is built by each poll; it is never partially
/// updated.
pub struct InputSnapshot {
    pub states: Vec<(Key, KeyState)>,
}

impl View for InputSnapshot {
    type V = Seq<(Key, KeyState)>;

    open spec fn view(&self) -> Seq<(Key, KeyState)> {
        self.states@
    }
}

impl InputSnapshot {
    /// Looks up the edge reported for a key; a key the snapshot does not
    /// track reports `Unchanged`.
    pub fn get(&self, k: Key) -> (r: KeyState)
        ensures
            r == snap_get(self@, k),
    {
        let mut i: usize = 0;
        proof {
            assert(self@.skip(0) =~= self@);
        }
        while i < self.states.len()
            invariant
                0 <= i <= self@.len(),
                snap_get(self@, k) == snap_get(self@.skip(i as int), k),
            decreases self@.len() - i,
        {
            let (key, st) = self.states[i];
            proof {
                assert(self@.skip(i as int)[0] == self@[i as int]);
                assert(self@.skip(i as int).drop_first() =~= self@.skip(i as int + 1));
            }
            if key == k {
                return st;
            }
            i += 1;
        }
        proof {
            assert(self@.skip(i as int) =~= Seq::<(Key, KeyState)>::empty());
        }
        KeyState::Unchanged
    }
}

/// The event pump: owns the held state of each tracked key and the one live
/// snapshot of the current frame. It is the snapshot's sole writer; each
/// poll replaces the snapshot whole.
pub struct EventPump {
    pub keys: Vec<Key>,
    pub down: Vec<bool>,
    pub now: InputSnapshot,
}

impl EventPump {
    /// Well-formedness: one held flag and one snapshot entry per tracked
    /// key, the snapshot's entries keyed in the same order as the keys.
    pub open spec fn wf(&self) -> bool {
        &&& self.down@.len() == self.keys@.len()
        &&& self.now@.len() == self.keys@.len()
        &&& forall|i: int| 0 <= i < self.keys@.len() ==> self.now@[i].0 == self.keys@[i]
    }

    /// Constructs a pump that tracks the given keys, all initially up and
    /// reporting `Unchanged`.
    pub fn new(keys: Vec<Key>) -> (pump: EventPump)
        ensures
            pump.wf(),
            pump.keys@ == keys@,
            forall|i: int| 0 <= i < keys@.len() ==> pump.down@[i] == false,
            forall|i: int| 0 <= i < keys@.len() ==> pump.now@[i].1 == KeyState::Unchanged,
    {
        let mut down: Vec<bool> = Vec::new();
        let mut states: Vec<(Key, KeyState)> = Vec::new();
        let mut i: usize = 0;
        while i < keys.len()
            invariant
                0 <= i <= keys@.len(),
                down@.len() == i,
                states@.len() == i,
                forall|m: int| 0 <= m < i ==> down@[m] == false,
                forall|m: int|
                    0 <= m < i ==> states@[m] == (keys@[m], KeyState::Unchanged),
            decreases keys@.len() - i,
        {
            down.push(false);
            states.push((keys[i], KeyState::Unchanged));
            i += 1;
        }
        EventPump { keys, down, now: InputSnapshot { states } }
    }

    /// Diffs one frame's raw events against the held state: for each tracked
    /// key, the new held state and the reported edge are exactly
    /// `down_after` and `state_after` of that key's event flags. The old
    /// snapshot is replaced, never merged.
    pub fn pump(&mut self, events: &Vec<RawEvent>)
        requires
            old(self).wf(),
        ensures
            final(self).wf(),
            final(self).keys@ == old(self).keys@,
            forall|i: int|
                0 <= i < old(self).keys@.len() ==> final(self).down@[i] == down_after(
                    old(self).down@[i],
                    key_flags(events@, old(self).keys@[i]),
                ),
            forall|i: int|
                0 <= i < old(self).keys@.len() ==> final(self).now@[i].1 == state_after(
                    old(self).down@[i],
                    key_flags(events@, old(self).keys@[i]),
                ),
    {
        let mut new_down: Vec<bool> = Vec::new();
        let mut states: Vec<(Key, KeyState)> = Vec::new();
        let mut i: usize = 0;
        while i < self.keys.len()
            invariant
                *self == *old(self),
                self.wf(),
                0 <= i <= self.keys@.len(),
                new_down@.len() == i,
                states@.len() == i,
                forall|m: int|
                    0 <= m < i ==> new_down@[m] == down_after(
                        self.down@[m],
                        key_flags(events@, self.keys@[m]),
                    ),
                forall|m: int|
                    0 <= m < i ==> states@[m] == (
                        self.keys@[m],
                        state_after(self.down@[m], key_flags(events@, self.keys@[m])),
                    ),
            decreases self.keys@.len() - i,
        {
            let k = self.keys[i];
            let d0 = self.down[i];
            let mut d = d0;
            let mut st = KeyState::Unchanged;
            let mut j: usize = 0;
            proof {
                assert(events@.take(0) =~= Seq::<RawEvent>::empty());
            }
            while j < events.len()
                invariant
                    0 <= j <= events@.len(),
                    d == down_after(d0, key_flags(events@.take(j as int), k)),
                    st == state_after(d0, key_flags(events@.take(j as int), k)),
                decreases events@.len() - j,
            {
                proof {
                    assert(events@.take(j as int + 1).drop_last() =~= events@.take(j as int));
                    assert(events@.take(j as int + 1).last() == events@[j as int]);
                }
                match events[j] {
                    RawEvent::KeyInput { key, is_down } => {
                        if key == k {
                            proof {
                                assert(key_flags(events@.take(j as int + 1), k).drop_last()
                                    =~= key_flags(events@.take(j as int), k));
                            }
                            if is_down && !d {
                                d = true;
                                st = KeyState::JustPressed;
                            } else if !is_down && d {
                                d = false;
                                st = KeyState::JustReleased;
                            } else {
                                st = KeyState::Unchanged;
                            }
                        }
                    },
                    RawEvent::Ignored => {},
                }
                j += 1;
            }
            proof {
                assert(events@.take(events@.len() as int) =~= events@);
            }
            new_down.push(d);
            states.push((k, st));
            i += 1;
        }
        self.down = new_down;
        self.now = InputSnapshot { states };
    }
}

/// Whether key `k` is held just before frame `j`, starting from `init` and
/// folding each earlier frame's events in order.
pub open spec fn down_before_frame(init: bool, frames: Seq<Seq<RawEvent>>, k: Key, j: int) -> bool
    decreases j,
{
    if j <= 0 {
        init
    } else {
        down_after(down_before_frame(init, frames, k, j - 1), key_flags(frames[j - 1], k))
    }
}

/// The edge key `k` reports on frame `j` of a run that started with held
/// state `init`.
pub open spec fn frame_state(init: bool, frames: Seq<Seq<RawEvent>>, k: Key, j: int) -> KeyState {
    state_after(down_before_frame(init, frames, k, j), key_flags(frames[j], k))
}

/// Edge detection: on any frame of any run, a key reports `JustPressed`
/// exactly when its last event this frame is a press and the key was up
/// just before that event, and `JustReleased` exactly when its last event
/// is a release and the key was down just before it; a frame with no event
/// for the key reports `Unchanged` and leaves the held state alone,
/// whether or not the key is held.
pub proof fn lemma_edge_detection(init: bool, frames: Seq<Seq<RawEvent>>, k: Key, j: int)
    requires
        0 <= j < frames.len(),
    ensures
        key_flags(frames[j], k).len() == 0 ==> frame_state(init, frames, k, j)
            == KeyState::Unchanged,
        key_flags(frames[j], k).len() == 0 ==> down_before_frame(init, frames, k, j + 1)
            == down_before_frame(init, frames, k, j),
        frame_state(init, frames, k, j) == KeyState::JustPressed <==> (key_flags(frames[j], k).len()
            > 0 && key_flags(frames[j], k).last() && !down_after(
            down_before_frame(init, frames, k, j),
            key_flags(frames[j], k).drop_last(),
        )),
        frame_state(init, frames, k, j) == KeyState::JustReleased <==> (key_flags(
            frames[j],
            k,
        ).len() > 0 && !key_flags(frames[j], k).last() && down_after(
            down_before_frame(init, frames, k, j),
            key_flags(frames[j], k).drop_last(),
        )),
{
}

/// Whether the application loop's sole shutdown signal holds: the escape
/// key was just pressed this frame.
pub fn should_quit(snap: &InputSnapshot) -> (r: bool)
    ensures
        r == (snap_get(snap@, Key::Escape) == KeyState::JustPressed),
{
    let st = snap.get(Key::Escape);
    st == KeyState::JustPressed
}

/// A key with no events stays in the held state it started in.
proof fn lemma_down_stays(init: bool, frames: Seq<Seq<RawEvent>>, k: Key, j: int)
    requires
        0 <= j,
        forall|m: int| 0 <= m < j ==> key_flags(frames[m], k).len() == 0,
    ensures
        down_before_frame(init, frames, k, j) == init,
    decreases j,
{
    if j > 0 {
        lemma_down_stays(init, frames, k, j - 1);
    }
}

/// Termination of the application loop: if the escape key starts up, no
/// escape event arrives before frame `k`, and frame `k` carries exactly one
/// escape event, a press, then the shutdown signal first holds on frame
/// `k` — a loop that renders each frame until the signal holds performs
/// exactly `k` render cycles, for frames 0 through `k - 1`.
pub proof fn lemma_termination(frames: Seq<Seq<RawEvent>>, k: int)
    requires
        0 <= k < frames.len(),
        forall|j: int| 0 <= j < k ==> key_flags(frames[j], Key::Escape).len() == 0,
        key_flags(frames[k], Key::Escape) =~= seq![true],
    ensures
        frame_state(false, frames, Key::Escape, k) == KeyState::JustPressed,
        forall|j: int|
            0 <= j < k ==> frame_state(false, frames, Key::Escape, j) != KeyState::JustPressed,
{
    lemma_down_stays(false, frames, Key::Escape, k);
    assert(key_flags(frames[k], Key::Escape).drop_last() =~= Seq::<bool>::empty());
    assert forall|j: int| 0 <= j < k implies frame_state(false, frames, Key::Escape, j)
        != KeyState::JustPressed by {
        lemma_down_stays(false, frames, Key::Escape, j);
    }
}

/// What one application-loop step decides after polling a frame's events.
#[derive(Clone, Copy, PartialEq, Eq, Structural, Debug)]
pub enum FrameOutcome {
    Continue,
    Stop,
}

/// One step of the application loop, without its outside work: diff the
/// frame's raw events into a fresh snapshot, then decide whether the loop
/// stops. The loop around it renders a frame exactly when this returns
/// `Continue`.
pub fn run_frame(pump: &mut EventPump, events: &Vec<RawEvent>) -> (r: FrameOutcome)
    requires
        old(pump).wf(),
    ensures
        final(pump).wf(),
        final(pump).keys@ == old(pump).keys@,
        forall|i: int|
            0 <= i < old(pump).keys@.len() ==> final(pump).down@[i] == down_after(
                old(pump).down@[i],
                key_flags(events@, old(pump).keys@[i]),
            ),
        forall|i: int|
            0 <= i < old(pump).keys@.len() ==> final(pump).now@[i].1 == state_after(
                old(pump).down@[i],
                key_flags(events@, old(pump).keys@[i]),
            ),
        r == FrameOutcome::Stop <==> snap_get(final(pump).now@, Key::Escape)
            == KeyState::JustPressed,
{
    pump.pump(events);
    if should_quit(&pump.now) {
        FrameOutcome::Stop
    } else {
        FrameOutcome::Continue
    }
}

} // verus!
