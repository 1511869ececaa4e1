//! The host agent's window bookkeeping: what the compositor's
//! foreign-toplevel events say about each open window, and the
//! (not yet available) per-window capture.

use vstd::prelude::*;

use std::collections::HashMap;

use vstd::std_specs::hash::spec_hash_map_iter;
use vstd::std_specs::iter::IteratorSpec;

use crate::protocol::{WindowId, WindowInfo};

verus! {

broadcast use vstd::std_specs::hash::group_hash_axioms;

// ---------------------------------------------------------------------------
// Capture
// ---------------------------------------------------------------------------

/// Why a capture failed.
#[derive(Debug, PartialEq, Eq)]
pub enum CaptureError {
    /// Per-window capture needs a protocol this agent does not speak yet.
    NotImplemented,
}

/// One captured, encoded frame.
pub struct CapturedFrame {
    pub width: u32,
    pub height: u32,
    pub data: Vec<u8>,
}

/// Captures one window: not implemented, so it always says so.
pub fn capture_window(window: WindowId) -> (r: Result<CapturedFrame, CaptureError>)
    ensures
        r matches Err(CaptureError::NotImplemented),
{
    Err(CaptureError::NotImplemented)
}

// ---------------------------------------------------------------------------
// Toplevel tracking
// ---------------------------------------------------------------------------

/// What is known of one toplevel window.
pub struct ToplevelState {
    pub title: String,
    pub app_id: String,
    pub focused: bool,
}

/// The abstract value of a [`ToplevelState`].
pub struct ToplevelView {
    pub title: Seq<char>,
    pub app_id: Seq<char>,
    pub focused: bool,
}

impl View for ToplevelState {
    type V = ToplevelView;

    open spec fn view(&self) -> ToplevelView {
        ToplevelView { title: self.title@, app_id: self.app_id@, focused: self.focused }
    }
}

/// A freshly announced toplevel: no title, no app id, not focused.
pub open spec fn fresh_toplevel() -> ToplevelView {
    ToplevelView { title: Seq::empty(), app_id: Seq::empty(), focused: false }
}

/// One event of a toplevel handle, as the compositor sends it.
pub enum ToplevelEvent {
    Title(String),
    AppId(String),
    /// The handle's state array: native-endian 32-bit state values.
    State(Vec<u8>),
    Closed,
    /// Any other event of the handle (outputs, parent, done).
    Other,
}

/// Whether some complete four-byte entry of `states` (in order, from the
/// start) equals `activated`.
pub open spec fn has_state(states: Seq<u8>, activated: Seq<u8>) -> bool {
    exists|i: int| 0 <= i < states.len() / 4 && #[trigger] states.subrange(4 * i, 4 * i + 4) == activated
}

/// A state array in which any complete four-byte entry, wherever it stands,
/// equals `activated` holds that state; and one that holds it has such an
/// entry.
pub proof fn lemma_state_entry_anywhere(states: Seq<u8>, activated: Seq<u8>, i: int)
    ensures
        0 <= i < states.len() / 4 && states.subrange(4 * i, 4 * i + 4) == activated ==> has_state(
            states,
            activated,
        ),
        has_state(states, activated) ==> exists|j: int|
            0 <= j < states.len() / 4 && #[trigger] states.subrange(4 * j, 4 * j + 4) == activated,
{
}

/// The value of the `activated` state in the wlr foreign-toplevel protocol.
pub const TOPLEVEL_STATE_ACTIVATED: u32 = 2;

/// The four little-endian bytes of `v`.
pub open spec fn le_bytes_u32(v: u32) -> Seq<u8> {
    seq![(v % 256) as u8, ((v / 256) % 256) as u8, ((v / 65536) % 256) as u8, (v / 16777216) as u8]
}

/// The four big-endian bytes of `v`.
pub open spec fn be_bytes_u32(v: u32) -> Seq<u8> {
    seq![(v / 16777216) as u8, ((v / 65536) % 256) as u8, ((v / 256) % 256) as u8, (v % 256) as u8]
}

/// `u32::to_ne_bytes`: the bytes of `v` in the machine's native order, which
/// Rust's targets have little- or big-endian; the order `u32::from_ne_bytes`
/// reads back.
#[verifier::external_body]
fn u32_to_ne_bytes(v: u32) -> (b: [u8; 4])
    ensures
        b@ == le_bytes_u32(v) || b@ == be_bytes_u32(v),
{
    v.to_ne_bytes()
}

/// Whether `b` is the protocol's `activated` value in one of the two byte
/// orders a machine can have; `u32::from_ne_bytes` reads exactly the bytes
/// `u32::to_ne_bytes` writes, so on a given machine these are the bytes whose
/// native-endian value is `activated`.
pub open spec fn native_activated_bytes(b: Seq<u8>) -> bool {
    b == le_bytes_u32(TOPLEVEL_STATE_ACTIVATED) || b == be_bytes_u32(TOPLEVEL_STATE_ACTIVATED)
}

/// The open toplevels the compositor has announced, by protocol object id.
pub struct AppState {
    toplevels: HashMap<u32, ToplevelState>,
    /// The native-endian bytes of the `activated` state value.
    activated: [u8; 4],
}

impl View for AppState {
    type V = Map<u32, ToplevelView>;

    closed spec fn view(&self) -> Map<u32, ToplevelView> {
        self.toplevels@.map_values(|t: ToplevelState| t@)
    }
}

impl AppState {
    /// The native-endian bytes of the `activated` state this tracker looks for.
    pub closed spec fn activated_state(self) -> Seq<u8> {
        self.activated@
    }

    /// Every tracker looks for the native-endian bytes of the protocol's
    /// `activated` value.
    #[verifier::type_invariant]
    spec fn looks_for_activated(self) -> bool {
        native_activated_bytes(self.activated@)
    }

    /// An empty tracker for the wlr foreign-toplevel protocol: a toplevel
    /// is focused when its state array holds the native-endian bytes of
    /// [`TOPLEVEL_STATE_ACTIVATED`].
    pub fn new() -> (s: AppState)
        ensures
            s@ == Map::<u32, ToplevelView>::empty(),
            native_activated_bytes(s.activated_state()),
    {
        let s = AppState { toplevels: HashMap::new(), activated: u32_to_ne_bytes(TOPLEVEL_STATE_ACTIVATED) };
        assert(s@ =~= Map::<u32, ToplevelView>::empty());
        s
    }

    /// The bytes of the `activated` state this tracker looks for.
    pub fn activated_bytes(&self) -> (b: [u8; 4])
        ensures
            b@ == self.activated_state(),
            native_activated_bytes(b@),
    {
        proof {
            use_type_invariant(self);
        }
        self.activated
    }

    /// Sets the state of toplevel `id`, adding the toplevel if it is new.
    fn set(&mut self, id: u32, state: ToplevelState)
        ensures
            final(self)@ == old(self)@.insert(id, state@),
            final(self).activated_state() == old(self).activated_state(),
    {
        let ghost v = state@;
        proof {
            use_type_invariant(&*self);
        }
        let mut toplevels = HashMap::new();
        std::mem::swap(&mut toplevels, &mut self.toplevels);
        toplevels.insert(id, state);
        self.toplevels = toplevels;
        assert(self@ =~= old(self)@.insert(id, v));
    }

    /// The state of toplevel `id`, a fresh one if it is unknown.
    fn current(&self, id: u32) -> (s: ToplevelState)
        ensures
            self@.contains_key(id) ==> s@ == self@[id],
            !self@.contains_key(id) ==> s@ == fresh_toplevel(),
    {
        match self.toplevels.get(&id) {
            Some(t) => ToplevelState { title: t.title.clone(), app_id: t.app_id.clone(), focused: t.focused },
            None => ToplevelState { title: String::new(), app_id: String::new(), focused: false },
        }
    }

    /// The manager announced a new toplevel `id`: it starts out fresh.
    pub fn on_toplevel(&mut self, id: u32)
        ensures
            final(self)@ == old(self)@.insert(id, fresh_toplevel()),
            final(self).activated_state() == old(self).activated_state(),
    {
        let t = ToplevelState { title: String::new(), app_id: String::new(), focused: false };
        self.set(id, t);
    }

    /// Whether a state array holds the `activated` entry, reading it four
    /// bytes at a time from the start.
    fn states_activated(&self, states: &Vec<u8>) -> (r: bool)
        requires
            states@.len() % 4 == 0 || has_state(states@, self.activated_state()),
        ensures
            r == has_state(states@, self.activated_state()),
    {
        let ghost act = self.activated@;
        let mut i: usize = 0;
        while states.len() - i >= 4
            invariant
                0 <= i <= states@.len(),
                i % 4 == 0,
                act == self.activated@,
                forall|j: int| 0 <= j < i / 4 ==> #[trigger] states@.subrange(4 * j, 4 * j + 4) != act,
            decreases states@.len() - i,
        {
            if states[i] == self.activated[0] && states[i + 1] == self.activated[1]
                && states[i + 2] == self.activated[2] && states[i + 3] == self.activated[3] {
                proof {
                    let j = i as int / 4;
                    assert(states@.subrange(4 * j, 4 * j + 4) =~= act);
                }
                return true;
            }
            proof {
                let j = i as int / 4;
                assert(4 * j == i);
                assert(states@.subrange(4 * j, 4 * j + 4)[0] == states@[i as int]);
                assert(states@.subrange(4 * j, 4 * j + 4)[1] == states@[i + 1]);
                assert(states@.subrange(4 * j, 4 * j + 4)[2] == states@[i + 2]);
                assert(states@.subrange(4 * j, 4 * j + 4)[3] == states@[i + 3]);
                assert(act[0] == self.activated[0]);
            }
            i = i + 4;
        }
        false
    }

    /// Applies one handle event of toplevel `id`. Every event first makes
    /// sure the toplevel is known (fresh if it was not); `Closed` then drops it.
    pub fn on_handle_event(&mut self, id: u32, event: ToplevelEvent)
        requires
            event matches ToplevelEvent::State(states) ==> (states@.len() % 4 == 0 || has_state(
                states@,
                old(self).activated_state(),
            )),
        ensures
            native_activated_bytes(old(self).activated_state()),
            final(self).activated_state() == old(self).activated_state(),
            ({
                let base = if old(self)@.contains_key(id) { old(self)@[id] } else { fresh_toplevel() };
                match event {
                    ToplevelEvent::Title(t) => final(self)@ == old(self)@.insert(id, ToplevelView { title: t@, ..base }),
                    ToplevelEvent::AppId(a) => final(self)@ == old(self)@.insert(id, ToplevelView { app_id: a@, ..base }),
                    ToplevelEvent::State(states) => final(self)@ == old(self)@.insert(
                        id,
                        ToplevelView { focused: has_state(states@, old(self).activated_state()), ..base },
                    ),
                    ToplevelEvent::Closed => final(self)@ == old(self)@.remove(id),
                    ToplevelEvent::Other => final(self)@ == old(self)@.insert(id, base),
                }
            }),
    {
        proof {
            use_type_invariant(&*self);
        }
        let mut entry = self.current(id);
        match event {
            ToplevelEvent::Title(t) => {
                entry.title = t;
                self.set(id, entry);
            },
            ToplevelEvent::AppId(a) => {
                entry.app_id = a;
                self.set(id, entry);
            },
            ToplevelEvent::State(states) => {
                entry.focused = self.states_activated(&states);
                self.set(id, entry);
            },
            ToplevelEvent::Closed => {
                self.remove(id);
            },
            ToplevelEvent::Other => {
                self.set(id, entry);
            },
        }
    }

    /// Forgets toplevel `id`.
    fn remove(&mut self, id: u32)
        ensures
            final(self)@ == old(self)@.remove(id),
            final(self).activated_state() == old(self).activated_state(),
    {
        proof {
            use_type_invariant(&*self);
        }
        let mut toplevels = HashMap::new();
        std::mem::swap(&mut toplevels, &mut self.toplevels);
        let _ = toplevels.remove(&id);
        self.toplevels = toplevels;
        assert(self@ =~= old(self)@.remove(id));
    }

    /// The windows known so far, each once: ids widened to 64 bits, sizes 0
    /// (the toplevel protocol reports no pixel size).
    pub fn into_windows(self) -> (r: Vec<WindowInfo>)
        ensures
            r@.len() == self@.dom().len(),
            forall|i: int| #![trigger r@[i]] 0 <= i < r@.len() ==> ({
                let w = r@[i];
                &&& w.id.0 <= u32::MAX
                &&& self@.contains_key(w.id.0 as u32)
                &&& w.title@ == self@[w.id.0 as u32].title
                &&& w.app_id@ == self@[w.id.0 as u32].app_id
                &&& w.focused == self@[w.id.0 as u32].focused
                &&& w.width == 0
                &&& w.height == 0
            }),
            forall|k: u32| #[trigger] self@.contains_key(k) ==> exists|i: int| 0 <= i < r@.len() && r@[i].id.0 == k,
    {
        let ghost m = self@;
        let mut r: Vec<WindowInfo> = Vec::new();
        for entry in it: self.toplevels.iter()
            invariant
                m == self@,
                r@.len() == it.index(),
                it.seq() == spec_hash_map_iter(&self.toplevels).remaining(),
                forall|j: int| #![trigger r@[j]] 0 <= j < it.index() ==> ({
                    let w = r@[j];
                    &&& w.id.0 == *it.seq()[j].0
                    &&& w.title@ == it.seq()[j].1.title@
                    &&& w.app_id@ == it.seq()[j].1.app_id@
                    &&& w.focused == it.seq()[j].1.focused
                    &&& w.width == 0
                    &&& w.height == 0
                }),
        {
            let (id, t) = entry;
            let w = WindowInfo {
                id: WindowId(*id as u64),
                title: t.title.clone(),
                app_id: t.app_id.clone(),
                width: 0,
                height: 0,
                focused: t.focused,
            };
            r.push(w);
        }
        proof {
            let v = spec_hash_map_iter(&self.toplevels).remaining();
            assert forall|j: int| #![trigger r@[j]] 0 <= j < r@.len() implies ({
                let w = r@[j];
                &&& w.id.0 <= u32::MAX
                &&& m.contains_key(w.id.0 as u32)
                &&& w.title@ == m[w.id.0 as u32].title
                &&& w.app_id@ == m[w.id.0 as u32].app_id
                &&& w.focused == m[w.id.0 as u32].focused
                &&& w.width == 0
                &&& w.height == 0
            }) by {
                assert(self.toplevels@.contains_key(*v[j].0));
                assert(self.toplevels@[*v[j].0] == *v[j].1);
            }
            assert forall|k: u32| #[trigger] m.contains_key(k) implies exists|i: int| 0 <= i < r@.len() && r@[i].id.0 == k by {
                assert(self.toplevels@.contains_key(k));
                assert(v.contains((&k, &self.toplevels@[k])));
                let i = choose|i: int| 0 <= i < v.len() && v[i] == (&k, &self.toplevels@[k]);
                assert(r@[i].id.0 == k);
            }
            assert(m.dom() =~= self.toplevels@.dom());
        }
        r
    }
}

}
