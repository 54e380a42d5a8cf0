//! What the session remembers of each sound between runs, and how it is
//! recorded and restored.

use vstd::prelude::*;
use crate::app::{App, SoundState};
use crate::sound::{views, Sound, SoundView};

verus! {

/// The mathematical value of a [`SoundState`].
pub struct StateView {
    pub id: Seq<char>,
    pub enabled: bool,
    pub volume_bits: u32,
}

impl View for SoundState {
    type V = StateView;

    open spec fn view(&self) -> StateView {
        StateView { id: self.id@, enabled: self.enabled, volume_bits: self.volume_bits }
    }
}

/// The views of saved sound states.
pub open spec fn state_views(v: Seq<SoundState>) -> Seq<StateView> {
    v.map_values(|s: SoundState| s@)
}

/// Index of the first state saved for `id`.
pub open spec fn state_index(st: Seq<StateView>, id: Seq<char>) -> Option<int>
    decreases st.len(),
{
    if st.len() == 0 {
        None
    } else if st[0].id == id {
        Some(0)
    } else {
        match state_index(st.drop_first(), id) {
            Some(i) => Some(i + 1),
            None => None,
        }
    }
}

/// The state saved for `id`.
pub open spec fn lookup_state(st: Seq<StateView>, id: Seq<char>) -> Option<StateView> {
    match state_index(st, id) {
        Some(i) => Some(st[i]),
        None => None,
    }
}

/// `st` with the state for `e.id` set to `e`.
pub open spec fn upsert_state(st: Seq<StateView>, e: StateView) -> Seq<StateView> {
    match state_index(st, e.id) {
        Some(i) => st.update(i, e),
        None => st.push(e),
    }
}

/// The states after recording the first `n` sounds, `playing[i]` telling
/// whether sound `i` is playing.
pub open spec fn recorded(st: Seq<StateView>, s: Seq<SoundView>, playing: Seq<bool>, n: int) -> Seq<
    StateView,
>
    decreases n,
{
    if n <= 0 {
        st
    } else {
        upsert_state(
            recorded(st, s, playing, n - 1),
            StateView { id: s[n - 1].id, enabled: playing[n - 1], volume_bits: s[n - 1].volume_bits },
        )
    }
}

/// A sound with its saved volume, if one was saved.
pub open spec fn restored(s: SoundView, st: Seq<StateView>) -> SoundView {
    match lookup_state(st, s.id) {
        Some(e) => SoundView { volume_bits: e.volume_bits, ..s },
        None => s,
    }
}

/// Indices below `n` of the sounds saved as playing, in increasing order.
pub open spec fn autoplay_indices(s: Seq<SoundView>, st: Seq<StateView>, n: int) -> Seq<int>
    decreases n,
{
    if n <= 0 {
        seq![]
    } else {
        let before = autoplay_indices(s, st, n - 1);
        match lookup_state(st, s[n - 1].id) {
            Some(e) => if e.enabled {
                before.push(n - 1)
            } else {
                before
            },
            None => before,
        }
    }
}

/// The index, when present, holds a state for `id`, and no earlier one does.
pub proof fn lemma_state_index(st: Seq<StateView>, id: Seq<char>)
    ensures
        state_index(st, id) matches Some(i) ==> 0 <= i < st.len() && st[i].id == id && forall|
            j: int,
        | 0 <= j < i ==> st[j].id != id,
        state_index(st, id) is None ==> forall|j: int| 0 <= j < st.len() ==> st[j].id != id,
    decreases st.len(),
{
    if st.len() > 0 {
        lemma_state_index(st.drop_first(), id);
        if st[0].id != id {
            assert forall|j: int| 1 <= j < st.len() implies st[j] == st.drop_first()[j - 1] by {}
        }
    }
}

/// The first index holding `id` is the index.
proof fn lemma_state_index_is(st: Seq<StateView>, id: Seq<char>, k: int)
    ensures
        0 <= k < st.len() && st[k].id == id && (forall|j: int| 0 <= j < k ==> st[j].id != id)
            ==> state_index(st, id) == Some(k),
        (forall|j: int| 0 <= j < st.len() ==> st[j].id != id) ==> state_index(st, id) is None,
{
    lemma_state_index(st, id);
    if state_index(st, id) is Some {
        let r = state_index(st, id)->0;
        assert(st[r].id == id);
    }
}

/// The states of `st` for ids other than `e.id` are unchanged by setting `e`,
/// and the state for `e.id` becomes `e`.
pub proof fn lemma_upsert_lookup(st: Seq<StateView>, e: StateView, id: Seq<char>)
    ensures
        lookup_state(upsert_state(st, e), id) == if id == e.id {
            Some(e)
        } else {
            lookup_state(st, id)
        },
{
    let u = upsert_state(st, e);
    lemma_state_index(st, e.id);
    lemma_state_index(st, id);
    match state_index(st, e.id) {
        Some(k) => {
            assert(u == st.update(k, e));
            if id == e.id {
                lemma_state_index_is(u, id, k);
            } else {
                match state_index(st, id) {
                    Some(r) => {
                        assert(r != k);
                        lemma_state_index_is(u, id, r);
                    },
                    None => {
                        lemma_state_index_is(u, id, 0);
                    },
                }
            }
        },
        None => {
            assert(u == st.push(e));
            if id == e.id {
                lemma_state_index_is(u, id, st.len() as int);
            } else {
                match state_index(st, id) {
                    Some(r) => {
                        lemma_state_index_is(u, id, r);
                    },
                    None => {
                        lemma_state_index_is(u, id, 0);
                    },
                }
            }
        },
    }
}

/// No two saved states share an id.
pub open spec fn ids_distinct(st: Seq<StateView>) -> bool {
    forall|a: int, b: int| 0 <= a < b < st.len() ==> #[trigger] st[a].id != #[trigger] st[b].id
}

/// Recording keeps the saved states one per id: a recorded sound replaces
/// the state saved for its id, or is added when there is none.
pub proof fn law_recorded_ids_distinct(st: Seq<StateView>, s: Seq<SoundView>, playing: Seq<bool>, n: int)
    requires
        ids_distinct(st),
        n <= s.len(),
        n <= playing.len(),
    ensures
        ids_distinct(recorded(st, s, playing, n)),
    decreases n,
{
    if n > 0 {
        law_recorded_ids_distinct(st, s, playing, n - 1);
        let prev = recorded(st, s, playing, n - 1);
        let e = StateView { id: s[n - 1].id, enabled: playing[n - 1], volume_bits: s[n - 1].volume_bits };
        lemma_state_index(prev, e.id);
        let next = upsert_state(prev, e);
        assert forall|a: int, b: int| 0 <= a < b < next.len() implies #[trigger] next[a].id
            != #[trigger] next[b].id by {
            if a < prev.len() && b < prev.len() {
                assert(prev[a].id != prev[b].id);
            }
        }
    }
}

/// After recording, the state saved for each recorded sound is the one
/// recorded for it, when no two sounds share an id.
pub proof fn law_recorded_state_read_back(
    st: Seq<StateView>,
    s: Seq<SoundView>,
    playing: Seq<bool>,
    n: int,
    i: int,
)
    requires
        0 <= i < n <= s.len(),
        n <= playing.len(),
        forall|a: int, b: int| 0 <= a < b < s.len() ==> #[trigger] s[a].id != #[trigger] s[b].id,
    ensures
        lookup_state(recorded(st, s, playing, n), s[i].id) == Some(
            StateView { id: s[i].id, enabled: playing[i], volume_bits: s[i].volume_bits },
        ),
    decreases n,
{
    let e = StateView { id: s[n - 1].id, enabled: playing[n - 1], volume_bits: s[n - 1].volume_bits };
    lemma_upsert_lookup(recorded(st, s, playing, n - 1), e, s[i].id);
    if i < n - 1 {
        law_recorded_state_read_back(st, s, playing, n - 1, i);
    }
}

/// Saving the session and restoring it on the same library gives every
/// sound its own volume back and plays again exactly the sounds that were
/// playing, when no two sounds share an id.
pub proof fn law_session_round_trip(st: Seq<StateView>, s: Seq<SoundView>, playing: Seq<bool>)
    requires
        playing.len() == s.len(),
        forall|a: int, b: int| 0 <= a < b < s.len() ==> #[trigger] s[a].id != #[trigger] s[b].id,
    ensures
        forall|i: int|
            0 <= i < s.len() ==> #[trigger] restored(s[i], recorded(st, s, playing, s.len() as int))
                == s[i],
        forall|n: int|
            0 <= n <= s.len() ==> #[trigger] autoplay_indices(
                s,
                recorded(st, s, playing, s.len() as int),
                n,
            ) == played_indices(playing, n),
{
    let r = recorded(st, s, playing, s.len() as int);
    assert forall|i: int| 0 <= i < s.len() implies #[trigger] restored(s[i], r) == s[i] by {
        law_recorded_state_read_back(st, s, playing, s.len() as int, i);
    }
    assert forall|n: int| 0 <= n <= s.len() implies #[trigger] autoplay_indices(s, r, n)
        == played_indices(playing, n) by {
        lemma_autoplay_prefix(st, s, playing, n);
    }
}

/// Indices below `n` where `playing` holds.
pub open spec fn played_indices(playing: Seq<bool>, n: int) -> Seq<int>
    decreases n,
{
    if n <= 0 {
        seq![]
    } else if playing[n - 1] {
        played_indices(playing, n - 1).push(n - 1)
    } else {
        played_indices(playing, n - 1)
    }
}

proof fn lemma_autoplay_prefix(st: Seq<StateView>, s: Seq<SoundView>, playing: Seq<bool>, n: int)
    requires
        playing.len() == s.len(),
        0 <= n <= s.len(),
        forall|a: int, b: int| 0 <= a < b < s.len() ==> #[trigger] s[a].id != #[trigger] s[b].id,
    ensures
        autoplay_indices(s, recorded(st, s, playing, s.len() as int), n) == played_indices(
            playing,
            n,
        ),
    decreases n,
{
    if n > 0 {
        lemma_autoplay_prefix(st, s, playing, n - 1);
        law_recorded_state_read_back(st, s, playing, s.len() as int, n - 1);
    }
}

/// Position of the state saved for `id`.
fn find_state(states: &Vec<SoundState>, id: &String) -> (r: Option<usize>)
    ensures
        match r {
            Some(i) => state_index(state_views(states@), id@) == Some(i as int) && i < states@.len(),
            None => state_index(state_views(states@), id@) is None,
        },
{
    let ghost st = state_views(states@);
    let mut i: usize = 0;
    assert(st.skip(0) =~= st);
    while i < states.len()
        invariant
            i <= states.len(),
            st == state_views(states@),
            state_index(st, id@) == match state_index(st.skip(i as int), id@) {
                Some(k) => Some(k + i),
                None => None,
            },
        decreases states.len() - i,
    {
        assert(st.skip(i as int)[0] == states@[i as int]@);
        if states[i].id == *id {
            return Some(i);
        }
        assert(st.skip(i as int).drop_first() =~= st.skip(i + 1));
        i = i + 1;
    }
    None
}

impl App {
    /// Gives each sound its saved volume and returns, in order, the indices
    /// of the sounds saved as playing.
    pub fn apply_session_volumes(&mut self) -> (r: Vec<usize>)
        ensures
            views(final(self).sounds@) == views(old(self).sounds@).map_values(
                |s: SoundView| restored(s, state_views(old(self).session.sounds@)),
            ),
            r@.map_values(|i: usize| i as int) == autoplay_indices(
                views(old(self).sounds@),
                state_views(old(self).session.sounds@),
                old(self).sounds@.len() as int,
            ),
            *final(self) == (App { sounds: final(self).sounds, ..*old(self) }),
    {
        let ghost s0 = views(self.sounds@);
        let ghost st = state_views(self.session.sounds@);
        let mut sounds: Vec<Sound> = Vec::new();
        std::mem::swap(&mut sounds, &mut self.sounds);
        let n = sounds.len();
        let mut out: Vec<Sound> = Vec::new();
        let mut play: Vec<usize> = Vec::new();
        let mut i: usize = 0;
        while i < n
            invariant
                i <= n,
                n == s0.len(),
                st == state_views(self.session.sounds@),
                sounds@.len() == n - i,
                views(sounds@) == s0.skip(i as int),
                views(out@) == s0.take(i as int).map_values(|s: SoundView| restored(s, st)),
                play@.map_values(|k: usize| k as int) == autoplay_indices(s0, st, i as int),
                *self == (App { sounds: self.sounds, ..*old(self) }),
            decreases n - i,
        {
            let ghost rest = sounds@;
            let mut snd = sounds.remove(0);
            assert(snd@ == s0[i as int]) by {
                assert(views(rest)[0] == rest[0]@);
                assert(s0.skip(i as int)[0] == s0[i as int]);
            }
            assert(views(sounds@) =~= s0.skip(i + 1)) by {
                assert(views(sounds@) =~= views(rest).drop_first());
            }
            let ghost prev_play = play@;
            match find_state(&self.session.sounds, &snd.id) {
                Some(k) => {
                    assert(st[k as int] == self.session.sounds@[k as int]@);
                    snd.volume_bits = self.session.sounds[k].volume_bits;
                    if self.session.sounds[k].enabled {
                        play.push(i);
                    }
                },
                None => {},
            }
            let ghost prev_out = out@;
            out.push(snd);
            assert(views(out@) =~= views(prev_out).push(snd@));
            assert(s0.take(i + 1) =~= s0.take(i as int).push(s0[i as int]));
            assert(s0.take(i + 1).map_values(|s: SoundView| restored(s, st)) =~= s0.take(
                i as int,
            ).map_values(|s: SoundView| restored(s, st)).push(restored(s0[i as int], st)));
            assert(play@.map_values(|k: usize| k as int) =~= autoplay_indices(s0, st, i + 1)) by {
                if play@.len() > prev_play.len() {
                    assert(play@ =~= prev_play.push(i));
                } else {
                    assert(play@ =~= prev_play);
                }
            }
            i = i + 1;
        }
        assert(s0.take(n as int) =~= s0);
        self.sounds = out;
        play
    }

    /// Records in the session, for each sound in order, whether it is
    /// playing (`playing[i]`) and its volume.
    pub fn record_session(&mut self, playing: &Vec<bool>)
        requires
            playing@.len() == old(self).sounds@.len(),
        ensures
            state_views(final(self).session.sounds@) == recorded(
                state_views(old(self).session.sounds@),
                views(old(self).sounds@),
                playing@,
                old(self).sounds@.len() as int,
            ),
            final(self).session.global_volume_bits == old(self).session.global_volume_bits,
            *final(self) == (App { session: final(self).session, ..*old(self) }),
    {
        let ghost st0 = state_views(self.session.sounds@);
        let ghost s = views(self.sounds@);
        let n = self.sounds.len();
        for i in 0..n
            invariant
                n == self.sounds@.len(),
                playing@.len() == self.sounds@.len(),
                s == views(self.sounds@),
                *self == (App { session: self.session, ..*old(self) }),
                self.session.global_volume_bits == old(self).session.global_volume_bits,
                state_views(self.session.sounds@) == recorded(st0, s, playing@, i as int),
        {
            let snd = &self.sounds[i];
            assert(s[i as int] == snd@);
            let entry = SoundState { id: snd.id.clone(), enabled: playing[i], volume_bits: snd.volume_bits };
            let ghost before = state_views(self.session.sounds@);
            match find_state(&self.session.sounds, &snd.id) {
                Some(k) => {
                    let mut states: Vec<SoundState> = Vec::new();
                    std::mem::swap(&mut states, &mut self.session.sounds);
                    let _ = states.remove(k);
                    states.insert(k, entry);
                    self.session.sounds = states;
                    assert(state_views(self.session.sounds@) =~= before.update(k as int, entry@));
                },
                None => {
                    self.session.sounds.push(entry);
                    assert(state_views(self.session.sounds@) =~= before.push(entry@));
                },
            }
        }
    }
}

} // verus!
