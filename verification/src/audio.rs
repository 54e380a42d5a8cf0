//! Bookkeeping of the audio engine: which sounds play, which fade out, and
//! at what volume. The engine is generic in the sink type `S`; the caller
//! owns the audio device, builds sinks, and applies the volumes and stops
//! that this bookkeeping asks for.

use vstd::prelude::*;
use crate::text::{chars_of, has_suffix, lowercase, to_lowercase, ends_with};

verus! {

/// IEEE-754 single-precision bit pattern of 1.0, the initial master volume.
pub const FULL_VOLUME_BITS: u32 = 0x3f80_0000u32;

/// Length of a fade, in nanoseconds: two seconds.
pub const FADE_NANOS: u128 = 2_000_000_000u128;

/// The largest span a `std::time::Duration` holds, in nanoseconds.
pub const MAX_DURATION_NANOS: u128 = 18_446_744_073_709_551_615_999_999_999u128;

/// A sink that is fading out after its sound was stopped.
pub struct FadingSink<S> {
    pub id: String,
    pub sink: S,
    /// Bit pattern of the `f32` sink volume when the fade began.
    pub start_volume_bits: u32,
    pub elapsed_nanos: u128,
    pub total_nanos: u128,
}

/// The playing and fading sinks, with the volume chosen for each sound.
pub struct AudioEngine<S> {
    /// One sink per playing sound id.
    pub sinks: Vec<(String, S)>,
    pub fading_sinks: Vec<FadingSink<S>>,
    /// Bit pattern of the `f32` master volume.
    pub master_volume_bits: u32,
    /// Bit pattern of the `f32` volume chosen for each sound id.
    pub sound_volumes: Vec<(String, u32)>,
    pub fade_nanos: u128,
}

/// What starting a sound requires of the caller.
pub enum PlayStart<S> {
    /// The sound already plays; nothing to do.
    AlreadyPlaying,
    /// Build a sink for the sound and hand it to [`AudioEngine::finish_play`];
    /// first stop `restarted`, the sound's sink that was still fading out.
    Start { restarted: Option<S> },
}

/// Whether `file_path` names an Opus stream (by its `.opus` or `.webm`
/// extension, ignoring case), which is decoded by the Opus decoder first.
pub open spec fn is_opus_file(file_path: Seq<char>) -> bool {
    has_suffix(lowercase(file_path), seq!['.', 'o', 'p', 'u', 's']) || has_suffix(
        lowercase(file_path),
        seq!['.', 'w', 'e', 'b', 'm'],
    )
}

/// Whether `file_path` names an Opus stream.
pub fn is_opus_path(file_path: &str) -> (r: bool)
    ensures
        r == is_opus_file(file_path@),
{
    let lower = chars_of(to_lowercase(file_path).as_str());
    ends_with(&lower, &vec!['.', 'o', 'p', 'u', 's']) || ends_with(&lower, &vec!['.', 'w', 'e', 'b', 'm'])
}

/// The ids of the sounds paired with values in `pairs`.
pub open spec fn pair_ids<T>(pairs: Seq<(String, T)>) -> Seq<Seq<char>> {
    pairs.map_values(|p: (String, T)| p.0@)
}

/// The ids of fading sinks.
pub open spec fn fade_ids<S>(f: Seq<FadingSink<S>>) -> Seq<Seq<char>> {
    f.map_values(|x: FadingSink<S>| x.id@)
}

/// Index of the first entry for `id`.
pub open spec fn first_index(ids: Seq<Seq<char>>, id: Seq<char>) -> Option<int>
    decreases ids.len(),
{
    if ids.len() == 0 {
        None
    } else if ids[0] == id {
        Some(0)
    } else {
        match first_index(ids.drop_first(), id) {
            Some(i) => Some(i + 1),
            None => None,
        }
    }
}

/// The value paired with `id`, if any.
pub open spec fn value_for<T>(pairs: Seq<(String, T)>, id: Seq<char>) -> Option<T> {
    match first_index(pair_ids(pairs), id) {
        Some(i) => Some(pairs[i].1),
        None => None,
    }
}

/// The index, when present, holds `id`, and no earlier one does; when
/// absent, no index holds `id`.
pub proof fn lemma_first_index(ids: Seq<Seq<char>>, id: Seq<char>)
    ensures
        first_index(ids, id) matches Some(i) ==> 0 <= i < ids.len() && ids[i] == id && forall|
            j: int,
        | 0 <= j < i ==> ids[j] != id,
        first_index(ids, id) is None ==> !ids.contains(id),
    decreases ids.len(),
{
    if ids.len() > 0 {
        lemma_first_index(ids.drop_first(), id);
        if ids[0] != id {
            assert forall|j: int| 1 <= j < ids.len() implies ids[j] == ids.drop_first()[j - 1] by {}
            if first_index(ids, id) is None {
                assert forall|j: int| 0 <= j < ids.len() implies ids[j] != id by {
                    if j > 0 {
                        assert(ids[j] == ids.drop_first()[j - 1]);
                    }
                }
            }
        }
    }
}

/// A copy of `s`.
fn owned(s: &str) -> (r: String)
    ensures
        r@ == s@,
{
    let r = s.to_string();
    proof {
        broadcast use vstd::string::group_string_axioms;
    }
    r
}

/// Position of the first entry for `id` in `pairs`.
fn find_pair<T>(pairs: &Vec<(String, T)>, id: &String) -> (r: Option<usize>)
    ensures
        match r {
            Some(i) => first_index(pair_ids(pairs@), id@) == Some(i as int),
            None => first_index(pair_ids(pairs@), id@) is None,
        },
{
    let ghost ids = pair_ids(pairs@);
    let mut i: usize = 0;
    assert(ids.skip(0) =~= ids);
    while i < pairs.len()
        invariant
            i <= pairs.len(),
            ids == pair_ids(pairs@),
            first_index(ids, id@) == match first_index(ids.skip(i as int), id@) {
                Some(k) => Some(k + i),
                None => None,
            },
        decreases pairs.len() - i,
    {
        assert(ids.skip(i as int)[0] == pairs@[i as int].0@);
        if pairs[i].0 == *id {
            return Some(i);
        }
        assert(ids.skip(i as int).drop_first() =~= ids.skip(i + 1));
        i = i + 1;
    }
    None
}

/// Position of the first fading sink for `id`.
fn find_fading<S>(f: &Vec<FadingSink<S>>, id: &String) -> (r: Option<usize>)
    ensures
        match r {
            Some(i) => first_index(fade_ids(f@), id@) == Some(i as int),
            None => first_index(fade_ids(f@), id@) is None,
        },
{
    let ghost ids = fade_ids(f@);
    let mut i: usize = 0;
    assert(ids.skip(0) =~= ids);
    while i < f.len()
        invariant
            i <= f.len(),
            ids == fade_ids(f@),
            first_index(ids, id@) == match first_index(ids.skip(i as int), id@) {
                Some(k) => Some(k + i),
                None => None,
            },
        decreases f.len() - i,
    {
        assert(ids.skip(i as int)[0] == f@[i as int].id@);
        if f[i].id == *id {
            return Some(i);
        }
        assert(ids.skip(i as int).drop_first() =~= ids.skip(i + 1));
        i = i + 1;
    }
    None
}

/// `s` with its element at `i` replaced by its last one, and shortened by one
/// (what `Vec::swap_remove` does).
pub open spec fn swap_removed<T>(s: Seq<T>, i: int) -> Seq<T> {
    s.update(i, s.last()).drop_last()
}

/// `s` after swap-removing the indices `idx` (increasing), largest first.
pub open spec fn swap_removed_all<T>(s: Seq<T>, idx: Seq<int>) -> Seq<T>
    decreases idx.len(),
{
    if idx.len() == 0 {
        s
    } else {
        swap_removed_all(swap_removed(s, idx.last()), idx.drop_last())
    }
}

/// A fading sink after `dt` more nanoseconds.
pub open spec fn advanced<S>(f: FadingSink<S>, dt: u128) -> FadingSink<S> {
    FadingSink { elapsed_nanos: (f.elapsed_nanos + dt) as u128, ..f }
}

/// Indices below `n` of the fades that are over.
pub open spec fn finished_indices<S>(f: Seq<FadingSink<S>>, n: int) -> Seq<int>
    decreases n,
{
    if n <= 0 {
        seq![]
    } else if f[n - 1].elapsed_nanos >= f[n - 1].total_nanos {
        finished_indices(f, n - 1).push(n - 1)
    } else {
        finished_indices(f, n - 1)
    }
}

impl<S> AudioEngine<S> {
    /// Nothing playing or fading, full master volume, two-second fades.
    pub fn new() -> (e: AudioEngine<S>)
        ensures
            e.sinks@.len() == 0,
            e.fading_sinks@.len() == 0,
            e.master_volume_bits == FULL_VOLUME_BITS,
            e.sound_volumes@.len() == 0,
            e.fade_nanos == FADE_NANOS,
            e.wf(),
    {
        let e = AudioEngine {
            sinks: Vec::new(),
            fading_sinks: Vec::new(),
            master_volume_bits: FULL_VOLUME_BITS,
            sound_volumes: Vec::new(),
            fade_nanos: FADE_NANOS,
        };
        assert(pair_ids(e.sinks@) =~= Seq::<Seq<char>>::empty());
        assert(fade_ids(e.fading_sinks@) =~= Seq::<Seq<char>>::empty());
        e
    }

    /// The ids of the playing sounds.
    pub open spec fn playing(&self) -> Seq<Seq<char>> {
        pair_ids(self.sinks@)
    }

    /// The ids of the sounds fading out.
    pub open spec fn fading(&self) -> Seq<Seq<char>> {
        fade_ids(self.fading_sinks@)
    }

    /// No sound plays twice or fades twice, and no sound both plays and fades.
    pub open spec fn wf(&self) -> bool {
        &&& self.playing().no_duplicates()
        &&& self.fading().no_duplicates()
        &&& forall|i: int, j: int|
            0 <= i < self.playing().len() && 0 <= j < self.fading().len() ==> #[trigger] self.playing()[i]
                != #[trigger] self.fading()[j]
    }

    /// Whether the sound `id` is playing.
    pub fn is_playing(&self, id: &str) -> (r: bool)
        ensures
            r == self.playing().contains(id@),
    {
        let key = owned(id);
        let k = find_pair(&self.sinks, &key);
        proof {
            lemma_first_index(self.playing(), id@);
        }
        k.is_some()
    }

    /// The sink of the playing sound `id`.
    pub fn playing_sink(&self, id: &str) -> (r: Option<&S>)
        ensures
            match first_index(self.playing(), id@) {
                Some(k) => r == Some(&self.sinks@[k].1),
                None => r is None,
            },
    {
        let key = owned(id);
        match find_pair(&self.sinks, &key) {
            Some(k) => {
                proof {
                    lemma_first_index(self.playing(), id@);
                }
                Some(&self.sinks[k].1)
            },
            None => None,
        }
    }

    /// First step of starting the sound `id`: nothing when it already plays;
    /// otherwise its sink still fading out, if any, is taken out for the
    /// caller to stop.
    pub fn begin_play(&mut self, id: &str) -> (r: PlayStart<S>)
        requires
            old(self).wf(),
        ensures
            final(self).wf(),
            final(self).sinks == old(self).sinks,
            final(self).master_volume_bits == old(self).master_volume_bits,
            final(self).sound_volumes == old(self).sound_volumes,
            final(self).fade_nanos == old(self).fade_nanos,
            old(self).playing().contains(id@) ==> r is AlreadyPlaying && final(self).fading_sinks
                == old(self).fading_sinks,
            !old(self).playing().contains(id@) ==> match first_index(old(self).fading(), id@) {
                Some(k) => final(self).fading_sinks@ == old(self).fading_sinks@.remove(k) && r
                    == (PlayStart::Start { restarted: Some(old(self).fading_sinks@[k].sink) }),
                None => final(self).fading_sinks == old(self).fading_sinks && r == (PlayStart::<S>::Start {
                    restarted: None,
                }),
            },
            !final(self).fading().contains(id@),
    {
        let key = owned(id);
        proof {
            lemma_first_index(self.playing(), id@);
            lemma_first_index(self.fading(), id@);
        }
        if find_pair(&self.sinks, &key).is_some() {
            proof {
                let k = first_index(self.playing(), id@)->0;
                if self.fading().contains(id@) {
                    let j = choose|j: int| 0 <= j < self.fading().len() && self.fading()[j] == id@;
                    assert(self.playing()[k] != self.fading()[j]);
                }
            }
            return PlayStart::AlreadyPlaying;
        }
        match find_fading(&self.fading_sinks, &key) {
            Some(k) => {
                let ghost before = self.fading_sinks@;
                let f = self.fading_sinks.remove(k);
                proof {
                    assert(self.fading() =~= fade_ids(before).remove(k as int));
                    assert forall|a: int, b: int|
                        0 <= a < b < self.fading().len() implies self.fading()[a] != self.fading()[b] by {
                        let a0 = if a < k { a } else { a + 1 };
                        let b0 = if b < k { b } else { b + 1 };
                        assert(self.fading()[a] == fade_ids(before)[a0]);
                        assert(self.fading()[b] == fade_ids(before)[b0]);
                    }
                    assert forall|i: int, j: int|
                        0 <= i < self.playing().len() && 0 <= j < self.fading().len() implies #[trigger] self.playing()[i]
                        != #[trigger] self.fading()[j] by {
                        let j0 = if j < k { j } else { j + 1 };
                        assert(self.fading()[j] == fade_ids(before)[j0]);
                    }
                    if self.fading().contains(id@) {
                        let j = choose|j: int| 0 <= j < self.fading().len() && self.fading()[j] == id@;
                        let j0 = if j < k { j } else { j + 1 };
                        assert(fade_ids(before)[j0] == id@);
                        assert(fade_ids(before)[k as int] == id@);
                    }
                }
                PlayStart::Start { restarted: Some(f.sink) }
            },
            None => PlayStart::Start { restarted: None },
        }
    }

    /// Whether the sound `id` is fading out.
    pub fn is_fading(&self, id: &str) -> (r: bool)
        ensures
            r == self.fading().contains(id@),
    {
        let key = owned(id);
        let k = find_fading(&self.fading_sinks, &key);
        proof {
            lemma_first_index(self.fading(), id@);
        }
        k.is_some()
    }

    /// Records `volume_bits` as the volume of the sound `id`.
    fn remember_volume(&mut self, id: &str, volume_bits: u32)
        ensures
            forall|x: Seq<char>|
                #[trigger] value_for(final(self).sound_volumes@, x) == if x == id@ {
                    Some(volume_bits)
                } else {
                    value_for(old(self).sound_volumes@, x)
                },
            final(self).sinks == old(self).sinks,
            final(self).fading_sinks == old(self).fading_sinks,
            final(self).master_volume_bits == old(self).master_volume_bits,
            final(self).fade_nanos == old(self).fade_nanos,
    {
        let key = owned(id);
        let ghost before = self.sound_volumes@;
        proof {
            lemma_first_index(pair_ids(before), id@);
        }
        match find_pair(&self.sound_volumes, &key) {
            Some(k) => {
                let mut vols: Vec<(String, u32)> = Vec::new();
                std::mem::swap(&mut vols, &mut self.sound_volumes);
                let _ = vols.remove(k);
                vols.insert(k, (key, volume_bits));
                self.sound_volumes = vols;
                assert(self.sound_volumes@ =~= before.update(k as int, (key, volume_bits)));
                assert(pair_ids(self.sound_volumes@) =~= pair_ids(before).update(k as int, id@));
                assert forall|x: Seq<char>|
                    #[trigger] value_for(self.sound_volumes@, x) == if x == id@ {
                        Some(volume_bits)
                    } else {
                        value_for(before, x)
                    } by {
                    lemma_first_index(pair_ids(before), x);
                    lemma_first_index(pair_ids(self.sound_volumes@), x);
                    lemma_first_index_is(pair_ids(self.sound_volumes@), x, k as int);
                    if x != id@ {
                        match first_index(pair_ids(before), x) {
                            Some(r) => lemma_first_index_is(pair_ids(self.sound_volumes@), x, r),
                            None => {},
                        }
                    }
                }
            },
            None => {
                self.sound_volumes.push((key, volume_bits));
                assert(pair_ids(self.sound_volumes@) =~= pair_ids(before).push(id@));
                assert forall|x: Seq<char>|
                    #[trigger] value_for(self.sound_volumes@, x) == if x == id@ {
                        Some(volume_bits)
                    } else {
                        value_for(before, x)
                    } by {
                    lemma_first_index(pair_ids(before), x);
                    lemma_first_index(pair_ids(self.sound_volumes@), x);
                    lemma_first_index_is(pair_ids(self.sound_volumes@), x, before.len() as int);
                    match first_index(pair_ids(before), x) {
                        Some(r) => lemma_first_index_is(pair_ids(self.sound_volumes@), x, r),
                        None => {},
                    }
                }
            },
        }
    }

    /// Second step of starting the sound `id`: its new sink plays at
    /// `volume_bits` (the caller sets the sink to that volume times the
    /// master volume).
    pub fn finish_play(&mut self, id: &str, sink: S, volume_bits: u32)
        requires
            old(self).wf(),
            !old(self).playing().contains(id@),
            !old(self).fading().contains(id@),
        ensures
            final(self).wf(),
            final(self).sinks@.len() == old(self).sinks@.len() + 1,
            final(self).sinks@.drop_last() == old(self).sinks@,
            final(self).sinks@.last().0@ == id@,
            final(self).sinks@.last().1 == sink,
            final(self).playing() == old(self).playing().push(id@),
            final(self).fading_sinks == old(self).fading_sinks,
            final(self).master_volume_bits == old(self).master_volume_bits,
            final(self).fade_nanos == old(self).fade_nanos,
            forall|x: Seq<char>|
                #[trigger] value_for(final(self).sound_volumes@, x) == if x == id@ {
                    Some(volume_bits)
                } else {
                    value_for(old(self).sound_volumes@, x)
                },
    {
        self.remember_volume(id, volume_bits);
        let ghost before = self.sinks@;
        self.sinks.push((owned(id), sink));
        proof {
            assert(self.sinks@.drop_last() =~= before);
            assert(self.playing() =~= pair_ids(before).push(id@));
            assert forall|a: int, b: int|
                0 <= a < b < self.playing().len() implies self.playing()[a] != self.playing()[b] by {
                if b == self.playing().len() - 1 {
                    assert(pair_ids(before).contains(self.playing()[a]) ==> true);
                    assert(self.playing()[a] == pair_ids(before)[a]);
                }
            }
        }
    }

    /// Stops the sound `id`, if it plays: its sink starts fading out from
    /// `start_volume_bits`, the sink's current volume.
    pub fn stop(&mut self, id: &str, start_volume_bits: u32)
        requires
            old(self).wf(),
        ensures
            final(self).wf(),
            match first_index(old(self).playing(), id@) {
                Some(k) => {
                    &&& final(self).sinks@ == old(self).sinks@.remove(k)
                    &&& final(self).fading_sinks@ == old(self).fading_sinks@.push(
                        FadingSink {
                            id: old(self).sinks@[k].0,
                            sink: old(self).sinks@[k].1,
                            start_volume_bits,
                            elapsed_nanos: 0,
                            total_nanos: old(self).fade_nanos,
                        },
                    )
                },
                None => final(self).sinks == old(self).sinks && final(self).fading_sinks == old(
                    self,
                ).fading_sinks,
            },
            final(self).master_volume_bits == old(self).master_volume_bits,
            final(self).sound_volumes == old(self).sound_volumes,
            final(self).fade_nanos == old(self).fade_nanos,
            !final(self).playing().contains(id@),
    {
        let key = owned(id);
        proof {
            lemma_first_index(self.playing(), id@);
        }
        if let Some(k) = find_pair(&self.sinks, &key) {
            let ghost sinks0 = self.sinks@;
            let ghost fading0 = self.fading_sinks@;
            let (name, sink) = self.sinks.remove(k);
            self.fading_sinks.push(
                FadingSink {
                    id: name,
                    sink,
                    start_volume_bits,
                    elapsed_nanos: 0,
                    total_nanos: self.fade_nanos,
                },
            );
            proof {
                let p0 = pair_ids(sinks0);
                let f0 = fade_ids(fading0);
                assert(self.playing() =~= p0.remove(k as int));
                assert(self.fading() =~= f0.push(id@));
                assert forall|a: int, b: int|
                    0 <= a < b < self.playing().len() implies self.playing()[a] != self.playing()[b] by {
                    let a0 = if a < k { a } else { a + 1 };
                    let b0 = if b < k { b } else { b + 1 };
                    assert(self.playing()[a] == p0[a0]);
                    assert(self.playing()[b] == p0[b0]);
                }
                assert forall|a: int, b: int|
                    0 <= a < b < self.fading().len() implies self.fading()[a] != self.fading()[b] by {
                    if b == f0.len() {
                        assert(self.fading()[a] == f0[a]);
                        assert(p0[k as int] != f0[a]);
                    }
                }
                assert forall|i: int, j: int|
                    0 <= i < self.playing().len() && 0 <= j < self.fading().len() implies #[trigger] self.playing()[i]
                    != #[trigger] self.fading()[j] by {
                    let i0 = if i < k { i } else { i + 1 };
                    assert(self.playing()[i] == p0[i0]);
                    if j < f0.len() {
                        assert(self.fading()[j] == f0[j]);
                    } else {
                        assert(i0 != k);
                    }
                }
                if self.playing().contains(id@) {
                    let i = choose|i: int| 0 <= i < self.playing().len() && self.playing()[i] == id@;
                    let i0 = if i < k { i } else { i + 1 };
                    assert(p0[i0] == id@);
                }
            }
        }
    }

    /// Records `volume_bits` for the sound `id` and returns its sink, if it
    /// plays, for the caller to set to that volume times the master volume.
    pub fn set_volume(&mut self, id: &str, volume_bits: u32) -> (r: Option<&S>)
        ensures
            forall|x: Seq<char>|
                #[trigger] value_for(final(self).sound_volumes@, x) == if x == id@ {
                    Some(volume_bits)
                } else {
                    value_for(old(self).sound_volumes@, x)
                },
            final(self).sinks == old(self).sinks,
            final(self).fading_sinks == old(self).fading_sinks,
            final(self).master_volume_bits == old(self).master_volume_bits,
            final(self).fade_nanos == old(self).fade_nanos,
            match first_index(old(self).playing(), id@) {
                Some(k) => r == Some(&old(self).sinks@[k].1),
                None => r is None,
            },
    {
        self.remember_volume(id, volume_bits);
        self.playing_sink(id)
    }

    /// Sets the master volume and returns each playing sink that has a
    /// recorded volume, with that volume, for the caller to set the sink to
    /// that volume times the new master volume.
    pub fn set_master_volume(&mut self, master_bits: u32) -> (r: Vec<(&S, u32)>)
        ensures
            final(self).master_volume_bits == master_bits,
            final(self).sinks == old(self).sinks,
            final(self).fading_sinks == old(self).fading_sinks,
            final(self).sound_volumes == old(self).sound_volumes,
            final(self).fade_nanos == old(self).fade_nanos,
            r@.len() == volume_targets(old(self).sinks@, old(self).sound_volumes@, old(self).sinks@.len() as int).len(),
            forall|k: int|
                0 <= k < r@.len() ==> is_volume_target(
                    old(self).sinks@,
                    #[trigger] r@[k],
                    volume_targets(old(self).sinks@, old(self).sound_volumes@, old(self).sinks@.len() as int)[k],
                ),
    {
        self.master_volume_bits = master_bits;
        let mut r: Vec<(&S, u32)> = Vec::new();
        let n = self.sinks.len();
        for i in 0..n
            invariant
                n == self.sinks@.len(),
                r@.len() == volume_targets(self.sinks@, self.sound_volumes@, i as int).len(),
                forall|k: int|
                    0 <= k < r@.len() ==> is_volume_target(
                        self.sinks@,
                        #[trigger] r@[k],
                        volume_targets(self.sinks@, self.sound_volumes@, i as int)[k],
                    ),
        {
            let entry = &self.sinks[i];
            proof {
                lemma_first_index(pair_ids(self.sound_volumes@), entry.0@);
            }
            let ghost prev = r@;
            match find_pair(&self.sound_volumes, &entry.0) {
                Some(k) => {
                    r.push((&entry.1, self.sound_volumes[k].1));
                },
                None => {},
            }
            assert forall|k: int|
                0 <= k < r@.len() implies is_volume_target(
                    self.sinks@,
                    #[trigger] r@[k],
                    volume_targets(self.sinks@, self.sound_volumes@, i + 1)[k],
                ) by {
                if k < prev.len() {
                    assert(r@[k] == prev[k]);
                    assert(volume_targets(self.sinks@, self.sound_volumes@, i + 1)[k]
                        == volume_targets(self.sinks@, self.sound_volumes@, i as int)[k]);
                }
            }
        }
        r
    }

    /// Stops everything at once: no sink plays or fades afterwards.
    pub fn stop_all(&mut self)
        ensures
            final(self).sinks@.len() == 0,
            final(self).fading_sinks@.len() == 0,
            final(self).master_volume_bits == old(self).master_volume_bits,
            final(self).sound_volumes == old(self).sound_volumes,
            final(self).fade_nanos == old(self).fade_nanos,
            final(self).wf(),
    {
        self.sinks.clear();
        self.fading_sinks.clear();
        assert(self.playing() =~= Seq::<Seq<char>>::empty());
        assert(self.fading() =~= Seq::<Seq<char>>::empty());
    }
}

/// The first index holding `id` is the index; with no index holding it there is none.
pub proof fn lemma_first_index_is(ids: Seq<Seq<char>>, id: Seq<char>, k: int)
    ensures
        0 <= k < ids.len() && ids[k] == id && (forall|j: int| 0 <= j < k ==> ids[j] != id)
            ==> first_index(ids, id) == Some(k),
        (forall|j: int| 0 <= j < ids.len() ==> ids[j] != id) ==> first_index(ids, id) is None,
{
    lemma_first_index(ids, id);
    if first_index(ids, id) is Some {
        let r = first_index(ids, id)->0;
        assert(ids[r] == id);
    }
}

/// `r` is the sink at index `t.0` with volume `t.1`.
pub open spec fn is_volume_target<S>(sinks: Seq<(String, S)>, r: (&S, u32), t: (int, u32)) -> bool {
    0 <= t.0 < sinks.len() && *r.0 == sinks[t.0].1 && r.1 == t.1
}

/// For the first `n` playing sinks that have a recorded volume: the index
/// of the sink and that volume, in order.
pub open spec fn volume_targets<S>(sinks: Seq<(String, S)>, vols: Seq<(String, u32)>, n: int) -> Seq<
    (int, u32),
>
    decreases n,
{
    if n <= 0 {
        seq![]
    } else {
        let before = volume_targets(sinks, vols, n - 1);
        match value_for(vols, sinks[n - 1].0@) {
            Some(v) => before.push((n - 1, v)),
            None => before,
        }
    }
}

/// The sinks removed by swap-removing the indices `idx` of `s`, largest
/// index first, in the order they are removed.
pub open spec fn removed_sinks<S>(s: Seq<FadingSink<S>>, idx: Seq<int>) -> Seq<S>
    decreases idx.len(),
{
    if idx.len() == 0 {
        seq![]
    } else {
        seq![s[idx.last()].sink] + removed_sinks(s, idx.drop_last())
    }
}

/// Every fade advanced by `dt`.
pub open spec fn all_advanced<S>(f: Seq<FadingSink<S>>, dt: u128) -> Seq<FadingSink<S>> {
    f.map_values(|x: FadingSink<S>| advanced(x, dt))
}

/// Swap-removing index `q` keeps every other element, moving the last one to `q`.
proof fn lemma_swap_removed<T>(s: Seq<T>, q: int)
    requires
        0 <= q < s.len(),
    ensures
        swap_removed(s, q).len() == s.len() - 1,
        forall|j: int|
            0 <= j < s.len() - 1 ==> #[trigger] swap_removed(s, q)[j] == if j == q {
                s[s.len() - 1]
            } else {
                s[j]
            },
{
}

/// Swap-removing in-range indices, largest first, keeps the ids distinct
/// and only ever drops elements.
proof fn lemma_swap_removed_all_ids<S>(s: Seq<FadingSink<S>>, idx: Seq<int>)
    requires
        forall|a: int, b: int| 0 <= a < b < idx.len() ==> idx[a] < idx[b],
        forall|a: int| 0 <= a < idx.len() ==> 0 <= idx[a] && idx[a] + (idx.len() - a) <= s.len(),
    ensures
        fade_ids(s).no_duplicates() ==> fade_ids(swap_removed_all(s, idx)).no_duplicates(),
        forall|j: int|
            0 <= j < swap_removed_all(s, idx).len() ==> fade_ids(s).contains(
                #[trigger] fade_ids(swap_removed_all(s, idx))[j],
            ),
    decreases idx.len(),
{
    if idx.len() > 0 {
        let q = idx.last();
        assert(idx[idx.len() - 1] + 1 <= s.len());
        let s2 = swap_removed(s, q);
        lemma_swap_removed(s, q);
        let rest = idx.drop_last();
        assert forall|a: int| 0 <= a < rest.len() implies 0 <= rest[a] && rest[a] + (rest.len() - a)
            <= s2.len() by {
            assert(rest[a] == idx[a]);
        }
        lemma_swap_removed_all_ids(s2, rest);
        let ids = fade_ids(s);
        let ids2 = fade_ids(s2);
        assert forall|j: int| 0 <= j < s2.len() implies ids.contains(#[trigger] ids2[j]) by {
            if j == q {
                assert(ids2[j] == ids[s.len() - 1]);
            } else {
                assert(ids2[j] == ids[j]);
            }
        }
        if ids.no_duplicates() {
            assert forall|a: int, b: int| 0 <= a < b < ids2.len() implies ids2[a] != ids2[b] by {
                let a0 = if a == q { s.len() - 1 } else { a };
                let b0 = if b == q { s.len() - 1 } else { b };
                assert(ids2[a] == ids[a0]);
                assert(ids2[b] == ids[b0]);
            }
        }
        let res = fade_ids(swap_removed_all(s, idx));
        assert forall|j: int| 0 <= j < swap_removed_all(s, idx).len() implies ids.contains(
            #[trigger] res[j],
        ) by {
            assert(ids2.contains(res[j]));
            let m = choose|m: int| 0 <= m < ids2.len() && ids2[m] == res[j];
            assert(ids.contains(ids2[m]));
        }
    }
}

impl<S> AudioEngine<S> {
    /// Whether every fade can run `dt` nanoseconds longer without its elapsed
    /// time leaving the range of a `Duration`.
    pub fn can_advance(&self, dt: u128) -> (r: bool)
        ensures
            r == forall|i: int|
                0 <= i < self.fading_sinks@.len() ==> #[trigger] self.fading_sinks@[i].elapsed_nanos
                    + dt <= MAX_DURATION_NANOS,
    {
        if dt > MAX_DURATION_NANOS {
            assert(self.fading_sinks@.len() > 0 ==> self.fading_sinks@[0].elapsed_nanos + dt
                > MAX_DURATION_NANOS);
            return self.fading_sinks.len() == 0;
        }
        for i in 0..self.fading_sinks.len()
            invariant
                dt <= MAX_DURATION_NANOS,
                forall|j: int|
                    0 <= j < i ==> #[trigger] self.fading_sinks@[j].elapsed_nanos + dt
                        <= MAX_DURATION_NANOS,
        {
            if self.fading_sinks[i].elapsed_nanos > MAX_DURATION_NANOS - dt {
                return false;
            }
        }
        true
    }

    /// Lets `dt` nanoseconds of every fade pass. Fades that are over are
    /// removed (swap-removed, last index first) and their sinks returned, in
    /// that order, for the caller to silence and stop; the caller sets each
    /// remaining fade's sink to its start volume times the remaining fraction.
    pub fn update(&mut self, dt: u128) -> (r: Vec<S>)
        requires
            old(self).wf(),
            forall|i: int|
                0 <= i < old(self).fading_sinks@.len() ==> #[trigger] old(
                    self,
                ).fading_sinks@[i].elapsed_nanos + dt <= MAX_DURATION_NANOS,
        ensures
            final(self).wf(),
            ({
                let adv = all_advanced(old(self).fading_sinks@, dt);
                let fin = finished_indices(adv, adv.len() as int);
                &&& final(self).fading_sinks@ == swap_removed_all(adv, fin)
                &&& r@ == removed_sinks(adv, fin)
            }),
            final(self).sinks == old(self).sinks,
            final(self).master_volume_bits == old(self).master_volume_bits,
            final(self).sound_volumes == old(self).sound_volumes,
            final(self).fade_nanos == old(self).fade_nanos,
    {
        let ghost f0 = self.fading_sinks@;
        let ghost adv = all_advanced(f0, dt);
        let n = self.fading_sinks.len();
        let mut finished: Vec<usize> = Vec::new();
        for i in 0..n
            invariant
                n == f0.len(),
                adv == all_advanced(f0, dt),
                self.fading_sinks@.len() == n,
                forall|j: int| 0 <= j < i ==> #[trigger] self.fading_sinks@[j] == adv[j],
                forall|j: int| i <= j < n ==> #[trigger] self.fading_sinks@[j] == f0[j],
                forall|j: int| 0 <= j < n ==> #[trigger] f0[j].elapsed_nanos + dt <= MAX_DURATION_NANOS,
                finished@.map_values(|x: usize| x as int) == finished_indices(adv, i as int),
                forall|a: int, b: int| 0 <= a < b < finished@.len() ==> finished@[a] < finished@[b],
                forall|a: int| 0 <= a < finished@.len() ==> finished@[a] + (finished@.len() - a) <= i,
                self.sinks == old(self).sinks,
                self.master_volume_bits == old(self).master_volume_bits,
                self.sound_volumes == old(self).sound_volumes,
                self.fade_nanos == old(self).fade_nanos,
        {
            let ghost before = self.fading_sinks@;
            let mut f = self.fading_sinks.remove(i);
            f.elapsed_nanos = f.elapsed_nanos + dt;
            let over = f.elapsed_nanos >= f.total_nanos;
            self.fading_sinks.insert(i, f);
            assert(self.fading_sinks@ =~= before.update(i as int, adv[i as int]));
            let ghost prev = finished@;
            if over {
                finished.push(i);
                assert(finished@.map_values(|x: usize| x as int) =~= prev.map_values(
                    |x: usize| x as int,
                ).push(i as int));
            }
        }
        assert(self.fading_sinks@ =~= adv);
        let ghost fin = finished_indices(adv, n as int);
        let mut out: Vec<S> = Vec::new();
        let mut k = finished.len();
        assert(fin.take(k as int) =~= fin);
        while k > 0
            invariant
                k <= finished@.len(),
                n == adv.len(),
                finished@.map_values(|x: usize| x as int) == fin,
                forall|a: int, b: int| 0 <= a < b < finished@.len() ==> finished@[a] < finished@[b],
                forall|a: int| 0 <= a < finished@.len() ==> finished@[a] + (finished@.len() - a) <= n,
                self.fading_sinks@.len() == n - (finished@.len() - k),
                forall|p: int|
                    0 <= p < self.fading_sinks@.len() && (k == finished@.len() || p
                        < finished@[k as int]) ==> #[trigger] self.fading_sinks@[p] == adv[p],
                swap_removed_all(adv, fin) == swap_removed_all(self.fading_sinks@, fin.take(k as int)),
                removed_sinks(adv, fin) == out@ + removed_sinks(adv, fin.take(k as int)),
                self.sinks == old(self).sinks,
                self.master_volume_bits == old(self).master_volume_bits,
                self.sound_volumes == old(self).sound_volumes,
                self.fade_nanos == old(self).fade_nanos,
            decreases k,
        {
            k = k - 1;
            let q = finished[k];
            assert(fin[k as int] == q as int);
            let ghost before = self.fading_sinks@;
            let f = self.fading_sinks.swap_remove(q);
            proof {
                assert(before[q as int] == adv[q as int]);
                assert(self.fading_sinks@ == swap_removed(before, q as int));
                lemma_swap_removed(before, q as int);
                assert(fin.take(k + 1).last() == fin[k as int]);
                assert(fin.take(k + 1).drop_last() =~= fin.take(k as int));
                assert(removed_sinks(adv, fin.take(k + 1)) =~= seq![adv[q as int].sink]
                    + removed_sinks(adv, fin.take(k as int)));
            }
            out.push(f.sink);
            proof {
                assert(removed_sinks(adv, fin) =~= out@ + removed_sinks(adv, fin.take(k as int)));
            }
        }
        proof {
            assert(fin.take(0) =~= Seq::<int>::empty());
            assert(removed_sinks(adv, fin.take(0)) =~= Seq::<S>::empty());
            assert(out@ + Seq::<S>::empty() =~= out@);
            assert forall|a: int, b: int| 0 <= a < b < fin.len() implies fin[a] < fin[b] by {
                assert(fin[a] == finished@[a] as int && fin[b] == finished@[b] as int);
            }
            assert forall|a: int| 0 <= a < fin.len() implies 0 <= fin[a] && fin[a] + (fin.len() - a)
                <= adv.len() by {
                assert(fin[a] == finished@[a] as int);
            }
            lemma_swap_removed_all_ids(adv, fin);
            assert(fade_ids(adv) =~= fade_ids(f0));
            let res = fade_ids(self.fading_sinks@);
            assert forall|i: int, j: int|
                0 <= i < self.playing().len() && 0 <= j < self.fading().len() implies #[trigger] self.playing()[i]
                != #[trigger] self.fading()[j] by {
                let m = choose|m: int| 0 <= m < fade_ids(f0).len() && fade_ids(f0)[m] == res[j];
                assert(old(self).playing()[i] != old(self).fading()[m]);
            }
        }
        out
    }
}

} // verus!
