//! Generic named-sequence frame player.
//!
//! An [`AnimationPlayer`] owns a set of named [`AnimationSequence`]s (an
//! ordered list of frame indices shown at a fixed interval) and plays at
//! most one of them at a time, as a non-looping one-shot cue: `play` starts
//! a registered sequence from its first frame, `tick` advances it by wall
//! clock time, and running past the last frame returns the player to idle.
//! The player knows nothing about cells or rounds.
//!
//! The model of a player is a [`PlayerModel`]: the map from names to
//! sequences, the name being played (if any), the current frame index and
//! the milliseconds accumulated towards the next frame advance.

use vstd::prelude::*;
use vstd::string::StringExecFns;

use crate::params::MAX_TIME_MS;

verus! {

/// Mathematical content of an [`AnimationSequence`].
#[verifier::ext_equal]
pub ghost struct SequenceModel {
    pub frames: Seq<usize>,
    pub interval_ms: u64,
}

/// Mathematical content of an [`AnimationPlayer`].
#[verifier::ext_equal]
pub ghost struct PlayerModel {
    pub sequences: Map<Seq<char>, SequenceModel>,
    pub playing: Option<Seq<char>>,
    pub frame_index: usize,
    pub accumulated_ms: u64,
}

/// Errors of the animation subsystem; sequences that cannot exist are
/// rejected when built, and playing an unknown name is rejected when asked.
#[derive(Clone, Copy, Debug, PartialEq, Eq, Structural)]
pub enum AnimationError {
    UnknownAnimation,
    EmptyFrameList,
    InvalidFrameInterval,
}

/// A named one-shot cue: the frame indices to show, in order, each held for
/// `interval_ms` milliseconds.
#[derive(Debug)]
pub struct AnimationSequence {
    frames: Vec<usize>,
    interval_ms: u64,
}

impl View for AnimationSequence {
    type V = SequenceModel;

    closed spec fn view(&self) -> SequenceModel {
        SequenceModel { frames: self.frames@, interval_ms: self.interval_ms }
    }
}

impl AnimationSequence {
    #[verifier::type_invariant]
    spec fn wf(&self) -> bool {
        &&& self.frames@.len() > 0
        &&& 0 < self.interval_ms <= MAX_TIME_MS
    }

    /// Builds a sequence, rejecting shapes no player could hold: a sequence
    /// must have at least one frame and a positive interval no longer than
    /// the clock cap.
    pub fn new(frames: Vec<usize>, interval_ms: u64) -> (r: Result<AnimationSequence, AnimationError>)
        ensures
            frames@.len() == 0 ==> r == Err::<AnimationSequence, AnimationError>(
                AnimationError::EmptyFrameList,
            ),
            frames@.len() > 0 && !(0 < interval_ms <= MAX_TIME_MS) ==> r == Err::<
                AnimationSequence,
                AnimationError,
            >(AnimationError::InvalidFrameInterval),
            frames@.len() > 0 && 0 < interval_ms <= MAX_TIME_MS ==> (r matches Ok(s)
                && s@ == SequenceModel { frames: frames@, interval_ms }),
    {
        if frames.len() == 0 {
            Err(AnimationError::EmptyFrameList)
        } else if interval_ms == 0 || interval_ms > MAX_TIME_MS {
            Err(AnimationError::InvalidFrameInterval)
        } else {
            Ok(AnimationSequence { frames, interval_ms })
        }
    }

    /// Builds a sequence whose shape is already known to be valid.
    pub(crate) fn from_parts(frames: Vec<usize>, interval_ms: u64) -> (s: AnimationSequence)
        requires
            frames@.len() > 0,
            0 < interval_ms <= MAX_TIME_MS,
        ensures
            s@ == (SequenceModel { frames: frames@, interval_ms }),
    {
        AnimationSequence { frames, interval_ms }
    }

    /// The frame indices, in display order (never empty).
    pub fn frames(&self) -> (r: &Vec<usize>)
        ensures
            r@ == self@.frames,
            r@.len() > 0,
    {
        proof {
            use_type_invariant(self);
        }
        &self.frames
    }

    /// How long each frame is held, in milliseconds (never zero).
    pub fn frame_interval_ms(&self) -> (r: u64)
        ensures
            r == self@.interval_ms,
            0 < r <= MAX_TIME_MS,
    {
        proof {
            use_type_invariant(self);
        }
        self.interval_ms
    }
}

/// Whether some entry of `names` reads `n`.
spec fn has_name_at(names: Seq<String>, n: Seq<char>) -> bool {
    exists|i: int| 0 <= i < names.len() && names[i]@ == n
}

/// The position of the entry of `names` that reads `n`.
spec fn index_of_name(names: Seq<String>, n: Seq<char>) -> int {
    choose|i: int| 0 <= i < names.len() && names[i]@ == n
}

/// The name-to-sequence map described by the two parallel columns.
spec fn sequences_map(names: Seq<String>, seqs: Seq<AnimationSequence>) -> Map<
    Seq<char>,
    SequenceModel,
> {
    Map::new(
        |n: Seq<char>| has_name_at(names, n),
        |n: Seq<char>| seqs[index_of_name(names, n)]@,
    )
}

/// Entries of `names` are pairwise distinct.
spec fn distinct_names(names: Seq<String>) -> bool {
    forall|i: int, j: int|
        #![trigger names[i]@, names[j]@]
        0 <= i < names.len() && 0 <= j < names.len() && i != j ==> names[i]@ != names[j]@
}

/// The model after `play(name)` succeeds: that sequence starts over from
/// its first frame, with a full interval ahead of it.
pub open spec fn play_model(m: PlayerModel, name: Seq<char>) -> PlayerModel {
    PlayerModel { playing: Some(name), frame_index: 0, accumulated_ms: 0, ..m }
}

/// The model after `tick(delta_ms)`: an idle player is untouched; else the
/// accumulator grows by the delta and the frame index advances once per
/// full interval contained in it. Running past the last frame puts the
/// player back to idle.
pub open spec fn tick_model(m: PlayerModel, delta_ms: u64) -> PlayerModel
    recommends
        m.playing matches Some(n) ==> m.sequences.contains_key(n),
{
    match m.playing {
        None => m,
        Some(name) => {
            let sq = m.sequences[name];
            let total = m.accumulated_ms + delta_ms;
            let steps = total / (sq.interval_ms as int);
            if m.frame_index + steps >= sq.frames.len() {
                PlayerModel { playing: None, frame_index: 0, accumulated_ms: 0, ..m }
            } else {
                PlayerModel {
                    frame_index: (m.frame_index + steps) as usize,
                    accumulated_ms: (total % (sq.interval_ms as int)) as u64,
                    ..m
                }
            }
        },
    }
}

/// The frame to display for model `m`, or `None` when idle.
pub open spec fn current_frame_model(m: PlayerModel) -> Option<usize>
    recommends
        m.playing matches Some(n) ==> m.sequences.contains_key(n),
{
    match m.playing {
        None => None,
        Some(name) => Some(m.sequences[name].frames[m.frame_index as int]),
    }
}

/// Named-sequence frame player; see the module documentation.
pub struct AnimationPlayer {
    names: Vec<String>,
    seqs: Vec<AnimationSequence>,
    current: Option<usize>,
    frame_index: usize,
    accumulated_ms: u64,
}

impl View for AnimationPlayer {
    type V = PlayerModel;

    closed spec fn view(&self) -> PlayerModel {
        PlayerModel {
            sequences: sequences_map(self.names@, self.seqs@),
            playing: match self.current {
                Some(k) => Some(self.names@[k as int]@),
                None => None,
            },
            frame_index: self.frame_index,
            accumulated_ms: self.accumulated_ms,
        }
    }
}

impl AnimationPlayer {
    /// Structural well-formedness: the two columns line up, names are
    /// distinct, and the playback cursor points inside the playing
    /// sequence (or the player is idle at frame 0). Constructors establish
    /// it and every method preserves it.
    pub closed spec fn inv(&self) -> bool {
        &&& self.names@.len() == self.seqs@.len()
        &&& distinct_names(self.names@)
        &&& match self.current {
            Some(k) => {
                &&& (k as int) < self.seqs@.len()
                &&& (self.frame_index as int) < self.seqs@[k as int]@.frames.len()
                &&& self.accumulated_ms < self.seqs@[k as int]@.interval_ms
            },
            None => self.frame_index == 0 && self.accumulated_ms == 0,
        }
    }

    /// Looking up the name stored at position `k` yields the sequence
    /// stored at position `k`.
    proof fn lemma_view_lookup(&self, k: int)
        requires
            self.inv(),
            0 <= k < self.names@.len(),
        ensures
            self@.sequences.contains_key(self.names@[k]@),
            self@.sequences[self.names@[k]@] == self.seqs@[k]@,
    {
        let n = self.names@[k]@;
        assert(has_name_at(self.names@, n));
        let i = index_of_name(self.names@, n);
        assert(0 <= i < self.names@.len() && self.names@[i]@ == n);
        assert(i == k);
    }

    /// A player with no sequences registered, idle.
    pub fn new() -> (p: AnimationPlayer)
        ensures
            p.inv(),
            p@.sequences == Map::<Seq<char>, SequenceModel>::empty(),
            p@.playing is None,
            p@.frame_index == 0,
            p@.accumulated_ms == 0,
    {
        let p = AnimationPlayer {
            names: Vec::new(),
            seqs: Vec::new(),
            current: None,
            frame_index: 0,
            accumulated_ms: 0,
        };
        proof {
            assert(p@.sequences =~= Map::<Seq<char>, SequenceModel>::empty());
        }
        p
    }

    /// Finds the position registered under `name`, if any.
    fn find_index(&self, name: &str) -> (r: Option<usize>)
        ensures
            match r {
                Some(k) => (k as int) < self.names@.len() && self.names@[k as int]@ == name@,
                None => !has_name_at(self.names@, name@),
            },
    {
        let key = String::from_str(name);
        let mut i: usize = 0;
        while i < self.names.len()
            invariant
                i <= self.names@.len(),
                key@ == name@,
                forall|j: int| 0 <= j < i ==> self.names@[j]@ != name@,
            decreases self.names@.len() - i,
        {
            if self.names[i] == key {
                return Some(i);
            }
            i = i + 1;
        }
        None
    }

    /// Whether a sequence is registered under `name`.
    pub fn has_animation(&self, name: &str) -> (b: bool)
        ensures
            b == self@.sequences.contains_key(name@),
    {
        match self.find_index(name) {
            Some(_) => true,
            None => false,
        }
    }

    /// Stores `seq` under `name`, replacing what that name held before.
    /// Playback is untouched, except that overwriting the sequence being
    /// played restarts it from its first frame (the old frame position
    /// need not exist in the new sequence).
    pub fn register(&mut self, name: &str, seq: AnimationSequence)
        requires
            old(self).inv(),
        ensures
            final(self).inv(),
            final(self)@.sequences == old(self)@.sequences.insert(name@, seq@),
            final(self)@.playing == old(self)@.playing,
            old(self)@.playing == Some(name@) ==> final(self)@.frame_index == 0
                && final(self)@.accumulated_ms == 0,
            old(self)@.playing != Some(name@) ==> final(self)@.frame_index == old(
                self,
            )@.frame_index && final(self)@.accumulated_ms == old(self)@.accumulated_ms,
    {
        proof {
            use_type_invariant(&seq);
        }
        let ghost old_self = *self;
        match self.find_index(name) {
            Some(k) => {
                let playing_this = match self.current {
                    Some(c) => c == k,
                    None => false,
                };
                if playing_this {
                    self.frame_index = 0;
                    self.accumulated_ms = 0;
                }
                self.seqs[k] = seq;
                proof {
                    assert forall|n: Seq<char>|
                        has_name_at(self.names@, n) == (has_name_at(old_self.names@, n) || n
                            == name@) by {}
                    assert forall|n: Seq<char>| has_name_at(self.names@, n) implies self@.sequences[n]
                        == old_self@.sequences.insert(name@, seq@)[n] by {
                        let i = index_of_name(self.names@, n);
                        assert(0 <= i < self.names@.len() && self.names@[i]@ == n);
                        if n == name@ {
                            assert(i == k);
                        } else {
                            let i0 = index_of_name(old_self.names@, n);
                            assert(0 <= i0 < old_self.names@.len() && old_self.names@[i0]@ == n);
                            assert(i == i0);
                            assert(i != k);
                        }
                    }
                    assert(self@.sequences =~= old_self@.sequences.insert(name@, seq@));
                }
            },
            None => {
                let key = String::from_str(name);
                self.names.push(key);
                self.seqs.push(seq);
                proof {
                    let names1 = self.names@;
                    let names0 = old_self.names@;
                    assert forall|n: Seq<char>|
                        has_name_at(names1, n) == (has_name_at(names0, n) || n == name@) by {
                        if has_name_at(names0, n) {
                            let i = index_of_name(names0, n);
                            assert(names1[i]@ == n);
                        }
                        if n == name@ {
                            assert(names1[names0.len() as int]@ == n);
                        }
                        if has_name_at(names1, n) {
                            let i = index_of_name(names1, n);
                            if i < names0.len() {
                                assert(names0[i]@ == n);
                            }
                        }
                    }
                    assert forall|n: Seq<char>| has_name_at(names1, n) implies self@.sequences[n]
                        == old_self@.sequences.insert(name@, seq@)[n] by {
                        let i = index_of_name(names1, n);
                        assert(0 <= i < names1.len() && names1[i]@ == n);
                        if n == name@ {
                            assert(!has_name_at(names0, n));
                            assert(i == names0.len());
                        } else {
                            assert(i < names0.len());
                            let i0 = index_of_name(names0, n);
                            assert(0 <= i0 < names0.len() && names0[i0]@ == n);
                            assert(names1[i0]@ == n);
                            assert(i == i0);
                        }
                    }
                    assert(self@.sequences =~= old_self@.sequences.insert(name@, seq@));
                }
            },
        }
    }

    /// Starts the sequence registered under `name` from its first frame,
    /// pre-empting whatever was playing; fails, changing nothing, when no
    /// sequence has that name.
    pub fn play(&mut self, name: &str) -> (r: Result<(), AnimationError>)
        requires
            old(self).inv(),
        ensures
            final(self).inv(),
            old(self)@.sequences.contains_key(name@) ==> r == Ok::<(), AnimationError>(())
                && final(self)@ == play_model(old(self)@, name@),
            !old(self)@.sequences.contains_key(name@) ==> r == Err::<(), AnimationError>(
                AnimationError::UnknownAnimation,
            ) && *final(self) == *old(self),
    {
        match self.find_index(name) {
            Some(k) => {
                let sq = &self.seqs[k];
                proof {
                    use_type_invariant(sq);
                    self.lemma_view_lookup(k as int);
                }
                self.frame_index = 0;
                self.accumulated_ms = 0;
                self.current = Some(k);
                Ok(())
            },
            None => Err(AnimationError::UnknownAnimation),
        }
    }

    /// Advances playback by `delta_ms` of wall clock time.
    pub fn tick(&mut self, delta_ms: u64)
        requires
            old(self).inv(),
            delta_ms <= MAX_TIME_MS,
        ensures
            final(self).inv(),
            final(self)@ == tick_model(old(self)@, delta_ms),
    {
        let k = match self.current {
            Some(k) => k,
            None => {
                return ;
            },
        };
        let sq = &self.seqs[k];
        proof {
            use_type_invariant(sq);
            self.lemma_view_lookup(k as int);
        }
        let interval = sq.interval_ms;
        let len = sq.frames.len();
        let total = self.accumulated_ms + delta_ms;
        let steps = total / interval;
        if steps >= ((len - self.frame_index) as u64) {
            self.frame_index = 0;
            self.accumulated_ms = 0;
            self.current = None;
        } else {
            self.frame_index = self.frame_index + (steps as usize);
            self.accumulated_ms = total % interval;
        }
    }

    /// The name being played, or `None` when idle.
    pub fn current_name(&self) -> (r: Option<String>)
        requires
            self.inv(),
        ensures
            (r is None) == (self@.playing is None),
            r matches Some(s) ==> self@.playing == Some(s@),
    {
        match self.current {
            Some(k) => Some(self.names[k].clone()),
            None => None,
        }
    }

    /// The position inside the playing sequence (0 when idle).
    pub fn frame_index(&self) -> (r: usize)
        ensures
            r == self@.frame_index,
    {
        self.frame_index
    }

    /// Milliseconds accumulated towards the next frame advance.
    pub fn accumulated_ms(&self) -> (r: u64)
        ensures
            r == self@.accumulated_ms,
    {
        self.accumulated_ms
    }

    /// The frame index to display this tick, or `None` when idle.
    pub fn current_frame(&self) -> (r: Option<usize>)
        requires
            self.inv(),
        ensures
            r == current_frame_model(self@),
    {
        match self.current {
            Some(k) => {
                proof {
                    self.lemma_view_lookup(k as int);
                }
                let sq = &self.seqs[k];
                Some(sq.frames[self.frame_index])
            },
            None => None,
        }
    }
}

} // verus!
