//! A voice: the playback cursor over one decoded sample sequence.

use vstd::prelude::*;
use crate::amplitude::{gained, apply_gain};

verus! {

/// The mathematical state of a voice.
pub struct VoiceState {
    pub samples: Seq<i32>,
    pub position: nat,
    pub volume: i32,
    pub playing: bool,
}

impl VoiceState {
    /// A voice as it is when first triggered.
    pub open spec fn fresh(samples: Seq<i32>, volume: i32) -> VoiceState {
        VoiceState { samples, position: 0, volume, playing: true }
    }

    /// Whether the next frame takes a sample from this voice.
    pub open spec fn audible(self) -> bool {
        self.playing && self.position < self.samples.len()
    }

    /// What the voice adds to the next frame.
    pub open spec fn output(self) -> int {
        if self.audible() {
            gained(self.samples[self.position as int] as int, self.volume as int)
        } else {
            0
        }
    }

    /// The voice after one frame.
    pub open spec fn advanced(self) -> VoiceState {
        if self.audible() {
            VoiceState { position: self.position + 1, ..self }
        } else {
            self
        }
    }

    /// The voice after `n` frames.
    pub open spec fn advanced_by(self, n: nat) -> VoiceState
        decreases n,
    {
        if n == 0 {
            self
        } else {
            self.advanced_by((n - 1) as nat).advanced()
        }
    }

    /// Whether the cursor has reached the end of the samples.
    pub open spec fn finished(self) -> bool {
        self.position >= self.samples.len()
    }

    /// The voice, silenced.
    pub open spec fn stopped(self) -> VoiceState {
        VoiceState { playing: false, ..self }
    }
}

/// One triggered sound.
pub struct Voice {
    pub samples: Vec<i32>,
    pub position: usize,
    pub volume: i32,
    pub playing: bool,
}

impl View for Voice {
    type V = VoiceState;

    open spec fn view(&self) -> VoiceState {
        VoiceState {
            samples: self.samples@,
            position: self.position as nat,
            volume: self.volume,
            playing: self.playing,
        }
    }
}

impl Voice {
    /// The cursor never passes the end of the samples.
    pub open spec fn wf(&self) -> bool {
        self.position <= self.samples.len()
    }

    /// A playing voice at the start of `samples`.
    pub fn new(samples: Vec<i32>, volume: i32) -> (voice: Voice)
        ensures
            voice.wf(),
            voice@ == VoiceState::fresh(samples@, volume),
    {
        Voice { samples, position: 0, volume, playing: true }
    }

    /// Yields the voice's contribution to the next frame and moves the cursor
    /// past it. A stopped or finished voice yields silence and stays put.
    pub fn next_sample(&mut self) -> (out: i64)
        ensures
            old(self).wf() ==> final(self).wf(),
            out == old(self)@.output(),
            final(self)@ == old(self)@.advanced(),
            -crate::amplitude::VOICE_PEAK <= out <= crate::amplitude::VOICE_PEAK,
    {
        if !self.playing || self.position >= self.samples.len() {
            return 0;
        }
        let out = apply_gain(self.samples[self.position], self.volume);
        self.position = self.position + 1;
        out
    }

    /// Whether every sample has been played.
    pub fn is_finished(&self) -> (done: bool)
        ensures
            done == self@.finished(),
    {
        self.position >= self.samples.len()
    }

    /// Silences the voice; the cursor stays where it is.
    pub fn stop(&mut self)
        ensures
            final(self)@ == old(self)@.stopped(),
            final(self).wf() == old(self).wf(),
    {
        self.playing = false;
    }
}

/// A playing voice that has been advanced as many times as it has samples
/// left is finished, and so is it after any further advance.
pub proof fn lemma_voice_runs_out(v: VoiceState, n: nat)
    requires
        v.playing,
        v.position <= v.samples.len(),
        n >= v.samples.len() - v.position,
    ensures
        v.advanced_by(n).finished(),
        v.advanced_by(n).samples == v.samples,
{
    lemma_advanced_by(v, n);
}

/// Where the cursor of a playing voice stands after `n` frames.
pub proof fn lemma_advanced_by(v: VoiceState, n: nat)
    requires
        v.position <= v.samples.len(),
    ensures
        v.advanced_by(n).samples == v.samples,
        v.advanced_by(n).volume == v.volume,
        v.advanced_by(n).playing == v.playing,
        v.playing ==> v.advanced_by(n).position == if v.position + n <= v.samples.len() {
            v.position + n
        } else {
            v.samples.len()
        },
        !v.playing ==> v.advanced_by(n).position == v.position,
    decreases n,
{
    if n > 0 {
        lemma_advanced_by(v, (n - 1) as nat);
    }
}

} // verus!
