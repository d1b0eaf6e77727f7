//! The mixing engine: the table of active voices and the master volume.

use vstd::prelude::*;
use crate::amplitude::{clamp_gain, clamped, mixed, GAIN_UNIT, UNIT, VOICE_PEAK};
use crate::voice::{Voice, VoiceState};

verus! {

/// The mathematical state of one table entry.
pub struct SlotState {
    pub pad: usize,
    pub voice: VoiceState,
}

/// Whether some entry belongs to `pad`.
pub open spec fn has_pad(slots: Seq<SlotState>, pad: usize) -> bool {
    exists|i: int| 0 <= i < slots.len() && (#[trigger] slots[i]).pad == pad
}

/// The index of the entry of `pad`.
pub open spec fn index_of(slots: Seq<SlotState>, pad: usize) -> int {
    choose|i: int| 0 <= i < slots.len() && (#[trigger] slots[i]).pad == pad
}

/// No pad has two entries.
pub open spec fn distinct_pads(slots: Seq<SlotState>) -> bool {
    forall|i: int, j: int|
        0 <= i < j < slots.len() ==> (#[trigger] slots[i]).pad != (#[trigger] slots[j]).pad
}

/// The entries as a mapping from pad to voice.
pub open spec fn table_of(slots: Seq<SlotState>) -> Map<usize, VoiceState> {
    Map::new(|pad: usize| has_pad(slots, pad), |pad: usize| slots[index_of(slots, pad)].voice)
}

/// The entries after a voice was installed for `pad`: in place of the pad's
/// earlier voice, or else at the end.
pub open spec fn installed(slots: Seq<SlotState>, pad: usize, voice: VoiceState) -> Seq<SlotState> {
    if has_pad(slots, pad) {
        slots.update(index_of(slots, pad), SlotState { pad, voice })
    } else {
        slots.push(SlotState { pad, voice })
    }
}

/// The entries without that of `pad`.
pub open spec fn removed(slots: Seq<SlotState>, pad: usize) -> Seq<SlotState> {
    if has_pad(slots, pad) {
        slots.remove(index_of(slots, pad))
    } else {
        slots
    }
}

/// The sum of what every voice adds to the next frame.
pub open spec fn frame_sum(slots: Seq<SlotState>) -> int
    decreases slots.len(),
{
    if slots.len() == 0 {
        0
    } else {
        frame_sum(slots.drop_last()) + slots.last().voice.output()
    }
}

/// Every voice moved on by one frame.
pub open spec fn advance_all(slots: Seq<SlotState>) -> Seq<SlotState> {
    Seq::new(
        slots.len(),
        |i: int| SlotState { pad: slots[i].pad, voice: slots[i].voice.advanced() },
    )
}

/// Every voice moved on by `n` frames.
pub open spec fn advance_frames(slots: Seq<SlotState>, n: nat) -> Seq<SlotState>
    decreases n,
{
    if n == 0 {
        slots
    } else {
        advance_all(advance_frames(slots, (n - 1) as nat))
    }
}

/// The entries whose voice still has samples left, in their order.
pub open spec fn unfinished(slots: Seq<SlotState>) -> Seq<SlotState>
    decreases slots.len(),
{
    if slots.len() == 0 {
        Seq::empty()
    } else if slots.last().voice.finished() {
        unfinished(slots.drop_last())
    } else {
        unfinished(slots.drop_last()).push(slots.last())
    }
}

/// The number of frames that cover `len` output values of `channels` each.
pub open spec fn frames_for(len: nat, channels: nat) -> nat
    recommends
        channels > 0,
{
    if len % channels == 0 {
        len / channels
    } else {
        len / channels + 1
    }
}

/// One entry of the table.
pub struct Slot {
    pub pad: usize,
    pub voice: Voice,
}

impl View for Slot {
    type V = SlotState;

    open spec fn view(&self) -> SlotState {
        SlotState { pad: self.pad, voice: self.voice@ }
    }
}

/// The mathematical state of the engine.
pub struct MixerState {
    pub slots: Seq<SlotState>,
    pub master: int,
}

impl MixerState {
    /// The active voices by pad.
    pub open spec fn table(self) -> Map<usize, VoiceState> {
        table_of(self.slots)
    }

    /// The amplitude of the next output frame.
    pub open spec fn next_output(self) -> int {
        mixed(frame_sum(self.slots), self.master)
    }
}

/// The engine's state: at most one voice per pad, and the master volume.
pub struct Mixer {
    slots: Vec<Slot>,
    master_volume: i32,
}

impl View for Mixer {
    type V = MixerState;

    closed spec fn view(&self) -> MixerState {
        MixerState {
            slots: Seq::new(self.slots@.len(), |i: int| self.slots@[i]@),
            master: self.master_volume as int,
        }
    }
}

/// A new pad's entry at the end adds that pad to the table.
pub proof fn lemma_table_push(slots: Seq<SlotState>, slot: SlotState)
    requires
        !has_pad(slots, slot.pad),
        distinct_pads(slots),
    ensures
        distinct_pads(slots.push(slot)),
        table_of(slots.push(slot)) == table_of(slots).insert(slot.pad, slot.voice),
{
    let after = slots.push(slot);
    assert forall|pad: usize| has_pad(after, pad) <==> (pad == slot.pad || has_pad(slots, pad)) by {
        if has_pad(after, pad) {
            let i = index_of(after, pad);
            if i < slots.len() {
                assert(slots[i].pad == pad);
            }
        }
        if has_pad(slots, pad) {
            let i = index_of(slots, pad);
            assert(after[i].pad == pad);
        }
        if pad == slot.pad {
            assert(after[slots.len() as int].pad == pad);
        }
    }
    assert forall|pad: usize| has_pad(after, pad) implies #[trigger] table_of(after)[pad]
        == table_of(slots).insert(slot.pad, slot.voice)[pad] by {
        let i = index_of(after, pad);
        if pad == slot.pad {
            if i < slots.len() {
                assert(slots[i].pad == pad);
            }
        } else {
            assert(slots[i].pad == pad);
            let j = index_of(slots, pad);
            assert(after[j].pad == pad);
        }
    }
    assert(table_of(after) =~= table_of(slots).insert(slot.pad, slot.voice));
}

/// A new voice in an entry's place changes the table at that entry's pad.
pub proof fn lemma_table_update(slots: Seq<SlotState>, i: int, voice: VoiceState)
    requires
        0 <= i < slots.len(),
        distinct_pads(slots),
    ensures
        distinct_pads(slots.update(i, SlotState { pad: slots[i].pad, voice })),
        table_of(slots.update(i, SlotState { pad: slots[i].pad, voice })) == table_of(slots).insert(
            slots[i].pad,
            voice,
        ),
{
    let pad_i = slots[i].pad;
    let after = slots.update(i, SlotState { pad: pad_i, voice });
    assert forall|a: int, b: int| 0 <= a < b < after.len() implies (#[trigger] after[a]).pad != (
    #[trigger] after[b]).pad by {
        assert(after[a].pad == slots[a].pad);
        assert(after[b].pad == slots[b].pad);
    }
    assert forall|pad: usize| has_pad(after, pad) <==> has_pad(slots, pad) by {
        if has_pad(after, pad) {
            let k = index_of(after, pad);
            assert(slots[k].pad == pad);
        }
        if has_pad(slots, pad) {
            let k = index_of(slots, pad);
            assert(after[k].pad == pad);
        }
    }
    assert(slots[i].pad == pad_i);
    assert forall|pad: usize| has_pad(after, pad) implies #[trigger] table_of(after)[pad]
        == table_of(slots).insert(pad_i, voice)[pad] by {
        let k = index_of(after, pad);
        assert(slots[k].pad == pad);
        let j = index_of(slots, pad);
        assert(slots[j].pad == pad);
        assert(k == j);
    }
    assert(table_of(after) =~= table_of(slots).insert(pad_i, voice));
}

/// Taking an entry out takes its pad out of the table.
pub proof fn lemma_table_remove(slots: Seq<SlotState>, i: int)
    requires
        0 <= i < slots.len(),
        distinct_pads(slots),
    ensures
        distinct_pads(slots.remove(i)),
        !has_pad(slots.remove(i), slots[i].pad),
        table_of(slots.remove(i)) == table_of(slots).remove(slots[i].pad),
{
    let pad_i = slots[i].pad;
    let after = slots.remove(i);
    assert forall|a: int| 0 <= a < after.len() implies (#[trigger] after[a]) == slots[if a < i {
        a
    } else {
        a + 1
    }] by {}
    assert forall|a: int, b: int| 0 <= a < b < after.len() implies (#[trigger] after[a]).pad != (
    #[trigger] after[b]).pad by {
        let a2 = if a < i { a } else { a + 1 };
        let b2 = if b < i { b } else { b + 1 };
        assert(after[a] == slots[a2]);
        assert(after[b] == slots[b2]);
    }
    assert forall|pad: usize| has_pad(after, pad) <==> (pad != pad_i && has_pad(slots, pad)) by {
        if has_pad(after, pad) {
            let k = index_of(after, pad);
            let k2 = if k < i { k } else { k + 1 };
            assert(after[k] == slots[k2]);
            assert(slots[k2].pad == pad);
            assert(slots[i].pad == pad_i);
        }
        if pad != pad_i && has_pad(slots, pad) {
            let k = index_of(slots, pad);
            let k2 = if k < i { k } else { k - 1 };
            assert(after[k2] == slots[k]);
            assert(after[k2].pad == pad);
        }
    }
    assert forall|pad: usize| has_pad(after, pad) implies #[trigger] table_of(after)[pad]
        == table_of(slots).remove(pad_i)[pad] by {
        let k = index_of(after, pad);
        let k2 = if k < i { k } else { k + 1 };
        assert(after[k] == slots[k2]);
        let j = index_of(slots, pad);
        assert(slots[j].pad == pad);
        assert(slots[k2].pad == pad);
        assert(k2 == j);
    }
    assert(table_of(after) =~= table_of(slots).remove(pad_i));
}

impl Mixer {
    /// Every voice is well formed, no pad has two voices, and the master
    /// volume lies between silence and unity.
    pub closed spec fn wf(&self) -> bool {
        &&& forall|i: int| 0 <= i < self.slots@.len() ==> (#[trigger] self.slots@[i]).voice.wf()
        &&& distinct_pads(self@.slots)
        &&& 0 <= self.master_volume <= GAIN_UNIT
    }

    /// An engine with no voice, at unity master volume.
    pub fn new() -> (mixer: Mixer)
        ensures
            mixer.wf(),
            mixer@.slots == Seq::<SlotState>::empty(),
            mixer@.table() == Map::<usize, VoiceState>::empty(),
            mixer@.master == GAIN_UNIT,
    {
        let mixer = Mixer { slots: Vec::new(), master_volume: GAIN_UNIT };
        proof {
            assert(mixer@.slots =~= Seq::<SlotState>::empty());
            assert(mixer@.table() =~= Map::<usize, VoiceState>::empty());
        }
        mixer
    }

    /// Where the entry of `pad` stands, if it has one.
    pub fn find(&self, pad: usize) -> (found: Option<usize>)
        requires
            self.wf(),
        ensures
            found.is_some() == has_pad(self@.slots, pad),
            found.is_some() ==> found.unwrap() == index_of(self@.slots, pad),
    {
        let mut i: usize = 0;
        while i < self.slots.len()
            invariant
                i <= self.slots@.len(),
                self.wf(),
                forall|j: int| 0 <= j < i ==> (#[trigger] self@.slots[j]).pad != pad,
            decreases self.slots@.len() - i,
        {
            if self.slots[i].pad == pad {
                proof {
                    assert(self@.slots[i as int].pad == pad);
                    let k = index_of(self@.slots, pad);
                    assert(self@.slots[k].pad == pad);
                }
                return Some(i);
            }
            i = i + 1;
        }
        None
    }

    /// Whether `pad` has an active voice.
    pub fn is_active(&self, pad: usize) -> (active: bool)
        requires
            self.wf(),
        ensures
            active == self@.table().contains_key(pad),
    {
        self.find(pad).is_some()
    }

    /// The number of active voices.
    pub fn active_count(&self) -> (count: usize)
        ensures
            count == self@.slots.len(),
    {
        self.slots.len()
    }

    /// The stored master volume.
    pub fn master_volume(&self) -> (volume: i32)
        ensures
            volume == self@.master,
    {
        self.master_volume
    }

    /// The pad of the entry at `index`.
    pub fn pad_at(&self, index: usize) -> (pad: usize)
        requires
            index < self@.slots.len(),
        ensures
            pad == self@.slots[index as int].pad,
    {
        self.slots[index].pad
    }

    /// The voice of `pad`, if it has one.
    pub fn voice(&self, pad: usize) -> (voice: Option<&Voice>)
        requires
            self.wf(),
        ensures
            voice.is_some() == self@.table().contains_key(pad),
            voice.is_some() ==> voice.unwrap()@ == self@.table()[pad] && voice.unwrap().wf(),
    {
        match self.find(pad) {
            Some(i) => Some(&self.slots[i].voice),
            None => None,
        }
    }

    /// Installs a fresh voice for `pad`, in place of the one it had.
    pub fn play(&mut self, pad: usize, samples: Vec<i32>, volume: i32)
        requires
            old(self).wf(),
        ensures
            final(self).wf(),
            final(self)@.master == old(self)@.master,
            final(self)@.slots == installed(
                old(self)@.slots,
                pad,
                VoiceState::fresh(samples@, volume),
            ),
            final(self)@.table() == old(self)@.table().insert(
                pad,
                VoiceState::fresh(samples@, volume),
            ),
    {
        let voice = Voice::new(samples, volume);
        let ghost before = self@.slots;
        match self.find(pad) {
            Some(i) => {
                self.slots[i] = Slot { pad, voice };
                proof {
                    assert(before[i as int].pad == pad);
                    lemma_table_update(before, i as int, voice@);
                    assert(self@.slots =~= before.update(i as int, SlotState { pad, voice: voice@ }));
                }
            },
            None => {
                self.slots.push(Slot { pad, voice });
                proof {
                    lemma_table_push(before, SlotState { pad, voice: voice@ });
                    assert(self@.slots =~= before.push(SlotState { pad, voice: voice@ }));
                }
            },
        }
    }

    /// Silences and removes the voice of `pad`. Without one, nothing changes.
    pub fn stop(&mut self, pad: usize)
        requires
            old(self).wf(),
        ensures
            final(self).wf(),
            final(self)@.master == old(self)@.master,
            final(self)@.slots == removed(old(self)@.slots, pad),
            final(self)@.table() == old(self)@.table().remove(pad),
            !has_pad(old(self)@.slots, pad) ==> final(self)@ == old(self)@,
    {
        let ghost before = self@.slots;
        match self.find(pad) {
            Some(i) => {
                let _gone = self.slots.remove(i);
                proof {
                    lemma_table_remove(before, i as int);
                    assert(self@.slots =~= before.remove(i as int));
                }
            },
            None => {
                proof {
                    assert(self@.table() =~= old(self)@.table().remove(pad));
                }
            },
        }
    }

    /// Stores `volume`, limited to the range from silence to unity.
    pub fn set_master_volume(&mut self, volume: i32)
        requires
            old(self).wf(),
        ensures
            final(self).wf(),
            final(self)@.slots == old(self)@.slots,
            final(self)@.master == clamped(volume as int, 0, GAIN_UNIT as int),
    {
        self.master_volume = clamp_gain(volume);
    }
}

/// The sum of a frame is bounded by the number of voices.
pub proof fn lemma_frame_sum_bound(slots: Seq<SlotState>)
    ensures
        -(slots.len() * VOICE_PEAK) <= frame_sum(slots) <= slots.len() * VOICE_PEAK,
    decreases slots.len(),
{
    if slots.len() > 0 {
        lemma_frame_sum_bound(slots.drop_last());
        let v = slots.last().voice;
        if v.audible() {
            crate::amplitude::lemma_gained_bound(
                v.samples[v.position as int] as int,
                v.volume as int,
            );
        }
        assert((slots.len() - 1) * VOICE_PEAK + VOICE_PEAK == slots.len() * VOICE_PEAK)
            by (nonlinear_arith);
    }
}

/// Output value `j` of a buffer of `channels` values per frame belongs to
/// frame `f` exactly when it lies in that frame's stretch.
pub proof fn lemma_frame_of(j: int, f: int, channels: int)
    requires
        channels > 0,
        f * channels <= j < f * channels + channels,
    ensures
        j / channels == f,
{
    assert(j / channels == f) by (nonlinear_arith)
        requires
            channels > 0,
            f * channels <= j < f * channels + channels,
    ;
}

/// The number of frames needed once the buffer is covered.
pub proof fn lemma_frames_for(len: int, f: int, channels: int)
    requires
        channels > 0,
        len >= 0,
        f >= 0,
        (f - 1) * channels < len <= f * channels,
    ensures
        frames_for(len as nat, channels as nat) == f,
{
    assert(frames_for(len as nat, channels as nat) == f) by (nonlinear_arith)
        requires
            channels > 0,
            len >= 0,
            f >= 0,
            (f - 1) * channels < len <= f * channels,
            frames_for(len as nat, channels as nat) == if len % channels == 0 {
                len / channels
            } else {
                len / channels + 1
            },
    ;
}

/// What `unfinished` keeps of a sequence that grew by one entry.
pub proof fn lemma_unfinished_push(slots: Seq<SlotState>, slot: SlotState)
    ensures
        unfinished(slots.push(slot)) == if slot.voice.finished() {
            unfinished(slots)
        } else {
            unfinished(slots).push(slot)
        },
{
    assert(slots.push(slot).drop_last() =~= slots);
}

/// An entry survives `unfinished` exactly when it was there with samples left.
pub proof fn lemma_unfinished_members(slots: Seq<SlotState>)
    ensures
        forall|i: int|
            0 <= i < unfinished(slots).len() ==> !(#[trigger] unfinished(slots)[i]).voice.finished()
                && slots.contains(unfinished(slots)[i]),
        forall|i: int|
            0 <= i < slots.len() && !(#[trigger] slots[i]).voice.finished() ==> unfinished(
                slots,
            ).contains(slots[i]),
        distinct_pads(slots) ==> distinct_pads(unfinished(slots)),
    decreases slots.len(),
{
    if slots.len() > 0 {
        let head = slots.drop_last();
        let kept = unfinished(head);
        lemma_unfinished_members(head);
        let all = unfinished(slots);
        assert forall|i: int| 0 <= i < all.len() implies !(#[trigger] all[i]).voice.finished()
            && slots.contains(all[i]) by {
            if i < kept.len() {
                assert(all[i] == kept[i]);
                assert(head.contains(kept[i]));
                let k = choose|k: int| 0 <= k < head.len() && head[k] == kept[i];
                assert(slots[k] == all[i]);
            } else {
                assert(all[i] == slots.last());
                assert(slots[slots.len() - 1] == all[i]);
            }
        }
        assert forall|i: int| 0 <= i < slots.len() && !(#[trigger] slots[i]).voice.finished()
            implies all.contains(slots[i]) by {
            if i < head.len() {
                assert(head[i] == slots[i]);
                assert(kept.contains(head[i]));
                let k = choose|k: int| 0 <= k < kept.len() && kept[k] == head[i];
                assert(all[k] == slots[i]);
            } else {
                assert(all[all.len() - 1] == slots[i]);
            }
        }
        if distinct_pads(slots) {
            assert(distinct_pads(head)) by {
                assert forall|a: int, b: int| 0 <= a < b < head.len() implies (
                #[trigger] head[a]).pad != (#[trigger] head[b]).pad by {
                    assert(head[a] == slots[a]);
                    assert(head[b] == slots[b]);
                }
            }
            assert forall|a: int, b: int| 0 <= a < b < all.len() implies (#[trigger] all[a]).pad
                != (#[trigger] all[b]).pad by {
                if b < kept.len() {
                    assert(all[a] == kept[a]);
                    assert(all[b] == kept[b]);
                } else {
                    assert(all[a] == kept[a]);
                    assert(head.contains(kept[a]));
                    let k = choose|k: int| 0 <= k < head.len() && head[k] == kept[a];
                    assert(slots[k] == kept[a]);
                    assert(all[b] == slots[slots.len() - 1]);
                }
            }
        }
    }
}

impl Mixer {
    /// Produces one output frame: sums what every voice yields, scales the sum
    /// by twice the master volume and limits it to full scale. Every voice
    /// moves on by one sample.
    pub fn mix_frame(&mut self) -> (out: i64)
        requires
            old(self).wf(),
        ensures
            final(self).wf(),
            out == old(self)@.next_output(),
            -UNIT <= out <= UNIT,
            final(self)@.slots == advance_all(old(self)@.slots),
            final(self)@.master == old(self)@.master,
    {
        let ghost before = self@.slots;
        let n = self.slots.len();
        let mut sum: i128 = 0;
        let mut i: usize = 0;
        while i < n
            invariant
                i <= n,
                n == self.slots@.len(),
                n == before.len(),
                self.master_volume == old(self).master_volume,
                forall|j: int| 0 <= j < n ==> (#[trigger] self.slots@[j]).voice.wf(),
                forall|j: int| 0 <= j < i ==> (#[trigger] self@.slots[j]) == advance_all(before)[j],
                forall|j: int| i <= j < n ==> (#[trigger] self@.slots[j]) == before[j],
                sum == frame_sum(before.subrange(0, i as int)),
            decreases n - i,
        {
            let ghost prior = self@.slots;
            proof {
                lemma_frame_sum_bound(before.subrange(0, i as int));
                assert(i * VOICE_PEAK <= 0xffff_ffff_ffff_ffff * VOICE_PEAK) by (nonlinear_arith)
                    requires
                        i <= 0xffff_ffff_ffff_ffff,
                ;
                assert(prior[i as int] == before[i as int]);
                assert(before.subrange(0, i + 1).drop_last() =~= before.subrange(0, i as int));
            }
            let s = self.slots[i].voice.next_sample();
            sum = sum + (s as i128);
            proof {
                assert forall|j: int| 0 <= j < i + 1 implies (#[trigger] self@.slots[j])
                    == advance_all(before)[j] by {
                    if j < i {
                        assert(self@.slots[j] == prior[j]);
                    }
                }
                assert forall|j: int| i + 1 <= j < n implies (#[trigger] self@.slots[j])
                    == before[j] by {
                    assert(self@.slots[j] == prior[j]);
                }
            }
            i = i + 1;
        }
        proof {
            assert(before.subrange(0, n as int) =~= before);
            lemma_frame_sum_bound(before);
            assert(self@.slots =~= advance_all(before));
            assert(distinct_pads(self@.slots)) by {
                assert forall|a: int, b: int| 0 <= a < b < n implies (#[trigger] self@.slots[a]).pad
                    != (#[trigger] self@.slots[b]).pad by {
                    assert(before[a].pad != before[b].pad);
                }
            }
        }
        let factor: i128 = 2 * (self.master_volume as i128);
        proof {
            assert(-0x7fff_ffff_ffff_ffff_ffff_ffff_ffff_ffff <= sum * factor
                <= 0x7fff_ffff_ffff_ffff_ffff_ffff_ffff_ffff) by (nonlinear_arith)
                requires
                    -(n * VOICE_PEAK) <= sum <= n * VOICE_PEAK,
                    0 <= n <= 0xffff_ffff_ffff_ffff,
                    VOICE_PEAK == 70368744177664,
                    0 <= factor <= 131072,
            ;
        }
        let scaled: i128 = sum * factor;
        let q: i128 = if scaled >= 0 {
            scaled / 65536
        } else {
            -((-scaled) / 65536)
        };
        if q < -(UNIT as i128) {
            -UNIT
        } else if q > UNIT as i128 {
            UNIT
        } else {
            q as i64
        }
    }

    /// Removes every voice whose cursor has reached the end of its samples.
    pub fn drop_finished(&mut self)
        requires
            old(self).wf(),
        ensures
            final(self).wf(),
            final(self)@.master == old(self)@.master,
            final(self)@.slots == unfinished(old(self)@.slots),
    {
        let ghost before = self@.slots;
        let ghost mut seen: int = 0;
        let mut i: usize = 0;
        proof {
            assert(before.subrange(0, 0) =~= Seq::<SlotState>::empty());
            assert(self@.slots =~= unfinished(before.subrange(0, 0)) + before.subrange(
                0,
                before.len() as int,
            ));
        }
        while i < self.slots.len()
            invariant
                self.master_volume == old(self).master_volume,
                forall|j: int| 0 <= j < self.slots@.len() ==> (#[trigger] self.slots@[j]).voice.wf(),
                0 <= seen <= before.len(),
                i == unfinished(before.subrange(0, seen)).len(),
                self@.slots == unfinished(before.subrange(0, seen)) + before.subrange(
                    seen,
                    before.len() as int,
                ),
            decreases before.len() - seen,
        {
            let ghost prior = self@.slots;
            proof {
                assert(prior[i as int] == before[seen]);
                assert(before.subrange(0, seen + 1) =~= before.subrange(0, seen).push(before[seen]));
                lemma_unfinished_push(before.subrange(0, seen), before[seen]);
            }
            if self.slots[i].voice.is_finished() {
                let _gone = self.slots.remove(i);
                proof {
                    assert(self@.slots =~= prior.remove(i as int));
                    assert(self@.slots =~= unfinished(before.subrange(0, seen + 1))
                        + before.subrange(seen + 1, before.len() as int));
                }
            } else {
                proof {
                    assert(self@.slots =~= unfinished(before.subrange(0, seen + 1))
                        + before.subrange(seen + 1, before.len() as int));
                }
                i = i + 1;
            }
            proof {
                seen = seen + 1;
            }
        }
        proof {
            assert(seen == before.len());
            assert(before.subrange(0, seen) =~= before);
            assert(self@.slots =~= unfinished(before));
            lemma_unfinished_members(before);
        }
    }
}

/// What `advance_frames` does to each entry.
pub proof fn lemma_advance_frames(slots: Seq<SlotState>, n: nat)
    ensures
        advance_frames(slots, n).len() == slots.len(),
        forall|i: int|
            0 <= i < slots.len() ==> (#[trigger] advance_frames(slots, n)[i]) == (SlotState {
                pad: slots[i].pad,
                voice: slots[i].voice.advanced_by(n),
            }),
    decreases n,
{
    if n > 0 {
        lemma_advance_frames(slots, (n - 1) as nat);
    }
}

/// A lone voice is heard as its own output under the master volume: the
/// frame is that voice's sample scaled by its volume, then by twice the
/// master volume, and limited to full scale.
pub proof fn law_single_voice(state: MixerState)
    requires
        state.slots.len() == 1,
    ensures
        state.next_output() == mixed(state.slots[0].voice.output(), state.master),
{
    assert(state.slots.drop_last().len() == 0);
    assert(frame_sum(state.slots) == frame_sum(state.slots.drop_last())
        + state.slots.last().voice.output());
}

/// A playing voice is gone from the table once it has been advanced through
/// all the samples it had left and the finished voices were dropped.
pub proof fn law_voice_lifecycle(slots: Seq<SlotState>, i: int, n: nat)
    requires
        distinct_pads(slots),
        0 <= i < slots.len(),
        slots[i].voice.playing,
        slots[i].voice.position <= slots[i].voice.samples.len(),
        n >= slots[i].voice.samples.len() - slots[i].voice.position,
    ensures
        !has_pad(unfinished(advance_frames(slots, n)), slots[i].pad),
        !table_of(unfinished(advance_frames(slots, n))).contains_key(slots[i].pad),
{
    let later = advance_frames(slots, n);
    let kept = unfinished(later);
    lemma_advance_frames(slots, n);
    crate::voice::lemma_voice_runs_out(slots[i].voice, n);
    lemma_unfinished_members(later);
    assert(later[i].voice.finished());
    if has_pad(kept, slots[i].pad) {
        let k = index_of(kept, slots[i].pad);
        assert(later.contains(kept[k]));
        let j = choose|j: int| 0 <= j < later.len() && later[j] == kept[k];
        assert(later[j].pad == slots[j].pad);
        if j < i {
            assert(slots[j].pad != slots[i].pad);
        } else if i < j {
            assert(slots[i].pad != slots[j].pad);
        }
        assert(j == i);
        assert(false);
    }
}

/// Triggering a pad and stopping it at once leaves the pad silent, and every
/// other pad as it was.
pub proof fn law_play_then_stop(slots: Seq<SlotState>, pad: usize, voice: VoiceState)
    requires
        distinct_pads(slots),
    ensures
        !has_pad(removed(installed(slots, pad, voice), pad), pad),
        table_of(removed(installed(slots, pad, voice), pad)) == table_of(slots).remove(pad),
{
    let mid = installed(slots, pad, voice);
    if has_pad(slots, pad) {
        let i = index_of(slots, pad);
        assert(slots[i].pad == pad);
        lemma_table_update(slots, i, voice);
    } else {
        lemma_table_push(slots, SlotState { pad, voice });
    }
    assert(table_of(mid).contains_key(pad));
    assert(has_pad(mid, pad));
    let k = index_of(mid, pad);
    assert(mid[k].pad == pad);
    lemma_table_remove(mid, k);
    assert(table_of(slots).insert(pad, voice).remove(pad) =~= table_of(slots).remove(pad));
}

impl Mixer {
    /// Fills an output buffer of `channels` values per frame: each frame is
    /// mixed once and written to all of its channels. When the buffer is
    /// full, the voices that have run out are dropped.
    pub fn render(&mut self, out: &mut Vec<i64>, channels: usize)
        requires
            old(self).wf(),
            channels > 0,
        ensures
            final(self).wf(),
            final(self)@.master == old(self)@.master,
            final(out)@.len() == old(out)@.len(),
            forall|j: int|
                0 <= j < old(out)@.len() ==> (#[trigger] final(out)@[j]) == mixed(
                    frame_sum(advance_frames(old(self)@.slots, (j / channels as int) as nat)),
                    old(self)@.master,
                ),
            forall|j: int| 0 <= j < old(out)@.len() ==> -UNIT <= (#[trigger] final(out)@[j]) <= UNIT,
            final(self)@.slots == unfinished(
                advance_frames(
                    old(self)@.slots,
                    frames_for(old(out)@.len(), channels as nat),
                ),
            ),
    {
        let ghost before = self@.slots;
        let ghost master = self@.master;
        let len = out.len();
        let mut k: usize = 0;
        let ghost mut f: nat = 0;
        let ghost mut base: int = 0;
        while k < len
            invariant
                self.wf(),
                channels > 0,
                self@.master == master,
                out@.len() == len,
                k <= len,
                base == f * channels,
                k == base || (k == len && f > 0 && base - channels < len < base),
                self@.slots == advance_frames(before, f),
                forall|j: int|
                    0 <= j < k ==> (#[trigger] out@[j]) == mixed(
                        frame_sum(advance_frames(before, (j / channels as int) as nat)),
                        master,
                    ),
                forall|j: int| 0 <= j < k ==> -UNIT <= (#[trigger] out@[j]) <= UNIT,
            decreases len - k,
        {
            let value = self.mix_frame();
            let mut c: usize = 0;
            while c < channels && k < len
                invariant
                    channels > 0,
                    out@.len() == len,
                    k <= len,
                    c <= channels,
                    k == base + c,
                    base == f * channels,
                    -UNIT <= value <= UNIT,
                    value == mixed(frame_sum(advance_frames(before, f)), master),
                    forall|j: int|
                        0 <= j < k ==> (#[trigger] out@[j]) == mixed(
                            frame_sum(advance_frames(before, (j / channels as int) as nat)),
                            master,
                        ),
                    forall|j: int| 0 <= j < k ==> -UNIT <= (#[trigger] out@[j]) <= UNIT,
                decreases len - k,
            {
                proof {
                    lemma_frame_of(k as int, f as int, channels as int);
                }
                out[k] = value;
                k = k + 1;
                c = c + 1;
            }
            proof {
                assert((f + 1) * channels == base + channels) by (nonlinear_arith)
                    requires
                        base == f * channels,
                ;
                f = f + 1;
                base = base + channels;
            }
        }
        proof {
            assert((f - 1) * channels == base - channels) by (nonlinear_arith)
                requires
                    base == f * channels,
            ;
            lemma_frames_for(len as int, f as int, channels as int);
        }
        self.drop_finished();
    }
}

} // verus!
