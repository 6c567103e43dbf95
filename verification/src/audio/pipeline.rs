//! The pipeline: captured samples go through it into frames, the waveform and
//! the noise detector.
use vstd::prelude::*;

use crate::audio::frames::{
    self, AudioCaptureStage, FrameAccumulator, WaveformAccumulator, SAMPLE_RATE_HZ,
};
use crate::audio::noise::{
    self, BaselineShare, BaselineState, DetectorState, NoiseDetector, NoiseEvent,
};

verus! {

/// One reading of the waveform display.
#[derive(Debug, Clone)]
pub struct WaveformFrame<L> {
    pub rms: L,
    pub vad_active: bool,
}

/// Captured samples on their way. The frames that come out go to `listen` and
/// to every subscriber.
pub struct AudioPipeline<S, L> {
    pub frames: FrameAccumulator<S>,
    pub waveform: WaveformAccumulator<S>,
    pub noise: NoiseDetector<S, L>,
    pub stage: AudioCaptureStage,
}

/// What holds of a pipeline at all times.
pub open spec fn pipeline_ok<S: Copy, L: Copy>(p: AudioPipeline<S, L>) -> bool {
    &&& p.frames.wf()
    &&& p.waveform.wf()
    &&& noise::detector_ok(p.noise@)
}

/// Whether two pipelines cut frames of the same lengths.
pub open spec fn same_bounds<S: Copy, L: Copy>(
    a: AudioPipeline<S, L>,
    b: AudioPipeline<S, L>,
) -> bool {
    &&& a.frames.min_len() == b.frames.min_len()
    &&& a.frames.max_len() == b.frames.max_len()
    &&& a.waveform.frame_len() == b.waveform.frame_len()
}

/// Whether a pipeline is in a stage with a detector, and otherwise unchanged.
pub open spec fn only_listens<S: Copy, L: Copy>(
    after: AudioPipeline<S, L>,
    before: AudioPipeline<S, L>,
    stage: AudioCaptureStage,
) -> bool {
    after == (AudioPipeline { noise: after.noise, stage, ..before })
}

proof fn lemma_joined_push<T>(list: Seq<Seq<T>>, last: Seq<T>)
    ensures
        frames::joined(list.push(last)) == frames::joined(list) + last,
    decreases list.len(),
{
    let all = list.push(last);
    if list.len() == 0 {
        assert(all.drop_first() =~= Seq::<Seq<T>>::empty());
        assert(frames::joined(all.drop_first()) =~= Seq::<T>::empty());
        assert(frames::joined(all) =~= last);
        assert(frames::joined(list) + last =~= last);
    } else {
        assert(all.drop_first() =~= list.drop_first().push(last));
        lemma_joined_push(list.drop_first(), last);
        assert(frames::joined(all) =~= list.first() + (frames::joined(list.drop_first()) + last));
        assert(frames::joined(list) + last =~= list.first() + (frames::joined(list.drop_first())
            + last));
    }
}

impl<S: Copy, L: Copy> AudioPipeline<S, L> {
    /// An empty pipeline that does not listen yet.
    pub fn new() -> (r: Self)
        ensures
            pipeline_ok(r),
            r.stage == AudioCaptureStage::Idle,
            r.frames.pending() == Seq::<S>::empty(),
            r.frames.min_len() == frames::samples_in(frames::MIN_FRAME_MS, SAMPLE_RATE_HZ),
            r.frames.max_len() == frames::samples_in(frames::MAX_FRAME_MS, SAMPLE_RATE_HZ),
            r.waveform.pending() == Seq::<S>::empty(),
            r.waveform.frame_len() == frames::samples_in(frames::WAVEFORM_FRAME_MS, SAMPLE_RATE_HZ),
            !r.waveform.started(),
            r.noise@ == (DetectorState::<S, L> {
                stage: AudioCaptureStage::Idle,
                baseline_state: BaselineState::Idle,
                baseline_db: None,
                fallback: frames::samples_in(500, SAMPLE_RATE_HZ) as nat,
                remaining: frames::samples_in(500, SAMPLE_RATE_HZ) as nat,
                window: frames::samples_in(100, SAMPLE_RATE_HZ) as nat,
                pending: Seq::empty(),
                spikes: noise::calm(),
                limit: noise::countdown_windows(SAMPLE_RATE_HZ) as u64,
                silence: noise::no_silence(),
            }),
    {
        AudioPipeline {
            frames: FrameAccumulator::new(),
            waveform: WaveformAccumulator::new(),
            noise: NoiseDetector::new(SAMPLE_RATE_HZ),
            stage: AudioCaptureStage::Idle,
        }
    }

    /// Takes in captured samples, and hands out the frames that are full. The
    /// waveform gets the samples of those frames.
    pub fn push_pcm_frame(&mut self, samples: &[S]) -> (r: Vec<Vec<S>>)
        requires
            pipeline_ok(*old(self)),
        ensures
            pipeline_ok(*final(self)),
            same_bounds(*final(self), *old(self)),
            frames::vec_views(r@) == frames::cut(
                old(self).frames.pending() + samples@,
                old(self).frames.min_len(),
                old(self).frames.max_len(),
            ),
            final(self).frames.pending() == frames::left_over(
                old(self).frames.pending() + samples@,
                old(self).frames.min_len(),
                old(self).frames.max_len(),
            ),
            final(self).waveform.pending() == old(self).waveform.pending() + frames::joined(
                frames::vec_views(r@),
            ),
            final(self).waveform.started() == (old(self).waveform.started() || r@.len() > 0),
            final(self).noise == old(self).noise,
            final(self).stage == old(self).stage,
    {
        let list = self.frames.push(samples);
        let ghost views = frames::vec_views(list@);
        proof {
            frames::law_cutting_keeps_samples(
                old(self).frames.pending() + samples@,
                old(self).frames.min_len(),
                old(self).frames.max_len(),
            );
            assert(frames::joined(views.take(0)) =~= Seq::<S>::empty());
        }
        let mut i: usize = 0;
        while i < list.len()
            invariant
                i <= list@.len(),
                views == frames::vec_views(list@),
                0 < old(self).frames.min_len(),
                forall|k: int|
                    0 <= k < views.len() ==> (#[trigger] views[k]).len() >= old(
                        self,
                    ).frames.min_len(),
                self.waveform.pending() == old(self).waveform.pending() + frames::joined(
                    views.take(i as int),
                ),
                self.waveform.started() == (old(self).waveform.started() || i > 0),
                self.waveform.frame_len() == old(self).waveform.frame_len(),
                self.frames.wf(),
                self.frames.min_len() == old(self).frames.min_len(),
                self.frames.max_len() == old(self).frames.max_len(),
                self.frames.pending() == frames::left_over(
                    old(self).frames.pending() + samples@,
                    old(self).frames.min_len(),
                    old(self).frames.max_len(),
                ),
                self.noise == old(self).noise,
                self.stage == old(self).stage,
            decreases list.len() - i,
        {
            assert(views[i as int] == list@[i as int]@);
            proof {
                assert(views.take(i + 1) =~= views.take(i as int).push(views[i as int]));
                lemma_joined_push(views.take(i as int), views[i as int]);
            }
            let ghost before = self.waveform.pending();
            self.waveform.push(list[i].as_slice());
            assert(old(self).waveform.pending() + frames::joined(views.take(i + 1)) =~= before
                + views[i as int]);
            i += 1;
        }
        assert(views.take(views.len() as int) =~= views);
        list
    }

    /// Hands out the samples that do not fill a frame, as one that is filled up
    /// with `silence`. The waveform gets it too, and is itself filled up to
    /// whole frames. Where nothing is pending, nothing happens.
    pub fn flush_pending(&mut self, silence: S) -> (r: Option<Vec<S>>)
        requires
            pipeline_ok(*old(self)),
        ensures
            pipeline_ok(*final(self)),
            same_bounds(*final(self), *old(self)),
            final(self).frames.pending() == Seq::<S>::empty(),
            final(self).noise == old(self).noise,
            final(self).stage == old(self).stage,
            r is Some <==> old(self).frames.pending().len() > 0,
            match r {
                Some(frame) => {
                    let shown = old(self).waveform.pending() + frame@;
                    let n = old(self).waveform.frame_len();
                    &&& frame@ == frames::padded(
                        old(self).frames.pending(),
                        old(self).frames.min_len(),
                        silence,
                    )
                    &&& final(self).waveform.pending() == frames::padded(
                        shown,
                        ((shown.len() + n - 1) / (n as int) * n) as nat,
                        silence,
                    )
                    &&& final(self).waveform.started()
                },
                None => final(self).waveform == old(self).waveform,
            },
    {
        match self.frames.flush(silence) {
            Some(frame) => {
                self.waveform.push(frame.as_slice());
                self.waveform.flush_tail(silence);
                Some(frame)
            },
            None => None,
        }
    }

    /// Lets the noise detector hear a frame, and says which of its samples
    /// belong to the baseline. While idle it hears nothing.
    pub fn listen(&mut self, frame: &[S]) -> (r: Option<BaselineShare>)
        requires
            pipeline_ok(*old(self)),
        ensures
            pipeline_ok(*final(self)),
            only_listens(*final(self), *old(self), old(self).stage),
            r is None <==> old(self).stage == AudioCaptureStage::Idle,
            match r {
                Some(share) => {
                    let heard = old(self).noise@;
                    &&& final(self).noise@ == noise::fed(heard, frame@, old(self).stage)
                    &&& share.take == noise::baseline_share(heard, frame@.len(), old(self).stage)
                    &&& share.complete == noise::baseline_completes(
                        heard,
                        frame@.len(),
                        old(self).stage,
                    )
                },
                None => final(self).noise == old(self).noise,
            },
    {
        if self.stage == AudioCaptureStage::Idle {
            return None;
        }
        Some(self.noise.ingest(frame, self.stage))
    }

    /// Starts listening before a recording, with a known baseline or to find
    /// one.
    pub fn begin_preroll(&mut self, baseline_db: Option<L>) -> (events: Vec<NoiseEvent<L>>)
        requires
            pipeline_ok(*old(self)),
        ensures
            pipeline_ok(*final(self)),
            only_listens(*final(self), *old(self), AudioCaptureStage::PreRoll),
            final(self).noise@ == (DetectorState {
                stage: AudioCaptureStage::PreRoll,
                baseline_state: if baseline_db is Some {
                    BaselineState::Locked
                } else {
                    BaselineState::Sampling
                },
                baseline_db,
                remaining: old(self).noise@.fallback,
                ..noise::windows_cleared(old(self).noise@)
            }),
            events@ == match baseline_db {
                Some(level_db) => seq![NoiseEvent::BaselineEstablished { level_db }],
                None => Seq::<NoiseEvent<L>>::empty(),
            },
    {
        self.stage = AudioCaptureStage::PreRoll;
        self.noise.enter_preroll(baseline_db)
    }

    /// Starts a recording. The baseline stays, and so does what is sampled of it.
    pub fn begin_recording(&mut self)
        requires
            pipeline_ok(*old(self)),
        ensures
            pipeline_ok(*final(self)),
            only_listens(*final(self), *old(self), AudioCaptureStage::Recording),
            final(self).noise@ == (DetectorState {
                stage: AudioCaptureStage::Recording,
                ..noise::windows_cleared(old(self).noise@)
            }),
    {
        self.stage = AudioCaptureStage::Recording;
        self.noise.enter_recording();
    }

    /// Stops listening and forgets the baseline. Samples that are pending stay.
    pub fn reset_session(&mut self)
        requires
            pipeline_ok(*old(self)),
        ensures
            pipeline_ok(*final(self)),
            only_listens(*final(self), *old(self), AudioCaptureStage::Idle),
            final(self).noise@ == (DetectorState {
                stage: AudioCaptureStage::Idle,
                baseline_state: BaselineState::Idle,
                baseline_db: None,
                remaining: old(self).noise@.fallback,
                ..noise::windows_cleared(old(self).noise@)
            }),
    {
        self.stage = AudioCaptureStage::Idle;
        self.noise.reset();
    }
}

} // verus!
