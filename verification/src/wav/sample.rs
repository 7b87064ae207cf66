//! A channel's worth of discrete 16-bit samples at a fixed sample rate.

use vstd::prelude::*;

verus! {

/// Sample rate of a source that was given none, in samples per second.
pub const DEFAULT_SAMPLE_RATE: u32 = 44100;

/// Magnitude that a full-scale signal of amplitude 1 is scaled to.
pub const MAX_AMPLITUDE: u32 = 32768;

/// What a [`Samples`] value stands for: its points in order, and its rate.
pub ghost struct SamplesView {
    pub points: Seq<i16>,
    pub sample_rate: u32,
}

#[derive(Clone, PartialEq, Eq, Debug)]
pub struct Samples {
    points: Vec<i16>,
    sample_rate: u32,
}

impl View for Samples {
    type V = SamplesView;

    closed spec fn view(&self) -> SamplesView {
        SamplesView { points: self.points@, sample_rate: self.sample_rate }
    }
}

impl Samples {
    /// A source over `points` at [`DEFAULT_SAMPLE_RATE`].
    pub fn new(points: Vec<i16>) -> (s: Samples)
        ensures
            s@.points == points@,
            s@.sample_rate == DEFAULT_SAMPLE_RATE,
    {
        Samples { points, sample_rate: DEFAULT_SAMPLE_RATE }
    }

    /// The same points at another sample rate.
    pub fn with_sample_rate(self, sample_rate: u32) -> (s: Samples)
        ensures
            s@.points == self@.points,
            s@.sample_rate == sample_rate,
    {
        Samples { points: self.points, sample_rate }
    }

    /// The `i`-th sample, or `None` past the end of the points.
    pub fn sample(&self, i: usize) -> (s: Option<i16>)
        ensures
            s == if i < self@.points.len() {
                Some(self@.points[i as int])
            } else {
                None
            },
    {
        if i < self.points.len() {
            Some(self.points[i])
        } else {
            None
        }
    }

    pub fn sample_rate(&self) -> (rate: u32)
        ensures
            rate == self@.sample_rate,
    {
        self.sample_rate
    }

    /// How many samples the source holds.
    pub fn sample_count(&self) -> (n: usize)
        ensures
            n == self@.points.len(),
    {
        self.points.len()
    }
}

} // verus!
