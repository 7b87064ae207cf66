//! One or two sample sources that sound together.

use crate::wav::sample::{Samples, SamplesView};
use vstd::prelude::*;

verus! {

/// What a [`Channel`] stands for.
pub ghost enum ChannelView {
    Mono(SamplesView),
    Stereo(SamplesView, SamplesView),
}

impl ChannelView {
    pub open spec fn channels(self) -> u16 {
        match self {
            ChannelView::Mono(_) => 1,
            ChannelView::Stereo(_, _) => 2,
        }
    }

    /// The rate of the only source, or of the right one.
    pub open spec fn sample_rate(self) -> u32 {
        match self {
            ChannelView::Mono(s) => s.sample_rate,
            ChannelView::Stereo(right, _) => right.sample_rate,
        }
    }

    /// The number of samples that every source can supply.
    pub open spec fn available(self) -> nat {
        match self {
            ChannelView::Mono(s) => s.points.len(),
            ChannelView::Stereo(right, left) => if right.points.len() <= left.points.len() {
                right.points.len()
            } else {
                left.points.len()
            },
        }
    }

    /// Both sources of a stereo channel run at one sample rate.
    pub open spec fn wf(self) -> bool {
        match self {
            ChannelView::Mono(_) => true,
            ChannelView::Stereo(right, left) => right.sample_rate == left.sample_rate,
        }
    }

    /// The channel cut down to the first `n` samples of each source.
    pub open spec fn take(self, n: int) -> ChannelView {
        match self {
            ChannelView::Mono(s) => ChannelView::Mono(
                SamplesView { points: s.points.take(n), sample_rate: s.sample_rate },
            ),
            ChannelView::Stereo(right, left) => ChannelView::Stereo(
                SamplesView { points: right.points.take(n), sample_rate: right.sample_rate },
                SamplesView { points: left.points.take(n), sample_rate: left.sample_rate },
            ),
        }
    }
}

/// A single source, or a right and a left one.
#[derive(Clone, PartialEq, Eq, Debug)]
pub enum Channel {
    Mono(Samples),
    Stereo(Samples, Samples),
}

impl View for Channel {
    type V = ChannelView;

    open spec fn view(&self) -> ChannelView {
        match self {
            Channel::Mono(s) => ChannelView::Mono(s@),
            Channel::Stereo(right, left) => ChannelView::Stereo(right@, left@),
        }
    }
}

impl Channel {
    pub fn channels(&self) -> (n: u16)
        ensures
            n == self@.channels(),
    {
        match self {
            Channel::Mono(..) => 1,
            Channel::Stereo(..) => 2,
        }
    }

    pub fn sample_rate(&self) -> (rate: u32)
        ensures
            rate == self@.sample_rate(),
    {
        match self {
            Channel::Mono(s) => s.sample_rate(),
            Channel::Stereo(right, _) => right.sample_rate(),
        }
    }
}

} // verus!
