//! The closed sets of signal sources and signal sinks.
//!
//! A source produces a fixed-point signal value: one of the four internal
//! neurons, a fresh random value in [-1, 1], or a position component. A sink
//! consumes an accumulated signal: an internal neuron, or one of the two
//! movement decisions.

use vstd::prelude::*;
use crate::rng::draw_index;

verus! {

/// A signal source: an internal neuron or a sensory reading.
#[derive(Debug, Copy, Clone, PartialEq, Eq, Structural)]
pub enum Source {
    I0,
    I1,
    I2,
    I3,
    /// A fresh uniform value in [-1, 1], drawn once per agent per step.
    Random,
    /// Position on the x axis, as a fraction of the board's half-width.
    Px,
    /// Position on the y axis, as a fraction of the board's half-height.
    Py,
}

/// A signal sink: an internal neuron or a movement decision.
#[derive(Debug, Copy, Clone, PartialEq, Eq, Structural)]
pub enum Sink {
    I0,
    I1,
    I2,
    I3,
    /// Movement along the x axis.
    Mx,
    /// Movement along the y axis.
    My,
}

impl Source {
    /// The source set's fixed order: the variant a draw of `k` selects.
    pub open spec fn spec_from_index(k: int) -> Source {
        if k == 0 {
            Source::I0
        } else if k == 1 {
            Source::I1
        } else if k == 2 {
            Source::I2
        } else if k == 3 {
            Source::I3
        } else if k == 4 {
            Source::Random
        } else if k == 5 {
            Source::Px
        } else {
            Source::Py
        }
    }

    /// The source at index `k` of the closed set's fixed order.
    pub fn from_index(k: usize) -> (s: Self)
        requires
            k < 7,
        ensures
            s == Self::spec_from_index(k as int),
    {
        match k {
            0 => Self::I0,
            1 => Self::I1,
            2 => Self::I2,
            3 => Self::I3,
            4 => Self::Random,
            5 => Self::Px,
            _ => Self::Py,
        }
    }

    /// Draw a source uniformly from the seven variants.
    pub fn random_new(rng: &mut rand::rngs::StdRng) -> Self {
        Self::from_index(draw_index(rng, 7))
    }
}

impl Sink {
    /// The sink set's fixed order: the variant a draw of `k` selects.
    pub open spec fn spec_from_index(k: int) -> Sink {
        if k == 0 {
            Sink::I0
        } else if k == 1 {
            Sink::I1
        } else if k == 2 {
            Sink::I2
        } else if k == 3 {
            Sink::I3
        } else if k == 4 {
            Sink::Mx
        } else {
            Sink::My
        }
    }

    /// The sink at index `k` of the closed set's fixed order.
    pub fn from_index(k: usize) -> (s: Self)
        requires
            k < 6,
        ensures
            s == Self::spec_from_index(k as int),
    {
        match k {
            0 => Self::I0,
            1 => Self::I1,
            2 => Self::I2,
            3 => Self::I3,
            4 => Self::Mx,
            _ => Self::My,
        }
    }

    /// Draw a sink uniformly from the six variants.
    pub fn random_new(rng: &mut rand::rngs::StdRng) -> Self {
        Self::from_index(draw_index(rng, 6))
    }
}

} // verus!
