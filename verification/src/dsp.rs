use vstd::prelude::*;

verus! {

/// The parameters of the basic clipper: a symmetric threshold, gain on the
/// way in and out, and the oversampling switch.  The host layer binds these
/// to its own parameter objects and hands plain values to the processing
/// graph.
#[derive(Copy, Clone, Debug, PartialEq, Eq, PartialOrd, Ord, Structural)]
pub enum DspParam {
    Threshold,
    InputGain,
    OutputGain,
    Oversample,
}

} // verus!
