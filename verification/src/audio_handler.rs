//! Playback control of audio streams.
use vstd::prelude::*;

verus! {

/// A stream that can be started; audio back ends implement it for their
/// stream types.
pub trait PlayableStream: Send {
    fn play(&self);
}

} // verus!
