//! The shared lifecycle register.
//!
//! The signalling engine and the media pipeline coordinate through a single
//! five-valued state. This module holds the register itself: every
//! transition is unconditional and every query is exact. The blocking
//! waits (condition-variable parking) live with the embedding, which wraps
//! a `PlayingState` in a mutex and broadcasts on every set.
use vstd::prelude::*;

verus! {

/// The five lifecycle stages of a connection.
#[derive(Clone, Copy, PartialEq, Eq, Structural, Debug)]
pub enum LifecycleStage {
    Disconnected,
    Connected,
    Playing,
    Paused,
    Finished,
}

/// The lifecycle register. Fresh registers start `Disconnected`.
pub struct PlayingState {
    stage: LifecycleStage,
}

impl PlayingState {
    /// The current stage, for contracts.
    pub closed spec fn view(&self) -> LifecycleStage {
        self.stage
    }

    pub fn new() -> (r: Self)
        ensures
            r@ == LifecycleStage::Disconnected,
    {
        PlayingState { stage: LifecycleStage::Disconnected }
    }

    pub fn stage(&self) -> (r: LifecycleStage)
        ensures
            r == self@,
    {
        self.stage
    }

    pub fn is_disconnected(&self) -> (r: bool)
        ensures
            r == (self@ == LifecycleStage::Disconnected),
    {
        self.stage == LifecycleStage::Disconnected
    }

    pub fn is_connected(&self) -> (r: bool)
        ensures
            r == (self@ == LifecycleStage::Connected),
    {
        self.stage == LifecycleStage::Connected
    }

    pub fn is_playing(&self) -> (r: bool)
        ensures
            r == (self@ == LifecycleStage::Playing),
    {
        self.stage == LifecycleStage::Playing
    }

    pub fn is_paused(&self) -> (r: bool)
        ensures
            r == (self@ == LifecycleStage::Paused),
    {
        self.stage == LifecycleStage::Paused
    }

    pub fn is_finished(&self) -> (r: bool)
        ensures
            r == (self@ == LifecycleStage::Finished),
    {
        self.stage == LifecycleStage::Finished
    }

    pub fn disconnected(&mut self)
        ensures
            final(self)@ == LifecycleStage::Disconnected,
    {
        self.stage = LifecycleStage::Disconnected;
    }

    pub fn connected(&mut self)
        ensures
            final(self)@ == LifecycleStage::Connected,
    {
        self.stage = LifecycleStage::Connected;
    }

    pub fn playing(&mut self)
        ensures
            final(self)@ == LifecycleStage::Playing,
    {
        self.stage = LifecycleStage::Playing;
    }

    pub fn paused(&mut self)
        ensures
            final(self)@ == LifecycleStage::Paused,
    {
        self.stage = LifecycleStage::Paused;
    }

    pub fn finished(&mut self)
        ensures
            final(self)@ == LifecycleStage::Finished,
    {
        self.stage = LifecycleStage::Finished;
    }
}

} // verus!
