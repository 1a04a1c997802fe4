//! The application's life: it builds its height map when it starts, runs, and
//! ends when the host reports that the user asked for that.
use crate::height_map::height_map;
use crate::height_map::HeightMapBuilder;
use crate::height_map::PixelBuffer;
use crate::perlin::lemma_perlin_height_map_is_flat;
use crate::perlin::perlin_lattice_field;
use crate::perlin::PerlinSampler;
use vstd::prelude::*;

verus! {

/// The number of columns of the application's height map.
pub const MAP_WIDTH: usize = 20;

/// The number of rows of the application's height map.
pub const MAP_HEIGHT: usize = 10;

/// The number of channels of each pixel of the application's height map.
pub const MAP_CHANNELS: usize = 3;

/// A key of the keyboard, as far as the application tells keys apart.
#[derive(Clone, Copy, Debug, PartialEq, Eq, Structural)]
pub enum Key {
    Escape,
    Character(char),
    Other,
}

/// What happened to a key.
#[derive(Clone, Copy, Debug, PartialEq, Eq, Structural)]
pub enum KeyState {
    Pressed,
    Released,
}

/// What the host reports to the application.
#[derive(Clone, Copy, Debug, PartialEq, Eq, Structural)]
pub enum HostEvent {
    /// The user asked for the window to be closed.
    CloseRequested,
    /// The given key was pressed or released.
    KeyboardInput(Key, KeyState),
    /// Anything else.
    Other,
}

impl HostEvent {
    /// The event asks for the application to end: a request to close the
    /// window, or a press of the escape key. The release of the escape key
    /// asks for nothing.
    pub open spec fn requests_termination(self) -> bool {
        self == HostEvent::CloseRequested || self == HostEvent::KeyboardInput(
            Key::Escape,
            KeyState::Pressed,
        )
    }

    /// Tells whether the event asks for the application to end.
    pub fn is_termination_request(&self) -> (asked: bool)
        ensures
            asked == self.requests_termination(),
    {
        match self {
            HostEvent::CloseRequested => true,
            HostEvent::KeyboardInput(Key::Escape, KeyState::Pressed) => true,
            _ => false,
        }
    }
}

/// What the host is to do after an event.
#[derive(Clone, Copy, Debug, PartialEq, Eq, Structural)]
pub enum Transition {
    /// Go on running.
    Continue,
    /// Leave the loop and exit cleanly.
    Quit,
}

/// Where the application is in its life.
#[derive(Clone, Copy, Debug, PartialEq, Eq, Structural)]
pub enum Phase {
    Running,
    Terminating,
}

impl Phase {
    /// The phase after an event: an event that asks for the end leads to
    /// `Terminating`, any other event leaves the phase as it is. Nothing leads
    /// out of `Terminating`.
    pub open spec fn after(self, event: HostEvent) -> Phase {
        if event.requests_termination() {
            Phase::Terminating
        } else {
            self
        }
    }
}

/// The application's state.
#[derive(Clone, Copy, Debug)]
pub struct GameState {
    pub phase: Phase,
}

impl GameState {
    /// The state of an application that runs.
    pub fn new() -> (state: GameState)
        ensures
            state.phase == Phase::Running,
    {
        GameState { phase: Phase::Running }
    }

    /// Builds the application's height map: Perlin noise, from a generator of
    /// the default seed, over a grid of `MAP_WIDTH` by `MAP_HEIGHT` cells, in
    /// pixels of `MAP_CHANNELS` channels. Every byte of it is 0. The map is
    /// handed to the caller, and the state keeps nothing of it.
    pub fn on_start(&mut self) -> (map: PixelBuffer)
        ensures
            *final(self) == *old(self),
            map@ == height_map(
                perlin_lattice_field(),
                MAP_WIDTH as nat,
                MAP_HEIGHT as nat,
                MAP_CHANNELS as nat,
            ),
            map@ == Seq::new((MAP_WIDTH * MAP_HEIGHT * MAP_CHANNELS) as nat, |offset: int| 0u8),
            map@.len() == MAP_WIDTH * MAP_HEIGHT * MAP_CHANNELS,
            map.width == MAP_WIDTH,
            map.height == MAP_HEIGHT,
            map.format.channels == MAP_CHANNELS,
            map.well_formed(),
    {
        let sampler = PerlinSampler::new();
        let map = HeightMapBuilder::build(&sampler, MAP_WIDTH, MAP_HEIGHT, MAP_CHANNELS);
        proof {
            lemma_perlin_height_map_is_flat(
                MAP_WIDTH as nat,
                MAP_HEIGHT as nat,
                MAP_CHANNELS as nat,
            );
        }
        map
    }

    /// Takes an event from the host. The answer is `Quit` exactly for an event
    /// that asks for the end, and the phase moves on as `Phase::after` says.
    pub fn handle_event(&mut self, event: &HostEvent) -> (transition: Transition)
        ensures
            transition == Transition::Quit <==> event.requests_termination(),
            transition == Transition::Continue <==> !event.requests_termination(),
            final(self).phase == old(self).phase.after(*event),
    {
        if event.is_termination_request() {
            self.phase = Phase::Terminating;
            Transition::Quit
        } else {
            Transition::Continue
        }
    }
}

/// Once terminating, always terminating: no event leads back.
pub proof fn lemma_terminating_is_final(event: HostEvent)
    ensures
        Phase::Terminating.after(event) == Phase::Terminating,
{
}

/// A running application keeps running under every event that does not ask
/// for the end, and ends under every event that does.
pub proof fn lemma_running_step(event: HostEvent)
    ensures
        Phase::Running.after(event) == Phase::Running <==> !event.requests_termination(),
        Phase::Running.after(event) == Phase::Terminating <==> event.requests_termination(),
{
}

} // verus!
