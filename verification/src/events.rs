//! What the simulation tells its presentation: a queue of events, appended to
//! at the back while a step runs and drained from the front after it.
use crate::effects::{events_home, events_wf};
use crate::game::Game;
use crate::vec2::Vec2;
use std::collections::VecDeque;
use vstd::prelude::*;

verus! {

/// A colour of the fixed palette.
#[derive(Clone, Copy, Debug, PartialEq, Eq, Structural)]
pub enum Color {
    White,
    Red,
    Orange,
    SkyBlue,
    Gold,
    Green,
    Purple,
    Crimson,
    Violet,
}

/// Something that happened in the simulation and is to be shown.
#[derive(Clone, Copy, Debug, PartialEq, Eq, Structural)]
pub enum Event {
    /// A burst of `count` particles of one colour at `pos`.
    Explosion { pos: Vec2, color: Color, count: usize },
    /// The ship picked up a power-up at `pos`.
    PowerUpSpawn { pos: Vec2 },
    /// The beam was fired from `pos` along `dir`.
    LaserFired { pos: Vec2, dir: Vec2 },
    /// The ship lost its last life.
    GameOver,
}

/// The events not yet shown, oldest first.
pub struct EventQueue {
    queue: VecDeque<Event>,
}

impl View for EventQueue {
    type V = Seq<Event>;

    closed spec fn view(&self) -> Seq<Event> {
        self.queue@
    }
}

impl EventQueue {
    /// An empty queue.
    pub fn new() -> (q: EventQueue)
        ensures
            q@ == Seq::<Event>::empty(),
            q@.len() == 0,
    {
        EventQueue { queue: VecDeque::new() }
    }

    /// Appends `event` at the back.
    pub fn push(&mut self, event: Event)
        ensures
            final(self)@ == old(self)@.push(event),
    {
        self.queue.push_back(event);
    }

    /// Removes and returns the event at the front, if there is one.
    pub fn pop(&mut self) -> (event: Option<Event>)
        ensures
            old(self)@.len() == 0 ==> event.is_none() && final(self)@ == old(self)@,
            old(self)@.len() > 0 ==> event == Some(old(self)@[0]),
            old(self)@.len() > 0 ==> final(self)@ == old(self)@.skip(1),
    {
        self.queue.pop_front()
    }

    /// Hands every queued event to the effects of `game`, oldest first, and
    /// leaves the queue empty.
    pub fn process(&mut self, game: &mut Game)
        requires
            old(game).effects.wf(),
            events_wf(old(self)@),
        ensures
            final(self)@.len() == 0,
            final(game).effects.wf(),
            final(game).effects.shows(old(game).effects, old(self)@),
            final(game).same_but_effects(*old(game)),
            old(game).effects.tame() && events_home(old(self)@) ==> final(game).effects.tame(),
    {
        game.effects.process_events(self);
    }

    /// Drops every queued event.
    pub fn clear(&mut self)
        ensures
            final(self)@.len() == 0,
    {
        self.queue.clear();
    }

    /// The number of queued events.
    pub fn len(&self) -> (n: usize)
        ensures
            n == self@.len(),
    {
        self.queue.len()
    }

    /// Whether no event is queued.
    pub fn is_empty(&self) -> (r: bool)
        ensures
            r == (self@.len() == 0),
    {
        self.queue.len() == 0
    }
}

impl Default for EventQueue {
    fn default() -> (q: EventQueue)
        ensures
            q@.len() == 0,
    {
        EventQueue::new()
    }
}

} // verus!
