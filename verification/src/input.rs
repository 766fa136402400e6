//! Keyboard and window events, and what they do to the snake's heading.

use crate::cell::{opposite, Direction};
use crate::game::Game;
use vstd::prelude::*;

verus! {

/// The keys that the game tells apart.
#[derive(Clone, Copy, Debug, PartialEq, Eq, Structural)]
pub enum Key {
    Escape,
    Q,
    Up,
    Down,
    Left,
    Right,
    Other,
}

/// One event from the window.
#[derive(Clone, Copy, Debug, PartialEq, Eq, Structural)]
pub enum Event {
    /// The window was asked to close.
    Quit,
    /// A key was pressed.
    KeyDown(Key),
    /// A key was released.
    KeyUp(Key),
    /// Anything else.
    Other,
}

/// Whether `event` ends the game: a request to close the window, or a press
/// of Escape or Q.
pub open spec fn ends_game(event: Event) -> bool {
    event == Event::Quit || event == Event::KeyDown(Key::Escape) || event == Event::KeyDown(Key::Q)
}

/// The heading that `event` asks for: the release of an arrow key asks for
/// that arrow's heading, every other event for none.
pub open spec fn requested(event: Event) -> Option<Direction> {
    match event {
        Event::KeyUp(Key::Up) => Some(Direction::Up),
        Event::KeyUp(Key::Down) => Some(Direction::Down),
        Event::KeyUp(Key::Left) => Some(Direction::Left),
        Event::KeyUp(Key::Right) => Some(Direction::Right),
        _ => None,
    }
}

/// The heading after a request for `wanted` while heading `current`: the
/// request is granted unless it would turn the snake straight back.
pub open spec fn turn(current: Direction, wanted: Direction) -> Direction {
    if current == opposite(wanted) {
        current
    } else {
        wanted
    }
}

/// The heading after `event` while heading `current`.
pub open spec fn heading_after(current: Direction, event: Event) -> Direction {
    match requested(event) {
        Some(wanted) => turn(current, wanted),
        None => current,
    }
}

/// Whether one of `events` ends the game.
pub open spec fn any_ends_game(events: Seq<Event>) -> bool {
    exists|i: int| 0 <= i < events.len() && ends_game(#[trigger] events[i])
}

/// The heading after `events`, taken in order up to the first that ends the
/// game; the events behind that one are not looked at.
pub open spec fn heading_after_all(current: Direction, events: Seq<Event>) -> Direction
    decreases events.len(),
{
    if events.len() == 0 || ends_game(events[0]) {
        current
    } else {
        heading_after_all(heading_after(current, events[0]), events.drop_first())
    }
}

/// A request to turn straight back is refused: the heading stays as it was.
pub proof fn lemma_reversal_refused(current: Direction, wanted: Direction)
    requires
        wanted == opposite(current),
    ensures
        turn(current, wanted) == current,
{
}

/// A request for any heading but the reverse of the current one is granted.
pub proof fn lemma_other_turn_granted(current: Direction, wanted: Direction)
    requires
        wanted != opposite(current),
    ensures
        turn(current, wanted) == wanted,
{
}

/// Input never takes the heading away: after any event a snake that had a
/// heading still has one.
pub proof fn lemma_heading_kept(current: Direction, event: Event)
    requires
        current != Direction::Noop,
    ensures
        heading_after(current, event) != Direction::Noop,
{
}

impl Game {
    /// Asks for the heading `wanted`. The request is granted unless it would
    /// turn the snake straight back: then the heading stays as it was.
    pub fn request_turn(&mut self, wanted: Direction)
        ensures
            final(self)@ == old(self)@.heading(turn(old(self)@.direction, wanted)),
            old(self)@.direction == opposite(wanted) ==> final(self)@ == old(self)@,
            old(self)@.wf() ==> final(self)@.wf(),
    {
        if self.current_direction() != wanted.reversed() {
            self.move_snake(wanted);
        }
    }

    /// Handles one event. Returns whether it ends the game; if it asks for a
    /// turn, the heading changes unless the turn would reverse the snake.
    pub fn handle_event(&mut self, event: Event) -> (end: bool)
        ensures
            end == ends_game(event),
            final(self)@ == old(self)@.heading(heading_after(old(self)@.direction, event)),
            old(self)@.wf() ==> final(self)@.wf(),
    {
        match event {
            Event::Quit | Event::KeyDown(Key::Escape) | Event::KeyDown(Key::Q) => true,
            Event::KeyUp(Key::Up) => {
                self.request_turn(Direction::Up);
                false
            },
            Event::KeyUp(Key::Down) => {
                self.request_turn(Direction::Down);
                false
            },
            Event::KeyUp(Key::Left) => {
                self.request_turn(Direction::Left);
                false
            },
            Event::KeyUp(Key::Right) => {
                self.request_turn(Direction::Right);
                false
            },
            _ => false,
        }
    }

    /// Handles the pending events in order and stops at the first that ends
    /// the game. Returns whether one did.
    pub fn handle_events(&mut self, events: &Vec<Event>) -> (end: bool)
        ensures
            end == any_ends_game(events@),
            final(self)@ == old(self)@.heading(
                heading_after_all(old(self)@.direction, events@),
            ),
            old(self)@.wf() ==> final(self)@.wf(),
    {
        let mut i: usize = 0;
        assert(events@.subrange(0, events@.len() as int) =~= events@);
        while i < events.len()
            invariant
                i <= events.len(),
                forall|j: int| 0 <= j < i ==> !ends_game(#[trigger] events@[j]),
                self@ == old(self)@.heading(self@.direction),
                heading_after_all(old(self)@.direction, events@) == heading_after_all(
                    self@.direction,
                    events@.subrange(i as int, events@.len() as int),
                ),
            decreases events.len() - i,
        {
            let ghost rest = events@.subrange(i as int, events@.len() as int);
            assert(rest[0] == events@[i as int]);
            assert(rest.drop_first() =~= events@.subrange(i + 1, events@.len() as int));
            if self.handle_event(events[i]) {
                return true;
            }
            i += 1;
        }
        false
    }
}

} // verus!
