//! The main menu's decisions for one frame: quit, run the selected entry, or
//! move the selection up or down with wrap-around.
use vstd::prelude::*;
use crate::input::{Channel, ImmediateEvents};

verus! {

/// Whether a screen is asked to quit this tick: the window was asked to close,
/// or escape was just pressed.
pub open spec fn quit_asked(edges: Seq<Option<bool>>, quit: bool) -> bool {
    quit || edges[Channel::Escape.slot()] == Some(true)
}

/// Whether the screen is asked to quit during the tick of `now`.
pub fn wants_quit(now: &ImmediateEvents) -> (r: bool)
    ensures
        r == quit_asked(now.edges(), now.quit_requested()),
{
    now.quit() || now.key(Channel::Escape) == Some(true)
}

/// What the menu does in one frame.
#[derive(Clone, Copy, Debug, PartialEq, Eq, Structural)]
pub enum MenuStep {
    /// Leave the program.
    Quit,
    /// Run the entry at this position.
    Choose(usize),
    /// Draw the menu with this entry highlighted.
    Show(usize),
}

/// The menu's step for the edges of one tick, from selection `selected` of
/// `count` entries. Quit wins over everything; then space runs the selection;
/// then up (before down) moves it, wrapping at both ends.
pub open spec fn menu_step(edges: Seq<Option<bool>>, quit: bool, selected: int, count: int) -> MenuStep {
    if quit_asked(edges, quit) {
        MenuStep::Quit
    } else if edges[Channel::Space.slot()] == Some(true) {
        MenuStep::Choose(selected as usize)
    } else if edges[Channel::Up.slot()] == Some(true) {
        MenuStep::Show(if selected == 0 { (count - 1) as usize } else { (selected - 1) as usize })
    } else if edges[Channel::Down.slot()] == Some(true) {
        MenuStep::Show(if selected + 1 >= count { 0 } else { (selected + 1) as usize })
    } else {
        MenuStep::Show(selected as usize)
    }
}

/// The highlighted entry of a menu of a fixed, non-zero number of entries.
pub struct Menu {
    selected: usize,
    count: usize,
}

impl Menu {
    #[verifier::type_invariant]
    spec fn inv(self) -> bool {
        self.selected < self.count
    }

    /// The position of the highlighted entry.
    pub closed spec fn selection(&self) -> int {
        self.selected as int
    }

    /// The number of entries.
    pub closed spec fn size(&self) -> int {
        self.count as int
    }

    /// A menu of `count` entries with the first one highlighted.
    pub fn new(count: usize) -> (r: Menu)
        requires
            count > 0,
        ensures
            r.selection() == 0,
            r.size() == count,
    {
        Menu { selected: 0, count }
    }

    /// The position of the highlighted entry.
    pub fn selected(&self) -> (r: usize)
        ensures
            r == self.selection(),
            r < self.size(),
    {
        proof {
            use_type_invariant(self);
        }
        self.selected
    }

    /// Reacts to the edges of one tick. The highlight moves only when the
    /// step is `Show`, to the entry it names.
    pub fn update(&mut self, now: &ImmediateEvents) -> (r: MenuStep)
        ensures
            r == menu_step(now.edges(), now.quit_requested(), old(self).selection(), old(self).size()),
            final(self).size() == old(self).size(),
            final(self).selection() == match r {
                MenuStep::Show(i) => i as int,
                _ => old(self).selection(),
            },
    {
        proof {
            use_type_invariant(&*self);
        }
        if wants_quit(now) {
            return MenuStep::Quit;
        }
        if now.key(Channel::Space) == Some(true) {
            return MenuStep::Choose(self.selected);
        }
        let next = if now.key(Channel::Up) == Some(true) {
            if self.selected == 0 {
                self.count - 1
            } else {
                self.selected - 1
            }
        } else if now.key(Channel::Down) == Some(true) {
            if self.selected + 1 >= self.count {
                0
            } else {
                self.selected + 1
            }
        } else {
            self.selected
        };
        *self = Menu { selected: next, count: self.count };
        MenuStep::Show(next)
    }
}

} // verus!
