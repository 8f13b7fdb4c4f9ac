use vstd::prelude::*;
use crate::input::{Input, MenuOption};

verus! {

/// A vertical list of options with one selected.
pub struct Menu {
    pub options: Vec<MenuOption>,
    pub selected: usize,
}

/// What the menu loop does after an input.
#[derive(Clone, Copy, Debug, PartialEq, Eq, Structural)]
pub enum MenuStep {
    /// The selection moved: draw the menu again.
    Redraw,
    /// The menu is done with this result.
    Chosen(MenuOption),
    /// Nothing changed.
    Wait,
}

/// The selection after moving up, wrapping to the last option.
pub open spec fn select_up(sel: int, n: int) -> int {
    if sel > 0 {
        sel - 1
    } else {
        n - 1
    }
}

/// The selection after moving down, wrapping to the first option.
pub open spec fn select_down(sel: int, n: int) -> int {
    if sel + 1 < n {
        sel + 1
    } else {
        0
    }
}

impl Menu {
    /// A menu has options and one of them is selected.
    pub open spec fn wf(&self) -> bool {
        self.options@.len() > 0 && self.selected < self.options@.len()
    }

    /// A menu over `options` with the first one selected.
    pub fn init(options: Vec<MenuOption>) -> (r: Menu)
        requires
            options@.len() > 0,
        ensures
            r.wf(),
            r.options@ == options@,
            r.selected == 0,
    {
        Menu { options, selected: 0 }
    }

    /// Moves the selection up or down (either player), wrapping around.
    pub fn handle_input(&mut self, input: &Input)
        requires
            old(self).wf(),
        ensures
            final(self).wf(),
            final(self).options@ == old(self).options@,
            final(self).selected == match *input {
                Input::Up | Input::Up2 => select_up(old(self).selected as int, old(self).options@.len() as int),
                Input::Down | Input::Down2 => select_down(old(self).selected as int, old(self).options@.len() as int),
                _ => old(self).selected as int,
            },
    {
        match input {
            Input::Up | Input::Up2 => {
                if self.selected > 0 {
                    self.selected = self.selected - 1;
                } else {
                    self.selected = self.options.len() - 1;
                }
            },
            Input::Down | Input::Down2 => {
                if self.selected < self.options.len() - 1 {
                    self.selected = self.selected + 1;
                } else {
                    self.selected = 0;
                }
            },
            _ => {},
        }
    }

    /// One step of the menu loop: moves redraw, `Select` returns the
    /// selected option, `Back` returns `Nothing`, anything else waits.
    pub fn on_input(&mut self, input: &Input) -> (r: MenuStep)
        requires
            old(self).wf(),
        ensures
            final(self).wf(),
            final(self).options@ == old(self).options@,
            match *input {
                Input::Up | Input::Up2 | Input::Down | Input::Down2 => r == MenuStep::Redraw,
                Input::Select => r == MenuStep::Chosen(old(self).options@[old(self).selected as int]),
                Input::Back => r == MenuStep::Chosen(MenuOption::Nothing),
                _ => r == MenuStep::Wait,
            },
            match *input {
                Input::Up | Input::Up2 => final(self).selected == select_up(old(self).selected as int, old(self).options@.len() as int),
                Input::Down | Input::Down2 => final(self).selected == select_down(old(self).selected as int, old(self).options@.len() as int),
                _ => final(self).selected == old(self).selected,
            },
    {
        match input {
            Input::Up | Input::Up2 | Input::Down | Input::Down2 => {
                self.handle_input(input);
                MenuStep::Redraw
            },
            Input::Select => MenuStep::Chosen(self.options[self.selected]),
            Input::Back => MenuStep::Chosen(MenuOption::Nothing),
            _ => MenuStep::Wait,
        }
    }
}

} // verus!
