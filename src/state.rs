//! The screens that the shell can show, and the transitions between them.
use vstd::prelude::*;
use crate::game::{on_grid, Game, GameView, Outcome};

verus! {

/// A screen of the application. A game is the only one.
#[derive(Debug)]
pub enum State {
    Game(Game),
}

/// The mathematical value of a `State`.
pub enum StateView {
    Game(GameView),
}

impl View for State {
    type V = StateView;

    open spec fn view(&self) -> StateView {
        match self {
            State::Game(g) => StateView::Game(g@),
        }
    }
}

impl StateView {
    /// The screen is well formed.
    pub open spec fn wf(self) -> bool {
        match self {
            StateView::Game(g) => g.wf(),
        }
    }

    /// The screen after one frame of input.
    pub open spec fn step(self, click: Option<(u32, u32)>, restart: bool) -> StateView {
        match self {
            StateView::Game(g) => StateView::Game(g.step(click, restart)),
        }
    }

    /// What the screen reports on one frame of input.
    pub open spec fn report(self, click: Option<(u32, u32)>, restart: bool) -> Option<Outcome> {
        match self {
            StateView::Game(g) => g.report(click, restart),
        }
    }

    /// The change that the screen asks of the stack at the end of a draw.
    pub open spec fn transition(self) -> Option<ActionView> {
        match self {
            StateView::Game(g) => if g.active {
                None
            } else {
                Some(ActionView::Change(StateView::Game(GameView::fresh())))
            },
        }
    }
}

impl State {
    /// Plays one frame on this screen.
    pub fn update(&mut self, click: Option<(u32, u32)>, restart: bool) -> (r: Option<Outcome>)
        requires
            click matches Some((x, y)) ==> on_grid(x as int, y as int),
        ensures
            final(self)@ == old(self)@.step(click, restart),
            r == old(self)@.report(click, restart),
            final(self)@.wf(),
    {
        match self {
            State::Game(g) => g.update(click, restart),
        }
    }

    /// Ends a frame's draw step on this screen.
    pub fn draw(&self) -> (r: Option<Action>)
        ensures
            r matches Some(a) ==> self@.transition() == Some(a@),
            r is None ==> self@.transition() is None,
    {
        match self {
            State::Game(g) => g.draw(),
        }
    }
}

/// A change asked of the stack of screens.
#[derive(Debug)]
pub enum Action {
    /// Puts a screen on top of the stack.
    Create(State),
    /// Removes the screen on top.
    Destroy,
    /// Puts a screen in the place of the one on top.
    Change(State),
}

/// The mathematical value of an `Action`.
pub enum ActionView {
    Create(StateView),
    Destroy,
    Change(StateView),
}

impl View for Action {
    type V = ActionView;

    open spec fn view(&self) -> ActionView {
        match self {
            Action::Create(s) => ActionView::Create(s@),
            Action::Destroy => ActionView::Destroy,
            Action::Change(s) => ActionView::Change(s@),
        }
    }
}

} // verus!
