//! The shell: a stack of screens, the top one shown, and a queue of the
//! changes asked of the stack, applied at the start of the next frame.
use vstd::prelude::*;
use std::collections::VecDeque;
use crate::game::{on_grid, GameView, Outcome};
use crate::state::{Action, ActionView, State, StateView};

verus! {

/// The stack after one change: `Create` pushes, `Destroy` pops (nothing
/// happens on an empty stack), `Change` pops and pushes.
pub open spec fn apply_action(stack: Seq<StateView>, a: ActionView) -> Seq<StateView> {
    match a {
        ActionView::Create(s) => stack.push(s),
        ActionView::Destroy => if stack.len() > 0 {
            stack.drop_last()
        } else {
            stack
        },
        ActionView::Change(s) => if stack.len() > 0 {
            stack.drop_last().push(s)
        } else {
            stack.push(s)
        },
    }
}

/// The stack after the changes, in order.
pub open spec fn apply_all(stack: Seq<StateView>, actions: Seq<ActionView>) -> Seq<StateView>
    decreases actions.len(),
{
    if actions.len() == 0 {
        stack
    } else {
        apply_all(apply_action(stack, actions[0]), actions.drop_first())
    }
}

/// The height of a stack of `n` screens after the changes, in order.
pub open spec fn height_after(n: int, actions: Seq<ActionView>) -> int
    decreases actions.len(),
{
    if actions.len() == 0 {
        n
    } else {
        let m = match actions[0] {
            ActionView::Create(_) => n + 1,
            ActionView::Destroy => if n > 0 {
                n - 1
            } else {
                n
            },
            ActionView::Change(_) => if n > 0 {
                n
            } else {
                1
            },
        };
        height_after(m, actions.drop_first())
    }
}

/// The mathematical value of an `App`.
pub struct AppView {
    pub states: Seq<StateView>,
    pub actions: Seq<ActionView>,
}

impl AppView {
    /// The stack once the waiting changes are applied.
    pub open spec fn settled(self) -> Seq<StateView> {
        apply_all(self.states, self.actions)
    }

    /// The shell after the update step of a frame: the waiting changes are
    /// applied, then the top screen plays the frame.
    pub open spec fn frame_update(self, click: Option<(u32, u32)>, restart: bool) -> AppView {
        let st = self.settled();
        AppView {
            states: st.update(st.len() - 1, st.last().step(click, restart)),
            actions: Seq::empty(),
        }
    }

    /// What the top screen reports on the update step of a frame.
    pub open spec fn frame_report(self, click: Option<(u32, u32)>, restart: bool) -> Option<Outcome> {
        self.settled().last().report(click, restart)
    }

    /// The shell after the draw step of a frame: the change that the top
    /// screen asks for, if any, waits for the next frame.
    pub open spec fn frame_draw(self) -> AppView {
        match self.states.last().transition() {
            Some(a) => AppView { actions: self.actions.push(a), ..self },
            None => self,
        }
    }
}

/// Applying the changes gives a stack of the height that `height_after`
/// counts.
proof fn lemma_height_after(stack: Seq<StateView>, actions: Seq<ActionView>)
    ensures
        apply_all(stack, actions).len() == height_after(stack.len() as int, actions),
    decreases actions.len(),
{
    if actions.len() > 0 {
        lemma_height_after(apply_action(stack, actions[0]), actions.drop_first());
    }
}

/// A height of at least `n` before the changes leaves at least `n` less the
/// number of changes after them.
proof fn lemma_height_after_lower(n: int, actions: Seq<ActionView>)
    requires
        n >= 0,
    ensures
        height_after(n, actions) >= n - actions.len(),
    decreases actions.len(),
{
    if actions.len() > 0 {
        let m = match actions[0] {
            ActionView::Create(_) => n + 1,
            ActionView::Destroy => if n > 0 {
                n - 1
            } else {
                n
            },
            ActionView::Change(_) => if n > 0 {
                n
            } else {
                1
            },
        };
        lemma_height_after_lower(m, actions.drop_first());
    }
}

/// Pressing the restart key on a finished game, then drawing the frame,
/// leaves a new game (empty grid, first player to move, not over) in its
/// place for the next frame, whatever the pointer did.
pub proof fn restart_brings_fresh_game(a: AppView, click: Option<(u32, u32)>)
    requires
        a.settled().len() > 0,
        a.settled().last() matches StateView::Game(g) && g.game_over,
    ensures
        a.frame_update(click, true).frame_draw().settled().len() == a.settled().len(),
        a.frame_update(click, true).frame_draw().settled().last() == StateView::Game(
            GameView::fresh(),
        ),
{
    let b = a.frame_update(click, true);
    let c = b.frame_draw();
    let change = ActionView::Change(StateView::Game(GameView::fresh()));
    assert(c.actions =~= seq![change]);
    assert(c.actions.drop_first() =~= Seq::<ActionView>::empty());
    assert(c.settled() == apply_all(apply_action(b.states, change), c.actions.drop_first()));
}

/// The application: a stack of screens, the last one on top, and the
/// changes to the stack that wait for the next frame, first in first out.
#[derive(Debug)]
pub struct App {
    states: Vec<State>,
    actions: VecDeque<Action>,
}

impl View for App {
    type V = AppView;

    closed spec fn view(&self) -> AppView {
        AppView {
            states: self.states@.map_values(|s: State| s@),
            actions: self.actions@.map_values(|a: Action| a@),
        }
    }
}

impl App {
    /// An application with no screen and no waiting change.
    pub fn new() -> (r: App)
        ensures
            r@.states == Seq::<StateView>::empty(),
            r@.actions == Seq::<ActionView>::empty(),
    {
        let r = App { states: Vec::new(), actions: VecDeque::new() };
        assert(r@.states =~= Seq::<StateView>::empty());
        assert(r@.actions =~= Seq::<ActionView>::empty());
        r
    }

    /// Queues a change of the stack for the next frame.
    pub fn add_action(&mut self, action: Action)
        ensures
            final(self)@.states == old(self)@.states,
            final(self)@.actions == old(self)@.actions.push(action@),
    {
        self.actions.push_back(action);
        assert(self@.actions =~= old(self)@.actions.push(action@));
        assert(self@.states =~= old(self)@.states);
    }

    /// Whether a screen is left once the waiting changes are applied: the
    /// update step of a frame needs one.
    pub fn can_update(&self) -> (r: bool)
        ensures
            r == (self@.settled().len() > 0),
    {
        let ghost acts = self@.actions;
        let mut n: usize = self.states.len();
        let mut i: usize = 0;
        proof {
            lemma_height_after(self@.states, acts);
            assert(acts.skip(0) =~= acts);
        }
        while i < self.actions.len()
            invariant
                i <= self.actions@.len(),
                acts == self@.actions,
                acts.len() == self.actions@.len(),
                height_after(n as int, acts.skip(i as int)) == self@.settled().len(),
            decreases self.actions@.len() - i,
        {
            let ghost rest = acts.skip(i as int);
            assert(rest.drop_first() =~= acts.skip(i + 1));
            assert(rest[0] == self.actions@[i as int]@);
            match &self.actions[i] {
                Action::Create(_) => {
                    if n == usize::MAX {
                        proof {
                            lemma_height_after_lower(n + 1, acts.skip(i + 1));
                        }
                        return true;
                    }
                    n = n + 1;
                },
                Action::Destroy => {
                    if n > 0 {
                        n = n - 1;
                    }
                },
                Action::Change(_) => {
                    if n == 0 {
                        n = 1;
                    }
                },
            }
            i = i + 1;
        }
        proof {
            assert(acts.skip(i as int).len() == 0);
        }
        n > 0
    }

    /// The update step of a frame: applies the waiting changes in order,
    /// then plays the frame on the top screen and returns what it reports.
    pub fn update(&mut self, click: Option<(u32, u32)>, restart: bool) -> (r: Option<Outcome>)
        requires
            old(self)@.settled().len() > 0,
            click matches Some((x, y)) ==> on_grid(x as int, y as int),
        ensures
            final(self)@ == old(self)@.frame_update(click, restart),
            r == old(self)@.frame_report(click, restart),
    {
        while self.actions.len() > 0
            invariant
                self@.settled() == old(self)@.settled(),
            decreases self.actions@.len(),
        {
            let ghost before = self@;
            let action = match self.actions.pop_front() {
                Some(a) => a,
                None => {
                    return None;
                },
            };
            match action {
                Action::Create(state) => self.states.push(state),
                Action::Destroy => {
                    self.states.pop();
                },
                Action::Change(state) => {
                    self.states.pop();
                    self.states.push(state);
                },
            }
            assert(self@.states =~= apply_action(before.states, before.actions[0]));
            assert(self@.actions =~= before.actions.drop_first());
        }
        assert(self@.actions =~= Seq::<ActionView>::empty());
        let mut top = match self.states.pop() {
            Some(s) => s,
            None => {
                return None;
            },
        };
        let r = top.update(click, restart);
        self.states.push(top);
        assert(self@.states =~= old(self)@.settled().update(
            old(self)@.settled().len() - 1,
            old(self)@.settled().last().step(click, restart),
        ));
        r
    }

    /// The draw step of a frame: the change that the top screen asks for,
    /// if any, is queued for the next frame.
    pub fn draw(&mut self)
        requires
            old(self)@.states.len() > 0,
        ensures
            final(self)@ == old(self)@.frame_draw(),
    {
        let n = self.states.len();
        let next = self.states[n - 1].draw();
        if let Some(action) = next {
            self.add_action(action);
        }
        assert(self@.states =~= old(self)@.frame_draw().states);
        assert(self@.actions =~= old(self)@.frame_draw().actions);
    }

    /// The screen on top of the stack, if any.
    pub fn top(&self) -> (r: Option<&State>)
        ensures
            self@.states.len() == 0 ==> r is None,
            self@.states.len() > 0 ==> (r matches Some(s) && s@ == self@.states.last()),
    {
        let n = self.states.len();
        if n == 0 {
            None
        } else {
            Some(&self.states[n - 1])
        }
    }

    /// Number of screens on the stack.
    pub fn len(&self) -> (r: usize)
        ensures
            r == self@.states.len(),
    {
        self.states.len()
    }

    /// Number of changes that wait for the next frame.
    pub fn pending(&self) -> (r: usize)
        ensures
            r == self@.actions.len(),
    {
        self.actions.len()
    }
}

} // verus!
