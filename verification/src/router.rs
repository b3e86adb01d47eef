//! Page routing: routes that may carry data, a route stack whose top is the
//! current page, and forward/back navigation kept in step with the app state.

use vstd::prelude::*;

verus! {

/// The page being shown.
#[derive(Debug, Clone, Copy, PartialEq, Eq, Hash, Default, Structural)]
pub enum AppState {
    #[default]
    MainMenu,
    PixelEditor,
    SaveLoad,
    CharacterCreation,
}

/// Data handed to the main menu (none yet).
#[derive(Debug, Clone, Copy, Default, PartialEq, Eq, Structural)]
pub struct MainMenuRouteData {}

/// Data handed to the save page (none yet).
#[derive(Debug, Clone, Copy, Default, PartialEq, Eq, Structural)]
pub struct SaveLoadRouteData {}

/// Data handed to the pixel editor (none yet).
#[derive(Debug, Clone, Copy, Default, PartialEq, Eq, Structural)]
pub struct PixelEditorRouteData {}

/// Data handed to character creation (none yet).
#[derive(Debug, Clone, Copy, Default, PartialEq, Eq, Structural)]
pub struct CharacterCreationRouteData {}

/// A page, optionally with data for it. Pages are flat: no nested routes.
#[derive(Debug, Clone, Copy, PartialEq, Eq, Structural)]
pub enum Route {
    MainMenu(Option<MainMenuRouteData>),
    SaveLoad(Option<SaveLoadRouteData>),
    PixelEditor(Option<PixelEditorRouteData>),
    CharacterCreation(Option<CharacterCreationRouteData>),
}

impl Route {
    pub fn main_menu() -> (r: Self)
        ensures
            r == Route::MainMenu(None),
    {
        Route::MainMenu(None)
    }

    pub fn main_menu_with(data: MainMenuRouteData) -> (r: Self)
        ensures
            r == Route::MainMenu(Some(data)),
    {
        Route::MainMenu(Some(data))
    }

    pub fn save_load() -> (r: Self)
        ensures
            r == Route::SaveLoad(None),
    {
        Route::SaveLoad(None)
    }

    pub fn save_load_with(data: SaveLoadRouteData) -> (r: Self)
        ensures
            r == Route::SaveLoad(Some(data)),
    {
        Route::SaveLoad(Some(data))
    }

    pub fn pixel_editor() -> (r: Self)
        ensures
            r == Route::PixelEditor(None),
    {
        Route::PixelEditor(None)
    }

    pub fn pixel_editor_with(data: PixelEditorRouteData) -> (r: Self)
        ensures
            r == Route::PixelEditor(Some(data)),
    {
        Route::PixelEditor(Some(data))
    }

    pub fn character_creation() -> (r: Self)
        ensures
            r == Route::CharacterCreation(None),
    {
        Route::CharacterCreation(None)
    }

    pub fn character_creation_with(data: CharacterCreationRouteData) -> (r: Self)
        ensures
            r == Route::CharacterCreation(Some(data)),
    {
        Route::CharacterCreation(Some(data))
    }
}

/// The app state that shows `route`.
pub open spec fn state_of_route(route: Route) -> AppState {
    match route {
        Route::MainMenu(_) => AppState::MainMenu,
        Route::SaveLoad(_) => AppState::SaveLoad,
        Route::PixelEditor(_) => AppState::PixelEditor,
        Route::CharacterCreation(_) => AppState::CharacterCreation,
    }
}

/// The app state that shows `route`.
pub fn route_to_app_state(route: &Route) -> (s: AppState)
    ensures
        s == state_of_route(*route),
{
    match route {
        Route::MainMenu(_) => AppState::MainMenu,
        Route::SaveLoad(_) => AppState::SaveLoad,
        Route::PixelEditor(_) => AppState::PixelEditor,
        Route::CharacterCreation(_) => AppState::CharacterCreation,
    }
}

/// Go forward to a page (push).
pub struct NavigatePush(pub Route);

/// Go back to the previous page (pop).
pub struct NavigatePop;

/// The stack of visited pages; its top is the page shown.
#[derive(Default)]
pub struct RouteStack {
    pub stack: Vec<Route>,
}

/// The stack after handling `pushes`, then `pops` back requests; a back
/// request is ignored when only one page is left.
pub open spec fn stack_after(stack: Seq<Route>, pushes: Seq<Route>, pops: nat) -> Seq<Route> {
    let s = stack + pushes;
    if s.len() <= 1 {
        s
    } else if pops >= s.len() - 1 {
        s.take(1)
    } else {
        s.take(s.len() - pops)
    }
}

/// Whether handling the requests changed the stack: something was pushed, or a
/// back request found more than one page.
pub open spec fn navigation_changes(stack: Seq<Route>, pushes: Seq<Route>, pops: nat) -> bool {
    pushes.len() > 0 || (stack.len() + pushes.len() > 1 && pops > 0)
}

impl RouteStack {
    /// The page shown, if any.
    pub fn current(&self) -> (r: Option<&Route>)
        ensures
            r == (if self.stack@.len() > 0 {
                Some(&self.stack@.last())
            } else {
                None
            }),
    {
        if self.stack.len() > 0 {
            Some(&self.stack[self.stack.len() - 1])
        } else {
            None
        }
    }

    /// The app state of the page shown, if any.
    pub fn current_app_state(&self) -> (r: Option<AppState>)
        ensures
            r == (if self.stack@.len() > 0 {
                Some(state_of_route(self.stack@.last()))
            } else {
                None
            }),
    {
        match self.current() {
            Some(route) => Some(route_to_app_state(route)),
            None => None,
        }
    }

    /// Whether there is a page to go back to.
    pub fn can_pop(&self) -> (r: bool)
        ensures
            r == (self.stack@.len() > 1),
    {
        self.stack.len() > 1
    }

    /// Puts the main menu on an empty stack; a non-empty stack stays as it is.
    pub fn init(&mut self)
        ensures
            old(self).stack@.len() == 0 ==> final(self).stack@ == seq![Route::MainMenu(None)],
            old(self).stack@.len() > 0 ==> final(self).stack@ == old(self).stack@,
    {
        if self.stack.len() == 0 {
            self.stack.push(Route::main_menu());
        }
    }

    /// Handles this frame's navigation: every push, then every back request
    /// (ignored when one page is left). Returns the app state to switch to when
    /// the stack changed and is not empty.
    pub fn handle_navigation(&mut self, pushes: &Vec<Route>, pops: usize) -> (next: Option<AppState>)
        ensures
            final(self).stack@ == stack_after(old(self).stack@, pushes@, pops as nat),
            next == (if navigation_changes(old(self).stack@, pushes@, pops as nat) && final(self).stack@.len() > 0 {
                Some(state_of_route(final(self).stack@.last()))
            } else {
                None
            }),
    {
        let ghost s0 = self.stack@;
        let mut changed = false;
        let mut i: usize = 0;
        while i < pushes.len()
            invariant
                i <= pushes.len(),
                self.stack@ == s0 + pushes@.take(i as int),
                changed == (i > 0),
            decreases pushes.len() - i,
        {
            self.stack.push(pushes[i]);
            proof {
                assert(s0 + pushes@.take(i + 1) =~= (s0 + pushes@.take(i as int)).push(pushes@[i as int]));
            }
            changed = true;
            i = i + 1;
        }
        proof {
            assert(pushes@.take(pushes@.len() as int) =~= pushes@);
        }
        let ghost s1 = self.stack@;
        let mut k: usize = 0;
        while k < pops
            invariant
                k <= pops,
                s1 == s0 + pushes@,
                self.stack@ == (if s1.len() <= 1 {
                    s1
                } else if k >= s1.len() - 1 {
                    s1.take(1)
                } else {
                    s1.take(s1.len() - k)
                }),
                changed == (pushes@.len() > 0 || (s1.len() > 1 && k > 0)),
            decreases pops - k,
        {
            if self.stack.len() > 1 {
                self.stack.pop();
                changed = true;
                proof {
                    assert(self.stack@ =~= (if k + 1 >= s1.len() - 1 {
                        s1.take(1)
                    } else {
                        s1.take(s1.len() - (k + 1))
                    }));
                }
            } else {
                proof {
                    if s1.len() > 1 {
                        assert(s1.take(1) =~= self.stack@);
                    }
                }
            }
            k = k + 1;
        }
        if changed {
            self.current_app_state()
        } else {
            None
        }
    }
}


/// Going to a page and back in the same frame leaves a non-empty stack as it was.
pub proof fn lemma_push_then_back(stack: Seq<Route>, r: Route)
    requires
        stack.len() >= 1,
    ensures
        stack_after(stack, seq![r], 1) == stack,
{
    assert((stack + seq![r]).take(stack.len() as int) =~= stack);
}

/// Going to a page in one frame and back in the next leaves a non-empty stack
/// as it was.
pub proof fn lemma_push_then_back_later(stack: Seq<Route>, r: Route)
    requires
        stack.len() >= 1,
    ensures
        stack_after(stack_after(stack, seq![r], 0), Seq::empty(), 1) == stack,
{
    let s1 = stack_after(stack, seq![r], 0);
    assert(s1 =~= stack + seq![r]);
    assert(s1 + Seq::<Route>::empty() =~= s1);
    assert(s1.take(stack.len() as int) =~= stack);
}

/// After going to a page, it is the page shown.
pub proof fn lemma_push_shows(stack: Seq<Route>, r: Route)
    ensures
        stack_after(stack, seq![r], 0).last() == r,
{
    let s = stack + seq![r];
    if s.len() > 1 {
        assert(s.take(s.len() - 0) =~= s);
    }
}

/// A frame's navigation on a stack that holds a page: the pushed pages go on
/// top in order, then the back requests remove pages from the top, as many as
/// there are but never the last one. The stack keeps a page, the page shown is
/// the one left on top, and the app state is switched exactly when something
/// was pushed or a back request removed a page.
pub proof fn lemma_navigation_pushes_then_pops(stack: Seq<Route>, pushes: Seq<Route>, pops: nat)
    requires
        stack.len() >= 1,
    ensures
        ({
            let s = stack + pushes;
            let removed = if pops < s.len() - 1 {
                pops as int
            } else {
                s.len() - 1
            };
            &&& stack_after(stack, pushes, pops) == s.take(s.len() - removed)
            &&& stack_after(stack, pushes, pops).len() >= 1
            &&& stack_after(stack, pushes, pops).last() == s[s.len() - removed - 1]
            &&& navigation_changes(stack, pushes, pops) == (pushes.len() > 0 || removed > 0)
        }),
{
    let s = stack + pushes;
    if s.len() <= 1 {
        assert(s.take(s.len() as int) =~= s);
    }
}

/// Back requests never empty a stack that holds a page.
pub proof fn lemma_back_keeps_a_page(stack: Seq<Route>, pushes: Seq<Route>, pops: nat)
    requires
        stack.len() + pushes.len() >= 1,
    ensures
        stack_after(stack, pushes, pops).len() >= 1,
{
}

} // verus!
