use vstd::prelude::*;

verus! {

/// A change of screen asked for by the current screen.
pub enum StateRequest<S> {
    /// Show a new screen on top of the current one.
    Push(S),
    /// Leave the current screen and go back to the one below.
    Pop,
    /// Swap the current screen for a new one.
    Replace(S),
    /// End the application; the main loop handles it.
    Quit,
}

/// The stack that a request leaves: a push adds on top, a pop removes the
/// top (an empty stack stays empty), a replace removes the top and adds the
/// new screen, and a quit or no request leaves the stack as it is.
pub open spec fn apply_request<S>(stack: Seq<S>, request: Option<StateRequest<S>>) -> Seq<S> {
    match request {
        None => stack,
        Some(StateRequest::Push(s)) => stack.push(s),
        Some(StateRequest::Pop) => if stack.len() == 0 {
            stack
        } else {
            stack.drop_last()
        },
        Some(StateRequest::Replace(s)) => if stack.len() == 0 {
            stack.push(s)
        } else {
            stack.drop_last().push(s)
        },
        Some(StateRequest::Quit) => stack,
    }
}

/// A stack of screens; the one on top is the current screen.
pub struct StateManager<S> {
    stack: Vec<S>,
}

impl<S> StateManager<S> {
    /// The screens, bottom first.
    pub closed spec fn screens(&self) -> Seq<S> {
        self.stack@
    }

    /// A stack holding only the first screen.
    pub fn new(initial_state: S) -> (sm: Self)
        ensures
            sm.screens() == seq![initial_state],
    {
        let mut stack = Vec::new();
        stack.push(initial_state);
        Self { stack }
    }

    /// The current screen, for the caller to work on in place.
    pub fn current(&mut self) -> (top: &mut S)
        requires
            old(self).screens().len() > 0,
        ensures
            *top == old(self).screens().last(),
            final(self).screens() == old(self).screens().update(
                old(self).screens().len() - 1,
                *final(top),
            ),
    {
        let last = self.stack.len() - 1;
        &mut self.stack[last]
    }

    /// Carries out a request from the current screen.
    pub fn handle_request(&mut self, request: Option<StateRequest<S>>)
        ensures
            final(self).screens() == apply_request(old(self).screens(), request),
            request matches Some(StateRequest::Push(s)) ==> {
                &&& final(self).screens().len() == old(self).screens().len() + 1
                &&& final(self).screens()[old(self).screens().len() as int] == s
                &&& final(self).screens().subrange(0, old(self).screens().len() as int)
                    == old(self).screens()
            },
            request matches Some(StateRequest::Pop) ==> if old(self).screens().len() == 0 {
                final(self).screens().len() == 0
            } else {
                final(self).screens() == old(self).screens().subrange(
                    0,
                    old(self).screens().len() - 1,
                )
            },
            request matches Some(StateRequest::Replace(s)) ==> {
                let n = old(self).screens().len() as int;
                let kept = if n == 0 {
                    0
                } else {
                    n - 1
                };
                &&& final(self).screens().len() == kept + 1
                &&& final(self).screens()[kept] == s
                &&& final(self).screens().subrange(0, kept) == old(self).screens().subrange(0, kept)
            },
            request is None ==> final(self).screens() == old(self).screens(),
            request matches Some(StateRequest::Quit) ==> final(self).screens() == old(
                self,
            ).screens(),
    {
        if let Some(req) = request {
            match req {
                StateRequest::Push(state) => self.stack.push(state),
                StateRequest::Pop => {
                    self.stack.pop();
                },
                StateRequest::Replace(state) => {
                    self.stack.pop();
                    self.stack.push(state);
                },
                StateRequest::Quit => {},
            }
        }
    }

    /// Whether no screen is left.
    pub fn is_empty(&self) -> (b: bool)
        ensures
            b == (self.screens().len() == 0),
    {
        self.stack.len() == 0
    }

    /// The number of screens on the stack.
    pub fn depth(&self) -> (n: usize)
        ensures
            n == self.screens().len(),
    {
        self.stack.len()
    }
}

/// Pushing a screen and popping it again gives back the stack as it was.
pub proof fn lemma_push_then_pop<S>(stack: Seq<S>, s: S)
    ensures
        apply_request(
            apply_request(stack, Some(StateRequest::Push(s))),
            Some(StateRequest::Pop),
        ) == stack,
{
    assert(stack.push(s).drop_last() =~= stack);
}

/// Replacing the current screen keeps the depth of a non-empty stack and
/// everything below the top.
pub proof fn lemma_replace_keeps_depth<S>(stack: Seq<S>, s: S)
    requires
        stack.len() > 0,
    ensures
        apply_request(stack, Some(StateRequest::Replace(s))).len() == stack.len(),
        apply_request(stack, Some(StateRequest::Replace(s))).last() == s,
        apply_request(stack, Some(StateRequest::Replace(s))).drop_last() == stack.drop_last(),
{
    assert(stack.drop_last().push(s).drop_last() =~= stack.drop_last());
}

/// A pop takes exactly one screen off a non-empty stack and none off an
/// empty one; a quit or no request changes nothing.
pub proof fn lemma_pop_depth<S>(stack: Seq<S>)
    ensures
        apply_request(stack, Some(StateRequest::Pop)).len() == if stack.len() == 0 {
            0
        } else {
            stack.len() - 1
        },
        apply_request(stack, Some(StateRequest::<S>::Quit)) == stack,
        apply_request(stack, None::<StateRequest<S>>) == stack,
{
}

} // verus!
