//! Action handlers: the component tree that actions are routed through.
//!
//! An [`ActionHandler`] is a node in a tree of interactive components. Each
//! node carries an identifier, a focus flag, the names of the actions it
//! handles in each propagation phase, and its children. Handling is a pure
//! decision: a node reports [`HandleResult::Handled`] exactly for the action
//! names in its table for the phase, and [`HandleResult::Continue`] for
//! everything else.
//!
//! [`ActionHandler::find_focus_path`] finds the first focused node in
//! depth-first order and returns the child indices leading to it.

use vstd::prelude::*;

use super::action::Action;

verus! {

/// The propagation phase of a dispatched action: capture runs from the root
/// toward the focused target, bubble from the target back to the root.
#[derive(Debug, Clone, Copy, PartialEq, Eq, Hash, Structural)]
pub enum Phase {
    /// Root toward target.
    Capture,
    /// Target back toward root.
    Bubble,
}

impl Phase {
    /// Whether this is the capture phase.
    pub fn is_capture(&self) -> (r: bool)
        ensures
            r == (self is Capture),
    {
        match self {
            Phase::Capture => true,
            Phase::Bubble => false,
        }
    }

    /// Whether this is the bubble phase.
    pub fn is_bubble(&self) -> (r: bool)
        ensures
            r == (self is Bubble),
    {
        match self {
            Phase::Capture => false,
            Phase::Bubble => true,
        }
    }

    /// The phase's name.
    pub fn as_str(&self) -> (r: &'static str)
        ensures
            self is Capture ==> r@ == "Capture"@,
            self is Bubble ==> r@ == "Bubble"@,
    {
        match self {
            Phase::Capture => "Capture",
            Phase::Bubble => "Bubble",
        }
    }
}

/// What a handler asks the router to do next.
#[derive(Debug, Clone, Copy, PartialEq, Eq, Hash, Structural)]
pub enum HandleResult {
    /// The handler did not handle the action; propagation continues.
    Continue,
    /// The action was handled; propagation stops.
    Handled,
    /// The handler does not care about this action; propagation continues.
    Ignored,
}

impl Default for HandleResult {
    /// The default result: the handler does not care.
    fn default() -> (r: Self)
        ensures
            r == HandleResult::Ignored,
    {
        HandleResult::Ignored
    }
}

impl HandleResult {
    /// Whether propagation stops after this result.
    pub fn should_stop(&self) -> (r: bool)
        ensures
            r == (self is Handled),
    {
        match self {
            HandleResult::Handled => true,
            _ => false,
        }
    }

    /// Whether the action was handled.
    pub fn is_handled(&self) -> (r: bool)
        ensures
            r == (self is Handled),
    {
        match self {
            HandleResult::Handled => true,
            _ => false,
        }
    }

    /// Whether the handler ignored the action.
    pub fn is_ignored(&self) -> (r: bool)
        ensures
            r == (self is Ignored),
    {
        match self {
            HandleResult::Ignored => true,
            _ => false,
        }
    }

    /// Whether propagation continues after this result.
    pub fn should_continue(&self) -> (r: bool)
        ensures
            r == !(self is Handled),
    {
        match self {
            HandleResult::Handled => false,
            _ => true,
        }
    }

    /// The result's name.
    pub fn as_str(&self) -> (r: &'static str)
        ensures
            self is Continue ==> r@ == "Continue"@,
            self is Handled ==> r@ == "Handled"@,
            self is Ignored ==> r@ == "Ignored"@,
    {
        match self {
            HandleResult::Continue => "Continue",
            HandleResult::Handled => "Handled",
            HandleResult::Ignored => "Ignored",
        }
    }
}

/// Whether a name list contains the given action name.
pub open spec fn name_in(list: Seq<String>, name: Seq<char>) -> bool {
    exists|i: int| 0 <= i < list.len() && list[i]@ == name
}

/// A node of the handler tree: an addressable component that can handle
/// actions during capture or bubble, hold focus, and contain child handlers.
#[derive(Debug)]
pub struct ActionHandler {
    /// The handler's identifier.
    pub id: String,
    /// Whether this node is the current focus target.
    pub focused: bool,
    /// Action names this node handles during the capture phase.
    pub capture_actions: Vec<String>,
    /// Action names this node handles during the bubble phase.
    pub bubble_actions: Vec<String>,
    /// The child handlers, addressed by index.
    pub children: Vec<ActionHandler>,
}

/// What a node answers for an action name in a phase: `Handled` exactly for
/// the names in its table for that phase, `Continue` otherwise.
pub open spec fn spec_handle(h: ActionHandler, name: Seq<char>, phase: Phase) -> HandleResult {
    let list = match phase {
        Phase::Capture => h.capture_actions@,
        Phase::Bubble => h.bubble_actions@,
    };
    if name_in(list, name) {
        HandleResult::Handled
    } else {
        HandleResult::Continue
    }
}

/// The focus path of a node: empty if the node itself is focused, else the
/// first child (in index order) with a focused descendant, prefixed to that
/// child's own path; `None` if no descendant is focused.
pub open spec fn spec_focus_path(h: ActionHandler) -> Option<Seq<usize>>
    decreases h, 1int, 0int,
{
    if h.focused {
        Some(Seq::empty())
    } else {
        spec_focus_child(h, 0)
    }
}

/// The focus path found among `h`'s children from index `i` on.
pub open spec fn spec_focus_child(h: ActionHandler, i: int) -> Option<Seq<usize>>
    decreases h, 0int, h.children@.len() - i,
{
    if i < 0 || i >= h.children@.len() {
        None
    } else {
        match spec_focus_path(h.children@[i]) {
            Some(p) => Some(seq![i as usize] + p),
            None => spec_focus_child(h, i + 1),
        }
    }
}

/// Whether the action's name occurs in the list.
fn list_contains(list: &Vec<String>, action: &Action) -> (r: bool)
    ensures
        r == name_in(list@, action@),
{
    let n = list.len();
    for i in 0..n
        invariant
            n == list@.len(),
            forall|j: int| 0 <= j < i ==> list@[j]@ != action@,
    {
        if list[i] == action.0 {
            proof {
                assert(list@[i as int]@ == action@);
            }
            return true;
        }
    }
    false
}

impl ActionHandler {
    /// Creates a handler with the given identifier, no focus, no handled
    /// actions, and no children.
    pub fn new(id: &str) -> (r: Self)
        ensures
            r.id@ == id@,
            r.focused == false,
            r.capture_actions@ == Seq::<String>::empty(),
            r.bubble_actions@ == Seq::<String>::empty(),
            r.children@ == Seq::<ActionHandler>::empty(),
    {
        ActionHandler {
            id: id.to_owned(),
            focused: false,
            capture_actions: Vec::new(),
            bubble_actions: Vec::new(),
            children: Vec::new(),
        }
    }

    /// Marks this handler as the focus target.
    pub fn focused(self) -> (r: Self)
        ensures
            r == (ActionHandler { focused: true, ..self }),
    {
        ActionHandler { focused: true, ..self }
    }

    /// Adds an action name handled in both phases.
    pub fn handles(self, action: &str) -> (r: Self)
        ensures
            r.id == self.id,
            r.focused == self.focused,
            r.children == self.children,
            r.capture_actions@.len() == self.capture_actions@.len() + 1,
            forall|i: int|
                0 <= i < self.capture_actions@.len() ==> r.capture_actions@[i]
                    == self.capture_actions@[i],
            r.capture_actions@.last()@ == action@,
            r.bubble_actions@.len() == self.bubble_actions@.len() + 1,
            forall|i: int|
                0 <= i < self.bubble_actions@.len() ==> r.bubble_actions@[i]
                    == self.bubble_actions@[i],
            r.bubble_actions@.last()@ == action@,
    {
        let mut h = self;
        h.capture_actions.push(action.to_owned());
        h.bubble_actions.push(action.to_owned());
        h
    }

    /// Adds an action name handled during capture.
    pub fn handles_capture(self, action: &str) -> (r: Self)
        ensures
            r.id == self.id,
            r.focused == self.focused,
            r.children == self.children,
            r.bubble_actions == self.bubble_actions,
            r.capture_actions@.len() == self.capture_actions@.len() + 1,
            forall|i: int|
                0 <= i < self.capture_actions@.len() ==> r.capture_actions@[i]
                    == self.capture_actions@[i],
            r.capture_actions@.last()@ == action@,
    {
        let mut h = self;
        h.capture_actions.push(action.to_owned());
        h
    }

    /// Adds an action name handled during bubble.
    pub fn handles_bubble(self, action: &str) -> (r: Self)
        ensures
            r.id == self.id,
            r.focused == self.focused,
            r.children == self.children,
            r.capture_actions == self.capture_actions,
            r.bubble_actions@.len() == self.bubble_actions@.len() + 1,
            forall|i: int|
                0 <= i < self.bubble_actions@.len() ==> r.bubble_actions@[i]
                    == self.bubble_actions@[i],
            r.bubble_actions@.last()@ == action@,
    {
        let mut h = self;
        h.bubble_actions.push(action.to_owned());
        h
    }

    /// Appends a child handler.
    pub fn with_child(self, child: ActionHandler) -> (r: Self)
        ensures
            r.id == self.id,
            r.focused == self.focused,
            r.capture_actions == self.capture_actions,
            r.bubble_actions == self.bubble_actions,
            r.children@ == self.children@.push(child),
    {
        let mut h = self;
        h.children.push(child);
        h
    }

    /// The handler's identifier.
    pub fn id(&self) -> (r: &str)
        ensures
            r@ == self.id@,
    {
        self.id.as_str()
    }

    /// The child handlers.
    pub fn children(&self) -> (r: &Vec<ActionHandler>)
        ensures
            r == &self.children,
    {
        &self.children
    }

    /// Whether this handler is the current focus target.
    pub fn is_focused(&self) -> (r: bool)
        ensures
            r == self.focused,
    {
        self.focused
    }

    /// Handles an action in the given phase: `Handled` exactly when the
    /// action's name is in this node's table for the phase, `Continue`
    /// otherwise.
    pub fn handle(&self, action: &Action, phase: Phase) -> (r: HandleResult)
        ensures
            r == spec_handle(*self, action@, phase),
    {
        let hit = match phase {
            Phase::Capture => list_contains(&self.capture_actions, action),
            Phase::Bubble => list_contains(&self.bubble_actions, action),
        };
        if hit {
            HandleResult::Handled
        } else {
            HandleResult::Continue
        }
    }

    /// Finds the path from this handler to the first focused node in
    /// depth-first order, as child indices; `None` if no node is focused.
    pub fn find_focus_path(&self) -> (r: Option<Vec<usize>>)
        ensures
            match r {
                Some(p) => spec_focus_path(*self) == Some(p@),
                None => spec_focus_path(*self) is None,
            },
        decreases *self,
    {
        if self.focused {
            let empty: Vec<usize> = Vec::new();
            return Some(empty);
        }
        let n = self.children.len();
        for i in 0..n
            invariant
                n == self.children@.len(),
                !self.focused,
                spec_focus_child(*self, 0) == spec_focus_child(*self, i as int),
        {
            match self.children[i].find_focus_path() {
                Some(path) => {
                    let ghost sub = path@;
                    let mut path = path;
                    path.insert(0, i);
                    proof {
                        assert(path@ =~= seq![i as usize] + sub);
                    }
                    return Some(path);
                },
                None => {},
            }
        }
        None
    }
}

} // verus!
