use tuilib::components::{Component, Focusable, FocusWrapper};

struct TestFocusable {
    focused: bool,
}

impl TestFocusable {
    fn new() -> Self {
        Self { focused: false }
    }
}

impl Focusable for TestFocusable {
    fn is_focused(&self) -> bool {
        self.focused
    }

    fn set_focused(&mut self, focused: bool) {
        self.focused = focused;
    }
}

#[test]
fn test_default_can_focus() {
    let f = TestFocusable::new();
    assert!(f.can_focus());
}

#[test]
fn test_default_focus_order() {
    let f = TestFocusable::new();
    assert_eq!(f.focus_order(), 0);
}

#[test]
fn test_focus_state() {
    let mut f = TestFocusable::new();
    assert!(!f.is_focused());

    f.set_focused(true);
    assert!(f.is_focused());

    f.set_focused(false);
    assert!(!f.is_focused());
}

#[test]
fn test_focus_wrapper() {
    struct Inner;

    let mut wrapper = FocusWrapper::new(Inner);
    assert!(!wrapper.is_focused());
    assert!(wrapper.can_focus());
    assert_eq!(wrapper.focus_order(), 0);

    wrapper.set_focused(true);
    assert!(wrapper.is_focused());
}

#[test]
fn test_focus_wrapper_builder() {
    struct Inner;

    let wrapper = FocusWrapper::new(Inner).with_can_focus(false).with_focus_order(10);

    assert!(!wrapper.can_focus());
    assert_eq!(wrapper.focus_order(), 10);
}

#[test]
fn test_focus_wrapper_inner_access() {
    let wrapper = FocusWrapper::new(42);
    assert_eq!(*wrapper.inner(), 42);

    let mut wrapper = FocusWrapper::new(String::from("test"));
    wrapper.inner_mut().push('!');
    assert_eq!(wrapper.inner(), "test!");

    let inner = wrapper.into_inner();
    assert_eq!(inner, "test!");
}

struct Counter {
    value: i32,
}

enum CounterMsg {
    Assign(i32),
    Add(i32),
}

#[derive(Debug, PartialEq)]
enum CounterAction {
    Changed(i32),
}

impl Component for Counter {
    type Message = CounterMsg;
    type Action = CounterAction;

    fn update(&mut self, msg: Self::Message) -> Option<Self::Action> {
        match msg {
            CounterMsg::Assign(v) => {
                self.value = v;
                Some(CounterAction::Changed(self.value))
            }
            CounterMsg::Add(v) => {
                self.value += v;
                Some(CounterAction::Changed(self.value))
            }
        }
    }
}

#[test]
fn test_component_update() {
    let mut c = Counter { value: 0 };
    assert_eq!(c.update(CounterMsg::Assign(10)), Some(CounterAction::Changed(10)));
    assert_eq!(c.update(CounterMsg::Add(5)), Some(CounterAction::Changed(15)));
    assert_eq!(c.value, 15);
}
