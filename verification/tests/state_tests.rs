use rigorstarter_rust_tauri_webgpu::stdlib::state::{StateManager, StateRequest};

struct MockState {
    id: i32,
}

#[test]
fn test_state_manager_stack() {
    let s1 = MockState { id: 1 };
    let mut sm = StateManager::new(s1);

    assert!(!sm.is_empty());

    let s2 = MockState { id: 2 };
    sm.handle_request(Some(StateRequest::Push(s2)));

    // Pop s2
    sm.handle_request(Some(StateRequest::Pop));

    // Pop s1
    sm.handle_request(Some(StateRequest::Pop));

    assert!(sm.is_empty());
}

#[test]
fn test_state_manager_replace() {
    let s1 = MockState { id: 1 };
    let mut sm = StateManager::new(s1);

    let s2 = MockState { id: 2 };
    sm.handle_request(Some(StateRequest::Replace(s2)));

    // Replace should keep stack size at 1
    sm.handle_request(Some(StateRequest::Pop));
    assert!(sm.is_empty());
}

#[test]
fn current_is_the_top_screen() {
    let mut sm = StateManager::new(MockState { id: 1 });
    sm.handle_request(Some(StateRequest::Push(MockState { id: 2 })));
    assert_eq!(sm.current().id, 2);
    sm.current().id = 5;
    sm.handle_request(Some(StateRequest::Replace(MockState { id: 3 })));
    assert_eq!(sm.current().id, 3);
    assert_eq!(sm.depth(), 2);
    sm.handle_request(Some(StateRequest::Pop));
    assert_eq!(sm.current().id, 1);
}

#[test]
fn quit_and_no_request_keep_the_stack() {
    let mut sm = StateManager::new(MockState { id: 1 });
    sm.handle_request(Some(StateRequest::Quit));
    sm.handle_request(None);
    assert_eq!(sm.depth(), 1);
    sm.handle_request(Some(StateRequest::Pop));
    sm.handle_request(Some(StateRequest::Pop));
    assert!(sm.is_empty());
    sm.handle_request(Some(StateRequest::Replace(MockState { id: 4 })));
    assert_eq!(sm.depth(), 1);
    assert_eq!(sm.current().id, 4);
}
