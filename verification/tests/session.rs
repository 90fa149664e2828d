use yshell::session::command_dispatcher::{CommandDispatcher, CoreCommandDispatcher, SessionCommand};
use yshell::session::session_event::{SessionEvent, SessionId, TabId};
use yshell::session::session_handle::{SessionHandle, SessionState};
use yshell::session::session_manager::SessionManager;
use yshell::session::task_supervisor::{TaskId, TaskSupervisor};
use yshell::session::workspace_layout::{
    PaneId, SplitDirection, WorkspaceLayout, WorkspaceLayoutError,
};

#[test]
fn creates_and_updates_session() {
    let mut manager = SessionManager::new();
    let session_id = SessionId::new("session-1");

    let handle = manager.create_session(session_id.clone());

    assert_eq!(handle.state(), SessionState::Idle);
    assert_eq!(manager.len(), 1);
    assert_eq!(
        manager.set_state(&session_id, SessionState::Connected),
        Some(SessionEvent::StateChanged {
            session_id: session_id.clone(),
            state: SessionState::Connected,
        })
    );
    assert_eq!(
        manager.get(&session_id).map(SessionHandle::state),
        Some(SessionState::Connected)
    );
}

#[test]
fn opens_and_closes_tab() {
    let mut manager = SessionManager::new();
    let tab_id = TabId::new("tab-1");
    let session_id = SessionId::new("session-1");

    assert_eq!(
        manager.open_tab(tab_id.clone(), session_id.clone()),
        SessionEvent::TabOpened { tab_id: tab_id.clone(), session_id: session_id.clone() }
    );

    assert_eq!(manager.active_tab(), Some(&tab_id));
    assert_eq!(manager.tab_len(), 1);
    assert_eq!(manager.close_tab(&tab_id), Some(SessionEvent::TabClosed { tab_id }));
    assert_eq!(
        manager.get(&session_id).map(SessionHandle::state),
        Some(SessionState::Disconnected)
    );
}

#[test]
fn unknown_sessions_and_tabs_report_nothing() {
    let mut manager = SessionManager::new();
    assert!(manager.is_empty());
    assert_eq!(manager.set_state(&SessionId::new("x"), SessionState::Connected), None);
    assert_eq!(manager.close_tab(&TabId::new("t")), None);
    assert_eq!(manager.active_tab(), None);
    let first = manager.create_session(SessionId::new("a"));
    let again = manager.create_session(SessionId::new("a"));
    assert_eq!(first, again);
    assert_eq!(manager.len(), 1);
}

#[test]
fn closing_one_of_two_tabs_activates_the_other() {
    let mut manager = SessionManager::new();
    manager.open_tab(TabId::new("t1"), SessionId::new("s1"));
    manager.open_tab(TabId::new("t2"), SessionId::new("s2"));
    assert_eq!(manager.active_tab(), Some(&TabId::new("t2")));
    manager.close_tab(&TabId::new("t2"));
    assert_eq!(manager.active_tab(), Some(&TabId::new("t1")));
    assert_eq!(manager.tab_len(), 1);
}

#[test]
fn dispatcher_reports_events_and_unknown_sessions() {
    let mut dispatcher = CoreCommandDispatcher::new();
    let session_id = SessionId::new("s1");
    let opened = dispatcher
        .dispatch(SessionCommand::OpenSession {
            tab_id: TabId::new("tab-s1"),
            session_id: session_id.clone(),
        })
        .expect("open");
    assert_eq!(
        opened,
        vec![SessionEvent::TabOpened { tab_id: TabId::new("tab-s1"), session_id: session_id.clone() }]
    );
    let changed = dispatcher
        .dispatch(SessionCommand::SetSessionState {
            session_id: session_id.clone(),
            state: SessionState::Connected,
        })
        .expect("state");
    assert_eq!(
        changed,
        vec![SessionEvent::StateChanged { session_id: session_id.clone(), state: SessionState::Connected }]
    );
    let input = dispatcher
        .dispatch(SessionCommand::SendTerminalInput { session_id: session_id.clone(), bytes: b"ls".to_vec() })
        .expect("input");
    assert!(input.is_empty());
    let error = dispatcher
        .dispatch(SessionCommand::ResizeTerminal { session_id: SessionId::new("zz"), columns: 80, rows: 24 })
        .expect_err("unknown");
    assert_eq!(error.message(), "unknown session zz");
    assert_eq!(
        dispatcher.manager().get(&session_id).map(SessionHandle::state),
        Some(SessionState::Connected)
    );
}

#[test]
fn task_supervisor_holds_each_task_once() {
    let mut supervisor = TaskSupervisor::new();
    assert!(supervisor.register(TaskId::new("a")));
    assert!(!supervisor.register(TaskId::new("a")));
    assert!(supervisor.contains(&TaskId::new("a")));
    assert!(supervisor.finish(&TaskId::new("a")));
    assert!(!supervisor.finish(&TaskId::new("a")));
    assert!(!supervisor.contains(&TaskId::new("a")));
}

#[test]
fn splits_to_four_leaves_and_rejects_fifth() {
    let mut layout = WorkspaceLayout::new();
    let root = PaneId::new(1);
    let second = layout.split(root, SplitDirection::Horizontal, 500, None).expect("split");
    let third = layout.split(second, SplitDirection::Vertical, 400, None).expect("split");
    layout.split(third, SplitDirection::Horizontal, 600, None).expect("split");

    assert_eq!(layout.leaf_count(), 4);
    assert_eq!(
        layout.split(root, SplitDirection::Horizontal, 500, None),
        Err(WorkspaceLayoutError::TooManyLeaves)
    );
}

#[test]
fn close_merges_sibling() {
    let mut layout = WorkspaceLayout::new();
    let root = PaneId::new(1);
    let second = layout.split(root, SplitDirection::Horizontal, 500, None).expect("split");

    layout.close(second).expect("close");

    assert_eq!(layout.leaf_count(), 1);
    assert_eq!(layout.pane_ids(), vec![root]);
}

#[test]
fn layout_errors_for_bad_input() {
    let mut layout = WorkspaceLayout::new();
    let root = PaneId::new(1);
    assert_eq!(
        layout.split(root, SplitDirection::Vertical, 950, None),
        Err(WorkspaceLayoutError::InvalidRatio(950))
    );
    assert_eq!(
        layout.split(PaneId::new(9), SplitDirection::Vertical, 500, None),
        Err(WorkspaceLayoutError::PaneNotFound(PaneId::new(9)))
    );
    assert_eq!(layout.close(root), Err(WorkspaceLayoutError::CannotCloseLastLeaf));
    assert_eq!(layout.close(PaneId::new(7)), Err(WorkspaceLayoutError::CannotCloseLastLeaf));
    let second = layout.split(root, SplitDirection::Vertical, 500, None).expect("split");
    assert_eq!(layout.close(PaneId::new(7)), Err(WorkspaceLayoutError::PaneNotFound(PaneId::new(7))));
    assert_eq!(second, PaneId::new(2));
    assert_eq!(layout.set_ratio(root, 300), Ok(()));
    assert_eq!(layout.set_ratio(root, 50), Err(WorkspaceLayoutError::InvalidRatio(50)));
    assert_eq!(layout.pane_ids(), vec![root, second]);
}

#[test]
fn split_then_close_restores_the_panes() {
    let mut layout = WorkspaceLayout::new();
    let root = PaneId::new(1);
    let second = layout.split(root, SplitDirection::Horizontal, 500, None).expect("split");
    let before = layout.pane_ids();
    let third = layout.split(root, SplitDirection::Vertical, 500, None).expect("split");
    assert_eq!(layout.pane_ids(), vec![root, third, second]);
    layout.close(third).expect("close");
    assert_eq!(layout.pane_ids(), before);
}
