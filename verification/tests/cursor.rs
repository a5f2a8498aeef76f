use uair::session::Session;
use uair::session_id::SessionId;
use uair::table::Table;
use uair::time::Span;

fn sessions(count: usize) -> Vec<Session> {
    (0..count)
        .map(|i| Session {
            id: format!("s{}", i),
            name: format!("Session {}", i),
            duration: Span::from_secs(60),
            command: String::new(),
            format: Vec::new(),
            time_format: Vec::new(),
            autostart: false,
            paused_state_text: String::new(),
            resumed_state_text: String::new(),
            overrides: Table::new(),
        })
        .collect()
}

fn place(sid: &SessionId) -> (usize, u64) {
    (sid.curr(), sid.iter_no())
}

#[test]
fn bounded_run_reaches_its_last_session_once() {
    let list = sessions(3);
    let mut sid = SessionId::new(&list, Some(2));
    assert_eq!(sid.len(), 3);
    assert_eq!(sid.total_iter(), Some(2));
    assert!(sid.is_first());
    let mut last_seen = 0;
    for step in 0..(3 * 2) {
        assert_eq!(place(&sid), (std::cmp::min(step, 5) % 3, (std::cmp::min(step, 5) / 3) as u64));
        if sid.is_last() {
            last_seen += 1;
            assert_eq!(step, 5);
        }
        sid = sid.next();
    }
    assert_eq!(last_seen, 1);
    // From the last session of the last pass the cursor moves no further.
    assert!(sid.is_last());
    assert_eq!(place(&sid), (2, 1));
    assert_eq!(place(&sid.next()), (2, 1));
    assert_eq!(place(&sid.next().next()), (2, 1));
}

#[test]
fn step_forward_then_back_returns() {
    let list = sessions(3);
    let mut sid = SessionId::new(&list, Some(2));
    for _ in 0..5 {
        assert!(!sid.is_last());
        assert_eq!(place(&sid.next().prev()), place(&sid));
        sid = sid.next();
    }
    let mut endless = SessionId::new(&list, None);
    for _ in 0..7 {
        assert_eq!(place(&endless.next().prev()), place(&endless));
        assert_eq!(place(&endless.prev().next()), place(&endless));
        endless = endless.next();
    }
}

#[test]
fn step_back_mirrors_step_forward() {
    let list = sessions(2);
    let start = SessionId::new(&list, Some(2));
    // The first session of the first pass has nothing before it.
    assert_eq!(place(&start.prev()), (0, 0));
    let second_pass = start.next().next();
    assert_eq!(place(&second_pass), (0, 1));
    assert_eq!(place(&second_pass.prev()), (1, 0));
    assert_eq!(place(&second_pass.next().prev()), (0, 1));
}

#[test]
fn endless_run_has_no_edges() {
    let list = sessions(2);
    let mut forward = SessionId::new(&list, None);
    let mut back = SessionId::new(&list, None);
    assert_eq!(forward.total_iter(), None);
    for step in 0..10 {
        assert!(!forward.is_first());
        assert!(!forward.is_last());
        assert!(!back.is_first());
        assert!(!back.is_last());
        assert_eq!(place(&forward), (step % 2, 0));
        assert_eq!(place(&back), ((2 - step % 2) % 2, 0));
        forward = forward.next();
        back = back.prev();
    }
}

#[test]
fn jump_lands_on_the_index() {
    let list = sessions(4);
    let mut sid = SessionId::new(&list, Some(3));
    for _ in 0..5 {
        sid = sid.next();
    }
    assert_eq!(place(&sid), (1, 1));
    for i in 0..4 {
        let at = sid.jump(i);
        assert_eq!(at.curr(), i);
        assert_eq!(list[at.curr()].id, format!("s{}", i));
        assert_eq!(at.iter_no(), 1);
        assert_eq!(at.total_iter(), Some(3));
    }
}

#[test]
fn a_run_with_nothing_to_run_is_finished() {
    let list = sessions(2);
    assert!(SessionId::new(&list, Some(0)).is_run_finished());
    assert!(SessionId::new(&[], Some(3)).is_run_finished());
    assert!(SessionId::new(&[], None).is_run_finished());
    assert!(SessionId::default().is_run_finished());
    assert!(!SessionId::new(&list, Some(1)).is_run_finished());
    assert!(!SessionId::new(&list, None).is_run_finished());
    // Without sessions the cursor has nowhere to go.
    let empty = SessionId::new(&[], Some(3));
    assert_eq!(place(&empty.next()), (0, 0));
    assert_eq!(place(&empty.prev()), (0, 0));
    assert!(!empty.is_last());
}

#[test]
fn single_session_single_pass_is_first_and_last() {
    let list = sessions(1);
    let sid = SessionId::new(&list, Some(1));
    assert!(sid.is_first());
    assert!(sid.is_last());
    assert_eq!(place(&sid.next()), (0, 0));
    assert_eq!(place(&sid.prev()), (0, 0));
}

#[test]
fn passes_completed_are_taken_over_below_the_limit() {
    let list = sessions(2);
    let sid = SessionId::new(&list, Some(3));
    assert_eq!(sid.with_iter_no(2).iter_no(), 2);
    assert_eq!(sid.with_iter_no(3).iter_no(), 0);
    assert_eq!(SessionId::new(&list, None).with_iter_no(1).iter_no(), 0);
}
