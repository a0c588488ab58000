use bootentry::elevator::{
    adjust_reply, platform_reply, Elevation, ElevationError, Reply, Step, ERROR_NOT_ALL_ASSIGNED,
};

/// Runs an elevation to its end on the given replies, returning every step it
/// asked for and its outcome.
fn drive(replies: &[Reply]) -> (Vec<Step>, Option<Result<(), ElevationError>>) {
    let (mut state, mut step) = Elevation::start();
    let mut steps = vec![step];
    let mut next = replies.iter();
    while step != Step::Stop {
        let reply = *next.next().expect("a reply for every step");
        let (s, t) = state.advance(reply);
        state = s;
        step = t;
        steps.push(step);
    }
    (steps, state.outcome())
}

fn closes(steps: &[Step]) -> usize {
    steps.iter().filter(|s| **s == Step::CloseToken).count()
}

#[test]
fn elevation_success_path() {
    let (steps, outcome) = drive(&[Ok(()); 5]);
    assert_eq!(
        steps,
        vec![
            Step::LookupPrivilege,
            Step::ImpersonateSelf,
            Step::OpenThreadToken,
            Step::AdjustPrivileges,
            Step::CloseToken,
            Step::Stop,
        ]
    );
    assert_eq!(outcome, Some(Ok(())));
}

#[test]
fn failed_lookup_stops_at_once() {
    let (steps, outcome) = drive(&[Err(1313)]);
    assert_eq!(steps, vec![Step::LookupPrivilege, Step::Stop]);
    assert_eq!(outcome, Some(Err(ElevationError::PrivilegeLookup { code: 1313 })));
}

#[test]
fn failed_impersonation() {
    let (steps, outcome) = drive(&[Ok(()), Err(5)]);
    assert_eq!(closes(&steps), 0);
    assert_eq!(outcome, Some(Err(ElevationError::Impersonation { code: 5 })));
}

#[test]
fn failed_token_open() {
    let (steps, outcome) = drive(&[Ok(()), Ok(()), Err(6)]);
    assert_eq!(closes(&steps), 0);
    assert!(!steps.contains(&Step::AdjustPrivileges));
    assert_eq!(outcome, Some(Err(ElevationError::TokenOpen { code: 6 })));
}

#[test]
fn failed_adjust_still_closes_token() {
    let (steps, outcome) = drive(&[Ok(()), Ok(()), Ok(()), Err(1300), Ok(())]);
    assert_eq!(closes(&steps), 1);
    assert_eq!(outcome, Some(Err(ElevationError::PrivilegeAdjust { code: 1300 })));
}

#[test]
fn adjust_error_takes_precedence_over_close_error() {
    let (steps, outcome) = drive(&[Ok(()), Ok(()), Ok(()), Err(1300), Err(6)]);
    assert_eq!(closes(&steps), 1);
    assert_eq!(outcome, Some(Err(ElevationError::PrivilegeAdjust { code: 1300 })));
}

#[test]
fn close_failure_after_success_is_failure() {
    let (steps, outcome) = drive(&[Ok(()), Ok(()), Ok(()), Ok(()), Err(6)]);
    assert_eq!(closes(&steps), 1);
    assert_eq!(outcome, Some(Err(ElevationError::TokenClose { code: 6 })));
}

#[test]
fn finished_elevation_asks_nothing_more() {
    let (state, _) = Elevation::start();
    let (done, _) = state.advance(Err(2));
    let (again, step) = done.advance(Ok(()));
    assert_eq!(step, Step::Stop);
    assert_eq!(again, done);
    assert_eq!(Elevation::start().0.outcome(), None);
}

#[test]
fn adjust_reply_checks_all_assigned() {
    assert_eq!(ERROR_NOT_ALL_ASSIGNED, 1300);
    assert_eq!(adjust_reply(true, 0), Ok(()));
    assert_eq!(adjust_reply(true, 1300), Err(1300));
    assert_eq!(adjust_reply(false, 5), Err(5));
}

#[test]
fn platform_reply_maps_flag() {
    assert_eq!(platform_reply(true, 7), Ok(()));
    assert_eq!(platform_reply(false, 7), Err(7));
}
