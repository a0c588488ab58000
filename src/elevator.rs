//! The privilege elevator as a state machine. It decides which platform step
//! comes next from the replies to the earlier ones; the caller performs each
//! step and hands back its reply, `Ok(())` or the platform's error code.
//!
//! The steps: look up the system-environment privilege, impersonate self on
//! the thread, open the thread's token, enable the privilege on it, close the
//! token. A failure before the token is open ends the elevation at once; once
//! it is open, the token is closed whatever the adjustment gave.
use vstd::prelude::*;

verus! {

/// The error the platform leaves after an adjustment that completed without
/// enabling every privilege asked for.
pub const ERROR_NOT_ALL_ASSIGNED: u32 = 1300;

/// Why an elevation failed, with the platform's error code.
#[derive(Debug, Clone, Copy, PartialEq, Eq, Structural)]
pub enum ElevationError {
    PrivilegeLookup { code: u32 },
    Impersonation { code: u32 },
    TokenOpen { code: u32 },
    PrivilegeAdjust { code: u32 },
    TokenClose { code: u32 },
}

/// A platform step that the elevation asks the caller to perform.
#[derive(Debug, Clone, Copy, PartialEq, Eq, Structural)]
pub enum Step {
    LookupPrivilege,
    ImpersonateSelf,
    OpenThreadToken,
    AdjustPrivileges,
    CloseToken,
    /// Nothing more to do: the elevation has finished.
    Stop,
}

/// Where an elevation stands: the step whose reply it waits for, or its outcome.
#[derive(Debug, Clone, Copy, PartialEq, Eq)]
pub enum Elevation {
    LookingUp,
    Impersonating,
    OpeningToken,
    Adjusting,
    /// The token is being closed; `earlier` is the adjustment's error, if any.
    Closing { earlier: Option<ElevationError> },
    Finished { outcome: Result<(), ElevationError> },
}

/// The reply to a platform step: success, or the platform's error code.
pub type Reply = Result<(), u32>;

/// The next state and step of an elevation in state `s` that receives `reply`.
pub open spec fn transition(s: Elevation, reply: Reply) -> (Elevation, Step) {
    match s {
        Elevation::LookingUp => match reply {
            Ok(_) => (Elevation::Impersonating, Step::ImpersonateSelf),
            Err(c) => (
                Elevation::Finished { outcome: Err(ElevationError::PrivilegeLookup { code: c }) },
                Step::Stop,
            ),
        },
        Elevation::Impersonating => match reply {
            Ok(_) => (Elevation::OpeningToken, Step::OpenThreadToken),
            Err(c) => (
                Elevation::Finished { outcome: Err(ElevationError::Impersonation { code: c }) },
                Step::Stop,
            ),
        },
        Elevation::OpeningToken => match reply {
            Ok(_) => (Elevation::Adjusting, Step::AdjustPrivileges),
            Err(c) => (
                Elevation::Finished { outcome: Err(ElevationError::TokenOpen { code: c }) },
                Step::Stop,
            ),
        },
        Elevation::Adjusting => match reply {
            Ok(_) => (Elevation::Closing { earlier: None }, Step::CloseToken),
            Err(c) => (
                Elevation::Closing { earlier: Some(ElevationError::PrivilegeAdjust { code: c }) },
                Step::CloseToken,
            ),
        },
        Elevation::Closing { earlier } => match (reply, earlier) {
            (_, Some(e)) => (Elevation::Finished { outcome: Err(e) }, Step::Stop),
            (Ok(_), None) => (Elevation::Finished { outcome: Ok(()) }, Step::Stop),
            (Err(c), None) => (
                Elevation::Finished { outcome: Err(ElevationError::TokenClose { code: c }) },
                Step::Stop,
            ),
        },
        Elevation::Finished { .. } => (s, Step::Stop),
    }
}

/// The steps requested after each of `replies` in turn, starting from state `s`.
pub open spec fn run(s: Elevation, replies: Seq<Reply>) -> Seq<Step>
    decreases replies.len(),
{
    if replies.len() == 0 {
        seq![]
    } else {
        let (t, step) = transition(s, replies[0]);
        seq![step] + run(t, replies.drop_first())
    }
}

/// The state reached from `s` after each of `replies` in turn.
pub open spec fn end_state(s: Elevation, replies: Seq<Reply>) -> Elevation
    decreases replies.len(),
{
    if replies.len() == 0 {
        s
    } else {
        end_state(transition(s, replies[0]).0, replies.drop_first())
    }
}

/// Every step requested by a whole elevation whose steps got `replies`: the
/// first step, then the one that follows each reply.
pub open spec fn elevation_steps(replies: Seq<Reply>) -> Seq<Step> {
    seq![Step::LookupPrivilege] + run(Elevation::LookingUp, replies)
}

/// How many times `x` occurs in `steps`.
pub open spec fn count_step(steps: Seq<Step>, x: Step) -> nat
    decreases steps.len(),
{
    if steps.len() == 0 {
        0
    } else {
        (if steps[0] == x {
            1nat
        } else {
            0nat
        }) + count_step(steps.drop_first(), x)
    }
}

/// The token was opened: the lookup, the impersonation and the token open all succeeded.
pub open spec fn token_opened(replies: Seq<Reply>) -> bool {
    replies.len() >= 3 && replies[0] is Ok && replies[1] is Ok && replies[2] is Ok
}

proof fn lemma_count_prepend(x: Step, rest: Seq<Step>, y: Step)
    ensures
        count_step(seq![x] + rest, y) == (if x == y {
            1nat
        } else {
            0nat
        }) + count_step(rest, y),
{
    assert((seq![x] + rest).drop_first() =~= rest);
}

/// A finished elevation stays as it is and asks for nothing more.
proof fn lemma_finished_stays(outcome: Result<(), ElevationError>, replies: Seq<Reply>)
    ensures
        end_state(Elevation::Finished { outcome }, replies) == (Elevation::Finished { outcome }),
        forall|i: int|
            0 <= i < replies.len() ==> run(Elevation::Finished { outcome }, replies)[i]
                == Step::Stop,
        run(Elevation::Finished { outcome }, replies).len() == replies.len(),
        count_step(run(Elevation::Finished { outcome }, replies), Step::CloseToken) == 0,
    decreases replies.len(),
{
    if replies.len() > 0 {
        lemma_finished_stays(outcome, replies.drop_first());
        lemma_count_prepend(
            Step::Stop,
            run(Elevation::Finished { outcome }, replies.drop_first()),
            Step::CloseToken,
        );
    }
}

/// When the privilege lookup fails, the elevation ends with that error, and no
/// later step (impersonation, token open, adjustment, close) is ever requested.
pub proof fn lemma_failed_lookup_stops(replies: Seq<Reply>)
    requires
        replies.len() > 0,
        replies[0] is Err,
    ensures
        end_state(Elevation::LookingUp, replies) == (Elevation::Finished {
            outcome: Err(ElevationError::PrivilegeLookup { code: replies[0]->Err_0 }),
        }),
        forall|i: int|
            0 <= i < elevation_steps(replies).len() ==> {
                let step = #[trigger] elevation_steps(replies)[i];
                step == Step::LookupPrivilege || step == Step::Stop
            },
{
    let outcome = Err(ElevationError::PrivilegeLookup { code: replies[0]->Err_0 });
    let rest = replies.drop_first();
    lemma_finished_stays(outcome, rest);
    let steps = elevation_steps(replies);
    assert(steps =~= seq![Step::LookupPrivilege, Step::Stop] + run(
        Elevation::Finished { outcome },
        rest,
    ));
    assert forall|i: int| 0 <= i < steps.len() implies {
        let step = #[trigger] steps[i];
        step == Step::LookupPrivilege || step == Step::Stop
    } by {
        if i >= 2 {
            assert(steps[i] == run(Elevation::Finished { outcome }, rest)[i - 2]);
        }
    }
}

/// One reply's worth of an elevation: the step it requests next, then the rest.
proof fn lemma_run_first(s: Elevation, replies: Seq<Reply>)
    requires
        replies.len() > 0,
    ensures
        count_step(run(s, replies), Step::CloseToken) == (if transition(s, replies[0]).1
            == Step::CloseToken {
            1nat
        } else {
            0nat
        }) + count_step(run(transition(s, replies[0]).0, replies.drop_first()), Step::CloseToken),
        end_state(s, replies) == end_state(transition(s, replies[0]).0, replies.drop_first()),
{
    lemma_count_prepend(
        transition(s, replies[0]).1,
        run(transition(s, replies[0]).0, replies.drop_first()),
        Step::CloseToken,
    );
}

/// The token is released on every path: an elevation that runs to its end
/// requests the close exactly once when the token was opened, and never
/// otherwise. When the adjustment failed, its error is the outcome, whatever
/// the close gave.
pub proof fn lemma_token_closed_once(replies: Seq<Reply>)
    requires
        end_state(Elevation::LookingUp, replies) is Finished,
    ensures
        count_step(elevation_steps(replies), Step::CloseToken) == (if token_opened(replies) {
            1nat
        } else {
            0nat
        }),
        token_opened(replies) && replies[3] is Err ==> end_state(Elevation::LookingUp, replies) == (
        Elevation::Finished {
            outcome: Err(ElevationError::PrivilegeAdjust { code: replies[3]->Err_0 }),
        }),
{
    let steps = elevation_steps(replies);
    lemma_count_prepend(Step::LookupPrivilege, run(Elevation::LookingUp, replies), Step::CloseToken);
    let r1 = replies.drop_first();
    lemma_run_first(Elevation::LookingUp, replies);
    if replies[0] is Err {
        lemma_finished_stays(transition(Elevation::LookingUp, replies[0]).0->outcome, r1);
        return;
    }
    assert(r1.len() > 0);
    let r2 = r1.drop_first();
    lemma_run_first(Elevation::Impersonating, r1);
    if r1[0] is Err {
        lemma_finished_stays(transition(Elevation::Impersonating, r1[0]).0->outcome, r2);
        return;
    }
    assert(r2.len() > 0);
    let r3 = r2.drop_first();
    lemma_run_first(Elevation::OpeningToken, r2);
    if r2[0] is Err {
        lemma_finished_stays(transition(Elevation::OpeningToken, r2[0]).0->outcome, r3);
        return;
    }
    assert(r3.len() > 0);
    let r4 = r3.drop_first();
    let closing = transition(Elevation::Adjusting, r3[0]).0;
    lemma_run_first(Elevation::Adjusting, r3);
    assert(r4.len() > 0);
    let r5 = r4.drop_first();
    lemma_run_first(closing, r4);
    lemma_finished_stays(transition(closing, r4[0]).0->outcome, r5);
}

impl Elevation {
    /// A new elevation, and its first step.
    pub fn start() -> (r: (Elevation, Step))
        ensures
            r == (Elevation::LookingUp, Step::LookupPrivilege),
    {
        (Elevation::LookingUp, Step::LookupPrivilege)
    }

    /// The state after `reply` to the step this elevation waits for, and the next step.
    pub fn advance(self, reply: Reply) -> (r: (Elevation, Step))
        ensures
            r == transition(self, reply),
    {
        match self {
            Elevation::LookingUp => match reply {
                Ok(_) => (Elevation::Impersonating, Step::ImpersonateSelf),
                Err(c) => (
                    Elevation::Finished { outcome: Err(ElevationError::PrivilegeLookup { code: c }) },
                    Step::Stop,
                ),
            },
            Elevation::Impersonating => match reply {
                Ok(_) => (Elevation::OpeningToken, Step::OpenThreadToken),
                Err(c) => (
                    Elevation::Finished { outcome: Err(ElevationError::Impersonation { code: c }) },
                    Step::Stop,
                ),
            },
            Elevation::OpeningToken => match reply {
                Ok(_) => (Elevation::Adjusting, Step::AdjustPrivileges),
                Err(c) => (
                    Elevation::Finished { outcome: Err(ElevationError::TokenOpen { code: c }) },
                    Step::Stop,
                ),
            },
            Elevation::Adjusting => match reply {
                Ok(_) => (Elevation::Closing { earlier: None }, Step::CloseToken),
                Err(c) => (
                    Elevation::Closing {
                        earlier: Some(ElevationError::PrivilegeAdjust { code: c }),
                    },
                    Step::CloseToken,
                ),
            },
            Elevation::Closing { earlier } => match earlier {
                Some(e) => (Elevation::Finished { outcome: Err(e) }, Step::Stop),
                None => match reply {
                    Ok(_) => (Elevation::Finished { outcome: Ok(()) }, Step::Stop),
                    Err(c) => (
                        Elevation::Finished { outcome: Err(ElevationError::TokenClose { code: c }) },
                        Step::Stop,
                    ),
                },
            },
            Elevation::Finished { outcome } => (Elevation::Finished { outcome }, Step::Stop),
        }
    }

    /// The outcome of a finished elevation, or `None` while steps remain.
    pub fn outcome(&self) -> (r: Option<Result<(), ElevationError>>)
        ensures
            r == (match *self {
                Elevation::Finished { outcome } => Some(outcome),
                _ => None,
            }),
    {
        match self {
            Elevation::Finished { outcome } => Some(*outcome),
            _ => None,
        }
    }
}

/// The reply to a platform call that reports success or failure and leaves an
/// error code behind on failure.
pub fn platform_reply(succeeded: bool, last_error: u32) -> (r: Reply)
    ensures
        r == (if succeeded {
            Ok::<(), u32>(())
        } else {
            Err(last_error)
        }),
{
    if succeeded {
        Ok(())
    } else {
        Err(last_error)
    }
}

/// The reply to the adjustment step. The platform may report success without
/// enabling the privilege, leaving `ERROR_NOT_ALL_ASSIGNED` behind: that is a
/// failure too.
pub fn adjust_reply(succeeded: bool, last_error: u32) -> (r: Reply)
    ensures
        r == (if succeeded && last_error != ERROR_NOT_ALL_ASSIGNED {
            Ok::<(), u32>(())
        } else {
            Err(last_error)
        }),
{
    if succeeded && last_error != ERROR_NOT_ALL_ASSIGNED {
        Ok(())
    } else {
        Err(last_error)
    }
}

} // verus!
