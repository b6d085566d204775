//! The decision state table: one ballot per issue.
use vstd::prelude::*;
use vstd::string::*;
use std::collections::HashMap;
use crate::command::Resolution;
use crate::db::jobs::StoreError;
use crate::time::Timestamp;
use crate::user_map::UserMap;

verus! {

broadcast use vstd::std_specs::hash::group_hash_axioms;

/// One cast vote.
#[derive(Debug, PartialEq, Eq)]
pub struct UserStatus {
    /// Link to the comment that cast the vote.
    pub comment_id: String,
    /// What the voter said.
    pub text: String,
    pub resolution: Resolution,
}

impl Clone for UserStatus {
    fn clone(&self) -> (copy: UserStatus)
        ensures
            copy == *self,
    {
        UserStatus {
            comment_id: self.comment_id.clone(),
            text: self.text.clone(),
            resolution: self.resolution,
        }
    }
}

/// The ballot of one issue.
#[derive(Debug)]
pub struct IssueDecisionState {
    pub issue_id: u64,
    /// Who opened the ballot.
    pub initiator: String,
    pub start_date: Timestamp,
    pub end_date: Timestamp,
    /// The latest vote of each participant; `None` while they have not voted.
    pub current: UserMap<Option<UserStatus>>,
    /// The earlier votes of each participant, oldest first.
    pub history: UserMap<Vec<UserStatus>>,
}

impl IssueDecisionState {
    /// Both vote maps keep their order.
    pub open spec fn wf(&self) -> bool {
        self.current.wf() && self.history.wf()
    }

    /// Every participant with a place in `current` has one in `history`.
    pub open spec fn consistent(&self) -> bool {
        forall|user: Seq<char>|
            self.current@.contains_key(user) ==> self.history@.contains_key(user)
    }
}

/// The table of ballots, keyed by issue.
pub struct DecisionStore {
    states: HashMap<u64, IssueDecisionState>,
}

impl View for DecisionStore {
    type V = Map<u64, IssueDecisionState>;

    /// The ballots by issue.
    closed spec fn view(&self) -> Map<u64, IssueDecisionState> {
        self.states@
    }
}

impl DecisionStore {
    /// The invariant of the table: each ballot is filed under its own issue
    /// and is well-formed.
    #[verifier::type_invariant]
    pub open spec fn wf(&self) -> bool {
        forall|issue: u64| #[trigger]
            self@.contains_key(issue) ==> self@[issue].issue_id == issue && self@[issue].wf()
    }

    /// The empty table.
    pub fn new() -> (store: DecisionStore)
        ensures
            store.wf(),
            store@ == Map::<u64, IssueDecisionState>::empty(),
    {
        DecisionStore { states: HashMap::new() }
    }

    /// The number of ballots.
    pub fn len(&self) -> (n: usize)
        ensures
            n == self@.len(),
    {
        self.states.len()
    }
}

/// The ballot of the issue, or `NotFound`.
pub fn get_issue_decision_state<'a>(db: &'a DecisionStore, issue_number: &u64) -> (r: Result<
    &'a IssueDecisionState,
    StoreError,
>)
    ensures
        (match r {
            Ok(state) => db@.contains_key(*issue_number) && *state == db@[*issue_number],
            Err(error) => !db@.contains_key(*issue_number) && error == StoreError::NotFound,
        }),
{
    match db.states.get(issue_number) {
        Some(state) => Ok(state),
        None => Err(StoreError::NotFound),
    }
}

/// The ballot that [`insert_issue_decision_state`] files.
pub open spec fn opened_state(
    issue_number: u64,
    initiator: String,
    start_date: Timestamp,
    end_date: Timestamp,
    current: UserMap<Option<UserStatus>>,
    history: UserMap<Vec<UserStatus>>,
) -> IssueDecisionState {
    IssueDecisionState { issue_id: issue_number, initiator, start_date, end_date, current, history }
}

/// Files a new ballot for the issue. An issue has one ballot at most: where
/// it has one already, the request fails and the table stays as it was.
pub fn insert_issue_decision_state(
    db: &mut DecisionStore,
    issue_number: &u64,
    initiator: &String,
    start_date: &Timestamp,
    end_date: &Timestamp,
    current: UserMap<Option<UserStatus>>,
    history: UserMap<Vec<UserStatus>>,
) -> (r: Result<(), StoreError>)
    ensures
        final(db).wf(),
        old(db)@.contains_key(*issue_number) ==> r == Err::<(), StoreError>(
            StoreError::DecisionExists,
        ) && final(db)@ == old(db)@,
        !old(db)@.contains_key(*issue_number) ==> r is Ok && final(db)@ == old(db)@.insert(
            *issue_number,
            opened_state(*issue_number, *initiator, *start_date, *end_date, current, history),
        ),
{
    proof {
        use_type_invariant(&*db);
        use_type_invariant(&current);
        use_type_invariant(&history);
    }
    if db.states.contains_key(issue_number) {
        return Err(StoreError::DecisionExists);
    }
    let state = IssueDecisionState {
        issue_id: *issue_number,
        initiator: initiator.clone(),
        start_date: *start_date,
        end_date: *end_date,
        current,
        history,
    };
    let ghost before = db@;
    let mut states: HashMap<u64, IssueDecisionState> = HashMap::new();
    std::mem::swap(&mut states, &mut db.states);
    states.insert(*issue_number, state);
    proof {
        assert forall|issue: u64| #[trigger] states@.contains_key(issue) implies states@[issue].issue_id
            == issue && states@[issue].wf() by {
            if issue != *issue_number {
                assert(before.contains_key(issue));
            }
        }
    }
    db.states = states;
    Ok(())
}

} // verus!
