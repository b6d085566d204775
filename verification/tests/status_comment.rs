use triage_core::command::Resolution;
use triage_core::db::issue_decision_state::UserStatus;
use triage_core::handlers::decision::build_status_comment;
use triage_core::handlers::WorkflowError;
use triage_core::user_map::UserMap;

fn merge_status() -> UserStatus {
    UserStatus {
        comment_id: "https://some-comment-id-for-merge.com".to_string(),
        text: "this is my argument for making this decision".to_string(),
        resolution: Resolution::Merge,
    }
}

fn hold_status() -> UserStatus {
    UserStatus {
        comment_id: "https://some-comment-id-for-hold.com".to_string(),
        text: "this is my argument for making this decision".to_string(),
        resolution: Resolution::Hold,
    }
}

#[test]
fn test_successfuly_build_comment() {
    let mut history: UserMap<Vec<UserStatus>> = UserMap::new();
    let mut current_statuses: UserMap<Option<UserStatus>> = UserMap::new();

    // user 1
    let mut user_1_statuses: Vec<UserStatus> = Vec::new();
    user_1_statuses.push(merge_status());
    user_1_statuses.push(hold_status());

    history.insert("Niklaus".to_string(), user_1_statuses);

    current_statuses.insert("Niklaus".to_string(), Some(merge_status()));

    // user 2
    let mut user_2_statuses: Vec<UserStatus> = Vec::new();
    user_2_statuses.push(hold_status());
    user_2_statuses.push(merge_status());

    history.insert("Barbara".to_string(), user_2_statuses);

    current_statuses.insert("Barbara".to_string(), Some(merge_status()));

    let build_result = build_status_comment(&history, &current_statuses)
        .expect("it shouldn't fail building the message");
    let expected_comment = "| Team member | State |\n\
    |-------------|-------|\n\
    | @Barbara | [~~hold~~](https://some-comment-id-for-hold.com)  [~~merge~~](https://some-comment-id-for-merge.com)  [**merge**](https://some-comment-id-for-merge.com) |\n\
    | @Niklaus | [~~merge~~](https://some-comment-id-for-merge.com)  [~~hold~~](https://some-comment-id-for-hold.com)  [**merge**](https://some-comment-id-for-merge.com) |"
        .to_string();

    assert_eq!(build_result, expected_comment);
}

#[test]
fn test_successfuly_build_comment_user_no_votes() {
    let mut history: UserMap<Vec<UserStatus>> = UserMap::new();
    let mut current_statuses: UserMap<Option<UserStatus>> = UserMap::new();

    // user 1
    let mut user_1_statuses: Vec<UserStatus> = Vec::new();
    user_1_statuses.push(merge_status());
    user_1_statuses.push(hold_status());

    history.insert("Niklaus".to_string(), user_1_statuses);

    current_statuses.insert("Niklaus".to_string(), Some(merge_status()));

    // user 2
    let mut user_2_statuses: Vec<UserStatus> = Vec::new();
    user_2_statuses.push(hold_status());
    user_2_statuses.push(merge_status());

    history.insert("Barbara".to_string(), user_2_statuses);

    current_statuses.insert("Barbara".to_string(), Some(merge_status()));

    // user 3
    history.insert("Tom".to_string(), Vec::new());

    current_statuses.insert("Tom".to_string(), None);

    let build_result = build_status_comment(&history, &current_statuses)
        .expect("it shouldn't fail building the message");
    let expected_comment = "| Team member | State |\n\
    |-------------|-------|\n\
    | @Barbara | [~~hold~~](https://some-comment-id-for-hold.com)  [~~merge~~](https://some-comment-id-for-merge.com)  [**merge**](https://some-comment-id-for-merge.com) |\n\
    | @Niklaus | [~~merge~~](https://some-comment-id-for-merge.com)  [~~hold~~](https://some-comment-id-for-hold.com)  [**merge**](https://some-comment-id-for-merge.com) |\n\
    | @Tom |  |"
        .to_string();

    assert_eq!(build_result, expected_comment);
}

#[test]
fn test_build_comment_inconsistent_users() {
    let mut history: UserMap<Vec<UserStatus>> = UserMap::new();
    let mut current_statuses: UserMap<Option<UserStatus>> = UserMap::new();

    // user 1
    let mut user_1_statuses: Vec<UserStatus> = Vec::new();
    user_1_statuses.push(merge_status());
    user_1_statuses.push(hold_status());

    history.insert("Niklaus".to_string(), user_1_statuses);

    current_statuses.insert("Niklaus".to_string(), Some(merge_status()));

    // user 2
    let mut user_2_statuses: Vec<UserStatus> = Vec::new();
    user_2_statuses.push(hold_status());
    user_2_statuses.push(merge_status());

    history.insert("Barbara".to_string(), user_2_statuses);

    current_statuses.insert("Martin".to_string(), Some(merge_status()));

    let build_result = build_status_comment(&history, &current_statuses);
    assert_eq!(
        build_result.unwrap_err().message(),
        "user Martin not present in history statuses list"
    );
}

#[test]
fn test_successfuly_build_comment_no_history() {
    let mut history: UserMap<Vec<UserStatus>> = UserMap::new();
    let mut current_statuses: UserMap<Option<UserStatus>> = UserMap::new();

    // user 1
    current_statuses.insert("Niklaus".to_string(), Some(merge_status()));
    history.insert("Niklaus".to_string(), Vec::new());

    // user 2
    current_statuses.insert("Barbara".to_string(), Some(merge_status()));
    history.insert("Barbara".to_string(), Vec::new());

    let build_result = build_status_comment(&history, &current_statuses)
        .expect("it shouldn't fail building the message");
    let expected_comment = "| Team member | State |\n\
    |-------------|-------|\n\
    | @Barbara | [**merge**](https://some-comment-id-for-merge.com) |\n\
    | @Niklaus | [**merge**](https://some-comment-id-for-merge.com) |\
    "
    .to_string();

    assert_eq!(build_result, expected_comment);
}

#[test]
fn inconsistent_ballot_names_first_missing_participant() {
    let history: UserMap<Vec<UserStatus>> = UserMap::new();
    let mut current: UserMap<Option<UserStatus>> = UserMap::new();
    current.insert("Zoe".to_string(), None);
    current.insert("Adam".to_string(), None);
    match build_status_comment(&history, &current) {
        Err(WorkflowError::MissingHistory(user)) => assert_eq!(user, "Adam"),
        _ => panic!("a participant without history must be reported"),
    }
}

#[test]
fn row_of_a_first_vote() {
    let mut history: UserMap<Vec<UserStatus>> = UserMap::new();
    let mut current: UserMap<Option<UserStatus>> = UserMap::new();
    history.insert("X".to_string(), Vec::new());
    current.insert(
        "X".to_string(),
        Some(UserStatus {
            comment_id: "U".to_string(),
            text: String::new(),
            resolution: Resolution::Merge,
        }),
    );
    assert_eq!(
        build_status_comment(&history, &current).unwrap(),
        "| Team member | State |\n|-------------|-------|\n| @X | [**merge**](U) |"
    );
}

#[test]
fn row_without_a_vote_has_an_empty_cell() {
    let mut history: UserMap<Vec<UserStatus>> = UserMap::new();
    let mut current: UserMap<Option<UserStatus>> = UserMap::new();
    history.insert("X".to_string(), Vec::new());
    current.insert("X".to_string(), None);
    assert_eq!(
        build_status_comment(&history, &current).unwrap(),
        "| Team member | State |\n|-------------|-------|\n| @X |  |"
    );
}

#[test]
fn row_with_history_and_standing_vote() {
    let hold = UserStatus {
        comment_id: "A".to_string(),
        text: String::new(),
        resolution: Resolution::Hold,
    };
    let merge = UserStatus {
        comment_id: "B".to_string(),
        text: String::new(),
        resolution: Resolution::Merge,
    };
    let mut history: UserMap<Vec<UserStatus>> = UserMap::new();
    let mut current: UserMap<Option<UserStatus>> = UserMap::new();
    history.insert("Barbara".to_string(), vec![hold, merge.clone()]);
    current.insert("Barbara".to_string(), Some(merge));
    assert_eq!(
        build_status_comment(&history, &current).unwrap(),
        "| Team member | State |\n|-------------|-------|\n| @Barbara | [~~hold~~](A)  [~~merge~~](B)  [**merge**](B) |"
    );
}

#[test]
fn table_without_participants_is_the_header() {
    let history: UserMap<Vec<UserStatus>> = UserMap::new();
    let current: UserMap<Option<UserStatus>> = UserMap::new();
    assert_eq!(
        build_status_comment(&history, &current).unwrap(),
        "| Team member | State |\n|-------------|-------|"
    );
}

#[test]
fn history_of_others_does_not_show() {
    let mut history: UserMap<Vec<UserStatus>> = UserMap::new();
    let mut current: UserMap<Option<UserStatus>> = UserMap::new();
    history.insert("Ghost".to_string(), vec![hold_status()]);
    history.insert("X".to_string(), Vec::new());
    current.insert("X".to_string(), None);
    assert_eq!(
        build_status_comment(&history, &current).unwrap(),
        "| Team member | State |\n|-------------|-------|\n| @X |  |"
    );
}
