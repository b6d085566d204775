//! The decision process: a team vote attached to an issue.
use vstd::prelude::*;
use vstd::string::*;
use crate::command::{resolution_name, resolution_named, DecisionCommand, Resolution};
use crate::db::issue_decision_state::{get_issue_decision_state, insert_issue_decision_state,
    IssueDecisionState, UserStatus};
use crate::db::jobs::{get_duration_from_cron, id_taken, insert_job_with_id, random_job_id,
    slot_taken, upserted, CronUnit, Job, JobType, StoreError, DAY_IN_SECONDS};
use crate::handlers::{Context, IssueAnswer, JobAction, WorkflowError};
use crate::json::{json_empty_object, json_get_text, json_is_object, json_keys, json_set_text,
    json_text_members};
use crate::text::{decimal, decimal_string};
use crate::time::{shifted_nanos, shifted_secs, Timestamp};
use crate::user_map::UserMap;

verus! {

/// The head of the status table: the column titles and the separator row.
pub open spec fn table_header() -> Seq<char> {
    "| Team member | State |\n|-------------|-------|"@
}

/// An earlier vote: the resolution struck through, linked to its comment.
pub open spec fn struck_vote(status: UserStatus) -> Seq<char> {
    " [~~"@ + resolution_name(status.resolution) + "~~]("@ + status.comment_id@ + ") "@
}

/// The earlier votes of one participant, oldest first.
pub open spec fn struck_votes(statuses: Seq<UserStatus>) -> Seq<char>
    decreases statuses.len(),
{
    if statuses.len() == 0 {
        Seq::empty()
    } else {
        struck_votes(statuses.drop_last()) + struck_vote(statuses.last())
    }
}

/// The standing vote: the resolution in bold, linked to its comment; empty
/// for a participant who has not voted.
pub open spec fn standing_vote(status: Option<UserStatus>) -> Seq<char> {
    match status {
        Some(status) => "[**"@ + resolution_name(status.resolution) + "**]("@ + status.comment_id@
            + ")"@,
        None => Seq::empty(),
    }
}

/// The row of one participant.
pub open spec fn table_row(user: Seq<char>, earlier: Seq<UserStatus>, standing: Option<UserStatus>)
    -> Seq<char> {
    "\n| @"@ + user + " |"@ + struck_votes(earlier) + " "@ + standing_vote(standing) + " |"@
}

/// The rows of the first `n` participants, who are given by their names
/// and standing votes in walking order; their earlier votes are looked up
/// in `history`.
pub open spec fn table_rows(
    history: Map<Seq<char>, Vec<UserStatus>>,
    names: Seq<Seq<char>>,
    standing: Seq<Option<UserStatus>>,
    n: int,
) -> Seq<char>
    decreases n,
{
    if n <= 0 {
        Seq::empty()
    } else {
        table_rows(history, names, standing, n - 1) + table_row(
            names[n - 1],
            history[names[n - 1]]@,
            standing[n - 1],
        )
    }
}

/// The status table of a ballot: the head, then one row for each
/// participant of `current` in the sorted order of their names.
pub open spec fn status_table(
    history: UserMap<Vec<UserStatus>>,
    current: UserMap<Option<UserStatus>>,
) -> Seq<char> {
    table_header() + table_rows(
        history@,
        current.keys(),
        current.values(),
        current.keys().len() as int,
    )
}

/// Participant `i` is the first one without a history.
pub open spec fn first_without_history(
    history: Map<Seq<char>, Vec<UserStatus>>,
    names: Seq<Seq<char>>,
    i: int,
) -> bool {
    &&& 0 <= i < names.len()
    &&& !history.contains_key(names[i])
    &&& forall|j: int| 0 <= j < i ==> history.contains_key(#[trigger] names[j])
}

/// A participant without earlier votes whose standing vote is to merge
/// has the row `| @user | [**merge**](link) |`.
pub proof fn lemma_row_of_first_merge_vote(user: Seq<char>, status: UserStatus)
    requires
        status.resolution == Resolution::Merge,
    ensures
        table_row(user, Seq::empty(), Some(status)) == "\n| @"@ + user + " | [**merge**]("@
            + status.comment_id@ + ") |"@,
{
    reveal_strlit("\n| @");
    reveal_strlit(" |");
    reveal_strlit(" ");
    reveal_strlit("[**");
    reveal_strlit("merge");
    reveal_strlit("**](");
    reveal_strlit(")");
    reveal_strlit(" | [**merge**](");
    reveal_strlit(") |");
    let link = status.comment_id@;
    assert(struck_votes(Seq::<UserStatus>::empty()) =~= Seq::<char>::empty());
    assert(" |"@ + Seq::<char>::empty() + " "@ + ("[**"@ + "merge"@ + "**]("@) =~= " | [**merge**]("@);
    assert(")"@ + " |"@ =~= ") |"@);
    assert(table_row(user, Seq::empty(), Some(status)) =~= "\n| @"@ + user + (" |"@ + Seq::<
        char,
    >::empty() + " "@ + ("[**"@ + "merge"@ + "**]("@)) + link + (")"@ + " |"@));
}

/// A participant without votes, earlier or standing, has the row
/// `| @user |  |`: the state cell is empty.
pub proof fn lemma_row_without_votes(user: Seq<char>)
    ensures
        table_row(user, Seq::empty(), None) == "\n| @"@ + user + " |  |"@,
{
    reveal_strlit("\n| @");
    reveal_strlit(" |");
    reveal_strlit(" ");
    reveal_strlit(" |  |");
    assert(struck_votes(Seq::<UserStatus>::empty()) =~= Seq::<char>::empty());
    assert(" |"@ + Seq::<char>::empty() + " "@ + Seq::<char>::empty() + " |"@ =~= " |  |"@);
    assert(table_row(user, Seq::empty(), None) =~= "\n| @"@ + user + (" |"@ + Seq::<char>::empty()
        + " "@ + Seq::<char>::empty() + " |"@));
}

fn render_struck_vote(status: &UserStatus) -> (item: String)
    ensures
        item@ == struck_vote(*status),
{
    let mut item = String::from_str(" [~~");
    item.append(status.resolution.name());
    item.append("~~](");
    item.append(status.comment_id.as_str());
    item.append(") ");
    item
}

fn render_standing_vote(status: &Option<UserStatus>) -> (item: String)
    ensures
        item@ == standing_vote(*status),
{
    match status {
        Some(status) => {
            let mut item = String::from_str("[**");
            item.append(status.resolution.name());
            item.append("**](");
            item.append(status.comment_id.as_str());
            item.append(")");
            item
        },
        None => String::new(),
    }
}

fn render_row(user: &String, earlier: &Vec<UserStatus>, standing: &Option<UserStatus>) -> (row:
    String)
    ensures
        row@ == table_row(user@, earlier@, *standing),
{
    let mut row = String::from_str("\n| @");
    row.append(user.as_str());
    row.append(" |");
    let ghost lead = row@;
    let n: usize = earlier.len();
    let mut i: usize = 0;
    assert(earlier@.take(0) =~= Seq::<UserStatus>::empty());
    assert(row@ =~= lead + struck_votes(earlier@.take(0)));
    while i < n
        invariant
            n == earlier@.len(),
            0 <= i <= n,
            row@ == lead + struck_votes(earlier@.take(i as int)),
        decreases n - i,
    {
        let item = render_struck_vote(&earlier[i]);
        proof {
            let upto = earlier@.take(i as int + 1);
            assert(upto.drop_last() =~= earlier@.take(i as int));
            assert(upto.last() == earlier@[i as int]);
            assert((lead + struck_votes(earlier@.take(i as int))) + item@ =~= lead + (struck_votes(
                earlier@.take(i as int),
            ) + item@));
        }
        row.append(item.as_str());
        i = i + 1;
    }
    assert(earlier@.take(n as int) =~= earlier@);
    let standing_item = render_standing_vote(standing);
    row.append(" ");
    row.append(standing_item.as_str());
    row.append(" |");
    row
}

/// Renders the ballot as a two-column table, one row per participant of
/// `current` in the sorted order of their names: the earlier votes struck
/// through, then the standing vote in bold.
///
/// Fails on the first participant that has no entry in `history`.
pub fn build_status_comment(
    history: &UserMap<Vec<UserStatus>>,
    current: &UserMap<Option<UserStatus>>,
) -> (r: Result<String, WorkflowError>)
    ensures
        (match r {
            Ok(comment) => {
                &&& comment@ == status_table(*history, *current)
                &&& forall|i: int|
                    0 <= i < current.keys().len() ==> history@.contains_key(
                        #[trigger] current.keys()[i],
                    )
            },
            Err(WorkflowError::MissingHistory(user)) => exists|i: int|
                first_without_history(history@, current.keys(), i) && user@
                    == #[trigger] current.keys()[i],
            Err(_) => false,
        }),
{
    let mut comment = String::from_str("| Team member | State |\n|-------------|-------|");
    let n: usize = current.len();
    let mut i: usize = 0;
    let ghost names = current.keys();
    let ghost standing_votes = current.values();
    assert(comment@ =~= table_header() + table_rows(history@, names, standing_votes, 0));
    while i < n
        invariant
            names == current.keys(),
            standing_votes == current.values(),
            n == names.len(),
            0 <= i <= n,
            comment@ == table_header() + table_rows(history@, names, standing_votes, i as int),
            forall|j: int| 0 <= j < i ==> history@.contains_key(#[trigger] names[j]),
        decreases n - i,
    {
        let user = current.key_at(i);
        let standing = current.value_at(i);
        match history.get(user.as_str()) {
            Some(earlier) => {
                let row = render_row(user, earlier, standing);
                proof {
                    let rows = table_rows(history@, names, standing_votes, i as int);
                    assert((table_header() + rows) + row@ =~= table_header() + (rows + row@));
                }
                comment.append(row.as_str());
            },
            None => {
                proof {
                    assert(first_without_history(history@, names, i as int));
                }
                return Err(WorkflowError::MissingHistory(user.clone()));
            },
        }
        i = i + 1;
    }
    Ok(comment)
}

/// What the resolution job of a ballot needs when it runs.
#[derive(Debug, PartialEq, Eq)]
pub struct DecisionProcessActionMetadata {
    pub message: String,
    /// Where the issue can be fetched.
    pub get_issue_url: String,
    /// The resolution that the ballot was opened with.
    pub status: Resolution,
}

/// The members of the JSON object that stands for `metadata`: its three
/// fields by name, the resolution by its display name.
pub open spec fn metadata_members(metadata: DecisionProcessActionMetadata) -> Map<
    Seq<char>,
    Seq<char>,
> {
    Map::<Seq<char>, Seq<char>>::empty().insert("message"@, metadata.message@).insert(
        "get_issue_url"@,
        metadata.get_issue_url@,
    ).insert("status"@, resolution_name(metadata.status))
}

/// `value` is the JSON form of `metadata`: an object with the three
/// members of [`metadata_members`] and no others.
pub open spec fn encodes(value: serde_json::Value, metadata: DecisionProcessActionMetadata) -> bool {
    &&& json_is_object(value)
    &&& json_keys(value) == metadata_members(metadata).dom()
    &&& json_text_members(value) == metadata_members(metadata)
}

/// The text members hold the three fields, with a known resolution.
pub open spec fn decodable(members: Map<Seq<char>, Seq<char>>) -> bool {
    &&& members.contains_key("message"@)
    &&& members.contains_key("get_issue_url"@)
    &&& members.contains_key("status"@)
    &&& resolution_named(members["status"@]) is Some
}

/// The text members hold exactly the fields of `metadata`.
pub open spec fn decodes_to(
    members: Map<Seq<char>, Seq<char>>,
    metadata: DecisionProcessActionMetadata,
) -> bool {
    &&& decodable(members)
    &&& members["message"@] == metadata.message@
    &&& members["get_issue_url"@] == metadata.get_issue_url@
    &&& resolution_named(members["status"@]) == Some(metadata.status)
}

/// What was written as JSON reads back as it was.
pub proof fn lemma_metadata_round_trip(metadata: DecisionProcessActionMetadata)
    ensures
        decodes_to(metadata_members(metadata), metadata),
{
    reveal_strlit("message");
    reveal_strlit("get_issue_url");
    reveal_strlit("status");
    assert("message"@.len() != "get_issue_url"@.len());
    assert("message"@.len() != "status"@.len());
    assert("get_issue_url"@.len() != "status"@.len());
    crate::command::lemma_resolution_name_round_trip(metadata.status);
}

impl DecisionProcessActionMetadata {
    /// Writes the metadata as a JSON object.
    pub fn to_value(&self) -> (value: serde_json::Value)
        ensures
            encodes(value, *self),
    {
        let mut value = json_empty_object();
        assert(json_text_members(value) =~= Map::<Seq<char>, Seq<char>>::empty());
        json_set_text(&mut value, "message", self.message.as_str());
        json_set_text(&mut value, "get_issue_url", self.get_issue_url.as_str());
        json_set_text(&mut value, "status", self.status.name());
        assert(json_keys(value) =~= metadata_members(*self).dom());
        value
    }

    /// Reads the metadata from a JSON object. Members other than the three
    /// fields are passed over; a field that is missing or no text, or a
    /// resolution that is not known, fails.
    pub fn from_value(value: &serde_json::Value) -> (r: Result<
        DecisionProcessActionMetadata,
        WorkflowError,
    >)
        ensures
            (match r {
                Ok(metadata) => decodes_to(json_text_members(*value), metadata),
                Err(error) => error is InvalidMetadata && !decodable(json_text_members(*value)),
            }),
    {
        let message = match json_get_text(value, "message") {
            Some(text) => text,
            None => {
                return Err(WorkflowError::InvalidMetadata);
            },
        };
        let get_issue_url = match json_get_text(value, "get_issue_url") {
            Some(text) => text,
            None => {
                return Err(WorkflowError::InvalidMetadata);
            },
        };
        let status_name = match json_get_text(value, "status") {
            Some(text) => text,
            None => {
                return Err(WorkflowError::InvalidMetadata);
            },
        };
        match Resolution::from_name(status_name.as_str()) {
            Some(status) => Ok(DecisionProcessActionMetadata { message, get_issue_url, status }),
            None => Err(WorkflowError::InvalidMetadata),
        }
    }
}

/// The job that resolves a ballot when its decision period ends.
pub struct DecisionProcessJob;

/// The name under which the resolution job is scheduled.
pub open spec fn decision_job_name() -> Seq<char> {
    "decision_process_action"@
}

/// The comment that tells the participants how the ballot was resolved.
pub open spec fn ping_text(resolution: Resolution) -> Seq<char> {
    "The final comment period has resolved, with a decision to **"@ + resolution_name(resolution)
        + "**. Ping involved people once again."@
}

/// `names` are the texts of `keys`, in order.
pub open spec fn names_are(names: Seq<String>, keys: Seq<Seq<char>>) -> bool {
    names.len() == keys.len() && forall|i: int|
        0 <= i < names.len() ==> (#[trigger] names[i])@ == keys[i]
}

/// How one step of the resolution job ends, given its metadata and what
/// is known of its issue.
///
/// Metadata that cannot be read is a failure. Otherwise the issue is
/// fetched first. An issue that cannot be fetched ends the job quietly. For
/// a fetched issue the participants of its ballot, in sorted order, are
/// pinged with the resolution from the metadata; an issue without a ballot
/// is a failure.
pub open spec fn resolution_outcome(
    ctx: Context,
    metadata: serde_json::Value,
    fetched: IssueAnswer,
    r: Result<JobAction, WorkflowError>,
) -> bool {
    let members = json_text_members(metadata);
    if !decodable(members) {
        r matches Err(WorkflowError::InvalidMetadata)
    } else {
        match fetched {
            IssueAnswer::NotAsked => r matches Ok(JobAction::FetchIssue(url)) && url@
                == members["get_issue_url"@],
            IssueAnswer::Failed => r matches Ok(JobAction::Nothing),
            IssueAnswer::Found(issue) => if ctx.decisions@.contains_key(issue) {
                &&& r matches Ok(JobAction::Ping { issue_number, users, message })
                &&& issue_number == issue
                &&& names_are(users@, ctx.decisions@[issue].current.keys())
                &&& message@ == ping_text(resolution_named(members["status"@])->0)
            } else {
                r matches Err(WorkflowError::Store(StoreError::NotFound))
            },
        }
    }
}

impl DecisionProcessJob {
    /// The name under which the job is scheduled and dispatched.
    pub fn name(&self) -> (name: &'static str)
        ensures
            name@ == decision_job_name(),
    {
        "decision_process_action"
    }

    /// One step of the job. The caller starts with the issue not asked
    /// for, fetches it when told to, and comes back with what it got.
    pub fn run(&self, ctx: &Context, metadata: &serde_json::Value, fetched: &IssueAnswer) -> (r:
        Result<JobAction, WorkflowError>)
        ensures
            resolution_outcome(*ctx, *metadata, *fetched, r),
    {
        let metadata = match DecisionProcessActionMetadata::from_value(metadata) {
            Ok(metadata) => metadata,
            Err(error) => {
                return Err(error);
            },
        };
        match fetched {
            IssueAnswer::NotAsked => Ok(JobAction::FetchIssue(metadata.get_issue_url)),
            IssueAnswer::Failed => Ok(JobAction::Nothing),
            IssueAnswer::Found(issue) => {
                let state = match get_issue_decision_state(&ctx.decisions, issue) {
                    Ok(state) => state,
                    Err(error) => {
                        return Err(WorkflowError::Store(error));
                    },
                };
                let users = state.current.key_list();
                let mut message = String::from_str(
                    "The final comment period has resolved, with a decision to **",
                );
                message.append(metadata.status.name());
                message.append("**. Ping involved people once again.");
                Ok(JobAction::Ping { issue_number: *issue, users, message })
            },
        }
    }
}

/// Length of the decision period in days.
pub const DECISION_PERIOD_DAYS: i32 = 10;

/// What the comment that carries a vote command tells about itself.
#[derive(Debug)]
pub struct CommentEvent {
    pub issue_number: u64,
    /// Address of the repository that the issue belongs to.
    pub repository_url: String,
    /// Who wrote the comment.
    pub user_login: String,
    /// Link to the comment.
    pub html_url: String,
    pub comment_body: String,
}

/// What is known of whether the commenter belongs to a team.
#[derive(Clone, Copy, Debug, PartialEq, Eq, Structural)]
pub enum MembershipAnswer {
    /// Nobody has asked yet.
    NotAsked,
    /// The question could not be answered; counts as no.
    Failed,
    No,
    Yes,
}

/// What is known of the team that the command names.
#[derive(Debug)]
pub enum TeamAnswer {
    /// Nobody has asked yet.
    NotAsked,
    /// The directory could not be read.
    Failed,
    NoSuchTeam,
    /// The team, by the names of its members.
    Found(Vec<String>),
}

/// What the outside world has answered so far while a command is handled.
#[derive(Debug)]
pub struct Lookups {
    pub membership: MembershipAnswer,
    pub team: TeamAnswer,
}

/// What the caller is to do next for a command.
#[derive(Debug)]
pub enum CommandAction {
    /// Find out whether the commenter is a team member, then come back.
    CheckMembership,
    /// Look this team up, then come back.
    ResolveTeam(String),
    /// Answer with this comment; the command is done.
    Reject(String),
    /// The ballot is open: post the status table and label the issue.
    Announce { comment: String, label: String },
}

/// The answer to a vote on an issue that already has a ballot.
pub open spec fn unsupported_text() -> Seq<char> {
    "We don't support having more than one vote yet. Coming soon :)"@
}

/// The answer to a vote from somebody who is not known to be a member.
pub open spec fn not_member_text() -> Seq<char> {
    "Only team members can be part of the decision process."@
}

/// The answer to an opening vote that names no team.
pub open spec fn team_needed_text() -> Seq<char> {
    "In the first vote, is necessary to specify the team name that will be involved in the decision process."@
}

/// The answer to an opening vote whose team cannot be found.
pub open spec fn unknown_team_text() -> Seq<char> {
    "Failed to resolve to a known team."@
}

/// The message that the resolution job carries.
pub open spec fn resolution_message() -> Seq<char> {
    "some message"@
}

/// The command was answered with the comment `text`.
pub open spec fn rejected(r: Result<CommandAction, WorkflowError>, text: Seq<char>) -> bool {
    r matches Ok(CommandAction::Reject(comment)) && comment@ == text
}

/// `name` is the commenter or one of the first `n` names of the roster.
pub open spec fn takes_part(roster: Seq<String>, n: int, user: Seq<char>, name: Seq<char>) -> bool {
    name == user || exists|i: int| 0 <= i < n && (#[trigger] roster[i])@ == name
}

/// The vote that the command casts.
pub open spec fn cast_vote(event: CommentEvent, cmd: DecisionCommand) -> UserStatus {
    UserStatus { comment_id: event.html_url, text: event.comment_body, resolution: cmd.resolution }
}

/// When the decision period that starts at `now` ends: ten days later.
pub open spec fn period_end(now: Timestamp) -> Timestamp {
    Timestamp {
        secs: shifted_secs(now, DECISION_PERIOD_DAYS * DAY_IN_SECONDS, 0) as i64,
        nanos: shifted_nanos(now, 0) as u32,
    }
}

/// The decision period that starts at `now` has an end that an instant can
/// hold.
pub open spec fn period_fits(now: Timestamp) -> bool {
    shifted_secs(now, DECISION_PERIOD_DAYS * DAY_IN_SECONDS, 0) <= i64::MAX
}

/// `state` is the ballot that the command opens at `now` for the team
/// `roster`: every member of the roster takes part without a vote, the
/// commenter with the vote just cast, and nobody has a history yet.
pub open spec fn opens_ballot(
    state: IssueDecisionState,
    event: CommentEvent,
    cmd: DecisionCommand,
    roster: Seq<String>,
    now: Timestamp,
) -> bool {
    &&& state.issue_id == event.issue_number
    &&& state.initiator@ == event.user_login@
    &&& state.start_date == now
    &&& state.end_date == period_end(now)
    &&& state.wf()
    &&& state.consistent()
    &&& forall|name: Seq<char>|
        state.current@.contains_key(name) <==> takes_part(
            roster,
            roster.len() as int,
            event.user_login@,
            name,
        )
    &&& forall|name: Seq<char>|
        state.history@.contains_key(name) <==> takes_part(
            roster,
            roster.len() as int,
            event.user_login@,
            name,
        )
    &&& forall|name: Seq<char>| #[trigger]
        state.current@.contains_key(name) ==> state.current@[name] == (if name
            == event.user_login@ {
            Some(cast_vote(event, cmd))
        } else {
            None
        })
    &&& forall|name: Seq<char>| #[trigger]
        state.history@.contains_key(name) ==> state.history@[name]@.len() == 0
}

/// Where the issue of the command can be fetched.
pub open spec fn issue_url(event: CommentEvent) -> Seq<char> {
    event.repository_url@ + "/issues/"@ + decimal(event.issue_number as nat)
}

/// `job` is the resolution job of the ballot that the command opens at
/// `now`, under the identifier `id`: it runs once, when the period ends.
pub open spec fn resolves_ballot(
    job: Job,
    id: u128,
    event: CommentEvent,
    cmd: DecisionCommand,
    now: Timestamp,
) -> bool {
    &&& job.id == id
    &&& job.name@ == decision_job_name()
    &&& job.job_type == JobType::SingleExecution
    &&& job.expected_time == period_end(now)
    &&& job.cron_period is None
    &&& job.cron_unit is None
    &&& job.executed_at is None
    &&& job.error_message is None
    &&& json_is_object(job.metadata)
    &&& json_text_members(job.metadata) == resolution_members(event, cmd)
    &&& json_keys(job.metadata) == resolution_members(event, cmd).dom()
}

/// The members of the metadata of the resolution job: its message, where
/// the issue can be fetched, and the resolution that the ballot was opened
/// with.
pub open spec fn resolution_members(event: CommentEvent, cmd: DecisionCommand) -> Map<
    Seq<char>,
    Seq<char>,
> {
    Map::<Seq<char>, Seq<char>>::empty().insert("message"@, resolution_message()).insert(
        "get_issue_url"@,
        issue_url(event),
    ).insert("status"@, resolution_name(cmd.resolution))
}

/// Neither table has changed.
pub open spec fn untouched(before: Context, after: Context) -> bool {
    after.decisions@ == before.decisions@ && after.jobs@ == before.jobs@
}

/// The resolution job cannot be scheduled under the identifier `id`: it
/// would be a new job, and `id` is taken.
pub open spec fn job_id_clash(jobs: Seq<Job>, id: u128, now: Timestamp) -> bool {
    !slot_taken(jobs, decision_job_name(), period_end(now)) && id_taken(jobs, id)
}

/// The ballot was opened: it is filed, its resolution job is scheduled,
/// and the status table and the label are handed out for posting.
pub open spec fn ballot_opened(
    before: Context,
    event: CommentEvent,
    cmd: DecisionCommand,
    roster: Seq<String>,
    now: Timestamp,
    id: u128,
    r: Result<CommandAction, WorkflowError>,
    after: Context,
) -> bool {
    &&& after.decisions@.contains_key(event.issue_number)
    &&& after.decisions@.remove(event.issue_number) == before.decisions@
    &&& opens_ballot(after.decisions@[event.issue_number], event, cmd, roster, now)
    &&& exists|job: Job| #[trigger]
        resolves_ballot(job, id, event, cmd, now) && upserted(before.jobs@, job) == Ok::<
            Seq<Job>,
            StoreError,
        >(after.jobs@)
    &&& r matches Ok(CommandAction::Announce { comment, label })
    &&& r->Ok_0->comment@ == status_table(
        after.decisions@[event.issue_number].history,
        after.decisions@[event.issue_number].current,
    )
    &&& r->Ok_0->label@ == resolution_name(cmd.resolution)
}

/// How one step of a command ends, given what the outside world has
/// answered so far and the identifier `id` for a new job.
///
/// The rules are tried in this order: an issue that has a ballot gets no
/// second one; only a team member may open one; the opening vote must name
/// the team; the team must be known. Each of these ends the command with a
/// comment and leaves the tables alone. Where an answer is still missing,
/// the caller is asked for it. With all of them in hand the ballot is
/// opened, together with its resolution job or not at all: a decision
/// period whose end cannot be represented, or an identifier that is taken,
/// fails the command and leaves the tables alone.
pub open spec fn command_outcome(
    before: Context,
    event: CommentEvent,
    cmd: DecisionCommand,
    lookups: Lookups,
    now: Timestamp,
    id: u128,
    r: Result<CommandAction, WorkflowError>,
    after: Context,
) -> bool {
    if before.decisions@.contains_key(event.issue_number) {
        rejected(r, unsupported_text()) && untouched(before, after)
    } else if lookups.membership is NotAsked {
        r matches Ok(CommandAction::CheckMembership) && untouched(before, after)
    } else if !(lookups.membership is Yes) {
        rejected(r, not_member_text()) && untouched(before, after)
    } else if cmd.team is None {
        rejected(r, team_needed_text()) && untouched(before, after)
    } else if lookups.team is NotAsked {
        &&& r matches Ok(CommandAction::ResolveTeam(team))
        &&& team@ == cmd.team->0@
        &&& untouched(before, after)
    } else if !(lookups.team is Found) {
        rejected(r, unknown_team_text()) && untouched(before, after)
    } else if !period_fits(now) {
        r matches Err(WorkflowError::TimeOutOfRange) && untouched(before, after)
    } else if job_id_clash(before.jobs@, id, now) {
        r matches Err(WorkflowError::Store(StoreError::DuplicateJobId)) && untouched(before, after)
    } else {
        ballot_opened(before, event, cmd, lookups.team->Found_0@, now, id, r, after)
    }
}

fn reject(text: &str) -> (r: Result<CommandAction, WorkflowError>)
    ensures
        rejected(r, text@),
{
    Ok(CommandAction::Reject(String::from_str(text)))
}

/// The vote maps of a new ballot: every member of the roster without a
/// vote, the commenter with `vote`, and an empty history for each of them.
fn open_vote_maps(roster: &Vec<String>, user: &String, vote: UserStatus) -> (maps: (
    UserMap<Option<UserStatus>>,
    UserMap<Vec<UserStatus>>,
))
    ensures
        maps.0.wf(),
        maps.1.wf(),
        forall|name: Seq<char>|
            maps.0@.contains_key(name) <==> takes_part(roster@, roster@.len() as int, user@, name),
        forall|name: Seq<char>|
            maps.1@.contains_key(name) <==> takes_part(roster@, roster@.len() as int, user@, name),
        forall|name: Seq<char>| #[trigger]
            maps.0@.contains_key(name) ==> maps.0@[name] == (if name == user@ {
                Some(vote)
            } else {
                None
            }),
        forall|name: Seq<char>| #[trigger]
            maps.1@.contains_key(name) ==> maps.1@[name]@.len() == 0,
{
    let mut current: UserMap<Option<UserStatus>> = UserMap::new();
    let mut history: UserMap<Vec<UserStatus>> = UserMap::new();
    let n: usize = roster.len();
    let mut i: usize = 0;
    while i < n
        invariant
            n == roster@.len(),
            0 <= i <= n,
            current.wf(),
            history.wf(),
            forall|name: Seq<char>|
                current@.contains_key(name) <==> exists|j: int|
                    0 <= j < i && (#[trigger] roster@[j])@ == name,
            forall|name: Seq<char>|
                history@.contains_key(name) <==> exists|j: int|
                    0 <= j < i && (#[trigger] roster@[j])@ == name,
            forall|name: Seq<char>| #[trigger]
                current@.contains_key(name) ==> current@[name] is None,
            forall|name: Seq<char>| #[trigger]
                history@.contains_key(name) ==> history@[name]@.len() == 0,
        decreases n - i,
    {
        let ghost member = roster@[i as int]@;
        let ghost current_before = current@;
        let ghost history_before = history@;
        current.insert(roster[i].clone(), None);
        history.insert(roster[i].clone(), Vec::new());
        proof {
            assert forall|name: Seq<char>| current@.contains_key(name) <==> exists|j: int|
                0 <= j < i + 1 && (#[trigger] roster@[j])@ == name by {
                if current@.contains_key(name) {
                    if name == member {
                        assert(roster@[i as int]@ == name);
                    } else {
                        assert(current_before.contains_key(name));
                    }
                }
                if exists|j: int| 0 <= j < i + 1 && (#[trigger] roster@[j])@ == name {
                    let j = choose|j: int| 0 <= j < i + 1 && (#[trigger] roster@[j])@ == name;
                    if j < i {
                        assert(current_before.contains_key(name));
                    }
                }
            }
            assert forall|name: Seq<char>| history@.contains_key(name) <==> exists|j: int|
                0 <= j < i + 1 && (#[trigger] roster@[j])@ == name by {
                if history@.contains_key(name) {
                    if name == member {
                        assert(roster@[i as int]@ == name);
                    } else {
                        assert(history_before.contains_key(name));
                    }
                }
                if exists|j: int| 0 <= j < i + 1 && (#[trigger] roster@[j])@ == name {
                    let j = choose|j: int| 0 <= j < i + 1 && (#[trigger] roster@[j])@ == name;
                    if j < i {
                        assert(history_before.contains_key(name));
                    }
                }
            }
        }
        i = i + 1;
    }
    let ghost current_before = current@;
    let ghost history_before = history@;
    current.insert(user.clone(), Some(vote));
    history.insert(user.clone(), Vec::new());
    proof {
        assert forall|name: Seq<char>| current@.contains_key(name) <==> takes_part(
            roster@,
            roster@.len() as int,
            user@,
            name,
        ) by {
            if current@.contains_key(name) && name != user@ {
                assert(current_before.contains_key(name));
            }
            if name != user@ && takes_part(roster@, roster@.len() as int, user@, name) {
                assert(current_before.contains_key(name));
            }
        }
        assert forall|name: Seq<char>| history@.contains_key(name) <==> takes_part(
            roster@,
            roster@.len() as int,
            user@,
            name,
        ) by {
            if history@.contains_key(name) && name != user@ {
                assert(history_before.contains_key(name));
            }
            if name != user@ && takes_part(roster@, roster@.len() as int, user@, name) {
                assert(history_before.contains_key(name));
            }
        }
        assert forall|name: Seq<char>| #[trigger] current@.contains_key(name) implies current@[name]
            == (if name == user@ {
            Some(vote)
        } else {
            None::<UserStatus>
        }) by {
            if name != user@ {
                assert(current_before.contains_key(name));
            }
        }
    }
    (current, history)
}

/// One step of the handling of a vote command, with `id` as the identifier
/// for the resolution job should one be scheduled.
///
/// The caller starts with nothing looked up, does what the returned action
/// asks, records the answer in `lookups` and comes back, until the action
/// is a comment to post or the announcement of the opened ballot.
pub fn handle_command_with_id(
    ctx: &mut Context,
    event: &CommentEvent,
    cmd: &DecisionCommand,
    lookups: &Lookups,
    now: &Timestamp,
    id: u128,
) -> (r: Result<CommandAction, WorkflowError>)
    ensures
        command_outcome(*old(ctx), *event, *cmd, *lookups, *now, id, r, *final(ctx)),
        old(ctx).decisions@.contains_key(event.issue_number) ==> rejected(r, unsupported_text())
            && untouched(*old(ctx), *final(ctx)),
        !(lookups.membership is Yes) ==> untouched(*old(ctx), *final(ctx)),
        !(r matches Ok(CommandAction::Announce { .. })) ==> untouched(*old(ctx), *final(ctx)),
{
    if get_issue_decision_state(&ctx.decisions, &event.issue_number).is_ok() {
        return reject("We don't support having more than one vote yet. Coming soon :)");
    }
    match lookups.membership {
        MembershipAnswer::NotAsked => {
            return Ok(CommandAction::CheckMembership);
        },
        MembershipAnswer::Yes => {},
        _ => {
            return reject("Only team members can be part of the decision process.");
        },
    }
    let team_name = match &cmd.team {
        Some(team_name) => team_name,
        None => {
            return reject(
                "In the first vote, is necessary to specify the team name that will be involved in the decision process.",
            );
        },
    };
    let roster = match &lookups.team {
        TeamAnswer::NotAsked => {
            return Ok(CommandAction::ResolveTeam(team_name.clone()));
        },
        TeamAnswer::Found(roster) => roster,
        _ => {
            return reject("Failed to resolve to a known team.");
        },
    };
    let start_date = *now;
    let period = get_duration_from_cron(DECISION_PERIOD_DAYS, &CronUnit::Day);
    let end_date = match start_date.checked_add_signed(&period) {
        Some(end_date) => end_date,
        None => {
            return Err(WorkflowError::TimeOutOfRange);
        },
    };
    let name = String::from_str(DecisionProcessJob.name());
    if ctx.jobs.find_slot(name.as_str(), &end_date).is_none() && ctx.jobs.find_id(id).is_some() {
        return Err(WorkflowError::Store(StoreError::DuplicateJobId));
    }
    let vote = UserStatus {
        comment_id: event.html_url.clone(),
        text: event.comment_body.clone(),
        resolution: cmd.resolution,
    };
    let (current, history) = open_vote_maps(roster, &event.user_login, vote);
    let ghost before = *ctx;
    // From here on nothing fails: the issue has no ballot, and the job
    // table takes the resolution job. The error arms below are never taken.
    match insert_issue_decision_state(
        &mut ctx.decisions,
        &event.issue_number,
        &event.user_login,
        &start_date,
        &end_date,
        current,
        history,
    ) {
        Ok(()) => {},
        Err(error) => {
            return Err(WorkflowError::Store(error));
        },
    }
    proof {
        let state = ctx.decisions@[event.issue_number];
        assert(ctx.decisions@.remove(event.issue_number) =~= before.decisions@);
        assert(opens_ballot(state, *event, *cmd, roster@, *now));
    }
    let mut get_issue_url = event.repository_url.clone();
    get_issue_url.append("/issues/");
    let number = decimal_string(event.issue_number);
    get_issue_url.append(number.as_str());
    let metadata = DecisionProcessActionMetadata {
        message: String::from_str("some message"),
        get_issue_url,
        status: cmd.resolution,
    };
    let value = metadata.to_value();
    let ghost job = crate::db::jobs::requested_job(
        id,
        name,
        JobType::SingleExecution,
        end_date,
        None,
        None,
        value,
    );
    assert(resolves_ballot(job, id, *event, *cmd, *now));
    let scheduled = insert_job_with_id(
        &mut ctx.jobs,
        id,
        &name,
        &JobType::SingleExecution,
        &end_date,
        &None,
        &None,
        &value,
    );
    match scheduled {
        Ok(()) => {},
        Err(error) => {
            return Err(WorkflowError::Store(error));
        },
    }
    assert(upserted(before.jobs@, job) == Ok::<Seq<Job>, StoreError>(ctx.jobs@));
    let state = match get_issue_decision_state(&ctx.decisions, &event.issue_number) {
        Ok(state) => state,
        Err(error) => {
            return Err(WorkflowError::Store(error));
        },
    };
    let comment = match build_status_comment(&state.history, &state.current) {
        Ok(comment) => comment,
        Err(error) => {
            proof {
                let i = choose|i: int|
                    first_without_history(state.history@, state.current.keys(), i);
                state.current.lemma_view(state.current.keys()[i]);
            }
            return Err(error);
        },
    };
    let label = String::from_str(cmd.resolution.name());
    Ok(CommandAction::Announce { comment, label })
}

/// Nothing stands between the command and the opening of a ballot: the
/// issue has none, the commenter is a member, the team is named and known,
/// and the decision period has an end.
pub open spec fn ready_to_open(
    ctx: Context,
    event: CommentEvent,
    cmd: DecisionCommand,
    lookups: Lookups,
    now: Timestamp,
) -> bool {
    &&& !ctx.decisions@.contains_key(event.issue_number)
    &&& lookups.membership is Yes
    &&& cmd.team is Some
    &&& lookups.team is Found
    &&& period_fits(now)
}

/// Whether this step of the command would open a ballot, and so needs an
/// identifier for the resolution job.
pub fn is_ready_to_open(
    ctx: &Context,
    event: &CommentEvent,
    cmd: &DecisionCommand,
    lookups: &Lookups,
    now: &Timestamp,
) -> (r: bool)
    ensures
        r == ready_to_open(*ctx, *event, *cmd, *lookups, *now),
{
    if get_issue_decision_state(&ctx.decisions, &event.issue_number).is_ok() {
        return false;
    }
    match lookups.membership {
        MembershipAnswer::Yes => {},
        _ => {
            return false;
        },
    }
    if cmd.team.is_none() {
        return false;
    }
    match &lookups.team {
        TeamAnswer::Found(_) => {},
        _ => {
            return false;
        },
    }
    let period = get_duration_from_cron(DECISION_PERIOD_DAYS, &CronUnit::Day);
    now.checked_add_signed(&period).is_some()
}

/// One step of the handling of a vote command.
///
/// The caller starts with nothing looked up, does what the returned action
/// asks, records the answer in `lookups` and comes back, until the action
/// is a comment to post or the announcement of the opened ballot. A
/// resolution job that is scheduled gets a random identifier, which is
/// drawn only when a ballot is about to be opened.
///
/// An issue that has a ballot never gets a second one and is always
/// answered with the same comment. Nothing is stored unless the commenter
/// is known to be a team member, and nothing is stored by a step that does
/// not end in the announcement.
pub fn handle_command(
    ctx: &mut Context,
    event: &CommentEvent,
    cmd: &DecisionCommand,
    lookups: &Lookups,
    now: &Timestamp,
) -> (r: Result<CommandAction, WorkflowError>)
    ensures
        exists|id: u128| #[trigger]
            command_outcome(*old(ctx), *event, *cmd, *lookups, *now, id, r, *final(ctx)),
        old(ctx).decisions@.contains_key(event.issue_number) ==> rejected(r, unsupported_text())
            && untouched(*old(ctx), *final(ctx)),
        !(lookups.membership is Yes) ==> untouched(*old(ctx), *final(ctx)),
        !(r matches Ok(CommandAction::Announce { .. })) ==> untouched(*old(ctx), *final(ctx)),
{
    let id: u128 = if is_ready_to_open(ctx, event, cmd, lookups, now) {
        random_job_id()
    } else {
        0
    };
    handle_command_with_id(ctx, event, cmd, lookups, now, id)
}

} // verus!
