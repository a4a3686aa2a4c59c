//! Which users were active in which projects.

use vstd::prelude::*;

use crate::collab::ids::{ProjectId, UserId};
use crate::collab::moment::{is_later, unix_nanos};
use crate::sequences::{joins, lemma_joined_at, lemma_joined_len, lemma_rank_ends};
use crate::sequences::{piece_len, rank, total};

verus! {

/// Someone who takes part in a project, and when they last did something in it.
#[derive(Clone, Copy, Debug)]
pub struct Participant {
    pub user_id: UserId,
    pub admin: bool,
    pub last_activity: Option<time::OffsetDateTime>,
}

/// A project with its guests and its host.
#[derive(Debug)]
pub struct ProjectActivity {
    pub id: ProjectId,
    pub guests: Vec<Participant>,
    pub host: Participant,
}

/// Whether someone counts as active since `period_start`: they did something later than that,
/// and are no administrator.
pub open spec fn is_active(participant: Participant, period_start: time::OffsetDateTime) -> bool {
    &&& !participant.admin
    &&& participant.last_activity matches Some(activity)
    &&& unix_nanos(activity) > unix_nanos(period_start)
}

/// Those of some participants of a project who were active since `period_start`.
pub open spec fn active_in(
    participants: Seq<Participant>,
    project_id: ProjectId,
    period_start: time::OffsetDateTime,
) -> Seq<(UserId, ProjectId)>
    decreases participants.len(),
{
    if participants.len() == 0 {
        Seq::empty()
    } else {
        let rest = active_in(participants.drop_last(), project_id, period_start);
        if is_active(participants.last(), period_start) {
            rest.push((participants.last().user_id, project_id))
        } else {
            rest
        }
    }
}

/// Those who were active since `period_start` in some projects, project by project: the
/// guests, and then the host.
pub open spec fn active_in_all(
    projects: Seq<ProjectActivity>,
    period_start: time::OffsetDateTime,
) -> Seq<(UserId, ProjectId)>
    decreases projects.len(),
{
    if projects.len() == 0 {
        Seq::empty()
    } else {
        active_in_all(projects.drop_last(), period_start) + active_in(
            projects.last().guests@.push(projects.last().host),
            projects.last().id,
            period_start,
        )
    }
}

/// Whether the participant of a project at `index`, the host being the last, counts as active
/// since `period_start`, and is the one who was recorded for it.
pub open spec fn is_active_member(
    project: ProjectActivity,
    index: int,
    period_start: time::OffsetDateTime,
    recorded: (UserId, ProjectId),
) -> bool {
    let everyone = project.guests@.push(project.host);
    &&& 0 <= index < everyone.len()
    &&& everyone[index].user_id == recorded.0
    &&& project.id == recorded.1
    &&& is_active(everyone[index], period_start)
}

/// Whether someone counts as active since `period_start`.
fn was_active(participant: &Participant, period_start: &time::OffsetDateTime) -> (active: bool)
    ensures
        active == is_active(*participant, *period_start),
{
    if participant.admin {
        return false;
    }
    match &participant.last_activity {
        Some(activity) => is_later(activity, period_start),
        None => false,
    }
}

/// Those who were active since `period_start`, with the projects in which they were.
pub fn active_projects(
    projects: &[ProjectActivity],
    period_start: &time::OffsetDateTime,
) -> (active: Vec<(UserId, ProjectId)>)
    ensures
        active@ == active_in_all(projects@, *period_start),
{
    let mut active: Vec<(UserId, ProjectId)> = Vec::new();
    let mut index: usize = 0;
    assert(projects@.take(0) =~= Seq::<ProjectActivity>::empty());
    while index < projects.len()
        invariant
            index <= projects@.len(),
            active@ == active_in_all(projects@.take(index as int), *period_start),
        decreases projects@.len() - index,
    {
        let project: &ProjectActivity = &projects[index];
        let ghost before = active@;
        let ghost everyone = project.guests@.push(project.host);
        assert(projects@.take(index + 1).drop_last() =~= projects@.take(index as int));
        let mut guest: usize = 0;
        assert(everyone.take(0) =~= Seq::<Participant>::empty());
        assert(active@ =~= before + active_in(everyone.take(0), project.id, *period_start));
        while guest < project.guests.len()
            invariant
                guest <= project.guests@.len(),
                everyone == project.guests@.push(project.host),
                active@ == before + active_in(
                    everyone.take(guest as int),
                    project.id,
                    *period_start,
                ),
            decreases project.guests@.len() - guest,
        {
            assert(everyone.take(guest + 1).drop_last() =~= everyone.take(guest as int));
            assert(everyone.take(guest + 1).last() == project.guests@[guest as int]);
            if was_active(&project.guests[guest], period_start) {
                active.push((project.guests[guest].user_id, project.id));
            }
            guest += 1;
            assert(active@ =~= before + active_in(
                everyone.take(guest as int),
                project.id,
                *period_start,
            ));
        }
        assert(everyone.drop_last() =~= everyone.take(guest as int));
        if was_active(&project.host, period_start) {
            active.push((project.host.user_id, project.id));
        }
        index += 1;
        assert(active@ =~= active_in_all(projects@.take(index as int), *period_start));
    }
    assert(projects@.take(index as int) =~= projects@);
    active
}

/// The period for which activity is recorded next.
#[derive(Debug)]
pub struct ActivityRecorder {
    period_start: time::OffsetDateTime,
}

impl ActivityRecorder {
    /// When the period began.
    pub closed spec fn start(self) -> time::OffsetDateTime {
        self.period_start
    }

    /// A recorder whose first period begins at `now`.
    pub fn new(now: time::OffsetDateTime) -> (recorder: ActivityRecorder)
        ensures
            recorder.start() == now,
    {
        ActivityRecorder { period_start: now }
    }

    /// Those who were active in the current period.
    pub fn active(&self, projects: &[ProjectActivity]) -> (active: Vec<(UserId, ProjectId)>)
        ensures
            active@ == active_in_all(projects@, self.start()),
    {
        active_projects(projects, &self.period_start)
    }

    /// Ends the current period at `period_end`, when the next one begins, and returns both ends
    /// of the one that is over.
    pub fn end_period(&mut self, period_end: time::OffsetDateTime) -> (period: (
        time::OffsetDateTime,
        time::OffsetDateTime,
    ))
        ensures
            period == (old(self).start(), period_end),
            final(self).start() == period_end,
    {
        let period_start: time::OffsetDateTime = self.period_start;
        self.period_start = period_end;
        (period_start, period_end)
    }
}

/// How far recording has come.
#[derive(Clone, Copy, Debug, PartialEq, Eq, Structural)]
pub enum RecordingPhase {
    /// An interval has to pass.
    Sleeping,
    /// Those who were active have to be recorded, and the period ends.
    Recording,
    /// Nothing is recorded any more.
    Over,
}

/// What recording waits for.
#[derive(Clone, Copy, Debug, PartialEq, Eq, Structural)]
pub enum RecordingEvent {
    /// An interval has passed, and the server is still there or not.
    Tick { server_is_alive: bool },
    /// Those who were active were recorded, or that failed. A failure is written to the log.
    Recorded { failed: bool },
}

/// How recording goes on. It ends when the server is gone, and a failure does not end it. What it
/// does not wait for changes nothing.
pub open spec fn recording_next(phase: RecordingPhase, event: RecordingEvent) -> RecordingPhase {
    match (phase, event) {
        (RecordingPhase::Sleeping, RecordingEvent::Tick { server_is_alive }) => if server_is_alive {
            RecordingPhase::Recording
        } else {
            RecordingPhase::Over
        },
        (RecordingPhase::Recording, RecordingEvent::Recorded { .. }) => RecordingPhase::Sleeping,
        _ => phase,
    }
}

/// How recording goes on.
pub fn advance_recording(phase: RecordingPhase, event: RecordingEvent) -> (next: RecordingPhase)
    ensures
        next == recording_next(phase, event),
{
    match (phase, event) {
        (RecordingPhase::Sleeping, RecordingEvent::Tick { server_is_alive }) => if server_is_alive {
            RecordingPhase::Recording
        } else {
            RecordingPhase::Over
        },
        (RecordingPhase::Recording, RecordingEvent::Recorded { failed: _ }) => {
            RecordingPhase::Sleeping
        },
        (phase, _) => phase,
    }
}

/// How far recording has come after some events.
pub open spec fn recording_after(events: Seq<RecordingEvent>) -> RecordingPhase
    decreases events.len(),
{
    if events.len() == 0 {
        RecordingPhase::Sleeping
    } else {
        recording_next(recording_after(events.drop_last()), events.last())
    }
}

/// Recording goes on as long as the server is there, whatever fails.
pub proof fn law_recording_outlives_failures(events: Seq<RecordingEvent>)
    requires
        forall|index: int|
            0 <= index < events.len() ==> (#[trigger] events[index] matches RecordingEvent::Tick {
                server_is_alive,
            } ==> server_is_alive),
    ensures
        !(recording_after(events) is Over),
    decreases events.len(),
{
    if events.len() > 0 {
        let rest = events.drop_last();
        assert forall|index: int| 0 <= index < rest.len() implies (
        #[trigger] rest[index] matches RecordingEvent::Tick { server_is_alive }
            ==> server_is_alive) by {
            assert(rest[index] == events[index]);
        }
        law_recording_outlives_failures(rest);
        assert(events.last() == events[events.len() - 1]);
    }
}

/// At the first tick after the server is gone recording ends, and nothing starts it again.
pub proof fn law_recording_ends_with_the_server(
    phase: RecordingPhase,
    later: RecordingEvent,
)
    requires
        phase is Sleeping || phase is Over,
    ensures
        recording_next(phase, RecordingEvent::Tick { server_is_alive: false }) is Over,
        recording_next(RecordingPhase::Over, later) is Over,
{
}

/// Those who take part in a project are recorded as active in it exactly if one of them with
/// that identity did something in the period and is no administrator.
pub proof fn law_active_participants_are_recorded(
    participants: Seq<Participant>,
    project_id: ProjectId,
    period_start: time::OffsetDateTime,
    user_id: UserId,
)
    ensures
        active_in(participants, project_id, period_start).contains((user_id, project_id)) == (
        exists|index: int|
            0 <= index < participants.len() && (#[trigger] participants[index]).user_id == user_id
                && is_active(participants[index], period_start)),
        forall|index: int|
            0 <= index < active_in(participants, project_id, period_start).len() ==> (
            #[trigger] active_in(participants, project_id, period_start)[index]).1 == project_id,
    decreases participants.len(),
{
    if participants.len() > 0 {
        let rest = participants.drop_last();
        let before = active_in(rest, project_id, period_start);
        let after = active_in(participants, project_id, period_start);
        law_active_participants_are_recorded(rest, project_id, period_start, user_id);
        if after.contains((user_id, project_id)) {
            let at = choose|at: int| 0 <= at < after.len() && after[at] == (user_id, project_id);
            if at < before.len() {
                assert(before[at] == (user_id, project_id));
                let index = choose|index: int|
                    0 <= index < rest.len() && (#[trigger] rest[index]).user_id == user_id
                        && is_active(rest[index], period_start);
                assert(participants[index] == rest[index]);
            } else {
                assert(participants[participants.len() - 1].user_id == user_id);
            }
        }
        assert forall|index: int|
            0 <= index < participants.len() && (#[trigger] participants[index]).user_id == user_id
                && is_active(participants[index], period_start) implies after.contains(
            (user_id, project_id),
        ) by {
            if index < rest.len() {
                assert(rest[index] == participants[index]);
                let at = choose|at: int|
                    0 <= at < before.len() && before[at] == (user_id, project_id);
                assert(after[at] == before[at]);
            } else {
                assert(after.last() == (user_id, project_id));
            }
        }
    }
}

/// No administrator is ever recorded as active: whoever is recorded takes part in the project,
/// did something in the period, and is no administrator there.
pub proof fn law_administrators_are_not_recorded(
    projects: Seq<ProjectActivity>,
    period_start: time::OffsetDateTime,
    recorded: (UserId, ProjectId),
)
    requires
        active_in_all(projects, period_start).contains(recorded),
    ensures
        exists|project: int, index: int|
            0 <= project < projects.len() && #[trigger] is_active_member(
                projects[project],
                index,
                period_start,
                recorded,
            ),
    decreases projects.len(),
{
    if projects.len() > 0 {
        let rest = projects.drop_last();
        let last = projects.last();
        let before = active_in_all(rest, period_start);
        let everyone = last.guests@.push(last.host);
        let here = active_in(everyone, last.id, period_start);
        let all = active_in_all(projects, period_start);
        let at = choose|at: int| 0 <= at < all.len() && all[at] == recorded;
        if at < before.len() {
            assert(before[at] == recorded);
            law_administrators_are_not_recorded(rest, period_start, recorded);
            let (project, index) = choose|project: int, index: int|
                0 <= project < rest.len() && #[trigger] is_active_member(
                    rest[project],
                    index,
                    period_start,
                    recorded,
                );
            assert(is_active_member(projects[project], index, period_start, recorded));
        } else {
            assert(here[at - before.len()] == recorded);
            law_active_participants_are_recorded(everyone, last.id, period_start, recorded.0);
            assert(here.contains((recorded.0, last.id)));
            let index = choose|index: int|
                0 <= index < everyone.len() && (#[trigger] everyone[index]).user_id == recorded.0
                    && is_active(everyone[index], period_start);
            assert(is_active_member(projects[projects.len() - 1], index, period_start, recorded));
        }
    }
}

/// Whether someone did something later than `period_start`, and is no administrator.
pub open spec fn counts(participant: Participant, period_start: time::OffsetDateTime) -> bool {
    match participant.last_activity {
        Some(activity) => unix_nanos(period_start) < unix_nanos(activity) && !participant.admin,
        None => false,
    }
}

/// Everyone who takes part in a project, did something in the period and is no administrator is
/// recorded for that project, in order and as often as they are named; no one else is.
pub proof fn law_everyone_active_is_recorded_in_order(
    participants: Seq<Participant>,
    project_id: ProjectId,
    period_start: time::OffsetDateTime,
)
    ensures
        active_in(participants, project_id, period_start).len() == participants.filter(
            |participant: Participant| counts(participant, period_start),
        ).len(),
        forall|index: int|
            #![trigger participants[index]]
            0 <= index < participants.len() && counts(participants[index], period_start) ==> {
                let place = rank(
                    participants,
                    |participant: Participant| counts(participant, period_start),
                    index,
                );
                &&& place < active_in(participants, project_id, period_start).len()
                &&& active_in(participants, project_id, period_start)[place as int] == (
                    participants[index].user_id,
                    project_id,
                )
            },
    decreases participants.len(),
{
    reveal(Seq::filter);
    let wanted = |participant: Participant| counts(participant, period_start);
    if participants.len() > 0 {
        let rest = participants.drop_last();
        law_everyone_active_is_recorded_in_order(rest, project_id, period_start);
        lemma_rank_ends(rest, wanted);
        let all = active_in(participants, project_id, period_start);
        assert forall|index: int|
            #![trigger participants[index]]
            0 <= index < participants.len() && counts(participants[index], period_start) implies {
            let place = rank(participants, wanted, index);
            &&& place < all.len()
            &&& all[place as int] == (participants[index].user_id, project_id)
        } by {
            if index < rest.len() {
                assert(rest.take(index) =~= participants.take(index));
                assert(rest[index] == participants[index]);
            } else {
                assert(participants.take(index) =~= rest);
                assert(rest.take(index) =~= rest);
            }
        }
    }
}

/// How many of those in a project count, the host among them.
pub open spec fn active_count(
    project: ProjectActivity,
    period_start: time::OffsetDateTime,
) -> nat {
    project.guests@.push(project.host).filter(
        |participant: Participant| counts(participant, period_start),
    ).len()
}

/// In every project, everyone who did something in the period and is no administrator is recorded,
/// guests and host alike; no one else is.
pub proof fn law_every_project_is_recorded(
    projects: Seq<ProjectActivity>,
    period_start: time::OffsetDateTime,
)
    ensures
        active_in_all(projects, period_start).len() == total(
            projects,
            |project: ProjectActivity| active_count(project, period_start),
        ),
        forall|index: int, guest: int|
            #![trigger projects[index].guests@[guest]]
            0 <= index < projects.len() && 0 <= guest < projects[index].guests@.len() && counts(
                projects[index].guests@[guest],
                period_start,
            ) ==> active_in_all(projects, period_start).contains(
                (projects[index].guests@[guest].user_id, projects[index].id),
            ),
        forall|index: int|
            #![trigger projects[index]]
            0 <= index < projects.len() && counts(projects[index].host, period_start)
                ==> active_in_all(projects, period_start).contains(
                (projects[index].host.user_id, projects[index].id),
            ),
{
    let piece = |project: ProjectActivity|
        active_in(project.guests@.push(project.host), project.id, period_start);
    let joined = |some: Seq<ProjectActivity>| active_in_all(some, period_start);
    let size = |project: ProjectActivity| active_count(project, period_start);
    let wanted = |participant: Participant| counts(participant, period_start);
    let all = active_in_all(projects, period_start);
    assert(joins(piece, joined));
    lemma_joined_len(projects, piece, joined);
    assert forall|project: ProjectActivity| size(project) == #[trigger] piece_len(piece)(
        project,
    ) by {
        law_everyone_active_is_recorded_in_order(
            project.guests@.push(project.host),
            project.id,
            period_start,
        );
    }
    assert(size =~= piece_len(piece));
    assert forall|index: int, member: int|
        0 <= index < projects.len() && 0 <= member <= projects[index].guests@.len() && counts(
            #[trigger] projects[index].guests@.push(projects[index].host)[member],
            period_start,
        ) implies all.contains(
        (
            projects[index].guests@.push(projects[index].host)[member].user_id,
            projects[index].id,
        ),
    ) by {
        let everyone = projects[index].guests@.push(projects[index].host);
        law_everyone_active_is_recorded_in_order(everyone, projects[index].id, period_start);
        let at = rank(everyone, wanted, member) as int;
        lemma_joined_at(projects, piece, joined, index, at);
        assert(piece(projects[index])[at] == (everyone[member].user_id, projects[index].id));
    }
    assert forall|index: int, guest: int|
        #![trigger projects[index].guests@[guest]]
        0 <= index < projects.len() && 0 <= guest < projects[index].guests@.len() && counts(
            projects[index].guests@[guest],
            period_start,
        ) implies all.contains((projects[index].guests@[guest].user_id, projects[index].id)) by {
        let everyone = projects[index].guests@.push(projects[index].host);
        assert(everyone[guest] == projects[index].guests@[guest]);
    }
    assert forall|index: int|
        #![trigger projects[index]]
        0 <= index < projects.len() && counts(projects[index].host, period_start) implies all.contains(
        (projects[index].host.user_id, projects[index].id),
    ) by {
        let everyone = projects[index].guests@.push(projects[index].host);
        assert(everyone[projects[index].guests@.len() as int] == projects[index].host);
    }
}

/// Recording takes turns: after each interval in which the server is there those who were active are
/// recorded, and whether or not that fails the next interval begins.
pub proof fn law_recording_takes_turns(events: Seq<RecordingEvent>, failed: bool)
    requires
        recording_after(events) is Sleeping,
    ensures
        recording_after(events.push(RecordingEvent::Tick { server_is_alive: true })) is Recording,
        recording_after(
            events.push(RecordingEvent::Tick { server_is_alive: true }).push(
                RecordingEvent::Recorded { failed },
            ),
        ) is Sleeping,
{
    let ticked = events.push(RecordingEvent::Tick { server_is_alive: true });
    assert(ticked.drop_last() =~= events);
    assert(ticked.push(RecordingEvent::Recorded { failed }).drop_last() =~= ticked);
}

} // verus!
