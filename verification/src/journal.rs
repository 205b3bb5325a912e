//! What an operation adds to the event ledger and to the audit log.

use vstd::prelude::*;

use crate::json::{Json, JsonView};
use crate::text::opt_view;

verus! {

/// The events this daemon appends.
#[derive(Debug, Clone, Copy, PartialEq, Eq, Structural)]
pub enum EventKind {
    SubordinateRequested,
    SubordinateConfirmed,
    SubordinateDenied,
    SubordinateUncertain,
    SubordinateSettled,
    SubordinateReleased,
    EpisodePlaced,
    EpisodeAdmitted,
    EpisodeBound,
    EpisodeCheckpointed,
    EpisodeRebound,
    EpisodeReleased,
    EpisodeFenced,
    FormationPrepared,
    FormationSubmitting,
    FormationRemoteUnknown,
    FormationAwaitingPrincipal,
    FormationByomCommitted,
    FormationLinking,
    FormationLinked,
    FormationAmbiguous,
    FormationCanceled,
    GovernanceBindingsCreated,
    GovernanceActivated,
    GovernanceRolledBack,
    GovernanceDisabled,
    ModelEffectPrepared,
    ModelEffectAuthorized,
    ModelEffectDispatching,
    ModelEffectCompleted,
    ModelEffectAmbiguous,
    ModelEffectFailed,
    ModelEffectReconciled,
    ModelUsageReported,
    ProjectCreated,
    ProjectUpdated,
    SpaceCreated,
    SpaceUpdated,
    SpacePolicyNarrowed,
    SpaceFrozen,
    SpaceReopened,
    SpaceArchived,
    SpaceRestricted,
    PolicyChangePrepared,
    PolicyChangeConfirmed,
    PolicyChangeCanceled,
    WideningPrepared,
    WideningConfirmed,
    WideningCanceled,
    ContributionAppended,
    ContributionWithdrawn,
    ContributionSuperseded,
    ContributionRedacted,
    RelationRetracted,
    InvocationCreated,
    InvocationClaimed,
    InvocationCompleted,
    InvocationCanceled,
    AssistantCreated,
    RevisionRegistered,
    DeploymentCreated,
    DeploymentActivated,
    DeploymentDrained,
    AliasBound,
    AliasUpdated,
    AliasRevoked,
    ApplicationEvent,
}

/// Who an event is attributed to.
#[derive(Debug)]
pub enum Actor {
    Nobody,
    Owner,
    Broker,
    Named(String),
}

pub enum ActorView {
    Nobody,
    Owner,
    Broker,
    Named(Seq<char>),
}

impl View for Actor {
    type V = ActorView;

    open spec fn view(&self) -> ActorView {
        match self {
            Actor::Nobody => ActorView::Nobody,
            Actor::Owner => ActorView::Owner,
            Actor::Broker => ActorView::Broker,
            Actor::Named(s) => ActorView::Named(s@),
        }
    }
}

/// One event. An absent classification is the realm's default; an absent
/// payload is the whole record that the event is about, as it then stands.
/// The ledger appends an event marked `once` only where its stream has none of
/// its kind. A worker's own event has the name that the worker gave it.
#[derive(Debug)]
pub struct NewEvent {
    pub kind: EventKind,
    pub stream_id: String,
    pub project_id: Option<String>,
    pub actor: Actor,
    pub schema_ref: String,
    pub resource_ref: String,
    pub resource_revision: Option<u64>,
    pub causation_ref: Option<String>,
    pub correlation_ref: String,
    pub classification_ref: Option<String>,
    pub payload: Option<Json>,
    pub once: bool,
    pub named: Option<String>,
}

pub struct EventView {
    pub kind: EventKind,
    pub stream_id: Seq<char>,
    pub project_id: Option<Seq<char>>,
    pub actor: ActorView,
    pub schema_ref: Seq<char>,
    pub resource_ref: Seq<char>,
    pub resource_revision: Option<u64>,
    pub causation_ref: Option<Seq<char>>,
    pub correlation_ref: Seq<char>,
    pub classification_ref: Option<Seq<char>>,
    pub payload: Option<JsonView>,
    pub once: bool,
    pub named: Option<Seq<char>>,
}

impl View for NewEvent {
    type V = EventView;

    open spec fn view(&self) -> EventView {
        EventView {
            kind: self.kind,
            stream_id: self.stream_id@,
            project_id: opt_view(self.project_id),
            actor: self.actor@,
            schema_ref: self.schema_ref@,
            resource_ref: self.resource_ref@,
            resource_revision: self.resource_revision,
            causation_ref: opt_view(self.causation_ref),
            correlation_ref: self.correlation_ref@,
            classification_ref: opt_view(self.classification_ref),
            payload: match self.payload {
                Some(j) => Some(j@),
                None => None,
            },
            once: self.once,
            named: opt_view(self.named),
        }
    }
}

/// One line of the body-free audit log. The detail of a line about an event
/// ends with that event's type, which the ledger names; such a line is written
/// only with its event.
#[derive(Debug)]
pub struct AuditLine {
    pub event: String,
    pub detail: String,
    pub about: Option<EventKind>,
}

pub struct AuditView {
    pub event: Seq<char>,
    pub detail: Seq<char>,
    pub about: Option<EventKind>,
}

impl View for AuditLine {
    type V = AuditView;

    open spec fn view(&self) -> AuditView {
        AuditView { event: self.event@, detail: self.detail@, about: self.about }
    }
}

/// The events and audit lines of one or more operations, in order.
#[derive(Debug)]
pub struct Journal {
    pub events: Vec<NewEvent>,
    pub audits: Vec<AuditLine>,
}

pub struct JournalView {
    pub events: Seq<EventView>,
    pub audits: Seq<AuditView>,
}

impl View for Journal {
    type V = JournalView;

    open spec fn view(&self) -> JournalView {
        JournalView {
            events: Seq::new(self.events@.len(), |i: int| self.events@[i]@),
            audits: Seq::new(self.audits@.len(), |i: int| self.audits@[i]@),
        }
    }
}

impl JournalView {
    pub open spec fn with_event(self, e: EventView) -> JournalView {
        JournalView { events: self.events.push(e), audits: self.audits }
    }

    pub open spec fn with_audit(self, event: Seq<char>, detail: Seq<char>) -> JournalView {
        JournalView {
            events: self.events,
            audits: self.audits.push(AuditView { event, detail, about: None }),
        }
    }

    /// A transition: its event, and the audit line about it.
    pub open spec fn with_transition(
        self,
        event: Seq<char>,
        detail: Seq<char>,
        e: EventView,
    ) -> JournalView {
        JournalView {
            events: self.events.push(e),
            audits: self.audits.push(AuditView { event, detail, about: Some(e.kind) }),
        }
    }
}

impl Journal {
    pub fn new() -> (r: Journal)
        ensures
            r@.events == Seq::<EventView>::empty(),
            r@.audits == Seq::<AuditView>::empty(),
    {
        let r = Journal { events: Vec::new(), audits: Vec::new() };
        assert(r@.events =~= Seq::<EventView>::empty());
        assert(r@.audits =~= Seq::<AuditView>::empty());
        r
    }

    /// Appends an event.
    pub fn event(&mut self, e: NewEvent)
        ensures
            final(self)@ == old(self)@.with_event(e@),
    {
        let ghost before = self@;
        self.events.push(e);
        proof {
            assert(self@.events =~= before.events.push(e@));
            assert(self@.audits =~= before.audits);
        }
    }

    /// Appends an audit line.
    pub fn audit(&mut self, event: &str, detail: &str)
        ensures
            final(self)@ == old(self)@.with_audit(event@, detail@),
    {
        let ghost before = self@;
        let line = AuditLine { event: event.to_owned(), detail: detail.to_owned(), about: None };
        let ghost lv = line@;
        self.audits.push(line);
        proof {
            assert(self@.events =~= before.events);
            assert(self@.audits =~= before.audits.push(lv));
        }
    }

    /// Appends the event of a transition, and the audit line about it.
    pub fn transition(&mut self, event: &str, detail: &str, e: NewEvent)
        ensures
            final(self)@ == old(self)@.with_transition(event@, detail@, e@),
    {
        let ghost before = self@;
        let ghost told = e@;
        let line = AuditLine {
            event: event.to_owned(),
            detail: detail.to_owned(),
            about: Some(e.kind),
        };
        let ghost lv = line@;
        self.audits.push(line);
        self.events.push(e);
        proof {
            assert(self@.events =~= before.events.push(told));
            assert(self@.audits =~= before.audits.push(lv));
        }
    }
}

/// A journal only grows: an event and a line of audit are added behind all that
/// is there, and a transition adds both, the line about the event's kind.
pub proof fn a_journal_only_grows(
    before: JournalView,
    event: Seq<char>,
    detail: Seq<char>,
    e: EventView,
)
    ensures
        before.with_event(e).events.drop_last() == before.events,
        before.with_event(e).events.last() == e,
        before.with_event(e).audits == before.audits,
        before.with_audit(event, detail).events == before.events,
        before.with_audit(event, detail).audits.drop_last() == before.audits,
        before.with_audit(event, detail).audits.last().event == event,
        before.with_audit(event, detail).audits.last().detail == detail,
        before.with_audit(event, detail).audits.last().about is None,
        before.with_transition(event, detail, e).events == before.with_event(e).events,
        before.with_transition(event, detail, e).audits.drop_last() == before.audits,
        before.with_transition(event, detail, e).audits.last().event == event,
        before.with_transition(event, detail, e).audits.last().detail == detail,
        before.with_transition(event, detail, e).audits.last().about == Some(e.kind),
{
    assert(before.with_event(e).events.drop_last() =~= before.events);
    assert(before.with_audit(event, detail).audits.drop_last() =~= before.audits);
    assert(before.with_transition(event, detail, e).audits.drop_last() =~= before.audits);
}

} // verus!
