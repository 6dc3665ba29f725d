//! The event recorder and the ingestion handler: one submission resolves its
//! five dimensions and records one event row, or leaves the store untouched.
//!
//! A request owns the store for its whole duration. Rows that a failing
//! request appended are taken back before it returns, so no other request
//! ever sees them.

use vstd::prelude::*;
use vstd::string::StringExecFns;
use crate::errors::ErrorKind;
use crate::resolver::{
    distinct_keys, exactly_one_row, lemma_resolution_is_idempotent, lemma_resolved_keeps_table,
    lemma_resolving_different_keys, resolved, DimensionTable, KeyView, NaturalKey,
};

verus! {

/// A UTC instant: seconds and nanoseconds after the Unix epoch.
#[derive(Clone, Copy, Debug, PartialEq, Eq, Structural)]
pub struct UtcInstant {
    pub secs: i64,
    pub nanos: u32,
}

/// The five dimensions of an event.
#[derive(Clone, Copy, Debug, PartialEq, Eq, Structural)]
pub enum Dimension {
    App,
    Project,
    Branch,
    Entity,
    Language,
}

/// Why a submission was not recorded.
#[derive(Clone, Copy, Debug, PartialEq, Eq, Structural)]
pub enum IngestError {
    /// The store failed while resolving this dimension.
    Resolution { dimension: Dimension },
    /// The dimensions were resolved, and the store failed to take the event.
    Record,
}

impl IngestError {
    /// The kind of this failure: the store failed, in either case.
    pub fn kind(&self) -> (kind: ErrorKind)
        ensures
            kind == ErrorKind::PersistenceFailure,
    {
        ErrorKind::PersistenceFailure
    }
}

/// One inbound submission, as it stands after deserialization.
#[derive(Clone, Debug, PartialEq, Eq)]
pub struct EventInput {
    pub timestamp: Option<UtcInstant>,
    pub duration: Option<i64>,
    pub activity_type: String,
    pub app_name: String,
    pub entity_name: String,
    pub entity_type: String,
    pub project_name: String,
    pub project_path: String,
    pub branch_name: String,
    pub language_name: String,
    pub end_timestamp: Option<UtcInstant>,
}

/// One stored event. `end_timestamp` is free-form: it is stored as given,
/// whether or not it lies after `timestamp`.
#[derive(Clone, Debug, PartialEq, Eq)]
pub struct EventRow {
    pub timestamp: UtcInstant,
    pub duration: Option<i64>,
    pub activity_type: String,
    pub app_id: u64,
    pub entity_id: Option<u64>,
    pub project_id: Option<u64>,
    pub branch_id: Option<u64>,
    pub language_id: Option<u64>,
    pub end_timestamp: Option<UtcInstant>,
}

/// A stored event as a mathematical value.
pub ghost struct EventRowView {
    pub timestamp: UtcInstant,
    pub duration: Option<i64>,
    pub activity_type: Seq<char>,
    pub app_id: u64,
    pub entity_id: Option<u64>,
    pub project_id: Option<u64>,
    pub branch_id: Option<u64>,
    pub language_id: Option<u64>,
    pub end_timestamp: Option<UtcInstant>,
}

impl View for EventRow {
    type V = EventRowView;

    open spec fn view(&self) -> EventRowView {
        EventRowView {
            timestamp: self.timestamp,
            duration: self.duration,
            activity_type: self.activity_type@,
            app_id: self.app_id,
            entity_id: self.entity_id,
            project_id: self.project_id,
            branch_id: self.branch_id,
            language_id: self.language_id,
            end_timestamp: self.end_timestamp,
        }
    }
}

/// The store: one table per dimension, and the events in the order in which
/// they were recorded, with room for `event_capacity` of them.
#[derive(Clone, Debug)]
pub struct Store {
    pub apps: DimensionTable,
    pub projects: DimensionTable,
    pub branches: DimensionTable,
    pub entities: DimensionTable,
    pub languages: DimensionTable,
    pub events: Vec<EventRow>,
    pub event_capacity: usize,
}

/// The stored events as mathematical values, in order.
pub open spec fn events_view(events: Seq<EventRow>) -> Seq<EventRowView> {
    Seq::new(events.len(), |i: int| events[i]@)
}

/// What a store holds, as a mathematical value.
pub ghost struct StoreView {
    pub apps: Seq<KeyView>,
    pub projects: Seq<KeyView>,
    pub branches: Seq<KeyView>,
    pub entities: Seq<KeyView>,
    pub languages: Seq<KeyView>,
    pub events: Seq<EventRowView>,
}

impl View for Store {
    type V = StoreView;

    open spec fn view(&self) -> StoreView {
        StoreView {
            apps: self.apps@,
            projects: self.projects@,
            branches: self.branches@,
            entities: self.entities@,
            languages: self.languages@,
            events: events_view(self.events@),
        }
    }
}

/// The key of an app or a language.
pub open spec fn named_key(name: Seq<char>) -> KeyView {
    KeyView { parent: None, name, qualifier: None }
}

/// The key of a project.
pub open spec fn project_key(name: Seq<char>, path: Seq<char>) -> KeyView {
    KeyView { parent: None, name, qualifier: Some(path) }
}

/// The key of a branch of the project `project_id`.
pub open spec fn branch_key(project_id: u64, name: Seq<char>) -> KeyView {
    KeyView { parent: Some(project_id), name, qualifier: None }
}

/// The key of an entity of the project `project_id`.
pub open spec fn entity_key(project_id: u64, name: Seq<char>, entity_type: Seq<char>) -> KeyView {
    KeyView { parent: Some(project_id), name, qualifier: Some(entity_type) }
}

/// The timestamp of a stored event: the one supplied, or the current time.
pub open spec fn timestamp_of(supplied: Option<UtcInstant>, now: UtcInstant) -> UtcInstant {
    match supplied {
        Some(instant) => instant,
        None => now,
    }
}

/// The event row of `payload` with the given dimension ids, recorded at
/// `now`.
pub open spec fn row_of(
    payload: EventInput,
    now: UtcInstant,
    app_id: u64,
    project_id: u64,
    branch_id: u64,
    entity_id: u64,
    language_id: u64,
) -> EventRowView {
    EventRowView {
        timestamp: timestamp_of(payload.timestamp, now),
        duration: payload.duration,
        activity_type: payload.activity_type@,
        app_id,
        entity_id: Some(entity_id),
        project_id: Some(project_id),
        branch_id: Some(branch_id),
        language_id: Some(language_id),
        end_timestamp: payload.end_timestamp,
    }
}

impl Store {
    /// Every table keeps its invariant.
    pub open spec fn wf(&self) -> bool {
        &&& self.apps.wf()
        &&& self.projects.wf()
        &&& self.branches.wf()
        &&& self.entities.wf()
        &&& self.languages.wf()
    }

    /// Whether `other` has the same room as this store, table by table.
    pub open spec fn same_capacities(&self, other: &Store) -> bool {
        &&& self.apps.capacity() == other.apps.capacity()
        &&& self.projects.capacity() == other.projects.capacity()
        &&& self.branches.capacity() == other.branches.capacity()
        &&& self.entities.capacity() == other.entities.capacity()
        &&& self.languages.capacity() == other.languages.capacity()
        &&& self.event_capacity == other.event_capacity
    }

    /// Find-or-insert of the submission's app on the app table.
    pub open spec fn apps_resolved(&self, payload: EventInput) -> (Seq<KeyView>, Option<u64>) {
        resolved(self.apps@, self.apps.capacity(), named_key(payload.app_name@))
    }

    /// Find-or-insert of the submission's project on the project table.
    pub open spec fn projects_resolved(&self, payload: EventInput) -> (Seq<KeyView>, Option<u64>) {
        resolved(
            self.projects@,
            self.projects.capacity(),
            project_key(payload.project_name@, payload.project_path@),
        )
    }

    /// Find-or-insert of the submission's branch, scoped by the id that its
    /// project resolved to.
    pub open spec fn branches_resolved(&self, payload: EventInput) -> (Seq<KeyView>, Option<u64>) {
        resolved(
            self.branches@,
            self.branches.capacity(),
            branch_key(self.projects_resolved(payload).1.unwrap(), payload.branch_name@),
        )
    }

    /// Find-or-insert of the submission's entity, scoped by the id that its
    /// project resolved to.
    pub open spec fn entities_resolved(&self, payload: EventInput) -> (Seq<KeyView>, Option<u64>) {
        resolved(
            self.entities@,
            self.entities.capacity(),
            entity_key(
                self.projects_resolved(payload).1.unwrap(),
                payload.entity_name@,
                payload.entity_type@,
            ),
        )
    }

    /// Find-or-insert of the submission's language on the language table.
    pub open spec fn languages_resolved(&self, payload: EventInput) -> (Seq<KeyView>, Option<u64>) {
        resolved(self.languages@, self.languages.capacity(), named_key(payload.language_name@))
    }

    /// The first dimension, in the order app, project, branch, entity,
    /// language, whose resolution fails; `None` where all five succeed.
    pub open spec fn failing_dimension(&self, payload: EventInput) -> Option<Dimension> {
        if self.apps_resolved(payload).1 is None {
            Some(Dimension::App)
        } else if self.projects_resolved(payload).1 is None {
            Some(Dimension::Project)
        } else if self.branches_resolved(payload).1 is None {
            Some(Dimension::Branch)
        } else if self.entities_resolved(payload).1 is None {
            Some(Dimension::Entity)
        } else if self.languages_resolved(payload).1 is None {
            Some(Dimension::Language)
        } else {
            None
        }
    }

    /// The event row of the submission, with the ids that its dimensions
    /// resolve to.
    pub open spec fn row_for(&self, payload: EventInput, now: UtcInstant) -> EventRowView {
        row_of(
            payload,
            now,
            self.apps_resolved(payload).1.unwrap(),
            self.projects_resolved(payload).1.unwrap(),
            self.branches_resolved(payload).1.unwrap(),
            self.entities_resolved(payload).1.unwrap(),
            self.languages_resolved(payload).1.unwrap(),
        )
    }

    /// The failure that ingesting `payload` reports, if any: the first
    /// dimension that cannot be resolved, or else an event log with no room.
    pub open spec fn ingest_failure(&self, payload: EventInput) -> Option<IngestError> {
        match self.failing_dimension(payload) {
            Some(dimension) => Some(IngestError::Resolution { dimension }),
            None => if self@.events.len() >= self.event_capacity {
                Some(IngestError::Record)
            } else {
                None
            },
        }
    }

    /// What the store holds after ingesting `payload` at `now`: each
    /// dimension resolved and one event row more, or, where the request
    /// fails, what it held before.
    pub open spec fn ingested(&self, payload: EventInput, now: UtcInstant) -> StoreView {
        if self.ingest_failure(payload) is Some {
            self@
        } else {
            StoreView {
                apps: self.apps_resolved(payload).0,
                projects: self.projects_resolved(payload).0,
                branches: self.branches_resolved(payload).0,
                entities: self.entities_resolved(payload).0,
                languages: self.languages_resolved(payload).0,
                events: self@.events.push(self.row_for(payload, now)),
            }
        }
    }

    /// An empty store whose dimension tables have room for `table_capacity`
    /// rows each and whose event log has room for `event_capacity` events.
    pub fn new(table_capacity: usize, event_capacity: usize) -> (store: Store)
        ensures
            store.wf(),
            store@ == (StoreView {
                apps: Seq::empty(),
                projects: Seq::empty(),
                branches: Seq::empty(),
                entities: Seq::empty(),
                languages: Seq::empty(),
                events: Seq::empty(),
            }),
            store.apps.capacity() == table_capacity,
            store.projects.capacity() == table_capacity,
            store.branches.capacity() == table_capacity,
            store.entities.capacity() == table_capacity,
            store.languages.capacity() == table_capacity,
            store.event_capacity == event_capacity,
    {
        let store = Store {
            apps: DimensionTable::new(table_capacity),
            projects: DimensionTable::new(table_capacity),
            branches: DimensionTable::new(table_capacity),
            entities: DimensionTable::new(table_capacity),
            languages: DimensionTable::new(table_capacity),
            events: Vec::new(),
            event_capacity,
        };
        assert(events_view(store.events@) =~= Seq::<EventRowView>::empty());
        store
    }

    /// Records one event row: appends it whole, or not at all. Fails exactly
    /// where the event log is full.
    pub fn record_event(&mut self, row: EventRow) -> (outcome: Result<(), IngestError>)
        ensures
            final(self).apps == old(self).apps,
            final(self).projects == old(self).projects,
            final(self).branches == old(self).branches,
            final(self).entities == old(self).entities,
            final(self).languages == old(self).languages,
            final(self).event_capacity == old(self).event_capacity,
            outcome is Ok <==> old(self)@.events.len() < old(self).event_capacity,
            outcome is Ok ==> final(self)@.events == old(self)@.events.push(row@),
            outcome is Err ==> final(self).events == old(self).events && outcome
                == Err::<(), IngestError>(IngestError::Record),
    {
        if self.events.len() < self.event_capacity {
            self.events.push(row);
            assert(events_view(self.events@) =~= events_view(old(self).events@).push(row@));
            Ok(())
        } else {
            Err(IngestError::Record)
        }
    }

    /// Resolves the five dimensions of `payload` and composes its event row.
    /// On failure the tables may hold rows that the request appended.
    fn resolve_row(&mut self, payload: EventInput, now: UtcInstant) -> (outcome: Result<
        EventRow,
        Dimension,
    >)
        requires
            old(self).wf(),
        ensures
            final(self).wf(),
            final(self).same_capacities(old(self)),
            final(self).events == old(self).events,
            old(self).apps@.is_prefix_of(final(self).apps@),
            old(self).projects@.is_prefix_of(final(self).projects@),
            old(self).branches@.is_prefix_of(final(self).branches@),
            old(self).entities@.is_prefix_of(final(self).entities@),
            old(self).languages@.is_prefix_of(final(self).languages@),
            match outcome {
                Ok(row) => {
                    &&& old(self).failing_dimension(payload) is None
                    &&& row@ == old(self).row_for(payload, now)
                    &&& final(self).apps@ == old(self).apps_resolved(payload).0
                    &&& final(self).projects@ == old(self).projects_resolved(payload).0
                    &&& final(self).branches@ == old(self).branches_resolved(payload).0
                    &&& final(self).entities@ == old(self).entities_resolved(payload).0
                    &&& final(self).languages@ == old(self).languages_resolved(payload).0
                },
                Err(dimension) => old(self).failing_dimension(payload) == Some(dimension),
            },
    {
        proof {
            self.apps.lemma_wf();
            self.projects.lemma_wf();
            self.branches.lemma_wf();
            self.entities.lemma_wf();
            self.languages.lemma_wf();
            lemma_resolved_keeps_table(
                self.apps@,
                self.apps.capacity(),
                named_key(payload.app_name@),
            );
            lemma_resolved_keeps_table(
                self.projects@,
                self.projects.capacity(),
                project_key(payload.project_name@, payload.project_path@),
            );
            lemma_resolved_keeps_table(
                self.languages@,
                self.languages.capacity(),
                named_key(payload.language_name@),
            );
        }
        let EventInput {
            timestamp,
            duration,
            activity_type,
            app_name,
            entity_name,
            entity_type,
            project_name,
            project_path,
            branch_name,
            language_name,
            end_timestamp,
        } = payload;
        let app_id = match self.apps.find_or_insert(NaturalKey::named(app_name)) {
            Ok(id) => id,
            Err(_) => {
                return Err(Dimension::App);
            },
        };
        let project_id = match self.projects.find_or_insert(
            NaturalKey::project(project_name, project_path),
        ) {
            Ok(id) => id,
            Err(_) => {
                return Err(Dimension::Project);
            },
        };
        proof {
            lemma_resolved_keeps_table(
                self.branches@,
                self.branches.capacity(),
                branch_key(project_id, payload.branch_name@),
            );
            lemma_resolved_keeps_table(
                self.entities@,
                self.entities.capacity(),
                entity_key(project_id, payload.entity_name@, payload.entity_type@),
            );
        }
        let branch_id = match self.branches.find_or_insert(
            NaturalKey::branch(project_id, branch_name),
        ) {
            Ok(id) => id,
            Err(_) => {
                return Err(Dimension::Branch);
            },
        };
        let entity_id = match self.entities.find_or_insert(
            NaturalKey::entity(project_id, entity_name, entity_type),
        ) {
            Ok(id) => id,
            Err(_) => {
                return Err(Dimension::Entity);
            },
        };
        let language_id = match self.languages.find_or_insert(NaturalKey::named(language_name)) {
            Ok(id) => id,
            Err(_) => {
                return Err(Dimension::Language);
            },
        };
        Ok(
            EventRow {
                timestamp: match timestamp {
                    Some(instant) => instant,
                    None => now,
                },
                duration,
                activity_type,
                app_id,
                entity_id: Some(entity_id),
                project_id: Some(project_id),
                branch_id: Some(branch_id),
                language_id: Some(language_id),
                end_timestamp,
            },
        )
    }

    /// Takes back every dimension row after the given counts, table by table.
    fn restore(
        &mut self,
        apps: usize,
        projects: usize,
        branches: usize,
        entities: usize,
        languages: usize,
    )
        requires
            old(self).wf(),
            apps <= old(self).apps@.len(),
            projects <= old(self).projects@.len(),
            branches <= old(self).branches@.len(),
            entities <= old(self).entities@.len(),
            languages <= old(self).languages@.len(),
        ensures
            final(self).wf(),
            final(self).same_capacities(old(self)),
            final(self).apps@ =~= old(self).apps@.subrange(0, apps as int),
            final(self).projects@ =~= old(self).projects@.subrange(0, projects as int),
            final(self).branches@ =~= old(self).branches@.subrange(0, branches as int),
            final(self).entities@ =~= old(self).entities@.subrange(0, entities as int),
            final(self).languages@ =~= old(self).languages@.subrange(0, languages as int),
            final(self).events == old(self).events,
    {
        self.apps.roll_back(apps);
        self.projects.roll_back(projects);
        self.branches.roll_back(branches);
        self.entities.roll_back(entities);
        self.languages.roll_back(languages);
    }
}

/// Ingests one submission: resolves app, project, branch, entity and language,
/// branch and entity within the project, and records one event row with the
/// five ids. The event's timestamp is the one supplied, or `now`.
///
/// Fails with the first dimension whose resolution failed, or with
/// [`IngestError::Record`] where the event could not be stored. A failed
/// request leaves the store exactly as it found it: no event row, and none of
/// the dimension rows it had appended.
pub fn handle_event(store: &mut Store, payload: EventInput, now: UtcInstant) -> (outcome: Result<
    String,
    IngestError,
>)
    requires
        old(store).wf(),
    ensures
        final(store).wf(),
        final(store).same_capacities(old(store)),
        final(store)@ == old(store).ingested(payload, now),
        match outcome {
            Ok(message) => old(store).ingest_failure(payload) is None && message@
                == "Event recorded"@,
            Err(error) => old(store).ingest_failure(payload) == Some(error) && final(store)@
                == old(store)@,
        },
{
    let apps = store.apps.len();
    let projects = store.projects.len();
    let branches = store.branches.len();
    let entities = store.entities.len();
    let languages = store.languages.len();
    let failure = match store.resolve_row(payload, now) {
        Ok(row) => match store.record_event(row) {
            Ok(()) => {
                return Ok(String::from_str("Event recorded"));
            },
            Err(error) => error,
        },
        Err(dimension) => IngestError::Resolution { dimension },
    };
    store.restore(apps, projects, branches, entities, languages);
    Err(failure)
}

/// Atomic record: a request that fails, at whatever step, leaves the store as
/// it was; in particular no event row is created.
pub proof fn lemma_failed_request_leaves_no_trace(
    store: Store,
    payload: EventInput,
    now: UtcInstant,
)
    requires
        store.ingest_failure(payload) is Some,
    ensures
        store.ingested(payload, now) == store@,
        store.ingested(payload, now).events == store@.events,
{
}

/// Atomic record, for the entity: where app, project, branch and language can
/// be resolved and the entity cannot, the request fails on the entity and no
/// event row is created.
pub proof fn lemma_failed_entity_records_nothing(store: Store, payload: EventInput, now: UtcInstant)
    requires
        store.apps_resolved(payload).1 is Some,
        store.projects_resolved(payload).1 is Some,
        store.branches_resolved(payload).1 is Some,
        store.languages_resolved(payload).1 is Some,
        store.entities_resolved(payload).1 is None,
    ensures
        store.ingest_failure(payload) == Some(
            IngestError::Resolution { dimension: Dimension::Entity },
        ),
        store.ingested(payload, now).events == store@.events,
        store.ingested(payload, now) == store@,
{
}

/// A recorded request adds exactly one event row and leaves, in each
/// dimension table, exactly one row for the submission's key.
pub proof fn lemma_recorded_request(store: Store, payload: EventInput, now: UtcInstant)
    requires
        store.wf(),
        store.ingest_failure(payload) is None,
    ensures
        store.ingested(payload, now).events.len() == store@.events.len() + 1,
        store.ingested(payload, now).events.last() == store.row_for(payload, now),
        exactly_one_row(store.ingested(payload, now).apps, named_key(payload.app_name@)),
        exactly_one_row(
            store.ingested(payload, now).projects,
            project_key(payload.project_name@, payload.project_path@),
        ),
        exactly_one_row(
            store.ingested(payload, now).branches,
            branch_key(store.projects_resolved(payload).1.unwrap(), payload.branch_name@),
        ),
        exactly_one_row(
            store.ingested(payload, now).entities,
            entity_key(
                store.projects_resolved(payload).1.unwrap(),
                payload.entity_name@,
                payload.entity_type@,
            ),
        ),
        exactly_one_row(store.ingested(payload, now).languages, named_key(payload.language_name@)),
{
    let project_id = store.projects_resolved(payload).1.unwrap();
    store.apps.lemma_wf();
    store.projects.lemma_wf();
    store.branches.lemma_wf();
    store.entities.lemma_wf();
    store.languages.lemma_wf();
    lemma_resolved_keeps_table(store.apps@, store.apps.capacity(), named_key(payload.app_name@));
    lemma_resolved_keeps_table(
        store.projects@,
        store.projects.capacity(),
        project_key(payload.project_name@, payload.project_path@),
    );
    lemma_resolved_keeps_table(
        store.branches@,
        store.branches.capacity(),
        branch_key(project_id, payload.branch_name@),
    );
    lemma_resolved_keeps_table(
        store.entities@,
        store.entities.capacity(),
        entity_key(project_id, payload.entity_name@, payload.entity_type@),
    );
    lemma_resolved_keeps_table(
        store.languages@,
        store.languages.capacity(),
        named_key(payload.language_name@),
    );
}

/// The same submission twice: where `after` is the store that recorded
/// `payload` once, recording it again resolves every dimension to the id it
/// had the first time, adds no dimension row, and adds one more event row with
/// the same five ids.
pub proof fn lemma_resubmission_adds_only_an_event(
    before: Store,
    after: Store,
    payload: EventInput,
    first: UtcInstant,
    second: UtcInstant,
)
    requires
        before.wf(),
        before.ingest_failure(payload) is None,
        after@ == before.ingested(payload, first),
        after.same_capacities(&before),
        after@.events.len() < after.event_capacity,
    ensures
        after.ingest_failure(payload) is None,
        after.apps_resolved(payload) == before.apps_resolved(payload),
        after.projects_resolved(payload) == before.projects_resolved(payload),
        after.branches_resolved(payload) == before.branches_resolved(payload),
        after.entities_resolved(payload) == before.entities_resolved(payload),
        after.languages_resolved(payload) == before.languages_resolved(payload),
        after.ingested(payload, second).apps == after@.apps,
        after.ingested(payload, second).projects == after@.projects,
        after.ingested(payload, second).branches == after@.branches,
        after.ingested(payload, second).entities == after@.entities,
        after.ingested(payload, second).languages == after@.languages,
        after.ingested(payload, second).events == before@.events.push(
            before.row_for(payload, first),
        ).push(before.row_for(payload, second)),
{
    let project_id = before.projects_resolved(payload).1.unwrap();
    before.apps.lemma_wf();
    before.projects.lemma_wf();
    before.branches.lemma_wf();
    before.entities.lemma_wf();
    before.languages.lemma_wf();
    lemma_resolution_is_idempotent(
        before.apps@,
        before.apps.capacity(),
        named_key(payload.app_name@),
    );
    lemma_resolution_is_idempotent(
        before.projects@,
        before.projects.capacity(),
        project_key(payload.project_name@, payload.project_path@),
    );
    lemma_resolution_is_idempotent(
        before.branches@,
        before.branches.capacity(),
        branch_key(project_id, payload.branch_name@),
    );
    lemma_resolution_is_idempotent(
        before.entities@,
        before.entities.capacity(),
        entity_key(project_id, payload.entity_name@, payload.entity_type@),
    );
    lemma_resolution_is_idempotent(
        before.languages@,
        before.languages.capacity(),
        named_key(payload.language_name@),
    );
}

/// Scoped uniqueness: a branch name resolved under one project and the same
/// name resolved under another project, where both calls succeed, get two
/// different ids.
pub proof fn lemma_same_branch_name_in_two_projects(
    rows: Seq<KeyView>,
    capacity: nat,
    one_project: u64,
    other_project: u64,
    name: Seq<char>,
)
    requires
        distinct_keys(rows),
        rows.len() <= capacity <= usize::MAX,
        one_project != other_project,
        resolved(rows, capacity, branch_key(one_project, name)).1 is Some,
        resolved(
            resolved(rows, capacity, branch_key(one_project, name)).0,
            capacity,
            branch_key(other_project, name),
        ).1 is Some,
    ensures
        resolved(rows, capacity, branch_key(one_project, name)).1 != resolved(
            resolved(rows, capacity, branch_key(one_project, name)).0,
            capacity,
            branch_key(other_project, name),
        ).1,
{
    lemma_resolving_different_keys(
        rows,
        capacity,
        branch_key(one_project, name),
        branch_key(other_project, name),
    );
}

} // verus!
