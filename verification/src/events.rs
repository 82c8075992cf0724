use crate::directory::PackageDirectory;
use vstd::prelude::*;

verus! {

/// A moment, as milliseconds since the Unix epoch.
#[derive(Copy, Clone, Debug, PartialEq, Eq, Structural)]
pub struct Timestamp {
    pub millis: i64,
}

/// Why an install failed.
#[derive(Clone, Debug, PartialEq, Eq)]
pub enum FailureReason {
    /// The build tool ended with a failure.
    ProcessFailed { metadata: String },
    /// The commit raised, or the install was given up half way.
    Aborted { metadata: String },
}

/// The kinds of event that the journal records.
#[derive(Copy, Clone, Debug, PartialEq, Eq, Structural)]
pub enum EventKind {
    InstallStarted,
    InstallSuccess,
    InstallFailed,
    MigrationStarted,
    MigrationFinished,
    MigrationRollback,
}

impl EventKind {
    /// The name under which the journal stores events of this kind.
    pub open spec fn spec_name(self) -> Seq<char> {
        match self {
            EventKind::InstallStarted => "install_started"@,
            EventKind::InstallSuccess => "install_success"@,
            EventKind::InstallFailed => "install_failed"@,
            EventKind::MigrationStarted => "migration_started"@,
            EventKind::MigrationFinished => "migration_finished"@,
            EventKind::MigrationRollback => "migration_rollback"@,
        }
    }

    /// The name under which the journal stores events of this kind.
    pub fn name(self) -> (name: &'static str)
        ensures
            name@ == self.spec_name(),
    {
        match self {
            EventKind::InstallStarted => "install_started",
            EventKind::InstallSuccess => "install_success",
            EventKind::InstallFailed => "install_failed",
            EventKind::MigrationStarted => "migration_started",
            EventKind::MigrationFinished => "migration_finished",
            EventKind::MigrationRollback => "migration_rollback",
        }
    }
}

/// One event of the journal, with what it carries.
#[derive(Clone, Debug, PartialEq, Eq)]
pub enum JournalEvent {
    InstallStarted {
        package: PackageDirectory,
        force: bool,
        start_time: Timestamp,
        new_dir: String,
        old_dir: String,
    },
    InstallSuccess {
        package: PackageDirectory,
        force: bool,
        start_time: Timestamp,
        end_time: Timestamp,
    },
    InstallFailed {
        package: PackageDirectory,
        force: bool,
        start_time: Timestamp,
        end_time: Timestamp,
        reason: FailureReason,
    },
    MigrationStarted { name: String },
    MigrationFinished { name: String },
    MigrationRollback { rolled_back: Vec<String> },
}

impl JournalEvent {
    /// The kind of this event.
    pub open spec fn spec_kind(&self) -> EventKind {
        match self {
            JournalEvent::InstallStarted { .. } => EventKind::InstallStarted,
            JournalEvent::InstallSuccess { .. } => EventKind::InstallSuccess,
            JournalEvent::InstallFailed { .. } => EventKind::InstallFailed,
            JournalEvent::MigrationStarted { .. } => EventKind::MigrationStarted,
            JournalEvent::MigrationFinished { .. } => EventKind::MigrationFinished,
            JournalEvent::MigrationRollback { .. } => EventKind::MigrationRollback,
        }
    }

    /// The kind of this event.
    pub fn kind(&self) -> (kind: EventKind)
        ensures
            kind == self.spec_kind(),
    {
        match self {
            JournalEvent::InstallStarted { .. } => EventKind::InstallStarted,
            JournalEvent::InstallSuccess { .. } => EventKind::InstallSuccess,
            JournalEvent::InstallFailed { .. } => EventKind::InstallFailed,
            JournalEvent::MigrationStarted { .. } => EventKind::MigrationStarted,
            JournalEvent::MigrationFinished { .. } => EventKind::MigrationFinished,
            JournalEvent::MigrationRollback { .. } => EventKind::MigrationRollback,
        }
    }
}

/// The kinds of a series of events, in order.
pub open spec fn kinds_of(events: Seq<JournalEvent>) -> Seq<EventKind> {
    events.map_values(|e: JournalEvent| e.spec_kind())
}

/// How often `kind` occurs in a series of kinds.
pub open spec fn count_kind(kinds: Seq<EventKind>, kind: EventKind) -> nat
    decreases kinds.len(),
{
    if kinds.len() == 0 {
        0
    } else {
        count_kind(kinds.drop_last(), kind) + if kinds.last() == kind {
            1nat
        } else {
            0nat
        }
    }
}

/// Counting over two series in a row adds up.
pub proof fn lemma_count_add(a: Seq<EventKind>, b: Seq<EventKind>, kind: EventKind)
    ensures
        count_kind(a + b, kind) == count_kind(a, kind) + count_kind(b, kind),
    decreases b.len(),
{
    if b.len() == 0 {
        assert(a + b =~= a);
    } else {
        assert((a + b).drop_last() =~= a + b.drop_last());
        lemma_count_add(a, b.drop_last(), kind);
    }
}

/// The events that wait to be written to the journal, the oldest first.
/// Events are only ever added at the end.
#[derive(Debug)]
pub struct Journal {
    events: Vec<JournalEvent>,
}

impl View for Journal {
    type V = Seq<JournalEvent>;

    closed spec fn view(&self) -> Seq<JournalEvent> {
        self.events@
    }
}

impl Journal {
    /// A journal without events.
    pub fn new() -> (journal: Self)
        ensures
            journal@ == Seq::<JournalEvent>::empty(),
    {
        Journal { events: Vec::new() }
    }

    /// Adds an event at the end.
    pub fn log(&mut self, event: JournalEvent)
        ensures
            final(self)@ == old(self)@.push(event),
    {
        self.events.push(event);
    }

    /// The number of events.
    pub fn len(&self) -> (len: usize)
        ensures
            len == self@.len(),
    {
        self.events.len()
    }

    /// The event at `index`, if there is one.
    pub fn event_at(&self, index: usize) -> (event: Option<&JournalEvent>)
        ensures
            index < self@.len() ==> event == Some(&self@[index as int]),
            index >= self@.len() ==> event is None,
    {
        if index < self.events.len() {
            Some(&self.events[index])
        } else {
            None
        }
    }

    /// Counts the events of one kind.
    pub fn count(&self, kind: EventKind) -> (count: usize)
        ensures
            count == count_kind(kinds_of(self@), kind),
    {
        let mut count: usize = 0;
        let mut i: usize = 0;
        while i < self.events.len()
            invariant
                i <= self.events.len(),
                count <= i,
                count == count_kind(kinds_of(self.events@.take(i as int)), kind),
            decreases self.events.len() - i,
        {
            assert(kinds_of(self.events@.take(i + 1)).drop_last() =~= kinds_of(
                self.events@.take(i as int),
            ));
            let this = self.events[i].kind();
            if this == kind {
                count += 1;
            }
            i += 1;
        }
        assert(self.events@.take(i as int) =~= self.events@);
        count
    }
}

} // verus!
