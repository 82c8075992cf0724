use crate::events::{Journal, JournalEvent};
use crate::text::{same_text, str_less, text_less};
use vstd::prelude::*;

verus! {

/// One migration of the catalog's schema.
#[derive(Clone, Debug, PartialEq, Eq)]
pub struct Migration {
    /// The name by which migrations are ordered.
    pub name: String,
    /// The script that brings the schema forward.
    pub sql: String,
}

/// Whether each name comes before the next.
pub open spec fn ascending(migrations: Seq<Migration>) -> bool {
    forall|i: int|
        0 <= i < migrations.len() - 1 ==> text_less(
            (#[trigger] migrations[i]).name@,
            migrations[i + 1].name@,
        )
}

/// The place of the migration called `name`, if one is.
pub open spec fn position(migrations: Seq<Migration>, name: Seq<char>) -> Option<int>
    decreases migrations.len(),
{
    if migrations.len() == 0 {
        None
    } else if migrations.last().name@ == name {
        Some(migrations.len() - 1)
    } else {
        position(migrations.drop_last(), name)
    }
}

/// The migrations that this build knows: at least one, in ascending order
/// of their names.
#[derive(Debug)]
pub struct MigrationSet {
    migrations: Vec<Migration>,
}

impl View for MigrationSet {
    type V = Seq<Migration>;

    closed spec fn view(&self) -> Seq<Migration> {
        self.migrations@
    }
}

/// The schema was brought forward by a build that knows a migration which
/// this build does not know.
#[derive(Clone, Debug, PartialEq, Eq)]
pub struct MigrationMismatch {
    /// The migration that was applied last.
    pub applied: String,
    /// The last migration that this build knows.
    pub latest_known: String,
}

impl MigrationMismatch {
    /// The message shown for this error.
    pub fn to_text(&self) -> (text: String)
        ensures
            text@ == "latest applied migration "@ + self.applied@
                + " is newer than latest known migration "@ + self.latest_known@
                + " (hint: upgrade hasp version)"@,
    {
        let mut text = "latest applied migration ".to_owned();
        text.append(self.applied.as_str());
        text.append(" is newer than latest known migration ");
        text.append(self.latest_known.as_str());
        text.append(" (hint: upgrade hasp version)");
        text
    }
}

impl MigrationSet {
    #[verifier::type_invariant]
    pub open spec fn inv(&self) -> bool {
        self@.len() > 0 && ascending(self@)
    }

    /// The set of these migrations, if there is at least one and their
    /// names ascend.
    pub fn new(migrations: Vec<Migration>) -> (set: Option<Self>)
        ensures
            set is Some <==> migrations@.len() > 0 && ascending(migrations@),
            set matches Some(s) ==> s@ == migrations@,
    {
        if migrations.len() == 0 {
            return None;
        }
        let mut i: usize = 0;
        while i + 1 < migrations.len()
            invariant
                migrations@.len() > 0,
                i < migrations.len(),
                forall|j: int|
                    0 <= j < i ==> text_less(
                        (#[trigger] migrations@[j]).name@,
                        migrations@[j + 1].name@,
                    ),
            decreases migrations.len() - i,
        {
            if !str_less(migrations[i].name.as_str(), migrations[i + 1].name.as_str()) {
                return None;
            }
            i += 1;
        }
        Some(Self { migrations })
    }

    /// How many migrations there are.
    pub fn len(&self) -> (len: usize)
        ensures
            len == self@.len(),
            len > 0,
    {
        proof {
            use_type_invariant(self);
        }
        self.migrations.len()
    }

    /// The migration at `index`, if there is one.
    pub fn get(&self, index: usize) -> (migration: Option<&Migration>)
        ensures
            index < self@.len() ==> migration == Some(&self@[index as int]),
            index >= self@.len() ==> migration is None,
    {
        if index < self.migrations.len() {
            Some(&self.migrations[index])
        } else {
            None
        }
    }

    /// How many migrations, counted from the first, are applied: none
    /// where nothing was applied yet, else all up to the one that was
    /// applied last. Where this build does not know that one, the schema
    /// is ahead of it and the engine must be upgraded.
    pub fn applied_count(&self, last_applied: Option<&str>) -> (count: Result<
        usize,
        MigrationMismatch,
    >)
        ensures
            match last_applied {
                None => count == Ok::<usize, MigrationMismatch>(0),
                Some(name) => match position(self@, name@) {
                    Some(at) => count matches Ok(n) && n == at + 1,
                    None => count matches Err(e) && e.applied@ == name@ && e.latest_known
                        == self@.last().name,
                },
            },
            count matches Ok(n) ==> n <= self@.len(),
    {
        proof {
            use_type_invariant(self);
        }
        match last_applied {
            None => Ok(0),
            Some(name) => {
                let mut i: usize = self.migrations.len();
                assert(self.migrations@.take(i as int) =~= self.migrations@);
                while i > 0
                    invariant
                        last_applied == Some(name),
                        i <= self.migrations.len(),
                        position(self.migrations@, name@) == position(
                            self.migrations@.take(i as int),
                            name@,
                        ),
                    decreases i,
                {
                    assert(self.migrations@.take(i as int).drop_last()
                        =~= self.migrations@.take(i - 1));
                    assert(self.migrations@.take(i as int).last() == self.migrations@[i - 1]);
                    if same_text(self.migrations[i - 1].name.as_str(), name) {
                        return Ok(i);
                    }
                    i -= 1;
                }
                let latest = &self.migrations[self.migrations.len() - 1];
                Err(
                    MigrationMismatch {
                        applied: name.to_owned(),
                        latest_known: latest.name.clone(),
                    },
                )
            },
        }
    }
}

/// Where a run of migrations stands.
#[derive(Copy, Clone, Debug, PartialEq, Eq, Structural)]
pub enum RunState {
    /// The next migration has not begun.
    Ready,
    /// The next migration has begun and its outcome is awaited.
    Running,
    /// Every migration is applied.
    Done,
    /// A migration failed; the transaction around the run is rolled back.
    Failed,
}

/// What a run of migrations holds.
pub struct RunView {
    /// The migrations that this build knows.
    pub migrations: Seq<Migration>,
    /// How many were applied before the run.
    pub first: int,
    /// How many are applied now.
    pub next: int,
    pub state: RunState,
}

impl RunView {
    pub open spec fn wf(self) -> bool {
        &&& 0 <= self.first <= self.next <= self.migrations.len()
        &&& self.migrations.len() <= usize::MAX
        &&& match self.state {
            RunState::Ready | RunState::Running => self.next < self.migrations.len(),
            RunState::Done => self.next == self.migrations.len(),
            RunState::Failed => self.next < self.migrations.len(),
        }
    }

    /// The names of the migrations that this run has applied: those behind
    /// the ones applied before, in order and without a gap.
    pub open spec fn performed(self) -> Seq<String> {
        self.migrations.subrange(self.first, self.next).map_values(|m: Migration| m.name)
    }

    /// The state in which the next migration waits, or the run is done.
    pub open spec fn waiting(self, next: int) -> RunState {
        if next < self.migrations.len() {
            RunState::Ready
        } else {
            RunState::Done
        }
    }

    /// The run after the next migration has begun.
    pub open spec fn begun(self) -> RunView {
        if self.state == RunState::Ready {
            RunView { state: RunState::Running, ..self }
        } else {
            self
        }
    }

    /// The run after the migration that had begun has ended, well or not.
    pub open spec fn ended(self, applied: bool) -> RunView {
        if self.state != RunState::Running {
            self
        } else if applied {
            RunView { next: self.next + 1, state: self.waiting(self.next + 1), ..self }
        } else {
            RunView { state: RunState::Failed, ..self }
        }
    }
}

/// A run of the migrations that are not applied yet, in ascending order,
/// inside one transaction.
#[derive(Debug)]
pub struct MigrationRun {
    migrations: Vec<Migration>,
    first: usize,
    next: usize,
    state: RunState,
}

impl View for MigrationRun {
    type V = RunView;

    closed spec fn view(&self) -> RunView {
        RunView {
            migrations: self.migrations@,
            first: self.first as int,
            next: self.next as int,
            state: self.state,
        }
    }
}

impl MigrationRun {
    /// Plans the run: every migration behind the one that was applied last,
    /// or every one where none was applied.
    pub fn new(set: MigrationSet, last_applied: Option<&str>) -> (run: Result<
        Self,
        MigrationMismatch,
    >)
        ensures
            match last_applied {
                None => run matches Ok(r) && r@ == (RunView {
                    migrations: set@,
                    first: 0,
                    next: 0,
                    state: RunState::Ready,
                }),
                Some(name) => match position(set@, name@) {
                    Some(at) => run matches Ok(r) && r@.migrations == set@ && r@.first == at + 1
                        && r@.next == at + 1 && r@.state == r@.waiting(at + 1),
                    None => run matches Err(e) && e.applied@ == name@ && e.latest_known
                        == set@.last().name,
                },
            },
            run matches Ok(r) ==> r@.wf(),
    {
        proof {
            use_type_invariant(&set);
        }
        match set.applied_count(last_applied) {
            Ok(count) => {
                let total = set.len();
                Ok(
                    MigrationRun {
                        migrations: set.migrations,
                        first: count,
                        next: count,
                        state: if count < total {
                            RunState::Ready
                        } else {
                            RunState::Done
                        },
                    },
                )
            },
            Err(e) => Err(e),
        }
    }

    /// Where the run stands.
    pub fn state(&self) -> (state: RunState)
        ensures
            state == self@.state,
    {
        self.state
    }

    /// The migration to apply now, unless the run is over.
    pub fn current(&self) -> (migration: Option<&Migration>)
        requires
            self@.wf(),
        ensures
            match self@.state {
                RunState::Ready | RunState::Running => migration == Some(
                    &self@.migrations[self@.next],
                ),
                _ => migration is None,
            },
    {
        match self.state {
            RunState::Ready | RunState::Running => Some(&self.migrations[self.next]),
            _ => None,
        }
    }

    /// Begins the next migration: writes `migration_started` with its name
    /// to the journal. Does nothing unless a migration waits.
    pub fn begin(&mut self, journal: &mut Journal)
        requires
            old(self)@.wf(),
        ensures
            final(self)@ == old(self)@.begun(),
            final(self)@.wf(),
            old(self)@.state != RunState::Ready ==> final(journal)@ == old(journal)@,
            old(self)@.state == RunState::Ready ==> final(journal)@ == old(journal)@.push(
                JournalEvent::MigrationStarted { name: old(self)@.migrations[old(self)@.next].name },
            ),
    {
        if self.state == RunState::Ready {
            journal.log(
                JournalEvent::MigrationStarted { name: self.migrations[self.next].name.clone() },
            );
            self.state = RunState::Running;
        }
    }

    /// Ends the migration that had begun. Where it was applied, writes
    /// `migration_finished` and goes on to the next. Where it failed, writes
    /// `migration_rollback` with the names of the migrations that this run
    /// had applied, which the transaction around the run takes back, and
    /// ends the run. Does nothing unless a migration had begun.
    pub fn end(&mut self, applied: bool, journal: &mut Journal)
        requires
            old(self)@.wf(),
        ensures
            final(self)@ == old(self)@.ended(applied),
            final(self)@.wf(),
            old(self)@.state != RunState::Running ==> final(journal)@ == old(journal)@,
            old(self)@.state == RunState::Running ==> final(journal)@.len() == old(journal)@.len()
                + 1 && final(journal)@.drop_last() == old(journal)@,
            old(self)@.state == RunState::Running && applied ==> final(journal)@.last() == (
            JournalEvent::MigrationFinished { name: old(self)@.migrations[old(self)@.next].name }),
            old(self)@.state == RunState::Running && !applied ==> (final(journal)@.last() matches
            JournalEvent::MigrationRollback { rolled_back } && rolled_back@ == old(
                self,
            )@.performed()),
    {
        if self.state != RunState::Running {
            return ;
        }
        let ghost before = journal@;
        if applied {
            journal.log(
                JournalEvent::MigrationFinished { name: self.migrations[self.next].name.clone() },
            );
            self.next = self.next + 1;
            self.state = if self.next < self.migrations.len() {
                RunState::Ready
            } else {
                RunState::Done
            };
        } else {
            let rolled_back = self.performed();
            journal.log(JournalEvent::MigrationRollback { rolled_back });
            self.state = RunState::Failed;
        }
        assert(journal@.drop_last() =~= before);
    }

    /// The names of the migrations that this run has applied so far.
    pub fn performed(&self) -> (names: Vec<String>)
        requires
            self@.wf(),
        ensures
            names@ == self@.performed(),
    {
        let mut names: Vec<String> = Vec::new();
        let mut i: usize = self.first;
        while i < self.next
            invariant
                self@.wf(),
                self.first <= i <= self.next,
                names@ == self.migrations@.subrange(self.first as int, i as int).map_values(
                    |m: Migration| m.name,
                ),
            decreases self.next - i,
        {
            names.push(self.migrations[i].name.clone());
            i += 1;
            assert(names@ =~= self.migrations@.subrange(self.first as int, i as int).map_values(
                |m: Migration| m.name,
            ));
        }
        names
    }
}

} // verus!
