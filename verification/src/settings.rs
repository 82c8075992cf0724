use vstd::prelude::*;

verus! {

/// The application identifier in the header of both catalog databases: the
/// four letters `hasp`.
pub const APPLICATION_ID: i32 = 0x68617370;

/// How long a connection waits for a busy database, in milliseconds.
pub const BUSY_TIMEOUT_MS: u32 = 5000;

/// The three stores.
#[derive(Copy, Clone, Debug, PartialEq, Eq, Structural)]
pub enum Database {
    /// The catalog's main database, which holds the migration status.
    Main,
    /// The catalog's packages database, attached to the main connection.
    Packages,
    /// The event journal.
    Events,
}

/// The two kinds of connection.
#[derive(Copy, Clone, Debug, PartialEq, Eq, Structural)]
pub enum ConnectionKind {
    /// A connection to the catalog: main, with packages attached.
    Catalog,
    /// A connection to the event journal.
    Journal,
}

/// A setting made on a connection when it is opened.
#[derive(Copy, Clone, Debug, PartialEq, Eq, Structural)]
pub enum Setting {
    ForeignKeys(bool),
    BusyTimeout(u32),
}

/// The settings of a new connection: a catalog connection enforces foreign
/// keys; both kinds wait five seconds for a busy database.
pub fn connection_settings(kind: ConnectionKind) -> (settings: Vec<Setting>)
    ensures
        settings@ == match kind {
            ConnectionKind::Catalog => seq![
                Setting::ForeignKeys(true),
                Setting::BusyTimeout(BUSY_TIMEOUT_MS),
            ],
            ConnectionKind::Journal => seq![Setting::BusyTimeout(BUSY_TIMEOUT_MS)],
        },
{
    let mut settings: Vec<Setting> = Vec::new();
    if kind == ConnectionKind::Catalog {
        settings.push(Setting::ForeignKeys(true));
    }
    settings.push(Setting::BusyTimeout(BUSY_TIMEOUT_MS));
    assert(settings@ =~= match kind {
        ConnectionKind::Catalog => seq![
            Setting::ForeignKeys(true),
            Setting::BusyTimeout(BUSY_TIMEOUT_MS),
        ],
        ConnectionKind::Journal => seq![Setting::BusyTimeout(BUSY_TIMEOUT_MS)],
    });
    settings
}

/// Whether the application identifier has to be written: only where the
/// header holds another value.
pub fn needs_application_id(current: i32) -> (needed: bool)
    ensures
        needed == (current != APPLICATION_ID),
{
    current != APPLICATION_ID
}

/// One step of the first use of the catalog.
#[derive(Copy, Clone, Debug, PartialEq, Eq, Structural)]
pub enum InitStep {
    /// Turn on write-ahead logging; this is done outside any transaction.
    EnableWal(Database),
    /// Open the transaction around the rest.
    Begin,
    /// Write the application identifier unless the header holds it.
    SetApplicationId(Database),
    /// Run the script that makes the catalog's fixed tables.
    CreateTables,
    /// Run the script that makes the journal's table.
    CreateJournal,
    /// Apply the migrations that are not applied yet.
    RunMigrations,
    /// Commit the transaction.
    Commit,
}

/// The steps of the first use of the catalog, in order.
pub open spec fn initialization_steps() -> Seq<InitStep> {
    seq![
        InitStep::EnableWal(Database::Main),
        InitStep::EnableWal(Database::Packages),
        InitStep::EnableWal(Database::Events),
        InitStep::Begin,
        InitStep::SetApplicationId(Database::Main),
        InitStep::SetApplicationId(Database::Packages),
        InitStep::SetApplicationId(Database::Events),
        InitStep::CreateTables,
        InitStep::CreateJournal,
        InitStep::RunMigrations,
        InitStep::Commit,
    ]
}

/// Whether a process has made first use of the catalog.
#[derive(Copy, Clone, Debug, PartialEq, Eq, Structural)]
pub struct ConnectionCreator {
    pub initialized: bool,
}

impl ConnectionCreator {
    /// The creator of a process that has not used the catalog yet.
    pub fn new() -> (creator: Self)
        ensures
            !creator.initialized,
    {
        Self { initialized: false }
    }

    /// The steps to take now: all of them on first use, none after it.
    pub fn initialize(&self) -> (steps: Vec<InitStep>)
        ensures
            steps@ == if self.initialized {
                Seq::empty()
            } else {
                initialization_steps()
            },
    {
        let mut steps: Vec<InitStep> = Vec::new();
        if !self.initialized {
            steps.push(InitStep::EnableWal(Database::Main));
            steps.push(InitStep::EnableWal(Database::Packages));
            steps.push(InitStep::EnableWal(Database::Events));
            steps.push(InitStep::Begin);
            steps.push(InitStep::SetApplicationId(Database::Main));
            steps.push(InitStep::SetApplicationId(Database::Packages));
            steps.push(InitStep::SetApplicationId(Database::Events));
            steps.push(InitStep::CreateTables);
            steps.push(InitStep::CreateJournal);
            steps.push(InitStep::RunMigrations);
            steps.push(InitStep::Commit);
            assert(steps@ =~= initialization_steps());
        }
        steps
    }

    /// Records how the steps went: once they all succeeded, the catalog is
    /// in use and they are not taken again; after a failure they are.
    pub fn record(&mut self, succeeded: bool)
        ensures
            final(self).initialized == (old(self).initialized || succeeded),
    {
        if succeeded {
            self.initialized = true;
        }
    }
}

} // verus!
