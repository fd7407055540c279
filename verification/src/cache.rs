//! The protocol of the row cache: what to do next, given how the last step
//! went. The steps themselves, which touch the disk and the row source, are
//! the caller's.

use vstd::prelude::*;
use vstd::string::*;

verus! {

/// The step that a load awaits the outcome of.
#[derive(Clone, Copy, Debug, PartialEq, Eq, Structural)]
pub enum Phase {
    /// Asking for the working directory.
    Locating,
    /// Asking whether the snapshot exists.
    Probing,
    /// Opening the snapshot.
    Opening,
    /// Reading the rows from the snapshot.
    Decoding,
    /// Connecting to the row source.
    Connecting,
    /// Fetching the rows from the row source.
    Fetching,
    /// Serializing the rows that were fetched.
    Encoding,
    /// Writing the snapshot.
    Writing,
    /// The rows are those of the snapshot.
    Loaded,
    /// The rows are those that were fetched, and the snapshot holds them.
    Stored,
    /// The load failed.
    Failed,
}

/// The step at which a load failed.
#[derive(Clone, Copy, Debug, PartialEq, Eq, Structural)]
pub enum Fault {
    WorkingDirectory,
    Read,
    Deserialize,
    Connect,
    Fetch,
    Serialize,
    Write,
}

/// How the step that a load awaited went.
#[derive(Debug, PartialEq, Eq)]
pub enum Outcome {
    /// The working directory.
    WorkingDirectory(String),
    /// Whether the snapshot exists.
    Exists(bool),
    /// The step succeeded.
    Success,
    /// The step failed, with the cause.
    Failure(String),
}

/// The mathematical model of an [`Outcome`].
pub enum OutcomeSpec {
    WorkingDirectory(Seq<char>),
    Exists(bool),
    Success,
    Failure(Seq<char>),
}

impl View for Outcome {
    type V = OutcomeSpec;

    open spec fn view(&self) -> OutcomeSpec {
        match self {
            Outcome::WorkingDirectory(directory) => OutcomeSpec::WorkingDirectory(directory@),
            Outcome::Exists(exists) => OutcomeSpec::Exists(*exists),
            Outcome::Success => OutcomeSpec::Success,
            Outcome::Failure(cause) => OutcomeSpec::Failure(cause@),
        }
    }
}

/// A load of the rows of one table.
#[derive(Debug, PartialEq, Eq)]
pub struct Load {
    /// The name of the table.
    pub table: String,
    /// The step that the load awaits the outcome of.
    pub phase: Phase,
    /// The path of the snapshot; empty until the working directory is known.
    pub path: String,
    /// The step at which the load failed, with the cause.
    pub failure: Option<(Fault, String)>,
}

/// The mathematical model of a [`Load`].
pub struct LoadSpec {
    pub table: Seq<char>,
    pub phase: Phase,
    pub path: Seq<char>,
    pub failure: Option<(Fault, Seq<char>)>,
}

impl View for Load {
    type V = LoadSpec;

    open spec fn view(&self) -> LoadSpec {
        LoadSpec {
            table: self.table@,
            phase: self.phase,
            path: self.path@,
            failure: match self.failure {
                Some((fault, cause)) => Some((fault, cause@)),
                None => None,
            },
        }
    }
}

/// The path of the snapshot of `table` under the working directory
/// `directory`.
pub open spec fn snapshot_path(directory: Seq<char>, table: Seq<char>) -> Seq<char> {
    directory + "/"@ + table + ".cache"@
}

/// The phase that follows `phase` when its step succeeds.
pub open spec fn succeeding(phase: Phase) -> Phase {
    match phase {
        Phase::Opening => Phase::Decoding,
        Phase::Decoding => Phase::Loaded,
        Phase::Connecting => Phase::Fetching,
        Phase::Fetching => Phase::Encoding,
        Phase::Encoding => Phase::Writing,
        Phase::Writing => Phase::Stored,
        _ => phase,
    }
}

/// The fault of a step that fails in `phase`, for the phases whose step can
/// fail.
pub open spec fn fault_of(phase: Phase) -> Option<Fault> {
    match phase {
        Phase::Locating => Some(Fault::WorkingDirectory),
        Phase::Opening => Some(Fault::Read),
        Phase::Decoding => Some(Fault::Deserialize),
        Phase::Connecting => Some(Fault::Connect),
        Phase::Fetching => Some(Fault::Fetch),
        Phase::Encoding => Some(Fault::Serialize),
        Phase::Writing => Some(Fault::Write),
        _ => None,
    }
}

impl LoadSpec {
    /// A load that has not begun.
    pub open spec fn begun(table: Seq<char>) -> LoadSpec {
        LoadSpec { table, phase: Phase::Locating, path: Seq::empty(), failure: None }
    }

    /// The load after its step went as `outcome` says. The working directory
    /// places the snapshot; a snapshot that exists is opened and read, and one
    /// that does not is fetched, serialized and written; a step that fails
    /// fails the load; an outcome that the phase does not await changes
    /// nothing.
    pub open spec fn advanced(self, outcome: OutcomeSpec) -> LoadSpec {
        match (self.phase, outcome) {
            (Phase::Locating, OutcomeSpec::WorkingDirectory(directory)) => LoadSpec {
                phase: Phase::Probing,
                path: snapshot_path(directory, self.table),
                ..self
            },
            (Phase::Probing, OutcomeSpec::Exists(true)) => LoadSpec {
                phase: Phase::Opening,
                ..self
            },
            (Phase::Probing, OutcomeSpec::Exists(false)) => LoadSpec {
                phase: Phase::Connecting,
                ..self
            },
            (phase, OutcomeSpec::Success) => LoadSpec { phase: succeeding(phase), ..self },
            (phase, OutcomeSpec::Failure(cause)) => match fault_of(phase) {
                Some(fault) => LoadSpec {
                    phase: Phase::Failed,
                    failure: Some((fault, cause)),
                    ..self
                },
                None => self,
            },
            _ => self,
        }
    }

    /// The message of the failure of a load that failed: it carries the cause
    /// and, for the steps on the snapshot, the snapshot's path.
    pub open spec fn message(self) -> Seq<char> {
        match self.failure {
            Some((Fault::WorkingDirectory, cause)) => "Error retrieving current directory: "@
                + cause,
            Some((Fault::Read, cause)) => "Error reading "@ + self.path + ": "@ + cause,
            Some((Fault::Deserialize, cause)) => "Error deserializing "@ + self.path + ": "@
                + cause,
            Some((Fault::Serialize, cause)) => "Error serializing "@ + self.path + ": "@ + cause,
            Some((Fault::Write, cause)) => "Error writing "@ + self.path + ": "@ + cause,
            Some((Fault::Connect, cause)) => cause,
            Some((Fault::Fetch, cause)) => cause,
            None => Seq::empty(),
        }
    }
}

/// Whether a load in `phase` only reads: it neither reaches the row source nor
/// writes the snapshot, now or later.
pub open spec fn reads_only(phase: Phase) -> bool {
    phase == Phase::Opening || phase == Phase::Decoding || phase == Phase::Loaded || phase
        == Phase::Failed
}

/// A snapshot that exists is returned as it is: once a load opens the
/// snapshot, it only reads.
pub proof fn lemma_snapshot_is_only_read(load: LoadSpec, outcome: OutcomeSpec)
    ensures
        load.phase == Phase::Probing && outcome == OutcomeSpec::Exists(true) ==> reads_only(
            load.advanced(outcome).phase,
        ),
        reads_only(load.phase) ==> reads_only(load.advanced(outcome).phase),
{
}

/// The snapshot is written only behind a fetch: a load reaches the phase of
/// writing only from the phase of serializing, and that only from the phase
/// of fetching.
pub proof fn lemma_write_follows_fetch(load: LoadSpec, outcome: OutcomeSpec)
    ensures
        load.phase != Phase::Writing && load.advanced(outcome).phase == Phase::Writing
            ==> load.phase == Phase::Encoding && outcome == OutcomeSpec::Success,
        load.phase != Phase::Encoding && load.advanced(outcome).phase == Phase::Encoding
            ==> load.phase == Phase::Fetching && outcome == OutcomeSpec::Success,
{
}

/// The phase that follows `phase` when its step succeeds.
fn succeed(phase: Phase) -> (r: Phase)
    ensures
        r == succeeding(phase),
{
    match phase {
        Phase::Opening => Phase::Decoding,
        Phase::Decoding => Phase::Loaded,
        Phase::Connecting => Phase::Fetching,
        Phase::Fetching => Phase::Encoding,
        Phase::Encoding => Phase::Writing,
        Phase::Writing => Phase::Stored,
        _ => phase,
    }
}

/// The fault of a step that fails in `phase`.
fn fault(phase: Phase) -> (r: Option<Fault>)
    ensures
        r == fault_of(phase),
{
    match phase {
        Phase::Locating => Some(Fault::WorkingDirectory),
        Phase::Opening => Some(Fault::Read),
        Phase::Decoding => Some(Fault::Deserialize),
        Phase::Connecting => Some(Fault::Connect),
        Phase::Fetching => Some(Fault::Fetch),
        Phase::Encoding => Some(Fault::Serialize),
        Phase::Writing => Some(Fault::Write),
        _ => None,
    }
}

impl Load {
    /// Begins the load of the rows of `table`.
    pub fn begin(table: &str) -> (r: Load)
        ensures
            r@ == LoadSpec::begun(table@),
    {
        Load {
            table: String::from_str(table),
            phase: Phase::Locating,
            path: String::new(),
            failure: None,
        }
    }

    /// Takes the outcome of the step that the load awaited.
    pub fn advance(self, outcome: Outcome) -> (r: Load)
        ensures
            r@ == self@.advanced(outcome@),
    {
        let Load { table, phase, path, failure } = self;
        match outcome {
            Outcome::WorkingDirectory(directory) => {
                if phase == Phase::Locating {
                    let mut located = directory;
                    located.append("/");
                    located.append(table.as_str());
                    located.append(".cache");
                    Load { table, phase: Phase::Probing, path: located, failure }
                } else {
                    Load { table, phase, path, failure }
                }
            },
            Outcome::Exists(exists) => {
                if phase == Phase::Probing {
                    let next = if exists {
                        Phase::Opening
                    } else {
                        Phase::Connecting
                    };
                    Load { table, phase: next, path, failure }
                } else {
                    Load { table, phase, path, failure }
                }
            },
            Outcome::Success => Load { table, phase: succeed(phase), path, failure },
            Outcome::Failure(cause) => match fault(phase) {
                Some(fault) => Load {
                    table,
                    phase: Phase::Failed,
                    path,
                    failure: Some((fault, cause)),
                },
                None => Load { table, phase, path, failure },
            },
        }
    }

    /// The message of the failure of a load that failed.
    pub fn message(&self) -> (r: String)
        ensures
            r@ == self@.message(),
    {
        match &self.failure {
            Some((fault, cause)) => {
                let prefix = match fault {
                    Fault::WorkingDirectory => {
                        return String::from_str("Error retrieving current directory: ").concat(
                            cause.as_str(),
                        );
                    },
                    Fault::Connect => {
                        return cause.clone();
                    },
                    Fault::Fetch => {
                        return cause.clone();
                    },
                    Fault::Read => String::from_str("Error reading "),
                    Fault::Deserialize => String::from_str("Error deserializing "),
                    Fault::Serialize => String::from_str("Error serializing "),
                    Fault::Write => String::from_str("Error writing "),
                };
                prefix.concat(self.path.as_str()).concat(": ").concat(cause.as_str())
            },
            None => String::new(),
        }
    }
}

} // verus!
