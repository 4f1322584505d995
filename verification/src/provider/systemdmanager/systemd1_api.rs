//! The values that the D-Bus interface of systemd exchanges: their names
//! in kebab-case and how they are parsed back.
use vstd::prelude::*;
use crate::text::{push_char, str_eq};

verus! {

/// The text in kebab-case as `inflector::cases::kebabcase::to_kebab_case`
/// gives it.
pub uninterp spec fn inflector_kebab_case(s: Seq<char>) -> Seq<char>;

/// Converts the text to kebab-case with
/// `inflector::cases::kebabcase::to_kebab_case`. The contract names the
/// result with `inflector_kebab_case`, a function of the text alone; what
/// it is on a given text is left unsaid.
#[verifier::external_body]
fn to_kebab_case(s: &str) -> (r: String)
    ensures
        r@ == inflector_kebab_case(s@),
{
    inflector::cases::kebabcase::to_kebab_case(s)
}

/// Type of an entry in a changes list
#[derive(Clone, Copy, Debug, PartialEq, Eq, Structural)]
pub enum ChangeType {
    Symlink,
    Unlink,
}

/// The kebab-case name of a change type.
pub open spec fn change_type_name(t: ChangeType) -> Seq<char> {
    match t {
        ChangeType::Symlink => "symlink"@,
        ChangeType::Unlink => "unlink"@,
    }
}

/// The change type with the given name.
pub open spec fn parse_change_type(s: Seq<char>) -> Option<ChangeType> {
    if s == "symlink"@ {
        Some(ChangeType::Symlink)
    } else if s == "unlink"@ {
        Some(ChangeType::Unlink)
    } else {
        None
    }
}

impl ChangeType {
    /// The name in kebab-case.
    pub fn to_string(&self) -> (r: String)
        ensures
            r@ == change_type_name(*self),
    {
        match self {
            ChangeType::Symlink => String::from_str("symlink"),
            ChangeType::Unlink => String::from_str("unlink"),
        }
    }

    /// Parses the name in kebab-case.
    pub fn from_str(s: &str) -> (r: Option<ChangeType>)
        ensures
            r == parse_change_type(s@),
    {
        if str_eq(s, "symlink") {
            Some(ChangeType::Symlink)
        } else if str_eq(s, "unlink") {
            Some(ChangeType::Unlink)
        } else {
            None
        }
    }
}

/// Entry of a changes list
#[derive(Debug)]
pub struct Change {
    pub change_type: ChangeType,
    pub filename: String,
    pub destination: String,
}

/// Mode in which a unit will be started
#[derive(Clone, Copy, Debug, PartialEq, Eq, Structural)]
pub enum StartMode {
    /// The unit and its dependencies will be started, possibly replacing
    /// already queued jobs that conflict with it.
    Replace,
    /// The unit and its dependencies will be started, but will fail if
    /// this would change an already queued job.
    Fail,
    /// The unit in question will be started and all units that aren't
    /// dependencies of it will be terminated.
    Isolate,
    /// The unit will be started but all its dependencies will be ignored.
    IgnoreDependencies,
    /// The unit will be started but the requirement dependencies will be
    /// ignored.
    IgnoreRequirements,
}

/// The kebab-case name of a start mode.
pub open spec fn start_mode_name(m: StartMode) -> Seq<char> {
    match m {
        StartMode::Replace => "replace"@,
        StartMode::Fail => "fail"@,
        StartMode::Isolate => "isolate"@,
        StartMode::IgnoreDependencies => "ignore-dependencies"@,
        StartMode::IgnoreRequirements => "ignore-requirements"@,
    }
}

impl StartMode {
    /// The text that is sent to systemd: the name in kebab-case.
    pub fn serialized(&self) -> (r: String)
        ensures
            r@ == inflector_kebab_case(start_mode_name(*self)),
    {
        to_kebab_case(self.as_ref())
    }

    /// The name in kebab-case, as it is displayed and sent to systemd.
    pub fn to_string(&self) -> (r: String)
        ensures
            r@ == start_mode_name(*self),
    {
        String::from_str(self.as_ref())
    }

    /// The name in kebab-case.
    pub fn as_ref(&self) -> (r: &'static str)
        ensures
            r@ == start_mode_name(*self),
    {
        match self {
            StartMode::Replace => "replace",
            StartMode::Fail => "fail",
            StartMode::Isolate => "isolate",
            StartMode::IgnoreDependencies => "ignore-dependencies",
            StartMode::IgnoreRequirements => "ignore-requirements",
        }
    }
}

/// Mode in which a unit will be stopped
#[derive(Clone, Copy, Debug, PartialEq, Eq, Structural)]
pub enum StopMode {
    /// The unit and its dependencies will be stopped, possibly replacing
    /// already queued jobs that conflict with it.
    Replace,
    /// The unit and its dependencies will be stopped, but will fail if
    /// this would change an already queued job.
    Fail,
    /// The unit will be stopped but all its dependencies will be ignored.
    IgnoreDependencies,
    /// The unit will be stopped but the requirement dependencies will be
    /// ignored.
    IgnoreRequirements,
}

/// The kebab-case name of a stop mode.
pub open spec fn stop_mode_name(m: StopMode) -> Seq<char> {
    match m {
        StopMode::Replace => "replace"@,
        StopMode::Fail => "fail"@,
        StopMode::IgnoreDependencies => "ignore-dependencies"@,
        StopMode::IgnoreRequirements => "ignore-requirements"@,
    }
}

impl StopMode {
    /// The text that is sent to systemd: the name in kebab-case.
    pub fn serialized(&self) -> (r: String)
        ensures
            r@ == inflector_kebab_case(stop_mode_name(*self)),
    {
        to_kebab_case(self.as_ref())
    }

    /// The name in kebab-case, as it is displayed and sent to systemd.
    pub fn to_string(&self) -> (r: String)
        ensures
            r@ == stop_mode_name(*self),
    {
        String::from_str(self.as_ref())
    }

    /// The name in kebab-case.
    pub fn as_ref(&self) -> (r: &'static str)
        ensures
            r@ == stop_mode_name(*self),
    {
        match self {
            StopMode::Replace => "replace",
            StopMode::Fail => "fail",
            StopMode::IgnoreDependencies => "ignore-dependencies",
            StopMode::IgnoreRequirements => "ignore-requirements",
        }
    }
}

/// Signals of the manager object.
#[derive(Clone, Copy, Debug, PartialEq, Eq, Structural)]
pub enum ManagerSignals {
    /// Sent out each time a job is dequeued
    JobRemoved,
}

/// The name of a signal.
pub open spec fn signal_name(s: ManagerSignals) -> Seq<char> {
    match s {
        ManagerSignals::JobRemoved => "JobRemoved"@,
    }
}

impl ManagerSignals {
    /// The name of the signal.
    pub fn to_string(&self) -> (r: String)
        ensures
            r@ == signal_name(*self),
    {
        String::from_str(self.as_static_str())
    }

    /// The name of the signal, as it is subscribed to.
    pub fn as_static_str(&self) -> (r: &'static str)
        ensures
            r@ == signal_name(*self),
    {
        match self {
            ManagerSignals::JobRemoved => "JobRemoved",
        }
    }
}

/// Result in the `JobRemoved` signal.
#[derive(Clone, Copy, Debug, PartialEq, Eq, Structural)]
pub enum JobRemovedResult {
    /// Indicates successful execution of a job
    Done,
    /// Indicates that a job has been canceled before it finished
    /// execution.
    Canceled,
    /// Indicates that the job timeout was reached
    Timeout,
    /// Indicates that the job failed
    Failed,
    /// Indicates that a job this job depended on failed and the job hence
    /// was removed as well
    Dependency,
    /// Indicates that a job was skipped because it didn't apply to the
    /// unit's current state
    Skipped,
}

/// The kebab-case name of a job result.
pub open spec fn job_result_name(r: JobRemovedResult) -> Seq<char> {
    match r {
        JobRemovedResult::Done => "done"@,
        JobRemovedResult::Canceled => "canceled"@,
        JobRemovedResult::Timeout => "timeout"@,
        JobRemovedResult::Failed => "failed"@,
        JobRemovedResult::Dependency => "dependency"@,
        JobRemovedResult::Skipped => "skipped"@,
    }
}

/// The job result with the given name.
pub open spec fn parse_job_result(s: Seq<char>) -> Option<JobRemovedResult> {
    if s == "done"@ {
        Some(JobRemovedResult::Done)
    } else if s == "canceled"@ {
        Some(JobRemovedResult::Canceled)
    } else if s == "timeout"@ {
        Some(JobRemovedResult::Timeout)
    } else if s == "failed"@ {
        Some(JobRemovedResult::Failed)
    } else if s == "dependency"@ {
        Some(JobRemovedResult::Dependency)
    } else if s == "skipped"@ {
        Some(JobRemovedResult::Skipped)
    } else {
        None
    }
}

impl JobRemovedResult {
    /// The name in kebab-case.
    pub fn to_string(&self) -> (r: String)
        ensures
            r@ == job_result_name(*self),
    {
        match self {
            JobRemovedResult::Done => String::from_str("done"),
            JobRemovedResult::Canceled => String::from_str("canceled"),
            JobRemovedResult::Timeout => String::from_str("timeout"),
            JobRemovedResult::Failed => String::from_str("failed"),
            JobRemovedResult::Dependency => String::from_str("dependency"),
            JobRemovedResult::Skipped => String::from_str("skipped"),
        }
    }

    /// Parses the name in kebab-case.
    pub fn from_str(s: &str) -> (r: Option<JobRemovedResult>)
        ensures
            r == parse_job_result(s@),
    {
        if str_eq(s, "done") {
            Some(JobRemovedResult::Done)
        } else if str_eq(s, "canceled") {
            Some(JobRemovedResult::Canceled)
        } else if str_eq(s, "timeout") {
            Some(JobRemovedResult::Timeout)
        } else if str_eq(s, "failed") {
            Some(JobRemovedResult::Failed)
        } else if str_eq(s, "dependency") {
            Some(JobRemovedResult::Dependency)
        } else if str_eq(s, "skipped") {
            Some(JobRemovedResult::Skipped)
        } else {
            None
        }
    }
}

/// Message body of the `JobRemoved` signal
#[derive(Debug)]
pub struct JobRemovedSignal {
    /// Numeric job ID
    pub id: u32,
    /// Bus path
    pub job: String,
    /// Primary unit name for this job
    pub unit: String,
    /// Result
    pub result: JobRemovedResult,
}

/// ActiveState contains a state value that reflects whether the unit is
/// currently active or not.
#[derive(Clone, Copy, Debug, PartialEq, Eq, Structural)]
pub enum ActiveState {
    /// The unit is active.
    Active,
    /// The unit is active and currently reloading its configuration.
    Reloading,
    /// The unit is inactive and the previous run was successful or no
    /// previous run has taken place yet.
    Inactive,
    /// The unit is inactive and the previous run was not successful.
    Failed,
    /// The unit has previously been inactive but is currently in the
    /// process of entering an active state.
    Activating,
    /// The unit is currently in the process of deactivation.
    Deactivating,
}

/// The kebab-case name of an active state.
pub open spec fn active_state_name(s: ActiveState) -> Seq<char> {
    match s {
        ActiveState::Active => "active"@,
        ActiveState::Reloading => "reloading"@,
        ActiveState::Inactive => "inactive"@,
        ActiveState::Failed => "failed"@,
        ActiveState::Activating => "activating"@,
        ActiveState::Deactivating => "deactivating"@,
    }
}

/// The active state with the given name.
pub open spec fn parse_active_state(s: Seq<char>) -> Option<ActiveState> {
    if s == "active"@ {
        Some(ActiveState::Active)
    } else if s == "reloading"@ {
        Some(ActiveState::Reloading)
    } else if s == "inactive"@ {
        Some(ActiveState::Inactive)
    } else if s == "failed"@ {
        Some(ActiveState::Failed)
    } else if s == "activating"@ {
        Some(ActiveState::Activating)
    } else if s == "deactivating"@ {
        Some(ActiveState::Deactivating)
    } else {
        None
    }
}

impl ActiveState {
    /// The name in kebab-case.
    pub fn to_string(&self) -> (r: String)
        ensures
            r@ == active_state_name(*self),
    {
        match self {
            ActiveState::Active => String::from_str("active"),
            ActiveState::Reloading => String::from_str("reloading"),
            ActiveState::Inactive => String::from_str("inactive"),
            ActiveState::Failed => String::from_str("failed"),
            ActiveState::Activating => String::from_str("activating"),
            ActiveState::Deactivating => String::from_str("deactivating"),
        }
    }

    /// Parses the name in kebab-case, as systemd sends it.
    pub fn from_str(s: &str) -> (r: Option<ActiveState>)
        ensures
            r == parse_active_state(s@),
    {
        if str_eq(s, "active") {
            Some(ActiveState::Active)
        } else if str_eq(s, "reloading") {
            Some(ActiveState::Reloading)
        } else if str_eq(s, "inactive") {
            Some(ActiveState::Inactive)
        } else if str_eq(s, "failed") {
            Some(ActiveState::Failed)
        } else if str_eq(s, "activating") {
            Some(ActiveState::Activating)
        } else if str_eq(s, "deactivating") {
            Some(ActiveState::Deactivating)
        } else {
            None
        }
    }
}

/// The lower-case hexadecimal digit of a number below 16.
pub open spec fn hex_digit(n: int) -> char {
    if n < 10 {
        ((n + 48) as u8) as char
    } else {
        ((n + 87) as u8) as char
    }
}

/// Each byte as two lower-case hexadecimal digits.
pub open spec fn hex_text(bytes: Seq<u8>) -> Seq<char>
    decreases bytes.len(),
{
    if bytes.len() == 0 {
        Seq::empty()
    } else {
        hex_text(bytes.drop_last()) + seq![
            hex_digit(bytes.last() as int / 16),
            hex_digit(bytes.last() as int % 16),
        ]
    }
}

/// The digit for a number below 16.
fn hex_char(n: u8) -> (c: char)
    requires
        n < 16,
    ensures
        c == hex_digit(n as int),
{
    if n < 10 {
        (n + 48) as char
    } else {
        (n + 87) as char
    }
}

/// Unique ID for a runtime cycle of a unit
#[derive(Clone, Debug, PartialEq, Eq)]
pub struct InvocationId(pub Vec<u8>);

impl InvocationId {
    /// The bytes of the ID in lower-case hexadecimal, two digits each.
    pub fn to_string(&self) -> (r: String)
        ensures
            r@ == hex_text(self.0@),
    {
        let mut r = String::new();
        let mut i: usize = 0;
        while i < self.0.len()
            invariant
                i <= self.0@.len(),
                r@ == hex_text(self.0@.subrange(0, i as int)),
            decreases self.0@.len() - i,
        {
            let b = self.0[i];
            push_char(&mut r, hex_char(b / 16));
            push_char(&mut r, hex_char(b % 16));
            assert(self.0@.subrange(0, i + 1).drop_last() =~= self.0@.subrange(0, i as int));
            assert(r@ =~= hex_text(self.0@.subrange(0, i + 1)));
            i = i + 1;
        }
        assert(self.0@.subrange(0, i as int) =~= self.0@);
        r
    }
}

/// The name of a change type reads back as the same change type.
pub proof fn lemma_change_type_round_trip(t: ChangeType)
    ensures
        parse_change_type(change_type_name(t)) == Some(t),
{
    reveal_strlit("symlink");
    reveal_strlit("unlink");
    assert("symlink"@.len() == 7 && "symlink"@[0] == 's');
    assert("unlink"@.len() == 6 && "unlink"@[0] == 'u');
}

/// The name of a job result reads back as the same job result.
pub proof fn lemma_job_result_round_trip(r: JobRemovedResult)
    ensures
        parse_job_result(job_result_name(r)) == Some(r),
{
    reveal_strlit("done");
    reveal_strlit("canceled");
    reveal_strlit("timeout");
    reveal_strlit("failed");
    reveal_strlit("dependency");
    reveal_strlit("skipped");
    assert("done"@.len() == 4 && "done"@[0] == 'd');
    assert("canceled"@.len() == 8 && "canceled"@[0] == 'c');
    assert("timeout"@.len() == 7 && "timeout"@[0] == 't');
    assert("failed"@.len() == 6 && "failed"@[0] == 'f');
    assert("dependency"@.len() == 10 && "dependency"@[0] == 'd');
    assert("skipped"@.len() == 7 && "skipped"@[0] == 's');
}

/// The name of an active state reads back as the same active state.
pub proof fn lemma_active_state_round_trip(s: ActiveState)
    ensures
        parse_active_state(active_state_name(s)) == Some(s),
{
    reveal_strlit("active");
    reveal_strlit("reloading");
    reveal_strlit("inactive");
    reveal_strlit("failed");
    reveal_strlit("activating");
    reveal_strlit("deactivating");
    assert("active"@.len() == 6 && "active"@[0] == 'a');
    assert("reloading"@.len() == 9 && "reloading"@[0] == 'r');
    assert("inactive"@.len() == 8 && "inactive"@[0] == 'i');
    assert("failed"@.len() == 6 && "failed"@[0] == 'f');
    assert("activating"@.len() == 10 && "activating"@[0] == 'a');
    assert("deactivating"@.len() == 12 && "deactivating"@[0] == 'd');
}

} // verus!
