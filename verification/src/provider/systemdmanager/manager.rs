//! Management of systemd units: the decisions that do not need the D-Bus
//! connection.
use vstd::prelude::*;
use crate::provider::error::StackableError;
use crate::provider::states::pod::{action_views, UnitAction};
use crate::fsext::{join_path, path_join};
use crate::provider::systemdmanager::systemd1_api::{ActiveState, JobRemovedResult};
use crate::text::{chars_of, concat2, copy_str, ends_with, seq_ends_with, string_from_chars};

verus! {

/// Enum that lists the supported unit types
#[derive(Clone, Copy, Debug, PartialEq, Eq, Structural)]
pub enum UnitTypes {
    Service,
}

/// The file extension of a unit type, with its dot.
pub open spec fn unit_extension(t: UnitTypes) -> Seq<char> {
    match t {
        UnitTypes::Service => ".service"@,
    }
}

/// The name of a unit file: the unit name with the extension of its type,
/// which is appended unless the name already ends with it.
pub open spec fn unit_file_name(name: Seq<char>, unit_type: UnitTypes) -> Seq<char> {
    if seq_ends_with(name, unit_extension(unit_type)) {
        name
    } else {
        name + unit_extension(unit_type)
    }
}

/// The message of the error for a unit file that exists and is not
/// replaced without force.
pub open spec fn unit_file_exists_message() -> Seq<char> {
    "The unit file exists already and is not replaced without force"@
}

/// The text after the last `/`, all of it where there is none.
pub open spec fn after_last_slash(s: Seq<char>) -> Seq<char>
    decreases s.len(),
{
    if s.len() == 0 {
        s
    } else if s.last() == '/' {
        Seq::empty()
    } else {
        after_last_slash(s.drop_last()).push(s.last())
    }
}

/// The name of the file in the units directory that removing a unit
/// deletes: the last segment of an absolute path, otherwise the unit
/// name itself.
pub open spec fn removal_name(unit: Seq<char>) -> Seq<char> {
    if unit.len() > 0 && unit[0] == '/' {
        after_last_slash(unit)
    } else {
        unit
    }
}

/// The text after the last `/` of `chars`.
fn last_path_segment(chars: &Vec<char>) -> (r: String)
    ensures
        r@ == after_last_slash(chars@),
{
    let mut i = chars.len();
    assert(chars@.subrange(0, i as int) =~= chars@);
    assert(chars@.subrange(i as int, i as int) =~= Seq::<char>::empty());
    while i > 0 && chars[i - 1] != '/'
        invariant
            i <= chars@.len(),
            after_last_slash(chars@) == after_last_slash(chars@.subrange(0, i as int)) + chars@.subrange(
                i as int,
                chars@.len() as int,
            ),
        decreases i,
    {
        let ghost pre = chars@.subrange(0, i as int);
        assert(pre.drop_last() =~= chars@.subrange(0, i - 1));
        assert(after_last_slash(pre) == after_last_slash(pre.drop_last()).push(pre.last()));
        assert(after_last_slash(pre.drop_last()).push(pre.last()) + chars@.subrange(i as int, chars@.len() as int)
            =~= after_last_slash(pre.drop_last()) + chars@.subrange(i - 1, chars@.len() as int));
        i = i - 1;
    }
    assert(after_last_slash(chars@.subrange(0, i as int)) =~= Seq::<char>::empty());
    assert(Seq::<char>::empty() + chars@.subrange(i as int, chars@.len() as int) =~= chars@.subrange(
        i as int,
        chars@.len() as int,
    ));
    string_from_chars(chars, i, chars.len())
}

/// The state of a manager that does not need the D-Bus connection: where
/// unit files are written and whether units run in the user session.
#[derive(Debug)]
pub struct SystemdManager {
    pub units_directory: String,
    pub user_mode: bool,
}

/// Expands a leading `~` to the home directory with `shellexpand::tilde`.
///
/// The home directory comes from the environment of the process, so the
/// contract only says what holds of every outcome: a text that does not
/// start with `~/` (or is not `~` alone) is returned unchanged, otherwise
/// the result ends with what follows the `~`. Which home directory is put
/// in place of `~`, or whether none is found, is left unsaid.
#[verifier::external_body]
fn expand_tilde(input: &str) -> (r: String)
    ensures
        !(input@.len() > 0 && input@[0] == '~' && (input@.len() == 1 || input@[1] == '/')) ==> r@ == input@,
        seq_ends_with(r@, input@.drop_first()) || r@ == input@,
{
    shellexpand::tilde(input).to_string()
}

impl SystemdManager {
    /// Whether units are managed in the user session instead of
    /// system-wide.
    pub fn is_user_mode(&self) -> (r: bool)
        ensures
            r == self.user_mode,
    {
        self.user_mode
    }

    /// Appends the extension of the unit type to the unit name where the
    /// name does not already end with it.
    pub fn get_unit_file_name(name: &str, unit_type: &UnitTypes) -> (r: String)
        ensures
            r@ == unit_file_name(name@, *unit_type),
    {
        let extension = match unit_type {
            UnitTypes::Service => ".service",
        };
        if ends_with(name, extension) {
            String::from_str(name)
        } else {
            concat2(name, extension)
        }
    }
}

/// The directory of system-wide unit files.
pub const SYSTEM_UNITS_DIRECTORY: &'static str = "/lib/systemd/system";

/// The directory of unit files of the user session, before the home
/// directory is put in place of `~`.
pub const USER_UNITS_DIRECTORY: &'static str = "~/.config/systemd/user";

/// What was observed of a path: whether it exists (following symlinks),
/// whether it is a symlink and whether it is a regular file (not
/// following symlinks).
#[derive(Clone, Copy, Debug, PartialEq, Eq, Structural)]
pub struct PathState {
    pub exists: bool,
    pub is_symlink: bool,
    pub is_file: bool,
}

/// How a unit file is put in place.
#[derive(Debug)]
pub struct UnitFilePlan {
    /// Remove the symlink at the target path first.
    pub remove_target: bool,
    /// Remove the regular file in the units directory first.
    pub remove_unit_file: bool,
    /// Write the unit file to the target path.
    pub write: bool,
    /// Link the target file into the units directory.
    pub link: bool,
    /// Replace an existing link in the units directory.
    pub link_force: bool,
}

/// How a systemd job ended.
#[derive(Clone, Copy, Debug, PartialEq, Eq, Structural)]
pub enum JobOutcome {
    /// The job was done.
    Done,
    /// The job ended with another result.
    Failed(JobRemovedResult),
    /// No signal was returned for the job.
    NoSignal,
}

impl SystemdManager {
    /// A manager for the user session or the whole system; the unit files
    /// are written to the given directory of the user session (with the
    /// home directory expanded) or to `/lib/systemd/system`.
    pub fn new(user_mode: bool, user_units_directory: &str) -> (r: SystemdManager)
        ensures
            r.user_mode == user_mode,
            r.units_directory@ == if user_mode {
                user_units_directory@
            } else {
                SYSTEM_UNITS_DIRECTORY@
            },
    {
        let units_directory = if user_mode {
            copy_str(user_units_directory)
        } else {
            String::from_str(SYSTEM_UNITS_DIRECTORY)
        };
        SystemdManager { units_directory, user_mode }
    }

    /// The maximum number of queued D-Bus messages: it must be higher than
    /// the number of containers which can be started and stopped
    /// simultaneously.
    pub fn max_queued_messages(max_pods: u16) -> (r: usize)
        ensures
            r == 2 * max_pods,
    {
        max_pods as usize * 2
    }

    /// The path of a unit file in the units directory.
    pub fn unit_file_path(&self, unit: &str) -> (r: String)
        ensures
            r@ == path_join(self.units_directory@, unit@),
    {
        join_path(self.units_directory.as_str(), unit)
    }

    /// The path the unit file is written to: in the given directory, whose
    /// file is then linked into the units directory, or in the units
    /// directory itself.
    pub fn target_file_path(&self, unit_name: &str, unit_file_path: &Option<String>) -> (r: String)
        ensures
            r@ == match unit_file_path {
                Some(dir) => path_join(dir@, unit_name@),
                None => path_join(self.units_directory@, unit_name@),
            },
    {
        match unit_file_path {
            Some(dir) => join_path(dir.as_str(), unit_name),
            None => join_path(self.units_directory.as_str(), unit_name),
        }
    }

    /// How a unit file is put in place, from what was observed of the
    /// target path and of the path in the units directory.
    ///
    /// Where the file is written to the units directory itself and the
    /// target exists, it is only replaced with `force`: without it the
    /// result is an error and nothing is removed or written. Otherwise:
    ///
    /// * an existing target in the units directory is removed (with
    ///   `force`) and the file is written,
    /// * a regular file in the units directory is removed where it is not
    ///   the target that was removed already,
    /// * a file outside the units directory is written unless it still
    ///   exists, and linked into the units directory, replacing an
    ///   existing link with `force`.
    pub fn plan_unit_file(
        linked: bool,
        force: bool,
        same_path: bool,
        target: PathState,
        unit_file: PathState,
    ) -> (r: Result<UnitFilePlan, StackableError>)
        ensures
            (!linked && target.exists && !force) <==> r is Err,
            r matches Err(e) ==> (e matches StackableError::RuntimeError { msg } && msg@ == unit_file_exists_message()),
            r matches Ok(p) ==> {
                &&& p.remove_target == (!linked && target.exists)
                &&& p.remove_unit_file == (unit_file.exists && unit_file.is_file && !(p.remove_target && same_path))
                &&& p.write == !(target.exists && !(p.remove_target || (p.remove_unit_file && same_path)))
                &&& p.link == linked
                &&& p.link_force == (linked && force)
            },
    {
        if !linked && target.exists && !force {
            return Err(StackableError::RuntimeError { msg: copy_str("The unit file exists already and is not replaced without force") });
        }
        let remove_target = !linked && target.exists;
        let remove_unit_file = unit_file.exists && unit_file.is_file && !(remove_target && same_path);
        let target_gone = remove_target || (remove_unit_file && same_path);
        Ok(UnitFilePlan {
            remove_target,
            remove_unit_file,
            write: !(target.exists && !target_gone),
            link: linked,
            link_force: linked && force,
        })
    }

    /// Removing a unit: it is disabled, its file in the units directory
    /// (see [`SystemdManager::removal_file_path`]) is deleted where it
    /// exists, and the daemon is reloaded where asked for. The steps run
    /// in this order and the first that fails ends the removal with its
    /// error, so the removal succeeds exactly when every step does.
    pub fn removal_actions(unit: &str, daemon_reload: bool) -> (r: Vec<UnitAction>)
        ensures
            action_views(r@) == seq![(3int, unit@), (4int, unit@)] + (if daemon_reload {
                seq![(5int, Seq::<char>::empty())]
            } else {
                Seq::empty()
            }),
    {
        let mut r: Vec<UnitAction> = Vec::new();
        r.push(UnitAction::Disable(copy_str(unit)));
        r.push(UnitAction::Remove(copy_str(unit)));
        if daemon_reload {
            r.push(UnitAction::Reload);
        }
        assert(action_views(r@) =~= seq![(3int, unit@), (4int, unit@)] + (if daemon_reload {
            seq![(5int, Seq::<char>::empty())]
        } else {
            Seq::empty()
        }));
        r
    }

    /// The file that removing a unit deletes: for a unit given by name
    /// the file of that name in the units directory; for a unit given by
    /// the absolute path of a file that was linked into the units
    /// directory, the link there, named like the file, which itself is
    /// kept.
    pub fn removal_file_path(&self, unit: &str) -> (r: String)
        ensures
            r@ == path_join(self.units_directory@, removal_name(unit@)),
    {
        let chars = chars_of(unit);
        if chars.len() > 0 && chars[0] == '/' {
            let name = last_path_segment(&chars);
            join_path(self.units_directory.as_str(), name.as_str())
        } else {
            join_path(self.units_directory.as_str(), unit)
        }
    }

    /// How calling a systemd method ended: the subscription to the
    /// signals that remove jobs is made first, then the method is called
    /// once and the job it returns is awaited. A failed subscription or
    /// call is an error with its message; otherwise the job succeeded
    /// exactly where the signal for it says done, and no signal or another
    /// result is an error.
    pub fn call_outcome(
        subscription: Result<(), String>,
        job: Result<(), String>,
        signal: Option<JobRemovedResult>,
    ) -> (r: Result<(), StackableError>)
        ensures
            subscription matches Err(m) ==> (r matches Err(StackableError::RuntimeError { msg }) && msg@ == m@),
            subscription is Ok ==> (job matches Err(m) ==> (r matches Err(StackableError::RuntimeError { msg }) && msg@ == m@)),
            subscription is Ok && job is Ok ==> (r is Ok <==> signal == Some(JobRemovedResult::Done)),
            subscription is Ok && job is Ok && signal is None ==> (r matches Err(StackableError::RuntimeError { msg })
                && msg@ == "No signal was returned for the systemd job"@),
            subscription is Ok && job is Ok ==> (signal matches Some(s) ==> (s != JobRemovedResult::Done ==> (
                r matches Err(StackableError::RuntimeError { msg }) && msg@ == "The systemd job failed"@))),
    {
        if let Err(m) = subscription {
            return Err(StackableError::RuntimeError { msg: m });
        }
        if let Err(m) = job {
            return Err(StackableError::RuntimeError { msg: m });
        }
        match SystemdManager::job_outcome(signal) {
            JobOutcome::Done => Ok(()),
            JobOutcome::Failed(_) => Err(StackableError::RuntimeError { msg: copy_str("The systemd job failed") }),
            JobOutcome::NoSignal => Err(StackableError::RuntimeError {
                msg: copy_str("No signal was returned for the systemd job"),
            }),
        }
    }

    /// A unit runs where its active state is `active`.
    pub fn is_running_state(state: ActiveState) -> (r: bool)
        ensures
            r == (state == ActiveState::Active),
    {
        state == ActiveState::Active
    }

    /// How a job ended from the result of the signal that removed it: done
    /// is success, any other result a failure.
    pub fn job_outcome(result: Option<JobRemovedResult>) -> (r: JobOutcome)
        ensures
            r == match result {
                Some(JobRemovedResult::Done) => JobOutcome::Done,
                Some(other) => JobOutcome::Failed(other),
                None => JobOutcome::NoSignal,
            },
    {
        match result {
            Some(JobRemovedResult::Done) => JobOutcome::Done,
            Some(other) => JobOutcome::Failed(other),
            None => JobOutcome::NoSignal,
        }
    }
}

/// Naming a unit file twice gives the same name as naming it once: the
/// extension is not appended again.
pub proof fn lemma_unit_file_name_idempotent(name: Seq<char>, unit_type: UnitTypes)
    ensures
        unit_file_name(unit_file_name(name, unit_type), unit_type) == unit_file_name(name, unit_type),
{
    let ext = unit_extension(unit_type);
    if !seq_ends_with(name, ext) {
        let n = name + ext;
        assert(n.subrange(n.len() - ext.len(), n.len() as int) =~= ext);
    }
}

impl SystemdManager {
    /// The manager for the user session, with its unit files in the
    /// systemd directory of the user (`~` expanded to the home directory),
    /// or for the whole system.
    pub fn for_mode(user_mode: bool) -> (r: SystemdManager)
        ensures
            r.user_mode == user_mode,
            !user_mode ==> r.units_directory@ == SYSTEM_UNITS_DIRECTORY@,
            user_mode ==> (seq_ends_with(r.units_directory@, "/.config/systemd/user"@)
                || r.units_directory@ == USER_UNITS_DIRECTORY@),
    {
        if user_mode {
            let directory = expand_tilde(USER_UNITS_DIRECTORY);
            proof {
                reveal_strlit("~/.config/systemd/user");
                reveal_strlit("/.config/systemd/user");
                assert(USER_UNITS_DIRECTORY@.drop_first() =~= "/.config/systemd/user"@);
            }
            SystemdManager::new(true, directory.as_str())
        } else {
            SystemdManager::new(false, "")
        }
    }
}

} // verus!
