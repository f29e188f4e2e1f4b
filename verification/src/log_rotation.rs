//! Size-based log rotation: when a log is rotated, which files move where,
//! and what a rotation leaves behind.
//!
//! The engine does not touch the filesystem. It is told what exists and
//! answers with the steps to carry out.

use crate::config::LogRotationConfig;
use crate::error::{Error, ErrorView};
use crate::paths::{join_path, joined_path, parent_of, parent_path, stem_of, stem_of_path};
use crate::text::{
    chars_of,
    decimal_digits,
    decimal_exceeds,
    digits_value,
    is_positive_decimal,
    lemma_decimal_of_positive,
    lemma_positive_decimal_value,
    push_decimal,
    strings_view,
};
use vstd::prelude::*;
use vstd::string::StringExecFns;

verus! {

/// File name of the backup numbered `index` of the log whose stem is `stem`.
pub open spec fn backup_file_name(stem: Seq<char>, index: nat) -> Seq<char> {
    stem + "."@ + decimal_digits(index) + ".log"@
}

/// Path of the backup numbered `index` of the log with stem `stem` in `dir`.
pub open spec fn backup_path(dir: Seq<char>, stem: Seq<char>, index: nat) -> Seq<char> {
    joined_path(dir, backup_file_name(stem, index))
}

/// Whether the snapshot `present` says that the backup numbered `index`
/// exists. `present[i]` speaks of the backup numbered `i + 1`; a backup that
/// the snapshot does not cover counts as absent.
pub open spec fn present_at(present: Seq<bool>, index: nat) -> bool {
    1 <= index <= present.len() && present[index - 1]
}

/// One filesystem operation of a rotation.
#[derive(Debug, PartialEq, Eq)]
pub enum RotationStep {
    /// Rename the backup numbered `index` to the next number, replacing what
    /// is there. A failure of this step is ignored.
    ShiftBackup { index: usize, from: String, to: String },
    /// Rename the live log to the backup numbered 1, replacing what is there.
    ArchiveLive { from: String, to: String },
    /// Create the live log anew, empty.
    CreateLive { path: String },
}

/// Mathematical value of a [`RotationStep`].
pub enum StepView {
    ShiftBackup { index: nat, from: Seq<char>, to: Seq<char> },
    ArchiveLive { from: Seq<char>, to: Seq<char> },
    CreateLive { path: Seq<char> },
}

impl View for RotationStep {
    type V = StepView;

    open spec fn view(&self) -> StepView {
        match self {
            RotationStep::ShiftBackup { index, from, to } => StepView::ShiftBackup {
                index: *index as nat,
                from: from@,
                to: to@,
            },
            RotationStep::ArchiveLive { from, to } => StepView::ArchiveLive { from: from@, to: to@ },
            RotationStep::CreateLive { path } => StepView::CreateLive { path: path@ },
        }
    }
}

impl StepView {
    /// Whether a failure of the step fails the rotation: the shift of a
    /// backup may fail, the archiving of the live log and the creation of
    /// the new one may not.
    pub open spec fn is_required(self) -> bool {
        !(self is ShiftBackup)
    }
}

impl RotationStep {
    /// Whether a failure of the step fails the rotation. Where it does
    /// not, the failure is passed over and the rotation goes on.
    pub fn must_succeed(&self) -> (required: bool)
        ensures
            required == self@.is_required(),
    {
        match self {
            RotationStep::ShiftBackup { .. } => false,
            _ => true,
        }
    }
}

/// Views of the steps of `steps`, in order.
pub open spec fn steps_view(steps: Seq<RotationStep>) -> Seq<StepView> {
    Seq::new(steps.len(), |i: int| steps[i]@)
}

/// The step that moves the backup numbered `index` one number up.
pub open spec fn shift_step(dir: Seq<char>, stem: Seq<char>, index: nat) -> StepView {
    StepView::ShiftBackup {
        index,
        from: backup_path(dir, stem, index),
        to: backup_path(dir, stem, index + 1),
    }
}

/// The shifts of the existing backups numbered `top` down to 1, highest
/// number first.
pub open spec fn shift_steps(dir: Seq<char>, stem: Seq<char>, present: Seq<bool>, top: nat) -> Seq<
    StepView,
>
    decreases top,
{
    if top == 0 {
        Seq::empty()
    } else if present_at(present, top) {
        seq![shift_step(dir, stem, top)] + shift_steps(dir, stem, present, (top - 1) as nat)
    } else {
        shift_steps(dir, stem, present, (top - 1) as nat)
    }
}

/// The steps of one rotation of the log `live` with stem `stem` in `dir`
/// under a policy that keeps `max_files` backups: every existing backup from
/// `max_files - 1` down to 1 moves one number up, the live log becomes
/// backup 1, and a new live log is created.
pub open spec fn rotation_steps(
    dir: Seq<char>,
    stem: Seq<char>,
    live: Seq<char>,
    max_files: nat,
    present: Seq<bool>,
) -> Seq<StepView> {
    let top = if max_files == 0 {
        0nat
    } else {
        (max_files - 1) as nat
    };
    shift_steps(dir, stem, present, top) + seq![
        StepView::ArchiveLive { from: live, to: backup_path(dir, stem, 1) },
        StepView::CreateLive { path: live },
    ]
}

/// The paths of the backups numbered `from + 1` to `max_files` that exist,
/// lowest number first.
pub open spec fn rotated_paths(
    dir: Seq<char>,
    stem: Seq<char>,
    present: Seq<bool>,
    from: nat,
    max_files: nat,
) -> Seq<Seq<char>>
    decreases max_files - from,
{
    if from >= max_files {
        Seq::empty()
    } else if present_at(present, from + 1) {
        seq![backup_path(dir, stem, from + 1)] + rotated_paths(
            dir,
            stem,
            present,
            from + 1,
            max_files,
        )
    } else {
        rotated_paths(dir, stem, present, from + 1, max_files)
    }
}

/// The paths of the backups numbered `from + 1` to `to`, lowest first.
pub open spec fn backup_paths(dir: Seq<char>, stem: Seq<char>, from: nat, to: nat) -> Seq<
    Seq<char>,
>
    decreases to - from,
{
    if from >= to {
        Seq::empty()
    } else {
        seq![backup_path(dir, stem, from + 1)] + backup_paths(dir, stem, from + 1, to)
    }
}

/// Whether `name` is the file name of a backup of the log with the stem
/// `stem` whose number is greater than `max_files`.
pub open spec fn names_backup_beyond(stem: Seq<char>, name: Seq<char>, max_files: nat) -> bool {
    exists|i: nat| i > max_files && name == #[trigger] backup_file_name(stem, i)
}

/// The paths in `dir` of those of the file names `names` that name a backup
/// of the log with the stem `stem` beyond the window of `max_files`, in
/// the order of `names`.
pub open spec fn stale_backups(
    dir: Seq<char>,
    stem: Seq<char>,
    names: Seq<Seq<char>>,
    max_files: nat,
) -> Seq<Seq<char>>
    decreases names.len(),
{
    if names.len() == 0 {
        Seq::empty()
    } else if names_backup_beyond(stem, names.last(), max_files) {
        stale_backups(dir, stem, names.drop_last(), max_files).push(
            joined_path(dir, names.last()),
        )
    } else {
        stale_backups(dir, stem, names.drop_last(), max_files)
    }
}

/// How the file name of a backup is made up: the stem, a dot, the number
/// in decimal notation, and `.log`.
pub proof fn lemma_backup_name_shape(stem: Seq<char>, index: nat)
    ensures
        ({
            let name = backup_file_name(stem, index);
            let digits = decimal_digits(index);
            &&& digits.len() >= 1
            &&& name.len() == stem.len() + digits.len() + 5
            &&& forall|j: int| 0 <= j < stem.len() ==> name[j] == stem[j]
            &&& name[stem.len() as int] == '.'
            &&& name.subrange(stem.len() as int + 1, name.len() - 4) == digits
            &&& name[name.len() - 4] == '.'
            &&& name[name.len() - 3] == 'l'
            &&& name[name.len() - 2] == 'o'
            &&& name[name.len() - 1] == 'g'
        }),
{
    reveal_strlit(".");
    reveal_strlit(".log");
    let name = backup_file_name(stem, index);
    let digits = decimal_digits(index);
    assert("."@.len() == 1 && "."@[0] == '.');
    assert(".log"@.len() == 4);
    assert(".log"@[0] == '.' && ".log"@[1] == 'l' && ".log"@[2] == 'o' && ".log"@[3] == 'g');
    assert(name.subrange(stem.len() as int + 1, name.len() - 4) =~= digits);
}

/// The failure for a log path without a parent directory.
pub open spec fn invalid_log_path() -> ErrorView {
    ErrorView::Other("Invalid log path"@)
}

/// The failure for a log path that names no file.
pub open spec fn invalid_log_name() -> ErrorView {
    ErrorView::Other("Invalid log file name"@)
}

/// Directory and stem of a log path, or the failure that the path gives.
pub open spec fn log_location(log_path: Seq<char>) -> Result<(Seq<char>, Seq<char>), ErrorView> {
    match parent_path(log_path) {
        None => Err(invalid_log_path()),
        Some(dir) => match stem_of_path(log_path) {
            None => Err(invalid_log_name()),
            Some(stem) => Ok((dir, stem)),
        },
    }
}

/// Whether the policy `config` asks for a rotation of a log, given the size
/// of its file if it exists: never when rotation is disabled or the file
/// does not exist, else when the file is larger than the policy allows.
pub open spec fn rotation_due(config: LogRotationConfig, size: Option<u64>) -> bool {
    config.enabled && (size matches Some(n) && n > config.max_file_size)
}

/// Decides when a log is rotated and plans the rotation.
#[derive(Debug, Clone, Copy, PartialEq, Eq)]
pub struct LogRotator {
    config: LogRotationConfig,
}

/// Directory and stem of a log path, or the failure that the path gives.
pub fn locate(log_path: &str) -> (r: Result<(String, String), Error>)
    ensures
        match r {
            Ok((dir, stem)) => log_location(log_path@) == Ok::<
                (Seq<char>, Seq<char>),
                ErrorView,
            >((dir@, stem@)),
            Err(e) => log_location(log_path@) == Err::<(Seq<char>, Seq<char>), ErrorView>(e@),
        },
{
    match parent_of(log_path) {
        None => Err(Error::Other(String::from_str("Invalid log path"))),
        Some(dir) => match stem_of(log_path) {
            None => Err(Error::Other(String::from_str("Invalid log file name"))),
            Some(stem) => Ok((dir, stem)),
        },
    }
}

/// Path of the backup numbered `index` of the log with stem `stem` in `dir`.
pub fn backup_path_of(dir: &str, stem: &str, index: usize) -> (path: String)
    ensures
        path@ == backup_path(dir@, stem@, index as nat),
{
    let mut name = String::from_str(stem);
    name.append(".");
    push_decimal(&mut name, index as u64);
    name.append(".log");
    assert(name@ =~= backup_file_name(stem@, index as nat));
    join_path(dir, name.as_str())
}

fn snapshot_has(present: &Vec<bool>, index: usize) -> (b: bool)
    ensures
        b == present_at(present@, index as nat),
{
    index >= 1 && index <= present.len() && present[index - 1]
}

impl LogRotator {
    /// The policy that this rotator applies.
    pub closed spec fn policy(&self) -> LogRotationConfig {
        self.config
    }

    /// A rotator for the policy `config`.
    pub fn new(config: LogRotationConfig) -> (r: Self)
        ensures
            r.policy() == config,
    {
        LogRotator { config }
    }

    /// The policy that this rotator applies.
    pub fn config(&self) -> (c: LogRotationConfig)
        ensures
            c == self.policy(),
    {
        self.config
    }

    /// Size of a log for the purpose of rotation, given the size of the file
    /// if it exists: a log that does not exist has size 0.
    pub fn get_log_size(&self, size: Option<u64>) -> (n: u64)
        ensures
            n == match size {
                Some(s) => s,
                None => 0,
            },
    {
        match size {
            Some(s) => s,
            None => 0,
        }
    }

    /// Whether the policy asks for a rotation of a log, given the size of its
    /// file if it exists.
    pub open spec fn rotation_due(&self, size: Option<u64>) -> bool {
        rotation_due(self.policy(), size)
    }

    /// Whether a log has to be rotated, given the size of its file if it
    /// exists: never when rotation is disabled or the file does not exist,
    /// else when the file is larger than the policy allows.
    pub fn needs_rotation(&self, size: Option<u64>) -> (due: bool)
        ensures
            due == self.rotation_due(size),
    {
        if !self.config.enabled {
            return false;
        }
        let n = self.get_log_size(size);
        n > self.config.max_file_size
    }

    /// The paths of the backups that a caller has to look for before it asks
    /// for a rotation or a listing: those numbered 1 to `max_files`.
    pub fn backup_candidates(&self, log_path: &str) -> (r: Result<Vec<String>, Error>)
        ensures
            match r {
                Ok(paths) => log_location(log_path@) matches Ok((dir, stem)) && strings_view(paths@)
                    == backup_paths(dir, stem, 0, self.policy().max_files as nat),
                Err(e) => log_location(log_path@) == Err::<(Seq<char>, Seq<char>), ErrorView>(e@),
            },
    {
        let (dir, stem) = match locate(log_path) {
            Ok(found) => found,
            Err(e) => {
                return Err(e);
            },
        };
        let paths = paths_between(dir.as_str(), stem.as_str(), 0, self.config.max_files);
        Ok(paths)
    }

    /// The steps of one rotation of the log `live` with the stem `stem` in
    /// the directory `dir`, where `present` tells which backups exist.
    pub fn rotation_plan(&self, dir: &str, stem: &str, live: &str, present: &Vec<bool>) -> (steps:
        Vec<RotationStep>)
        ensures
            steps_view(steps@) == rotation_steps(
                dir@,
                stem@,
                live@,
                self.policy().max_files as nat,
                present@,
            ),
    {
        let top: usize = if self.config.max_files == 0 {
            0
        } else {
            self.config.max_files - 1
        };
        let mut steps: Vec<RotationStep> = Vec::new();
        let mut i: usize = top;
        while i > 0
            invariant
                i <= top,
                top < usize::MAX,
                steps_view(steps@) + shift_steps(dir@, stem@, present@, i as nat) == shift_steps(
                    dir@,
                    stem@,
                    present@,
                    top as nat,
                ),
            decreases i,
        {
            if snapshot_has(present, i) {
                let from = backup_path_of(dir, stem, i);
                let to = backup_path_of(dir, stem, i + 1);
                let ghost before = steps_view(steps@);
                steps.push(RotationStep::ShiftBackup { index: i, from, to });
                assert(steps_view(steps@) =~= before.push(shift_step(dir@, stem@, i as nat)));
                assert(before.push(shift_step(dir@, stem@, i as nat)) + shift_steps(
                    dir@,
                    stem@,
                    present@,
                    (i - 1) as nat,
                ) =~= before + shift_steps(dir@, stem@, present@, i as nat));
            }
            i -= 1;
        }
        let ghost shifts = steps_view(steps@);
        assert(shifts =~= shift_steps(dir@, stem@, present@, top as nat));
        let first = backup_path_of(dir, stem, 1);
        steps.push(RotationStep::ArchiveLive { from: String::from_str(live), to: first });
        steps.push(RotationStep::CreateLive { path: String::from_str(live) });
        assert(steps_view(steps@) =~= rotation_steps(
            dir@,
            stem@,
            live@,
            self.policy().max_files as nat,
            present@,
        ));
        steps
    }

    /// The steps of one rotation of the log at `log_path`, where `present`
    /// tells which backups exist.
    pub fn rotate_log(&self, log_path: &str, present: &Vec<bool>) -> (r: Result<
        Vec<RotationStep>,
        Error,
    >)
        ensures
            match r {
                Ok(steps) => log_location(log_path@) matches Ok((dir, stem)) && steps_view(steps@)
                    == rotation_steps(
                    dir,
                    stem,
                    log_path@,
                    self.policy().max_files as nat,
                    present@,
                ),
                Err(e) => log_location(log_path@) == Err::<(Seq<char>, Seq<char>), ErrorView>(e@),
            },
    {
        match locate(log_path) {
            Ok((dir, stem)) => Ok(
                self.rotation_plan(dir.as_str(), stem.as_str(), log_path, present),
            ),
            Err(e) => Err(e),
        }
    }

    /// The steps to carry out for the log at `log_path` of size `size` (if it
    /// exists): those of a rotation if the policy asks for one, else none.
    pub fn rotate_if_needed(&self, log_path: &str, size: Option<u64>, present: &Vec<bool>) -> (r:
        Result<Vec<RotationStep>, Error>)
        ensures
            !self.rotation_due(size) ==> (r matches Ok(steps) && steps@.len() == 0),
            self.rotation_due(size) ==> match r {
                Ok(steps) => log_location(log_path@) matches Ok((dir, stem)) && steps_view(steps@)
                    == rotation_steps(
                    dir,
                    stem,
                    log_path@,
                    self.policy().max_files as nat,
                    present@,
                ),
                Err(e) => log_location(log_path@) == Err::<(Seq<char>, Seq<char>), ErrorView>(e@),
            },
    {
        if !self.needs_rotation(size) {
            return Ok(Vec::new());
        }
        self.rotate_log(log_path, present)
    }

    /// The steps to carry out for the log at `log_path` when a rotation is
    /// asked for whatever its size: those of a rotation if the log exists,
    /// else none.
    pub fn force_rotate(&self, log_path: &str, exists: bool, present: &Vec<bool>) -> (r: Result<
        Vec<RotationStep>,
        Error,
    >)
        ensures
            !exists ==> (r matches Ok(steps) && steps@.len() == 0),
            exists ==> match r {
                Ok(steps) => log_location(log_path@) matches Ok((dir, stem)) && steps_view(steps@)
                    == rotation_steps(
                    dir,
                    stem,
                    log_path@,
                    self.policy().max_files as nat,
                    present@,
                ),
                Err(e) => log_location(log_path@) == Err::<(Seq<char>, Seq<char>), ErrorView>(e@),
            },
    {
        if !exists {
            return Ok(Vec::new());
        }
        self.rotate_log(log_path, present)
    }

    /// The backups that exist of the log with the stem `stem` in the
    /// directory `dir`, from the newest (number 1) to the oldest (number
    /// `max_files`).
    pub fn rotated_files_in(&self, dir: &str, stem: &str, present: &Vec<bool>) -> (paths: Vec<
        String,
    >)
        ensures
            strings_view(paths@) == rotated_paths(
                dir@,
                stem@,
                present@,
                0,
                self.policy().max_files as nat,
            ),
    {
        let max_files = self.config.max_files;
        let mut paths: Vec<String> = Vec::new();
        let mut i: usize = 0;
        while i < max_files
            invariant
                i <= max_files,
                strings_view(paths@) + rotated_paths(dir@, stem@, present@, i as nat, max_files as nat)
                    == rotated_paths(dir@, stem@, present@, 0, max_files as nat),
            decreases max_files - i,
        {
            if snapshot_has(present, i + 1) {
                let path = backup_path_of(dir, stem, i + 1);
                let ghost before = strings_view(paths@);
                paths.push(path);
                assert(strings_view(paths@) =~= before.push(backup_path(dir@, stem@, (i + 1) as nat)));
                assert(before.push(backup_path(dir@, stem@, (i + 1) as nat)) + rotated_paths(
                    dir@,
                    stem@,
                    present@,
                    (i + 1) as nat,
                    max_files as nat,
                ) =~= before + rotated_paths(dir@, stem@, present@, i as nat, max_files as nat));
            }
            i += 1;
        }
        assert(strings_view(paths@) =~= rotated_paths(dir@, stem@, present@, 0, max_files as nat));
        paths
    }

    /// The backups of the log at `log_path` that exist, from the newest
    /// (number 1) to the oldest (number `max_files`).
    pub fn get_rotated_files(&self, log_path: &str, present: &Vec<bool>) -> (r: Result<
        Vec<String>,
        Error,
    >)
        ensures
            match r {
                Ok(paths) => log_location(log_path@) matches Ok((dir, stem)) && strings_view(paths@)
                    == rotated_paths(dir, stem, present@, 0, self.policy().max_files as nat),
                Err(e) => log_location(log_path@) == Err::<(Seq<char>, Seq<char>), ErrorView>(e@),
            },
    {
        match locate(log_path) {
            Ok((dir, stem)) => Ok(self.rotated_files_in(dir.as_str(), stem.as_str(), present)),
            Err(e) => Err(e),
        }
    }

    /// The paths of the stale backups of the log with the stem `stem` in the
    /// directory `dir`, given the names of the files in that directory:
    /// each file that is a backup of the log with a number above
    /// `max_files`, and no other.
    pub fn stale_backups_in(&self, dir: &str, stem: &str, names: &Vec<String>) -> (paths: Vec<
        String,
    >)
        ensures
            strings_view(paths@) == stale_backups(
                dir@,
                stem@,
                strings_view(names@),
                self.policy().max_files as nat,
            ),
    {
        let stem_chars = chars_of(stem);
        let max_files = self.config.max_files;
        let ghost all = strings_view(names@);
        let mut paths: Vec<String> = Vec::new();
        let mut i: usize = 0;
        assert(all.take(0) =~= Seq::<Seq<char>>::empty());
        while i < names.len()
            invariant
                i <= names.len(),
                stem_chars@ == stem@,
                all == strings_view(names@),
                strings_view(paths@) == stale_backups(
                    dir@,
                    stem@,
                    all.take(i as int),
                    max_files as nat,
                ),
            decreases names.len() - i,
        {
            let name_chars = chars_of(names[i].as_str());
            let ghost before = strings_view(paths@);
            proof {
                let grown = all.take(i + 1);
                assert(grown.drop_last() =~= all.take(i as int));
                assert(grown.last() == names@[i as int]@);
            }
            if names_stale_backup(&stem_chars, &name_chars, max_files) {
                let path = join_path(dir, names[i].as_str());
                paths.push(path);
                assert(strings_view(paths@) =~= before.push(joined_path(dir@, names@[i as int]@)));
            }
            i += 1;
        }
        assert(all.take(names.len() as int) =~= all);
        paths
    }

    /// The paths of the stale backups of the log at `log_path` to remove,
    /// given the names of the files in the log's directory: each file that
    /// is a backup of the log with a number above `max_files`, and no
    /// other. A failure to remove one is ignored.
    pub fn cleanup_old_files(&self, log_path: &str, names: &Vec<String>) -> (r: Result<
        Vec<String>,
        Error,
    >)
        ensures
            match r {
                Ok(paths) => log_location(log_path@) matches Ok((dir, stem)) && strings_view(
                    paths@,
                ) == stale_backups(
                    dir,
                    stem,
                    strings_view(names@),
                    self.policy().max_files as nat,
                ),
                Err(e) => log_location(log_path@) == Err::<(Seq<char>, Seq<char>), ErrorView>(e@),
            },
    {
        match locate(log_path) {
            Ok((dir, stem)) => Ok(self.stale_backups_in(dir.as_str(), stem.as_str(), names)),
            Err(e) => Err(e),
        }
    }
}

/// Whether `name` has the shape of a backup's file name for the stem
/// `stem`: the stem, a dot, at least one more character, and `.log`.
pub open spec fn shaped_like_backup(stem: Seq<char>, name: Seq<char>) -> bool {
    &&& name.len() >= stem.len() + 6
    &&& forall|j: int| 0 <= j < stem.len() ==> name[j] == stem[j]
    &&& name[stem.len() as int] == '.'
    &&& name[name.len() - 4] == '.'
    &&& name[name.len() - 3] == 'l'
    &&& name[name.len() - 2] == 'o'
    &&& name[name.len() - 1] == 'g'
}

/// A name that has not the shape of a backup's file name names no backup.
proof fn lemma_misshapen_is_no_backup(stem: Seq<char>, name: Seq<char>, max_files: nat)
    requires
        !shaped_like_backup(stem, name),
    ensures
        !names_backup_beyond(stem, name, max_files),
{
    if names_backup_beyond(stem, name, max_files) {
        lemma_backup_is_numbered(stem, name, max_files);
    }
}

/// A name is the file name of the backup numbered `index` if and only if
/// it has the shape of a backup's file name and the decimal notation of
/// `index` stands between the dot and `.log`.
proof fn lemma_backup_name_is(stem: Seq<char>, name: Seq<char>, index: nat)
    ensures
        (name == backup_file_name(stem, index)) == (shaped_like_backup(stem, name)
            && name.subrange(stem.len() as int + 1, name.len() - 4) == decimal_digits(index)),
{
    lemma_backup_name_shape(stem, index);
    let made = backup_file_name(stem, index);
    let digits = decimal_digits(index);
    if shaped_like_backup(stem, name) && name.subrange(stem.len() as int + 1, name.len() - 4)
        == digits {
        let middle = name.subrange(stem.len() as int + 1, name.len() - 4);
        assert(middle.len() == digits.len());
        assert(made.len() == name.len());
        assert forall|j: int| 0 <= j < name.len() implies name[j] == made[j] by {
            if stem.len() < j < name.len() - 4 {
                assert(middle[j - stem.len() - 1] == name[j]);
                assert(made.subrange(stem.len() as int + 1, made.len() - 4)[j - stem.len() - 1]
                    == made[j]);
            }
        }
        assert(name =~= made);
    }
}

/// A name that has the shape of a backup's file name, with the decimal
/// notation of a number greater than `max_files` between the dot and
/// `.log`, names a backup beyond the window.
proof fn lemma_numbered_is_backup(stem: Seq<char>, name: Seq<char>, max_files: nat)
    requires
        shaped_like_backup(stem, name),
        is_positive_decimal(name.subrange(stem.len() as int + 1, name.len() - 4)),
        digits_value(name.subrange(stem.len() as int + 1, name.len() - 4)) > max_files,
    ensures
        names_backup_beyond(stem, name, max_files),
{
    let digits = name.subrange(stem.len() as int + 1, name.len() - 4);
    let i = digits_value(digits);
    lemma_positive_decimal_value(digits);
    lemma_backup_name_is(stem, name, i);
}

/// A name that names a backup beyond the window has the decimal notation
/// of a number greater than `max_files` between the dot and `.log`.
proof fn lemma_backup_is_numbered(stem: Seq<char>, name: Seq<char>, max_files: nat)
    requires
        names_backup_beyond(stem, name, max_files),
    ensures
        shaped_like_backup(stem, name),
        is_positive_decimal(name.subrange(stem.len() as int + 1, name.len() - 4)),
        digits_value(name.subrange(stem.len() as int + 1, name.len() - 4)) > max_files,
{
    let i = choose|i: nat| i > max_files && name == #[trigger] backup_file_name(stem, i);
    lemma_backup_name_is(stem, name, i);
    lemma_decimal_of_positive(i);
}

/// Whether `name` is the file name of a backup of the log with the stem
/// `stem` whose number is greater than `max_files`.
fn names_stale_backup(stem: &Vec<char>, name: &Vec<char>, max_files: usize) -> (b: bool)
    ensures
        b == names_backup_beyond(stem@, name@, max_files as nat),
{
    let s = stem.len();
    let n = name.len();
    if n < s || n - s < 6 {
        proof {
            lemma_misshapen_is_no_backup(stem@, name@, max_files as nat);
        }
        return false;
    }
    let mut j: usize = 0;
    while j < s
        invariant
            j <= s,
            s == stem.len(),
            n == name.len(),
            s <= n,
            forall|k: int| 0 <= k < j ==> name@[k] == stem@[k],
        decreases s - j,
    {
        if name[j] != stem[j] {
            proof {
                lemma_misshapen_is_no_backup(stem@, name@, max_files as nat);
            }
            return false;
        }
        j += 1;
    }
    if name[s] != '.' || name[n - 4] != '.' || name[n - 3] != 'l' || name[n - 2] != 'o' || name[n
        - 1] != 'g' {
        proof {
            lemma_misshapen_is_no_backup(stem@, name@, max_files as nat);
        }
        return false;
    }
    let beyond = decimal_exceeds(name, s + 1, n - 4, max_files);
    proof {
        if beyond {
            lemma_numbered_is_backup(stem@, name@, max_files as nat);
        }
        if names_backup_beyond(stem@, name@, max_files as nat) {
            lemma_backup_is_numbered(stem@, name@, max_files as nat);
        }
    }
    beyond
}

/// The paths of the backups numbered `from + 1` to `to` of the log with
/// the stem `stem` in the directory `dir`, lowest first.
pub fn paths_between(dir: &str, stem: &str, from: usize, to: usize) -> (paths: Vec<String>)
    ensures
        strings_view(paths@) == backup_paths(dir@, stem@, from as nat, to as nat),
{
    let mut paths: Vec<String> = Vec::new();
    let mut i: usize = from;
    while i < to
        invariant
            from <= i,
            i <= to || from >= to,
            strings_view(paths@) + backup_paths(dir@, stem@, i as nat, to as nat) == backup_paths(
                dir@,
                stem@,
                from as nat,
                to as nat,
            ),
        decreases to - i,
    {
        let path = backup_path_of(dir, stem, i + 1);
        let ghost before = strings_view(paths@);
        paths.push(path);
        assert(strings_view(paths@) =~= before.push(backup_path(dir@, stem@, (i + 1) as nat)));
        assert(before.push(backup_path(dir@, stem@, (i + 1) as nat)) + backup_paths(
            dir@,
            stem@,
            (i + 1) as nat,
            to as nat,
        ) =~= before + backup_paths(dir@, stem@, i as nat, to as nat));
        i += 1;
    }
    assert(strings_view(paths@) =~= backup_paths(dir@, stem@, from as nat, to as nat));
    paths
}

/// The files of one log, as far as rotation is concerned: the content of
/// the live log if it exists, and the contents of its numbered backups.
pub struct LogFiles<C> {
    pub live: Option<C>,
    pub backups: Map<nat, C>,
}

impl<C> LogFiles<C> {
    /// Whether the backup numbered `index` exists.
    pub open spec fn has(self, index: nat) -> bool {
        self.backups.contains_key(index)
    }

    /// Whether the snapshot `present` tells the truth about the backups
    /// numbered 1 to `top`.
    pub open spec fn seen_as(self, present: Seq<bool>, top: nat) -> bool {
        forall|i: nat| 1 <= i <= top ==> present_at(present, i) == #[trigger] self.has(i)
    }

    /// The files after `step` has been carried out. A rename replaces its
    /// target; a rename of a file that does not exist changes nothing.
    pub open spec fn after_step(self, step: StepView, empty: C) -> Self {
        match step {
            StepView::ShiftBackup { index, .. } => if self.has(index) {
                LogFiles {
                    backups: self.backups.remove(index).insert(index + 1, self.backups[index]),
                    ..self
                }
            } else {
                self
            },
            StepView::ArchiveLive { .. } => match self.live {
                Some(content) => LogFiles { live: None, backups: self.backups.insert(1, content) },
                None => self,
            },
            StepView::CreateLive { .. } => LogFiles { live: Some(empty), ..self },
        }
    }

    /// The files after the steps of `steps` have been carried out in order.
    pub open spec fn after_steps(self, steps: Seq<StepView>, empty: C) -> Self
        decreases steps.len(),
    {
        if steps.len() == 0 {
            self
        } else {
            self.after_step(steps[0], empty).after_steps(steps.drop_first(), empty)
        }
    }

    /// The backups after those numbered `top` down to 1 have moved one number
    /// up: number `j` holds what number `j - 1` held, where that existed.
    pub open spec fn shifted(self, top: nat) -> Map<nat, C> {
        Map::new(
            |j: nat|
                if 2 <= j <= top + 1 && self.has((j - 1) as nat) {
                    true
                } else if 1 <= j <= top {
                    false
                } else {
                    self.has(j)
                },
            |j: nat|
                if 2 <= j <= top + 1 && self.has((j - 1) as nat) {
                    self.backups[(j - 1) as nat]
                } else {
                    self.backups[j]
                },
        )
    }

    /// The files after one rotation under a policy that keeps `max_files`
    /// backups: an empty live log, the former live log as backup 1, and each
    /// former backup below `max_files` one number up.
    pub open spec fn rotated(self, max_files: nat, empty: C) -> Self {
        let top = if max_files == 0 {
            0nat
        } else {
            (max_files - 1) as nat
        };
        LogFiles { live: Some(empty), backups: self.shifted(top).insert(1, self.live->0) }
    }

    /// The files after `count` rotations in a row.
    pub open spec fn rotated_times(self, max_files: nat, empty: C, count: nat) -> Self
        decreases count,
    {
        if count == 0 {
            self
        } else {
            self.rotated_times(max_files, empty, (count - 1) as nat).rotated(max_files, empty)
        }
    }
}

/// Carrying out two runs of steps one after the other is carrying out their
/// concatenation.
proof fn lemma_after_steps_concat<C>(
    files: LogFiles<C>,
    first: Seq<StepView>,
    second: Seq<StepView>,
    empty: C,
)
    ensures
        files.after_steps(first + second, empty) == files.after_steps(first, empty).after_steps(
            second,
            empty,
        ),
    decreases first.len(),
{
    if first.len() == 0 {
        assert(first + second =~= second);
    } else {
        assert((first + second)[0] == first[0]);
        assert((first + second).drop_first() =~= first.drop_first() + second);
        lemma_after_steps_concat(files.after_step(first[0], empty), first.drop_first(), second, empty);
    }
}

/// The planned shifts move every backup numbered up to `top` one number up.
proof fn lemma_shifts_effect<C>(
    files: LogFiles<C>,
    dir: Seq<char>,
    stem: Seq<char>,
    present: Seq<bool>,
    top: nat,
    empty: C,
)
    requires
        files.seen_as(present, top),
    ensures
        files.after_steps(shift_steps(dir, stem, present, top), empty) == (LogFiles {
            backups: files.shifted(top),
            ..files
        }),
    decreases top,
{
    if top == 0 {
        assert(files.shifted(0) =~= files.backups);
    } else {
        let rest = shift_steps(dir, stem, present, (top - 1) as nat);
        assert(files.has(top) == present_at(present, top));
        let next = if present_at(present, top) {
            files.after_step(shift_step(dir, stem, top), empty)
        } else {
            files
        };
        assert forall|i: nat| 1 <= i <= top - 1 implies present_at(present, i)
            == #[trigger] next.has(i) by {
            assert(files.has(i) == present_at(present, i));
        }
        lemma_shifts_effect(next, dir, stem, present, (top - 1) as nat, empty);
        if present_at(present, top) {
            let one = seq![shift_step(dir, stem, top)];
            lemma_after_steps_concat(files, one, rest, empty);
            assert(one.drop_first() =~= Seq::<StepView>::empty());
            assert(files.after_steps(one, empty) == files.after_step(one[0], empty).after_steps(
                one.drop_first(),
                empty,
            ));
            assert(files.after_steps(one, empty) == next);
        }
        assert(next.shifted((top - 1) as nat) =~= files.shifted(top)) by {
            assert forall|j: nat| #[trigger]
                next.shifted((top - 1) as nat).contains_key(j) == files.shifted(top).contains_key(
                    j,
                ) by {
                if j >= 2 {
                    let _ = files.has((j - 1) as nat);
                    let _ = next.has((j - 1) as nat);
                }
            }
            assert forall|j: nat| #[trigger]
                next.shifted((top - 1) as nat).contains_key(j) implies next.shifted(
                (top - 1) as nat,
            )[j] == files.shifted(top)[j] by {
                if j >= 2 {
                    let _ = files.has((j - 1) as nat);
                    let _ = next.has((j - 1) as nat);
                }
            }
        }
    }
}

/// Carrying out the steps of a planned rotation has the effect of one
/// rotation, provided the log exists and the snapshot of its backups was
/// true.
pub proof fn lemma_rotation_effect<C>(
    files: LogFiles<C>,
    dir: Seq<char>,
    stem: Seq<char>,
    live: Seq<char>,
    max_files: nat,
    present: Seq<bool>,
    empty: C,
)
    requires
        files.live is Some,
        files.seen_as(present, max_files),
    ensures
        files.after_steps(rotation_steps(dir, stem, live, max_files, present), empty)
            == files.rotated(max_files, empty),
{
    let top = if max_files == 0 {
        0nat
    } else {
        (max_files - 1) as nat
    };
    let shifts = shift_steps(dir, stem, present, top);
    let tail = seq![
        StepView::ArchiveLive { from: live, to: backup_path(dir, stem, 1) },
        StepView::CreateLive { path: live },
    ];
    assert forall|i: nat| 1 <= i <= top implies present_at(present, i) == #[trigger] files.has(
        i,
    ) by {}
    lemma_shifts_effect(files, dir, stem, present, top, empty);
    lemma_after_steps_concat(files, shifts, tail, empty);
    let mid = LogFiles { backups: files.shifted(top), ..files };
    let archived = mid.after_step(tail[0], empty);
    assert(tail.drop_first() =~= seq![StepView::CreateLive { path: live }]);
    assert(tail.drop_first().drop_first() =~= Seq::<StepView>::empty());
    assert(mid.after_steps(tail, empty) == archived.after_step(tail[1], empty)) by {
        assert(tail.drop_first()[0] == tail[1]);
        assert(archived.after_steps(tail.drop_first(), empty) == archived.after_step(
            tail[1],
            empty,
        ).after_steps(tail.drop_first().drop_first(), empty));
    }
}

/// After a rotation the live log is empty and backup 1 holds what the live
/// log held before.
pub proof fn lemma_rotation_archives_live<C>(files: LogFiles<C>, max_files: nat, empty: C)
    requires
        files.live is Some,
    ensures
        files.rotated(max_files, empty).live == Some(empty),
        files.rotated(max_files, empty).has(1),
        files.rotated(max_files, empty).backups[1] == files.live->0,
{
}

/// A rotation moves each backup below `max_files` one number up, discards
/// what the backup numbered `max_files` held when its predecessor moves
/// onto it, and leaves the numbers above `max_files` alone.
pub proof fn lemma_rotation_shifts_backups<C>(
    files: LogFiles<C>,
    max_files: nat,
    empty: C,
    index: nat,
)
    requires
        files.live is Some,
        index >= 2,
    ensures
        index <= max_files && files.has((index - 1) as nat) ==> files.rotated(
            max_files,
            empty,
        ).has(index) && files.rotated(max_files, empty).backups[index] == files.backups[(index
            - 1) as nat],
        index < max_files && !files.has((index - 1) as nat) ==> !files.rotated(
            max_files,
            empty,
        ).has(index),
        index > max_files ==> files.rotated(max_files, empty).has(index) == files.has(index),
        index > max_files && files.has(index) ==> files.rotated(max_files, empty).backups[index]
            == files.backups[index],
{
}

/// After `count` rotations in a row the backups numbered 1 up to `count`,
/// or up to `max_files` if that is less, all exist, and the live log exists.
pub proof fn lemma_rotations_fill_window<C>(
    files: LogFiles<C>,
    max_files: nat,
    empty: C,
    count: nat,
    index: nat,
)
    requires
        files.live is Some,
        1 <= index <= count,
        index <= max_files,
    ensures
        files.rotated_times(max_files, empty, count).live is Some,
        files.rotated_times(max_files, empty, count).has(index),
    decreases count,
{
    lemma_rotations_keep_live(files, max_files, empty, (count - 1) as nat);
    let before = files.rotated_times(max_files, empty, (count - 1) as nat);
    if index >= 2 {
        lemma_rotations_fill_window(files, max_files, empty, (count - 1) as nat, (index - 1) as nat);
        lemma_rotation_shifts_backups(before, max_files, empty, index);
    }
}

/// Rotations keep the live log in existence.
pub proof fn lemma_rotations_keep_live<C>(
    files: LogFiles<C>,
    max_files: nat,
    empty: C,
    count: nat,
)
    requires
        files.live is Some,
    ensures
        files.rotated_times(max_files, empty, count).live is Some,
    decreases count,
{
    if count > 0 {
        lemma_rotations_keep_live(files, max_files, empty, (count - 1) as nat);
    }
}

/// Rotating `max_files + 1` times leaves exactly `max_files` backups in the
/// window that the policy keeps: every number from 1 to `max_files` exists,
/// and a listing of the rotated files has `max_files` entries.
pub proof fn lemma_full_window_after_rotations<C>(
    files: LogFiles<C>,
    dir: Seq<char>,
    stem: Seq<char>,
    present: Seq<bool>,
    max_files: nat,
    empty: C,
)
    requires
        files.live is Some,
        files.rotated_times(max_files, empty, max_files + 1).seen_as(present, max_files),
    ensures
        forall|i: nat|
            1 <= i <= max_files ==> #[trigger] files.rotated_times(
                max_files,
                empty,
                max_files + 1,
            ).has(i),
        rotated_paths(dir, stem, present, 0, max_files) == backup_paths(dir, stem, 0, max_files),
        rotated_paths(dir, stem, present, 0, max_files).len() == max_files,
{
    let end = files.rotated_times(max_files, empty, max_files + 1);
    assert forall|i: nat| 1 <= i <= max_files implies #[trigger] end.has(i) by {
        lemma_rotations_fill_window(files, max_files, empty, max_files + 1, i);
    }
    assert forall|i: nat| 0 < i <= max_files implies present_at(present, i) by {
        assert(end.has(i));
    }
    lemma_listing_of_full_window(dir, stem, present, 0, max_files);
}

/// Where every backup of the window exists, the listing names them all.
proof fn lemma_listing_of_full_window(
    dir: Seq<char>,
    stem: Seq<char>,
    present: Seq<bool>,
    from: nat,
    max_files: nat,
)
    requires
        forall|i: nat| from < i <= max_files ==> present_at(present, i),
    ensures
        rotated_paths(dir, stem, present, from, max_files) == backup_paths(
            dir,
            stem,
            from,
            max_files,
        ),
        from <= max_files ==> backup_paths(dir, stem, from, max_files).len() == max_files - from,
    decreases max_files - from,
{
    if from < max_files {
        assert(present_at(present, from + 1));
        lemma_listing_of_full_window(dir, stem, present, from + 1, max_files);
    }
}

/// There is one candidate path for each number.
pub proof fn lemma_backup_paths_len(dir: Seq<char>, stem: Seq<char>, from: nat, to: nat)
    requires
        from <= to,
    ensures
        backup_paths(dir, stem, from, to).len() == to - from,
    decreases to - from,
{
    if from < to {
        lemma_backup_paths_len(dir, stem, from + 1, to);
    }
}

/// A listing names no more backups than the window has numbers.
pub proof fn lemma_rotated_paths_len(
    dir: Seq<char>,
    stem: Seq<char>,
    present: Seq<bool>,
    from: nat,
    max_files: nat,
)
    requires
        from <= max_files,
    ensures
        rotated_paths(dir, stem, present, from, max_files).len() <= max_files - from,
    decreases max_files - from,
{
    if from < max_files {
        lemma_rotated_paths_len(dir, stem, present, from + 1, max_files);
    }
}

/// Whether `path` is the path in `dir` of one of the file names `names`
/// that names a backup of the log with the stem `stem` beyond the window.
pub open spec fn is_stale_path(
    dir: Seq<char>,
    stem: Seq<char>,
    names: Seq<Seq<char>>,
    max_files: nat,
    path: Seq<char>,
) -> bool {
    exists|k: int|
        0 <= k < names.len() && names_backup_beyond(stem, #[trigger] names[k], max_files) && path
            == joined_path(dir, names[k])
}

/// The cleanup names a path if and only if it is the path of a file that
/// exists and is a backup of the log with a number above `max_files`: the
/// backups in the window, the live log and every other file are not named,
/// and none beyond the window is left out, whatever its number.
pub proof fn lemma_cleanup_names_all_beyond_the_window(
    dir: Seq<char>,
    stem: Seq<char>,
    names: Seq<Seq<char>>,
    max_files: nat,
    path: Seq<char>,
)
    ensures
        stale_backups(dir, stem, names, max_files).contains(path) == is_stale_path(
            dir,
            stem,
            names,
            max_files,
            path,
        ),
    decreases names.len(),
{
    let all = stale_backups(dir, stem, names, max_files);
    if names.len() == 0 {
        assert(!all.contains(path));
    } else {
        let head = names.drop_last();
        let rest = stale_backups(dir, stem, head, max_files);
        let last = names.last();
        lemma_cleanup_names_all_beyond_the_window(dir, stem, head, max_files, path);
        let named = names_backup_beyond(stem, last, max_files);
        if is_stale_path(dir, stem, names, max_files, path) {
            let k = choose|k: int|
                0 <= k < names.len() && names_backup_beyond(stem, #[trigger] names[k], max_files)
                    && path == joined_path(dir, names[k]);
            if k < head.len() {
                assert(head[k] == names[k]);
                assert(is_stale_path(dir, stem, head, max_files, path));
                let at = choose|at: int| 0 <= at < rest.len() && rest[at] == path;
                assert(all[at] == path);
            } else {
                assert(all[all.len() - 1] == path);
            }
        }
        if all.contains(path) {
            let at = choose|at: int| 0 <= at < all.len() && all[at] == path;
            if at < rest.len() {
                assert(rest[at] == path);
                assert(rest.contains(path));
                let k = choose|k: int|
                    0 <= k < head.len() && names_backup_beyond(stem, #[trigger] head[k], max_files)
                        && path == joined_path(dir, head[k]);
                assert(names[k] == head[k]);
            } else {
                assert(named);
                assert(names[names.len() - 1] == last);
            }
        }
    }
}

} // verus!
