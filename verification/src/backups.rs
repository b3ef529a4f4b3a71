//! Backups of a server: which one gives way when the server holds as many
//! as it may, and how long one took.

use vstd::prelude::*;

verus! {

/// What the rules look at in a backup. Times are seconds since the beginning
/// of 1970.
#[derive(Clone, Copy, Debug, PartialEq, Eq, Structural)]
pub struct BackupInfo {
    pub created_at: i64,
    /// When the backup was finished, if it is.
    pub completed_at: Option<i64>,
    /// A locked backup is never deleted to make room.
    pub is_locked: bool,
}

/// What to do when a backup is asked for.
#[derive(Clone, Copy, Debug, PartialEq, Eq, Structural)]
pub enum BackupPlan {
    /// The server allows no backups.
    NotAllowed,
    /// The server holds as many backups as it may, all of them locked.
    NothingToReplace,
    /// The server holds as many backups as it may: the one at this place
    /// gives way, once the user has agreed.
    ReplaceOldest(usize),
    /// There is room.
    Create,
}

/// One of the first `n` backups is not locked.
pub open spec fn any_unlocked_among(backups: Seq<BackupInfo>, n: int) -> bool {
    exists|i: int| 0 <= i < n && !(#[trigger] backups[i]).is_locked
}

/// Some backup is not locked.
pub open spec fn any_unlocked(backups: Seq<BackupInfo>) -> bool {
    any_unlocked_among(backups, backups.len() as int)
}

/// Of the first `n` backups the one at `at` gives way: it is not locked, no
/// unlocked one is older, and of those as old as it is it comes first.
pub open spec fn gives_way_among(backups: Seq<BackupInfo>, n: int, at: int) -> bool {
    &&& 0 <= at < n <= backups.len()
    &&& !backups[at].is_locked
    &&& forall|j: int|
        0 <= j < n && !(#[trigger] backups[j]).is_locked ==> backups[at].created_at
            <= backups[j].created_at
    &&& forall|j: int|
        0 <= j < at && !(#[trigger] backups[j]).is_locked ==> backups[at].created_at
            < backups[j].created_at
}

/// The backup at `at` is the one that gives way: the oldest that is not
/// locked, and the first of those where several are as old.
pub open spec fn is_oldest_unlocked(backups: Seq<BackupInfo>, at: int) -> bool {
    gives_way_among(backups, backups.len() as int, at)
}

/// What to do when a backup is asked for on a server that may hold `limit`
/// backups and holds `backups`. Only a server that holds exactly as many as
/// it may has one give way.
pub open spec fn plan_of(limit: usize, backups: Seq<BackupInfo>, plan: BackupPlan) -> bool {
    if limit == 0 {
        plan == BackupPlan::NotAllowed
    } else if backups.len() != limit {
        plan == BackupPlan::Create
    } else if !any_unlocked(backups) {
        plan == BackupPlan::NothingToReplace
    } else {
        plan matches BackupPlan::ReplaceOldest(at) && is_oldest_unlocked(backups, at as int)
    }
}

/// The seconds from the creation of a backup to its completion, where it is
/// complete and the difference fits.
pub open spec fn completion_seconds(backup: BackupInfo) -> Option<i64> {
    match backup.completed_at {
        Some(completed) => if i64::MIN <= completed - backup.created_at <= i64::MAX {
            Some((completed - backup.created_at) as i64)
        } else {
            None
        },
        None => None,
    }
}

/// There is at most one backup that gives way, and one only where some
/// backup is not locked.
pub proof fn lemma_oldest_unlocked_unique(backups: Seq<BackupInfo>, a: int, b: int)
    requires
        is_oldest_unlocked(backups, a),
        is_oldest_unlocked(backups, b),
    ensures
        a == b,
        any_unlocked(backups),
{
}

/// Whether some backup is not locked.
pub fn has_unlocked_backups(backups: &Vec<BackupInfo>) -> (yes: bool)
    ensures
        yes == any_unlocked(backups@),
{
    let mut i: usize = 0;
    while i < backups.len()
        invariant
            i <= backups.len(),
            !any_unlocked_among(backups@, i as int),
        decreases backups.len() - i,
    {
        if !backups[i].is_locked {
            return true;
        }
        i = i + 1;
    }
    false
}

/// The place of the backup that gives way, if any can.
pub fn oldest_unlocked(backups: &Vec<BackupInfo>) -> (place: Option<usize>)
    ensures
        match place {
            Some(at) => is_oldest_unlocked(backups@, at as int),
            None => !any_unlocked(backups@),
        },
{
    let mut best: Option<usize> = None;
    let mut i: usize = 0;
    while i < backups.len()
        invariant
            i <= backups.len(),
            match best {
                Some(at) => gives_way_among(backups@, i as int, at as int),
                None => !any_unlocked_among(backups@, i as int),
            },
        decreases backups.len() - i,
    {
        if !backups[i].is_locked {
            match best {
                Some(at) => {
                    if backups[i].created_at < backups[at].created_at {
                        best = Some(i);
                    }
                },
                None => {
                    best = Some(i);
                },
            }
        }
        i = i + 1;
    }
    best
}

/// What to do when a backup is asked for.
pub fn plan_backup(limit: usize, backups: &Vec<BackupInfo>) -> (plan: BackupPlan)
    ensures
        plan_of(limit, backups@, plan),
{
    if limit == 0 {
        BackupPlan::NotAllowed
    } else if backups.len() != limit {
        BackupPlan::Create
    } else {
        match oldest_unlocked(backups) {
            Some(at) => BackupPlan::ReplaceOldest(at),
            None => BackupPlan::NothingToReplace,
        }
    }
}

/// The seconds that a backup took, where it is complete.
pub fn calculate_completion_seconds(backup: &BackupInfo) -> (seconds: Option<i64>)
    ensures
        seconds == completion_seconds(*backup),
{
    match backup.completed_at {
        Some(completed) => completed.checked_sub(backup.created_at),
        None => None,
    }
}

} // verus!
