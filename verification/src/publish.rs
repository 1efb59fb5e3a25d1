//! Publishing a snapshot so that a crash never leaves half of one behind.
//!
//! The snapshot is written to a temporary file, which is synced, renamed over the
//! live one, and the directory is synced last. The steps are carried out by the
//! caller, who reports how each one went; what to do next is decided here.

use vstd::prelude::*;

verus! {

/// One step of publishing a snapshot.
#[derive(Clone, Copy, PartialEq, Eq, Structural, Debug)]
pub enum Step {
    /// Create the temporary file, empty.
    CreateTemp,
    /// Write the whole snapshot into the temporary file.
    WriteTemp,
    /// Bring the temporary file's data to the disk.
    SyncTemp,
    /// Rename the temporary file over the live one.
    Rename,
    /// Bring the directory to the disk, so that the rename lasts.
    SyncDir,
}

/// What follows a step.
#[derive(Clone, Copy, PartialEq, Eq, Structural, Debug)]
pub enum Next {
    Do(Step),
    /// The snapshot is published.
    Done,
    /// The snapshot is not published: this step failed.
    Failed(Step),
}

/// What follows `step`, which went well if `ok`. Syncing the directory is done at
/// best effort: the snapshot is published whether or not it works.
pub open spec fn following(step: Step, ok: bool) -> Next {
    match step {
        Step::SyncDir => Next::Done,
        _ => if !ok {
            Next::Failed(step)
        } else {
            match step {
                Step::CreateTemp => Next::Do(Step::WriteTemp),
                Step::WriteTemp => Next::Do(Step::SyncTemp),
                Step::SyncTemp => Next::Do(Step::Rename),
                _ => Next::Do(Step::SyncDir),
            }
        },
    }
}

/// The step that publishing starts with.
pub fn first_step() -> (r: Step)
    ensures
        r == Step::CreateTemp,
{
    Step::CreateTemp
}

/// Decides what follows `step`, which went well if `ok`.
pub fn after(step: Step, ok: bool) -> (r: Next)
    ensures
        r == following(step, ok),
{
    match step {
        Step::SyncDir => Next::Done,
        Step::CreateTemp => if ok {
            Next::Do(Step::WriteTemp)
        } else {
            Next::Failed(step)
        },
        Step::WriteTemp => if ok {
            Next::Do(Step::SyncTemp)
        } else {
            Next::Failed(step)
        },
        Step::SyncTemp => if ok {
            Next::Do(Step::Rename)
        } else {
            Next::Failed(step)
        },
        Step::Rename => if ok {
            Next::Do(Step::SyncDir)
        } else {
            Next::Failed(step)
        },
    }
}

/// The name of the live snapshot in its directory.
pub fn live_name() -> (r: &'static str)
    ensures
        r@ == "edits.bin"@,
{
    "edits.bin"
}

/// The name of the temporary file beside it.
pub fn temp_name() -> (r: &'static str)
    ensures
        r@ == "edits.bin.tmp"@,
{
    "edits.bin.tmp"
}

/// The two files of a snapshot directory.
pub ghost struct Disk {
    /// What the live file holds, if it is there.
    pub live: Option<Seq<u8>>,
    /// What the live file held before a rename that the directory on disk may not
    /// show yet.
    pub before_rename: Option<Option<Seq<u8>>>,
    /// Whether what the live file holds is on the disk.
    pub live_synced: bool,
    pub temp: Option<Seq<u8>>,
    /// Whether what the temporary file holds is on the disk.
    pub temp_synced: bool,
}

/// How a step went: well, or not; a write that fails has put some bytes into the
/// file.
pub ghost struct Outcome {
    pub ok: bool,
    pub left_behind: Seq<u8>,
}

/// What `step` does to the files. A rename is atomic: it happens or it does not.
pub open spec fn performed(disk: Disk, step: Step, outcome: Outcome, buf: Seq<u8>) -> Disk {
    match step {
        Step::CreateTemp => if outcome.ok {
            Disk { temp: Some(Seq::empty()), temp_synced: false, ..disk }
        } else {
            disk
        },
        Step::WriteTemp => Disk {
            temp: Some(
                if outcome.ok {
                    buf
                } else {
                    outcome.left_behind
                },
            ),
            temp_synced: false,
            ..disk
        },
        Step::SyncTemp => if outcome.ok {
            Disk { temp_synced: true, ..disk }
        } else {
            disk
        },
        Step::Rename => if outcome.ok {
            Disk {
                live: disk.temp,
                before_rename: Some(disk.live),
                live_synced: disk.temp_synced,
                temp: None,
                temp_synced: false,
            }
        } else {
            disk
        },
        Step::SyncDir => if outcome.ok {
            Disk { before_rename: None, ..disk }
        } else {
            disk
        },
    }
}

/// What may be found in the live file after a crash: what it holds, or what it
/// held before a rename that did not reach the disk, or anything at all where its
/// data did not reach the disk.
pub open spec fn found_after_crash(disk: Disk, found: Option<Seq<u8>>) -> bool {
    ||| found == disk.live
    ||| disk.before_rename == Some(found)
    ||| !disk.live_synced
}

/// The files after the steps that `after` asks for, one for each outcome; it stops
/// early where publishing is over.
pub open spec fn published(disk: Disk, step: Step, outcomes: Seq<Outcome>, buf: Seq<u8>) -> Disk
    decreases outcomes.len(),
{
    if outcomes.len() == 0 {
        disk
    } else {
        let then_disk = performed(disk, step, outcomes[0], buf);
        match following(step, outcomes[0].ok) {
            Next::Do(next) => published(then_disk, next, outcomes.skip(1), buf),
            _ => then_disk,
        }
    }
}

/// What holds of the files when `step` is about to be taken.
spec fn ready_for(disk: Disk, step: Step, old_live: Option<Seq<u8>>, buf: Seq<u8>) -> bool {
    &&& disk.live_synced
    &&& match step {
        Step::CreateTemp => disk.live == old_live && disk.before_rename is None,
        Step::WriteTemp => disk.live == old_live && disk.before_rename is None,
        Step::SyncTemp => disk.live == old_live && disk.before_rename is None && disk.temp == Some(
            buf,
        ),
        Step::Rename => disk.live == old_live && disk.before_rename is None && disk.temp == Some(
            buf,
        ) && disk.temp_synced,
        Step::SyncDir => disk.live == Some(buf) && disk.before_rename == Some(old_live),
    }
}

proof fn lemma_published(
    disk: Disk,
    step: Step,
    outcomes: Seq<Outcome>,
    old_live: Option<Seq<u8>>,
    buf: Seq<u8>,
    found: Option<Seq<u8>>,
)
    requires
        ready_for(disk, step, old_live, buf),
        found_after_crash(published(disk, step, outcomes, buf), found),
    ensures
        found == old_live || found == Some(buf),
    decreases outcomes.len(),
{
    if outcomes.len() > 0 {
        let then_disk = performed(disk, step, outcomes[0], buf);
        match following(step, outcomes[0].ok) {
            Next::Do(next) => {
                lemma_published(then_disk, next, outcomes.skip(1), old_live, buf, found);
            },
            _ => {},
        }
    }
}

/// Wherever publishing is cut off, and whatever fails on the way, the live file
/// then holds either the whole old snapshot or the whole new one.
pub proof fn law_old_or_new_snapshot(
    disk: Disk,
    outcomes: Seq<Outcome>,
    buf: Seq<u8>,
    found: Option<Seq<u8>>,
)
    requires
        disk.live_synced,
        disk.before_rename is None,
        found_after_crash(published(disk, Step::CreateTemp, outcomes, buf), found),
    ensures
        found == disk.live || found == Some(buf),
{
    lemma_published(disk, Step::CreateTemp, outcomes, disk.live, buf, found);
}

/// Where every step goes well, publishing takes five steps, ends, and lasts: the
/// new snapshot is what is found from then on, crash or no crash.
pub proof fn law_published_snapshot_lasts(
    disk: Disk,
    outcomes: Seq<Outcome>,
    buf: Seq<u8>,
    found: Option<Seq<u8>>,
)
    requires
        outcomes.len() == 5,
        forall|i: int| 0 <= i < 5 ==> (#[trigger] outcomes[i]).ok,
        found_after_crash(published(disk, Step::CreateTemp, outcomes, buf), found),
    ensures
        found == Some(buf),
{
    reveal_with_fuel(published, 6);
    let o1 = outcomes.skip(1);
    let o2 = o1.skip(1);
    let o3 = o2.skip(1);
    let o4 = o3.skip(1);
    assert(o1[0] == outcomes[1] && o2[0] == outcomes[2] && o3[0] == outcomes[3] && o4[0]
        == outcomes[4]);
}

/// Publishing stops at the first step that fails, and tells which one, and is done only
/// behind the last; no step is asked for twice.
pub proof fn law_failed_step_stops_publishing(step: Step, ok: bool)
    ensures
        following(step, ok) == Next::Done <==> step == Step::SyncDir,
        step != Step::SyncDir && !ok ==> following(step, ok) == Next::Failed(step),
        step != Step::SyncDir && ok ==> following(step, ok) is Do,
        following(step, ok) == Next::Do(Step::Rename) ==> step == Step::SyncTemp && ok,
        following(step, ok) == Next::Do(Step::SyncTemp) ==> step == Step::WriteTemp && ok,
        following(step, ok) == Next::Do(Step::WriteTemp) ==> step == Step::CreateTemp && ok,
        following(step, ok) == Next::Do(Step::SyncDir) ==> step == Step::Rename && ok,
        following(step, ok) != Next::Do(Step::CreateTemp),
{
}

} // verus!
