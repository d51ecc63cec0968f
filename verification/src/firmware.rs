//! Firmware management for the wireless adapter: versions, hardware checks,
//! backups, downloads and deployment. The library decides and checks; files
//! are read, fetched and moved by the program around it.

pub mod deploy;
pub mod device;
pub mod download;
pub mod version;

use crate::firmware::deploy::BackupManager;
use crate::text::{
    equal, lines_of, lowered, parse_u64, parsed_u64, same_text, split_lines, to_lower, trim,
    trimmed, words_view,
};
use vstd::prelude::*;
use vstd::string::StringSliceAdditionalSpecFns;

verus! {

/// Why a firmware operation cannot go on. A number is the place of a file in
/// the list it was given in.
#[derive(Debug, Clone, Copy, PartialEq, Eq, Structural)]
pub enum FirmwareError {
    /// The data holds no version string.
    VersionNotFound,
    /// No firmware directory holds the firmware.
    FirmwareNotFound,
    /// A file that is to be backed up is not there.
    BackupSourceMissing(usize),
    /// A backup file is not there.
    BackupFileMissing(usize),
    /// A backup file does not have the recorded hash.
    BackupCorrupted(usize),
    /// A backup file does not have the recorded size.
    BackupSizeMismatch(usize),
    /// A downloaded file is not there.
    DownloadMissing(usize),
    /// A downloaded file is smaller than any real firmware.
    DownloadTooSmall(usize),
    /// The downloaded firmware has a version of an unexpected form.
    UnexpectedVersion,
    /// The download tool is not there or does not work.
    DownloaderUnavailable,
    /// The disk has less free space than is needed.
    InsufficientDiskSpace,
}

/// What the firmware command is asked to do.
#[derive(Debug, Clone, Copy, PartialEq, Eq, Structural)]
pub enum FirmwareAction {
    /// Show the installed and the latest available version.
    Status { json: bool, offline: bool },
    /// Download and install the latest firmware.
    Update { force: bool },
    /// Go back to the firmware that was backed up.
    Revert { force: bool },
}

/// What is to be run for an action.
#[derive(Debug, Clone, Copy, PartialEq, Eq, Structural)]
pub enum FirmwareRun {
    Status { json: bool, offline: bool },
    Update { force: bool, dry_run: bool },
    Revert { force: bool, dry_run: bool },
}

/// Says what is to be run for an action; a dry run concerns only actions
/// that change something.
pub fn run_firmware(action: FirmwareAction, dry_run: bool) -> (run: FirmwareRun)
    ensures
        run == match action {
            FirmwareAction::Status { json, offline } => FirmwareRun::Status { json, offline },
            FirmwareAction::Update { force } => FirmwareRun::Update { force, dry_run },
            FirmwareAction::Revert { force } => FirmwareRun::Revert { force, dry_run },
        },
{
    match action {
        FirmwareAction::Status { json, offline } => FirmwareRun::Status { json, offline },
        FirmwareAction::Update { force } => FirmwareRun::Update { force, dry_run },
        FirmwareAction::Revert { force } => FirmwareRun::Revert { force, dry_run },
    }
}

/// A finding of the health check.
#[derive(Debug, Clone, Copy, PartialEq, Eq, Structural)]
pub enum HealthWarning {
    /// A file of an update that did not complete is lying about.
    InterruptedUpdate,
    /// There is a backup without its metadata.
    BackupMetadataMissing,
}

/// Whether a file of an update that did not complete is among `present`.
pub open spec fn update_interrupted(present: Seq<String>) -> bool {
    exists|i: int|
        0 <= i < present.len() && ((#[trigger] present[i])@ == "amss.bin.zst.new"@ || present[i]@
            == "m3.bin.zst.new"@ || present[i]@ == "board-2.bin.zst.new"@)
}

/// Checks the firmware directory for signs of trouble. `present` holds the
/// names of the files in it, `has_metadata` says whether backup metadata
/// could be read.
pub fn check_health(manager: &BackupManager, present: &Vec<String>, has_metadata: bool) -> (warnings:
    Vec<HealthWarning>)
    ensures
        warnings@ == (if update_interrupted(present@) {
            seq![HealthWarning::InterruptedUpdate]
        } else {
            Seq::<HealthWarning>::empty()
        }) + (if crate::firmware::deploy::backups_present(present@) && !has_metadata {
            seq![HealthWarning::BackupMetadataMissing]
        } else {
            Seq::<HealthWarning>::empty()
        }),
{
    let mut warnings: Vec<HealthWarning> = Vec::new();
    let mut i: usize = 0;
    let mut interrupted: bool = false;
    while i < present.len() && !interrupted
        invariant
            i <= present@.len(),
            !interrupted ==> forall|j: int|
                0 <= j < i ==> !((#[trigger] present@[j])@ == "amss.bin.zst.new"@ || present@[j]@
                    == "m3.bin.zst.new"@ || present@[j]@ == "board-2.bin.zst.new"@),
            interrupted ==> update_interrupted(present@),
        decreases present@.len() - i + (if interrupted { 0int } else { 1int }),
    {
        let name = present[i].as_str();
        if same_text(name, "amss.bin.zst.new") || same_text(name, "m3.bin.zst.new") || same_text(
            name,
            "board-2.bin.zst.new",
        ) {
            interrupted = true;
        } else {
            i += 1;
        }
    }
    if interrupted {
        warnings.push(HealthWarning::InterruptedUpdate);
    }
    let ghost head = warnings@;
    if manager.backup_files_exist(present) && !has_metadata {
        warnings.push(HealthWarning::BackupMetadataMissing);
    }
    assert(warnings@ =~= head + (if crate::firmware::deploy::backups_present(present@)
        && !has_metadata {
        seq![HealthWarning::BackupMetadataMissing]
    } else {
        Seq::<HealthWarning>::empty()
    }));
    assert(head =~= (if update_interrupted(present@) {
        seq![HealthWarning::InterruptedUpdate]
    } else {
        Seq::<HealthWarning>::empty()
    }));
    warnings
}

/// The free space, in bytes, that the disk tool reports: the number on the
/// second line of its output, zero where there is none.
pub open spec fn available_bytes(report: Seq<u8>) -> u64 {
    let lines = lines_of(report);
    if lines.len() > 1 {
        match parsed_u64(trimmed(lines[1])) {
            Some(n) => n,
            None => 0,
        }
    } else {
        0
    }
}

/// Checks that the disk has at least `required_bytes` free.
pub fn check_disk_space(report: &str, required_bytes: u64) -> (enough: Result<(), FirmwareError>)
    ensures
        enough == (if available_bytes(report.spec_bytes()) < required_bytes {
            Err::<(), FirmwareError>(FirmwareError::InsufficientDiskSpace)
        } else {
            Ok::<(), FirmwareError>(())
        }),
{
    let lines = split_lines(report.as_bytes());
    let available: u64 = if lines.len() > 1 {
        assert(words_view(lines@)[1] == lines@[1]@);
        let body = trim(lines[1].as_slice());
        match parse_u64(body.as_slice()) {
            Some(n) => n,
            None => 0,
        }
    } else {
        0
    };
    if available < required_bytes {
        Err(FirmwareError::InsufficientDiskSpace)
    } else {
        Ok(())
    }
}

/// Whether an answer to a yes-or-no question says yes: `y` or `yes`, in
/// either case of letters, white space at its ends aside.
pub open spec fn says_yes(answer: Seq<u8>) -> bool {
    lowered(trimmed(answer)) == "y".spec_bytes() || lowered(trimmed(answer)) == "yes".spec_bytes()
}

/// Reads the answer to a yes-or-no question.
pub fn confirm(answer: &str) -> (yes: bool)
    ensures
        yes == says_yes(answer.spec_bytes()),
{
    let body = trim(answer.as_bytes());
    let low = to_lower(body.as_slice());
    equal(low.as_slice(), "y".as_bytes()) || equal(low.as_slice(), "yes".as_bytes())
}

} // verus!
