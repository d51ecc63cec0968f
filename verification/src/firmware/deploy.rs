//! Backups of the installed firmware and the plan by which new firmware
//! takes its place.

use crate::firmware::version::FirmwareVersion;
use crate::firmware::FirmwareError;
use crate::text::same_text;
use crate::text::{contains, contains_bytes, starts_with_bytes};
use sha2::{Digest, Sha256};
use vstd::prelude::*;
use vstd::string::{StringExecFns, StringSliceAdditionalSpecFns};

verus! {

/// The number of firmware files that are managed.
pub const MANAGED_COUNT: usize = 3;

/// The name of the `i`-th managed file.
pub open spec fn managed_name(i: int) -> Seq<char> {
    if i == 0 {
        "amss.bin.zst"@
    } else if i == 1 {
        "m3.bin.zst"@
    } else {
        "board-2.bin.zst"@
    }
}

/// The name of the `i`-th managed file before compression.
pub open spec fn plain_name(i: int) -> Seq<char> {
    if i == 0 {
        "amss.bin"@
    } else if i == 1 {
        "m3.bin"@
    } else {
        "board-2.bin"@
    }
}

/// What is added to the name of a file to name its backup.
pub open spec fn backup_suffix() -> Seq<char> {
    ".hifi-backup"@
}

/// The name of the backup of the `i`-th managed file.
pub open spec fn backup_name(i: int) -> Seq<char> {
    managed_name(i) + backup_suffix()
}

/// The name under which the `i`-th managed file lies while it is put in
/// place.
pub open spec fn pending_name(i: int) -> Seq<char> {
    managed_name(i) + ".new"@
}

/// The name of the `i`-th managed file.
pub fn managed_file(i: usize) -> (name: &'static str)
    requires
        i < MANAGED_COUNT,
    ensures
        name@ == managed_name(i as int),
{
    if i == 0 {
        "amss.bin.zst"
    } else if i == 1 {
        "m3.bin.zst"
    } else {
        "board-2.bin.zst"
    }
}

/// The name of the `i`-th managed file before compression.
pub fn plain_file(i: usize) -> (name: &'static str)
    requires
        i < MANAGED_COUNT,
    ensures
        name@ == plain_name(i as int),
{
    if i == 0 {
        "amss.bin"
    } else if i == 1 {
        "m3.bin"
    } else {
        "board-2.bin"
    }
}

/// The name of the backup of the `i`-th managed file.
pub fn backup_file(i: usize) -> (name: String)
    requires
        i < MANAGED_COUNT,
    ensures
        name@ == backup_name(i as int),
{
    let mut name = String::from_str(managed_file(i));
    name.append(".hifi-backup");
    name
}

/// The name under which the `i`-th managed file lies while it is put in
/// place.
pub fn pending_file(i: usize) -> (name: String)
    requires
        i < MANAGED_COUNT,
    ensures
        name@ == pending_name(i as int),
{
    let mut name = String::from_str(managed_file(i));
    name.append(".new");
    name
}

/// The SHA-256 digest of `data`, as the hashing library computes it.
pub uninterp spec fn sha256(data: Seq<u8>) -> Seq<u8>;

/// Hashes `data`. Wraps `Sha256::digest` of the hashing library; the
/// contract names the digest and claims nothing else of it.
#[verifier::external_body]
fn sha256_digest(data: &[u8]) -> (digest: Vec<u8>)
    ensures
        digest@ == sha256(data@),
{
    Sha256::digest(data).to_vec()
}

/// The character of a hexadecimal digit, in lower case.
pub open spec fn hex_char(d: int) -> char {
    if d == 0 {
        '0'
    } else if d == 1 {
        '1'
    } else if d == 2 {
        '2'
    } else if d == 3 {
        '3'
    } else if d == 4 {
        '4'
    } else if d == 5 {
        '5'
    } else if d == 6 {
        '6'
    } else if d == 7 {
        '7'
    } else if d == 8 {
        '8'
    } else if d == 9 {
        '9'
    } else if d == 10 {
        'a'
    } else if d == 11 {
        'b'
    } else if d == 12 {
        'c'
    } else if d == 13 {
        'd'
    } else if d == 14 {
        'e'
    } else {
        'f'
    }
}

/// Bytes written in hexadecimal: two lower-case digits for each byte.
pub open spec fn hex_chars(bytes: Seq<u8>) -> Seq<char>
    decreases bytes.len(),
{
    if bytes.len() == 0 {
        Seq::empty()
    } else {
        hex_chars(bytes.drop_last()).push(hex_char(bytes.last() as int / 16)).push(
            hex_char(bytes.last() as int % 16),
        )
    }
}

/// The text of a hexadecimal digit.
fn hex_text(d: u8) -> (text: &'static str)
    requires
        d < 16,
    ensures
        text@ == seq![hex_char(d as int)],
{
    proof {
        reveal_strlit("0");
        reveal_strlit("1");
        reveal_strlit("2");
        reveal_strlit("3");
        reveal_strlit("4");
        reveal_strlit("5");
        reveal_strlit("6");
        reveal_strlit("7");
        reveal_strlit("8");
        reveal_strlit("9");
        reveal_strlit("a");
        reveal_strlit("b");
        reveal_strlit("c");
        reveal_strlit("d");
        reveal_strlit("e");
        reveal_strlit("f");
    }
    let text: &'static str = if d == 0 {
        "0"
    } else if d == 1 {
        "1"
    } else if d == 2 {
        "2"
    } else if d == 3 {
        "3"
    } else if d == 4 {
        "4"
    } else if d == 5 {
        "5"
    } else if d == 6 {
        "6"
    } else if d == 7 {
        "7"
    } else if d == 8 {
        "8"
    } else if d == 9 {
        "9"
    } else if d == 10 {
        "a"
    } else if d == 11 {
        "b"
    } else if d == 12 {
        "c"
    } else if d == 13 {
        "d"
    } else if d == 14 {
        "e"
    } else {
        "f"
    };
    assert(text@ =~= seq![hex_char(d as int)]);
    text
}

/// Writes bytes in hexadecimal.
pub fn to_hex(bytes: &[u8]) -> (text: String)
    ensures
        text@ == hex_chars(bytes@),
{
    let mut text = String::new();
    let mut i: usize = 0;
    assert(bytes@.take(0) =~= Seq::<u8>::empty());
    while i < bytes.len()
        invariant
            i <= bytes@.len(),
            text@ == hex_chars(bytes@.take(i as int)),
        decreases bytes@.len() - i,
    {
        let b: u8 = bytes[i];
        assert(bytes@.take(i + 1).drop_last() =~= bytes@.take(i as int));
        assert(bytes@.take(i + 1).last() == b);
        text.append(hex_text(b / 16));
        text.append(hex_text(b % 16));
        assert(text@ =~= hex_chars(bytes@.take(i as int)).push(hex_char(b as int / 16)).push(
            hex_char(b as int % 16),
        ));
        i += 1;
    }
    assert(bytes@.take(bytes@.len() as int) =~= bytes@);
    text
}

/// The hash of a file's content: its SHA-256 digest in hexadecimal.
pub fn calculate_file_hash(content: &[u8]) -> (hash: String)
    ensures
        hash@ == hex_chars(sha256(content@)),
{
    let digest = sha256_digest(content);
    to_hex(digest.as_slice())
}

/// The recorded hash and size of a file.
#[derive(Debug, Clone)]
pub struct FileHash {
    /// The SHA-256 digest, in hexadecimal.
    pub sha256: String,
    /// The size in bytes.
    pub size: u64,
}

/// One file of a backup.
#[derive(Debug, Clone)]
pub struct BackupEntry {
    /// The name of the file that was backed up.
    pub name: String,
    pub hash: FileHash,
}

/// What is recorded about a backup.
#[derive(Debug, Clone)]
pub struct BackupInfo {
    /// When the backup was made, in seconds since the epoch.
    pub backup_date: i64,
    /// Whether the firmware backed up is the maker's stock firmware.
    pub is_valve_stock: bool,
    /// The version of the firmware backed up.
    pub version: String,
    /// The files of the backup.
    pub files: Vec<BackupEntry>,
}

/// Whether a file called `name` is among `present`.
pub open spec fn name_present(present: Seq<String>, name: Seq<char>) -> bool {
    exists|j: int| 0 <= j < present.len() && (#[trigger] present[j])@ == name
}

/// Whether the backups of all managed files are among `present`.
pub open spec fn backups_present(present: Seq<String>) -> bool {
    &&& name_present(present, backup_name(0))
    &&& name_present(present, backup_name(1))
    &&& name_present(present, backup_name(2))
}

/// The place of the first managed file whose content is missing, if any is.
pub open spec fn first_missing(contents: Seq<Option<Vec<u8>>>) -> Option<int> {
    if backup_at(contents, 0).is_none() {
        Some(0)
    } else if backup_at(contents, 1).is_none() {
        Some(1)
    } else if backup_at(contents, 2).is_none() {
        Some(2)
    } else {
        None
    }
}

/// The place of the first recorded file among the first `n` whose backup is
/// at fault, with the fault.
pub open spec fn first_fault(
    files: Seq<BackupEntry>,
    backups: Seq<Option<Vec<u8>>>,
    n: int,
) -> Option<FirmwareError>
    decreases n,
{
    if n <= 0 {
        None
    } else {
        match first_fault(files, backups, n - 1) {
            Some(e) => Some(e),
            None => backup_fault(files[n - 1], n - 1, backup_at(backups, n - 1)),
        }
    }
}

/// Whether `entry` records the file `content` under the name of the `i`-th
/// managed file.
pub open spec fn records(entry: BackupEntry, i: int, content: Seq<u8>) -> bool {
    &&& entry.name@ == managed_name(i)
    &&& entry.hash.sha256@ == hex_chars(sha256(content))
    &&& entry.hash.size == content.len()
}

/// What is wrong with the backup of one recorded file, if anything: it is
/// missing, has another hash, or another size, in this order.
pub open spec fn backup_fault(entry: BackupEntry, at: int, backup: Option<Vec<u8>>) -> Option<
    FirmwareError,
> {
    match backup {
        None => Some(FirmwareError::BackupFileMissing(at as usize)),
        Some(content) => if entry.hash.sha256@ != hex_chars(sha256(content@)) {
            Some(FirmwareError::BackupCorrupted(at as usize))
        } else if entry.hash.size != content@.len() {
            Some(FirmwareError::BackupSizeMismatch(at as usize))
        } else {
            None
        },
    }
}

/// The backup at `at`, where there is one.
pub open spec fn backup_at(backups: Seq<Option<Vec<u8>>>, at: int) -> Option<Vec<u8>> {
    if 0 <= at < backups.len() {
        backups[at]
    } else {
        None
    }
}

/// Once a fault is found behind a faultless start, it stays the first fault
/// however many more files are looked at.
proof fn lemma_fault_found(
    files: Seq<BackupEntry>,
    backups: Seq<Option<Vec<u8>>>,
    at: int,
    n: int,
)
    requires
        0 <= at < n,
        first_fault(files, backups, at).is_none(),
        backup_fault(files[at], at, backup_at(backups, at)).is_some(),
    ensures
        first_fault(files, backups, n) == backup_fault(files[at], at, backup_at(backups, at)),
    decreases n - at,
{
    if n > at + 1 {
        lemma_fault_found(files, backups, at, n - 1);
    }
}

/// Whether the file `name` is among `present`.
fn is_present(present: &Vec<String>, name: &str) -> (found: bool)
    ensures
        found == name_present(present@, name@),
{
    let mut j: usize = 0;
    while j < present.len()
        invariant
            j <= present@.len(),
            forall|k: int| 0 <= k < j ==> (#[trigger] present@[k])@ != name@,
        decreases present@.len() - j,
    {
        if same_text(present[j].as_str(), name) {
            return true;
        }
        j += 1;
    }
    false
}

/// Keeps and checks backups of the installed firmware.
pub struct BackupManager {
    firmware_path: String,
}

impl BackupManager {
    /// The directory this manager works in.
    pub closed spec fn path(&self) -> Seq<char> {
        self.firmware_path@
    }

    /// A manager for the firmware directory `firmware_path`.
    pub fn new(firmware_path: &str) -> (m: Self)
        ensures
            m.path() == firmware_path@,
    {
        BackupManager { firmware_path: String::from_str(firmware_path) }
    }

    /// The directory this manager works in.
    pub fn firmware_path(&self) -> (path: &str)
        ensures
            path@ == self.path(),
    {
        self.firmware_path.as_str()
    }

    /// Whether the backups of all managed files exist, given the names of
    /// the files in the firmware directory.
    pub fn backup_files_exist(&self, present: &Vec<String>) -> (all: bool)
        ensures
            all == backups_present(present@),
    {
        let first = backup_file(0);
        let second = backup_file(1);
        let third = backup_file(2);
        is_present(present, first.as_str()) && is_present(present, second.as_str()) && is_present(
            present,
            third.as_str(),
        )
    }

    /// Records a backup of the managed files. `contents` holds the content
    /// of each managed file, in order, `None` where the file is not there;
    /// all three must be there. Returns what is to be written as the
    /// backup's metadata.
    pub fn create_backup(
        &self,
        current_version: &FirmwareVersion,
        contents: &Vec<Option<Vec<u8>>>,
        backup_date: i64,
    ) -> (info: Result<BackupInfo, FirmwareError>)
        ensures
            match info {
                Ok(b) => {
                    &&& first_missing(contents@).is_none()
                    &&& b.backup_date == backup_date
                    &&& b.version@ == current_version.version_string@
                    &&& b.is_valve_stock == starts_with_bytes(
                        vstd::utf8::encode_utf8(current_version.version_string@),
                        "CI_WLAN".spec_bytes(),
                    )
                    &&& b.files@.len() == MANAGED_COUNT
                    &&& records(b.files@[0], 0, backup_at(contents@, 0).unwrap()@)
                    &&& records(b.files@[1], 1, backup_at(contents@, 1).unwrap()@)
                    &&& records(b.files@[2], 2, backup_at(contents@, 2).unwrap()@)
                },
                Err(e) => first_missing(contents@).is_some() && e
                    == FirmwareError::BackupSourceMissing(
                    first_missing(contents@).unwrap() as usize,
                ),
            },
    {
        let mut files: Vec<BackupEntry> = Vec::new();
        let mut i: usize = 0;
        while i < MANAGED_COUNT
            invariant
                i <= MANAGED_COUNT,
                files@.len() == i,
                forall|k: int|
                    0 <= k < i ==> (#[trigger] backup_at(contents@, k)).is_some() && records(
                        files@[k],
                        k,
                        backup_at(contents@, k).unwrap()@,
                    ),
            decreases MANAGED_COUNT - i,
        {
            if i >= contents.len() {
                return Err(FirmwareError::BackupSourceMissing(i));
            }
            match &contents[i] {
                Some(content) => {
                    let hash = calculate_file_hash(content.as_slice());
                    let ghost before = files@;
                    files.push(
                        BackupEntry {
                            name: String::from_str(managed_file(i)),
                            hash: FileHash { sha256: hash, size: content.len() as u64 },
                        },
                    );
                    assert forall|k: int| 0 <= k < i + 1 implies (#[trigger] backup_at(
                        contents@,
                        k,
                    )).is_some() && records(files@[k], k, backup_at(contents@, k).unwrap()@) by {
                        if k < i {
                            assert(files@[k] == before[k]);
                        }
                    }
                },
                None => {
                    return Err(FirmwareError::BackupSourceMissing(i));
                },
            }
            i += 1;
        }
        assert(backup_at(contents@, 0).is_some() && backup_at(contents@, 1).is_some() && backup_at(
            contents@,
            2,
        ).is_some());
        Ok(
            BackupInfo {
                backup_date,
                is_valve_stock: current_version.is_valve_stock(),
                version: current_version.version_string.clone(),
                files,
            },
        )
    }

    /// Checks the backup files against what was recorded of them. `backups`
    /// holds the content of the backup of each recorded file, in the order of
    /// `info.files`, `None` where the backup is not there. The first
    /// recorded file whose backup is at fault decides the error.
    pub fn verify_integrity(&self, info: &BackupInfo, backups: &Vec<Option<Vec<u8>>>) -> (result:
        Result<(), FirmwareError>)
        ensures
            result == match first_fault(info.files@, backups@, info.files@.len() as int) {
                Some(e) => Err::<(), FirmwareError>(e),
                None => Ok::<(), FirmwareError>(()),
            },
    {
        let mut i: usize = 0;
        while i < info.files.len()
            invariant
                i <= info.files@.len(),
                first_fault(info.files@, backups@, i as int).is_none(),
            decreases info.files@.len() - i,
        {
            let expected = &info.files[i];
            if i >= backups.len() {
                proof {
                    lemma_fault_found(info.files@, backups@, i as int, info.files@.len() as int);
                }
                return Err(FirmwareError::BackupFileMissing(i));
            }
            match &backups[i] {
                None => {
                    proof {
                        lemma_fault_found(
                            info.files@,
                            backups@,
                            i as int,
                            info.files@.len() as int,
                        );
                    }
                    return Err(FirmwareError::BackupFileMissing(i));
                },
                Some(content) => {
                    let actual = calculate_file_hash(content.as_slice());
                    if actual != expected.hash.sha256 {
                        proof {
                            lemma_fault_found(
                                info.files@,
                                backups@,
                                i as int,
                                info.files@.len() as int,
                            );
                        }
                        return Err(FirmwareError::BackupCorrupted(i));
                    }
                    if content.len() as u64 != expected.hash.size {
                        proof {
                            lemma_fault_found(
                                info.files@,
                                backups@,
                                i as int,
                                info.files@.len() as int,
                            );
                        }
                        return Err(FirmwareError::BackupSizeMismatch(i));
                    }
                },
            }
            i += 1;
        }
        Ok(())
    }

    /// The version of the firmware that was backed up, from the bytes of the
    /// backup of the main image after decompression.
    pub fn extract_backup_version(&self, image: &[u8]) -> (version: Result<String, FirmwareError>)
        ensures
            match version {
                Ok(text) => crate::firmware::version::version_in(image@).is_some() && text@
                    == crate::firmware::version::ascii_chars(
                    crate::firmware::version::version_in(image@).unwrap(),
                ),
                Err(e) => crate::firmware::version::version_in(image@).is_none() && e
                    == FirmwareError::VersionNotFound,
            },
    {
        crate::firmware::version::extract_version_from_bytes(image)
    }
}

/// What is done to a file.
#[derive(Debug, Clone, Copy, PartialEq, Eq, Structural)]
pub enum FileOpKind {
    /// Compress a file of the staging directory into the staging directory.
    Compress,
    /// Copy a file of the staging directory into the firmware directory.
    Install,
    /// Copy a file of the firmware directory within it.
    Copy,
    /// Rename a file of the firmware directory within it.
    Rename,
}

/// One file operation of a plan.
#[derive(Debug, Clone)]
pub struct FileOp {
    pub kind: FileOpKind,
    /// The name of the file read.
    pub source: String,
    /// The name of the file written.
    pub target: String,
}

/// A file operation as a mathematical value.
pub struct FileOpModel {
    pub kind: FileOpKind,
    pub source: Seq<char>,
    pub target: Seq<char>,
}

impl View for FileOp {
    type V = FileOpModel;

    open spec fn view(&self) -> FileOpModel {
        FileOpModel { kind: self.kind, source: self.source@, target: self.target@ }
    }
}

/// A plan as a sequence of mathematical values.
pub open spec fn plan_view(plan: Seq<FileOp>) -> Seq<FileOpModel> {
    Seq::new(plan.len(), |i: int| plan[i]@)
}

/// The plan that deploys new firmware: compress every file in the staging
/// directory; then copy every compressed file into the firmware directory
/// under its pending name; then rename every pending file to its real name.
/// No file takes its place before all were copied.
pub open spec fn deploy_plan() -> Seq<FileOpModel> {
    Seq::new(
        9,
        |k: int|
            if k < 3 {
                FileOpModel {
                    kind: FileOpKind::Compress,
                    source: plain_name(k),
                    target: managed_name(k),
                }
            } else if k < 6 {
                FileOpModel {
                    kind: FileOpKind::Install,
                    source: managed_name(k - 3),
                    target: pending_name(k - 3),
                }
            } else {
                FileOpModel {
                    kind: FileOpKind::Rename,
                    source: pending_name(k - 6),
                    target: managed_name(k - 6),
                }
            },
    )
}

/// The plan that restores the backup: copy every backup to the pending name
/// of its file; then rename every pending file to its real name.
pub open spec fn restore_plan() -> Seq<FileOpModel> {
    Seq::new(
        6,
        |k: int|
            if k < 3 {
                FileOpModel {
                    kind: FileOpKind::Copy,
                    source: backup_name(k),
                    target: pending_name(k),
                }
            } else {
                FileOpModel {
                    kind: FileOpKind::Rename,
                    source: pending_name(k - 3),
                    target: managed_name(k - 3),
                }
            },
    )
}

/// Puts firmware in place.
pub struct FirmwareDeployer {
    firmware_path: String,
}

impl FirmwareDeployer {
    /// The directory this deployer works in.
    pub closed spec fn path(&self) -> Seq<char> {
        self.firmware_path@
    }

    /// A deployer for the firmware directory `firmware_path`.
    pub fn new(firmware_path: &str) -> (d: Self)
        ensures
            d.path() == firmware_path@,
    {
        FirmwareDeployer { firmware_path: String::from_str(firmware_path) }
    }

    /// The directory this deployer works in.
    pub fn firmware_path(&self) -> (path: &str)
        ensures
            path@ == self.path(),
    {
        self.firmware_path.as_str()
    }

    /// The file operations that deploy the firmware lying in the staging
    /// directory, in order.
    pub fn deploy(&self) -> (plan: Vec<FileOp>)
        ensures
            plan_view(plan@) == deploy_plan(),
    {
        let mut plan: Vec<FileOp> = Vec::new();
        let mut i: usize = 0;
        while i < MANAGED_COUNT
            invariant
                i <= MANAGED_COUNT,
                plan@.len() == i,
                forall|k: int| 0 <= k < i ==> (#[trigger] plan@[k])@ == deploy_plan()[k],
            decreases MANAGED_COUNT - i,
        {
            plan.push(
                FileOp {
                    kind: FileOpKind::Compress,
                    source: String::from_str(plain_file(i)),
                    target: String::from_str(managed_file(i)),
                },
            );
            i += 1;
        }
        i = 0;
        while i < MANAGED_COUNT
            invariant
                i <= MANAGED_COUNT,
                plan@.len() == 3 + i,
                forall|k: int| 0 <= k < 3 + i ==> (#[trigger] plan@[k])@ == deploy_plan()[k],
            decreases MANAGED_COUNT - i,
        {
            plan.push(
                FileOp {
                    kind: FileOpKind::Install,
                    source: String::from_str(managed_file(i)),
                    target: pending_file(i),
                },
            );
            i += 1;
        }
        i = 0;
        while i < MANAGED_COUNT
            invariant
                i <= MANAGED_COUNT,
                plan@.len() == 6 + i,
                forall|k: int| 0 <= k < 6 + i ==> (#[trigger] plan@[k])@ == deploy_plan()[k],
            decreases MANAGED_COUNT - i,
        {
            plan.push(
                FileOp {
                    kind: FileOpKind::Rename,
                    source: pending_file(i),
                    target: String::from_str(managed_file(i)),
                },
            );
            i += 1;
        }
        assert(plan_view(plan@) =~= deploy_plan());
        plan
    }

    /// The file operations that restore the backup, in order.
    pub fn restore_backup(&self) -> (plan: Vec<FileOp>)
        ensures
            plan_view(plan@) == restore_plan(),
    {
        let mut plan: Vec<FileOp> = Vec::new();
        let mut i: usize = 0;
        while i < MANAGED_COUNT
            invariant
                i <= MANAGED_COUNT,
                plan@.len() == i,
                forall|k: int| 0 <= k < i ==> (#[trigger] plan@[k])@ == restore_plan()[k],
            decreases MANAGED_COUNT - i,
        {
            plan.push(
                FileOp { kind: FileOpKind::Copy, source: backup_file(i), target: pending_file(i) },
            );
            i += 1;
        }
        i = 0;
        while i < MANAGED_COUNT
            invariant
                i <= MANAGED_COUNT,
                plan@.len() == 3 + i,
                forall|k: int| 0 <= k < 3 + i ==> (#[trigger] plan@[k])@ == restore_plan()[k],
            decreases MANAGED_COUNT - i,
        {
            plan.push(
                FileOp {
                    kind: FileOpKind::Rename,
                    source: pending_file(i),
                    target: String::from_str(managed_file(i)),
                },
            );
            i += 1;
        }
        assert(plan_view(plan@) =~= restore_plan());
        plan
    }
}

/// Whether the system is the handheld's own, which keeps its system files
/// read-only: its release file says so.
pub fn is_steamos(os_release: Option<&str>) -> (is: bool)
    ensures
        is == match os_release {
            Some(text) => contains_bytes(text.spec_bytes(), "ID=steamos".spec_bytes()),
            None => false,
        },
{
    match os_release {
        Some(text) => contains(text.as_bytes(), "ID=steamos".as_bytes()),
        None => false,
    }
}

/// Whether lifting the read-only mode has failed: the command failed, and
/// not because the mode was lifted already.
pub fn disable_readonly(succeeded: bool, stderr: &str) -> (result: Result<(), ()>)
    ensures
        result.is_err() == (!succeeded && !contains_bytes(
            stderr.spec_bytes(),
            "already".spec_bytes(),
        )),
{
    if !succeeded && !contains(stderr.as_bytes(), "already".as_bytes()) {
        Err(())
    } else {
        Ok(())
    }
}

} // verus!
