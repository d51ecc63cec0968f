//! Downloads of upstream firmware: what is fetched, and whether what came
//! is plausible.

use crate::firmware::version::{ascii_chars, version_in, FirmwareVersion};
use crate::firmware::FirmwareError;
use crate::text::{contains, contains_bytes};
use vstd::prelude::*;
use vstd::string::{StringExecFns, StringSliceAdditionalSpecFns};

verus! {

/// The number of firmware files that are downloaded.
pub const DOWNLOAD_COUNT: usize = 3;

/// The name of the `i`-th file to download.
pub open spec fn download_name(i: int) -> Seq<char> {
    if i == 0 {
        "amss.bin"@
    } else if i == 1 {
        "m3.bin"@
    } else {
        "board-2.bin"@
    }
}

/// The least size, in bytes, that the `i`-th file has where it is real
/// firmware.
pub open spec fn min_size(i: int) -> u64 {
    if i == 0 {
        5_000_000
    } else if i == 1 {
        200_000
    } else {
        500_000
    }
}

/// Where upstream firmware lies.
pub open spec fn base_url() -> Seq<char> {
    "https://gitlab.com/kernel-firmware/linux-firmware/-/raw/main/ath11k/QCA2066/hw2.1"@
}

/// One file to download.
#[derive(Debug, Clone)]
pub struct DownloadJob {
    /// Where the file is fetched from.
    pub url: String,
    /// The name under which it is put into the staging directory.
    pub name: String,
    /// The least plausible size, in bytes.
    pub min_size: u64,
}

/// What is wrong with a downloaded file of `size` bytes, `None` where the
/// file is not there.
pub open spec fn download_fault(i: int, size: Option<u64>) -> Option<FirmwareError> {
    match size {
        None => Some(FirmwareError::DownloadMissing(i as usize)),
        Some(s) => if s < min_size(i) {
            Some(FirmwareError::DownloadTooSmall(i as usize))
        } else {
            None
        },
    }
}

/// The size at `at`, where there is one.
pub open spec fn size_at(sizes: Seq<Option<u64>>, at: int) -> Option<u64> {
    if 0 <= at < sizes.len() {
        sizes[at]
    } else {
        None
    }
}

/// Downloads firmware with the system's download tool.
pub struct FirmwareDownloader;

/// The name of the `i`-th file to download.
fn download_file_name(i: usize) -> (name: &'static str)
    requires
        i < DOWNLOAD_COUNT,
    ensures
        name@ == download_name(i as int),
{
    if i == 0 {
        "amss.bin"
    } else if i == 1 {
        "m3.bin"
    } else {
        "board-2.bin"
    }
}

/// The least plausible size of the `i`-th file.
fn download_min_size(i: usize) -> (size: u64)
    requires
        i < DOWNLOAD_COUNT,
    ensures
        size == min_size(i as int),
{
    if i == 0 {
        5_000_000
    } else if i == 1 {
        200_000
    } else {
        500_000
    }
}

impl FirmwareDownloader {
    /// A downloader, where the download tool works. `tool_works` says
    /// whether the tool ran and succeeded, `None` where it could not be run.
    pub fn new(tool_works: Option<bool>) -> (d: Result<Self, FirmwareError>)
        ensures
            d.is_ok() == (tool_works == Some(true)),
            d.is_err() ==> d == Err::<Self, FirmwareError>(FirmwareError::DownloaderUnavailable),
    {
        match tool_works {
            Some(true) => Ok(FirmwareDownloader),
            _ => Err(FirmwareError::DownloaderUnavailable),
        }
    }

    /// The files to download, in order.
    pub fn download_all(&self) -> (jobs: Vec<DownloadJob>)
        ensures
            jobs@.len() == DOWNLOAD_COUNT,
            forall|i: int|
                0 <= i < DOWNLOAD_COUNT ==> (#[trigger] jobs@[i]).name@ == download_name(i)
                    && jobs@[i].url@ == base_url() + "/"@ + download_name(i) && jobs@[i].min_size
                    == min_size(i),
    {
        let mut jobs: Vec<DownloadJob> = Vec::new();
        let mut i: usize = 0;
        while i < DOWNLOAD_COUNT
            invariant
                i <= DOWNLOAD_COUNT,
                jobs@.len() == i,
                forall|k: int|
                    0 <= k < i ==> (#[trigger] jobs@[k]).name@ == download_name(k) && jobs@[k].url@
                        == base_url() + "/"@ + download_name(k) && jobs@[k].min_size == min_size(k),
            decreases DOWNLOAD_COUNT - i,
        {
            let mut url = String::from_str(
                "https://gitlab.com/kernel-firmware/linux-firmware/-/raw/main/ath11k/QCA2066/hw2.1",
            );
            url.append("/");
            url.append(download_file_name(i));
            jobs.push(
                DownloadJob {
                    url,
                    name: String::from_str(download_file_name(i)),
                    min_size: download_min_size(i),
                },
            );
            i += 1;
        }
        jobs
    }

    /// Checks the size of the `i`-th file after its download.
    pub fn download_file(&self, i: usize, size: Option<u64>) -> (result: Result<(), FirmwareError>)
        requires
            i < DOWNLOAD_COUNT,
        ensures
            result == match download_fault(i as int, size) {
                Some(e) => Err::<(), FirmwareError>(e),
                None => Ok::<(), FirmwareError>(()),
            },
    {
        match size {
            None => Err(FirmwareError::DownloadMissing(i)),
            Some(s) => if s < download_min_size(i) {
                Err(FirmwareError::DownloadTooSmall(i))
            } else {
                Ok(())
            },
        }
    }

    /// Validates the downloaded files: every file must be there and large
    /// enough, and the main image must hold a version that speaks of
    /// `WLAN`. `sizes` holds the size of each file, in order, `None` where
    /// it is not there; `main_image` holds the bytes of the main image. The
    /// first file at fault decides the error.
    pub fn validate(&self, sizes: &Vec<Option<u64>>, main_image: &[u8]) -> (version: Result<
        FirmwareVersion,
        FirmwareError,
    >)
        ensures
            match version {
                Ok(v) => {
                    &&& forall|i: int|
                        0 <= i < DOWNLOAD_COUNT ==> download_fault(
                            i,
                            #[trigger] size_at(sizes@, i),
                        ).is_none()
                    &&& version_in(main_image@).is_some()
                    &&& v.version_string@ == ascii_chars(version_in(main_image@).unwrap())
                    &&& contains_bytes(
                        vstd::utf8::encode_utf8(v.version_string@),
                        "WLAN".spec_bytes(),
                    )
                },
                Err(e) => {
                    ||| exists|i: int|
                        0 <= i < DOWNLOAD_COUNT && download_fault(i, #[trigger] size_at(sizes@, i))
                            == Some(e) && forall|k: int|
                            0 <= k < i ==> download_fault(
                                k,
                                #[trigger] size_at(sizes@, k),
                            ).is_none()
                    ||| (forall|i: int|
                        0 <= i < DOWNLOAD_COUNT ==> download_fault(
                            i,
                            #[trigger] size_at(sizes@, i),
                        ).is_none()) && (if version_in(main_image@).is_none() {
                        e == FirmwareError::VersionNotFound
                    } else {
                        e == FirmwareError::UnexpectedVersion
                    })
                },
            },
    {
        let mut i: usize = 0;
        while i < DOWNLOAD_COUNT
            invariant
                i <= DOWNLOAD_COUNT,
                forall|k: int|
                    0 <= k < i ==> download_fault(k, #[trigger] size_at(sizes@, k)).is_none(),
            decreases DOWNLOAD_COUNT - i,
        {
            let size: Option<u64> = if i < sizes.len() { sizes[i] } else { None };
            assert(size == size_at(sizes@, i as int));
            match self.download_file(i, size) {
                Ok(_) => {},
                Err(e) => {
                    return Err(e);
                },
            }
            i += 1;
        }
        let version = match FirmwareVersion::from_raw(main_image) {
            Ok(v) => v,
            Err(e) => {
                return Err(e);
            },
        };
        if !contains(version.version_string.as_str().as_bytes(), "WLAN".as_bytes()) {
            return Err(FirmwareError::UnexpectedVersion);
        }
        Ok(version)
    }
}

} // verus!
