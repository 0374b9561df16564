//! Taking the executable out of a downloaded release archive.

use vstd::prelude::*;
use vstd::string::*;

use crate::config::ToolSpec;
use crate::error::ForemanError;
use crate::text::concat3;
use crate::version::Version;

verus! {

/// What the zip crate makes of `bytes` taken as an archive: the contents of
/// its first entry; or the stage that failed (0: opening the archive, 1:
/// finding the entry, 2: reading it) and the error's text.
pub uninterp spec fn zip_first_entry(bytes: Seq<u8>) -> Result<Seq<u8>, (nat, Seq<char>)>;

/// Why the first entry could not be taken out of an archive.
enum ArchiveFailure {
    Open(String),
    Entry(String),
    Read(String),
}

/// Relies on `zip::ZipArchive::new`, `ZipArchive::by_index(0)` and reading the
/// entry to its end.
#[verifier::external_body]
fn read_first_entry(bytes: &Vec<u8>) -> (r: Result<Vec<u8>, ArchiveFailure>)
    ensures
        match (r, zip_first_entry(bytes@)) {
            (Ok(b), Ok(m)) => b@ == m,
            (Err(f), Err((k, m))) => match f {
                ArchiveFailure::Open(e) => k == 0 && e@ == m,
                ArchiveFailure::Entry(e) => k == 1 && e@ == m,
                ArchiveFailure::Read(e) => k == 2 && e@ == m,
            },
            _ => false,
        },
{
    let mut archive = zip::ZipArchive::new(std::io::Cursor::new(bytes.as_slice()))
        .map_err(|e| ArchiveFailure::Open(e.to_string()))?;
    let mut entry = archive.by_index(0).map_err(|e| ArchiveFailure::Entry(e.to_string()))?;
    let mut out = Vec::new();
    std::io::Read::read_to_end(&mut entry, &mut out).map_err(|e| ArchiveFailure::Read(e.to_string()))?;
    Ok(out)
}

/// The message that an archive failure is reported with.
pub open spec fn archive_message(stage: nat, err: Seq<char>) -> Seq<char> {
    if stage == 0 {
        "unable to open zip archive ("@ + err + ")"@
    } else {
        "unable to obtain file from zip archive ("@ + err + ")"@
    }
}

/// The executable inside a release archive of `tool` at `version`: the
/// archive's first entry. A failure is reported as an invalid release asset.
pub fn extract_executable(tool: &ToolSpec, version: &Version, archive: &Vec<u8>) -> (r: Result<Vec<u8>, ForemanError>)
    ensures
        match (r, zip_first_entry(archive@)) {
            (Ok(b), Ok(m)) => b@ == m,
            (Err(e), Err((stage, m))) => e matches ForemanError::InvalidReleaseAsset {
                tool: t,
                version: v,
                message,
            } && t == *tool && v == *version && message@ == archive_message(stage, m),
            _ => false,
        },
{
    let failure = match read_first_entry(archive) {
        Ok(bytes) => return Ok(bytes),
        Err(failure) => failure,
    };
    let message = match failure {
        ArchiveFailure::Open(e) => concat3("unable to open zip archive (", e.as_str(), ")"),
        ArchiveFailure::Entry(e) | ArchiveFailure::Read(e) => concat3(
            "unable to obtain file from zip archive (",
            e.as_str(),
            ")",
        ),
    };
    Err(ForemanError::InvalidReleaseAsset { tool: tool.duplicate(), version: version.duplicate(), message })
}

} // verus!
