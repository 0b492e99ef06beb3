//! The scan report that the detection engine hands to the command-line
//! tool, held as plain values: every duplicate with its two locations, its
//! length, its similarity (in millionths) and its clone type.

use vstd::prelude::*;
use crate::fixed::MILLION;

verus! {

broadcast use vstd::string::group_string_axioms;

/// Kind of code clone
#[derive(Clone, Copy, Debug, PartialEq, Eq, Structural)]
pub enum CloneType {
    /// Exact copy, differing only in whitespace and comments
    Type1,
    /// Same structure with renamed identifiers or literals
    Type2,
    /// Similar code with small additions, deletions or modifications
    Type3,
}

impl CloneType {
    /// The name used by `--only-type` and `--exclude-type`.
    pub open spec fn spec_tag(self) -> Seq<char> {
        match self {
            CloneType::Type1 => "type-1"@,
            CloneType::Type2 => "type-2"@,
            CloneType::Type3 => "type-3"@,
        }
    }

    /// The name used by `--only-type` and `--exclude-type`.
    pub fn tag(&self) -> (r: &'static str)
        ensures
            r@ == self.spec_tag(),
    {
        match self {
            CloneType::Type1 => "type-1",
            CloneType::Type2 => "type-2",
            CloneType::Type3 => "type-3",
        }
    }

    /// The human-readable name of the clone type.
    pub open spec fn spec_label(self) -> Seq<char> {
        match self {
            CloneType::Type1 => "Type-1 (exact)"@,
            CloneType::Type2 => "Type-2 (renamed)"@,
            CloneType::Type3 => "Type-3 (modified)"@,
        }
    }

    /// The human-readable name of the clone type.
    pub fn label(&self) -> (r: &'static str)
        ensures
            r@ == self.spec_label(),
    {
        match self {
            CloneType::Type1 => "Type-1 (exact)",
            CloneType::Type2 => "Type-2 (renamed)",
            CloneType::Type3 => "Type-3 (modified)",
        }
    }

    /// The position of the clone type in the order Type-1, Type-2, Type-3.
    pub open spec fn spec_rank(self) -> u64 {
        match self {
            CloneType::Type1 => 0,
            CloneType::Type2 => 1,
            CloneType::Type3 => 2,
        }
    }

    /// The position of the clone type in the order Type-1, Type-2, Type-3.
    pub fn rank(&self) -> (r: u64)
        ensures
            r == self.spec_rank(),
    {
        match self {
            CloneType::Type1 => 0,
            CloneType::Type2 => 1,
            CloneType::Type3 => 2,
        }
    }
}

/// One duplicate: the same code found at two locations.
pub struct DuplicateMatch {
    pub file1: String,
    pub file2: String,
    pub start_line1: usize,
    pub start_line2: usize,
    pub end_line1: Option<usize>,
    pub end_line2: Option<usize>,
    /// Length of the duplicated block in tokens
    pub length: usize,
    /// Similarity in millionths (0 to 1_000_000)
    pub similarity: i64,
    /// Hash of the duplicated block; equal for every copy of the same code
    pub hash: u64,
    pub clone_type: CloneType,
    /// Stable identifier of the duplicate, when computed
    pub duplicate_id: Option<String>,
    /// Whether an inline directive suppressed the duplicate
    pub suppressed_by_directive: Option<bool>,
}

impl DuplicateMatch {
    /// The similarity is a fraction between zero and one.
    pub open spec fn wf(&self) -> bool {
        0 <= self.similarity <= MILLION
    }

    /// A copy of the duplicate.
    pub fn copy(&self) -> (r: DuplicateMatch)
        ensures
            r == *self,
    {
        DuplicateMatch {
            file1: self.file1.clone(),
            file2: self.file2.clone(),
            start_line1: self.start_line1,
            start_line2: self.start_line2,
            end_line1: self.end_line1,
            end_line2: self.end_line2,
            length: self.length,
            similarity: self.similarity,
            hash: self.hash,
            clone_type: self.clone_type,
            duplicate_id: match &self.duplicate_id {
                Some(id) => Some(id.clone()),
                None => None,
            },
            suppressed_by_directive: self.suppressed_by_directive,
        }
    }
}

/// Every duplicate of the sequence is well formed.
pub open spec fn all_wf(dups: Seq<DuplicateMatch>) -> bool {
    forall|i: int| 0 <= i < dups.len() ==> (#[trigger] dups[i]).wf()
}

/// A file that the scan could not analyse, with the reason.
pub struct SkippedFile {
    pub path: String,
    pub reason: String,
}

/// Counters gathered during a scan.
pub struct ScanStats {
    pub total_lines: usize,
    pub total_tokens: usize,
    pub unique_hashes: usize,
    pub duration_ms: u64,
    pub suppressed_by_ignore_file: usize,
    pub suppressed_by_directive: usize,
}

/// The outcome of a scan.
pub struct Report {
    pub files_scanned: usize,
    pub functions_analyzed: usize,
    pub duplicates: Vec<DuplicateMatch>,
    pub skipped_files: Vec<SkippedFile>,
    pub stats: ScanStats,
}

impl Report {
    /// Every duplicate of the report is well formed.
    pub open spec fn wf(&self) -> bool {
        all_wf(self.duplicates@)
    }
}

} // verus!
