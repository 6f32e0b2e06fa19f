use vstd::prelude::*;

use crate::scanner::{ScanResult, ScannerError};
use crate::store::{LibraryStoreError, StoredScan};

verus! {

#[derive(Debug, Clone, PartialEq, Eq)]
pub enum LibraryServiceError {
    Scanner(ScannerError),
    Store(LibraryStoreError),
}

/// What scanning a directory into the library did.
#[derive(Debug, Clone, PartialEq, Eq)]
pub struct LibraryScanReport {
    pub root: String,
    pub scan: ScanResult,
    pub stored: Vec<StoredScan>,
}

impl LibraryScanReport {
    pub fn scanned_assets(&self) -> (r: usize)
        ensures
            r == self.scan.assets@.len(),
    {
        self.scan.assets.len()
    }

    pub fn ignored_files(&self) -> (r: usize)
        ensures
            r == self.scan.ignored_files@.len(),
    {
        self.scan.ignored_files.len()
    }

    pub fn scan_errors(&self) -> (r: usize)
        ensures
            r == self.scan.errors@.len(),
    {
        self.scan.errors.len()
    }

    pub fn persisted_assets(&self) -> (r: usize)
        ensures
            r == self.stored@.len(),
    {
        self.stored.len()
    }

    pub fn has_scan_errors(&self) -> (r: bool)
        ensures
            r == (self.scan.errors@.len() > 0),
    {
        self.scan.errors.len() != 0
    }

    pub fn asset_count(&self) -> (r: usize)
        ensures
            r == self.scan.assets@.len(),
    {
        self.scanned_assets()
    }

    pub fn ignored_count(&self) -> (r: usize)
        ensures
            r == self.scan.ignored_files@.len(),
    {
        self.ignored_files()
    }

    pub fn error_count(&self) -> (r: usize)
        ensures
            r == self.scan.errors@.len(),
    {
        self.scan_errors()
    }

    pub fn persisted_count(&self) -> (r: usize)
        ensures
            r == self.stored@.len(),
    {
        self.persisted_assets()
    }
}

/// The paths a scan vouches for, when stored assets it did not find may be
/// removed: only after a scan without errors, since a file that failed to
/// scan may still exist.
pub fn paths_to_keep(scan: &ScanResult) -> (r: Option<Vec<String>>)
    ensures
        scan.errors@.len() > 0 ==> r is None,
        scan.errors@.len() == 0 ==> (r matches Some(paths) && paths@.len() == scan.assets@.len() && forall|i: int|
            0 <= i < paths@.len() ==> #[trigger] paths@[i] == scan.assets@[i].asset.path),
{
    if scan.errors.len() != 0 {
        return None;
    }
    let mut paths: Vec<String> = Vec::new();
    let mut i: usize = 0;
    while i < scan.assets.len()
        invariant
            i <= scan.assets@.len(),
            paths@.len() == i,
            forall|j: int| 0 <= j < i ==> #[trigger] paths@[j] == scan.assets@[j].asset.path,
        decreases scan.assets@.len() - i,
    {
        paths.push(scan.assets[i].asset.path.clone());
        i = i + 1;
    }
    Some(paths)
}

} // verus!
