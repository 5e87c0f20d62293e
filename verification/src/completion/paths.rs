//! The path index over time: at most one scan runs, and the index at hand is
//! served until a new one lands.
use crate::completion::path_backend::{complete_path, offers_paths};
use crate::completion::scan::{completion_error, scan_error};
use crate::completion::{CompletionRequest, CompletionResult, CompletionStatus};
use crate::controller::Poll;
use crate::text::texts;
use vstd::prelude::*;

verus! {

/// The path index of a workspace.
pub struct Paths {
    /// The whole workspace. Directories end in `/`.
    pub index: Vec<String>,
    pub status: CompletionStatus,
    pub root: String,
    /// Whether a scan is in flight.
    pub scanning: bool,
}

/// What is known of the scan in flight.
pub enum ScanOutcome {
    /// It still runs.
    Pending,
    /// It has found these paths.
    Found(Vec<String>),
    /// It has failed.
    Failed { not_found: bool, message: String },
    /// It ended without saying anything.
    Lost,
}

impl Paths {
    /// An index that was never filled.
    pub fn new(root: String) -> (out: Paths)
        ensures
            out.index@.len() == 0,
            out.status@ == CompletionStatus::<Seq<char>>::Loading,
            out.root == root,
            !out.scanning,
    {
        Paths { index: Vec::new(), status: CompletionStatus::Loading, root, scanning: false }
    }

    /// The character that a path starts with.
    pub fn trigger(&self) -> (out: char)
        ensures
            out == '@',
    {
        '@'
    }

    /// The completion offered at the cursor, from the index at hand.
    pub fn complete(&self, request: &CompletionRequest) -> (out: Option<CompletionResult>)
        ensures
            offers_paths(texts(self.index@), self.status@, *request, out),
    {
        complete_path(&self.index, &self.status, request)
    }

    /// Ask for a new scan. The result is whether one is to be started: a scan
    /// in flight is left to finish, and without anything to scan on the index
    /// simply stands. The index at hand stays visible meanwhile.
    pub fn refresh(&mut self, can_scan: bool) -> (start: bool)
        ensures
            start == (can_scan && !old(self).scanning),
            final(self).index == old(self).index,
            final(self).root == old(self).root,
            final(self).scanning == (old(self).scanning || start),
            final(self).status@ == if start && old(self).index@.len() == 0 {
                CompletionStatus::Loading
            } else {
                old(self).status@
            },
    {
        if self.scanning || !can_scan {
            return false;
        }
        if self.index.len() == 0 {
            self.status = CompletionStatus::Loading;
        }
        self.scanning = true;
        true
    }

    /// Take in what is known of the scan in flight. A scan that was lost brings
    /// no new index and is no error: an error would hide the index at hand.
    pub fn poll(&mut self, outcome: ScanOutcome) -> (out: Poll)
        ensures
            final(self).root == old(self).root,
            !old(self).scanning ==> out == Poll::Idle && *final(self) == *old(self),
            old(self).scanning ==> match outcome {
                ScanOutcome::Pending => out == Poll::Idle && *final(self) == *old(self),
                ScanOutcome::Found(index) => {
                    &&& out == Poll::Changed
                    &&& final(self).index == index
                    &&& final(self).status@ == CompletionStatus::<Seq<char>>::Ready
                    &&& !final(self).scanning
                },
                ScanOutcome::Failed { not_found, message } => {
                    &&& out == Poll::Changed
                    &&& final(self).index == old(self).index
                    &&& final(self).status@ == CompletionStatus::Error(
                        scan_error(not_found, message@),
                    )
                    &&& !final(self).scanning
                },
                ScanOutcome::Lost => {
                    &&& out == Poll::Idle
                    &&& final(self).index == old(self).index
                    &&& final(self).status == old(self).status
                    &&& !final(self).scanning
                },
            },
    {
        if !self.scanning {
            return Poll::Idle;
        }
        match outcome {
            ScanOutcome::Pending => Poll::Idle,
            ScanOutcome::Found(index) => {
                self.index = index;
                self.status = CompletionStatus::Ready;
                self.scanning = false;
                Poll::Changed
            },
            ScanOutcome::Failed { not_found, message } => {
                self.status = CompletionStatus::Error(completion_error(not_found, message));
                self.scanning = false;
                Poll::Changed
            },
            ScanOutcome::Lost => {
                self.scanning = false;
                Poll::Idle
            },
        }
    }
}

} // verus!
