//! Failures and notices: what a run tells the outside about itself.

use vstd::prelude::*;
use vstd::string::StringExecFns;

verus! {

/// The class of a failure.
#[derive(Clone, Copy, Debug, PartialEq, Eq, Structural)]
pub enum FailureKind {
    /// The command line did not name a directory.
    Usage,
    /// A directory or a file could not be opened or read.
    Io,
    /// The durable store refused a query or a write.
    Store,
}

/// A failure that ends the run: its class and what the driver knows of the
/// cause.
#[derive(Debug, PartialEq, Eq)]
pub struct Failure {
    pub kind: FailureKind,
    pub detail: String,
}

/// A failure as contracts speak of it.
pub ghost struct FailureView {
    pub kind: FailureKind,
    pub detail: Seq<char>,
}

impl View for Failure {
    type V = FailureView;

    open spec fn view(&self) -> FailureView {
        FailureView { kind: self.kind, detail: self.detail@ }
    }
}

/// The line that reports a failure.
pub open spec fn failure_text(failure: FailureView) -> Seq<char> {
    "Error: "@ + failure.detail
}

impl Clone for Failure {
    fn clone(&self) -> (copy: Self)
        ensures
            copy@ == self@,
    {
        Failure { kind: self.kind, detail: self.detail.clone() }
    }
}

impl Failure {
    pub fn new(kind: FailureKind, detail: String) -> (failure: Self)
        ensures
            failure@ == (FailureView { kind, detail: detail@ }),
    {
        Failure { kind, detail }
    }

    /// The line to show for this failure.
    pub fn render(&self) -> (line: String)
        ensures
            line@ == failure_text(self@),
    {
        let mut line = String::from_str("Error: ");
        line.append(self.detail.as_str());
        line
    }
}

/// Something worth telling while a run goes on.
#[derive(Debug, PartialEq, Eq)]
pub enum Notice {
    /// The walk enters a directory.
    Entering { directory: String },
    /// A file was hashed and its record written.
    Processed { path: String, digest: String },
    /// A file was already indexed and was left alone; `digest` is the one on
    /// record.
    Skipped { path: String, digest: String },
}

/// A notice as contracts speak of it.
pub ghost enum NoticeView {
    Entering { directory: Seq<char> },
    Processed { path: Seq<char>, digest: Seq<char> },
    Skipped { path: Seq<char>, digest: Seq<char> },
}

impl View for Notice {
    type V = NoticeView;

    open spec fn view(&self) -> NoticeView {
        match self {
            Notice::Entering { directory } => NoticeView::Entering { directory: directory@ },
            Notice::Processed { path, digest } => NoticeView::Processed {
                path: path@,
                digest: digest@,
            },
            Notice::Skipped { path, digest } => NoticeView::Skipped {
                path: path@,
                digest: digest@,
            },
        }
    }
}

/// The line that a notice is shown as: which path, whether it was hashed or
/// skipped, and the fingerprint.
pub open spec fn notice_text(notice: NoticeView) -> Seq<char> {
    match notice {
        NoticeView::Entering { directory } => "Processing directory: "@ + directory,
        NoticeView::Processed { path, digest } => "processed: "@ + path + ": "@ + digest,
        NoticeView::Skipped { path, digest } => "skipped: "@ + path + ": "@ + digest,
    }
}

impl Clone for Notice {
    fn clone(&self) -> (copy: Self)
        ensures
            copy@ == self@,
    {
        match self {
            Notice::Entering { directory } => Notice::Entering { directory: directory.clone() },
            Notice::Processed { path, digest } => Notice::Processed {
                path: path.clone(),
                digest: digest.clone(),
            },
            Notice::Skipped { path, digest } => Notice::Skipped {
                path: path.clone(),
                digest: digest.clone(),
            },
        }
    }
}

impl Notice {
    /// The line to show for this notice.
    pub fn render(&self) -> (line: String)
        ensures
            line@ == notice_text(self@),
    {
        match self {
            Notice::Entering { directory } => {
                let mut line = String::from_str("Processing directory: ");
                line.append(directory.as_str());
                line
            },
            Notice::Processed { path, digest } => {
                let mut line = String::from_str("processed: ");
                line.append(path.as_str());
                line.append(": ");
                line.append(digest.as_str());
                line
            },
            Notice::Skipped { path, digest } => {
                let mut line = String::from_str("skipped: ");
                line.append(path.as_str());
                line.append(": ");
                line.append(digest.as_str());
                line
            },
        }
    }
}

} // verus!
