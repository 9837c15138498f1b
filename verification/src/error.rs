//! The failures that end an unpacking.

use crate::bytes::{catenate, copy, text};
use vstd::prelude::*;
use vstd::string::StringSliceAdditionalSpecFns;

verus! {

/// Why an unpacking stopped. Each kind carries the text of the failure of
/// the operation that it names.
#[derive(Debug, PartialEq, Eq)]
pub enum Error {
    /// The crate file could not be opened.
    OpeningCrate(Vec<u8>),
    /// The entries of the crate file could not be read.
    ReadingCrate(Vec<u8>),
    /// An entry could not be written under the vendor path.
    WritingToVendor(Vec<u8>),
    /// A checksum file could not be opened for writing.
    OpeningChecksumFile(Vec<u8>),
    /// A checksum file could not be written.
    WritingChecksumFile(Vec<u8>),
}

/// An `Error` as a mathematical value.
pub enum ErrorView {
    OpeningCrate(Seq<u8>),
    ReadingCrate(Seq<u8>),
    WritingToVendor(Seq<u8>),
    OpeningChecksumFile(Seq<u8>),
    WritingChecksumFile(Seq<u8>),
}

impl View for Error {
    type V = ErrorView;

    open spec fn view(&self) -> ErrorView {
        match self {
            Error::OpeningCrate(cause) => ErrorView::OpeningCrate(cause@),
            Error::ReadingCrate(cause) => ErrorView::ReadingCrate(cause@),
            Error::WritingToVendor(cause) => ErrorView::WritingToVendor(cause@),
            Error::OpeningChecksumFile(cause) => ErrorView::OpeningChecksumFile(cause@),
            Error::WritingChecksumFile(cause) => ErrorView::WritingChecksumFile(cause@),
        }
    }
}

impl ErrorView {
    /// The text of the underlying failure.
    pub open spec fn cause(self) -> Seq<u8> {
        match self {
            ErrorView::OpeningCrate(cause) => cause,
            ErrorView::ReadingCrate(cause) => cause,
            ErrorView::WritingToVendor(cause) => cause,
            ErrorView::OpeningChecksumFile(cause) => cause,
            ErrorView::WritingChecksumFile(cause) => cause,
        }
    }

    /// The words that say which operation failed.
    pub open spec fn label(self) -> Seq<u8> {
        match self {
            ErrorView::OpeningCrate(_) => "opening crate file: ".spec_bytes(),
            ErrorView::ReadingCrate(_) => "reading crate: ".spec_bytes(),
            ErrorView::WritingToVendor(_) => "writing crate to the vendor-path: ".spec_bytes(),
            ErrorView::OpeningChecksumFile(_) => "opening vendor path checksum file: ".spec_bytes(),
            ErrorView::WritingChecksumFile(_) => "writing vendor path checksum file: ".spec_bytes(),
        }
    }

    /// The message of the error: its label, then its cause.
    pub open spec fn message(self) -> Seq<u8> {
        self.label() + self.cause()
    }

    /// The line that reports the error.
    pub open spec fn report(self) -> Seq<u8> {
        "error: ".spec_bytes() + self.message()
    }
}

impl Clone for Error {
    fn clone(&self) -> (out: Error)
        ensures
            out@ == self@,
    {
        match self {
            Error::OpeningCrate(cause) => Error::OpeningCrate(copy(cause.as_slice())),
            Error::ReadingCrate(cause) => Error::ReadingCrate(copy(cause.as_slice())),
            Error::WritingToVendor(cause) => Error::WritingToVendor(copy(cause.as_slice())),
            Error::OpeningChecksumFile(cause) => Error::OpeningChecksumFile(copy(cause.as_slice())),
            Error::WritingChecksumFile(cause) => Error::WritingChecksumFile(copy(cause.as_slice())),
        }
    }
}

impl Error {
    /// The message of the error: the words that say which operation failed,
    /// then the text of the underlying failure.
    pub fn message(&self) -> (out: Vec<u8>)
        ensures
            out@ == self@.message(),
    {
        match self {
            Error::OpeningCrate(cause) => catenate(text("opening crate file: ").as_slice(), cause.as_slice()),
            Error::ReadingCrate(cause) => catenate(text("reading crate: ").as_slice(), cause.as_slice()),
            Error::WritingToVendor(cause) => catenate(
                text("writing crate to the vendor-path: ").as_slice(),
                cause.as_slice(),
            ),
            Error::OpeningChecksumFile(cause) => catenate(
                text("opening vendor path checksum file: ").as_slice(),
                cause.as_slice(),
            ),
            Error::WritingChecksumFile(cause) => catenate(
                text("writing vendor path checksum file: ").as_slice(),
                cause.as_slice(),
            ),
        }
    }

    /// The line that reports the error: `error: `, then the message.
    pub fn report(&self) -> (out: Vec<u8>)
        ensures
            out@ == self@.report(),
    {
        catenate(text("error: ").as_slice(), self.message().as_slice())
    }
}

} // verus!
