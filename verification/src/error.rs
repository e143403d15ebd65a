//! Error taxonomy: per-item failures, request-level failures, and the
//! user-visible rejection they map to.

use vstd::prelude::*;
use vstd::string::StringExecFns;

verus! {

/// Why a single photograph produced no output. A per-item failure is recorded
/// and the item is skipped; it never aborts the rest of the batch.
#[derive(Clone, Copy, Debug, PartialEq, Eq, Structural)]
pub enum ItemFailure {
    /// The watermark or the photograph has a zero dimension, or the scaled
    /// watermark cannot be addressed on this machine.
    InvalidGeometry,
    /// The photograph's bytes could not be decoded.
    UnsupportedFormat,
    /// The composited image could not be encoded.
    EncodeFailure,
    /// An isolated worker exited with a non-zero code.
    WorkerFailed,
}

/// Why a whole request is rejected.
#[derive(Clone, Copy, Debug, PartialEq, Eq, Structural)]
pub enum BatchError {
    /// No watermark, or an empty set of photographs.
    InputValidation,
    /// Not a single photograph could be processed.
    NoValidOutputs,
    /// The archive could not be written or finalized.
    PackagingError,
}

/// A rejection as shown to the caller: a class and a textual reason.
#[derive(Debug, PartialEq, Eq)]
pub enum AppError {
    /// The caller sent something that cannot be worked on.
    BadRequest(String),
    /// The work failed for a reason that is not the caller's.
    Internal(String),
}

/// The status of a rejection that is the caller's fault.
pub const STATUS_BAD_REQUEST: u16 = 400;

/// The status of a rejection that is not the caller's fault.
pub const STATUS_INTERNAL: u16 = 500;

pub open spec fn invalid_geometry_text() -> Seq<char> {
    "Ukuran gambar watermark atau base tidak valid"@
}

pub open spec fn unsupported_format_text() -> Seq<char> {
    "Gagal membuka gambar: format tidak didukung"@
}

pub open spec fn encode_failure_text() -> Seq<char> {
    "Gagal menyimpan output image"@
}

pub open spec fn worker_failed_text() -> Seq<char> {
    "Worker process gagal"@
}

pub open spec fn input_validation_text() -> Seq<char> {
    "Harap upload foto dan watermark"@
}

pub open spec fn no_valid_outputs_text() -> Seq<char> {
    "Tidak ada foto yang berhasil diproses"@
}

pub open spec fn packaging_error_text() -> Seq<char> {
    "Gagal finalize ZIP"@
}

impl AppError {
    /// The textual reason carried by the rejection.
    pub open spec fn text(self) -> Seq<char> {
        match self {
            AppError::BadRequest(msg) => msg@,
            AppError::Internal(msg) => msg@,
        }
    }

    /// The status code of the rejection class.
    pub open spec fn spec_status(self) -> u16 {
        match self {
            AppError::BadRequest(_) => STATUS_BAD_REQUEST,
            AppError::Internal(_) => STATUS_INTERNAL,
        }
    }

    /// The numeric status that the transport layer answers with.
    pub fn status(&self) -> (code: u16)
        ensures
            code == self.spec_status(),
            code == 400 || code == 500,
    {
        match self {
            AppError::BadRequest(_) => STATUS_BAD_REQUEST,
            AppError::Internal(_) => STATUS_INTERNAL,
        }
    }

    /// The textual reason, as an owned string.
    pub fn message(&self) -> (msg: String)
        ensures
            msg@ == self.text(),
    {
        match self {
            AppError::BadRequest(msg) => msg.clone(),
            AppError::Internal(msg) => msg.clone(),
        }
    }
}

impl ItemFailure {
    /// The rejection that a single-image run reports for this failure.
    pub open spec fn spec_to_app_error_class(self) -> u16 {
        match self {
            ItemFailure::InvalidGeometry => STATUS_BAD_REQUEST,
            ItemFailure::UnsupportedFormat => STATUS_BAD_REQUEST,
            ItemFailure::EncodeFailure => STATUS_INTERNAL,
            ItemFailure::WorkerFailed => STATUS_INTERNAL,
        }
    }

    pub open spec fn spec_text(self) -> Seq<char> {
        match self {
            ItemFailure::InvalidGeometry => invalid_geometry_text(),
            ItemFailure::UnsupportedFormat => unsupported_format_text(),
            ItemFailure::EncodeFailure => encode_failure_text(),
            ItemFailure::WorkerFailed => worker_failed_text(),
        }
    }

    /// Maps a per-item failure to the rejection shown when that item was the
    /// whole job: bad input is the caller's fault, the rest is internal.
    pub fn to_app_error(self) -> (e: AppError)
        ensures
            e.spec_status() == self.spec_to_app_error_class(),
            e.text() == self.spec_text(),
    {
        match self {
            ItemFailure::InvalidGeometry => AppError::BadRequest(
                String::from_str("Ukuran gambar watermark atau base tidak valid"),
            ),
            ItemFailure::UnsupportedFormat => AppError::BadRequest(
                String::from_str("Gagal membuka gambar: format tidak didukung"),
            ),
            ItemFailure::EncodeFailure => AppError::Internal(
                String::from_str("Gagal menyimpan output image"),
            ),
            ItemFailure::WorkerFailed => AppError::Internal(String::from_str("Worker process gagal")),
        }
    }
}

impl BatchError {
    pub open spec fn spec_to_app_error_class(self) -> u16 {
        match self {
            BatchError::InputValidation => STATUS_BAD_REQUEST,
            BatchError::NoValidOutputs => STATUS_BAD_REQUEST,
            BatchError::PackagingError => STATUS_INTERNAL,
        }
    }

    pub open spec fn spec_text(self) -> Seq<char> {
        match self {
            BatchError::InputValidation => input_validation_text(),
            BatchError::NoValidOutputs => no_valid_outputs_text(),
            BatchError::PackagingError => packaging_error_text(),
        }
    }

    /// Maps a request-level failure to the rejection shown to the caller.
    pub fn to_app_error(self) -> (e: AppError)
        ensures
            e.spec_status() == self.spec_to_app_error_class(),
            e.text() == self.spec_text(),
    {
        match self {
            BatchError::InputValidation => AppError::BadRequest(
                String::from_str("Harap upload foto dan watermark"),
            ),
            BatchError::NoValidOutputs => AppError::BadRequest(
                String::from_str("Tidak ada foto yang berhasil diproses"),
            ),
            BatchError::PackagingError => AppError::Internal(String::from_str("Gagal finalize ZIP")),
        }
    }
}

} // verus!
