use vstd::prelude::*;

use crate::ipc::has_prefix;

verus! {

#[verifier::external_type_specification]
#[verifier::external_body]
pub struct ExIoError(std::io::Error);

/// The failures of the overlay; [`MemeBlinkError::message`] writes out
/// what each one says.
#[derive(Debug)]
pub enum MemeBlinkError {
    /// The Wayland connection could not be set up.
    WaylandInitialization(String),
    /// The IPC socket could not be bound at `path`.
    IpcBinding { path: String, source: std::io::Error },
    /// Reading `path` failed.
    IoError { path: String, source: std::io::Error },
    /// An image asset could not be decoded.
    DecodeError(String),
    /// An image could not be decoded from a path.
    ImageDecoding(String),
    /// A configuration parameter is invalid.
    InvalidConfiguration(String),
}

/// `ToString::to_string` of an I/O error: its message. Nothing is claimed
/// of the text: for an error of the operating system it comes from the
/// system's own message tables.
#[verifier::external_body]
fn io_error_text(e: &std::io::Error) -> String {
    e.to_string()
}

/// `m` with `tail` appended, and `m` starts with what it held before.
fn append_text(m: &mut String, tail: &str)
    ensures
        final(m)@ == old(m)@ + tail@,
        has_prefix(final(m)@, old(m)@),
{
    m.append(tail);
    proof {
        assert((old(m)@ + tail@).take(old(m)@.len() as int) =~= old(m)@);
    }
}

impl MemeBlinkError {
    /// Whether `m` is what the error says: a fixed sentence for each kind
    /// with its text, or, for the I/O kinds, with the path, followed by
    /// the message of the I/O error.
    pub open spec fn says(&self, m: Seq<char>) -> bool {
        match self {
            MemeBlinkError::WaylandInitialization(s) => m
                == "Failed to initialize Wayland connection: "@ + s@,
            MemeBlinkError::IpcBinding { path, .. } => has_prefix(
                m,
                "IPC socket binding failed at "@ + path@ + ": "@,
            ),
            MemeBlinkError::IoError { path, .. } => has_prefix(
                m,
                "File system I/O failure for path: "@ + path@ + ". Source: "@,
            ),
            MemeBlinkError::DecodeError(s) => m == "Failed to decode image asset: "@ + s@,
            MemeBlinkError::ImageDecoding(s) => m == "Failed to decode image from path: "@ + s@,
            MemeBlinkError::InvalidConfiguration(s) => m == "Invalid configuration parameter: "@
                + s@,
        }
    }

    /// The text the error is shown with.
    pub fn message(&self) -> (m: String)
        ensures
            self.says(m@),
    {
        match self {
            MemeBlinkError::WaylandInitialization(s) => {
                let mut m = String::from_str("Failed to initialize Wayland connection: ");
                m.append(s.as_str());
                m
            },
            MemeBlinkError::IpcBinding { path, source } => {
                let mut m = String::from_str("IPC socket binding failed at ");
                m.append(path.as_str());
                m.append(": ");
                let text = io_error_text(source);
                append_text(&mut m, text.as_str());
                m
            },
            MemeBlinkError::IoError { path, source } => {
                let mut m = String::from_str("File system I/O failure for path: ");
                m.append(path.as_str());
                m.append(". Source: ");
                let text = io_error_text(source);
                append_text(&mut m, text.as_str());
                m
            },
            MemeBlinkError::DecodeError(s) => {
                let mut m = String::from_str("Failed to decode image asset: ");
                m.append(s.as_str());
                m
            },
            MemeBlinkError::ImageDecoding(s) => {
                let mut m = String::from_str("Failed to decode image from path: ");
                m.append(s.as_str());
                m
            },
            MemeBlinkError::InvalidConfiguration(s) => {
                let mut m = String::from_str("Invalid configuration parameter: ");
                m.append(s.as_str());
                m
            },
        }
    }
}

/// The outcome of an overlay operation.
pub type Result<T> = std::result::Result<T, MemeBlinkError>;

} // verus!
