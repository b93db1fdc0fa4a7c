//! Errors of the service and the HTTP answers they turn into.

use vstd::prelude::*;

verus! {

/// Why an image reference was refused.
#[derive(Debug)]
pub enum ImageParseError {
    /// The reference was the empty string.
    EmptyImage,
    /// The reference held a `:` with nothing before or nothing after it.
    EmptyPart(String),
}

/// The text that describes an image reference error, also the message that a
/// client is answered with.
pub open spec fn spec_image_error_message(e: &ImageParseError) -> Seq<char> {
    match e {
        ImageParseError::EmptyImage => "image missing"@,
        ImageParseError::EmptyPart(image) => "invalid image: "@ + image@,
    }
}

impl ImageParseError {
    /// The text that describes the error.
    pub fn message(&self) -> (res: String)
        ensures
            res@ == spec_image_error_message(self),
    {
        match self {
            ImageParseError::EmptyImage => String::from_str("image missing"),
            ImageParseError::EmptyPart(image) => String::from_str("invalid image: ").concat(
                image.as_str(),
            ),
        }
    }
}

/// A failure of the docker client, as plain values: the daemon answered with
/// an error status, or the client failed otherwise (then only its description
/// is kept).
#[derive(Debug)]
pub enum DockerFailure {
    ResponseServer { status_code: u16, message: String },
    Other(String),
}

/// Everything that can go wrong while serving a request.
#[derive(Debug)]
pub enum AutodokError {
    /// The docker client failed; its description.
    Docker(String),
    /// The docker daemon answered with an error status.
    DockerResponseServer { status_code: u16, message: String },
    /// The request named an invalid image.
    Input(ImageParseError),
}

/// A status code as HTTP knows it: three digits.
pub open spec fn is_status_code(code: int) -> bool {
    100 <= code <= 999
}

/// `code` where it is a valid HTTP status code, else 500 (internal server
/// error).
pub open spec fn spec_status_or_internal(code: u16) -> u16 {
    if is_status_code(code as int) {
        code
    } else {
        500
    }
}

/// The HTTP status and message that an error is answered with.
pub open spec fn spec_response_parts(e: &AutodokError) -> (u16, Seq<char>) {
    match e {
        AutodokError::Docker(description) => (500, "something went wrong: "@ + description@),
        AutodokError::DockerResponseServer { status_code, message } => (
            spec_status_or_internal(*status_code),
            message@,
        ),
        AutodokError::Input(err) => (400, spec_image_error_message(err)),
    }
}

/// `code` where it is a valid HTTP status code, else 500.
pub fn status_or_internal(code: u16) -> (res: u16)
    ensures
        res == spec_status_or_internal(code),
{
    if 100 <= code && code <= 999 {
        code
    } else {
        500
    }
}

impl AutodokError {
    /// The error for an error status that the docker daemon answered with; a
    /// status that is no valid HTTP status becomes 500.
    pub fn from_bollard(code: u16, message: String) -> (res: AutodokError)
        ensures
            res matches AutodokError::DockerResponseServer { status_code, message: m } && status_code
                == spec_status_or_internal(code) && m@ == message@,
    {
        AutodokError::DockerResponseServer { status_code: status_or_internal(code), message }
    }

    /// The error for a failure of the docker client.
    pub fn from_docker_failure(failure: DockerFailure) -> (res: AutodokError)
        ensures
            match failure {
                DockerFailure::ResponseServer { status_code, message } => res matches AutodokError::DockerResponseServer {
                    status_code: s,
                    message: m,
                } && s == spec_status_or_internal(status_code) && m@ == message@,
                DockerFailure::Other(description) => res matches AutodokError::Docker(d) && d@
                    == description@,
            },
    {
        match failure {
            DockerFailure::ResponseServer { status_code, message } => AutodokError::from_bollard(
                status_code,
                message,
            ),
            DockerFailure::Other(description) => AutodokError::Docker(description),
        }
    }

    /// The HTTP status and the message that the error is answered with.
    pub fn response_parts(&self) -> (res: (u16, String))
        ensures
            (res.0, res.1@) == spec_response_parts(self),
    {
        match self {
            AutodokError::Docker(description) => (
                500,
                String::from_str("something went wrong: ").concat(description.as_str()),
            ),
            AutodokError::DockerResponseServer { status_code, message } => (
                status_or_internal(*status_code),
                message.clone(),
            ),
            AutodokError::Input(err) => (400, err.message()),
        }
    }
}

impl From<ImageParseError> for AutodokError {
    fn from(err: ImageParseError) -> (res: AutodokError) {
        AutodokError::Input(err)
    }
}

impl vstd::std_specs::convert::FromSpecImpl<ImageParseError> for AutodokError {
    open spec fn obeys_from_spec() -> bool {
        true
    }

    open spec fn from_spec(v: ImageParseError) -> AutodokError {
        AutodokError::Input(v)
    }
}

/// Every error is answered with a valid HTTP status: an invalid image with 400
/// (bad request), a failing docker client with 500, and an error status of the
/// docker daemon with that status where it is valid.
pub proof fn lemma_response_status(e: &AutodokError)
    ensures
        is_status_code(spec_response_parts(e).0 as int),
        e is Input ==> spec_response_parts(e).0 == 400,
        e is Docker ==> spec_response_parts(e).0 == 500,
        e matches AutodokError::DockerResponseServer { status_code, .. } ==> (is_status_code(
            status_code as int,
        ) ==> spec_response_parts(e).0 == status_code),
{
}

} // verus!
