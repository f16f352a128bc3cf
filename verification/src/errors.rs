use vstd::prelude::*;

verus! {

/// Why a request failed, per the gateway's error taxonomy.
#[derive(Debug, Clone, Copy, PartialEq, Eq, Structural)]
pub enum PipelineError {
    /// No upstream rule matched the request path.
    NotFound,
    /// A malformed rule pattern or another unexpected internal fault.
    InternalError,
    /// The upstream fetch returned a non-success status.
    BadGateway,
    /// The upstream content type was missing or unusable, or the backend
    /// could not decode the bytes.
    DecodeError,
    /// The backend could not encode the image in the target format.
    EncodeError,
}

impl PipelineError {
    /// The HTTP status code this failure maps to.
    pub open spec fn spec_status_code(self) -> u16 {
        match self {
            PipelineError::NotFound => 404,
            PipelineError::InternalError => 500,
            PipelineError::BadGateway => 502,
            PipelineError::DecodeError => 500,
            PipelineError::EncodeError => 500,
        }
    }

    pub fn status_code(&self) -> (r: u16)
        ensures
            r == self.spec_status_code(),
    {
        match self {
            PipelineError::NotFound => 404,
            PipelineError::InternalError => 500,
            PipelineError::BadGateway => 502,
            PipelineError::DecodeError => 500,
            PipelineError::EncodeError => 500,
        }
    }

    /// The generic client-facing body for this failure; no internal detail
    /// is ever leaked to the client.
    pub open spec fn spec_message(self) -> Seq<char> {
        match self {
            PipelineError::NotFound => "Not found\n"@,
            PipelineError::BadGateway => "Bad gateway\n"@,
            _ => "Error processing image\n"@,
        }
    }

    pub fn message(&self) -> (r: String)
        ensures
            r@ == self.spec_message(),
            r@.len() > 0,
    {
        proof {
            reveal_strlit("Not found\n");
            reveal_strlit("Bad gateway\n");
            reveal_strlit("Error processing image\n");
        }
        match self {
            PipelineError::NotFound => String::from_str("Not found\n"),
            PipelineError::BadGateway => String::from_str("Bad gateway\n"),
            _ => String::from_str("Error processing image\n"),
        }
    }
}

} // verus!
