use vstd::prelude::*;
use vstd::string::StringExecFns;
use crate::wave_writer::WaveWriterError;

verus! {

/// The ways in which loading a voice, phonemizing text or synthesizing speech can fail.
#[derive(Debug, Clone)]
pub enum PiperError {
    /// A voice description, a model file or the phonemizer could not be loaded.
    FailedToLoadResource(String),
    /// The phonemizer rejected the text or the voice.
    PhonemizationError(String),
    /// Inference failed, a parameter was invalid, or there was nothing to write.
    OperationError(String),
}

pub type PiperResult<T> = Result<T, PiperError>;

impl PiperError {
    /// What `message` shows for this error.
    pub open spec fn rendered(&self) -> Seq<char> {
        match self {
            PiperError::FailedToLoadResource(m) => "Failed to load resource from. Error `"@ + m@
                + "`"@,
            PiperError::PhonemizationError(m) => m@,
            PiperError::OperationError(m) => m@,
        }
    }

    /// True of an `OperationError` whose text is `text`.
    pub open spec fn is_operation_error(&self, text: Seq<char>) -> bool {
        self matches PiperError::OperationError(m) && m@ == text
    }

    /// The human-readable form of the error.
    pub fn message(&self) -> (s: String)
        ensures
            s@ == self.rendered(),
    {
        match self {
            PiperError::FailedToLoadResource(m) => {
                String::from_str("Failed to load resource from. Error `").concat(
                    m.as_str(),
                ).concat("`")
            },
            PiperError::PhonemizationError(m) => m.clone(),
            PiperError::OperationError(m) => m.clone(),
        }
    }

    /// An `OperationError` with the given text.
    pub fn operation(text: &str) -> (e: PiperError)
        ensures
            e.is_operation_error(text@),
    {
        PiperError::OperationError(String::from_str(text))
    }
}

// A specification can speak of a string's characters but cannot make a
// string, so what `from` returns is stated in its own `ensures`.
impl vstd::std_specs::convert::FromSpecImpl<WaveWriterError> for PiperError {
    open spec fn obeys_from_spec() -> bool {
        false
    }

    open spec fn from_spec(v: WaveWriterError) -> PiperError {
        arbitrary()
    }
}

impl From<WaveWriterError> for PiperError {
    /// A failure of the wave writer is an `OperationError` carrying the writer's message.
    fn from(error: WaveWriterError) -> (e: PiperError)
        ensures
            e.is_operation_error(error.rendered()),
    {
        PiperError::OperationError(error.message())
    }
}

} // verus!
