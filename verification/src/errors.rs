use vstd::prelude::*;
use vstd::string::StringExecFns;

verus! {

/// A failure of the template-copy pipeline.
///
/// `ConfigError` reports invalid connection information at startup;
/// `TransportError` reports that every node of a cluster failed for one
/// operation and carries the text of the last individual failure;
/// `RemoteStatusError` reports a non-success HTTP status together with the
/// response body text; `MalformedResponse` reports a response body missing
/// the expected structure; `TemplateNotFound` reports a fetch whose
/// response holds no `script` member.
#[derive(Debug, PartialEq, Eq)]
pub enum EsError {
    ConfigError(String),
    TransportError(String),
    RemoteStatusError(u16, String),
    MalformedResponse(String),
    TemplateNotFound(String),
}

impl Clone for EsError {
    fn clone(&self) -> (r: Self)
        ensures
            r == *self,
    {
        match self {
            EsError::ConfigError(m) => EsError::ConfigError(m.clone()),
            EsError::TransportError(m) => EsError::TransportError(m.clone()),
            EsError::RemoteStatusError(s, m) => EsError::RemoteStatusError(*s, m.clone()),
            EsError::MalformedResponse(m) => EsError::MalformedResponse(m.clone()),
            EsError::TemplateNotFound(m) => EsError::TemplateNotFound(m.clone()),
        }
    }
}

impl EsError {
    /// The text that `describe` renders for this error.
    pub open spec fn spec_describe(&self) -> Seq<char> {
        match self {
            EsError::ConfigError(m) => "config error: "@ + m@,
            EsError::TransportError(m) => "transport error: "@ + m@,
            EsError::RemoteStatusError(_, m) => "remote status error: "@ + m@,
            EsError::MalformedResponse(m) => "malformed response: "@ + m@,
            EsError::TemplateNotFound(m) => "template not found: "@ + m@,
        }
    }

    /// Renders the error as readable text.
    pub fn describe(&self) -> (r: String)
        ensures
            r@ == self.spec_describe(),
    {
        match self {
            EsError::ConfigError(m) => String::from_str("config error: ").concat(m.as_str()),
            EsError::TransportError(m) => String::from_str("transport error: ").concat(m.as_str()),
            EsError::RemoteStatusError(_, m) => String::from_str("remote status error: ").concat(
                m.as_str(),
            ),
            EsError::MalformedResponse(m) => String::from_str("malformed response: ").concat(
                m.as_str(),
            ),
            EsError::TemplateNotFound(m) => String::from_str("template not found: ").concat(
                m.as_str(),
            ),
        }
    }
}

} // verus!
