//! The error type shared by every module, and its mathematical model.

use vstd::prelude::*;

verus! {

/// Everything that can go wrong in the mesh core.
#[derive(Debug, Clone)]
pub enum QlinkError {
    InvalidKey(String),
    Crypto(String),
    Protocol(String),
    Route(String),
    RecordExpired,
    SignatureVerification,
    Io(String),
    Json(String),
}

/// The model of a [`QlinkError`]: the same variants over character sequences.
pub enum QlinkErrorView {
    InvalidKey(Seq<char>),
    Crypto(Seq<char>),
    Protocol(Seq<char>),
    Route(Seq<char>),
    RecordExpired,
    SignatureVerification,
    Io(Seq<char>),
    Json(Seq<char>),
}

impl View for QlinkError {
    type V = QlinkErrorView;

    open spec fn view(&self) -> QlinkErrorView {
        match self {
            QlinkError::InvalidKey(s) => QlinkErrorView::InvalidKey(s@),
            QlinkError::Crypto(s) => QlinkErrorView::Crypto(s@),
            QlinkError::Protocol(s) => QlinkErrorView::Protocol(s@),
            QlinkError::Route(s) => QlinkErrorView::Route(s@),
            QlinkError::RecordExpired => QlinkErrorView::RecordExpired,
            QlinkError::SignatureVerification => QlinkErrorView::SignatureVerification,
            QlinkError::Io(s) => QlinkErrorView::Io(s@),
            QlinkError::Json(s) => QlinkErrorView::Json(s@),
        }
    }
}

pub type Result<T, E = QlinkError> = std::result::Result<T, E>;

/// A result with both sides replaced by their models.
pub open spec fn result_view<T: View>(r: Result<T>) -> Result<T::V, QlinkErrorView> {
    match r {
        Ok(v) => Ok(v@),
        Err(e) => Err(e@),
    }
}

/// The message an error is shown with.
pub open spec fn error_text(e: QlinkErrorView) -> Seq<char> {
    match e {
        QlinkErrorView::InvalidKey(s) => "invalid key material: "@ + s,
        QlinkErrorView::Crypto(s) => "cryptographic operation failed: "@ + s,
        QlinkErrorView::Protocol(s) => "protocol error: "@ + s,
        QlinkErrorView::Route(s) => "route parse error: "@ + s,
        QlinkErrorView::RecordExpired => "record expired"@,
        QlinkErrorView::SignatureVerification => "signature verification failed"@,
        QlinkErrorView::Io(s) => "io error: "@ + s,
        QlinkErrorView::Json(s) => "json error: "@ + s,
    }
}

/// A protocol error that carries a fixed message.
pub(crate) fn protocol(text: &str) -> (e: QlinkError)
    ensures
        e@ == QlinkErrorView::Protocol(text@),
{
    QlinkError::Protocol(text.to_owned())
}

impl QlinkError {
    /// The same error again.
    pub fn duplicate(&self) -> (e: QlinkError)
        ensures
            e@ == self@,
    {
        match self {
            QlinkError::InvalidKey(s) => QlinkError::InvalidKey(s.clone()),
            QlinkError::Crypto(s) => QlinkError::Crypto(s.clone()),
            QlinkError::Protocol(s) => QlinkError::Protocol(s.clone()),
            QlinkError::Route(s) => QlinkError::Route(s.clone()),
            QlinkError::RecordExpired => QlinkError::RecordExpired,
            QlinkError::SignatureVerification => QlinkError::SignatureVerification,
            QlinkError::Io(s) => QlinkError::Io(s.clone()),
            QlinkError::Json(s) => QlinkError::Json(s.clone()),
        }
    }

    /// The message shown to a user.
    pub fn to_string(&self) -> (s: String)
        ensures
            s@ == error_text(self@),
    {
        match self {
            QlinkError::InvalidKey(s) => "invalid key material: ".to_owned().concat(s.as_str()),
            QlinkError::Crypto(s) => "cryptographic operation failed: ".to_owned().concat(
                s.as_str(),
            ),
            QlinkError::Protocol(s) => "protocol error: ".to_owned().concat(s.as_str()),
            QlinkError::Route(s) => "route parse error: ".to_owned().concat(s.as_str()),
            QlinkError::RecordExpired => "record expired".to_owned(),
            QlinkError::SignatureVerification => "signature verification failed".to_owned(),
            QlinkError::Io(s) => "io error: ".to_owned().concat(s.as_str()),
            QlinkError::Json(s) => "json error: ".to_owned().concat(s.as_str()),
        }
    }
}

} // verus!
