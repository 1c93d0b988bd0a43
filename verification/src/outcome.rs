//! What one connection attempt amounts to.

use vstd::prelude::*;

verus! {

/// The classification of one port after an attempt.
#[derive(Clone, Debug, PartialEq, Eq)]
pub enum ScanStatus {
    /// The connection was made and the peer sent something.
    OpenWithBanner(String),
    /// The connection was made and nothing was read from it.
    OpenNoBanner,
    /// The connection was not made: refused, unreachable, or no answer in
    /// time. The three are not told apart.
    ClosedOrFiltered,
}

/// The result of one attempt: the port and what was found there.
#[derive(Clone, Debug, PartialEq, Eq)]
pub struct ScanOutcome {
    pub port: u16,
    pub status: ScanStatus,
}

/// The mathematical content of a [`ScanStatus`].
pub ghost enum StatusView {
    OpenWithBanner(Seq<char>),
    OpenNoBanner,
    ClosedOrFiltered,
}

impl View for ScanStatus {
    type V = StatusView;

    open spec fn view(&self) -> StatusView {
        match self {
            ScanStatus::OpenWithBanner(text) => StatusView::OpenWithBanner(text@),
            ScanStatus::OpenNoBanner => StatusView::OpenNoBanner,
            ScanStatus::ClosedOrFiltered => StatusView::ClosedOrFiltered,
        }
    }
}

impl View for ScanOutcome {
    type V = (u16, StatusView);

    open spec fn view(&self) -> (u16, StatusView) {
        (self.port, self.status@)
    }
}

/// The text that `String::from_utf8_lossy` makes of a byte string.
pub uninterp spec fn utf8_lossy(bytes: Seq<u8>) -> Seq<char>;

/// What a finished read says about an open port: a banner if any byte
/// arrived, and none otherwise.
pub open spec fn status_of_read(bytes: Seq<u8>) -> StatusView {
    if bytes.len() > 0 {
        StatusView::OpenWithBanner(utf8_lossy(bytes))
    } else {
        StatusView::OpenNoBanner
    }
}

/// Calls `String::from_utf8_lossy` on `bytes` and returns the text as an
/// owned string.
///
/// Trusted: the text is a function of the bytes alone.
#[verifier::external_body]
fn lossy_text(bytes: &[u8]) -> (text: String)
    ensures
        text@ == utf8_lossy(bytes@),
{
    String::from_utf8_lossy(bytes).into_owned()
}

/// Classifies an open port by what one read returned.
pub fn classify_read(bytes: &[u8]) -> (status: ScanStatus)
    ensures
        status@ == status_of_read(bytes@),
{
    if bytes.len() > 0 {
        ScanStatus::OpenWithBanner(lossy_text(bytes))
    } else {
        ScanStatus::OpenNoBanner
    }
}

} // verus!
