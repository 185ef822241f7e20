//! The values that the RPC handlers answer with.

use vstd::prelude::*;

verus! {

/// A string in an RPC answer.
pub struct UniString {
    pub value: String,
}

impl View for UniString {
    type V = Seq<char>;

    open spec fn view(&self) -> Seq<char> {
        self.value@
    }
}

impl UniString {
    pub fn from_string(value: String) -> (s: UniString)
        ensures
            s@ == value@,
    {
        UniString { value }
    }

    pub fn from_str(value: &str) -> (s: UniString)
        ensures
            s@ == value@,
    {
        UniString { value: value.to_owned() }
    }
}

/// A timestamp in an RPC answer: seconds since the epoch, or RFC 3339 text.
pub enum TimeStamp {
    Integral(i64),
    Rfc(String),
}

/// A timestamp as the contracts see it.
pub enum TimeStampView {
    Integral(i64),
    Rfc(Seq<char>),
}

impl View for TimeStamp {
    type V = TimeStampView;

    open spec fn view(&self) -> TimeStampView {
        match self {
            TimeStamp::Integral(secs) => TimeStampView::Integral(*secs),
            TimeStamp::Rfc(text) => TimeStampView::Rfc(text@),
        }
    }
}

/// The answer to `/monitor/bootstrapped`: the current head and its time.
pub struct BootstrapInfo {
    pub block: UniString,
    pub timestamp: TimeStamp,
}

impl View for BootstrapInfo {
    type V = (Seq<char>, TimeStampView);

    open spec fn view(&self) -> (Seq<char>, TimeStampView) {
        (self.block@, self.timestamp@)
    }
}

impl BootstrapInfo {
    pub fn new(block: UniString, timestamp: TimeStamp) -> (info: BootstrapInfo)
        ensures
            info@ == (block@, timestamp@),
    {
        BootstrapInfo { block, timestamp }
    }
}

/// The body of a failed RPC answer.
pub struct ErrorMessage {
    pub code: u16,
    pub message: String,
}

} // verus!
