use vstd::prelude::*;

verus! {

/// The errors of the alerting library.
#[derive(Debug)]
pub enum VoltaTestError {
    /// Related to Alert persistent storage
    RepositoryError(String),
    /// Related to ZMQ and alerting trigger
    AlertingError(String),
    /// Any other kind of error
    Unknown(String),
}

/// An error as a mathematical value: its kind and its reason.
pub enum VoltaTestErrorView {
    RepositoryError(Seq<char>),
    AlertingError(Seq<char>),
    Unknown(Seq<char>),
}

impl View for VoltaTestError {
    type V = VoltaTestErrorView;

    open spec fn view(&self) -> VoltaTestErrorView {
        match self {
            VoltaTestError::RepositoryError(r) => VoltaTestErrorView::RepositoryError(r@),
            VoltaTestError::AlertingError(r) => VoltaTestErrorView::AlertingError(r@),
            VoltaTestError::Unknown(r) => VoltaTestErrorView::Unknown(r@),
        }
    }
}

/// The text an error is shown as: its source label, a space, and its reason.
pub open spec fn error_text(e: VoltaTestErrorView) -> Seq<char> {
    match e {
        VoltaTestErrorView::RepositoryError(r) => "RepositoryError: "@ + " "@ + r,
        VoltaTestErrorView::AlertingError(r) => "AlertingError: "@ + " "@ + r,
        VoltaTestErrorView::Unknown(r) => "Unknown Error: "@ + " "@ + r,
    }
}

impl VoltaTestError {
    /// An error of the persistent storage, with the given reason.
    pub fn repository_error(reason: &str) -> (e: Self)
        ensures
            e@ == VoltaTestErrorView::RepositoryError(reason@),
    {
        VoltaTestError::RepositoryError(String::from_str(reason))
    }

    /// An error of the alerting logic, with the given reason.
    pub fn alerting_error(reason: &str) -> (e: Self)
        ensures
            e@ == VoltaTestErrorView::AlertingError(reason@),
    {
        VoltaTestError::AlertingError(String::from_str(reason))
    }

    /// The text of the error: `"<Source>: "`, a space, then the reason.
    pub fn to_string(&self) -> (s: String)
        ensures
            s@ == error_text(self@),
    {
        let (source, reason) = match self {
            VoltaTestError::RepositoryError(e) => ("RepositoryError: ", e),
            VoltaTestError::AlertingError(e) => ("AlertingError: ", e),
            VoltaTestError::Unknown(e) => ("Unknown Error: ", e),
        };
        let mut text = String::from_str(source);
        text.append(" ");
        text.append(reason.as_str());
        text
    }
}

} // verus!
