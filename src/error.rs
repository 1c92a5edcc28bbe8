use vstd::prelude::*;

verus! {

/// Everything that can go wrong while a plan is turned into object drafts.
#[derive(Clone, Debug, PartialEq, Eq)]
pub enum PlanError {
    /// A template names a placeholder that is not defined, or is malformed.
    TemplateFailed,
    /// A value tagged as a template does not hold a string.
    TemplateNotString,
    /// A tagged value carries a tag other than `static` or `template`.
    UnknownTag(String),
    /// A value that has to render to a string rendered to something else;
    /// the field names the offending place in the plan.
    NotAString(String),
    /// Every eligible host of the named network is taken.
    NoFreeIp(String),
    /// No address pool has been set up for the named network.
    UnknownNetwork(String),
    /// The text is not a network in CIDR notation.
    InvalidCidr(String),
    /// None of the lookups for the named network found exactly one match.
    NetworkNotFound(String),
}

/// The model of a [`PlanError`].
pub enum PlanFault {
    TemplateFailed,
    TemplateNotString,
    UnknownTag(Seq<char>),
    NotAString(Seq<char>),
    NoFreeIp(Seq<char>),
    UnknownNetwork(Seq<char>),
    InvalidCidr(Seq<char>),
    NetworkNotFound(Seq<char>),
}

impl View for PlanError {
    type V = PlanFault;

    open spec fn view(&self) -> PlanFault {
        match self {
            PlanError::TemplateFailed => PlanFault::TemplateFailed,
            PlanError::TemplateNotString => PlanFault::TemplateNotString,
            PlanError::UnknownTag(t) => PlanFault::UnknownTag(t@),
            PlanError::NotAString(t) => PlanFault::NotAString(t@),
            PlanError::NoFreeIp(t) => PlanFault::NoFreeIp(t@),
            PlanError::UnknownNetwork(t) => PlanFault::UnknownNetwork(t@),
            PlanError::InvalidCidr(t) => PlanFault::InvalidCidr(t@),
            PlanError::NetworkNotFound(t) => PlanFault::NetworkNotFound(t@),
        }
    }
}

} // verus!
