//! Why an operation failed.

use crate::text::{concat2, copy_str, opt_view};
use vstd::prelude::*;

verus! {

/// The failures that commands report.
#[derive(Debug)]
pub enum NonoError {
    ActionRequired(String),
    Cancelled(String),
    ConfigParse(String),
    LearnError(String),
    PackageInstall(String),
    ProfileInheritance(String),
    ProfileNotFound(String),
    ProfileParse(String),
    SandboxInit(String),
    AttachBusy,
    HomeNotFound,
    SessionGone,
    PackageVerification { package: String, reason: String },
    ProfileRead { path: String, cause: String },
}

/// A failure with its texts as sequences of characters.
pub enum ErrorView {
    ActionRequired(Seq<char>),
    Cancelled(Seq<char>),
    ConfigParse(Seq<char>),
    LearnError(Seq<char>),
    PackageInstall(Seq<char>),
    ProfileInheritance(Seq<char>),
    ProfileNotFound(Seq<char>),
    ProfileParse(Seq<char>),
    SandboxInit(Seq<char>),
    AttachBusy,
    HomeNotFound,
    SessionGone,
    PackageVerification { package: Seq<char>, reason: Seq<char> },
    ProfileRead { path: Seq<char>, cause: Seq<char> },
}

impl View for NonoError {
    type V = ErrorView;

    open spec fn view(&self) -> ErrorView {
        match self {
            NonoError::ActionRequired(m) => ErrorView::ActionRequired(m@),
            NonoError::Cancelled(m) => ErrorView::Cancelled(m@),
            NonoError::ConfigParse(m) => ErrorView::ConfigParse(m@),
            NonoError::LearnError(m) => ErrorView::LearnError(m@),
            NonoError::PackageInstall(m) => ErrorView::PackageInstall(m@),
            NonoError::ProfileInheritance(m) => ErrorView::ProfileInheritance(m@),
            NonoError::ProfileNotFound(m) => ErrorView::ProfileNotFound(m@),
            NonoError::ProfileParse(m) => ErrorView::ProfileParse(m@),
            NonoError::SandboxInit(m) => ErrorView::SandboxInit(m@),
            NonoError::AttachBusy => ErrorView::AttachBusy,
            NonoError::HomeNotFound => ErrorView::HomeNotFound,
            NonoError::SessionGone => ErrorView::SessionGone,
            NonoError::PackageVerification { package, reason } => ErrorView::PackageVerification {
                package: package@,
                reason: reason@,
            },
            NonoError::ProfileRead { path, cause } => ErrorView::ProfileRead {
                path: path@,
                cause: cause@,
            },
        }
    }
}

impl ErrorView {
    /// The text that a failure carries; empty where it carries none.
    pub open spec fn text(self) -> Seq<char> {
        match self {
            ErrorView::ActionRequired(m) => m,
            ErrorView::Cancelled(m) => m,
            ErrorView::ConfigParse(m) => m,
            ErrorView::LearnError(m) => m,
            ErrorView::PackageInstall(m) => m,
            ErrorView::ProfileInheritance(m) => m,
            ErrorView::ProfileNotFound(m) => m,
            ErrorView::ProfileParse(m) => m,
            ErrorView::SandboxInit(m) => m,
            ErrorView::AttachBusy => Seq::empty(),
            ErrorView::HomeNotFound => Seq::empty(),
            ErrorView::SessionGone => Seq::empty(),
            ErrorView::PackageVerification { reason, .. } => reason,
            ErrorView::ProfileRead { cause, .. } => cause,
        }
    }
}

impl NonoError {
    /// The text that the failure carries.
    pub fn message(&self) -> (r: String)
        ensures
            r@ == self@.text(),
    {
        match self {
            NonoError::ActionRequired(m) => copy_str(m.as_str()),
            NonoError::Cancelled(m) => copy_str(m.as_str()),
            NonoError::ConfigParse(m) => copy_str(m.as_str()),
            NonoError::LearnError(m) => copy_str(m.as_str()),
            NonoError::PackageInstall(m) => copy_str(m.as_str()),
            NonoError::ProfileInheritance(m) => copy_str(m.as_str()),
            NonoError::ProfileNotFound(m) => copy_str(m.as_str()),
            NonoError::ProfileParse(m) => copy_str(m.as_str()),
            NonoError::SandboxInit(m) => copy_str(m.as_str()),
            NonoError::AttachBusy => String::new(),
            NonoError::HomeNotFound => String::new(),
            NonoError::SessionGone => String::new(),
            NonoError::PackageVerification { package: _, reason } => copy_str(reason.as_str()),
            NonoError::ProfileRead { path: _, cause } => copy_str(cause.as_str()),
        }
    }

    /// The same failure once more.
    pub fn copy(&self) -> (r: NonoError)
        ensures
            r@ == self@,
    {
        match self {
            NonoError::ActionRequired(m) => NonoError::ActionRequired(copy_str(m.as_str())),
            NonoError::Cancelled(m) => NonoError::Cancelled(copy_str(m.as_str())),
            NonoError::ConfigParse(m) => NonoError::ConfigParse(copy_str(m.as_str())),
            NonoError::LearnError(m) => NonoError::LearnError(copy_str(m.as_str())),
            NonoError::PackageInstall(m) => NonoError::PackageInstall(copy_str(m.as_str())),
            NonoError::ProfileInheritance(m) => NonoError::ProfileInheritance(copy_str(m.as_str())),
            NonoError::ProfileNotFound(m) => NonoError::ProfileNotFound(copy_str(m.as_str())),
            NonoError::ProfileParse(m) => NonoError::ProfileParse(copy_str(m.as_str())),
            NonoError::SandboxInit(m) => NonoError::SandboxInit(copy_str(m.as_str())),
            NonoError::AttachBusy => NonoError::AttachBusy,
            NonoError::HomeNotFound => NonoError::HomeNotFound,
            NonoError::SessionGone => NonoError::SessionGone,
            NonoError::PackageVerification { package, reason } => NonoError::PackageVerification {
                package: copy_str(package.as_str()),
                reason: copy_str(reason.as_str()),
            },
            NonoError::ProfileRead { path, cause } => NonoError::ProfileRead {
                path: copy_str(path.as_str()),
                cause: copy_str(cause.as_str()),
            },
        }
    }
}

/// What the program prints when it ends with a failure: a message that asks for action as it is,
/// nothing where the user ended it, and everything else behind the program's name.
pub open spec fn exit_text(e: ErrorView, shown: Seq<char>) -> Option<Seq<char>> {
    match e {
        ErrorView::ActionRequired(m) => Some(m),
        ErrorView::Cancelled(_) => None,
        _ => Some("nono: "@ + shown),
    }
}

/// The last line of the program. `shown` is the failure as people read it.
pub fn exit_message(e: &NonoError, shown: &str) -> (r: Option<String>)
    ensures
        opt_view(r) == exit_text(e@, shown@),
{
    match e {
        NonoError::ActionRequired(m) => Some(copy_str(m.as_str())),
        NonoError::Cancelled(_) => None,
        _ => Some(concat2("nono: ", shown)),
    }
}

/// A message that asks for action is printed as it is, nothing is printed where the user ended the
/// program, and any other failure is printed behind the name of the program.
pub proof fn law_last_words(e: ErrorView, shown: Seq<char>)
    ensures
        e is Cancelled <==> exit_text(e, shown) is None,
        e is ActionRequired ==> exit_text(e, shown) == Some(e->ActionRequired_0),
        !(e is Cancelled) && !(e is ActionRequired) ==> exit_text(e, shown) == Some(
            seq!['n', 'o', 'n', 'o', ':', ' '] + shown,
        ),
{
    reveal_strlit("nono: ");
    assert("nono: "@ =~= seq!['n', 'o', 'n', 'o', ':', ' ']);
}

} // verus!
