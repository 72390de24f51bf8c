//! What a sandboxed command may do.

use crate::text::{concat2, copy_str};
use vstd::prelude::*;

verus! {

/// How a path may be used.
#[derive(Clone, Copy, Debug, PartialEq, Eq, Structural)]
pub enum AccessMode {
    Read,
    Write,
    ReadWrite,
}

impl AccessMode {
    pub open spec fn text(self) -> Seq<char> {
        match self {
            AccessMode::Read => "read"@,
            AccessMode::Write => "write"@,
            AccessMode::ReadWrite => "read+write"@,
        }
    }

    pub fn as_str(self) -> (r: &'static str)
        ensures
            r@ == self.text(),
    {
        match self {
            AccessMode::Read => "read",
            AccessMode::Write => "write",
            AccessMode::ReadWrite => "read+write",
        }
    }
}

/// Where a grant comes from.
#[derive(Debug)]
pub enum CapabilitySource {
    User,
    Profile,
    Group(String),
    System,
}

impl CapabilitySource {
    pub open spec fn text(self) -> Seq<char> {
        match self {
            CapabilitySource::User => "user"@,
            CapabilitySource::Profile => "profile"@,
            CapabilitySource::Group(name) => "group:"@ + name@,
            CapabilitySource::System => "system"@,
        }
    }

    pub fn describe(&self) -> (r: String)
        ensures
            r@ == self.text(),
    {
        match self {
            CapabilitySource::User => copy_str("user"),
            CapabilitySource::Profile => copy_str("profile"),
            CapabilitySource::Group(name) => concat2("group:", name.as_str()),
            CapabilitySource::System => copy_str("system"),
        }
    }
}

/// A grant on a path; `resolved` is the path with all links followed.
#[derive(Debug)]
pub struct FsCapability {
    pub original: String,
    pub resolved: String,
    pub access: AccessMode,
    pub is_file: bool,
    pub source: CapabilitySource,
}

/// How the network may be used.
#[derive(Clone, Copy, Debug, PartialEq, Eq, Structural)]
pub enum NetworkMode {
    Blocked,
    ProxyOnly,
    AllowAll,
}

/// The words for an access and for where a grant comes from.
pub proof fn law_words_for_grants(a: AccessMode, s: CapabilitySource)
    ensures
        a == AccessMode::Read ==> a.text() == "read"@,
        a == AccessMode::Write ==> a.text() == "write"@,
        a == AccessMode::ReadWrite ==> a.text() == "read+write"@,
        s is User ==> s.text() == "user"@,
        s is Profile ==> s.text() == "profile"@,
        s is System ==> s.text() == "system"@,
        s is Group ==> s.text() == "group:"@ + (s->Group_0)@,
{
}

} // verus!
