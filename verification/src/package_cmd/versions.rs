//! Comparing versions.

use crate::error::{ErrorView, NonoError};
use crate::text::{
    chars_of, concat4, concat6, from_chars, opt_view, str_trim, sub_chars, trim,
};
use core::cmp::Ordering;
use semver::Version;
use vstd::prelude::*;

verus! {

/// What the crate `semver` says of a text that is no version; nothing where it is one.
pub uninterp spec fn semver_error(text: Seq<char>) -> Option<Seq<char>>;

/// How two versions compare.
pub uninterp spec fn semver_order(left: Seq<char>, right: Seq<char>) -> Ordering;

/// `Version::parse` of the crate `semver`, a function of the text: the text of its error, or
/// nothing where it succeeds.
#[verifier::external_body]
fn semver_complaint(text: &str) -> (r: Option<String>)
    ensures
        opt_view(r) == semver_error(text@),
{
    Version::parse(text).err().map(|e| e.to_string())
}

pub open spec fn reversed(o: Ordering) -> Ordering {
    match o {
        Ordering::Less => Ordering::Greater,
        Ordering::Equal => Ordering::Equal,
        Ordering::Greater => Ordering::Less,
    }
}

/// `Version::cmp` of the crate `semver` on two texts that `Version::parse` accepts: a function of
/// the texts, and the comparison of a total order, so a text is equal to itself and exchanging
/// the sides reverses the outcome.
#[verifier::external_body]
fn semver_compare(left: &str, right: &str) -> (r: Ordering)
    requires
        semver_error(left@) is None,
        semver_error(right@) is None,
    ensures
        r == semver_order(left@, right@),
        left@ == right@ ==> r == Ordering::Equal,
        semver_order(right@, left@) == reversed(r),
{
    Version::parse(left).unwrap().cmp(&Version::parse(right).unwrap())
}

/// A version without the white space around it and without a leading `v`.
pub open spec fn normalized(value: Seq<char>) -> Seq<char> {
    let t = trim(value);
    if t.len() > 0 && t[0] == 'v' {
        t.skip(1)
    } else {
        t
    }
}

pub fn normalize_version(value: &str) -> (r: String)
    ensures
        r@ == normalized(value@),
{
    let t = str_trim(value);
    let v = chars_of(t.as_str());
    if v.len() > 0 && v[0] == 'v' {
        let rest = sub_chars(&v, 1, v.len());
        assert(rest@ =~= t@.skip(1));
        from_chars(&rest)
    } else {
        t
    }
}

pub open spec fn version_failure(value: Seq<char>, field: Seq<char>, complaint: Seq<char>) -> ErrorView {
    ErrorView::PackageInstall("invalid "@ + field + " '"@ + value + "': "@ + complaint)
}

/// Reads a version; what comes back is the text that was accepted.
fn parse_version(value: &str, field: &str) -> (r: Result<String, NonoError>)
    ensures
        match r {
            Ok(t) => t@ == normalized(value@) && semver_error(t@) is None,
            Err(e) => semver_error(normalized(value@)) is Some && e@ == version_failure(
                value@,
                field@,
                semver_error(normalized(value@))->0,
            ),
        },
{
    let t = normalize_version(value);
    match semver_complaint(t.as_str()) {
        Some(c) => Err(
            NonoError::PackageInstall(concat6("invalid ", field, " '", value, "': ", c.as_str())),
        ),
        None => Ok(t),
    }
}

/// Compares two versions.
pub fn compare_versions(left: &str, right: &str) -> (r: Result<Ordering, NonoError>)
    ensures
        match r {
            Ok(o) => {
                &&& semver_error(normalized(left@)) is None
                &&& semver_error(normalized(right@)) is None
                &&& o == semver_order(normalized(left@), normalized(right@))
                &&& semver_order(normalized(right@), normalized(left@)) == reversed(o)
                &&& normalized(left@) == normalized(right@) ==> o == Ordering::Equal
            },
            Err(e) => {
                ||| semver_error(normalized(left@)) is Some && e@ == version_failure(
                    left@,
                    "current nono version"@,
                    semver_error(normalized(left@))->0,
                )
                ||| semver_error(normalized(left@)) is None && semver_error(
                    normalized(right@),
                ) is Some && e@ == version_failure(
                    right@,
                    "min_nono_version"@,
                    semver_error(normalized(right@))->0,
                )
            },
        },
{
    let l = match parse_version(left, "current nono version") {
        Ok(t) => t,
        Err(e) => {
            return Err(e);
        },
    };
    let r = match parse_version(right, "min_nono_version") {
        Ok(t) => t,
        Err(e) => {
            return Err(e);
        },
    };
    Ok(semver_compare(l.as_str(), r.as_str()))
}

/// Whether a version, compared with the one that a pack asks for, will do.
pub fn check_version_order(order: Ordering, min_version: &str, current: &str) -> (r: Result<
    (),
    NonoError,
>)
    ensures
        r is Ok <==> order != Ordering::Less,
        r is Err ==> (r->Err_0)@ == ErrorView::PackageInstall(
            "package requires nono >= "@ + min_version@ + ", current version is "@ + current@,
        ),
{
    match order {
        Ordering::Less => Err(
            NonoError::PackageInstall(
                concat4(
                    "package requires nono >= ",
                    min_version,
                    ", current version is ",
                    current,
                ),
            ),
        ),
        _ => Ok(()),
    }
}

} // verus!
