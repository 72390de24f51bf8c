//! Conditions on platforms.

use crate::error::{ErrorView, NonoError};
use crate::platform::{Os, PlatformInfo};
use crate::text::{
    char_is_alnum, chars_of, concat3, concat4, contains_char, contains_str, copy_str, from_chars,
    has_prefix, has_suffix, is_alnum, is_space, opt_view, parse_digits, parse_number, split_on,
    str_ends_with, str_eq, str_split, str_starts_with, str_trim, sub_chars, trim, trim_end,
    trim_start, views,
};
use core::cmp::Ordering;
use vstd::prelude::*;

verus! {

// ---------------------------------------------------------------------------
// Versions
// ---------------------------------------------------------------------------

/// A part of a version as a number.
pub open spec fn part_number(s: Seq<char>) -> Option<nat> {
    parse_number(s, u64::MAX as nat)
}

/// How two parts compare: as numbers where both are; else equal texts are equal and others count
/// as less.
pub open spec fn part_order(l: Seq<char>, r: Seq<char>) -> Ordering {
    match (part_number(l), part_number(r)) {
        (Some(a), Some(b)) => if a < b {
            Ordering::Less
        } else if a == b {
            Ordering::Equal
        } else {
            Ordering::Greater
        },
        _ => if l == r {
            Ordering::Equal
        } else {
            Ordering::Less
        },
    }
}

/// How two lists of parts compare: by the first parts that differ, then by length.
pub open spec fn parts_order(l: Seq<Seq<char>>, r: Seq<Seq<char>>) -> Ordering
    decreases l.len(),
{
    if l.len() == 0 || r.len() == 0 {
        if l.len() < r.len() {
            Ordering::Less
        } else if l.len() == r.len() {
            Ordering::Equal
        } else {
            Ordering::Greater
        }
    } else if part_order(l[0], r[0]) != Ordering::Equal {
        part_order(l[0], r[0])
    } else {
        parts_order(l.skip(1), r.skip(1))
    }
}

fn compare_parts(l: &str, r: &str) -> (o: Ordering)
    ensures
        o == part_order(l@, r@),
{
    let a = chars_of(l);
    let b = chars_of(r);
    match (parse_digits(&a, u64::MAX), parse_digits(&b, u64::MAX)) {
        (Some(x), Some(y)) => if x < y {
            Ordering::Less
        } else if x == y {
            Ordering::Equal
        } else {
            Ordering::Greater
        },
        _ => if str_eq(l, r) {
            Ordering::Equal
        } else {
            Ordering::Less
        },
    }
}

fn is_equal(o: Ordering) -> (r: bool)
    ensures
        r == (o == Ordering::Equal),
{
    match o {
        Ordering::Equal => true,
        _ => false,
    }
}

/// Compares two versions part by part.
pub fn compare_versions(left: &str, right: &str) -> (o: Ordering)
    ensures
        o == parts_order(split_on(left@, '.'), split_on(right@, '.')),
{
    let l = str_split(left, '.');
    let r = str_split(right, '.');
    let ghost a = views(l@);
    let ghost b = views(r@);
    let ghost mut n: int = 0;
    let mut i: usize = 0;
    assert(a.skip(0) =~= a);
    assert(b.skip(0) =~= b);
    while i < l.len() && i < r.len()
        invariant
            n == i,
            i <= l@.len(),
            i <= r@.len(),
            a == views(l@),
            b == views(r@),
            parts_order(a, b) == parts_order(a.skip(n), b.skip(n)),
            a == split_on(left@, '.'),
            b == split_on(right@, '.'),
        decreases l@.len() - i,
    {
        proof {
            assert(a.skip(n)[0] == l@[n]@);
            assert(b.skip(n)[0] == r@[n]@);
            assert(a.skip(n).skip(1) =~= a.skip(n + 1));
            assert(b.skip(n).skip(1) =~= b.skip(n + 1));
        }
        let o = compare_parts(l[i].as_str(), r[i].as_str());
        if !is_equal(o) {
            return o;
        }
        i += 1;
        proof {
            n = n + 1;
        }
    }
    if l.len() < r.len() {
        Ordering::Less
    } else if l.len() == r.len() {
        Ordering::Equal
    } else {
        Ordering::Greater
    }
}

/// A version is equal to itself.
pub proof fn law_version_equals_itself(parts: Seq<Seq<char>>)
    ensures
        parts_order(parts, parts) == Ordering::Equal,
    decreases parts.len(),
{
    if parts.len() > 0 {
        law_version_equals_itself(parts.skip(1));
    }
}

/// Every part is a number.
pub open spec fn all_numbers(parts: Seq<Seq<char>>) -> bool {
    forall|i: int| 0 <= i < parts.len() ==> part_number(#[trigger] parts[i]) is Some
}

/// Of two versions made of numbers one is less exactly where the other is greater.
pub proof fn law_exchanging_reverses(l: Seq<Seq<char>>, r: Seq<Seq<char>>)
    requires
        all_numbers(l),
        all_numbers(r),
    ensures
        parts_order(l, r) == Ordering::Less <==> parts_order(r, l) == Ordering::Greater,
        parts_order(l, r) == Ordering::Equal <==> parts_order(r, l) == Ordering::Equal,
    decreases l.len(),
{
    if l.len() > 0 && r.len() > 0 {
        assert(part_number(l[0]) is Some);
        assert(part_number(r[0]) is Some);
        assert(all_numbers(l.skip(1))) by {
            assert forall|i: int| 0 <= i < l.skip(1).len() implies part_number(
                #[trigger] l.skip(1)[i],
            ) is Some by {
                assert(l.skip(1)[i] == l[i + 1]);
            }
        }
        assert(all_numbers(r.skip(1))) by {
            assert forall|i: int| 0 <= i < r.skip(1).len() implies part_number(
                #[trigger] r.skip(1)[i],
            ) is Some by {
                assert(r.skip(1)[i] == r[i + 1]);
            }
        }
        law_exchanging_reverses(l.skip(1), r.skip(1));
    }
}

#[derive(Clone, Copy, Debug, PartialEq, Eq, Structural)]
pub enum VersionOp {
    Eq,
    Gte,
    Gt,
    Lte,
    Lt,
}

pub open spec fn op_accepts(op: VersionOp, o: Ordering) -> bool {
    match op {
        VersionOp::Eq => o == Ordering::Equal,
        VersionOp::Gte => o != Ordering::Less,
        VersionOp::Gt => o == Ordering::Greater,
        VersionOp::Lte => o != Ordering::Greater,
        VersionOp::Lt => o == Ordering::Less,
    }
}

/// A condition on a version.
#[derive(Debug)]
pub struct VersionConstraint {
    pub op: VersionOp,
    pub version: String,
}

/// The text of an identifier: letters, digits, underscores, hyphens and dots.
pub open spec fn valid_id(s: Seq<char>) -> bool {
    forall|i: int|
        0 <= i < s.len() ==> is_alnum(#[trigger] s[i]) || s[i] == '_' || s[i] == '-' || s[i] == '.'
}

pub open spec fn invalid(raw: Seq<char>, why: Seq<char>) -> ErrorView {
    ErrorView::ConfigParse("invalid when predicate '"@ + raw + "': "@ + why)
}

fn invalid_predicate(raw: &str, why: &str) -> (r: NonoError)
    ensures
        r@ == invalid(raw@, why@),
{
    NonoError::ConfigParse(concat4("invalid when predicate '", raw, "': ", why))
}

pub open spec fn id_failure(value: Seq<char>, raw: Seq<char>) -> ErrorView {
    invalid(raw, "invalid identifier segment '"@ + value + "'"@)
}

fn is_valid_id(value: &str) -> (r: bool)
    ensures
        r == valid_id(value@),
{
    let v = chars_of(value);
    let mut i: usize = 0;
    while i < v.len()
        invariant
            i <= v@.len(),
            v@ == value@,
            forall|k: int|
                0 <= k < i ==> is_alnum(#[trigger] v@[k]) || v@[k] == '_' || v@[k] == '-' || v@[k]
                    == '.',
        decreases v@.len() - i,
    {
        let c = v[i];
        if !(char_is_alnum(c) || c == '_' || c == '-' || c == '.') {
            return false;
        }
        i += 1;
    }
    true
}

fn invalid_id(value: &str, raw: &str) -> (r: NonoError)
    ensures
        r@ == id_failure(value@, raw@),
{
    let why = concat3("invalid identifier segment '", value, "'");
    invalid_predicate(raw, why.as_str())
}

pub open spec fn constraint_view(c: VersionConstraint) -> (VersionOp, Seq<char>) {
    (c.op, c.version@)
}

/// The comparison that a text starts with, and how long it is; nothing for one that is unknown.
pub open spec fn operator(s: Seq<char>) -> Option<(VersionOp, int)> {
    if has_prefix(s, "=="@) {
        Some((VersionOp::Eq, 2))
    } else if has_prefix(s, ">="@) {
        Some((VersionOp::Gte, 2))
    } else if has_prefix(s, "<="@) {
        Some((VersionOp::Lte, 2))
    } else if has_prefix(s, ">"@) {
        Some((VersionOp::Gt, 1))
    } else if has_prefix(s, "<"@) {
        Some((VersionOp::Lt, 1))
    } else if s.len() > 0 && !is_alnum(s[0]) {
        None
    } else {
        Some((VersionOp::Eq, 0))
    }
}

/// What a text means as a condition on a version.
pub open spec fn parsed_constraint(value: Seq<char>, raw: Seq<char>) -> Result<
    (VersionOp, Seq<char>),
    ErrorView,
> {
    match operator(value) {
        None => Err(
            invalid(raw, "unsupported version comparator in '"@ + value + "'"@),
        ),
        Some(x) => {
            let version = value.skip(x.1);
            if version.len() == 0 {
                Err(invalid(raw, "missing version"@))
            } else if !valid_id(version) {
                Err(id_failure(version, raw))
            } else {
                Ok((x.0, version))
            }
        },
    }
}

fn read_operator(value: &str) -> (r: Option<(VersionOp, usize)>)
    ensures
        match r {
            Some(x) => operator(value@) == Some((x.0, x.1 as int)) && x.1 <= value@.len(),
            None => operator(value@) is None,
        },
{
    proof {
        reveal_strlit("==");
        reveal_strlit(">=");
        reveal_strlit("<=");
        reveal_strlit(">");
        reveal_strlit("<");
    }
    if str_starts_with(value, "==") {
        return Some((VersionOp::Eq, 2));
    }
    if str_starts_with(value, ">=") {
        return Some((VersionOp::Gte, 2));
    }
    if str_starts_with(value, "<=") {
        return Some((VersionOp::Lte, 2));
    }
    if str_starts_with(value, ">") {
        return Some((VersionOp::Gt, 1));
    }
    if str_starts_with(value, "<") {
        return Some((VersionOp::Lt, 1));
    }
    let v = chars_of(value);
    if v.len() > 0 && !char_is_alnum(v[0]) {
        return None;
    }
    Some((VersionOp::Eq, 0))
}

impl VersionConstraint {
    /// Reads a condition on a version, in the predicate `raw`.
    pub fn parse(value: &str, raw: &str) -> (r: Result<VersionConstraint, NonoError>)
        ensures
            match r {
                Ok(c) => parsed_constraint(value@, raw@) == Ok::<(VersionOp, Seq<char>), ErrorView>(
                    constraint_view(c),
                ),
                Err(e) => parsed_constraint(value@, raw@) == Err::<
                    (VersionOp, Seq<char>),
                    ErrorView,
                >(e@),
            },
    {
        let (op, n) = match read_operator(value) {
            Some(x) => x,
            None => {
                let why = concat3("unsupported version comparator in '", value, "'");
                return Err(invalid_predicate(raw, why.as_str()));
            },
        };
        let v = chars_of(value);
        let rest = sub_chars(&v, n, v.len());
        assert(rest@ =~= value@.skip(n as int));
        if rest.len() == 0 {
            return Err(invalid_predicate(raw, "missing version"));
        }
        let version = from_chars(&rest);
        if !is_valid_id(version.as_str()) {
            return Err(invalid_id(version.as_str(), raw));
        }
        Ok(VersionConstraint { op, version })
    }

    pub open spec fn accepts(self, actual: Seq<char>) -> bool {
        op_accepts(self.op, parts_order(split_on(actual, '.'), split_on(self.version@, '.')))
    }

    /// Whether a version meets the condition.
    pub fn matches(&self, actual: &str) -> (r: bool)
        ensures
            r == self.accepts(actual@),
    {
        let o = compare_versions(actual, self.version.as_str());
        match (self.op, o) {
            (VersionOp::Eq, Ordering::Equal) => true,
            (VersionOp::Gte, Ordering::Greater) => true,
            (VersionOp::Gte, Ordering::Equal) => true,
            (VersionOp::Gt, Ordering::Greater) => true,
            (VersionOp::Lte, Ordering::Less) => true,
            (VersionOp::Lte, Ordering::Equal) => true,
            (VersionOp::Lt, Ordering::Less) => true,
            _ => false,
        }
    }
}

// ---------------------------------------------------------------------------
// Predicates
// ---------------------------------------------------------------------------

#[derive(Debug)]
pub enum PredicateOs {
    Linux,
    Macos,
    Windows,
    Unknown(String),
}

/// One condition on a platform.
#[derive(Debug)]
pub struct Predicate {
    pub raw: String,
    pub negated: bool,
    pub os: PredicateOs,
    pub id: Option<String>,
    pub version: Option<VersionConstraint>,
    pub build: Option<VersionConstraint>,
    pub variant: Option<String>,
}

/// The system that a condition is on; any other is known by its name.
#[derive(PartialEq, Eq, Structural)]
pub enum OsKind {
    Linux,
    Macos,
    Windows,
    Unknown,
}

pub struct PredicateView {
    pub raw: Seq<char>,
    pub negated: bool,
    pub os: OsKind,
    pub os_name: Seq<char>,
    pub id: Option<Seq<char>>,
    pub version: Option<(VersionOp, Seq<char>)>,
    pub build: Option<(VersionOp, Seq<char>)>,
    pub variant: Option<Seq<char>>,
}

pub open spec fn opt_constraint(c: Option<VersionConstraint>) -> Option<(VersionOp, Seq<char>)> {
    match c {
        Some(x) => Some(constraint_view(x)),
        None => None,
    }
}

impl View for Predicate {
    type V = PredicateView;

    open spec fn view(&self) -> PredicateView {
        PredicateView {
            raw: self.raw@,
            negated: self.negated,
            os: match self.os {
                PredicateOs::Linux => OsKind::Linux,
                PredicateOs::Macos => OsKind::Macos,
                PredicateOs::Windows => OsKind::Windows,
                PredicateOs::Unknown(_) => OsKind::Unknown,
            },
            os_name: match self.os {
                PredicateOs::Unknown(n) => n@,
                _ => Seq::empty(),
            },
            id: opt_view(self.id),
            version: opt_constraint(self.version),
            build: opt_constraint(self.build),
            variant: opt_view(self.variant),
        }
    }
}

pub open spec fn os_kind(token: Seq<char>) -> OsKind {
    if token == "linux"@ {
        OsKind::Linux
    } else if token == "macos"@ {
        OsKind::Macos
    } else if token == "windows"@ {
        OsKind::Windows
    } else {
        OsKind::Unknown
    }
}

/// The parts of a predicate behind the system: an identifier, a version, a build, a variant.
pub struct DetailView {
    pub id: Option<Seq<char>>,
    pub version: Option<(VersionOp, Seq<char>)>,
    pub build: Option<(VersionOp, Seq<char>)>,
    pub variant: Option<Seq<char>>,
}

pub open spec fn no_details() -> DetailView {
    DetailView { id: None, version: None, build: None, variant: None }
}

pub open spec fn too_many(raw: Seq<char>) -> ErrorView {
    invalid(raw, "too many ':' segments"@)
}

/// Linux: `linux[:id[:version[:variant]]]`.
pub open spec fn linux_details(parts: Seq<Seq<char>>, raw: Seq<char>) -> Result<DetailView, ErrorView> {
    if parts.len() == 1 {
        Ok(no_details())
    } else if parts.len() > 4 {
        Err(too_many(raw))
    } else if !valid_id(parts[1]) {
        Err(id_failure(parts[1], raw))
    } else if parts.len() == 2 {
        Ok(DetailView { id: Some(parts[1]), ..no_details() })
    } else {
        match parsed_constraint(parts[2], raw) {
            Err(e) => Err(e),
            Ok(c) => if parts.len() == 3 {
                Ok(DetailView { id: Some(parts[1]), version: Some(c), ..no_details() })
            } else if !valid_id(parts[3]) {
                Err(id_failure(parts[3], raw))
            } else {
                Ok(
                    DetailView {
                        id: Some(parts[1]),
                        version: Some(c),
                        variant: Some(parts[3]),
                        ..no_details()
                    },
                )
            },
        }
    }
}

/// macOS: `macos[:version]`.
pub open spec fn macos_details(parts: Seq<Seq<char>>, raw: Seq<char>) -> Result<DetailView, ErrorView> {
    if parts.len() == 1 {
        Ok(no_details())
    } else if parts.len() > 2 {
        Err(too_many(raw))
    } else {
        match parsed_constraint(parts[1], raw) {
            Err(e) => Err(e),
            Ok(c) => Ok(DetailView { version: Some(c), ..no_details() }),
        }
    }
}

/// Windows: `windows[:version[:build]]`.
pub open spec fn windows_details(parts: Seq<Seq<char>>, raw: Seq<char>) -> Result<DetailView, ErrorView> {
    if parts.len() == 1 {
        Ok(no_details())
    } else if parts.len() > 3 {
        Err(too_many(raw))
    } else {
        match parsed_constraint(parts[1], raw) {
            Err(e) => Err(e),
            Ok(c) => if parts.len() == 2 {
                Ok(DetailView { version: Some(c), ..no_details() })
            } else {
                match parsed_constraint(parts[2], raw) {
                    Err(e) => Err(e),
                    Ok(b) => Ok(DetailView { version: Some(c), build: Some(b), ..no_details() }),
                }
            },
        }
    }
}

/// Position of the first part that is no identifier; their number where all are.
pub open spec fn first_invalid(parts: Seq<Seq<char>>) -> int
    decreases parts.len(),
{
    if parts.len() == 0 || !valid_id(parts[0]) {
        0
    } else {
        1 + first_invalid(parts.skip(1))
    }
}

/// An unknown system: identifiers, which say nothing.
pub open spec fn unknown_details(parts: Seq<Seq<char>>, raw: Seq<char>) -> Result<DetailView, ErrorView> {
    let n = first_invalid(parts.skip(1));
    if 0 <= n < parts.skip(1).len() {
        Err(id_failure(parts.skip(1)[n], raw))
    } else {
        Ok(no_details())
    }
}

pub open spec fn os_details(os: OsKind, parts: Seq<Seq<char>>, raw: Seq<char>) -> Result<
    DetailView,
    ErrorView,
> {
    match os {
        OsKind::Linux => linux_details(parts, raw),
        OsKind::Macos => macos_details(parts, raw),
        OsKind::Windows => windows_details(parts, raw),
        OsKind::Unknown => unknown_details(parts, raw),
    }
}

pub open spec fn any_empty(parts: Seq<Seq<char>>) -> bool {
    exists|i: int| 0 <= i < parts.len() && (#[trigger] parts[i]).len() == 0
}

/// What a text without negation means.
pub open spec fn parsed_body(raw: Seq<char>, negated: bool, body: Seq<char>) -> Result<
    PredicateView,
    ErrorView,
> {
    let parts = split_on(body, ':');
    if body.contains('!') {
        Err(invalid(raw, "'!' is only allowed at the start"@))
    } else if any_empty(parts) {
        Err(invalid(raw, "empty ':' segment"@))
    } else if !valid_id(parts[0]) {
        Err(id_failure(parts[0], parts[0]))
    } else {
        let os = os_kind(parts[0]);
        match os_details(os, parts, raw) {
            Err(e) => Err(e),
            Ok(d) => Ok(
                PredicateView {
                    raw,
                    negated,
                    os,
                    os_name: if os == OsKind::Unknown {
                        parts[0]
                    } else {
                        Seq::empty()
                    },
                    id: d.id,
                    version: d.version,
                    build: d.build,
                    variant: d.variant,
                },
            ),
        }
    }
}

/// What a text means as a predicate.
pub open spec fn parsed_predicate(input: Seq<char>) -> Result<PredicateView, ErrorView> {
    let raw = trim(input);
    if raw.len() == 0 {
        Err(ErrorView::ConfigParse("when predicate must not be empty"@))
    } else if raw[0] == '!' {
        if raw.len() == 1 {
            Err(invalid(raw, "negation requires a predicate"@))
        } else {
            parsed_body(raw, true, raw.skip(1))
        }
    } else {
        parsed_body(raw, false, raw)
    }
}

struct Details {
    id: Option<String>,
    version: Option<VersionConstraint>,
    build: Option<VersionConstraint>,
    variant: Option<String>,
}

spec fn detail_view(d: Details) -> DetailView {
    DetailView {
        id: opt_view(d.id),
        version: opt_constraint(d.version),
        build: opt_constraint(d.build),
        variant: opt_view(d.variant),
    }
}

spec fn details_are(r: Result<Details, NonoError>, want: Result<DetailView, ErrorView>) -> bool {
    match r {
        Ok(d) => want == Ok::<DetailView, ErrorView>(detail_view(d)),
        Err(e) => want == Err::<DetailView, ErrorView>(e@),
    }
}

fn without_details() -> (r: Details)
    ensures
        detail_view(r) == no_details(),
{
    Details { id: None, version: None, build: None, variant: None }
}

fn read_linux(parts: &Vec<String>, raw: &str) -> (r: Result<Details, NonoError>)
    requires
        parts@.len() > 0,
    ensures
        details_are(r, linux_details(views(parts@), raw@)),
{
    let n: usize = parts.len();
    proof {
        assert(views(parts@).len() == n);
        assert forall|i: int| 0 <= i < n implies #[trigger] views(parts@)[i] == parts@[i]@ by {}
    }
    let mut d = without_details();
    if n == 1 {
        return Ok(d);
    }
    if n > 4 {
        return Err(invalid_predicate(raw, "too many ':' segments"));
    }
    if !is_valid_id(parts[1].as_str()) {
        return Err(invalid_id(parts[1].as_str(), raw));
    }
    d.id = Some(copy_str(parts[1].as_str()));
    if n == 2 {
        return Ok(d);
    }
    match VersionConstraint::parse(parts[2].as_str(), raw) {
        Ok(c) => {
            d.version = Some(c);
        },
        Err(e) => {
            return Err(e);
        },
    }
    if n == 3 {
        return Ok(d);
    }
    if !is_valid_id(parts[3].as_str()) {
        return Err(invalid_id(parts[3].as_str(), raw));
    }
    d.variant = Some(copy_str(parts[3].as_str()));
    Ok(d)
}

fn read_macos(parts: &Vec<String>, raw: &str) -> (r: Result<Details, NonoError>)
    requires
        parts@.len() > 0,
    ensures
        details_are(r, macos_details(views(parts@), raw@)),
{
    let n: usize = parts.len();
    proof {
        assert(views(parts@).len() == n);
        assert forall|i: int| 0 <= i < n implies #[trigger] views(parts@)[i] == parts@[i]@ by {}
    }
    let mut d = without_details();
    if n == 1 {
        return Ok(d);
    }
    if n > 2 {
        return Err(invalid_predicate(raw, "too many ':' segments"));
    }
    match VersionConstraint::parse(parts[1].as_str(), raw) {
        Ok(c) => {
            d.version = Some(c);
            Ok(d)
        },
        Err(e) => Err(e),
    }
}

fn read_windows(parts: &Vec<String>, raw: &str) -> (r: Result<Details, NonoError>)
    requires
        parts@.len() > 0,
    ensures
        details_are(r, windows_details(views(parts@), raw@)),
{
    let n: usize = parts.len();
    proof {
        assert(views(parts@).len() == n);
        assert forall|i: int| 0 <= i < n implies #[trigger] views(parts@)[i] == parts@[i]@ by {}
    }
    let mut d = without_details();
    if n == 1 {
        return Ok(d);
    }
    if n > 3 {
        return Err(invalid_predicate(raw, "too many ':' segments"));
    }
    match VersionConstraint::parse(parts[1].as_str(), raw) {
        Ok(c) => {
            d.version = Some(c);
        },
        Err(e) => {
            return Err(e);
        },
    }
    if n == 2 {
        return Ok(d);
    }
    match VersionConstraint::parse(parts[2].as_str(), raw) {
        Ok(c) => {
            d.build = Some(c);
            Ok(d)
        },
        Err(e) => Err(e),
    }
}

fn read_unknown(parts: &Vec<String>, raw: &str) -> (r: Result<Details, NonoError>)
    requires
        parts@.len() > 0,
    ensures
        details_are(r, unknown_details(views(parts@), raw@)),
{
    let ghost all = views(parts@).skip(1);
    let mut i: usize = 1;
    assert(all.skip(0) =~= all);
    while i < parts.len()
        invariant
            1 <= i <= parts@.len(),
            all == views(parts@).skip(1),
            first_invalid(all) == i - 1 + first_invalid(all.skip(i - 1)),
        decreases parts@.len() - i,
    {
        proof {
            assert(all[i - 1] == parts@[i as int]@);
            assert(all.skip(i - 1)[0] == parts@[i as int]@);
            assert(all.skip(i - 1).skip(1) =~= all.skip(i as int));
        }
        if !is_valid_id(parts[i].as_str()) {
            return Err(invalid_id(parts[i].as_str(), raw));
        }
        i += 1;
    }
    Ok(without_details())
}

fn has_empty(parts: &Vec<String>) -> (r: bool)
    ensures
        r == any_empty(views(parts@)),
{
    let mut i: usize = 0;
    while i < parts.len()
        invariant
            i <= parts@.len(),
            forall|k: int| 0 <= k < i ==> (#[trigger] views(parts@)[k]).len() > 0,
        decreases parts@.len() - i,
    {
        let v = chars_of(parts[i].as_str());
        assert(views(parts@)[i as int] == v@);
        if v.len() == 0 {
            return true;
        }
        i += 1;
    }
    false
}

fn read_body(raw: &str, negated: bool, body: &str) -> (r: Result<Predicate, NonoError>)
    ensures
        match r {
            Ok(p) => parsed_body(raw@, negated, body@) == Ok::<PredicateView, ErrorView>(p@),
            Err(e) => parsed_body(raw@, negated, body@) == Err::<PredicateView, ErrorView>(e@),
        },
{
    let v = chars_of(body);
    if contains_char(&v, '!') {
        return Err(invalid_predicate(raw, "'!' is only allowed at the start"));
    }
    let parts = str_split(body, ':');
    if has_empty(&parts) {
        return Err(invalid_predicate(raw, "empty ':' segment"));
    }
    let token = parts[0].as_str();
    assert(views(parts@)[0] == token@);
    if !is_valid_id(token) {
        return Err(invalid_id(token, token));
    }
    proof {
        reveal_strlit("linux");
        reveal_strlit("macos");
        reveal_strlit("windows");
    }
    let (os, details) = if str_eq(token, "linux") {
        (PredicateOs::Linux, read_linux(&parts, raw))
    } else if str_eq(token, "macos") {
        (PredicateOs::Macos, read_macos(&parts, raw))
    } else if str_eq(token, "windows") {
        (PredicateOs::Windows, read_windows(&parts, raw))
    } else {
        (PredicateOs::Unknown(copy_str(token)), read_unknown(&parts, raw))
    };
    match details {
        Ok(d) => Ok(
            Predicate {
                raw: copy_str(raw),
                negated,
                os,
                id: d.id,
                version: d.version,
                build: d.build,
                variant: d.variant,
            },
        ),
        Err(e) => Err(e),
    }
}

/// The identifier of a Linux system, or the family it belongs to.
pub open spec fn linux_id_fits(id: Seq<char>, distro: Option<Seq<char>>, like: Seq<Seq<char>>) -> bool {
    if has_suffix(id, "-like"@) {
        let base = id.take(id.len() - 5);
        distro == Some(base) || like.contains(base)
    } else {
        distro == Some(id)
    }
}

fn id_fits(id: &str, distro: &Option<String>, like: &Vec<String>) -> (r: bool)
    ensures
        r == linux_id_fits(id@, opt_view(*distro), views(like@)),
{
    if str_ends_with(id, "-like") {
        proof {
            reveal_strlit("-like");
        }
        let v = chars_of(id);
        let front = sub_chars(&v, 0, v.len() - 5);
        assert(front@ =~= id@.take(id@.len() - 5));
        let base = from_chars(&front);
        contains_str(like, base.as_str()) || match distro {
            Some(d) => str_eq(d.as_str(), base.as_str()),
            None => false,
        }
    } else {
        match distro {
            Some(d) => str_eq(d.as_str(), id),
            None => false,
        }
    }
}

/// The last part of a version.
pub open spec fn last_part(version: Seq<char>) -> Seq<char> {
    split_on(version, '.').last()
}

impl Predicate {
    /// Reads a predicate.
    pub fn parse(input: &str) -> (r: Result<Predicate, NonoError>)
        ensures
            match r {
                Ok(p) => parsed_predicate(input@) == Ok::<PredicateView, ErrorView>(p@),
                Err(e) => parsed_predicate(input@) == Err::<PredicateView, ErrorView>(e@),
            },
    {
        let raw = str_trim(input);
        let v = chars_of(raw.as_str());
        if v.len() == 0 {
            return Err(NonoError::ConfigParse(copy_str("when predicate must not be empty")));
        }
        if v[0] == '!' {
            if v.len() == 1 {
                return Err(invalid_predicate(raw.as_str(), "negation requires a predicate"));
            }
            let rest = sub_chars(&v, 1, v.len());
            assert(rest@ =~= raw@.skip(1));
            let body = from_chars(&rest);
            return read_body(raw.as_str(), true, body.as_str());
        }
        read_body(raw.as_str(), false, raw.as_str())
    }

    pub fn as_str(&self) -> (r: &str)
        ensures
            r@ == self@.raw,
    {
        self.raw.as_str()
    }

    pub open spec fn fits_linux(self, platform: PlatformInfo) -> bool {
        &&& platform.os is Linux && platform.linux is Some
        &&& {
            let info = (platform.linux->0)@;
            &&& self.id is Some ==> linux_id_fits((self.id->0)@, info.distro, info.distro_like)
            &&& self.version is Some ==> info.version_id is Some && (self.version->0).accepts(
                info.version_id->0,
            )
            &&& self.variant is Some ==> info.variant_id == Some((self.variant->0)@)
        }
    }

    pub open spec fn fits_macos(self, platform: PlatformInfo) -> bool {
        &&& platform.os is Macos && platform.macos is Some
        &&& self.version is Some ==> (self.version->0).accepts(
            (platform.macos->0).product_version@,
        )
    }

    pub open spec fn fits_windows(self, platform: PlatformInfo) -> bool {
        &&& platform.os is Windows && platform.windows is Some
        &&& self.version is Some ==> (self.version->0).accepts((platform.windows->0).version@)
        &&& self.build is Some ==> (self.build->0).accepts(
            last_part((platform.windows->0).version@),
        )
    }

    /// The platform is the one that the predicate describes, before negation. An unknown system is
    /// none.
    pub open spec fn describes(self, platform: PlatformInfo) -> bool {
        match self.os {
            PredicateOs::Linux => self.fits_linux(platform),
            PredicateOs::Macos => self.fits_macos(platform),
            PredicateOs::Windows => self.fits_windows(platform),
            PredicateOs::Unknown(_) => false,
        }
    }

    pub open spec fn holds(self, platform: PlatformInfo) -> bool {
        self.describes(platform) != self.negated
    }

    fn matches_linux(&self, platform: &PlatformInfo) -> (r: bool)
        ensures
            r == self.fits_linux(*platform),
    {
        match platform.os {
            Os::Linux => {},
            _ => {
                return false;
            },
        }
        let info = match &platform.linux {
            Some(i) => i,
            None => {
                return false;
            },
        };
        if let Some(id) = &self.id {
            if !id_fits(id.as_str(), &info.distro, &info.distro_like) {
                return false;
            }
        }
        if let Some(version) = &self.version {
            match &info.version_id {
                Some(v) => {
                    if !version.matches(v.as_str()) {
                        return false;
                    }
                },
                None => {
                    return false;
                },
            }
        }
        if let Some(variant) = &self.variant {
            match &info.variant_id {
                Some(v) => {
                    if !str_eq(v.as_str(), variant.as_str()) {
                        return false;
                    }
                },
                None => {
                    return false;
                },
            }
        }
        true
    }

    fn matches_macos(&self, platform: &PlatformInfo) -> (r: bool)
        ensures
            r == self.fits_macos(*platform),
    {
        match platform.os {
            Os::Macos => {},
            _ => {
                return false;
            },
        }
        match &platform.macos {
            Some(info) => match &self.version {
                Some(version) => version.matches(info.product_version.as_str()),
                None => true,
            },
            None => false,
        }
    }

    fn matches_windows(&self, platform: &PlatformInfo) -> (r: bool)
        ensures
            r == self.fits_windows(*platform),
    {
        match platform.os {
            Os::Windows => {},
            _ => {
                return false;
            },
        }
        let info = match &platform.windows {
            Some(i) => i,
            None => {
                return false;
            },
        };
        if let Some(version) = &self.version {
            if !version.matches(info.version.as_str()) {
                return false;
            }
        }
        if let Some(build) = &self.build {
            let parts = str_split(info.version.as_str(), '.');
            let last = parts[parts.len() - 1].as_str();
            assert(views(parts@).last() == last@);
            if !build.matches(last) {
                return false;
            }
        }
        true
    }

    /// Whether the predicate holds on a platform.
    pub fn matches(&self, platform: &PlatformInfo) -> (r: bool)
        ensures
            r == self.holds(*platform),
    {
        let matched = match &self.os {
            PredicateOs::Linux => self.matches_linux(platform),
            PredicateOs::Macos => self.matches_macos(platform),
            PredicateOs::Windows => self.matches_windows(platform),
            PredicateOs::Unknown(_) => false,
        };
        if self.negated {
            !matched
        } else {
            matched
        }
    }
}

// ---------------------------------------------------------------------------
// Conditions
// ---------------------------------------------------------------------------

/// A condition: one of several predicates holds.
#[derive(Debug)]
pub struct When {
    pub predicates: Vec<Predicate>,
}

pub open spec fn predicate_views(v: Seq<Predicate>) -> Seq<PredicateView> {
    v.map_values(|p: Predicate| p@)
}

/// What several texts mean, or the first failure.
pub open spec fn parsed_predicates(values: Seq<Seq<char>>) -> Result<Seq<PredicateView>, ErrorView>
    decreases values.len(),
{
    if values.len() == 0 {
        Ok(Seq::empty())
    } else {
        match parsed_predicates(values.drop_last()) {
            Err(e) => Err(e),
            Ok(done) => match parsed_predicate(values.last()) {
                Err(e) => Err(e),
                Ok(p) => Ok(done.push(p)),
            },
        }
    }
}

proof fn lemma_predicates_failure(values: Seq<Seq<char>>, i: int)
    requires
        0 <= i <= values.len(),
        parsed_predicates(values.take(i)) is Err,
    ensures
        parsed_predicates(values) == parsed_predicates(values.take(i)),
    decreases values.len(),
{
    if i == values.len() {
        assert(values.take(i) =~= values);
    } else {
        assert(values.drop_last().take(i) =~= values.take(i));
        lemma_predicates_failure(values.drop_last(), i);
    }
}

impl When {
    /// Reads a condition of one predicate.
    pub fn parse(input: &str) -> (r: Result<When, NonoError>)
        ensures
            match r {
                Ok(w) => w.predicates@.len() == 1 && parsed_predicate(input@) == Ok::<
                    PredicateView,
                    ErrorView,
                >(w.predicates@[0]@),
                Err(e) => parsed_predicate(input@) == Err::<PredicateView, ErrorView>(e@),
            },
    {
        match Predicate::parse(input) {
            Ok(p) => {
                let mut predicates: Vec<Predicate> = Vec::new();
                predicates.push(p);
                Ok(When { predicates })
            },
            Err(e) => Err(e),
        }
    }

    /// Reads a condition of several predicates; one there must be.
    pub fn parse_any(values: &Vec<String>) -> (r: Result<When, NonoError>)
        ensures
            values@.len() == 0 ==> r is Err && (r->Err_0)@ == ErrorView::ConfigParse(
                "when predicate array must not be empty"@,
            ),
            values@.len() > 0 ==> match r {
                Ok(w) => parsed_predicates(views(values@)) == Ok::<Seq<PredicateView>, ErrorView>(
                    predicate_views(w.predicates@),
                ),
                Err(e) => parsed_predicates(views(values@)) == Err::<
                    Seq<PredicateView>,
                    ErrorView,
                >(e@),
            },
    {
        if values.len() == 0 {
            return Err(
                NonoError::ConfigParse(copy_str("when predicate array must not be empty")),
            );
        }
        let ghost all = views(values@);
        let mut predicates: Vec<Predicate> = Vec::new();
        let mut i: usize = 0;
        assert(all.take(0).len() == 0);
        assert(predicate_views(predicates@) =~= Seq::<PredicateView>::empty());
        while i < values.len()
            invariant
                i <= values@.len(),
                values@.len() > 0,
                all == views(values@),
                parsed_predicates(all.take(i as int)) == Ok::<Seq<PredicateView>, ErrorView>(
                    predicate_views(predicates@),
                ),
            decreases values@.len() - i,
        {
            proof {
                assert(all.take(i + 1).drop_last() =~= all.take(i as int));
                assert(all.take(i + 1).last() == values@[i as int]@);
            }
            match Predicate::parse(values[i].as_str()) {
                Ok(p) => {
                    let ghost before = predicate_views(predicates@);
                    predicates.push(p);
                    assert(predicate_views(predicates@) =~= before.push(p@));
                },
                Err(e) => {
                    proof {
                        lemma_predicates_failure(all, i + 1);
                    }
                    return Err(e);
                },
            }
            i += 1;
        }
        assert(all.take(i as int) =~= all);
        Ok(When { predicates })
    }

    /// The predicates as they were written.
    pub fn texts(&self) -> (r: Vec<String>)
        ensures
            views(r@) == self.predicates@.map_values(|p: Predicate| p.raw@),
    {
        let mut r: Vec<String> = Vec::new();
        let mut i: usize = 0;
        while i < self.predicates.len()
            invariant
                i <= self.predicates@.len(),
                r@.len() == i,
                forall|k: int| 0 <= k < i ==> (#[trigger] r@[k])@ == self.predicates@[k].raw@,
            decreases self.predicates@.len() - i,
        {
            r.push(copy_str(self.predicates[i].as_str()));
            i += 1;
        }
        assert(views(r@) =~= self.predicates@.map_values(|p: Predicate| p.raw@));
        r
    }

    pub open spec fn holds(self, platform: PlatformInfo) -> bool {
        exists|i: int|
            0 <= i < self.predicates@.len() && (#[trigger] self.predicates@[i]).holds(platform)
    }

    /// Whether the condition holds on a platform.
    pub fn matches(&self, platform: &PlatformInfo) -> (r: bool)
        ensures
            r == self.holds(*platform),
    {
        let mut i: usize = 0;
        while i < self.predicates.len()
            invariant
                i <= self.predicates@.len(),
                forall|k: int|
                    0 <= k < i ==> !(#[trigger] self.predicates@[k]).holds(*platform),
            decreases self.predicates@.len() - i,
        {
            if self.predicates[i].matches(platform) {
                return true;
            }
            i += 1;
        }
        false
    }
}

/// Whether something applies on the platform at hand: where it has no condition, or one that holds.
pub fn when_matches_current(when: &Option<When>, platform: &PlatformInfo) -> (r: bool)
    ensures
        r == match *when {
            Some(w) => w.holds(*platform),
            None => true,
        },
{
    match when {
        Some(w) => w.matches(platform),
        None => true,
    }
}

// ---------------------------------------------------------------------------
// Laws
// ---------------------------------------------------------------------------

/// A predicate and its negation never hold together, and one of them always holds.
pub proof fn law_negation(p: Predicate, q: Predicate, platform: PlatformInfo)
    requires
        p.negated != q.negated,
        p.os == q.os,
        p.id == q.id,
        p.version == q.version,
        p.build == q.build,
        p.variant == q.variant,
    ensures
        p.holds(platform) == !q.holds(platform),
{
}

proof fn lemma_trim_whole(s: Seq<char>)
    requires
        s.len() > 0,
        !is_space(s[0]),
        !is_space(s.last()),
    ensures
        trim(s) == s,
{
    assert(trim_start(s) == s);
    assert(trim_end(s) == s);
}

/// An exclamation mark before a predicate negates it and changes nothing else but its text.
pub proof fn law_exclamation_mark_negates(body: Seq<char>)
    requires
        body.len() > 0,
        !is_space(body[0]),
        !is_space(body.last()),
        body[0] != '!',
        parsed_predicate(body) is Ok,
    ensures
        match parsed_predicate("!"@ + body) {
            Ok(n) => {
                let p = parsed_predicate(body)->Ok_0;
                n == (PredicateView { raw: "!"@ + body, negated: true, ..p }) && !p.negated
            },
            Err(_) => false,
        },
{
    reveal_strlit("!");
    let s = "!"@ + body;
    lemma_trim_whole(body);
    assert(s[0] == '!');
    assert(s.last() == body.last());
    lemma_trim_whole(s);
    assert(s.skip(1) =~= body);
    let parts = split_on(body, ':');
    lemma_details_ignore_raw(os_kind(parts[0]), parts, body, s);
}

proof fn lemma_details_ignore_raw(os: OsKind, parts: Seq<Seq<char>>, raw1: Seq<char>, raw2: Seq<char>)
    requires
        os_details(os, parts, raw1) is Ok,
    ensures
        os_details(os, parts, raw2) == os_details(os, parts, raw1),
{
}

/// A condition on a system that is not known never holds, and its negation always does.
pub proof fn law_unknown_system(p: Predicate, platform: PlatformInfo)
    requires
        p.os is Unknown,
    ensures
        p.holds(platform) == p.negated,
{
}

} // verus!
