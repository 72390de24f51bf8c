//! What conditions on platforms mean, stated on their text.

use crate::error::ErrorView;
use crate::platform::when::{
    all_numbers, any_empty, law_exchanging_reverses, parsed_constraint, parsed_predicate,
    part_number, part_order, parts_order, valid_id, Predicate, PredicateView, VersionConstraint,
    VersionOp,
};
use crate::platform::PlatformInfo;
use crate::text::laws::{law_split_undoes_separated, separated};
use crate::text::{
    decimal, first_index, is_alnum, is_digit, is_space, law_parse_decimal, lemma_decimal_digits,
    lemma_first_index, split_on, trim, trim_end, trim_start, views,
};
use core::cmp::Ordering;
use vstd::prelude::*;

verus! {

// ---------------------------------------------------------------------------
// Versions made of numbers
// ---------------------------------------------------------------------------

/// Up to position `k` two lists of numbers agree, and there the first ends or is smaller.
pub open spec fn smaller_from(x: Seq<nat>, y: Seq<nat>, k: int) -> bool {
    &&& 0 <= k <= x.len()
    &&& k < y.len()
    &&& forall|i: int| 0 <= i < k ==> x[i] == y[i]
    &&& k == x.len() || x[k] < y[k]
}

/// Lexicographic order on lists of numbers.
pub open spec fn smaller(x: Seq<nat>, y: Seq<nat>) -> bool {
    exists|k: int| smaller_from(x, y, k)
}

/// A text is a version made of these numbers, with dots between them.
pub open spec fn is_version(text: Seq<char>, n: Seq<nat>) -> bool {
    let parts = split_on(text, '.');
    &&& parts.len() == n.len()
    &&& forall|i: int| 0 <= i < n.len() ==> part_number(#[trigger] parts[i]) == Some(n[i])
}

pub open spec fn denote(parts: Seq<Seq<char>>, n: Seq<nat>) -> bool {
    &&& parts.len() == n.len()
    &&& forall|i: int| 0 <= i < n.len() ==> part_number(#[trigger] parts[i]) == Some(n[i])
}

proof fn lemma_order_of_numbers(l: Seq<Seq<char>>, r: Seq<Seq<char>>, x: Seq<nat>, y: Seq<nat>)
    requires
        denote(l, x),
        denote(r, y),
    ensures
        parts_order(l, r) == Ordering::Less <==> smaller(x, y),
        parts_order(l, r) == Ordering::Equal <==> x == y,
    decreases l.len(),
{
    if l.len() == 0 || r.len() == 0 {
        if l.len() < r.len() {
            assert(smaller_from(x, y, 0));
        } else {
            assert forall|k: int| !smaller_from(x, y, k) by {}
            if l.len() == r.len() {
                assert(x =~= y);
            }
        }
    } else {
        let (a, b) = (l.skip(1), r.skip(1));
        let (u, v) = (x.skip(1), y.skip(1));
        assert(denote(a, u)) by {
            assert forall|i: int| 0 <= i < u.len() implies part_number(#[trigger] a[i]) == Some(
                u[i],
            ) by {
                assert(a[i] == l[i + 1]);
            }
        }
        assert(denote(b, v)) by {
            assert forall|i: int| 0 <= i < v.len() implies part_number(#[trigger] b[i]) == Some(
                v[i],
            ) by {
                assert(b[i] == r[i + 1]);
            }
        }
        lemma_order_of_numbers(a, b, u, v);
        assert(part_number(l[0]) == Some(x[0]) && part_number(r[0]) == Some(y[0]));
        if x[0] < y[0] {
            assert(smaller_from(x, y, 0));
        } else if x[0] > y[0] {
            assert forall|k: int| !smaller_from(x, y, k) by {}
        } else {
            if smaller(u, v) {
                let k = choose|k: int| smaller_from(u, v, k);
                assert forall|i: int| 0 <= i < k + 1 implies x[i] == y[i] by {
                    if i > 0 {
                        assert(u[i - 1] == v[i - 1]);
                    }
                }
                assert(smaller_from(x, y, k + 1)) by {
                    if k < u.len() {
                        assert(u[k] < v[k]);
                    }
                }
            }
            if smaller(x, y) {
                let k = choose|k: int| smaller_from(x, y, k);
                assert(k > 0);
                assert forall|i: int| 0 <= i < k - 1 implies u[i] == v[i] by {
                    assert(x[i + 1] == y[i + 1]);
                }
                assert(smaller_from(u, v, k - 1)) by {
                    if k < x.len() {
                        assert(x[k] < y[k]);
                    }
                }
            }
            if u == v {
                assert forall|i: int| 0 <= i < x.len() implies x[i] == y[i] by {
                    if i > 0 {
                        assert(u[i - 1] == v[i - 1]);
                    }
                }
                assert(x =~= y);
            }
        }
    }
}

proof fn lemma_denote_all(parts: Seq<Seq<char>>, n: Seq<nat>)
    requires
        denote(parts, n),
    ensures
        all_numbers(parts),
{
}

/// A condition on a version compares lists of numbers: `<=` accepts what is smaller or the same,
/// `>` what is not, and so on. Without a sign the versions have to be the same.
pub proof fn law_comparisons(
    sign: Seq<char>,
    version: Seq<char>,
    v: Seq<nat>,
    raw: Seq<char>,
    c: VersionConstraint,
    actual: Seq<char>,
    a: Seq<nat>,
)
    requires
        is_version(version, v),
        is_version(actual, a),
        parsed_constraint(sign + version, raw) == Ok::<(VersionOp, Seq<char>), ErrorView>(
            (c.op, c.version@),
        ),
    ensures
        sign == "<="@ ==> c.accepts(actual) == (smaller(a, v) || a == v),
        sign == ">="@ ==> c.accepts(actual) == (smaller(v, a) || a == v),
        sign == "<"@ ==> c.accepts(actual) == smaller(a, v),
        sign == ">"@ ==> c.accepts(actual) == smaller(v, a),
        sign == "=="@ ==> c.accepts(actual) == (a == v),
        sign == ""@ ==> c.accepts(actual) == (a == v),
{
    reveal_strlit("<=");
    reveal_strlit(">=");
    reveal_strlit("<");
    reveal_strlit(">");
    reveal_strlit("==");
    reveal_strlit("");
    let s = sign + version;
    let (l, r) = (split_on(actual, '.'), split_on(version, '.'));
    lemma_first_part(version);
    assert(part_number(r[0]) == Some(v[0]));
    assert(version.len() > 0 && version[0] != '=' && version[0] != '<' && version[0] != '>' && (
    is_alnum(version[0]) || version[0] == '+'));
    assert(s.len() >= 2 ==> s.take(2) =~= seq![s[0], s[1]]);
    assert(s.take(1) =~= seq![s[0]]);
    assert("<="@ =~= seq!['<', '=']);
    assert(">="@ =~= seq!['>', '=']);
    assert("=="@ =~= seq!['=', '=']);
    assert("<"@ =~= seq!['<']);
    assert(">"@ =~= seq!['>']);
    assert(sign.len() == 0 ==> s =~= version);
    assert(sign.len() == 1 ==> s.skip(1) =~= version && s[0] == sign[0] && s[1] == version[0]);
    assert(sign.len() == 2 ==> s.skip(2) =~= version && s[0] == sign[0] && s[1] == sign[1]);
    if sign == "<="@ || sign == ">="@ || sign == "<"@ || sign == ">"@ || sign == "=="@ || sign
        == ""@ {
        assert(c.version@ == version);
    }
    assert(denote(l, a) && denote(r, v));
    lemma_order_of_numbers(l, r, a, v);
    lemma_order_of_numbers(r, l, v, a);
    lemma_denote_all(l, a);
    lemma_denote_all(r, v);
    law_exchanging_reverses(l, r);
    law_exchanging_reverses(r, l);
}

/// The first part of a text is not empty exactly where the text does not begin with the separator.
proof fn lemma_first_part(text: Seq<char>)
    ensures
        split_on(text, '.').len() > 0,
        split_on(text, '.')[0].len() > 0 ==> text.len() > 0 && text[0] == split_on(text, '.')[0][0],
{
    lemma_first_index(text, '.');
    let i = first_index(text, '.');
    if 0 <= i < text.len() {
        assert(split_on(text, '.')[0] =~= text.take(i));
    } else {
        assert(split_on(text, '.')[0] =~= text);
    }
}

// ---------------------------------------------------------------------------
// Text
// ---------------------------------------------------------------------------

/// A letter, a digit, an underscore, a hyphen or a dot.
pub open spec fn id_char(c: char) -> bool {
    ||| 'a' <= c && c <= 'z'
    ||| 'A' <= c && c <= 'Z'
    ||| '0' <= c && c <= '9'
    ||| c == '_'
    ||| c == '-'
    ||| c == '.'
}

pub open spec fn id_text(s: Seq<char>) -> bool {
    forall|i: int| 0 <= i < s.len() ==> id_char(#[trigger] s[i])
}

proof fn lemma_id_text(s: Seq<char>)
    ensures
        valid_id(s) == id_text(s),
{
    if valid_id(s) {
        assert forall|i: int| 0 <= i < s.len() implies id_char(#[trigger] s[i]) by {
            assert(is_alnum(s[i]) || s[i] == '_' || s[i] == '-' || s[i] == '.');
        }
    }
    if id_text(s) {
        assert forall|i: int| 0 <= i < s.len() implies is_alnum(#[trigger] s[i]) || s[i] == '_'
            || s[i] == '-' || s[i] == '.' by {
            assert(id_char(s[i]));
        }
    }
}

/// A comparison with an identifier behind it is a condition on a version, and nothing else is:
/// where a sign is known, the version must be there and be an identifier; a sign that is not known
/// is an error.
pub proof fn law_readable_conditions(sign: Seq<char>, version: Seq<char>, raw: Seq<char>)
    requires
        version.len() > 0 ==> version[0] != '=',
    ensures
        sign == "<="@ || sign == ">="@ || sign == "<"@ || sign == ">"@ || sign == "=="@ ==> (
        parsed_constraint(sign + version, raw) is Ok <==> version.len() > 0 && id_text(version)),
        sign == "<="@ || sign == ">="@ || sign == "<"@ || sign == ">"@ || sign == "=="@ || (
        sign.len() == 0 && version.len() > 0 && is_alnum(version[0])) ==> match parsed_constraint(
            sign + version,
            raw,
        ) {
            Ok(c) => c.1 == version,
            Err(e) => !(version.len() > 0 && id_text(version)),
        },
        sign == "~"@ || sign == "="@ || sign == "!"@ ==> parsed_constraint(sign + version, raw)
            is Err,
{
    reveal_strlit("<=");
    reveal_strlit(">=");
    reveal_strlit("<");
    reveal_strlit(">");
    reveal_strlit("==");
    reveal_strlit("~");
    reveal_strlit("=");
    reveal_strlit("!");
    reveal_strlit("");
    lemma_id_text(version);
    let s = sign + version;
    if s.len() >= 2 {
        assert(s.take(2) =~= seq![s[0], s[1]]);
    }
    if s.len() >= 1 {
        assert(s.take(1) =~= seq![s[0]]);
    }
    assert("<="@ =~= seq!['<', '=']);
    assert(">="@ =~= seq!['>', '=']);
    assert("=="@ =~= seq!['=', '=']);
    assert("<"@ =~= seq!['<']);
    assert(">"@ =~= seq!['>']);
    assert("~"@ =~= seq!['~']);
    assert("="@ =~= seq!['=']);
    assert("!"@ =~= seq!['!']);
    assert(sign.len() == 0 ==> s =~= version && s.skip(0) =~= version);
    assert(sign.len() == 1 ==> s.skip(1) =~= version && s[0] == sign[0] && (version.len() > 0
        ==> s[1] == version[0]));
    assert(sign.len() == 2 ==> s.skip(2) =~= version && s[0] == sign[0] && s[1] == sign[1]);
}

/// A version that is written as numbers with dots between them is made of these numbers.
pub proof fn law_written_versions(n: Seq<nat>)
    requires
        n.len() > 0,
        forall|i: int| 0 <= i < n.len() ==> #[trigger] n[i] <= u64::MAX,
    ensures
        is_version(separated(n.map_values(|x: nat| decimal(x)), '.'), n),
{
    let parts = n.map_values(|x: nat| decimal(x));
    assert forall|i: int| 0 <= i < parts.len() implies !(#[trigger] parts[i]).contains('.') by {
        lemma_decimal_digits(n[i]);
        let d = decimal(n[i]);
        assert forall|k: int| 0 <= k < d.len() implies d[k] != '.' by {
            assert(is_digit(d[k]));
        }
    }
    law_split_undoes_separated(parts, '.');
    assert forall|i: int| 0 <= i < n.len() implies part_number(#[trigger] parts[i]) == Some(n[i]) by {
        assert(n[i] <= u64::MAX);
        law_parse_decimal(n[i], u64::MAX as nat);
    }
}

/// Of versions that are not made of numbers alone, one that differs first in a part that is no
/// number in one of them counts as less, in both directions.
pub proof fn law_other_parts_count_as_less(l: Seq<Seq<char>>, r: Seq<Seq<char>>, k: int)
    requires
        0 <= k < l.len(),
        k < r.len(),
        forall|i: int| 0 <= i < k ==> l[i] == r[i],
        l[k] != r[k],
        part_number(l[k]) is None || part_number(r[k]) is None,
    ensures
        parts_order(l, r) == Ordering::Less,
    decreases k,
{
    if k > 0 {
        assert(l[0] == r[0]);
        assert(part_order(l[0], r[0]) == Ordering::Equal);
        let (a, b) = (l.skip(1), r.skip(1));
        assert forall|i: int| 0 <= i < k - 1 implies a[i] == b[i] by {
            assert(l[i + 1] == r[i + 1]);
        }
        law_other_parts_count_as_less(a, b, k - 1);
    }
}

// ---------------------------------------------------------------------------
// Predicates
// ---------------------------------------------------------------------------

/// A text that can stand between the colons of a predicate.
pub open spec fn plain_part(s: Seq<char>) -> bool {
    s.len() > 0 && !s.contains(':') && !s.contains('!')
}

/// The text of a predicate: its parts with colons between them, after an exclamation mark where it
/// is negated.
pub open spec fn predicate_text(parts: Seq<Seq<char>>, negated: bool) -> Seq<char> {
    if negated {
        "!"@ + separated(parts, ':')
    } else {
        separated(parts, ':')
    }
}

pub open spec fn writable(parts: Seq<Seq<char>>) -> bool {
    &&& parts.len() > 0
    &&& forall|i: int| 0 <= i < parts.len() ==> plain_part(#[trigger] parts[i])
    &&& id_text(parts[0])
    &&& !is_space(parts.last().last())
}

proof fn lemma_separated(parts: Seq<Seq<char>>, c: char)
    requires
        parts.len() > 0,
        forall|i: int| 0 <= i < parts.len() ==> plain_part(#[trigger] parts[i]),
    ensures
        separated(parts, ':').len() > 0,
        separated(parts, ':')[0] == parts[0][0],
        separated(parts, ':').last() == parts.last().last(),
        !separated(parts, ':').contains('!'),
    decreases parts.len(),
{
    assert(plain_part(parts[0]));
    if parts.len() > 1 {
        let rest = parts.skip(1);
        assert forall|i: int| 0 <= i < rest.len() implies plain_part(#[trigger] rest[i]) by {
            assert(rest[i] == parts[i + 1]);
        }
        lemma_separated(rest, c);
        let s = separated(parts, ':');
        let t = separated(rest, ':');
        assert forall|i: int| 0 <= i < s.len() implies s[i] != '!' by {
            if i < parts[0].len() {
                assert(parts[0].contains(s[i]));
            } else if i > parts[0].len() {
                assert(s[i] == t[i - parts[0].len() - 1]);
                assert(t.contains(s[i]));
            }
        }
    } else {
        assert(parts.last() == parts[0]);
    }
}

proof fn lemma_trimmed(s: Seq<char>)
    requires
        s.len() > 0,
        !is_space(s[0]),
        !is_space(s.last()),
    ensures
        trim(s) == s,
{
    assert(trim_start(s) == s);
    assert(trim_end(s) == s);
}

/// What is known of a predicate that was read: its sign, and that its body was split at colons.
proof fn lemma_body(parts: Seq<Seq<char>>, negated: bool)
    requires
        writable(parts),
    ensures
        ({
            let text = predicate_text(parts, negated);
            let body = separated(parts, ':');
            &&& trim(text) == text
            &&& negated ==> text.len() > 1 && text[0] == '!' && text.skip(1) == body
            &&& !negated ==> text == body && text.len() > 0 && text[0] != '!'
            &&& split_on(body, ':') == parts
            &&& !body.contains('!')
            &&& !any_empty(parts)
            &&& valid_id(parts[0])
        }),
{
    reveal_strlit("!");
    lemma_separated(parts, ':');
    lemma_id_text(parts[0]);
    let text = predicate_text(parts, negated);
    let body = separated(parts, ':');
    assert(plain_part(parts[0]));
    assert(id_char(parts[0][0]));
    assert(body[0] != '!');
    assert(text.len() > 0 && !is_space(text[0]) && !is_space(text.last()));
    lemma_trimmed(text);
    if negated {
        assert(text.skip(1) =~= body);
    }
    assert forall|i: int| 0 <= i < parts.len() implies !(#[trigger] parts[i]).contains(':') by {
        assert(plain_part(parts[i]));
    }
    law_split_undoes_separated(parts, ':');
    assert forall|i: int| 0 <= i < parts.len() implies (#[trigger] parts[i]).len() > 0 by {
        assert(plain_part(parts[i]));
    }
}

/// An identifier of a Linux system: its own, or with `-like` behind it, that of its family.
pub open spec fn names_distro(id: Seq<char>, distro: Option<Seq<char>>, like: Seq<Seq<char>>) -> bool {
    ||| distro == Some(id) && !(exists|base: Seq<char>| id == base + "-like"@)
    ||| exists|base: Seq<char>|
        id == #[trigger] (base + "-like"@) && (distro == Some(base) || like.contains(base))
}

proof fn lemma_names_distro(id: Seq<char>, distro: Option<Seq<char>>, like: Seq<Seq<char>>)
    ensures
        crate::platform::when::linux_id_fits(id, distro, like) == names_distro(id, distro, like),
{
    reveal_strlit("-like");
    let tail = "-like"@;
    if id.len() >= 5 && id.skip(id.len() - 5) == tail {
        let base = id.take(id.len() - 5);
        assert(base + tail =~= id);
        assert forall|b: Seq<char>| id == #[trigger] (b + tail) implies b == base by {
            assert(b =~= (b + tail).take(b.len() as int));
        }
    } else {
        assert forall|b: Seq<char>| id != #[trigger] (b + tail) by {
            assert((b + tail).skip(b.len() as int) =~= tail);
        }
    }
}

/// A condition of a predicate that was read from a text accepts a version.
pub open spec fn accepts_as_read(
    c: Option<VersionConstraint>,
    text: Seq<char>,
    raw: Seq<char>,
    version: Seq<char>,
) -> bool {
    &&& c is Some
    &&& parsed_constraint(text, raw) == Ok::<(VersionOp, Seq<char>), ErrorView>(
        ((c->0).op, (c->0).version@),
    )
    &&& (c->0).accepts(version)
}

/// `linux`, `linux:ID`, `linux:ID:VERSION` and `linux:ID:VERSION:VARIANT` hold on the Linux systems
/// with that identifier, version and variant; with an exclamation mark, on all other platforms.
pub proof fn law_linux_predicates(
    parts: Seq<Seq<char>>,
    negated: bool,
    p: Predicate,
    platform: PlatformInfo,
)
    requires
        writable(parts),
        parts[0] == "linux"@,
        parsed_predicate(predicate_text(parts, negated)) == Ok::<PredicateView, ErrorView>(p@),
    ensures
        parts.len() <= 4,
        p.holds(platform) == (negated != ({
            &&& platform.os is Linux && platform.linux is Some
            &&& {
                let info = platform.linux->0;
                &&& parts.len() >= 2 ==> names_distro(
                    parts[1],
                    match info.distro {
                        Some(d) => Some(d@),
                        None => None,
                    },
                    views(info.distro_like@),
                )
                &&& parts.len() >= 3 ==> info.version_id is Some && accepts_as_read(
                    p.version,
                    parts[2],
                    predicate_text(parts, negated),
                    (info.version_id->0)@,
                )
                &&& parts.len() >= 4 ==> info.variant_id is Some && (info.variant_id->0)@
                    == parts[3]
            }
        })),
{
    lemma_body(parts, negated);
    if parts.len() >= 2 && platform.linux is Some {
        let info = (platform.linux->0)@;
        lemma_names_distro(parts[1], info.distro, info.distro_like);
    }
}

/// `macos` and `macos:VERSION` hold on the macOS systems with that version.
pub proof fn law_macos_predicates(
    parts: Seq<Seq<char>>,
    negated: bool,
    p: Predicate,
    platform: PlatformInfo,
)
    requires
        writable(parts),
        parts[0] == "macos"@,
        parsed_predicate(predicate_text(parts, negated)) == Ok::<PredicateView, ErrorView>(p@),
    ensures
        parts.len() <= 2,
        p.holds(platform) == (negated != ({
            &&& platform.os is Macos && platform.macos is Some
            &&& parts.len() >= 2 ==> accepts_as_read(
                p.version,
                parts[1],
                predicate_text(parts, negated),
                (platform.macos->0).product_version@,
            )
        })),
{
    lemma_distinct_systems();
    lemma_body(parts, negated);
}

/// `windows`, `windows:VERSION` and `windows:VERSION:BUILD` hold on the Windows systems with that
/// version, of which the build is the last part.
pub proof fn law_windows_predicates(
    parts: Seq<Seq<char>>,
    negated: bool,
    p: Predicate,
    platform: PlatformInfo,
)
    requires
        writable(parts),
        parts[0] == "windows"@,
        parsed_predicate(predicate_text(parts, negated)) == Ok::<PredicateView, ErrorView>(p@),
    ensures
        parts.len() <= 3,
        p.holds(platform) == (negated != ({
            &&& platform.os is Windows && platform.windows is Some
            &&& {
                let version = (platform.windows->0).version@;
                let raw = predicate_text(parts, negated);
                &&& parts.len() >= 2 ==> accepts_as_read(p.version, parts[1], raw, version)
                &&& parts.len() >= 3 ==> accepts_as_read(
                    p.build,
                    parts[2],
                    raw,
                    split_on(version, '.').last(),
                )
            }
        })),
{
    lemma_distinct_systems();
    lemma_body(parts, negated);
}

/// A predicate on any other system holds nowhere, and its negation everywhere.
pub proof fn law_other_systems(
    parts: Seq<Seq<char>>,
    negated: bool,
    p: Predicate,
    platform: PlatformInfo,
)
    requires
        writable(parts),
        parts[0] != "linux"@ && parts[0] != "macos"@ && parts[0] != "windows"@,
        parsed_predicate(predicate_text(parts, negated)) == Ok::<PredicateView, ErrorView>(p@),
    ensures
        p.holds(platform) == negated,
{
    lemma_body(parts, negated);
}

proof fn lemma_distinct_systems()
    ensures
        "linux"@ != "macos"@,
        "linux"@ != "windows"@,
        "macos"@ != "windows"@,
{
    reveal_strlit("linux");
    reveal_strlit("macos");
    reveal_strlit("windows");
    assert("linux"@[0] == 'l' && "macos"@[0] == 'm' && "windows"@[0] == 'w');
}

/// Which texts are predicates: a Linux one has at most an identifier, a version and a variant, a
/// macOS one a version, a Windows one a version and a build; of others the parts are identifiers.
pub proof fn law_readable_predicates(parts: Seq<Seq<char>>, negated: bool)
    requires
        writable(parts),
    ensures
        ({
            let raw = predicate_text(parts, negated);
            let r = parsed_predicate(raw);
            &&& parts[0] == "linux"@ ==> (r is Ok <==> {
                &&& parts.len() <= 4
                &&& parts.len() >= 2 ==> id_text(parts[1])
                &&& parts.len() >= 3 ==> parsed_constraint(parts[2], raw) is Ok
                &&& parts.len() >= 4 ==> id_text(parts[3])
            })
            &&& parts[0] == "macos"@ ==> (r is Ok <==> {
                &&& parts.len() <= 2
                &&& parts.len() >= 2 ==> parsed_constraint(parts[1], raw) is Ok
            })
            &&& parts[0] == "windows"@ ==> (r is Ok <==> {
                &&& parts.len() <= 3
                &&& parts.len() >= 2 ==> parsed_constraint(parts[1], raw) is Ok
                &&& parts.len() >= 3 ==> parsed_constraint(parts[2], raw) is Ok
            })
            &&& parts[0] != "linux"@ && parts[0] != "macos"@ && parts[0] != "windows"@ ==> (r is Ok
                <==> forall|i: int| 1 <= i < parts.len() ==> id_text(#[trigger] parts[i]))
        }),
{
    lemma_distinct_systems();
    lemma_body(parts, negated);
    if parts.len() >= 2 {
        lemma_id_text(parts[1]);
    }
    if parts.len() >= 4 {
        lemma_id_text(parts[3]);
    }
    if parts[0] != "linux"@ && parts[0] != "macos"@ && parts[0] != "windows"@ {
        let rest = parts.skip(1);
        lemma_first_invalid(rest);
        let n = crate::platform::when::first_invalid(rest);
        if n < rest.len() {
            lemma_id_text(rest[n]);
            assert(rest[n] == parts[n + 1]);
            assert(!id_text(parts[n + 1]));
        } else {
            assert forall|i: int| 1 <= i < parts.len() implies id_text(#[trigger] parts[i]) by {
                assert(rest[i - 1] == parts[i]);
                lemma_id_text(rest[i - 1]);
            }
        }
    }
}

proof fn lemma_first_invalid(parts: Seq<Seq<char>>)
    ensures
        ({
            let n = crate::platform::when::first_invalid(parts);
            &&& 0 <= n <= parts.len()
            &&& n < parts.len() ==> !valid_id(parts[n])
            &&& forall|i: int| 0 <= i < n ==> valid_id(#[trigger] parts[i])
        }),
    decreases parts.len(),
{
    if parts.len() > 0 && valid_id(parts[0]) {
        let rest = parts.skip(1);
        lemma_first_invalid(rest);
        let n = crate::platform::when::first_invalid(rest);
        assert forall|i: int| 0 <= i < n + 1 implies valid_id(#[trigger] parts[i]) by {
            if i > 0 {
                assert(rest[i - 1] == parts[i]);
            }
        }
    }
}

} // verus!
