//! What is read out of the descriptions of systems.

use crate::platform::{
    hex_digits_value, registry_text, registry_value, release_info, release_step, unquoted,
    windows_version, word_len, words, LinuxView,
};
use crate::text::{
    decimal, first_index, has_prefix, is_space, join, lemma_first_index, lemma_first_index_is, trim,
};
use vstd::prelude::*;

verus! {

/// A text without white space in it.
pub open spec fn is_word(a: Seq<char>) -> bool {
    a.len() > 0 && forall|i: int| 0 <= i < a.len() ==> !is_space(#[trigger] a[i])
}

proof fn lemma_word_len_is(s: Seq<char>, n: nat)
    requires
        n <= s.len(),
        forall|i: int| 0 <= i < n ==> !is_space(#[trigger] s[i]),
        n < s.len() ==> is_space(s[n as int]),
    ensures
        word_len(s) == n,
    decreases n,
{
    if n > 0 {
        let rest = s.skip(1);
        assert forall|i: int| 0 <= i < n - 1 implies !is_space(#[trigger] rest[i]) by {
            assert(rest[i] == s[i + 1]);
        }
        if n < s.len() {
            assert(rest[n - 1] == s[n as int]);
        }
        assert(!is_space(s[0]));
        lemma_word_len_is(rest, (n - 1) as nat);
    }
}

/// White space parts words, and belongs to none.
pub proof fn law_words_are_parted(a: Seq<char>, space: char, rest: Seq<char>)
    requires
        is_word(a),
        is_space(space),
    ensures
        words(a) == seq![a],
        words(a + seq![space] + rest) == seq![a] + words(rest),
        words(seq![space] + rest) == words(rest),
        words(Seq::<char>::empty()) == Seq::<Seq<char>>::empty(),
{
    let s = a + seq![space] + rest;
    assert forall|i: int| 0 <= i < a.len() implies !is_space(#[trigger] s[i]) by {
        assert(s[i] == a[i]);
    }
    assert(s[a.len() as int] == space);
    lemma_word_len_is(s, a.len());
    lemma_word_len_is(a, a.len());
    assert(!is_space(a[0]));
    assert(!is_space(s[0]));
    assert(s.take(a.len() as int) =~= a);
    assert(a.take(a.len() as int) =~= a);
    assert(a.skip(a.len() as int) =~= Seq::<char>::empty());
    let t = seq![space] + rest;
    assert(s.skip(a.len() as int) =~= t);
    assert(t.skip(1) =~= rest);
    assert(t[0] == space);
    assert(words(Seq::<char>::empty()) =~= Seq::<Seq<char>>::empty());
    assert(words(t) == words(rest));
    assert(words(a) =~= seq![a]);
}

proof fn lemma_words_are_words(s: Seq<char>)
    ensures
        forall|i: int| 0 <= i < words(s).len() ==> (#[trigger] words(s)[i]).len() > 0,
    decreases s.len(),
{
    if s.len() > 0 {
        if is_space(s[0]) {
            lemma_words_are_words(s.skip(1));
            assert(words(s) == words(s.skip(1)));
        } else {
            let n = word_len(s);
            if 0 < n <= s.len() {
                let rest = words(s.skip(n as int));
                lemma_words_are_words(s.skip(n as int));
                assert(words(s) == seq![s.take(n as int)] + rest);
                assert forall|i: int| 0 <= i < words(s).len() implies (#[trigger] words(s)[i]).len()
                    > 0 by {
                    if i > 0 {
                        assert(words(s)[i] == rest[i - 1]);
                    }
                }
            } else {
                assert(words(s) =~= Seq::<Seq<char>>::empty());
            }
        }
    } else {
        assert(words(s) =~= Seq::<Seq<char>>::empty());
    }
}

/// A pair of the same quotes around a value is taken off; any other value stays.
pub proof fn law_quotes_are_taken_off(x: Seq<char>)
    ensures
        unquoted(seq!['"'] + x + seq!['"']) == x,
        unquoted(seq!['\''] + x + seq!['\'']) == x,
        x.len() < 2 ==> unquoted(x) == x,
        x.len() >= 2 && x[0] != x.last() ==> unquoted(x) == x,
        x.len() >= 2 && x[0] != '"' && x[0] != '\'' ==> unquoted(x) == x,
{
    let a = seq!['"'] + x + seq!['"'];
    let b = seq!['\''] + x + seq!['\''];
    assert(a[0] == '"' && a.last() == '"');
    assert(b[0] == '\'' && b.last() == '\'');
    assert(a.subrange(1, a.len() - 1) =~= x);
    assert(b.subrange(1, b.len() - 1) =~= x);
}

/// A line gives a value to a key, with white space around the line and the value.
pub open spec fn gives(line: Seq<char>, key: Seq<char>, value: Seq<char>) -> bool {
    trim(line) == key + seq!['='] + value
}

/// A line gives some value to a key.
pub open spec fn is_for(line: Seq<char>, key: Seq<char>) -> bool {
    exists|value: Seq<char>| gives(line, key, value)
}

proof fn lemma_line(line: Seq<char>, key: Seq<char>, value: Seq<char>)
    requires
        gives(line, key, value),
        !key.contains('='),
        key.len() > 0,
        key[0] != '#',
    ensures
        ({
            let t = trim(line);
            let i = first_index(t, '=');
            &&& t.len() > 0
            &&& t[0] != '#'
            &&& 0 <= i < t.len()
            &&& t.take(i) == key
            &&& t.skip(i + 1) == value
        }),
{
    let t = trim(line);
    assert(t[key.len() as int] == '=');
    assert forall|i: int| 0 <= i < key.len() implies t[i] != '=' by {
        assert(t[i] == key[i]);
        assert(key.contains(key[i]));
    }
    lemma_first_index_is(t, '=', key.len() as int);
    assert(t.take(key.len() as int) =~= key);
    assert(t.skip(key.len() as int + 1) =~= value);
    assert(t[0] == key[0]);
}

proof fn lemma_key_of_line(line: Seq<char>, key: Seq<char>)
    requires
        ({
            let t = trim(line);
            let i = first_index(t, '=');
            0 <= i < t.len() && t.take(i) == key
        }),
    ensures
        is_for(line, key),
{
    let t = trim(line);
    let i = first_index(t, '=');
    lemma_first_index(t, '=');
    assert(t =~= key + seq!['='] + t.skip(i + 1));
    assert(gives(line, key, t.skip(i + 1)));
}

proof fn lemma_keys()
    ensures
        "ID"@.len() == 2 && "ID_LIKE"@.len() == 7 && "VERSION_ID"@.len() == 10
            && "VARIANT_ID"@.len() == 10,
        "ID"@[0] == 'I' && "ID_LIKE"@[0] == 'I' && "VERSION_ID"@[0] == 'V' && "VARIANT_ID"@[0]
            == 'V',
        !"ID"@.contains('=') && !"ID_LIKE"@.contains('=') && !"VERSION_ID"@.contains('=')
            && !"VARIANT_ID"@.contains('='),
        "VERSION_ID"@ != "VARIANT_ID"@,
{
    reveal_strlit("ID");
    reveal_strlit("ID_LIKE");
    reveal_strlit("VERSION_ID");
    reveal_strlit("VARIANT_ID");
    assert("VERSION_ID"@[1] != "VARIANT_ID"@[1]);
}

/// The four keys each set what is named after them and nothing else; a line for no key changes
/// nothing.
pub proof fn law_keys_of_releases(info: LinuxView, line: Seq<char>, value: Seq<char>)
    ensures
        gives(line, "ID"@, value) ==> release_step(info, line) == (LinuxView {
            distro: Some(unquoted(trim(value))),
            ..info
        }),
        gives(line, "ID_LIKE"@, value) ==> release_step(info, line) == (LinuxView {
            distro_like: words(unquoted(trim(value))),
            ..info
        }),
        gives(line, "VERSION_ID"@, value) ==> release_step(info, line) == (LinuxView {
            version_id: Some(unquoted(trim(value))),
            ..info
        }),
        gives(line, "VARIANT_ID"@, value) ==> release_step(info, line) == (LinuxView {
            variant_id: Some(unquoted(trim(value))),
            ..info
        }),
        !is_for(line, "ID"@) && !is_for(line, "ID_LIKE"@) && !is_for(line, "VERSION_ID"@) && !is_for(
            line,
            "VARIANT_ID"@,
        ) ==> release_step(info, line) == info,
{
    lemma_keys();
    if gives(line, "ID"@, value) {
        lemma_line(line, "ID"@, value);
    }
    if gives(line, "ID_LIKE"@, value) {
        lemma_line(line, "ID_LIKE"@, value);
    }
    if gives(line, "VERSION_ID"@, value) {
        lemma_line(line, "VERSION_ID"@, value);
    }
    if gives(line, "VARIANT_ID"@, value) {
        lemma_line(line, "VARIANT_ID"@, value);
    }
    lemma_step_keeps(info, line);
}

proof fn lemma_step_keeps(info: LinuxView, line: Seq<char>)
    ensures
        !is_for(line, "ID"@) ==> release_step(info, line).distro == info.distro,
        !is_for(line, "ID_LIKE"@) ==> release_step(info, line).distro_like == info.distro_like,
        !is_for(line, "VERSION_ID"@) ==> release_step(info, line).version_id == info.version_id,
        !is_for(line, "VARIANT_ID"@) ==> release_step(info, line).variant_id == info.variant_id,
        !is_for(line, "ID"@) && !is_for(line, "ID_LIKE"@) && !is_for(line, "VERSION_ID"@) && !is_for(
            line,
            "VARIANT_ID"@,
        ) ==> release_step(info, line) == info,
{
    lemma_keys();
    let t = trim(line);
    let i = first_index(t, '=');
    if 0 <= i < t.len() {
        let key = t.take(i);
        if key == "ID"@ || key == "ID_LIKE"@ || key == "VERSION_ID"@ || key == "VARIANT_ID"@ {
            lemma_key_of_line(line, key);
        }
    }
}

/// No line from a position on is for a key.
pub open spec fn none_for(l: Seq<Seq<char>>, from: int, key: Seq<char>) -> bool {
    forall|j: int| from <= j < l.len() ==> !is_for(#[trigger] l[j], key)
}

/// What the last line for a key gives is what counts; a key without a line has no value.
pub proof fn law_last_line_counts(l: Seq<Seq<char>>, k: int, value: Seq<char>)
    requires
        0 <= k < l.len(),
    ensures
        gives(l[k], "ID"@, value) && none_for(l, k + 1, "ID"@) ==> release_info(l).distro == Some(
            unquoted(trim(value)),
        ),
        gives(l[k], "ID_LIKE"@, value) && none_for(l, k + 1, "ID_LIKE"@) ==> release_info(
            l,
        ).distro_like == words(unquoted(trim(value))),
        gives(l[k], "VERSION_ID"@, value) && none_for(l, k + 1, "VERSION_ID"@) ==> release_info(
            l,
        ).version_id == Some(unquoted(trim(value))),
        gives(l[k], "VARIANT_ID"@, value) && none_for(l, k + 1, "VARIANT_ID"@) ==> release_info(
            l,
        ).variant_id == Some(unquoted(trim(value))),
    decreases l.len(),
{
    let front = l.drop_last();
    let info = release_info(front);
    if k == l.len() - 1 {
        law_keys_of_releases(info, l.last(), value);
    } else {
        law_last_line_counts(front, k, value);
        lemma_step_keeps(info, l.last());
        assert(front[k] == l[k]);
        assert(forall|j: int| k + 1 <= j < front.len() ==> #[trigger] front[j] == l[j]);
    }
}

/// A key that no line is for has no value.
pub proof fn law_keys_without_lines(l: Seq<Seq<char>>)
    ensures
        none_for(l, 0, "ID"@) ==> release_info(l).distro is None,
        none_for(l, 0, "ID_LIKE"@) ==> release_info(l).distro_like.len() == 0,
        none_for(l, 0, "VERSION_ID"@) ==> release_info(l).version_id is None,
        none_for(l, 0, "VARIANT_ID"@) ==> release_info(l).variant_id is None,
    decreases l.len(),
{
    if l.len() > 0 {
        let front = l.drop_last();
        law_keys_without_lines(front);
        lemma_step_keeps(release_info(front), l.last());
        assert(forall|j: int| 0 <= j < front.len() ==> #[trigger] front[j] == l[j]);
    }
}

/// A line starts with a name.
pub open spec fn starts_with_word(line: Seq<char>, name: Seq<char>) -> bool {
    words(line).len() > 0 && words(line)[0] == name
}

proof fn lemma_joined_words(w: Seq<Seq<char>>)
    requires
        w.len() > 0,
        forall|i: int| 0 <= i < w.len() ==> (#[trigger] w[i]).len() > 0,
    ensures
        join(w, " "@).len() > 0,
    decreases w.len(),
{
    reveal_strlit(" ");
    if w.len() > 1 {
        assert(forall|i: int| 0 <= i < w.drop_last().len() ==> #[trigger] w.drop_last()[i] == w[i]);
        assert(forall|i: int| 0 <= i < w.skip(1).len() ==> #[trigger] w.skip(1)[i] == w[i + 1]);
    }
    assert(w[0].len() > 0);
    assert(w.last().len() > 0);
}

/// A value of the registry is what stands behind the name and the kind on the first line for it that
/// has a value; lines for other names do not matter.
pub proof fn law_registry_values(l: Seq<Seq<char>>, k: int, name: Seq<char>)
    requires
        0 <= k < l.len(),
        forall|j: int| 0 <= j < k ==> !starts_with_word(#[trigger] l[j], name),
        starts_with_word(l[k], name),
    ensures
        words(l[k]).len() == 1 ==> registry_value(l, name) is None,
        words(l[k]).len() >= 3 && words(l[k])[1] != "REG_DWORD"@ ==> registry_value(l, name) == Some(
            join(words(l[k]).skip(2), " "@),
        ),
        words(l[k]).len() >= 3 ==> registry_value(l, name) == Some(
            registry_text(words(l[k])[1], join(words(l[k]).skip(2), " "@)),
        ),
    decreases l.len(),
{
    if k > 0 {
        let rest = l.skip(1);
        assert(rest[k - 1] == l[k]);
        assert(!starts_with_word(l[0], name));
        assert forall|j: int| 0 <= j < k - 1 implies !starts_with_word(#[trigger] rest[j], name) by {
            assert(rest[j] == l[j + 1]);
        }
        law_registry_values(rest, k - 1, name);
    } else {
        let w = words(l[0]);
        lemma_words_are_words(l[0]);
        if w.len() >= 3 {
            let v = w.skip(2);
            assert(forall|i: int| 0 <= i < v.len() ==> #[trigger] v[i] == w[i + 2]);
            lemma_joined_words(v);
        }
    }
}

/// A name without a line has no value.
pub proof fn law_missing_registry_values(l: Seq<Seq<char>>, name: Seq<char>)
    requires
        forall|j: int| 0 <= j < l.len() ==> !starts_with_word(#[trigger] l[j], name),
    ensures
        registry_value(l, name) is None,
    decreases l.len(),
{
    if l.len() > 0 {
        let rest = l.skip(1);
        assert(!starts_with_word(l[0], name));
        assert forall|j: int| 0 <= j < rest.len() implies !starts_with_word(#[trigger] rest[j], name) by {
            assert(rest[j] == l[j + 1]);
        }
        law_missing_registry_values(rest, name);
    }
}

/// The digit for a number below sixteen, in small letters.
pub open spec fn hex_digit_of(n: nat) -> char
    recommends
        n < 16,
{
    if n < 10 {
        ((48 + n) as u8) as char
    } else {
        ((87 + n) as u8) as char
    }
}

/// A number in hexadecimal.
pub open spec fn hexadecimal(n: nat) -> Seq<char>
    decreases n,
{
    if n < 16 {
        seq![hex_digit_of(n)]
    } else {
        hexadecimal(n / 16).push(hex_digit_of(n % 16))
    }
}

proof fn lemma_hexadecimal(n: nat)
    ensures
        hexadecimal(n).len() > 0,
        crate::platform::all_hex(hexadecimal(n)),
        hex_digits_value(hexadecimal(n)) == n,
        hexadecimal(n)[0] != '+',
    decreases n,
{
    let s = hexadecimal(n);
    let d = hex_digit_of(n % 16);
    assert(crate::text::is_hex(d) && crate::platform::hex_value(d) == n % 16 && d != '+');
    if n < 16 {
        assert(n % 16 == n);
        assert(s.drop_last() =~= Seq::<char>::empty());
        assert(hex_digits_value(s.drop_last()) == 0);
        assert(s.last() == d);
    } else {
        lemma_hexadecimal(n / 16);
        assert(s.drop_last() =~= hexadecimal(n / 16));
        assert(s.last() == d);
        assert(s[0] == hexadecimal(n / 16)[0]);
        assert forall|i: int| 0 <= i < s.len() implies crate::text::is_hex(#[trigger] s[i]) by {
            if i < s.len() - 1 {
                assert(s[i] == hexadecimal(n / 16)[i]);
            }
        }
    }
}

/// A number of the registry is written in hexadecimal and used in decimal; text is used as it is.
pub proof fn law_registry_numbers(n: nat, kind: Seq<char>, text: Seq<char>)
    ensures
        n <= u64::MAX ==> registry_text("REG_DWORD"@, "0x"@ + hexadecimal(n)) == decimal(n),
        kind != "REG_DWORD"@ ==> registry_text(kind, text) == text,
        !has_prefix(text, "0x"@) && !has_prefix(text, "0X"@) ==> registry_text(kind, text) == text,
{
    lemma_hexadecimal(n);
    reveal_strlit("0x");
    let v = "0x"@ + hexadecimal(n);
    assert(v.subrange(0, 2) =~= "0x"@);
    assert(v.skip(2) =~= hexadecimal(n));
}

/// The version of a Windows system is made of its numbers, with zero for a minor one that is missing;
/// where the major number or the build is missing, the older value is used.
pub proof fn law_windows_versions(
    major: Option<Seq<char>>,
    minor: Option<Seq<char>>,
    build: Option<Seq<char>>,
    current: Option<Seq<char>>,
)
    ensures
        ({
            let v = windows_version(major, minor, build, current);
            &&& major is Some && minor is Some && build is Some ==> v == major->0 + "."@ + minor->0
                + "."@ + build->0
            &&& major is Some && minor is None && build is Some ==> v == major->0 + ".0."@ + build->0
            &&& (major is None || build is None) && current is Some ==> v == current->0
            &&& (major is None || build is None) && current is None ==> v.len() == 0
        }),
{
    reveal_strlit("");
}

} // verus!
