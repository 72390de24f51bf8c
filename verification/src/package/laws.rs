//! Which texts refer to packs, and where packs are kept.

use crate::error::ErrorView;
use crate::package::{
    install_dir, parsed_ref, store_dir, PackageRefView,
};
use crate::paths::joined;
use crate::text::laws::{law_split_at_separator, law_split_without_separator};
use crate::text::{first_index, lemma_first_index, lemma_first_index_is, split_on};
use vstd::prelude::*;

verus! {

/// A letter or a digit of ASCII, a hyphen, an underscore or a dot.
pub open spec fn name_char(c: char) -> bool {
    ||| 'a' <= c && c <= 'z'
    ||| 'A' <= c && c <= 'Z'
    ||| '0' <= c && c <= '9'
    ||| c == '-'
    ||| c == '_'
    ||| c == '.'
}

/// A namespace or a name.
pub open spec fn is_name(s: Seq<char>) -> bool {
    s.len() > 0 && forall|i: int| 0 <= i < s.len() ==> name_char(#[trigger] s[i])
}

/// A text is a reference: a namespace, a slash and a name, and perhaps an at sign and a version.
pub open spec fn refers_to(input: Seq<char>, namespace: Seq<char>, name: Seq<char>, version: Option<Seq<char>>) -> bool {
    &&& is_name(namespace)
    &&& is_name(name)
    &&& match version {
        None => input == namespace + seq!['/'] + name,
        Some(v) => v.len() > 0 && input == namespace + seq!['/'] + name + seq!['@'] + v,
    }
}

proof fn lemma_name_is_plain(s: Seq<char>)
    requires
        is_name(s),
    ensures
        !s.contains('/'),
        !s.contains('@'),
{
    assert forall|i: int| 0 <= i < s.len() implies s[i] != '/' && s[i] != '@' by {
        assert(name_char(s[i]));
    }
}

/// A text is read as a reference exactly where it is one, and then as what it says.
pub proof fn law_references(input: Seq<char>)
    ensures
        match parsed_ref(input) {
            Ok(p) => refers_to(input, p.namespace, p.name, p.version),
            Err(_) => forall|namespace: Seq<char>, name: Seq<char>, version: Option<Seq<char>>|
                !#[trigger] refers_to(input, namespace, name, version),
        },
{
    lemma_first_index(input, '@');
    let n = first_index(input, '@');
    let path = input.take(n);
    let parts = split_on(path, '/');
    match parsed_ref(input) {
        Ok(p) => {
            lemma_first_index(path, '/');
            let k = first_index(path, '/');
            if !(0 <= k < path.len()) {
                assert(parts.len() == 1);
            }
            let rest = path.skip(k + 1);
            assert(parts == seq![path.take(k)] + split_on(rest, '/'));
            assert(parts[0] == path.take(k));
            assert(split_on(rest, '/').len() == 1);
            lemma_first_index(rest, '/');
            let j = first_index(rest, '/');
            if 0 <= j < rest.len() {
                assert(split_on(rest, '/').len() >= 2) by {
                    crate::package::laws::lemma_some_part(rest.skip(j + 1));
                }
            }
            assert(split_on(rest, '/')[0] == rest);
            assert(parts[1] == rest);
            assert(path =~= p.namespace + seq!['/'] + p.name);
            lemma_names(p.namespace);
            lemma_names(p.name);
            if n < input.len() {
                assert(input =~= path + seq!['@'] + input.skip(n + 1));
            } else {
                assert(path =~= input);
            }
        },
        Err(_) => {
            assert forall|namespace: Seq<char>, name: Seq<char>, version: Option<Seq<char>>|
                !#[trigger] refers_to(input, namespace, name, version) by {
                if refers_to(input, namespace, name, version) {
                    lemma_reads(input, namespace, name, version);
                }
            }
        },
    }
}

pub proof fn lemma_some_part(s: Seq<char>)
    ensures
        split_on(s, '/').len() > 0,
{
}

proof fn lemma_names(s: Seq<char>)
    ensures
        s.len() > 0 && crate::package::valid_component(s) <==> is_name(s),
{
    if crate::package::valid_component(s) {
        assert forall|i: int| 0 <= i < s.len() implies name_char(#[trigger] s[i]) by {
            assert(crate::package::is_component_char(s[i]));
        }
    }
    if is_name(s) {
        assert forall|i: int| 0 <= i < s.len() implies crate::package::is_component_char(
            #[trigger] s[i],
        ) by {
            assert(name_char(s[i]));
        }
    }
}

proof fn lemma_reads(input: Seq<char>, namespace: Seq<char>, name: Seq<char>, version: Option<Seq<char>>)
    requires
        refers_to(input, namespace, name, version),
    ensures
        parsed_ref(input) == Ok::<PackageRefView, ErrorView>(
            PackageRefView { namespace, name, version },
        ),
{
    lemma_name_is_plain(namespace);
    lemma_name_is_plain(name);
    lemma_names(namespace);
    lemma_names(name);
    let path = namespace + seq!['/'] + name;
    assert forall|i: int| 0 <= i < path.len() implies path[i] != '@' by {
        if i < namespace.len() {
            assert(namespace.contains(namespace[i]));
        } else if i > namespace.len() {
            assert(name.contains(name[i - namespace.len() - 1]));
        }
    }
    law_split_at_separator(namespace, '/', name);
    law_split_without_separator(name, '/');
    let n = path.len() as int;
    match version {
        None => {
            lemma_first_index_is(input, '@', n);
            assert(input.take(n) =~= path);
        },
        Some(v) => {
            assert(input[n] == '@');
            assert forall|i: int| 0 <= i < n implies input[i] != '@' by {
                assert(input[i] == path[i]);
            }
            lemma_first_index_is(input, '@', n);
            assert(input.take(n) =~= path);
            assert(input.skip(n + 1) =~= v);
        },
    }
}

/// A reference is known under its namespace and its name, whatever the version; two references have
/// the same key only where both are the same.
pub proof fn law_keys_tell_packs_apart(a: PackageRefView, b: PackageRefView)
    requires
        is_name(a.namespace) && is_name(a.name),
        is_name(b.namespace) && is_name(b.name),
    ensures
        a.key() == a.namespace + seq!['/'] + a.name,
        a.key() == b.key() <==> a.namespace == b.namespace && a.name == b.name,
{
    reveal_strlit("/");
    assert("/"@ =~= seq!['/']);
    lemma_name_is_plain(a.namespace);
    lemma_name_is_plain(a.name);
    lemma_name_is_plain(b.namespace);
    lemma_name_is_plain(b.name);
    law_split_at_separator(a.namespace, '/', a.name);
    law_split_without_separator(a.name, '/');
    law_split_at_separator(b.namespace, '/', b.name);
    law_split_without_separator(b.name, '/');
    let (x, y) = (seq![a.namespace] + seq![a.name], seq![b.namespace] + seq![b.name]);
    assert(x[0] == a.namespace && x[1] == a.name && y[0] == b.namespace && y[1] == b.name);
}

/// Packs are kept below the program's directory in the directory of configurations, each in a
/// directory of its own, by namespace and name.
pub proof fn law_store_layout(config_dir: Seq<char>, namespace: Seq<char>, name: Seq<char>)
    requires
        config_dir.len() > 0,
        config_dir.last() != '/',
        is_name(namespace),
        is_name(name),
    ensures
        store_dir(config_dir) == config_dir + "/nono/packages"@,
        install_dir(config_dir, namespace, name) == config_dir + "/nono/packages"@ + seq!['/']
            + namespace + seq!['/'] + name,
        joined(install_dir(config_dir, namespace, name), "groups.json"@) == config_dir
            + "/nono/packages"@ + seq!['/'] + namespace + seq!['/'] + name + "/groups.json"@,
{
    reveal_strlit("nono");
    reveal_strlit("packages");
    reveal_strlit("/nono/packages");
    reveal_strlit("/");
    reveal_strlit("groups.json");
    reveal_strlit("/groups.json");
    assert(name_char(namespace[0]) && name_char(name[0]));
    let a = config_dir + "/"@ + "nono"@;
    assert(joined(config_dir, "nono"@) == a);
    assert(a.last() == 'o');
    let b = a + "/"@ + "packages"@;
    assert(b.last() == 's');
    assert(b =~= config_dir + "/nono/packages"@);
    let c = b + "/"@ + namespace;
    assert(c.last() == namespace.last());
    assert(name_char(namespace[namespace.len() - 1]));
    assert(joined(b, namespace) == c);
    let d = c + "/"@ + name;
    assert(joined(c, name) == d);
    assert(d =~= config_dir + "/nono/packages"@ + seq!['/'] + namespace + seq!['/'] + name);
    assert(d.last() == name.last());
    assert(name_char(name[name.len() - 1]));
    assert(d + "/"@ + "groups.json"@ =~= d + "/groups.json"@);
}

} // verus!
