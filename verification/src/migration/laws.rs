//! Which pack is offered for a profile that is not here.

use crate::migration::{
    chosen_provider, is_truthy, known_rows, names_hook_pack, official_provider, official_rows,
    path_or_ref, AgentNames, OfficialPack,
};
use crate::package::ProfileProvider;
use crate::text::laws::law_parts_of_texts;
use vstd::prelude::*;

verus! {

/// An official pack is the first that is listed for a profile.
pub open spec fn is_first_for(packs: Seq<OfficialPack>, name: Seq<char>, i: int) -> bool {
    &&& 0 <= i < packs.len()
    &&& packs[i].profile_name@ == name
    &&& forall|k: int| 0 <= k < i ==> (#[trigger] packs[k]).profile_name@ != name
}

proof fn lemma_first(packs: Seq<OfficialPack>, name: Seq<char>)
    ensures
        match official_provider(packs, name) {
            Some(p) => exists|i: int| #[trigger]
                is_first_for(packs, name, i) && p == packs[i].provider(),
            None => forall|i: int|
                0 <= i < packs.len() ==> (#[trigger] packs[i]).profile_name@ != name,
        },
    decreases packs.len(),
{
    if packs.len() > 0 {
        if packs[0].profile_name@ == name {
            assert(is_first_for(packs, name, 0));
        } else {
            let rest = packs.skip(1);
            lemma_first(rest, name);
            match official_provider(rest, name) {
                Some(p) => {
                    let i = choose|i: int| #[trigger]
                        is_first_for(rest, name, i) && p == rest[i].provider();
                    assert forall|k: int| 0 <= k < i + 1 implies (
                    #[trigger] packs[k]).profile_name@ != name by {
                        if k > 0 {
                            assert(rest[k - 1] == packs[k]);
                        }
                    }
                    assert(rest[i] == packs[i + 1]);
                    assert(is_first_for(packs, name, i + 1));
                },
                None => {
                    assert forall|i: int| 0 <= i < packs.len() implies (
                    #[trigger] packs[i]).profile_name@ != name by {
                        if i > 0 {
                            assert(rest[i - 1] == packs[i]);
                        }
                    }
                },
            }
        }
    }
}

/// The pack that is offered is the official one that is listed first for the profile, and where there
/// is none, the first that the registry names.
pub proof fn law_offered_packs(
    packs: Seq<OfficialPack>,
    name: Seq<char>,
    found: Option<Vec<ProfileProvider>>,
)
    ensures
        ({
            let listed = exists|i: int| 0 <= i < packs.len() && (#[trigger] packs[i]).profile_name@ == name;
            let c = chosen_provider(packs, name, found);
            &&& listed ==> exists|i: int| #[trigger]
                is_first_for(packs, name, i) && c is Some && (c->0).namespace
                    == packs[i].namespace@ && (c->0).name == packs[i].pack_name@
            &&& !listed && found is Some && (found->0)@.len() > 0 ==> c is Some && (c->0).namespace
                == (found->0)@[0].namespace@ && (c->0).name == (found->0)@[0].name@
            &&& !listed && (found is None || (found->0)@.len() == 0) ==> c is None
        }),
{
    lemma_first(packs, name);
}

/// A name with a slash, or one that ends in `.json`, is a path or a reference; any other is not.
pub proof fn law_paths_and_references(name: Seq<char>)
    ensures
        path_or_ref(name) <==> (exists|i: int| 0 <= i < name.len() && name[i] == '/') || (exists|
            a: Seq<char>,
        |
            name == #[trigger] (a + ".json"@)),
{
    law_parts_of_texts(name, ".json"@);
    if name.contains('/') {
        let i = choose|i: int| 0 <= i < name.len() && name[i] == '/';
        assert(name[i] == '/');
    }
}

/// Three words mean yes, and nothing else does.
pub proof fn law_words_for_yes(value: Option<Seq<char>>)
    ensures
        is_truthy(value) <==> value is Some && (value->0 == "1"@ || value->0 == "true"@ || value->0
            == "yes"@),
{
}

/// The official packs are the agent's, under two names, and that for Codex.
pub proof fn law_official_table(packs: Seq<OfficialPack>, pack: Seq<char>, product: Seq<char>)
    requires
        official_rows(packs) == known_rows(pack, product),
    ensures
        packs.len() == 3,
        packs[0].profile_name@ == pack && packs[0].pack_name@ == pack,
        packs[1].profile_name@ == pack + "-code"@ && packs[1].pack_name@ == pack,
        packs[2].profile_name@ == "codex"@ && packs[2].pack_name@ == "codex"@,
        forall|i: int| 0 <= i < 3 ==> (#[trigger] packs[i]).namespace@ == "always-further"@,
{
    let rows = official_rows(packs);
    assert(rows.len() == packs.len());
    assert forall|i: int| 0 <= i < packs.len() implies rows[i].profile_name == (
    #[trigger] packs[i]).profile_name@ && rows[i].provider == packs[i].provider() by {}
    assert(rows[0].provider == packs[0].provider());
    assert(rows[1].provider == packs[1].provider());
    assert(rows[2].provider == packs[2].provider());
}

/// Only the agent's official pack is followed by the offer to clean up.
pub proof fn law_cleanup_is_for_one_pack(agent: AgentNames, namespace: Seq<char>, name: Seq<char>)
    ensures
        names_hook_pack(agent, namespace, name) <==> namespace == "always-further"@ && name
            == agent.pack@,
{
}

/// The question whether a pack is to be installed names the pack, the profile and the publisher, and
/// is left open for the answer at its end.
pub proof fn law_questions_about_packs(name: Seq<char>, p: crate::migration::ProviderView)
    ensures
        ({
            let l = crate::migration::confirm_lines(name, p);
            &&& l[1][3].1 == p.namespace + "/"@ + p.name
            &&& l[3][1].1 == name
            &&& l[5][3].1 == p.namespace + " GitHub organisation"@
            &&& p.installs_summary is Some ==> l[7][3].1 == p.installs_summary->0
            &&& l.last()[0].1 == "  Continue? [Y/n] "@
        }),
{
}

} // verus!
