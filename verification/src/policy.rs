//! The groups of rules that profiles name.

use crate::assoc::{find_key, has_key, lookup};
use crate::text::{lemma_filter_step, push_copy, views};
use vstd::prelude::*;

verus! {

/// What a group opens.
#[derive(Debug)]
pub struct AllowOps {
    pub read: Vec<String>,
    pub write: Vec<String>,
    pub readwrite: Vec<String>,
}

/// What a group forbids.
#[derive(Debug)]
pub struct DenyOps {
    pub access: Vec<String>,
    pub unlink: bool,
    pub commands: Vec<String>,
}

/// A named group of rules. `applies_here` says whether it is meant for the platform at hand.
#[derive(Debug)]
pub struct Group {
    pub description: String,
    pub platform: Option<String>,
    pub applies_here: bool,
    pub required: bool,
    pub allow: Option<AllowOps>,
    pub deny: Option<DenyOps>,
    pub symlink_pairs: Option<Vec<(String, String)>>,
}

/// The names that no group has.
pub open spec fn unknown_groups(names: Seq<Seq<char>>, groups: Seq<(String, Group)>) -> Seq<
    Seq<char>,
> {
    names.filter(|n: Seq<char>| !has_key(groups, n))
}

/// The names of groups that cannot be left out.
pub open spec fn required_groups(names: Seq<Seq<char>>, groups: Seq<(String, Group)>) -> Seq<
    Seq<char>,
> {
    names.filter(|n: Seq<char>| has_key(groups, n) && (lookup(groups, n)->0).required)
}

pub fn list_unknown_groups(names: &Vec<String>, groups: &Vec<(String, Group)>) -> (r: Vec<String>)
    ensures
        views(r@) == unknown_groups(views(names@), groups@),
{
    let ghost keep = |n: Seq<char>| !has_key(groups@, n);
    let mut r: Vec<String> = Vec::new();
    let mut i: usize = 0;
    assert(views(r@) =~= views(names@).take(0).filter(keep));
    while i < names.len()
        invariant
            i <= names@.len(),
            keep == (|n: Seq<char>| !has_key(groups@, n)),
            views(r@) == views(names@).take(i as int).filter(keep),
        decreases names@.len() - i,
    {
        proof {
            lemma_filter_step(views(names@), i as int, keep);
            assert(views(names@)[i as int] == names@[i as int]@);
        }
        if find_key(groups, names[i].as_str()).is_none() {
            push_copy(&mut r, names[i].as_str());
        }
        i += 1;
    }
    assert(views(names@).take(i as int) =~= views(names@));
    r
}

pub fn list_required_groups(names: &Vec<String>, groups: &Vec<(String, Group)>) -> (r: Vec<String>)
    ensures
        views(r@) == required_groups(views(names@), groups@),
{
    let ghost keep = |n: Seq<char>| has_key(groups@, n) && (lookup(groups@, n)->0).required;
    let mut r: Vec<String> = Vec::new();
    let mut i: usize = 0;
    assert(views(r@) =~= views(names@).take(0).filter(keep));
    while i < names.len()
        invariant
            i <= names@.len(),
            keep == (|n: Seq<char>| has_key(groups@, n) && (lookup(groups@, n)->0).required),
            views(r@) == views(names@).take(i as int).filter(keep),
        decreases names@.len() - i,
    {
        proof {
            lemma_filter_step(views(names@), i as int, keep);
            assert(views(names@)[i as int] == names@[i as int]@);
        }
        if let Some(k) = find_key(groups, names[i].as_str()) {
            if groups[k].1.required {
                push_copy(&mut r, names[i].as_str());
            }
        }
        i += 1;
    }
    assert(views(names@).take(i as int) =~= views(names@));
    r
}

} // verus!
