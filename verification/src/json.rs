//! JSON values.

use crate::text::{copy_str, views};
use vstd::prelude::*;

verus! {

/// A JSON value. The members of an object keep their order.
#[derive(Debug)]
pub enum Json {
    Null,
    Bool(bool),
    Number(u64),
    Text(String),
    Array(Vec<Json>),
    Object(Vec<(String, Json)>),
}

/// A JSON value as a mathematical one.
pub enum JsonView {
    Null,
    Bool(bool),
    Number(nat),
    Text(Seq<char>),
    Array(Seq<JsonView>),
    Object(Seq<(Seq<char>, JsonView)>),
}

impl View for Json {
    type V = JsonView;

    open spec fn view(&self) -> JsonView
        decreases self,
    {
        match self {
            Json::Null => JsonView::Null,
            Json::Bool(b) => JsonView::Bool(*b),
            Json::Number(n) => JsonView::Number(*n as nat),
            Json::Text(s) => JsonView::Text(s@),
            Json::Array(a) => JsonView::Array(
                Seq::new(
                    a@.len(),
                    |i: int|
                        if 0 <= i < a@.len() {
                            a@[i].view()
                        } else {
                            JsonView::Null
                        },
                ),
            ),
            Json::Object(o) => JsonView::Object(
                Seq::new(
                    o@.len(),
                    |i: int|
                        if 0 <= i < o@.len() {
                            (o@[i].0@, o@[i].1.view())
                        } else {
                            (Seq::empty(), JsonView::Null)
                        },
                ),
            ),
        }
    }
}

/// The members of an object.
pub open spec fn members(o: Seq<(String, Json)>) -> Seq<(Seq<char>, JsonView)> {
    o.map_values(|m: (String, Json)| (m.0@, m.1@))
}

/// The elements of an array.
pub open spec fn elements(a: Seq<Json>) -> Seq<JsonView> {
    a.map_values(|j: Json| j@)
}

/// An array of texts.
pub open spec fn text_array(texts: Seq<Seq<char>>) -> JsonView {
    JsonView::Array(texts.map_values(|t: Seq<char>| JsonView::Text(t)))
}

/// An array of numbers.
pub open spec fn port_array(ports: Seq<u16>) -> JsonView {
    JsonView::Array(ports.map_values(|p: u16| JsonView::Number(p as nat)))
}

pub open spec fn opt_text(t: Option<Seq<char>>) -> JsonView {
    match t {
        Some(s) => JsonView::Text(s),
        None => JsonView::Null,
    }
}

pub open spec fn opt_bool(b: Option<bool>) -> JsonView {
    match b {
        Some(v) => JsonView::Bool(v),
        None => JsonView::Null,
    }
}

pub fn json_text(s: &str) -> (r: Json)
    ensures
        r@ == JsonView::Text(s@),
{
    Json::Text(copy_str(s))
}

pub fn json_opt_text(s: &Option<String>) -> (r: Json)
    ensures
        r@ == opt_text(crate::text::opt_view(*s)),
{
    match s {
        Some(x) => json_text(x.as_str()),
        None => Json::Null,
    }
}

pub fn json_opt_bool(b: Option<bool>) -> (r: Json)
    ensures
        r@ == opt_bool(b),
{
    match b {
        Some(v) => Json::Bool(v),
        None => Json::Null,
    }
}

pub fn json_array(a: Vec<Json>) -> (r: Json)
    ensures
        r@ == JsonView::Array(elements(a@)),
{
    let ghost e = elements(a@);
    let r = Json::Array(a);
    proof {
        reveal_with_fuel(<Json as View>::view, 2);
        assert(r@->Array_0 =~= e);
    }
    r
}

pub fn json_object(o: Vec<(String, Json)>) -> (r: Json)
    ensures
        r@ == JsonView::Object(members(o@)),
{
    let ghost m = members(o@);
    let r = Json::Object(o);
    proof {
        reveal_with_fuel(<Json as View>::view, 2);
        assert(r@->Object_0 =~= m);
    }
    r
}

/// Adds a member to an object.
pub fn put(o: &mut Vec<(String, Json)>, key: &str, value: Json)
    ensures
        members(final(o)@) == members(old(o)@).push((key@, value@)),
{
    o.push((copy_str(key), value));
    assert(members(o@) =~= members(old(o)@).push((key@, value@)));
}

/// Adds an element to an array.
pub fn add_element(a: &mut Vec<Json>, value: Json)
    ensures
        elements(final(a)@) == elements(old(a)@).push(value@),
{
    a.push(value);
    assert(elements(a@) =~= elements(old(a)@).push(value@));
}

pub fn json_texts(texts: &Vec<String>) -> (r: Json)
    ensures
        r@ == text_array(views(texts@)),
{
    let mut a: Vec<Json> = Vec::new();
    let ghost all = views(texts@).map_values(|t: Seq<char>| JsonView::Text(t));
    let mut i: usize = 0;
    while i < texts.len()
        invariant
            i <= texts@.len(),
            all == views(texts@).map_values(|t: Seq<char>| JsonView::Text(t)),
            elements(a@) == all.take(i as int),
        decreases texts@.len() - i,
    {
        add_element(&mut a, json_text(texts[i].as_str()));
        i += 1;
        assert(all.take(i as int) =~= all.take(i - 1).push(all[i - 1]));
    }
    assert(all.take(i as int) =~= all);
    json_array(a)
}

pub fn json_ports(ports: &Vec<u16>) -> (r: Json)
    ensures
        r@ == port_array(ports@),
{
    let mut a: Vec<Json> = Vec::new();
    let ghost all = ports@.map_values(|p: u16| JsonView::Number(p as nat));
    let mut i: usize = 0;
    while i < ports.len()
        invariant
            i <= ports@.len(),
            all == ports@.map_values(|p: u16| JsonView::Number(p as nat)),
            elements(a@) == all.take(i as int),
        decreases ports@.len() - i,
    {
        add_element(&mut a, Json::Number(ports[i] as u64));
        i += 1;
        assert(all.take(i as int) =~= all.take(i - 1).push(all[i - 1]));
    }
    assert(all.take(i as int) =~= all);
    json_array(a)
}

/// An object of two members.
pub open spec fn pair_object(k1: Seq<char>, v1: JsonView, k2: Seq<char>, v2: JsonView) -> JsonView {
    JsonView::Object(seq![(k1, v1), (k2, v2)])
}

pub fn json_pair(k1: &str, v1: Json, k2: &str, v2: Json) -> (r: Json)
    ensures
        r@ == pair_object(k1@, v1@, k2@, v2@),
{
    let mut o: Vec<(String, Json)> = Vec::new();
    put(&mut o, k1, v1);
    put(&mut o, k2, v2);
    assert(members(o@) =~= seq![(k1@, v1@), (k2@, v2@)]);
    json_object(o)
}

/// Both sides of a comparison and whether they differ.
pub open spec fn change_object(a: JsonView, b: JsonView, changed: bool) -> JsonView {
    JsonView::Object(
        seq![("profile1"@, a), ("profile2"@, b), ("changed"@, JsonView::Bool(changed))],
    )
}

pub fn json_change(a: Json, b: Json, changed: bool) -> (r: Json)
    ensures
        r@ == change_object(a@, b@, changed),
{
    let mut o: Vec<(String, Json)> = Vec::new();
    put(&mut o, "profile1", a);
    put(&mut o, "profile2", b);
    put(&mut o, "changed", Json::Bool(changed));
    assert(members(o@) =~= seq![
        ("profile1"@, a@),
        ("profile2"@, b@),
        ("changed"@, JsonView::Bool(changed)),
    ]);
    json_object(o)
}

/// An object without members, to be filled.
pub fn no_members() -> (r: Vec<(String, Json)>)
    ensures
        members(r@) == Seq::<(Seq<char>, JsonView)>::empty(),
{
    let r: Vec<(String, Json)> = Vec::new();
    assert(members(r@) =~= Seq::<(Seq<char>, JsonView)>::empty());
    r
}

/// An object has a member with this key and value.
pub open spec fn has_member(v: JsonView, key: Seq<char>, value: JsonView) -> bool {
    v is Object && v->Object_0.contains((key, value))
}

/// An object has a member with this key.
pub open spec fn has_label(v: JsonView, key: Seq<char>) -> bool {
    v is Object && exists|i: int| 0 <= i < v->Object_0.len() && (#[trigger] v->Object_0[i]).0 == key
}

/// An optional member more has its key and value where it is wanted.
pub proof fn lemma_one_more(
    front: Seq<(Seq<char>, JsonView)>,
    wanted: bool,
    key: Seq<char>,
    value: JsonView,
)
    ensures
        forall|m: (Seq<char>, JsonView)| #[trigger]
            (front + field_if(wanted, key, value)).contains(m) <==> front.contains(m) || (wanted && m
                == (key, value)),
        field(key, value) == field_if(true, key, value),
{
    let last = field_if(wanted, key, value);
    let all = front + last;
    assert forall|m: (Seq<char>, JsonView)| #[trigger] all.contains(m) <==> front.contains(m) || (
    wanted && m == (key, value)) by {
        if front.contains(m) {
            let i = choose|i: int| 0 <= i < front.len() && front[i] == m;
            assert(all[i] == m);
        }
        if wanted && m == (key, value) {
            assert(all[front.len() as int] == m);
        }
        if all.contains(m) {
            let i = choose|i: int| 0 <= i < all.len() && all[i] == m;
            if i < front.len() {
                assert(front[i] == m);
            } else {
                assert(last[i - front.len()] == m);
            }
        }
    }
}

/// Every label of an object belongs to a member.
pub proof fn lemma_labels(v: JsonView, key: Seq<char>)
    requires
        v is Object,
    ensures
        has_label(v, key) <==> exists|x: JsonView| #[trigger] has_member(v, key, x),
{
    let o = v->Object_0;
    if has_label(v, key) {
        let i = choose|i: int| 0 <= i < o.len() && (#[trigger] o[i]).0 == key;
        assert(o[i] == (key, o[i].1));
        assert(has_member(v, key, o[i].1));
    }
    if exists|x: JsonView| #[trigger] has_member(v, key, x) {
        let x = choose|x: JsonView| #[trigger] has_member(v, key, x);
        let i = choose|i: int| 0 <= i < o.len() && o[i] == (key, x);
        assert(o[i].0 == key);
    }
}

/// One member.
pub open spec fn field(key: Seq<char>, value: JsonView) -> Seq<(Seq<char>, JsonView)> {
    seq![(key, value)]
}

/// One member, where it is wanted.
pub open spec fn field_if(wanted: bool, key: Seq<char>, value: JsonView) -> Seq<
    (Seq<char>, JsonView),
> {
    if wanted {
        field(key, value)
    } else {
        Seq::empty()
    }
}

pub fn put_field(o: &mut Vec<(String, Json)>, key: &str, value: Json)
    ensures
        members(final(o)@) == members(old(o)@) + field(key@, value@),
{
    put(o, key, value);
    assert(members(o@) =~= members(old(o)@) + field(key@, value@));
}

pub fn put_field_if(o: &mut Vec<(String, Json)>, wanted: bool, key: &str, value: Json)
    ensures
        members(final(o)@) == members(old(o)@) + field_if(wanted, key@, value@),
{
    if wanted {
        put(o, key, value);
    }
    assert(members(o@) =~= members(old(o)@) + field_if(wanted, key@, value@));
}

/// The same value once more.
pub fn copy_json(j: &Json) -> (r: Json)
    ensures
        r@ == j@,
    decreases j,
{
    match j {
        Json::Null => Json::Null,
        Json::Bool(b) => Json::Bool(*b),
        Json::Number(n) => Json::Number(*n),
        Json::Text(s) => json_text(s.as_str()),
        Json::Array(a) => {
            let mut v: Vec<Json> = Vec::new();
            let mut i: usize = 0;
            while i < a.len()
                invariant
                    i <= a@.len(),
                    v@.len() == i,
                    *j == Json::Array(*a),
                    forall|k: int| 0 <= k < i ==> (#[trigger] v@[k])@ == a@[k]@,
                decreases a@.len() - i,
            {
                proof {
                    broadcast use vstd::std_specs::vec::axiom_vec_index_decreases;

                    assert(decreases_to!(*j => j->Array_0));
                    assert(decreases_to!(j->Array_0 => a[i as int]));
                }
                v.push(copy_json(&a[i]));
                i += 1;
            }
            assert(elements(v@) =~= elements(a@));
            let r = json_array(v);
            proof {
                reveal_with_fuel(<Json as View>::view, 2);
                assert(j@->Array_0 =~= elements(a@));
            }
            r
        },
        Json::Object(o) => {
            let mut v: Vec<(String, Json)> = Vec::new();
            let mut i: usize = 0;
            while i < o.len()
                invariant
                    i <= o@.len(),
                    v@.len() == i,
                    *j == Json::Object(*o),
                    forall|k: int|
                        0 <= k < i ==> (#[trigger] v@[k]).0@ == o@[k].0@ && v@[k].1@ == o@[k].1@,
                decreases o@.len() - i,
            {
                proof {
                    broadcast use vstd::std_specs::vec::axiom_vec_index_decreases;

                    assert(decreases_to!(*j => j->Object_0));
                    assert(decreases_to!(j->Object_0 => o[i as int]));
                    assert(decreases_to!(o[i as int] => o[i as int].1));
                }
                v.push((copy_str(o[i].0.as_str()), copy_json(&o[i].1)));
                i += 1;
            }
            assert(members(v@) =~= members(o@));
            let r = json_object(v);
            proof {
                reveal_with_fuel(<Json as View>::view, 2);
                assert(j@->Object_0 =~= members(o@));
            }
            r
        },
    }
}

} // verus!
