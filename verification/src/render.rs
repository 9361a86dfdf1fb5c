use vstd::prelude::*;
use crate::events::{Attr, AttrModel};

verus! {

/// The set of attribute names that a sequence of owned strings stands for.
pub open spec fn names_set(names: Seq<String>) -> Set<Seq<char>> {
    names.map_values(|s: String| s@).to_set()
}

/// Whether an attribute's name is in the permitted set.
pub open spec fn attr_allowed(a: AttrModel, allowed: Set<Seq<char>>) -> bool {
    allowed.contains(a.name)
}

/// What one permitted attribute contributes to the serialized attribute
/// text: the bare name when its value is empty, else `name="value"` with a
/// trailing separating space.
pub open spec fn attr_render(a: AttrModel) -> Seq<char> {
    if a.value.len() == 0 {
        a.name
    } else {
        a.name + "=\""@ + a.value + "\" "@
    }
}

/// The serialized attribute text of a whole attribute list: permitted
/// attributes contribute in their original order, the rest contribute
/// nothing.
pub open spec fn attrs_render(attrs: Seq<AttrModel>, allowed: Set<Seq<char>>) -> Seq<char>
    decreases attrs.len(),
{
    if attrs.len() == 0 {
        Seq::empty()
    } else {
        attrs_render(attrs.drop_last(), allowed) + (if attr_allowed(attrs.last(), allowed) {
            attr_render(attrs.last())
        } else {
            Seq::empty()
        })
    }
}

/// The serialization of a permitted opening tag.
pub open spec fn open_tag_render(name: Seq<char>, attrs: Seq<char>) -> Seq<char> {
    "<"@ + name + " "@ + attrs + ">"@
}

/// The serialization of a permitted closing tag; attributes are meaningless
/// on a closing tag and take no part in it.
pub open spec fn closing_tag_render(name: Seq<char>) -> Seq<char> {
    "</"@ + name + ">"@
}

/// The serialization of a permitted self-closing tag.
pub open spec fn self_closing_tag_render(name: Seq<char>, attrs: Seq<char>) -> Seq<char> {
    "<"@ + name + " "@ + attrs + "/>"@
}

/// Whether `name` is one of the strings in `allowed`.
pub fn contains_name(allowed: &Vec<String>, name: &String) -> (r: bool)
    ensures
        r == names_set(allowed@).contains(name@),
{
    let ghost m = allowed@.map_values(|s: String| s@);
    let n = allowed.len();
    let mut i: usize = 0;
    while i < n
        invariant
            i <= n,
            n == allowed.len(),
            m == allowed@.map_values(|s: String| s@),
            forall|j: int| 0 <= j < i ==> m[j] != name@,
        decreases n - i,
    {
        if allowed[i].eq(name) {
            proof {
                assert(m[i as int] == name@);
                assert(m.contains(name@));
            }
            return true;
        }
        i = i + 1;
    }
    proof {
        assert forall|j: int| 0 <= j < m.len() implies m[j] != name@ by {}
        assert(!m.contains(name@));
    }
    false
}

/// Serializes the permitted attributes of a parsed attribute list, in their
/// original order, dropping every attribute whose name is not permitted.
pub fn render_attrs(attrs: &Vec<Attr>, allowed: &Vec<String>) -> (r: String)
    ensures
        r@ == attrs_render(attrs@.map_values(|a: Attr| a@), names_set(allowed@)),
{
    let ghost am = attrs@.map_values(|a: Attr| a@);
    let ghost aset = names_set(allowed@);
    let n = attrs.len();
    let mut r = String::new();
    let mut i: usize = 0;
    while i < n
        invariant
            i <= n,
            n == attrs.len(),
            am == attrs@.map_values(|a: Attr| a@),
            aset == names_set(allowed@),
            r@ == attrs_render(am.take(i as int), aset),
        decreases n - i,
    {
        let ghost r_before = r@;
        let a = &attrs[i];
        if contains_name(allowed, &a.name) {
            if a.value.as_str().is_empty() {
                r.append(a.name.as_str());
            } else {
                r.append(a.name.as_str());
                r.append("=\"");
                r.append(a.value.as_str());
                r.append("\" ");
            }
        }
        proof {
            assert(am.take(i + 1).drop_last() =~= am.take(i as int));
            assert(am.take(i + 1).last() == am[i as int]);
            assert(am[i as int] == attrs@[i as int]@);
            if attr_allowed(am[i as int], aset) {
                assert(r@ =~= r_before + attr_render(am[i as int]));
            } else {
                assert(r@ =~= r_before + Seq::<char>::empty());
            }
        }
        i = i + 1;
    }
    proof {
        assert(am.take(n as int) =~= am);
    }
    r
}

/// The serialization of a whole attribute list with every attribute kept.
pub open spec fn all_attrs_render(attrs: Seq<AttrModel>) -> Seq<char>
    decreases attrs.len(),
{
    if attrs.len() == 0 {
        Seq::empty()
    } else {
        all_attrs_render(attrs.drop_last()) + attr_render(attrs.last())
    }
}

/// Law: the serialized attribute text is exactly the renderings of the
/// permitted attributes, in their original order — an attribute outside the
/// permitted set contributes nothing, and dropping the non-permitted ones
/// beforehand changes nothing.
pub proof fn lemma_attribute_filtering(attrs: Seq<AttrModel>, allowed: Set<Seq<char>>)
    ensures
        attrs_render(attrs, allowed) == attrs_render(
            attrs.filter(|a: AttrModel| attr_allowed(a, allowed)),
            allowed,
        ),
        attrs_render(attrs, allowed) == all_attrs_render(
            attrs.filter(|a: AttrModel| attr_allowed(a, allowed)),
        ),
    decreases attrs.len(),
{
    reveal(Seq::filter);
    let p = |a: AttrModel| attr_allowed(a, allowed);
    if attrs.len() > 0 {
        lemma_attribute_filtering(attrs.drop_last(), allowed);
        let f = attrs.drop_last().filter(p);
        if p(attrs.last()) {
            assert(attrs.filter(p) == f.push(attrs.last()));
            assert(f.push(attrs.last()).drop_last() =~= f);
            assert(f.push(attrs.last()).last() == attrs.last());
        } else {
            assert(attrs.filter(p) == f);
            assert(attrs_render(attrs.drop_last(), allowed) + Seq::<char>::empty()
                =~= attrs_render(attrs.drop_last(), allowed));
        }
    }
}

/// Law: a permitted attribute with an empty value is re-emitted as the bare
/// attribute name, never as `name=""`.
pub proof fn lemma_empty_value_attr(a: AttrModel, allowed: Set<Seq<char>>)
    requires
        attr_allowed(a, allowed),
        a.value.len() == 0,
    ensures
        attrs_render(seq![a], allowed) == a.name,
{
    assert(seq![a].drop_last() =~= Seq::<AttrModel>::empty());
    assert(attrs_render(seq![a], allowed) == attrs_render(Seq::<AttrModel>::empty(), allowed)
        + attr_render(a));
    assert(attrs_render(Seq::<AttrModel>::empty(), allowed) + a.name =~= a.name);
}

} // verus!
