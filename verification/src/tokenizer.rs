use vstd::prelude::*;
use crate::events::{Attr, AttrModel, RawTag, RawTagModel, TagState};

verus! {

/// The event stream that the external tokenizer produces for a given input
/// string. The tokenizer is a pure function of its input, so its result can
/// be named even though it is far too intricate to state here.
pub uninterp spec fn tokens_of(html: Seq<char>) -> Seq<RawTagModel>;

/// The attribute list that the external attribute parser produces for a
/// given raw attribute text. Like the tokenizer, it is a pure function of
/// its input.
pub uninterp spec fn attrs_of(attributes: Seq<char>) -> Seq<AttrModel>;

/// Relies on htmlstream::tag_iter: it splits an HTML string into an ordered
/// sequence of text runs and opening/closing/self-closing tags, each with
/// its literal source slice, tag name, and raw attribute text, computed from
/// the input string alone.
#[verifier::external_body]
pub(crate) fn tokenize(html: &str) -> (r: Vec<RawTag>)
    ensures
        r@.map_values(|t: RawTag| t@) == tokens_of(html@),
{
    htmlstream::tag_iter(html).map(|(_, t)| RawTag {
        state: match t.state {
            htmlstream::HTMLTagState::Text => TagState::Text,
            htmlstream::HTMLTagState::Opening => TagState::Opening,
            htmlstream::HTMLTagState::Closing => TagState::Closing,
            htmlstream::HTMLTagState::SelfClosing => TagState::SelfClosing,
        },
        name: t.name,
        html: t.html,
        attributes: t.attributes,
    }).collect()
}

/// Relies on htmlstream::attr_iter: it splits a tag's raw attribute text
/// into an ordered list of (name, value) pairs, computed from the input
/// string alone; an attribute written without a value gets the empty value.
#[verifier::external_body]
pub(crate) fn parse_attrs(attributes: &str) -> (r: Vec<Attr>)
    ensures
        r@.map_values(|a: Attr| a@) == attrs_of(attributes@),
{
    htmlstream::attr_iter(attributes).map(|(_, a)| Attr { name: a.name, value: a.value }).collect()
}

} // verus!
