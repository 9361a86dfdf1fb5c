use vstd::prelude::*;
use vstd::string::StringExecFns;
use crate::escape::{escape_seq, escape_text, lemma_escape_seq_no_brackets};
use crate::events::{RawTag, RawTagModel, TagState};
use crate::render::{
    attrs_render, closing_tag_render, names_set, open_tag_render, render_attrs,
    self_closing_tag_render,
};
use crate::tokenizer::{attrs_of, parse_attrs, tokenize, tokens_of};

verus! {

/// One registered whitelist entry: a tag name and the attribute names
/// permitted on that tag.
pub struct WhitelistEntry {
    pub tag: String,
    pub attrs: Vec<String>,
}

/// The set of attribute names that a sequence of borrowed strings stands
/// for.
pub open spec fn str_names_set(names: Seq<&str>) -> Set<Seq<char>> {
    names.map_values(|s: &str| s@).to_set()
}

/// The whitelist that a sequence of registrations stands for: a map from
/// permitted tag name to its permitted attribute-name set, where a later
/// registration of the same tag replaces the earlier one.
pub open spec fn entries_map(entries: Seq<WhitelistEntry>) -> Map<Seq<char>, Set<Seq<char>>>
    decreases entries.len(),
{
    if entries.len() == 0 {
        Map::empty()
    } else {
        entries_map(entries.drop_last()).insert(
            entries.last().tag@,
            names_set(entries.last().attrs@),
        )
    }
}

/// A whitelist-driven HTML sanitizer: only registered tag/attribute
/// combinations survive unescaped, everything else is neutralized by
/// HTML-entity escaping.
pub struct XSSDetect {
    permitted_tags: Vec<WhitelistEntry>,
}

impl View for XSSDetect {
    type V = Map<Seq<char>, Set<Seq<char>>>;

    closed spec fn view(&self) -> Map<Seq<char>, Set<Seq<char>>> {
        entries_map(self.permitted_tags@)
    }
}

/// How one tokenizer event is rewritten, given the parsed attribute list of
/// the tag: text passes through verbatim; a tag whose name is not permitted
/// is escaped whole; a permitted tag is re-serialized from its structured
/// form with only permitted attributes kept.
pub open spec fn rendered_tag(
    wl: Map<Seq<char>, Set<Seq<char>>>,
    t: RawTagModel,
    attrs: Seq<crate::events::AttrModel>,
) -> Seq<char> {
    match t.state {
        TagState::Text => t.html,
        TagState::Opening => {
            if !wl.contains_key(t.name) {
                escape_seq(t.html)
            } else {
                open_tag_render(t.name, attrs_render(attrs, wl[t.name]))
            }
        },
        TagState::Closing => {
            if !wl.contains_key(t.name) {
                escape_seq(t.html)
            } else {
                closing_tag_render(t.name)
            }
        },
        TagState::SelfClosing => {
            if !wl.contains_key(t.name) {
                escape_seq(t.html)
            } else {
                self_closing_tag_render(t.name, attrs_render(attrs, wl[t.name]))
            }
        },
    }
}

/// How one tokenizer event is rewritten, with the tag's raw attribute text
/// parsed by the external attribute parser.
pub open spec fn rewrite_tag(wl: Map<Seq<char>, Set<Seq<char>>>, t: RawTagModel) -> Seq<char> {
    rendered_tag(wl, t, attrs_of(t.attributes))
}

/// The sanitized output for a whole event stream: the per-event rewritings,
/// concatenated in stream order.
pub open spec fn sanitize_tokens(
    wl: Map<Seq<char>, Set<Seq<char>>>,
    toks: Seq<RawTagModel>,
) -> Seq<char>
    decreases toks.len(),
{
    if toks.len() == 0 {
        Seq::empty()
    } else {
        sanitize_tokens(wl, toks.drop_last()) + rewrite_tag(wl, toks.last())
    }
}

impl XSSDetect {
    /// Constructs a sanitizer with an empty whitelist, which escapes every
    /// tag.
    pub fn new() -> (r: XSSDetect)
        ensures
            r@ == Map::<Seq<char>, Set<Seq<char>>>::empty(),
    {
        XSSDetect { permitted_tags: Vec::new() }
    }

    /// Registers (or replaces) the permitted attribute-name set for a tag.
    /// An empty attribute list is legal and means the tag is allowed with
    /// no attributes passing through.
    pub fn permit_html_tag(&mut self, name: &str, attrs: Vec<&str>)
        ensures
            final(self)@ == old(self)@.insert(name@, str_names_set(attrs@)),
    {
        let mut owned: Vec<String> = Vec::new();
        let n = attrs.len();
        let mut i: usize = 0;
        while i < n
            invariant
                i <= n,
                n == attrs.len(),
                owned@.map_values(|s: String| s@) == attrs@.map_values(|s: &str| s@).take(i as int),
            decreases n - i,
        {
            let ghost prev = owned@;
            owned.push(String::from_str(attrs[i]));
            proof {
                assert(prev.map_values(|s: String| s@).len() == prev.len());
                assert(prev.len() == i);
                let lhs = owned@.map_values(|s: String| s@);
                let rhs = attrs@.map_values(|s: &str| s@).take(i + 1);
                assert forall|k: int| 0 <= k < lhs.len() implies lhs[k] == rhs[k] by {
                    if k < i {
                        assert(owned@[k] == prev[k]);
                        assert(prev.map_values(|s: String| s@)[k] == attrs@.map_values(
                            |s: &str| s@,
                        ).take(i as int)[k]);
                    } else {
                        assert(owned@[k]@ == attrs@[i as int]@);
                    }
                }
                assert(lhs =~= rhs);
            }
            i = i + 1;
        }
        proof {
            assert(attrs@.map_values(|s: &str| s@).take(n as int) =~= attrs@.map_values(
                |s: &str| s@,
            ));
        }
        let entry = WhitelistEntry { tag: String::from_str(name), attrs: owned };
        self.permitted_tags.push(entry);
        proof {
            assert(self.permitted_tags@.drop_last() =~= old(self).permitted_tags@);
        }
    }

    /// Registers the minimal safe baseline: anchor tags with `href` and
    /// `title`.
    pub fn load_default_white_list(&mut self)
        ensures
            final(self)@ == old(self)@.insert("a"@, set!["href"@, "title"@]),
    {
        let mut attrs: Vec<&str> = Vec::new();
        attrs.push("href");
        attrs.push("title");
        let ghost av = attrs@;
        self.permit_html_tag("a", attrs);
        proof {
            let m = av.map_values(|s: &str| s@);
            assert(m.len() == 2 && m[0] == "href"@ && m[1] == "title"@);
            assert forall|x: Seq<char>| m.to_set().contains(x) implies set![
                "href"@,
                "title"@,
            ].contains(x) by {
                let k = choose|k: int| 0 <= k < m.len() && m[k] == x;
                assert(k == 0 || k == 1);
            }
            assert(m.contains("href"@)) by {
                assert(m[0] == "href"@);
            }
            assert(m.contains("title"@)) by {
                assert(m[1] == "title"@);
            }
            assert(str_names_set(av) =~= set!["href"@, "title"@]);
        }
    }

    /// Looks a tag name up in the whitelist, returning its permitted
    /// attribute names when the tag is registered.
    fn find_entry(&self, name: &String) -> (r: Option<&Vec<String>>)
        ensures
            match r {
                Some(v) => self@.contains_key(name@) && names_set(v@) == self@[name@],
                None => !self@.contains_key(name@),
            },
    {
        let ghost es = self.permitted_tags@;
        let n = self.permitted_tags.len();
        let mut found: Option<usize> = None;
        let mut i: usize = 0;
        while i < n
            invariant
                i <= n,
                n == self.permitted_tags.len(),
                es == self.permitted_tags@,
                match found {
                    Some(j) => j < i && entries_map(es.take(i as int)).contains_key(name@)
                        && entries_map(es.take(i as int))[name@] == names_set(
                        es[j as int].attrs@,
                    ),
                    None => !entries_map(es.take(i as int)).contains_key(name@),
                },
            decreases n - i,
        {
            if self.permitted_tags[i].tag.eq(name) {
                found = Some(i);
            }
            proof {
                assert(es.take(i + 1).drop_last() =~= es.take(i as int));
                assert(es.take(i + 1).last() == es[i as int]);
            }
            i = i + 1;
        }
        proof {
            assert(es.take(n as int) =~= es);
        }
        match found {
            Some(j) => Some(&self.permitted_tags[j].attrs),
            None => None,
        }
    }

    /// Whether a tag name is permitted by the whitelist.
    pub fn is_tag_permitted(&self, name: &str) -> (r: bool)
        ensures
            r == self@.contains_key(name@),
    {
        let key = String::from_str(name);
        match self.find_entry(&key) {
            Some(_) => true,
            None => false,
        }
    }

    /// Whether an attribute name is permitted on a tag; false whenever the
    /// tag itself is not permitted.
    pub fn is_attribute_permitted(&self, tag: &str, attr: &str) -> (r: bool)
        ensures
            r == (self@.contains_key(tag@) && self@[tag@].contains(attr@)),
    {
        let key = String::from_str(tag);
        match self.find_entry(&key) {
            Some(allowed) => crate::render::contains_name(allowed, &String::from_str(attr)),
            None => false,
        }
    }

    /// Replaces every `<` with `&lt;` and every `>` with `&gt;`.
    pub fn escape(&self, html: &str) -> (r: String)
        ensures
            r@ == escape_seq(html@),
    {
        escape_text(html)
    }

    /// Rewrites one tokenizer event: text passes through, a permitted tag
    /// is re-serialized with only its permitted attributes, any other tag
    /// is escaped whole.
    pub fn rewrite_event(&self, t: &RawTag) -> (r: String)
        ensures
            r@ == rewrite_tag(self@, t@),
    {
        match t.state {
            TagState::Text => t.html.clone(),
            TagState::Closing => {
                match self.find_entry(&t.name) {
                    None => escape_text(t.html.as_str()),
                    Some(_) => {
                        let mut r = String::new();
                        r.append("</");
                        r.append(t.name.as_str());
                        r.append(">");
                        proof {
                            assert(r@ =~= closing_tag_render(t.name@));
                        }
                        r
                    },
                }
            },
            TagState::Opening | TagState::SelfClosing => {
                match self.find_entry(&t.name) {
                    None => escape_text(t.html.as_str()),
                    Some(allowed) => {
                        let parsed = parse_attrs(t.attributes.as_str());
                        let attrs_str = render_attrs(&parsed, allowed);
                        let mut r = String::new();
                        r.append("<");
                        r.append(t.name.as_str());
                        r.append(" ");
                        r.append(attrs_str.as_str());
                        let self_closing = match t.state {
                            TagState::SelfClosing => true,
                            _ => false,
                        };
                        if self_closing {
                            r.append("/>");
                            proof {
                                assert(r@ =~= self_closing_tag_render(t.name@, attrs_str@));
                            }
                        } else {
                            r.append(">");
                            proof {
                                assert(r@ =~= open_tag_render(t.name@, attrs_str@));
                            }
                        }
                        r
                    },
                }
            },
        }
    }

    /// Rewrites a whole event stream, concatenating the per-event
    /// rewritings in stream order.
    pub fn rewrite_events(&self, events: &Vec<RawTag>) -> (r: String)
        ensures
            r@ == sanitize_tokens(self@, events@.map_values(|t: RawTag| t@)),
    {
        let ghost tv = events@.map_values(|t: RawTag| t@);
        let n = events.len();
        let mut r = String::new();
        let mut i: usize = 0;
        while i < n
            invariant
                i <= n,
                n == events.len(),
                tv == events@.map_values(|t: RawTag| t@),
                r@ == sanitize_tokens(self@, tv.take(i as int)),
            decreases n - i,
        {
            let piece = self.rewrite_event(&events[i]);
            r.append(piece.as_str());
            proof {
                assert(tv.take(i + 1).drop_last() =~= tv.take(i as int));
                assert(tv.take(i + 1).last() == tv[i as int]);
                assert(tv[i as int] == events@[i as int]@);
            }
            i = i + 1;
        }
        proof {
            assert(tv.take(n as int) =~= tv);
        }
        r
    }

    /// Sanitizes an HTML string: tokenizes it and rewrites every event,
    /// returning the ordered concatenation of the per-event emissions.
    pub fn sanitize_me(&self, html: &str) -> (r: String)
        ensures
            r@ == sanitize_tokens(self@, tokens_of(html@)),
    {
        let events = tokenize(html);
        self.rewrite_events(&events)
    }
}

/// Law: a tag whose name is not registered is neutralized — its rewriting
/// is exactly the entity-escaped source slice, and that slice holds no live
/// angle bracket, so the tag produces no markup in the output.
pub proof fn lemma_unknown_tag_escaped(wl: Map<Seq<char>, Set<Seq<char>>>, t: RawTagModel)
    requires
        t.state != TagState::Text,
        !wl.contains_key(t.name),
    ensures
        rewrite_tag(wl, t) == escape_seq(t.html),
        forall|i: int|
            0 <= i < rewrite_tag(wl, t).len() ==> rewrite_tag(wl, t)[i] != '<' && rewrite_tag(
                wl,
                t,
            )[i] != '>',
{
    lemma_escape_seq_no_brackets(t.html);
}

/// Law: the rewriter preserves order — the output for a stream is the
/// output for its front part followed by the output for its back part, so
/// text and tag segments appear in the output in the same relative order as
/// in the input.
pub proof fn lemma_order_preservation(
    wl: Map<Seq<char>, Set<Seq<char>>>,
    front: Seq<RawTagModel>,
    back: Seq<RawTagModel>,
)
    ensures
        sanitize_tokens(wl, front + back) == sanitize_tokens(wl, front) + sanitize_tokens(wl, back),
    decreases back.len(),
{
    if back.len() == 0 {
        assert(front + back =~= front);
        assert(sanitize_tokens(wl, front) + sanitize_tokens(wl, back) =~= sanitize_tokens(
            wl,
            front,
        ));
    } else {
        lemma_order_preservation(wl, front, back.drop_last());
        assert((front + back).drop_last() =~= front + back.drop_last());
        assert((front + back).last() == back.last());
        assert(sanitize_tokens(wl, front) + (sanitize_tokens(wl, back.drop_last()) + rewrite_tag(
            wl,
            back.last(),
        )) =~= (sanitize_tokens(wl, front) + sanitize_tokens(wl, back.drop_last())) + rewrite_tag(
            wl,
            back.last(),
        ));
    }
}

} // verus!
