use vstd::prelude::*;

verus! {

/// The structural classification of one lexical unit of HTML: a run of plain
/// text, an opening tag, a closing tag, or a self-closing tag.
#[derive(Clone, Copy, PartialEq, Eq, Structural, Debug)]
pub enum TagState {
    Text,
    Opening,
    Closing,
    SelfClosing,
}

/// One event of the tokenized HTML stream: its classification, the tag name
/// (empty for text runs), the literal source slice, and the raw attribute
/// text of the tag (empty for text runs and closing tags).
#[derive(Debug)]
pub struct RawTag {
    pub state: TagState,
    pub name: String,
    pub html: String,
    pub attributes: String,
}

/// The mathematical model of a [`RawTag`].
pub struct RawTagModel {
    pub state: TagState,
    pub name: Seq<char>,
    pub html: Seq<char>,
    pub attributes: Seq<char>,
}

impl View for RawTag {
    type V = RawTagModel;

    open spec fn view(&self) -> RawTagModel {
        RawTagModel {
            state: self.state,
            name: self.name@,
            html: self.html@,
            attributes: self.attributes@,
        }
    }
}

/// One attribute of a tag: a name and a (possibly empty) value.
#[derive(Debug)]
pub struct Attr {
    pub name: String,
    pub value: String,
}

/// The mathematical model of an [`Attr`].
pub struct AttrModel {
    pub name: Seq<char>,
    pub value: Seq<char>,
}

impl View for Attr {
    type V = AttrModel;

    open spec fn view(&self) -> AttrModel {
        AttrModel { name: self.name@, value: self.value@ }
    }
}

} // verus!
