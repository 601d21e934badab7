//! XML documents as `quick_xml` reads them: a stream of tokens, and the
//! tree of elements that the stream spells out.
//!
//! The reader and its events are opaque to the verifier. What they hold is
//! named by the spec functions of this module, and the functions marked as
//! unverified are the only places where the library touches them. Their
//! contracts are taken on trust from `quick_xml`; the tokens, the tree and
//! all that is read off the tree are proved.

use vstd::prelude::*;
use vstd::std_specs::vec::axiom_vec_index_decreases;
use vstd::string::*;

verus! {

#[verifier::external_type_specification]
#[verifier::external_body]
#[verifier::reject_recursive_types(R)]
pub struct ExXmlReader<R>(quick_xml::Reader<R>);

#[verifier::external_type_specification]
#[verifier::external_body]
pub struct ExXmlEvent<'a>(quick_xml::events::Event<'a>);

/// A pair of texts, such as an attribute's name and value.
pub type TextPair = (Seq<char>, Seq<char>);

/// A token of an XML document, as contracts see it.
pub enum TokenView {
    /// A start tag with its name and its attributes in order; the
    /// attributes are `None` where they are not well-formed.
    Open { name: Seq<char>, attributes: Option<Seq<TextPair>> },
    /// An end tag.
    Close,
    /// Character data with its entities resolved; `None` where that fails.
    Text(Option<Seq<char>>),
    /// A CDATA section, taken literally; `None` where it cannot be decoded.
    CData(Option<Seq<char>>),
    /// A comment, a declaration, a processing instruction or a document type.
    Skipped,
    /// The end of the document.
    End,
    /// The place from which the reader could not go on.
    Broken,
}

/// A token of an XML document.
#[derive(Debug, Clone, PartialEq, Eq)]
pub enum XmlToken {
    Open { name: String, attributes: Option<Vec<(String, String)>> },
    Close,
    Text(Option<String>),
    CData(Option<String>),
    Skipped,
    End,
    Broken,
}

/// The texts of a pair of strings.
pub open spec fn pair_view(pair: (String, String)) -> TextPair {
    (pair.0@, pair.1@)
}

/// The texts of a sequence of pairs of strings.
pub open spec fn pairs_view(pairs: Seq<(String, String)>) -> Seq<TextPair> {
    pairs.map_values(|p: (String, String)| pair_view(p))
}

/// The characters of an optional string.
pub open spec fn optional_text(text: Option<String>) -> Option<Seq<char>> {
    match text {
        Some(t) => Some(t@),
        None => None,
    }
}

impl View for XmlToken {
    type V = TokenView;

    open spec fn view(&self) -> TokenView {
        match *self {
            XmlToken::Open { name, attributes } => TokenView::Open {
                name: name@,
                attributes: match attributes {
                    Some(pairs) => Some(pairs_view(pairs@)),
                    None => None,
                },
            },
            XmlToken::Close => TokenView::Close,
            XmlToken::Text(text) => TokenView::Text(optional_text(text)),
            XmlToken::CData(text) => TokenView::CData(optional_text(text)),
            XmlToken::Skipped => TokenView::Skipped,
            XmlToken::End => TokenView::End,
            XmlToken::Broken => TokenView::Broken,
        }
    }
}

/// The tokens of a sequence, as contracts see them.
pub open spec fn tokens_view(tokens: Seq<XmlToken>) -> Seq<TokenView> {
    tokens.map_values(|t: XmlToken| t@)
}

/// The kinds of token.
#[derive(Debug, Clone, Copy, PartialEq, Eq)]
pub enum TokenKind {
    Open,
    Close,
    Text,
    CData,
    Skipped,
    End,
    Broken,
}

/// The kind of a token.
pub open spec fn token_kind(token: TokenView) -> TokenKind {
    match token {
        TokenView::Open { .. } => TokenKind::Open,
        TokenView::Close => TokenKind::Close,
        TokenView::Text(_) => TokenKind::Text,
        TokenView::CData(_) => TokenKind::CData,
        TokenView::Skipped => TokenKind::Skipped,
        TokenView::End => TokenKind::End,
        TokenView::Broken => TokenKind::Broken,
    }
}

/// Whether a token ends the stream: the end of the document, or the place
/// where reading broke off.
pub open spec fn is_last_token(token: TokenView) -> bool {
    token is End || token is Broken
}

/// A stream is complete: it has a last token that ends it, and no token
/// before that one does.
pub open spec fn is_complete(tokens: Seq<TokenView>) -> bool {
    &&& tokens.len() > 0
    &&& forall|i: int|
        0 <= i < tokens.len() ==> (is_last_token(#[trigger] tokens[i]) <==> i == tokens.len() - 1)
}

/// The tokens that `quick_xml` reads from `text`, with empty elements
/// expanded into a start and an end tag and with text trimmed, up to the end
/// of the document or to the place where the reader reports an error.
pub uninterp spec fn xml_tokens(text: Seq<char>) -> Seq<TokenView>;

/// The tokens that a reader has yet to give out.
pub uninterp spec fn pending_tokens(reader: quick_xml::Reader<&[u8]>) -> Seq<TokenView>;

/// The token that an event stands for.
pub uninterp spec fn event_token(event: quick_xml::events::Event) -> TokenView;

/// `Reader::from_str`, set to expand empty elements and to trim text: a
/// reader at the start of `text`. Reading comes to an end: the tokens of a
/// text are finitely many and the last one is the end of the document or an
/// error.
#[verifier::external_body]
pub(crate) fn open_reader<'a>(text: &'a str) -> (r: quick_xml::Reader<&'a [u8]>)
    ensures
        pending_tokens(r) == xml_tokens(text@),
        is_complete(pending_tokens(r)),
{
    let mut reader = quick_xml::Reader::from_str(text);
    reader.config_mut().expand_empty_elements = true;
    reader.config_mut().trim_text(true);
    reader
}

/// `Reader::read_event`: the next event, or `None` for an error. The reader
/// moves on by one token.
#[verifier::external_body]
pub(crate) fn read_event<'a>(reader: &mut quick_xml::Reader<&'a [u8]>) -> (r: Option<
    quick_xml::events::Event<'a>,
>)
    requires
        pending_tokens(*old(reader)).len() > 0,
    ensures
        pending_tokens(*final(reader)) == pending_tokens(*old(reader)).skip(1),
        match r {
            Some(event) => event_token(event) == pending_tokens(*old(reader))[0],
            None => pending_tokens(*old(reader))[0] is Broken,
        },
{
    reader.read_event().ok()
}

/// Tells the variants of `Event` apart. A reader that expands empty
/// elements gives out no `Empty`.
#[verifier::external_body]
pub(crate) fn event_kind(event: &quick_xml::events::Event) -> (r: TokenKind)
    ensures
        r == token_kind(event_token(*event)),
{
    match event {
        quick_xml::events::Event::Start(_) => TokenKind::Open,
        quick_xml::events::Event::Empty(_) => TokenKind::Open,
        quick_xml::events::Event::End(_) => TokenKind::Close,
        quick_xml::events::Event::Text(_) => TokenKind::Text,
        quick_xml::events::Event::CData(_) => TokenKind::CData,
        quick_xml::events::Event::Eof => TokenKind::End,
        _ => TokenKind::Skipped,
    }
}

/// `BytesStart::name` of a start tag, as text.
#[verifier::external_body]
pub(crate) fn tag_name(event: &quick_xml::events::Event) -> (r: String)
    requires
        event_token(*event) is Open,
    ensures
        r@ == event_token(*event)->name,
{
    match event {
        quick_xml::events::Event::Start(tag) | quick_xml::events::Event::Empty(tag) => {
            String::from_utf8_lossy(tag.name().as_ref()).into_owned()
        },
        _ => String::new(),
    }
}

/// `BytesStart::attributes` of a start tag: each attribute's name with its
/// value after `Attribute::unescape_value`, in order; `None` where the
/// attributes are not well-formed, where two have the same name, or where a
/// value holds an unknown entity.
#[verifier::external_body]
pub(crate) fn tag_attributes(event: &quick_xml::events::Event) -> (r: Option<Vec<(String, String)>>)
    requires
        event_token(*event) is Open,
    ensures
        match r {
            Some(pairs) => event_token(*event)->attributes == Some(pairs_view(pairs@)),
            None => event_token(*event)->attributes is None,
        },
{
    match event {
        quick_xml::events::Event::Start(tag) | quick_xml::events::Event::Empty(tag) => {
            tag.attributes().map(|a| {
                let a = a.ok()?;
                let value = a.unescape_value().ok()?.into_owned();
                Some((String::from_utf8_lossy(a.key.as_ref()).into_owned(), value))
            }).collect()
        },
        _ => None,
    }
}

/// `BytesText::unescape` of character data: the text with its entities
/// resolved, `None` where it holds an unknown entity.
#[verifier::external_body]
pub(crate) fn character_data(event: &quick_xml::events::Event) -> (r: Option<String>)
    requires
        event_token(*event) is Text,
    ensures
        optional_text(r) == event_token(*event)->Text_0,
{
    match event {
        quick_xml::events::Event::Text(text) => text.unescape().ok().map(|t| t.into_owned()),
        _ => None,
    }
}

/// `BytesCData::decode` of a CDATA section: its content, taken literally.
#[verifier::external_body]
pub(crate) fn cdata_content(event: &quick_xml::events::Event) -> (r: Option<String>)
    requires
        event_token(*event) is CData,
    ensures
        optional_text(r) == event_token(*event)->CData_0,
{
    match event {
        quick_xml::events::Event::CData(data) => data.decode().ok().map(|t| t.into_owned()),
        _ => None,
    }
}

/// The token that an event stands for, as plain data.
fn token_of(event: &quick_xml::events::Event) -> (r: XmlToken)
    ensures
        r@ == event_token(*event),
{
    match event_kind(event) {
        TokenKind::Open => {
            let name = tag_name(event);
            let attributes = tag_attributes(event);
            XmlToken::Open { name, attributes }
        },
        TokenKind::Close => XmlToken::Close,
        TokenKind::Text => XmlToken::Text(character_data(event)),
        TokenKind::CData => XmlToken::CData(cdata_content(event)),
        TokenKind::Skipped => XmlToken::Skipped,
        TokenKind::End => XmlToken::End,
        TokenKind::Broken => XmlToken::Broken,
    }
}

/// Reads a text into its tokens.
///
/// The result always ends in `End` or `Broken`, and holds neither of them
/// before its end.
pub fn tokenize(text: &str) -> (r: Vec<XmlToken>)
    ensures
        tokens_view(r@) == xml_tokens(text@),
        is_complete(tokens_view(r@)),
{
    let mut reader = open_reader(text);
    let ghost all = xml_tokens(text@);
    let mut tokens: Vec<XmlToken> = Vec::new();
    let mut done = false;
    proof {
        assert(all.skip(0) =~= all);
        assert(tokens_view(tokens@) =~= all.take(0));
    }
    while !done
        invariant
            is_complete(all),
            tokens@.len() <= all.len(),
            tokens_view(tokens@) == all.take(tokens@.len() as int),
            pending_tokens(reader) == all.skip(tokens@.len() as int),
            done <==> tokens@.len() == all.len(),
        decreases all.len() - tokens@.len(),
    {
        let ghost n = tokens@.len() as int;
        proof {
            assert(all.skip(n)[0] == all[n]);
            assert(all.skip(n).skip(1) =~= all.skip(n + 1));
        }
        let token = match read_event(&mut reader) {
            Some(event) => token_of(&event),
            None => XmlToken::Broken,
        };
        done = match token {
            XmlToken::End => true,
            XmlToken::Broken => true,
            _ => false,
        };
        proof {
            assert(token@ == all[n]);
            assert(is_last_token(all[n]) <==> n == all.len() - 1);
            assert(tokens_view(tokens@.push(token)) =~= all.take(n + 1));
        }
        tokens.push(token);
    }
    proof {
        assert(all.take(all.len() as int) =~= all);
    }
    tokens
}

/// An element of an XML document, as contracts see it: its name, its
/// attributes in order, the elements directly inside it in order, and the
/// character data directly inside it, joined.
pub struct XmlNode {
    pub name: Seq<char>,
    pub attributes: Seq<TextPair>,
    pub children: Seq<XmlNode>,
    pub text: Seq<char>,
}

/// An element of an XML document.
#[derive(Debug, PartialEq, Eq)]
pub struct Element {
    pub name: String,
    pub attributes: Vec<(String, String)>,
    pub children: Vec<Element>,
    pub text: String,
}

impl Element {
    /// The element as contracts see it.
    pub open spec fn model(self) -> XmlNode
        decreases self,
    {
        XmlNode {
            name: self.name@,
            attributes: pairs_view(self.attributes@),
            children: Seq::new(
                self.children@.len(),
                |i: int|
                    if 0 <= i < self.children@.len() {
                        proof {
                            axiom_vec_index_decreases(self.children, i);
                        }
                        self.children[i].model()
                    } else {
                        arbitrary()
                    },
            ),
            text: self.text@,
        }
    }
}

impl View for Element {
    type V = XmlNode;

    open spec fn view(&self) -> XmlNode {
        self.model()
    }
}

/// The elements of a sequence, as contracts see them.
pub open spec fn nodes_view(elements: Seq<Element>) -> Seq<XmlNode> {
    elements.map_values(|e: Element| e@)
}

/// The children of an element's view are the views of its children.
pub proof fn lemma_children_view(element: Element)
    ensures
        element@.children == nodes_view(element.children@),
{
    let children = element@.children;
    assert(children.len() == element.children@.len());
    assert forall|i: int| 0 <= i < children.len() implies children[i] == element.children@[i]@ by {
        assert(element.children[i] == element.children@[i]);
    }
    assert(children =~= nodes_view(element.children@));
}

/// What stands inside an element, read from some place in the tokens up to
/// the element's end tag: the elements and the character data directly
/// inside, and the place behind the end tag.
pub struct Content {
    pub children: Seq<XmlNode>,
    pub text: Seq<char>,
    pub next: int,
}

/// The content with more elements and character data in front of it.
pub open spec fn preceded(children: Seq<XmlNode>, text: Seq<char>, rest: Option<Content>) -> Option<
    Content,
> {
    match rest {
        Some(r) => Some(
            Content { children: children + r.children, text: text + r.text, next: r.next },
        ),
        None => None,
    }
}

/// The content of an element whose inside begins at `pos`.
///
/// Start tags open nested elements, which end with their own end tags;
/// character data and CDATA sections add to the text; comments and the
/// like are passed over. There is no content where the tokens run out
/// before the end tag, or hold a token that could not be read.
pub open spec fn content_from(tokens: Seq<TokenView>, pos: int) -> Option<Content>
    decreases tokens.len() - pos,
{
    if pos < 0 || pos >= tokens.len() {
        None
    } else {
        match tokens[pos] {
            TokenView::Close => Some(
                Content { children: Seq::empty(), text: Seq::empty(), next: pos + 1 },
            ),
            TokenView::Open { name, attributes: Some(attributes) } => match content_from(
                tokens,
                pos + 1,
            ) {
                Some(inner) => if inner.next <= pos || inner.next > tokens.len() {
                    None
                } else {
                    preceded(
                        seq![
                            XmlNode {
                                name,
                                attributes,
                                children: inner.children,
                                text: inner.text,
                            },
                        ],
                        Seq::empty(),
                        content_from(tokens, inner.next),
                    )
                },
                None => None,
            },
            TokenView::Text(Some(text)) => preceded(
                Seq::empty(),
                text,
                content_from(tokens, pos + 1),
            ),
            TokenView::CData(Some(text)) => preceded(
                Seq::empty(),
                text,
                content_from(tokens, pos + 1),
            ),
            TokenView::Skipped => content_from(tokens, pos + 1),
            _ => None,
        }
    }
}

/// Whether nothing but comments and the like stands between `pos` and the
/// end of the document.
pub open spec fn ends_from(tokens: Seq<TokenView>, pos: int) -> bool
    decreases tokens.len() - pos,
{
    if pos < 0 || pos >= tokens.len() {
        false
    } else {
        match tokens[pos] {
            TokenView::Skipped => ends_from(tokens, pos + 1),
            TokenView::End => true,
            _ => false,
        }
    }
}

/// The root element of the document whose tokens from `pos` on are given:
/// comments and the like may come before and after it, and nothing else.
pub open spec fn root_from(tokens: Seq<TokenView>, pos: int) -> Option<XmlNode>
    decreases tokens.len() - pos,
{
    if pos < 0 || pos >= tokens.len() {
        None
    } else {
        match tokens[pos] {
            TokenView::Skipped => root_from(tokens, pos + 1),
            TokenView::Open { name, attributes: Some(attributes) } => match content_from(
                tokens,
                pos + 1,
            ) {
                Some(inner) => if ends_from(tokens, inner.next) {
                    Some(XmlNode { name, attributes, children: inner.children, text: inner.text })
                } else {
                    None
                },
                None => None,
            },
            _ => None,
        }
    }
}

/// The root element of a document, given its tokens: `None` unless the
/// tokens spell out exactly one element with all its tags matched.
pub open spec fn document_root(tokens: Seq<TokenView>) -> Option<XmlNode> {
    root_from(tokens, 0)
}

/// A copy of a list of pairs of strings.
fn copy_pairs(pairs: &Vec<(String, String)>) -> (r: Vec<(String, String)>)
    ensures
        pairs_view(r@) == pairs_view(pairs@),
{
    let mut copy: Vec<(String, String)> = Vec::new();
    let mut i: usize = 0;
    while i < pairs.len()
        invariant
            i <= pairs.len(),
            copy@.len() == i,
            forall|k: int| 0 <= k < i ==> pair_view(copy@[k]) == pair_view(#[trigger] pairs@[k]),
        decreases pairs.len() - i,
    {
        let pair = (pairs[i].0.clone(), pairs[i].1.clone());
        copy.push(pair);
        i += 1;
    }
    assert(pairs_view(copy@) =~= pairs_view(pairs@));
    copy
}

/// The parts of an element's content.
pub struct Inside {
    pub children: Vec<Element>,
    pub text: String,
    pub next: usize,
}

impl View for Inside {
    type V = Content;

    open spec fn view(&self) -> Content {
        Content { children: nodes_view(self.children@), text: self.text@, next: self.next as int }
    }
}

/// Reads the content of an element whose inside begins at `start`.
pub fn read_content(tokens: &Vec<XmlToken>, start: usize) -> (r: Option<Inside>)
    ensures
        match r {
            Some(inside) => content_from(tokens_view(tokens@), start as int) == Some(inside@)
                && start < inside.next <= tokens@.len(),
            None => content_from(tokens_view(tokens@), start as int) is None,
        },
    decreases tokens@.len() - start,
{
    let ghost all = tokens_view(tokens@);
    let mut children: Vec<Element> = Vec::new();
    let mut text = String::new();
    let mut pos: usize = start;
    proof {
        let rest = content_from(all, start as int);
        if rest is Some {
            assert(Seq::<XmlNode>::empty() + rest->0.children =~= rest->0.children);
            assert(Seq::<char>::empty() + rest->0.text =~= rest->0.text);
        }
    }
    while pos < tokens.len()
        invariant
            start <= pos,
            all == tokens_view(tokens@),
            content_from(all, start as int) == preceded(
                nodes_view(children@),
                text@,
                content_from(all, pos as int),
            ),
        decreases tokens@.len() - pos,
    {
        let ghost kids = nodes_view(children@);
        let ghost chars = text@;
        match &tokens[pos] {
            XmlToken::Close => {
                proof {
                    assert(kids + Seq::<XmlNode>::empty() =~= kids);
                    assert(chars + Seq::<char>::empty() =~= chars);
                }
                return Some(Inside { children, text, next: pos + 1 });
            },
            XmlToken::Open { name, attributes: Some(attributes) } => {
                match read_content(tokens, pos + 1) {
                    Some(inside) => {
                        let after = inside.next;
                        let element = Element {
                            name: name.clone(),
                            attributes: copy_pairs(attributes),
                            children: inside.children,
                            text: inside.text,
                        };
                        proof {
                            lemma_children_view(element);
                            let rest = content_from(all, after as int);
                            assert(nodes_view(children@.push(element)) =~= kids.push(element@));
                            if rest is Some {
                                assert(kids + (seq![element@] + rest->0.children) =~= kids.push(
                                    element@,
                                ) + rest->0.children);
                                assert(chars + (Seq::<char>::empty() + rest->0.text) =~= chars
                                    + rest->0.text);
                            }
                        }
                        children.push(element);
                        pos = after;
                    },
                    None => {
                        return None;
                    },
                }
            },
            XmlToken::Text(Some(data)) => {
                proof {
                    let rest = content_from(all, pos + 1);
                    if rest is Some {
                        assert(kids + (Seq::<XmlNode>::empty() + rest->0.children) =~= kids
                            + rest->0.children);
                        assert(chars + (data@ + rest->0.text) =~= (chars + data@) + rest->0.text);
                    }
                }
                text.append(data.as_str());
                pos += 1;
            },
            XmlToken::CData(Some(data)) => {
                proof {
                    let rest = content_from(all, pos + 1);
                    if rest is Some {
                        assert(kids + (Seq::<XmlNode>::empty() + rest->0.children) =~= kids
                            + rest->0.children);
                        assert(chars + (data@ + rest->0.text) =~= (chars + data@) + rest->0.text);
                    }
                }
                text.append(data.as_str());
                pos += 1;
            },
            XmlToken::Skipped => {
                pos += 1;
            },
            _ => {
                return None;
            },
        }
    }
    None
}

/// Whether nothing but comments and the like stands between `start` and
/// the end of the document.
pub fn reaches_end(tokens: &Vec<XmlToken>, start: usize) -> (r: bool)
    ensures
        r == ends_from(tokens_view(tokens@), start as int),
{
    let ghost all = tokens_view(tokens@);
    let mut pos: usize = start;
    while pos < tokens.len()
        invariant
            all == tokens_view(tokens@),
            ends_from(all, start as int) == ends_from(all, pos as int),
        decreases tokens@.len() - pos,
    {
        match &tokens[pos] {
            XmlToken::Skipped => {
                pos += 1;
            },
            XmlToken::End => {
                return true;
            },
            _ => {
                return false;
            },
        }
    }
    false
}

/// Builds the root element of a document from its tokens.
pub fn read_document(tokens: &Vec<XmlToken>) -> (r: Option<Element>)
    ensures
        match r {
            Some(root) => document_root(tokens_view(tokens@)) == Some(root@),
            None => document_root(tokens_view(tokens@)) is None,
        },
{
    let ghost all = tokens_view(tokens@);
    let mut pos: usize = 0;
    while pos < tokens.len()
        invariant
            all == tokens_view(tokens@),
            root_from(all, 0) == root_from(all, pos as int),
        decreases tokens@.len() - pos,
    {
        match &tokens[pos] {
            XmlToken::Skipped => {
                pos += 1;
            },
            XmlToken::Open { name, attributes: Some(attributes) } => {
                match read_content(tokens, pos + 1) {
                    Some(inside) => {
                        if reaches_end(tokens, inside.next) {
                            let root = Element {
                                name: name.clone(),
                                attributes: copy_pairs(attributes),
                                children: inside.children,
                                text: inside.text,
                            };
                            proof {
                                lemma_children_view(root);
                            }
                            return Some(root);
                        } else {
                            return None;
                        }
                    },
                    None => {
                        return None;
                    },
                }
            },
            _ => {
                return None;
            },
        }
    }
    None
}

} // verus!
