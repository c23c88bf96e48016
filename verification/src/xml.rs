//! A small XML tokenizer, sufficient for podcast feed documents: it turns
//! the document's characters into a flat sequence of open-tag, close-tag
//! and text events. Comments, processing instructions and doctype
//! declarations are skipped; CDATA sections become text; the five
//! predefined entities are decoded in text and attribute values. A
//! document the tokenizer cannot read (an unterminated construct, a stray
//! `&`, a malformed tag) is rejected as a whole.
//!
//! Every executable function mirrors its specification function exactly,
//! so the event sequence a caller sees is the one the specification
//! defines.
use vstd::prelude::*;

verus! {

/// One attribute of an open tag.
pub struct Attr {
    pub name: Vec<char>,
    pub value: Vec<char>,
}

/// The mathematical value of an `Attr`.
pub struct AttrView {
    pub name: Seq<char>,
    pub value: Seq<char>,
}

impl View for Attr {
    type V = AttrView;

    open spec fn view(&self) -> AttrView {
        AttrView { name: self.name@, value: self.value@ }
    }
}

impl DeepView for Attr {
    type V = AttrView;

    open spec fn deep_view(&self) -> AttrView {
        self.view()
    }
}

/// One event of the tokenized document.
pub enum XmlEvent {
    Open { name: Vec<char>, attrs: Vec<Attr>, self_closing: bool },
    Close { name: Vec<char> },
    Text { content: Vec<char> },
}

/// The mathematical value of an `XmlEvent`.
pub enum EventView {
    Open { name: Seq<char>, attrs: Seq<AttrView>, self_closing: bool },
    Close { name: Seq<char> },
    Text { content: Seq<char> },
}

impl View for XmlEvent {
    type V = EventView;

    open spec fn view(&self) -> EventView {
        match self {
            XmlEvent::Open { name, attrs, self_closing } => EventView::Open {
                name: name@,
                attrs: attrs.deep_view(),
                self_closing: *self_closing,
            },
            XmlEvent::Close { name } => EventView::Close { name: name@ },
            XmlEvent::Text { content } => EventView::Text { content: content@ },
        }
    }
}

impl DeepView for XmlEvent {
    type V = EventView;

    open spec fn deep_view(&self) -> EventView {
        self.view()
    }
}

/// XML whitespace.
pub open spec fn is_ws(c: char) -> bool {
    c == ' ' || c == '\t' || c == '\n' || c == '\r'
}

/// A character allowed in a tag or attribute name: a pragmatic ASCII
/// approximation of the XML name classes, enough for feed documents.
pub open spec fn is_name_char(c: char) -> bool {
    ('a' <= c && c <= 'z') || ('A' <= c && c <= 'Z') || ('0' <= c && c <= '9') || c == '_' || c
        == '-' || c == ':' || c == '.'
}

/// The first position at or after `i` holding a non-whitespace character
/// (or the end).
pub open spec fn skip_ws(s: Seq<char>, i: int) -> int
    recommends
        0 <= i <= s.len(),
    decreases s.len() - i,
{
    if i < 0 || i >= s.len() || !is_ws(s[i]) {
        i
    } else {
        skip_ws(s, i + 1)
    }
}

/// `skip_ws` lands between `i` and the end.
pub proof fn lemma_skip_ws(s: Seq<char>, i: int)
    requires
        0 <= i <= s.len(),
    ensures
        i <= skip_ws(s, i) <= s.len(),
    decreases s.len() - i,
{
    if i < s.len() && is_ws(s[i]) {
        lemma_skip_ws(s, i + 1);
    }
}

/// The first position at or after `i` holding a non-name character (or
/// the end).
pub open spec fn take_name(s: Seq<char>, i: int) -> int
    recommends
        0 <= i <= s.len(),
    decreases s.len() - i,
{
    if i < 0 || i >= s.len() || !is_name_char(s[i]) {
        i
    } else {
        take_name(s, i + 1)
    }
}

/// `take_name` lands between `i` and the end.
pub proof fn lemma_take_name(s: Seq<char>, i: int)
    requires
        0 <= i <= s.len(),
    ensures
        i <= take_name(s, i) <= s.len(),
    decreases s.len() - i,
{
    if i < s.len() && is_name_char(s[i]) {
        lemma_take_name(s, i + 1);
    }
}

/// The first position at or after `i` holding `c`, if any.
pub open spec fn find_char(s: Seq<char>, i: int, c: char) -> Option<int>
    recommends
        0 <= i <= s.len(),
    decreases s.len() - i,
{
    if i < 0 || i >= s.len() {
        None
    } else if s[i] == c {
        Some(i)
    } else {
        find_char(s, i + 1, c)
    }
}

/// A found character lies between `i` and the end.
pub proof fn lemma_find_char(s: Seq<char>, i: int, c: char)
    requires
        0 <= i <= s.len(),
    ensures
        find_char(s, i, c) matches Some(j) ==> i <= j < s.len() && s[j] == c,
    decreases s.len() - i,
{
    if 0 <= i < s.len() && s[i] != c {
        lemma_find_char(s, i + 1, c);
    }
}

/// Whether the three characters of `a b c` stand at position `i`.
pub open spec fn at3(s: Seq<char>, i: int, a: char, b: char, c: char) -> bool {
    i + 3 <= s.len() && s[i] == a && s[i + 1] == b && s[i + 2] == c
}

/// The first position at or after `i` where the three characters
/// `a b c` stand, if any.
pub open spec fn find3(s: Seq<char>, i: int, a: char, b: char, c: char) -> Option<int>
    recommends
        0 <= i <= s.len(),
    decreases s.len() - i,
{
    if i < 0 || i + 3 > s.len() {
        None
    } else if at3(s, i, a, b, c) {
        Some(i)
    } else {
        find3(s, i + 1, a, b, c)
    }
}

/// A found triple lies between `i` and three before the end.
pub proof fn lemma_find3(s: Seq<char>, i: int, a: char, b: char, c: char)
    requires
        0 <= i <= s.len(),
    ensures
        find3(s, i, a, b, c) matches Some(j) ==> i <= j && j + 3 <= s.len() && at3(s, j, a, b, c),
    decreases s.len() - i,
{
    if 0 <= i && i + 3 <= s.len() && !at3(s, i, a, b, c) {
        lemma_find3(s, i + 1, a, b, c);
    }
}

/// Whether the two characters `a b` stand at position `i`.
pub open spec fn at2(s: Seq<char>, i: int, a: char, b: char) -> bool {
    i + 2 <= s.len() && s[i] == a && s[i + 1] == b
}

/// The first position at or after `i` where the two characters `a b`
/// stand, if any.
pub open spec fn find2(s: Seq<char>, i: int, a: char, b: char) -> Option<int>
    recommends
        0 <= i <= s.len(),
    decreases s.len() - i,
{
    if i < 0 || i + 2 > s.len() {
        None
    } else if at2(s, i, a, b) {
        Some(i)
    } else {
        find2(s, i + 1, a, b)
    }
}

/// A found pair lies between `i` and two before the end.
pub proof fn lemma_find2(s: Seq<char>, i: int, a: char, b: char)
    requires
        0 <= i <= s.len(),
    ensures
        find2(s, i, a, b) matches Some(j) ==> i <= j && j + 2 <= s.len() && at2(s, j, a, b),
    decreases s.len() - i,
{
    if 0 <= i && i + 2 <= s.len() && !at2(s, i, a, b) {
        lemma_find2(s, i + 1, a, b);
    }
}

/// The predefined entity starting at the `&` at position `i`: the decoded
/// character and the position after the `;`. `None` for anything but the
/// five predefined entities.
pub open spec fn sp_entity(s: Seq<char>, i: int) -> Option<(char, int)>
    recommends
        0 <= i < s.len(),
        s[i] == '&',
{
    if i + 4 <= s.len() && s[i + 1] == 'l' && s[i + 2] == 't' && s[i + 3] == ';' {
        Some(('<', i + 4))
    } else if i + 4 <= s.len() && s[i + 1] == 'g' && s[i + 2] == 't' && s[i + 3] == ';' {
        Some(('>', i + 4))
    } else if i + 5 <= s.len() && s[i + 1] == 'a' && s[i + 2] == 'm' && s[i + 3] == 'p' && s[i + 4]
        == ';' {
        Some(('&', i + 5))
    } else if i + 6 <= s.len() && s[i + 1] == 'q' && s[i + 2] == 'u' && s[i + 3] == 'o' && s[i + 4]
        == 't' && s[i + 5] == ';' {
        Some(('"', i + 6))
    } else if i + 6 <= s.len() && s[i + 1] == 'a' && s[i + 2] == 'p' && s[i + 3] == 'o' && s[i + 4]
        == 's' && s[i + 5] == ';' {
        Some(('\'', i + 6))
    } else {
        None
    }
}

/// A decoded entity advances by four to six positions.
pub proof fn lemma_sp_entity(s: Seq<char>, i: int)
    requires
        0 <= i,
    ensures
        sp_entity(s, i) matches Some(p) ==> i + 4 <= p.1 <= s.len(),
{
}

/// The text run starting at `i`: the decoded characters up to the next
/// `<` (or the end), and the position of that `<` (or the end). `None`
/// when a `&` does not start a predefined entity.
pub open spec fn sp_text(s: Seq<char>, i: int) -> Option<(Seq<char>, int)>
    recommends
        0 <= i <= s.len(),
    decreases s.len() - i,
    when 0 <= i <= s.len()
    via sp_text_dec
{
    if i >= s.len() || s[i] == '<' {
        Some((Seq::empty(), i))
    } else if s[i] == '&' {
        match sp_entity(s, i) {
            Some(p) => match sp_text(s, p.1) {
                Some(r) => Some((seq![p.0] + r.0, r.1)),
                None => None,
            },
            None => None,
        }
    } else {
        match sp_text(s, i + 1) {
            Some(r) => Some((seq![s[i]] + r.0, r.1)),
            None => None,
        }
    }
}

#[via_fn]
proof fn sp_text_dec(s: Seq<char>, i: int) {
    lemma_sp_entity(s, i);
}

/// A text run ends between `i` and the end, strictly after `i` when it
/// is not empty there.
pub proof fn lemma_sp_text(s: Seq<char>, i: int)
    requires
        0 <= i <= s.len(),
    ensures
        sp_text(s, i) matches Some(r) ==> i <= r.1 <= s.len(),
        i < s.len() && s[i] != '<' ==> (sp_text(s, i) matches Some(r) ==> i < r.1),
    decreases s.len() - i,
{
    if i >= s.len() || s[i] == '<' {
    } else if s[i] == '&' {
        lemma_sp_entity(s, i);
        match sp_entity(s, i) {
            Some(p) => {
                lemma_sp_text(s, p.1);
            },
            None => {},
        }
    } else {
        lemma_sp_text(s, i + 1);
    }
}

/// The attribute value starting at `i` and ending at the quote `q`: the
/// decoded characters and the position after the closing quote. `None`
/// on an unterminated value, a raw `<`, or a bad entity.
pub open spec fn sp_attr_value(s: Seq<char>, i: int, q: char) -> Option<(Seq<char>, int)>
    recommends
        0 <= i <= s.len(),
    decreases s.len() - i,
    when 0 <= i <= s.len()
    via sp_attr_value_dec
{
    if i >= s.len() {
        None
    } else if s[i] == q {
        Some((Seq::empty(), i + 1))
    } else if s[i] == '<' {
        None
    } else if s[i] == '&' {
        match sp_entity(s, i) {
            Some(p) => match sp_attr_value(s, p.1, q) {
                Some(r) => Some((seq![p.0] + r.0, r.1)),
                None => None,
            },
            None => None,
        }
    } else {
        match sp_attr_value(s, i + 1, q) {
            Some(r) => Some((seq![s[i]] + r.0, r.1)),
            None => None,
        }
    }
}

#[via_fn]
proof fn sp_attr_value_dec(s: Seq<char>, i: int, q: char) {
    lemma_sp_entity(s, i);
}

/// A parsed attribute value ends strictly after `i`, at the latest at
/// the end.
pub proof fn lemma_sp_attr_value(s: Seq<char>, i: int, q: char)
    requires
        0 <= i <= s.len(),
    ensures
        sp_attr_value(s, i, q) matches Some(r) ==> i < r.1 <= s.len(),
    decreases s.len() - i,
{
    if i >= s.len() || s[i] == q || s[i] == '<' {
    } else if s[i] == '&' {
        lemma_sp_entity(s, i);
        match sp_entity(s, i) {
            Some(p) => {
                lemma_sp_attr_value(s, p.1, q);
            },
            None => {},
        }
    } else {
        lemma_sp_attr_value(s, i + 1, q);
    }
}

/// The attribute list starting at `i`: leading whitespace, then
/// `name="value"` pairs, stopping before the first non-name character
/// after whitespace (the `>` or `/>` of the tag). `None` on a malformed
/// pair or an unterminated tag.
pub open spec fn sp_attrs(s: Seq<char>, i: int) -> Option<(Seq<AttrView>, int)>
    recommends
        0 <= i <= s.len(),
    decreases s.len() - i,
    when 0 <= i <= s.len()
    via sp_attrs_dec
{
    let w = skip_ws(s, i);
    if w >= s.len() {
        None
    } else if !is_name_char(s[w]) {
        Some((Seq::empty(), w))
    } else {
        let e1 = take_name(s, w);
        let name = s.subrange(w, e1);
        let e2 = skip_ws(s, e1);
        if e2 >= s.len() || s[e2] != '=' {
            None
        } else {
            let e3 = skip_ws(s, e2 + 1);
            if e3 >= s.len() || (s[e3] != '"' && s[e3] != '\'') {
                None
            } else {
                match sp_attr_value(s, e3 + 1, s[e3]) {
                    Some(v) => match sp_attrs(s, v.1) {
                        Some(r) => Some((seq![AttrView { name, value: v.0 }] + r.0, r.1)),
                        None => None,
                    },
                    None => None,
                }
            }
        }
    }
}

#[via_fn]
proof fn sp_attrs_dec(s: Seq<char>, i: int) {
    lemma_skip_ws(s, i);
    let w = skip_ws(s, i);
    if w < s.len() && is_name_char(s[w]) {
        lemma_take_name(s, w);
        let e1 = take_name(s, w);
        lemma_skip_ws(s, e1);
        let e2 = skip_ws(s, e1);
        if e2 < s.len() && s[e2] == '=' {
            lemma_skip_ws(s, e2 + 1);
            let e3 = skip_ws(s, e2 + 1);
            if e3 < s.len() && (s[e3] == '"' || s[e3] == '\'') {
                lemma_sp_attr_value(s, e3 + 1, s[e3]);
            }
        }
    }
}

/// A parsed attribute list ends between `i` and the end.
pub proof fn lemma_sp_attrs(s: Seq<char>, i: int)
    requires
        0 <= i <= s.len(),
    ensures
        sp_attrs(s, i) matches Some(r) ==> i <= r.1 <= s.len(),
    decreases s.len() - i,
{
    lemma_skip_ws(s, i);
    let w = skip_ws(s, i);
    if w < s.len() && is_name_char(s[w]) {
        lemma_take_name(s, w);
        let e1 = take_name(s, w);
        lemma_skip_ws(s, e1);
        let e2 = skip_ws(s, e1);
        if e2 < s.len() && s[e2] == '=' {
            lemma_skip_ws(s, e2 + 1);
            let e3 = skip_ws(s, e2 + 1);
            if e3 < s.len() && (s[e3] == '"' || s[e3] == '\'') {
                lemma_sp_attr_value(s, e3 + 1, s[e3]);
                match sp_attr_value(s, e3 + 1, s[e3]) {
                    Some(v) => {
                        lemma_sp_attrs(s, v.1);
                    },
                    None => {},
                }
            }
        }
    }
}

/// The construct starting at the `<` at position `i`: possibly an event,
/// and the position after the construct. Comments, processing
/// instructions and doctype declarations yield no event; CDATA yields a
/// text event. `None` on a malformed or unterminated construct.
pub open spec fn sp_tag(s: Seq<char>, i: int) -> Option<(Option<EventView>, int)>
    recommends
        0 <= i < s.len(),
        s[i] == '<',
{
    if i + 4 <= s.len() && s[i + 1] == '!' && s[i + 2] == '-' && s[i + 3] == '-' {
        // comment
        match find3(s, i + 4, '-', '-', '>') {
            Some(e) => Some((None, e + 3)),
            None => None,
        }
    } else if i + 9 <= s.len() && s[i + 1] == '!' && s[i + 2] == '[' && s[i + 3] == 'C' && s[i + 4]
        == 'D' && s[i + 5] == 'A' && s[i + 6] == 'T' && s[i + 7] == 'A' && s[i + 8] == '[' {
        // CDATA section: raw text
        match find3(s, i + 9, ']', ']', '>') {
            Some(e) => Some(
                (Some(EventView::Text { content: s.subrange(i + 9, e) }), e + 3),
            ),
            None => None,
        }
    } else if i + 2 <= s.len() && s[i + 1] == '?' {
        // processing instruction (the xml prolog among them)
        match find2(s, i + 2, '?', '>') {
            Some(e) => Some((None, e + 2)),
            None => None,
        }
    } else if i + 2 <= s.len() && s[i + 1] == '!' {
        // doctype or similar declaration: skip to the closing '>'
        match find_char(s, i + 2, '>') {
            Some(e) => Some((None, e + 1)),
            None => None,
        }
    } else if i + 2 <= s.len() && s[i + 1] == '/' {
        // closing tag
        let e1 = take_name(s, i + 2);
        if e1 == i + 2 {
            None
        } else {
            let name = s.subrange(i + 2, e1);
            let e2 = skip_ws(s, e1);
            if e2 < s.len() && s[e2] == '>' {
                Some((Some(EventView::Close { name }), e2 + 1))
            } else {
                None
            }
        }
    } else {
        // opening tag
        let e1 = take_name(s, i + 1);
        if e1 == i + 1 {
            None
        } else {
            let name = s.subrange(i + 1, e1);
            match sp_attrs(s, e1) {
                Some(a) => {
                    let k = a.1;
                    if k + 2 <= s.len() && s[k] == '/' && s[k + 1] == '>' {
                        Some(
                            (
                                Some(
                                    EventView::Open { name, attrs: a.0, self_closing: true },
                                ),
                                k + 2,
                            ),
                        )
                    } else if k < s.len() && s[k] == '>' {
                        Some(
                            (
                                Some(
                                    EventView::Open { name, attrs: a.0, self_closing: false },
                                ),
                                k + 1,
                            ),
                        )
                    } else {
                        None
                    }
                },
                None => None,
            }
        }
    }
}

/// A parsed construct ends strictly after `i`, at the latest at the end.
pub proof fn lemma_sp_tag(s: Seq<char>, i: int)
    requires
        0 <= i < s.len(),
        s[i] == '<',
    ensures
        sp_tag(s, i) matches Some(r) ==> i < r.1 <= s.len(),
{
    if i + 4 <= s.len() {
        lemma_find3(s, i + 4, '-', '-', '>');
    }
    if i + 9 <= s.len() {
        lemma_find3(s, i + 9, ']', ']', '>');
    }
    if i + 2 <= s.len() {
        lemma_find2(s, i + 2, '?', '>');
        lemma_find_char(s, i + 2, '>');
        lemma_take_name(s, i + 2);
        let e1 = take_name(s, i + 2);
        lemma_skip_ws(s, e1);
    }
    lemma_take_name(s, i + 1);
    let e1 = take_name(s, i + 1);
    lemma_sp_attrs(s, e1);
}

/// The event sequence of the document text from `i` on: text runs and
/// tag constructs, in order, with empty text runs omitted. `None` when
/// any construct is malformed.
pub open spec fn sp_tokens(s: Seq<char>, i: int) -> Option<Seq<EventView>>
    recommends
        0 <= i <= s.len(),
    decreases s.len() - i,
    when 0 <= i <= s.len()
    via sp_tokens_dec
{
    if i >= s.len() {
        Some(Seq::empty())
    } else if s[i] == '<' {
        match sp_tag(s, i) {
            Some(t) => match sp_tokens(s, t.1) {
                Some(rest) => match t.0 {
                    Some(ev) => Some(seq![ev] + rest),
                    None => Some(rest),
                },
                None => None,
            },
            None => None,
        }
    } else {
        match sp_text(s, i) {
            Some(t) => match sp_tokens(s, t.1) {
                Some(rest) => Some(seq![EventView::Text { content: t.0 }] + rest),
                None => None,
            },
            None => None,
        }
    }
}

#[via_fn]
proof fn sp_tokens_dec(s: Seq<char>, i: int) {
    if 0 <= i < s.len() {
        if s[i] == '<' {
            lemma_sp_tag(s, i);
        } else {
            lemma_sp_text(s, i);
        }
    }
}

/// `skip_ws`, executably.
fn skip_ws_e(s: &Vec<char>, i: usize) -> (r: usize)
    requires
        i <= s@.len(),
    ensures
        r as int == skip_ws(s@, i as int),
        i <= r <= s@.len(),
    decreases s@.len() - i,
{
    if i >= s.len() {
        i
    } else {
        let c = s[i];
        if c == ' ' || c == '\t' || c == '\n' || c == '\r' {
            skip_ws_e(s, i + 1)
        } else {
            i
        }
    }
}

/// `take_name`, executably.
fn take_name_e(s: &Vec<char>, i: usize) -> (r: usize)
    requires
        i <= s@.len(),
    ensures
        r as int == take_name(s@, i as int),
        i <= r <= s@.len(),
    decreases s@.len() - i,
{
    if i >= s.len() {
        i
    } else {
        let c = s[i];
        if ('a' <= c && c <= 'z') || ('A' <= c && c <= 'Z') || ('0' <= c && c <= '9') || c == '_'
            || c == '-' || c == ':' || c == '.' {
            take_name_e(s, i + 1)
        } else {
            i
        }
    }
}

/// `find_char`, executably.
fn find_char_e(s: &Vec<char>, i: usize, c: char) -> (r: Option<usize>)
    requires
        i <= s@.len(),
    ensures
        match r {
            Some(j) => find_char(s@, i as int, c) == Some(j as int) && i <= j < s@.len(),
            None => find_char(s@, i as int, c) is None,
        },
    decreases s@.len() - i,
{
    if i >= s.len() {
        None
    } else if s[i] == c {
        Some(i)
    } else {
        find_char_e(s, i + 1, c)
    }
}

/// `find2`, executably.
fn find2_e(s: &Vec<char>, i: usize, a: char, b: char) -> (r: Option<usize>)
    requires
        i <= s@.len(),
    ensures
        match r {
            Some(j) => find2(s@, i as int, a, b) == Some(j as int) && i <= j && j + 2 <= s@.len(),
            None => find2(s@, i as int, a, b) is None,
        },
    decreases s@.len() - i,
{
    if s.len() - i < 2 {
        None
    } else if s[i] == a && s[i + 1] == b {
        Some(i)
    } else {
        find2_e(s, i + 1, a, b)
    }
}

/// `find3`, executably.
fn find3_e(s: &Vec<char>, i: usize, a: char, b: char, c: char) -> (r: Option<usize>)
    requires
        i <= s@.len(),
    ensures
        match r {
            Some(j) => find3(s@, i as int, a, b, c) == Some(j as int) && i <= j && j + 3
                <= s@.len(),
            None => find3(s@, i as int, a, b, c) is None,
        },
    decreases s@.len() - i,
{
    if s.len() - i < 3 {
        None
    } else if s[i] == a && s[i + 1] == b && s[i + 2] == c {
        Some(i)
    } else {
        find3_e(s, i + 1, a, b, c)
    }
}

/// `sp_entity`, executably.
fn entity_e(s: &Vec<char>, i: usize) -> (r: Option<(char, usize)>)
    requires
        i < s@.len(),
        s@[i as int] == '&',
    ensures
        match r {
            Some(p) => sp_entity(s@, i as int) == Some((p.0, p.1 as int)) && i < p.1 <= s@.len(),
            None => sp_entity(s@, i as int) is None,
        },
{
    let n = s.len();
    if n - i >= 4 && s[i + 1] == 'l' && s[i + 2] == 't' && s[i + 3] == ';' {
        Some(('<', i + 4))
    } else if n - i >= 4 && s[i + 1] == 'g' && s[i + 2] == 't' && s[i + 3] == ';' {
        Some(('>', i + 4))
    } else if n - i >= 5 && s[i + 1] == 'a' && s[i + 2] == 'm' && s[i + 3] == 'p' && s[i + 4]
        == ';' {
        Some(('&', i + 5))
    } else if n - i >= 6 && s[i + 1] == 'q' && s[i + 2] == 'u' && s[i + 3] == 'o' && s[i + 4] == 't'
        && s[i + 5] == ';' {
        Some(('"', i + 6))
    } else if n - i >= 6 && s[i + 1] == 'a' && s[i + 2] == 'p' && s[i + 3] == 'o' && s[i + 4] == 's'
        && s[i + 5] == ';' {
        Some(('\'', i + 6))
    } else {
        None
    }
}

/// `sp_text`, executably.
fn text_e(s: &Vec<char>, i: usize) -> (r: Option<(Vec<char>, usize)>)
    requires
        i <= s@.len(),
    ensures
        match r {
            Some(p) => sp_text(s@, i as int) == Some((p.0@, p.1 as int)) && i <= p.1 <= s@.len(),
            None => sp_text(s@, i as int) is None,
        },
    decreases s@.len() - i,
{
    if i >= s.len() || s[i] == '<' {
        let empty: Vec<char> = Vec::new();
        proof {
            assert(empty@ =~= Seq::<char>::empty());
        }
        Some((empty, i))
    } else if s[i] == '&' {
        match entity_e(s, i) {
            Some((c, j)) => match text_e(s, j) {
                Some((mut t, k)) => {
                    t.insert(0, c);
                    proof {
                        let spec_rest = sp_text(s@, j as int)->Some_0;
                        assert(t@ =~= seq![c] + spec_rest.0);
                    }
                    Some((t, k))
                },
                None => None,
            },
            None => None,
        }
    } else {
        let c = s[i];
        match text_e(s, i + 1) {
            Some((mut t, k)) => {
                t.insert(0, c);
                proof {
                    let spec_rest = sp_text(s@, i as int + 1)->Some_0;
                    assert(t@ =~= seq![c] + spec_rest.0);
                }
                Some((t, k))
            },
            None => None,
        }
    }
}

/// `sp_attr_value`, executably.
fn attr_value_e(s: &Vec<char>, i: usize, q: char) -> (r: Option<(Vec<char>, usize)>)
    requires
        i <= s@.len(),
    ensures
        match r {
            Some(p) => sp_attr_value(s@, i as int, q) == Some((p.0@, p.1 as int)) && i < p.1
                <= s@.len(),
            None => sp_attr_value(s@, i as int, q) is None,
        },
    decreases s@.len() - i,
{
    if i >= s.len() {
        None
    } else if s[i] == q {
        let empty: Vec<char> = Vec::new();
        proof {
            assert(empty@ =~= Seq::<char>::empty());
        }
        Some((empty, i + 1))
    } else if s[i] == '<' {
        None
    } else if s[i] == '&' {
        match entity_e(s, i) {
            Some((c, j)) => match attr_value_e(s, j, q) {
                Some((mut t, k)) => {
                    t.insert(0, c);
                    proof {
                        let spec_rest = sp_attr_value(s@, j as int, q)->Some_0;
                        assert(t@ =~= seq![c] + spec_rest.0);
                    }
                    Some((t, k))
                },
                None => None,
            },
            None => None,
        }
    } else {
        let c = s[i];
        match attr_value_e(s, i + 1, q) {
            Some((mut t, k)) => {
                t.insert(0, c);
                proof {
                    let spec_rest = sp_attr_value(s@, i as int + 1, q)->Some_0;
                    assert(t@ =~= seq![c] + spec_rest.0);
                }
                Some((t, k))
            },
            None => None,
        }
    }
}

/// The characters of `s` from `lo` (inclusive) to `hi` (exclusive).
fn subrange_e(s: &Vec<char>, lo: usize, hi: usize) -> (r: Vec<char>)
    requires
        lo <= hi <= s@.len(),
    ensures
        r@ == s@.subrange(lo as int, hi as int),
{
    let mut r: Vec<char> = Vec::new();
    let mut i: usize = lo;
    while i < hi
        invariant
            lo <= i <= hi <= s@.len(),
            r@ == s@.subrange(lo as int, i as int),
        decreases hi - i,
    {
        r.push(s[i]);
        i = i + 1;
        proof {
            assert(r@ =~= s@.subrange(lo as int, i as int));
        }
    }
    proof {
        assert(r@ =~= s@.subrange(lo as int, hi as int));
    }
    r
}

/// `sp_attrs`, executably.
fn attrs_e(s: &Vec<char>, i: usize) -> (r: Option<(Vec<Attr>, usize)>)
    requires
        i <= s@.len(),
    ensures
        match r {
            Some(p) => sp_attrs(s@, i as int) == Some((p.0.deep_view(), p.1 as int)) && i <= p.1
                <= s@.len(),
            None => sp_attrs(s@, i as int) is None,
        },
    decreases s@.len() - i,
{
    let w = skip_ws_e(s, i);
    if w >= s.len() {
        None
    } else {
        let cw = s[w];
        let name_start = ('a' <= cw && cw <= 'z') || ('A' <= cw && cw <= 'Z') || ('0' <= cw && cw
            <= '9') || cw == '_' || cw == '-' || cw == ':' || cw == '.';
        if !name_start {
            let empty: Vec<Attr> = Vec::new();
            proof {
                assert(empty.deep_view() =~= Seq::<AttrView>::empty());
            }
            Some((empty, w))
        } else {
            let e1 = take_name_e(s, w);
            let name = subrange_e(s, w, e1);
            let e2 = skip_ws_e(s, e1);
            if e2 >= s.len() || s[e2] != '=' {
                None
            } else {
                let e3 = skip_ws_e(s, e2 + 1);
                if e3 >= s.len() {
                    None
                } else {
                    let q = s[e3];
                    if q != '"' && q != '\'' {
                        None
                    } else {
                        match attr_value_e(s, e3 + 1, q) {
                            Some((value, j)) => match attrs_e(s, j) {
                                Some((mut rest, k)) => {
                                    rest.insert(0, Attr { name, value });
                                    proof {
                                        let sv = sp_attr_value(s@, e3 as int + 1, q)->Some_0;
                                        let sr = sp_attrs(s@, j as int)->Some_0;
                                        assert(rest.deep_view() =~= seq![
                                            AttrView {
                                                name: s@.subrange(w as int, e1 as int),
                                                value: sv.0,
                                            },
                                        ] + sr.0);
                                    }
                                    Some((rest, k))
                                },
                                None => None,
                            },
                            None => None,
                        }
                    }
                }
            }
        }
    }
}

/// `sp_tag`, executably.
fn tag_e(s: &Vec<char>, i: usize) -> (r: Option<(Option<XmlEvent>, usize)>)
    requires
        i < s@.len(),
        s@[i as int] == '<',
    ensures
        match r {
            Some(p) => sp_tag(s@, i as int) == Some(
                (
                    match p.0 {
                        Some(ev) => Some(ev@),
                        None => None,
                    },
                    p.1 as int,
                ),
            ) && i < p.1 <= s@.len(),
            None => sp_tag(s@, i as int) is None,
        },
{
    let n = s.len();
    if n - i >= 4 && s[i + 1] == '!' && s[i + 2] == '-' && s[i + 3] == '-' {
        match find3_e(s, i + 4, '-', '-', '>') {
            Some(e) => Some((None, e + 3)),
            None => None,
        }
    } else if n - i >= 9 && s[i + 1] == '!' && s[i + 2] == '[' && s[i + 3] == 'C' && s[i + 4] == 'D'
        && s[i + 5] == 'A' && s[i + 6] == 'T' && s[i + 7] == 'A' && s[i + 8] == '[' {
        match find3_e(s, i + 9, ']', ']', '>') {
            Some(e) => {
                let content = subrange_e(s, i + 9, e);
                Some((Some(XmlEvent::Text { content }), e + 3))
            },
            None => None,
        }
    } else if n - i >= 2 && s[i + 1] == '?' {
        match find2_e(s, i + 2, '?', '>') {
            Some(e) => Some((None, e + 2)),
            None => None,
        }
    } else if n - i >= 2 && s[i + 1] == '!' {
        match find_char_e(s, i + 2, '>') {
            Some(e) => Some((None, e + 1)),
            None => None,
        }
    } else if n - i >= 2 && s[i + 1] == '/' {
        let e1 = take_name_e(s, i + 2);
        if e1 == i + 2 {
            None
        } else {
            let name = subrange_e(s, i + 2, e1);
            let e2 = skip_ws_e(s, e1);
            if e2 < s.len() && s[e2] == '>' {
                Some((Some(XmlEvent::Close { name }), e2 + 1))
            } else {
                None
            }
        }
    } else {
        let e1 = take_name_e(s, i + 1);
        if e1 == i + 1 {
            None
        } else {
            let name = subrange_e(s, i + 1, e1);
            match attrs_e(s, e1) {
                Some((attrs, k)) => {
                    if s.len() - k >= 2 && s[k] == '/' && s[k + 1] == '>' {
                        Some((Some(XmlEvent::Open { name, attrs, self_closing: true }), k + 2))
                    } else if k < s.len() && s[k] == '>' {
                        Some((Some(XmlEvent::Open { name, attrs, self_closing: false }), k + 1))
                    } else {
                        None
                    }
                },
                None => None,
            }
        }
    }
}

/// `sp_tokens`, executably: the event sequence of the document from `i`
/// on, or `None` for a document this tokenizer cannot read.
fn tokens_e(s: &Vec<char>, i: usize) -> (r: Option<Vec<XmlEvent>>)
    requires
        i <= s@.len(),
    ensures
        match r {
            Some(evs) => sp_tokens(s@, i as int) == Some(evs.deep_view()),
            None => sp_tokens(s@, i as int) is None,
        },
    decreases s@.len() - i,
{
    if i >= s.len() {
        let empty: Vec<XmlEvent> = Vec::new();
        proof {
            assert(empty.deep_view() =~= Seq::<EventView>::empty());
        }
        Some(empty)
    } else if s[i] == '<' {
        match tag_e(s, i) {
            Some((ev_opt, j)) => match tokens_e(s, j) {
                Some(mut rest) => match ev_opt {
                    Some(ev) => {
                        rest.insert(0, ev);
                        proof {
                            let sr = sp_tokens(s@, j as int)->Some_0;
                            assert(rest.deep_view() =~= seq![rest.deep_view()[0]] + sr);
                        }
                        Some(rest)
                    },
                    None => Some(rest),
                },
                None => None,
            },
            None => None,
        }
    } else {
        match text_e(s, i) {
            Some((content, j)) => {
                proof {
                    lemma_sp_text(s@, i as int);
                }
                match tokens_e(s, j) {
                Some(mut rest) => {
                    let ghost cv = content@;
                    rest.insert(0, XmlEvent::Text { content });
                    proof {
                        let sr = sp_tokens(s@, j as int)->Some_0;
                        assert(rest.deep_view() =~= seq![EventView::Text { content: cv }] + sr);
                    }
                    Some(rest)
                },
                None => None,
            }
            },
            None => None,
        }
    }
}

/// The event sequence of the whole document, or `None` for a document
/// this tokenizer cannot read.
pub fn tokenize(s: &Vec<char>) -> (r: Option<Vec<XmlEvent>>)
    ensures
        match r {
            Some(evs) => sp_tokens(s@, 0) == Some(evs.deep_view()),
            None => sp_tokens(s@, 0) is None,
        },
{
    tokens_e(s, 0)
}

} // verus!
