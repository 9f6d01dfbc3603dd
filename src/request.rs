//! Inbound request shapes and credential extraction from them.

use vstd::prelude::*;
use crate::error::{text_outcome_view, AuthError, Failure};
use crate::location::{bound_text, AuthHeader};
use crate::text::{is_header_str, is_header_text, occurs_at, trim_bounds, trim_end, trim_start};

verus! {

/// Header names compare without regard to ASCII case.
pub open spec fn same_name_char(a: char, b: char) -> bool {
    a == b || ('A' <= a <= 'Z' && b as u32 == a as u32 + 32) || ('A' <= b <= 'Z' && a as u32
        == b as u32 + 32)
}

pub open spec fn same_name(a: Seq<char>, b: Seq<char>) -> bool {
    a.len() == b.len() && forall|i: int| 0 <= i < a.len() ==> same_name_char(#[trigger] a[i], b[i])
}

/// The value of the most recently inserted header whose name matches `name`.
pub open spec fn header_lookup(es: Seq<(Seq<char>, Seq<char>)>, name: Seq<char>) -> Option<
    Seq<char>,
>
    decreases es.len(),
{
    if es.len() == 0 {
        None
    } else if same_name(es.last().0, name) {
        Some(es.last().1)
    } else {
        header_lookup(es.drop_last(), name)
    }
}

/// One header line as received.
#[derive(Debug)]
pub struct HeaderEntry {
    pub name: String,
    pub value: String,
}

/// A set of request headers, in the order they were inserted. A later
/// insertion of a name hides earlier ones.
#[derive(Debug)]
pub struct HeaderMap {
    pub entries: Vec<HeaderEntry>,
}

impl View for HeaderMap {
    type V = Seq<(Seq<char>, Seq<char>)>;

    open spec fn view(&self) -> Seq<(Seq<char>, Seq<char>)> {
        self.entries@.map_values(|e: HeaderEntry| (e.name@, e.value@))
    }
}

fn same_name_exec(a: &str, b: &str) -> (r: bool)
    ensures
        r == same_name(a@, b@),
{
    let n = a.unicode_len();
    if n != b.unicode_len() {
        return false;
    }
    let mut i: usize = 0;
    while i < n
        invariant
            n == a@.len(),
            n == b@.len(),
            i <= n,
            forall|j: int| 0 <= j < i ==> same_name_char(#[trigger] a@[j], b@[j]),
        decreases n - i,
    {
        let x = a.get_char(i);
        let y = b.get_char(i);
        let ok = x == y || ('A' <= x && x <= 'Z' && y as u32 == x as u32 + 32) || ('A' <= y && y
            <= 'Z' && x as u32 == y as u32 + 32);
        if !ok {
            return false;
        }
        i = i + 1;
    }
    true
}

impl HeaderMap {
    pub fn new() -> (r: HeaderMap)
        ensures
            r@ == Seq::<(Seq<char>, Seq<char>)>::empty(),
    {
        let r = HeaderMap { entries: Vec::new() };
        assert(r@ =~= Seq::<(Seq<char>, Seq<char>)>::empty());
        r
    }

    /// Sets header `name` to `value`, replacing what it was.
    pub fn insert(&mut self, name: &str, value: &str)
        ensures
            final(self)@ == old(self)@.push((name@, value@)),
            header_lookup(final(self)@, name@) == Some(value@),
    {
        let e = HeaderEntry { name: String::from_str(name), value: String::from_str(value) };
        self.entries.push(e);
        assert(self@ =~= old(self)@.push((name@, value@)));
        assert(self@.drop_last() =~= old(self)@);
        assert(same_name(name@, name@));
    }

    /// The value of header `name`, if present.
    pub fn get(&self, name: &str) -> (r: Option<&str>)
        ensures
            match r {
                Some(v) => header_lookup(self@, name@) == Some(v@),
                None => header_lookup(self@, name@) is None,
            },
    {
        let mut i: usize = self.entries.len();
        assert(self@.subrange(0, i as int) =~= self@);
        while i > 0
            invariant
                i <= self.entries@.len(),
                self@.len() == self.entries@.len(),
                header_lookup(self@, name@) == header_lookup(self@.subrange(0, i as int), name@),
            decreases i,
        {
            let e = &self.entries[i - 1];
            let ghost s = self@.subrange(0, i as int);
            assert(s.last() == (e.name@, e.value@));
            if same_name_exec(e.name.as_str(), name) {
                return Some(e.value.as_str());
            }
            assert(s.drop_last() =~= self@.subrange(0, i - 1));
            i = i - 1;
        }
        None
    }
}

/// The text of the credential carried in the header that `field` names,
/// with boundary text stripped (a boundary that is absent is left alone).
pub open spec fn header_token(
    field: Seq<char>,
    bounds: (Option<Seq<char>>, Option<Seq<char>>),
    hs: Seq<(Seq<char>, Seq<char>)>,
) -> Result<Seq<char>, Failure> {
    match header_lookup(hs, field) {
        None => Err(Failure::MissingField(field)),
        Some(v) => if !is_header_text(v) {
            Err(Failure::Malformed(field))
        } else {
            Ok(trim_end(trim_start(v, bound_text(bounds.0)), bound_text(bounds.1)))
        },
    }
}

/// Extracts the credential text from the header that `template` names.
pub fn extract_token_from_header(template: &AuthHeader, headers: &HeaderMap) -> (r: Result<
    String,
    AuthError,
>)
    ensures
        text_outcome_view(r) == header_token(template.field@, template.bounds(), headers@),
{
    let field = template.field.as_str();
    let value = match headers.get(field) {
        Some(v) => v,
        None => return Err(AuthError::MissingField(String::from_str(field))),
    };
    if !is_header_str(value) {
        return Err(AuthError::Malformed(String::from_str(field)));
    }
    let pre: Option<&str> = match &template.token_bound.0 {
        Some(p) => Some(p.as_str()),
        None => None,
    };
    let suf: Option<&str> = match &template.token_bound.1 {
        Some(p) => Some(p.as_str()),
        None => None,
    };
    let (a, b) = trim_bounds(value, pre, suf);
    Ok(String::from_str(value.substring_char(a, b)))
}

/// A frame member's value: its compact JSON text, and its string content
/// when it is a JSON string.
#[derive(Debug)]
pub struct FrameValue {
    pub json: String,
    pub text: Option<String>,
}

#[derive(Debug)]
pub struct FrameMember {
    pub name: String,
    pub value: FrameValue,
}

/// A structured message frame: an object with named members, or any other
/// value.
#[derive(Debug)]
pub enum Frame {
    Object(Vec<FrameMember>),
    Value(FrameValue),
}

/// The first member of `ms` named `name`.
pub open spec fn frame_get(ms: Seq<FrameMember>, name: Seq<char>) -> Option<FrameValue>
    decreases ms.len(),
{
    if ms.len() == 0 {
        None
    } else if ms[0].name@ == name {
        Some(ms[0].value)
    } else {
        frame_get(ms.drop_first(), name)
    }
}

/// The member `name` of an object frame.
pub fn frame_member<'a>(ms: &'a Vec<FrameMember>, name: &str) -> (r: Option<&'a FrameValue>)
    ensures
        match r {
            Some(v) => frame_get(ms@, name@) == Some(*v),
            None => frame_get(ms@, name@) is None,
        },
{
    let key = String::from_str(name);
    let mut i: usize = 0;
    assert(ms@.subrange(0, ms@.len() as int) =~= ms@);
    while i < ms.len()
        invariant
            i <= ms@.len(),
            key@ == name@,
            frame_get(ms@, name@) == frame_get(ms@.subrange(i as int, ms@.len() as int), name@),
        decreases ms@.len() - i,
    {
        let ghost s = ms@.subrange(i as int, ms@.len() as int);
        assert(s[0] == ms@[i as int]);
        if ms[i].name == key {
            return Some(&ms[i].value);
        }
        assert(s.drop_first() =~= ms@.subrange(i + 1, ms@.len() as int));
        i = i + 1;
    }
    None
}

/// The string held by member `field` of a frame.
pub open spec fn frame_token(field: Seq<char>, f: Frame) -> Result<Seq<char>, Failure> {
    match f {
        Frame::Value(_) => Err(Failure::InvalidRequestShape),
        Frame::Object(ms) => match frame_get(ms@, field) {
            None => Err(Failure::MissingField(field)),
            Some(v) => match v.text {
                None => Err(Failure::Malformed(field)),
                Some(t) => Ok(t@),
            },
        },
    }
}

/// Extracts the string member `field` of a structured frame.
pub fn extract_token_from_frame(field: &str, frame: &Frame) -> (r: Result<String, AuthError>)
    ensures
        text_outcome_view(r) == frame_token(field@, *frame),
{
    match frame {
        Frame::Value(_) => Err(AuthError::InvalidRequestShape),
        Frame::Object(ms) => match frame_member(ms, field) {
            None => Err(AuthError::MissingField(String::from_str(field))),
            Some(v) => match &v.text {
                None => Err(AuthError::Malformed(String::from_str(field))),
                Some(t) => Ok(t.clone()),
            },
        },
    }
}

/// An inbound request in one of the two accepted shapes.
#[derive(Debug)]
pub enum AuthRequest {
    HttpHeader(HeaderMap),
    StructuredFrame(Frame),
}

} // verus!

verus! {

/// A header map without the configured field yields `MissingField`; a value
/// made of the prefix, a token and the suffix (the token not itself
/// repeating the boundaries) yields exactly the token.
pub proof fn lemma_header_extraction(
    field: Seq<char>,
    bounds: (Option<Seq<char>>, Option<Seq<char>>),
    hs: Seq<(Seq<char>, Seq<char>)>,
    token: Seq<char>,
)
    ensures
        header_lookup(hs, field) is None ==> header_token(field, bounds, hs) == Err::<
            Seq<char>,
            Failure,
        >(Failure::MissingField(field)),
        ({
            let pre = bound_text(bounds.0);
            let suf = bound_text(bounds.1);
            let v = pre + token + suf;
            header_lookup(hs, field) == Some(v) && is_header_text(v) && !(pre.len() > 0
                && occurs_at(token + suf, pre, 0)) && !(suf.len() > 0 && occurs_at(
                token,
                suf,
                token.len() - suf.len(),
            )) ==> header_token(field, bounds, hs) == Ok::<Seq<char>, Failure>(token)
        }),
{
    let pre = bound_text(bounds.0);
    let suf = bound_text(bounds.1);
    let v = pre + token + suf;
    let w = token + suf;
    if !(pre.len() > 0 && occurs_at(w, pre, 0)) && !(suf.len() > 0 && occurs_at(
        token,
        suf,
        token.len() - suf.len(),
    )) {
        if pre.len() > 0 {
            assert(v.subrange(0, pre.len() as int) =~= pre);
            assert(v.subrange(pre.len() as int, v.len() as int) =~= w);
        } else {
            assert(v =~= w);
        }
        assert(trim_start(w, pre) == w);
        assert(trim_start(v, pre) == w);
        if suf.len() > 0 {
            assert(w.subrange(w.len() - suf.len(), w.len() as int) =~= suf);
            assert(w.subrange(0, w.len() - suf.len()) =~= token);
        } else {
            assert(w =~= token);
        }
        assert(trim_end(token, suf) == token);
        assert(trim_end(w, suf) == token);
    }
}

/// A frame that is not an object yields `InvalidRequestShape`; an object
/// without the field yields `MissingField`; one whose field is not a string
/// yields `Malformed`.
pub proof fn lemma_frame_extraction(field: Seq<char>, f: Frame)
    ensures
        f is Value ==> frame_token(field, f) == Err::<Seq<char>, Failure>(
            Failure::InvalidRequestShape,
        ),
        f matches Frame::Object(ms) ==> (frame_get(ms@, field) is None ==> frame_token(field, f)
            == Err::<Seq<char>, Failure>(Failure::MissingField(field))),
        f matches Frame::Object(ms) ==> (frame_get(ms@, field) matches Some(v) && v.text is None
            ==> frame_token(field, f) == Err::<Seq<char>, Failure>(Failure::Malformed(field))),
{
}

} // verus!
