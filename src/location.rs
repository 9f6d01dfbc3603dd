//! Where a credential lives: header templates and frame field names.

use vstd::prelude::*;
use crate::text::{matches_at, occurs_at};

verus! {

/// The placeholder `{token}` that marks the credential inside a header template.
pub open spec fn marker() -> Seq<char> {
    seq!['{', 't', 'o', 'k', 'e', 'n', '}']
}

/// The marker occurs in `t` at `i` and nowhere else.
pub open spec fn single_marker_at(t: Seq<char>, i: int) -> bool {
    occurs_at(t, marker(), i) && forall|j: int| #[trigger] occurs_at(t, marker(), j) ==> j == i
}

/// Boundary text: empty text means no boundary.
pub open spec fn bound_of(s: Seq<char>) -> Option<Seq<char>> {
    if s.len() == 0 {
        None
    } else {
        Some(s)
    }
}

/// The boundary text, or nothing.
pub open spec fn bound_text(b: Option<Seq<char>>) -> Seq<char> {
    match b {
        Some(s) => s,
        None => Seq::empty(),
    }
}

/// Split of a header template around its single marker: `(prefix, suffix)`,
/// or `None` when the marker is missing or repeated.
pub open spec fn template_split(t: Seq<char>) -> Option<(Option<Seq<char>>, Option<Seq<char>>)> {
    if exists|i: int| single_marker_at(t, i) {
        let i = choose|i: int| single_marker_at(t, i);
        Some(
            (
                bound_of(t.subrange(0, i)),
                bound_of(t.subrange(i + marker().len(), t.len() as int)),
            ),
        )
    } else {
        None
    }
}

pub open spec fn opt_view(o: Option<String>) -> Option<Seq<char>> {
    match o {
        Some(s) => Some(s@),
        None => None,
    }
}

/// A credential carried in a header, between optional literal boundaries.
#[derive(Debug)]
pub struct AuthHeader {
    pub field: String,
    /// Text before and after the credential.
    pub token_bound: (Option<String>, Option<String>),
}

impl AuthHeader {
    pub open spec fn bounds(&self) -> (Option<Seq<char>>, Option<Seq<char>>) {
        (opt_view(self.token_bound.0), opt_view(self.token_bound.1))
    }

    /// Builds a header location from a template such as `"Bearer {token}"`.
    /// Fails unless the template holds the marker exactly once.
    pub fn new(field: &str, template: &str) -> (r: Option<AuthHeader>)
        ensures
            r is Some <==> template_split(template@) is Some,
            r matches Some(h) ==> h.field@ == field@ && h.bounds() == template_split(
                template@,
            )->Some_0,
    {
        let n = template.unicode_len();
        let marker_text = "{token}";
        proof {
            reveal_strlit("{token}");
        }
        assert(marker_text@ == marker());
        let m = marker_text.unicode_len();
        let mut i: usize = 0;
        let mut found: Option<usize> = None;
        while i < n
            invariant
                n == template@.len(),
                m == 7,
                marker_text@ == marker(),
                i <= n,
                match found {
                    Some(f) => f < i && occurs_at(template@, marker(), f as int) && forall|j: int|
                        0 <= j < i && #[trigger] occurs_at(template@, marker(), j) ==> j == f,
                    None => forall|j: int|
                        0 <= j < i ==> !#[trigger] occurs_at(template@, marker(), j),
                },
            decreases n - i,
        {
            if matches_at(template, i, marker_text) {
                if found.is_some() {
                    proof {
                        let f = found->Some_0;
                        assert(!single_marker_at(template@, f as int));
                        assert forall|k: int| !single_marker_at(template@, k) by {
                            if single_marker_at(template@, k) {
                                assert(occurs_at(template@, marker(), i as int));
                                assert(occurs_at(template@, marker(), f as int));
                            }
                        };
                    }
                    return None;
                }
                found = Some(i);
            }
            i = i + 1;
        }
        assert forall|j: int| #[trigger] occurs_at(template@, marker(), j) implies 0 <= j < n by {};
        match found {
            None => {
                assert forall|k: int| !single_marker_at(template@, k) by {
                    if single_marker_at(template@, k) {
                        assert(occurs_at(template@, marker(), k));
                    }
                };
                None
            },
            Some(f) => {
                assert(single_marker_at(template@, f as int));
                let ghost k = choose|k: int| single_marker_at(template@, k);
                assert(k == f);
                let pre = if f == 0 {
                    None
                } else {
                    Some(String::from_str(template.substring_char(0, f)))
                };
                let suf = if f + m == n {
                    None
                } else {
                    Some(String::from_str(template.substring_char(f + m, n)))
                };
                let h = AuthHeader { field: String::from_str(field), token_bound: (pre, suf) };
                assert(h.bounds().0 == bound_of(template@.subrange(0, f as int)));
                assert(h.bounds().1 == bound_of(template@.subrange(f + 7, n as int)));
                Some(h)
            },
        }
    }
}

/// Rebuilding a template from the prefix and suffix that a successful split
/// yields gives back the template itself; a template whose marker is
/// missing or repeated has no split.
pub proof fn lemma_template_round_trip(t: Seq<char>)
    ensures
        (exists|i: int| single_marker_at(t, i)) <==> template_split(t) is Some,
        template_split(t) matches Some(b) ==> bound_text(b.0) + marker() + bound_text(b.1) == t,
{
    if template_split(t) is Some {
        let i = choose|i: int| single_marker_at(t, i);
        let b = template_split(t)->Some_0;
        assert(bound_text(b.0) =~= t.subrange(0, i));
        assert(bound_text(b.1) =~= t.subrange(i + 7, t.len() as int));
        assert(t.subrange(i, i + 7) == marker());
        assert(t.subrange(0, i) + t.subrange(i, i + 7) + t.subrange(i + 7, t.len() as int) =~= t);
    }
}

/// The field names used in API-key mode (and, through `key_or_token`, for a
/// token carried in a frame).
#[derive(Debug)]
pub struct AuthField {
    pub sign: Option<String>,
    pub key_or_token: String,
    pub payload: Option<String>,
}

impl AuthField {
    /// Field names for API-key mode: key, signature and payload.
    pub fn apikey(key: &str, sign: &str, payload: &str) -> (r: AuthField)
        ensures
            r.key_or_token@ == key@,
            r.sign matches Some(s) && s@ == sign@,
            r.payload matches Some(p) && p@ == payload@,
    {
        AuthField {
            sign: Some(String::from_str(sign)),
            key_or_token: String::from_str(key),
            payload: Some(String::from_str(payload)),
        }
    }
}

/// Where the primary credential lives.
#[derive(Debug)]
pub enum AuthLocation {
    Header(AuthHeader),
    FrameField(AuthField),
}

} // verus!
