use vstd::prelude::*;
use vstd::string::*;
use vstd::utf8::*;
use std::ops::Range;
use crate::bytes::{
    boundary_at_or_after, find_bytes, lemma_boundary_not_before,
    lemma_first_match_not_before, first_occurrence, round_up_to_boundary,
};
use crate::casefold::{lower_of, lowercase};
use crate::error::Error;
use crate::engine::{
    captures_fit, captures_from, compile, escape_pattern, escaped_of, regex_accepts, regex_captures,
    CompiledPattern,
};
use crate::text::Text;

verus! {

broadcast use vstd::utf8::group_utf8_lib;

/// The range recorded for a capture group: its span, or an empty range at
/// 0 for a group that did not take part in the match.
pub open spec fn group_range(o: Option<(usize, usize)>) -> Range<usize> {
    match o {
        Some((s, e)) => Range { start: s, end: e },
        None => Range { start: 0, end: 0 },
    }
}

/// Where the search resumes after a match `s..e`: at its end, or, for an
/// empty match, at the next character boundary after it, so that no offset
/// is matched twice. Past the end of the text this is one past the length.
pub open spec fn resume_after(b: Seq<u8>, s: int, e: int) -> int {
    if s != e {
        e
    } else if e < b.len() {
        boundary_at_or_after(b, e + 1)
    } else if e < usize::MAX {
        e + 1
    } else {
        e
    }
}

/// The match that the substring backend finds in the bytes `b` from offset
/// `resume`, as a byte range of `b`. The search starts at the first
/// character boundary at or after `resume`. Without case folding it looks
/// for the pattern's bytes; with it, it looks for the lowercased pattern in
/// the lowercased remainder and reports that offset and the pattern's own
/// length as if they held in the original text.
pub open spec fn lite_match(b: Seq<u8>, resume: int, pattern: Seq<char>, fold: bool) -> Option<
    (int, int),
> {
    if resume > b.len() {
        None
    } else {
        let s0 = boundary_at_or_after(b, resume);
        let rest = b.subrange(s0, b.len() as int);
        let found = if fold {
            first_occurrence(encode_utf8(lower_of(decode_utf8(rest))), encode_utf8(lower_of(pattern)))
        } else {
            first_occurrence(rest, encode_utf8(pattern))
        };
        match found {
            Some(k) => if s0 + k + encode_utf8(pattern).len() <= usize::MAX {
                Some((s0 + k, s0 + k + encode_utf8(pattern).len()))
            } else {
                None
            },
            None => None,
        }
    }
}

enum Backend {
    Full(CompiledPattern),
    Lite { pattern: String, case_insensitive: bool },
}

/// A resumable search over a private copy of a snapshot's text.
///
/// Each call of `next` looks for the next match at or after the resume
/// offset, so the offset may be moved between calls. Two backends share
/// the interface: a regular-expression one with capture groups, and a
/// substring one without.
pub struct SearchCursor {
    backend: Backend,
    text: String,
    last_idx: usize,
    captures: Option<Vec<Range<usize>>>,
}

impl SearchCursor {
    pub const CASE_INSENSITIVE: i32 = 1;

    pub const MULTILINE: i32 = 2;

    pub const LITERAL: i32 = 4;

    /// The searched text.
    pub closed spec fn text_view(&self) -> Seq<char> {
        self.text@
    }

    /// The searched text as UTF-8 bytes; match ranges index into it.
    pub open spec fn text_bytes(&self) -> Seq<u8> {
        encode_utf8(self.text_view())
    }

    /// The offset from which the next search starts.
    pub closed spec fn resume(&self) -> usize {
        self.last_idx
    }

    /// The groups of the last match since the last reset, if any.
    pub closed spec fn groups(&self) -> Option<Seq<Range<usize>>> {
        match self.captures {
            Some(v) => Some(v@),
            None => None,
        }
    }

    /// Whether this cursor uses the substring backend.
    pub closed spec fn is_lite(&self) -> bool {
        self.backend is Lite
    }

    /// The substring backend's pattern.
    pub closed spec fn lite_pattern(&self) -> Seq<char> {
        match self.backend {
            Backend::Lite { pattern, .. } => pattern@,
            Backend::Full(_) => Seq::empty(),
        }
    }

    /// Whether the substring backend folds case.
    pub closed spec fn lite_folds(&self) -> bool {
        match self.backend {
            Backend::Lite { case_insensitive, .. } => case_insensitive,
            Backend::Full(_) => false,
        }
    }

    /// The pattern that the regular-expression backend was compiled from.
    pub closed spec fn full_pattern_model(&self) -> Seq<char> {
        match self.backend {
            Backend::Full(c) => c.source(),
            Backend::Lite { .. } => Seq::empty(),
        }
    }

    /// Whether the regular-expression backend ignores case.
    pub closed spec fn full_folds(&self) -> bool {
        match self.backend {
            Backend::Full(c) => c.folds(),
            Backend::Lite { .. } => false,
        }
    }

    /// Whether the regular-expression backend is in multi-line mode.
    pub closed spec fn full_multi_line(&self) -> bool {
        match self.backend {
            Backend::Full(c) => c.multi_line_mode(),
            Backend::Lite { .. } => false,
        }
    }

    /// Whether two cursors use the same backend with the same pattern and
    /// options.
    pub open spec fn same_backend(&self, other: &SearchCursor) -> bool {
        &&& self.is_lite() == other.is_lite()
        &&& self.lite_pattern() == other.lite_pattern()
        &&& self.lite_folds() == other.lite_folds()
        &&& self.full_pattern_model() == other.full_pattern_model()
        &&& self.full_folds() == other.full_folds()
        &&& self.full_multi_line() == other.full_multi_line()
    }

    /// What the regular-expression backend reports when it searches the
    /// text from the resume offset.
    pub open spec fn full_search(&self) -> Option<Seq<Option<(usize, usize)>>> {
        regex_captures(
            self.full_pattern_model(),
            self.full_folds(),
            self.full_multi_line(),
            self.text_view(),
            self.resume() as int,
        )
    }

    /// The pattern that the regular-expression backend compiles for `pattern`
    /// under `flags`.
    pub open spec fn full_pattern(pattern: Seq<char>, flags: i32) -> Seq<char> {
        if flags & 4 != 0 {
            escaped_of(pattern)
        } else {
            pattern
        }
    }

    /// Number of groups reported: zero before any match and for the
    /// substring backend, else the groups besides the whole match.
    pub open spec fn spec_group_count(&self) -> i32 {
        if self.is_lite() {
            0
        } else {
            match self.groups() {
                None => 0,
                Some(g) => if g.len() == 0 {
                    0
                } else if g.len() - 1 > i32::MAX {
                    i32::MAX
                } else {
                    (g.len() - 1) as i32
                },
            }
        }
    }

    /// Group `i` of the last match, if there is one and the pattern has it.
    pub open spec fn spec_group(&self, i: int) -> Option<Range<usize>> {
        if self.is_lite() {
            None
        } else {
            match self.groups() {
                Some(g) => if 0 <= i < g.len() {
                    Some(g[i])
                } else {
                    None
                },
                None => None,
            }
        }
    }

    /// A cursor with the regular-expression backend. With `LITERAL` the
    /// pattern is escaped first; `CASE_INSENSITIVE` and `MULTILINE` are
    /// passed to the compiler. Fails with `InvalidPattern` exactly when the
    /// pattern does not compile.
    pub fn new(pattern: &str, flags: i32, text: &Text) -> (r: Result<SearchCursor, Error>)
        ensures
            r is Ok <==> regex_accepts(
                Self::full_pattern(pattern@, flags),
                flags & 1 != 0,
                flags & 2 != 0,
            ),
            r is Err ==> r == Err::<SearchCursor, Error>(Error::InvalidPattern),
            r matches Ok(re) ==> {
                &&& !re.is_lite()
                &&& re.full_pattern_model() == Self::full_pattern(pattern@, flags)
                &&& re.full_folds() == (flags & 1 != 0)
                &&& re.full_multi_line() == (flags & 2 != 0)
                &&& re.text_view() == text.content@
                &&& re.resume() == 0
                &&& re.groups() is None
            },
    {
        let literal = flags & Self::LITERAL != 0;
        let escaped: String;
        let final_pattern: &str = if literal {
            escaped = escape_pattern(pattern);
            escaped.as_str()
        } else {
            pattern
        };
        match compile(
            final_pattern,
            flags & Self::CASE_INSENSITIVE != 0,
            flags & Self::MULTILINE != 0,
        ) {
            Some(inner) => Ok(
                SearchCursor {
                    backend: Backend::Full(inner),
                    text: text.content.clone(),
                    last_idx: 0,
                    captures: None,
                },
            ),
            None => Err(Error::InvalidPattern),
        }
    }

    /// A cursor with the substring backend. The pattern is always taken
    /// literally and `MULTILINE` has no effect; `CASE_INSENSITIVE` folds
    /// case. Never fails.
    pub fn new_lite(pattern: &str, flags: i32, text: &Text) -> (r: Result<SearchCursor, Error>)
        ensures
            r matches Ok(re) && {
                &&& re.is_lite()
                &&& re.lite_pattern() == pattern@
                &&& re.lite_folds() == (flags & 1 != 0)
                &&& re.text_view() == text.content@
                &&& re.resume() == 0
                &&& re.groups() is None
            },
    {
        Ok(
            SearchCursor {
                backend: Backend::Lite {
                    pattern: pattern.to_owned(),
                    case_insensitive: flags & Self::CASE_INSENSITIVE != 0,
                },
                text: text.content.clone(),
                last_idx: 0,
                captures: None,
            },
        )
    }

    /// Searches the current text of `text` from `offset` on, forgetting the
    /// last match. The caller refreshes the snapshot first.
    pub fn set_text(&mut self, text: &Text, offset: usize)
        ensures
            final(self).text_view() == text.content@,
            final(self).resume() == offset,
            final(self).groups() is None,
            final(self).same_backend(old(self)),
    {
        self.text = text.content.clone();
        self.reset(offset);
    }

    /// Moves the resume offset to `offset` and forgets the last match; the
    /// text stays as it is.
    pub fn reset(&mut self, offset: usize)
        ensures
            final(self).text_view() == old(self).text_view(),
            final(self).resume() == offset,
            final(self).groups() is None,
            final(self).same_backend(old(self)),
    {
        self.last_idx = offset;
        self.captures = None;
    }

    /// The number of capture groups of the last match, besides the whole
    /// match.
    pub fn group_count(&self) -> (r: i32)
        ensures
            r == self.spec_group_count(),
    {
        match &self.backend {
            Backend::Lite { .. } => 0,
            Backend::Full(_) => match &self.captures {
                Some(c) => {
                    let n = c.len();
                    if n == 0 {
                        0
                    } else if n - 1 > i32::MAX as usize {
                        i32::MAX
                    } else {
                        (n - 1) as i32
                    }
                },
                None => 0,
            },
        }
    }

    /// The byte range of capture group `group` of the last match: group 0
    /// is the whole match; a group that did not take part is an empty range
    /// at 0; a group the pattern does not have is `None`.
    pub fn group(&self, group: i32) -> (r: Option<Range<usize>>)
        ensures
            r == self.spec_group(group as int),
    {
        match &self.backend {
            Backend::Lite { .. } => None,
            Backend::Full(_) => match &self.captures {
                Some(c) => {
                    if group < 0 || group as usize >= c.len() {
                        None
                    } else {
                        let g = &c[group as usize];
                        Some(Range { start: g.start, end: g.end })
                    }
                },
                None => None,
            },
        }
    }

    /// Records the outcome of a regex search made from the resume offset.
    /// With no match nothing changes and `None` is returned. With a match
    /// its groups are kept (an empty range at 0 for each group that did not
    /// take part), the resume offset moves past it as `resume_after` says,
    /// and the whole match is returned.
    pub fn accept_captures(&mut self, found: Option<Vec<Option<(usize, usize)>>>) -> (r: Option<
        Range<usize>,
    >)
        requires
            old(self).resume() <= old(self).text_bytes().len(),
            found matches Some(g) ==> captures_fit(g@, old(self).resume() as int, old(self).text_bytes()),
        ensures
            found is None ==> r is None && *final(self) == *old(self),
            found matches Some(g) ==> {
                let (s, e) = g@[0]->Some_0;
                &&& r == Some(Range { start: s, end: e })
                &&& final(self).groups() == Some(g@.map_values(|o| group_range(o)))
                &&& final(self).resume() == resume_after(old(self).text_bytes(), s as int, e as int)
                &&& final(self).text_view() == old(self).text_view()
                &&& final(self).same_backend(old(self))
            },
    {
        match found {
            None => None,
            Some(g) => {
                let mut groups: Vec<Range<usize>> = Vec::new();
                let mut i: usize = 0;
                while i < g.len()
                    invariant
                        i <= g@.len(),
                        groups@ == g@.subrange(0, i as int).map_values(|o| group_range(o)),
                    decreases g@.len() - i,
                {
                    let range = match g[i] {
                        Some((s, e)) => Range { start: s, end: e },
                        None => Range { start: 0, end: 0 },
                    };
                    groups.push(range);
                    assert(g@.subrange(0, i + 1) =~= g@.subrange(0, i as int).push(g@[i as int]));
                    i = i + 1;
                }
                assert(g@.subrange(0, g@.len() as int) =~= g@);
                let (s, e) = match g[0] {
                    Some(m) => m,
                    None => (0, 0),
                };
                let n: usize = self.text.as_str().as_bytes().len();
                let next_idx: usize = if s != e {
                    e
                } else if e < n {
                    round_up_to_boundary(self.text.as_str(), e + 1)
                } else if e < usize::MAX {
                    e + 1
                } else {
                    e
                };
                self.captures = Some(groups);
                self.last_idx = next_idx;
                Some(Range { start: s, end: e })
            },
        }
    }

    fn next_lite(&mut self) -> (r: Option<Range<usize>>)
        requires
            old(self).is_lite(),
        ensures
            Self::lite_outcome(*old(self), *final(self), r),
    {
        let n: usize = self.text.as_str().as_bytes().len();
        if self.last_idx > n {
            return None;
        }
        let found: Option<(usize, usize)> = match &self.backend {
            Backend::Lite { pattern, case_insensitive } => {
                let s0 = round_up_to_boundary(self.text.as_str(), self.last_idx);
                let (_, rest) = self.text.as_str().split_at(s0);
                let k = if *case_insensitive {
                    let lowered_rest = lowercase(rest);
                    let lowered_pattern = lowercase(pattern.as_str());
                    find_bytes(lowered_rest.as_str().as_bytes(), lowered_pattern.as_str().as_bytes())
                } else {
                    find_bytes(rest.as_bytes(), pattern.as_str().as_bytes())
                };
                proof {
                    encode_utf8_decode_utf8(rest@);
                    assert(rest@ == decode_utf8(self.text_bytes().subrange(s0 as int, n as int)));
                }
                match k {
                    Some(k) => {
                        let plen = pattern.as_str().as_bytes().len();
                        match s0.checked_add(k) {
                            Some(start) => match start.checked_add(plen) {
                                Some(end) => Some((start, end)),
                                None => None,
                            },
                            None => None,
                        }
                    },
                    None => None,
                }
            },
            Backend::Full(_) => None,
        };
        match found {
            Some((start, end)) => {
                self.last_idx = end;
                Some(Range { start, end })
            },
            None => None,
        }
    }

    /// What one step of the substring backend does: the match that
    /// `lite_match` gives is returned and the search resumes at its end;
    /// without one nothing changes.
    pub open spec fn lite_outcome(before: SearchCursor, after: SearchCursor, r: Option<Range<usize>>) -> bool {
        match lite_match(
            before.text_bytes(),
            before.resume() as int,
            before.lite_pattern(),
            before.lite_folds(),
        ) {
            Some((s, e)) => {
                &&& r == Some(Range { start: s as usize, end: e as usize })
                &&& after.resume() == e
                &&& after.text_view() == before.text_view()
                &&& after.groups() == before.groups()
                &&& after.same_backend(&before)
            },
            None => r is None && after == before,
        }
    }

    /// The next match at or after the resume offset, as a byte range of the
    /// text, or `None` once the resume offset is past the end of the text or
    /// nothing more matches.
    ///
    /// The substring backend behaves as `lite_outcome` says. The regex
    /// backend searches from the resume offset (`full_search`) and hands what
    /// it found to `accept_captures`: without a match nothing changes; with
    /// one, its groups are kept, the search resumes past it as
    /// `resume_after` says, and group 0 is returned.
    pub fn next(&mut self) -> (r: Option<Range<usize>>)
        ensures
            old(self).resume() > old(self).text_bytes().len() ==> r is None && *final(self) == *old(self),
            final(self).resume() >= old(self).resume(),
            old(self).is_lite() ==> Self::lite_outcome(*old(self), *final(self), r),
            !old(self).is_lite() && old(self).resume() <= old(self).text_bytes().len() ==> match old(
                self,
            ).full_search() {
                None => r is None && *final(self) == *old(self),
                Some(g) => {
                    &&& r == Some(group_range(g[0]))
                    &&& final(self).groups() == Some(g.map_values(|o| group_range(o)))
                    &&& final(self).resume() == resume_after(
                        old(self).text_bytes(),
                        g[0]->Some_0.0 as int,
                        g[0]->Some_0.1 as int,
                    )
                    &&& final(self).text_view() == old(self).text_view()
                    &&& final(self).same_backend(old(self))
                },
            },
            !old(self).is_lite() ==> (r matches Some(m) ==> {
                &&& old(self).resume() <= m.start <= m.end <= old(self).text_bytes().len()
                &&& is_char_boundary(old(self).text_bytes(), m.start as int)
                &&& is_char_boundary(old(self).text_bytes(), m.end as int)
                &&& final(self).spec_group(0) == Some(m)
            }),
    {
        if let Backend::Lite { .. } = &self.backend {
            proof {
                lemma_boundary_not_before(self.text_bytes(), self.last_idx as int);
                let b = self.text_bytes();
                let s0 = boundary_at_or_after(b, self.last_idx as int);
                let rest = b.subrange(s0, b.len() as int);
                lemma_first_match_not_before(rest, encode_utf8(self.lite_pattern()), 0);
                lemma_first_match_not_before(
                    encode_utf8(lower_of(decode_utf8(rest))),
                    encode_utf8(lower_of(self.lite_pattern())),
                    0,
                );
            }
            return self.next_lite();
        }
        let n: usize = self.text.as_str().as_bytes().len();
        if self.last_idx > n {
            return None;
        }
        let found = match &self.backend {
            Backend::Full(re) => captures_from(re, self.text.as_str(), self.last_idx),
            Backend::Lite { .. } => None,
        };
        proof {
            if found is Some {
                let e = found->Some_0@[0]->Some_0.1;
                lemma_boundary_not_before(self.text_bytes(), e + 1);
            }
        }
        self.accept_captures(found)
    }
}

} // verus!
