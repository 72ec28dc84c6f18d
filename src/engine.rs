use vstd::prelude::*;
use vstd::string::*;
use vstd::utf8::*;

verus! {

#[verifier::external_type_specification]
#[verifier::external_body]
pub struct ExRegex(regex::Regex);

/// The characters that have a meaning in a regular expression.
pub open spec fn is_meta_char(c: char) -> bool {
    c == '\\' || c == '.' || c == '+' || c == '*' || c == '?' || c == '(' || c == ')' || c == '|'
        || c == '[' || c == ']' || c == '{' || c == '}' || c == '^' || c == '$' || c == '#' || c
        == '&' || c == '-' || c == '~'
}

/// A pattern with a backslash put before every metacharacter, so that it
/// matches its own text literally.
pub open spec fn escaped_of(p: Seq<char>) -> Seq<char>
    decreases p.len(),
{
    if p.len() == 0 {
        Seq::empty()
    } else {
        let c = p[0];
        let head = if is_meta_char(c) {
            seq!['\\', c]
        } else {
            seq![c]
        };
        head + escaped_of(p.drop_first())
    }
}

/// Whether the regex crate compiles a pattern under the given options.
pub uninterp spec fn regex_accepts(p: Seq<char>, case_insensitive: bool, multi_line: bool) -> bool;

/// What a regex search reports for a pattern compiled with the given
/// options, over `hay`, from byte `start` on: `None` without a match, else
/// one entry per capture group, `None` for a group that did not take part.
pub uninterp spec fn regex_captures(
    p: Seq<char>,
    case_insensitive: bool,
    multi_line: bool,
    hay: Seq<char>,
    start: int,
) -> Option<Seq<Option<(usize, usize)>>>;

/// A compiled regular expression, with the pattern and options it was
/// compiled from.
pub struct CompiledPattern {
    re: regex::Regex,
    pattern: Ghost<Seq<char>>,
    case_insensitive: Ghost<bool>,
    multi_line: Ghost<bool>,
}

impl CompiledPattern {
    /// The pattern this was compiled from.
    pub closed spec fn source(&self) -> Seq<char> {
        self.pattern@
    }

    /// Whether it was compiled to ignore case.
    pub closed spec fn folds(&self) -> bool {
        self.case_insensitive@
    }

    /// Whether it was compiled in multi-line mode.
    pub closed spec fn multi_line_mode(&self) -> bool {
        self.multi_line@
    }
}

/// Relies on `regex::escape` (`regex_syntax::escape`): a backslash goes
/// before each metacharacter, every other character is copied.
#[verifier::external_body]
pub(crate) fn escape_pattern(p: &str) -> (r: String)
    ensures
        r@ == escaped_of(p@),
{
    regex::escape(p)
}

/// Relies on `regex::RegexBuilder` (`new`, `case_insensitive`, `multi_line`,
/// `build`): whether compiling succeeds depends on the pattern and the two
/// options alone. The compiler's error value is dropped.
#[verifier::external_body]
pub(crate) fn compile(p: &str, case_insensitive: bool, multi_line: bool) -> (r: Option<
    CompiledPattern,
>)
    ensures
        r is Some == regex_accepts(p@, case_insensitive, multi_line),
        r matches Some(c) ==> c.source() == p@ && c.folds() == case_insensitive
            && c.multi_line_mode() == multi_line,
{
    match regex::RegexBuilder::new(p).case_insensitive(case_insensitive).multi_line(multi_line).build() {
        Ok(re) => Some(CompiledPattern {
            re,
            pattern: Ghost(p@),
            case_insensitive: Ghost(case_insensitive),
            multi_line: Ghost(multi_line),
        }),
        Err(_) => None,
    }
}

/// What a regex search reports: one entry per capture group of the pattern,
/// group 0 (the whole match) first and always present, and the whole match
/// lying between the starting offset and the end of the text, with both
/// ends on character boundaries.
pub open spec fn captures_fit(g: Seq<Option<(usize, usize)>>, start: int, hay: Seq<u8>) -> bool {
    &&& g.len() >= 1
    &&& g[0] is Some
    &&& start <= g[0]->Some_0.0 <= g[0]->Some_0.1 <= hay.len()
    &&& is_char_boundary(hay, g[0]->Some_0.0 as int)
    &&& is_char_boundary(hay, g[0]->Some_0.1 as int)
}

/// Relies on `regex::Regex::captures_at`: it searches `hay` from byte `start`
/// (it panics past the end); the result depends on the compiled pattern,
/// the text and `start` alone; a match has its group 0, which lies in
/// `start..hay.len()` on character boundaries.
#[verifier::external_body]
pub(crate) fn captures_from(c: &CompiledPattern, hay: &str, start: usize) -> (r: Option<
    Vec<Option<(usize, usize)>>,
>)
    requires
        start <= hay.spec_bytes().len(),
    ensures
        r is None <==> regex_captures(
            c.source(),
            c.folds(),
            c.multi_line_mode(),
            hay@,
            start as int,
        ) is None,
        r matches Some(g) ==> regex_captures(
            c.source(),
            c.folds(),
            c.multi_line_mode(),
            hay@,
            start as int,
        ) == Some(g@),
        r matches Some(g) ==> captures_fit(g@, start as int, hay.spec_bytes()),
{
    c.re.captures_at(hay, start).map(|m| m.iter().map(|g| g.map(|g| (g.start(), g.end()))).collect())
}

} // verus!
