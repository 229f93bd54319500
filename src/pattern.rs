//! Path patterns: exact paths, and paths with `*` wildcards compiled to an
//! anchored regular expression in which `*` stands for any run of characters.
use vstd::prelude::*;
use vstd::string::StrSliceExecFns;
use vstd::string::StringExecFns;

verus! {

#[verifier::external_type_specification]
#[verifier::external_body]
pub struct ExRegex(regex::Regex);

#[verifier::external_type_specification]
#[verifier::external_body]
pub struct ExRegexError(regex::Error);

/// The characters that have a meaning of their own in a regular expression.
pub open spec fn is_meta(c: char) -> bool {
    c == '\\' || c == '.' || c == '+' || c == '*' || c == '?' || c == '(' || c == ')' || c
        == '|' || c == '[' || c == ']' || c == '{' || c == '}' || c == '^' || c == '$' || c
        == '#' || c == '&' || c == '-' || c == '~'
}

/// One character as it stands in an expression that matches it literally.
pub open spec fn escape_char(c: char) -> Seq<char> {
    if is_meta(c) {
        seq!['\\', c]
    } else {
        seq![c]
    }
}

/// An expression that matches `s` literally.
pub open spec fn escaped(s: Seq<char>) -> Seq<char>
    decreases s.len(),
{
    if s.len() == 0 {
        Seq::empty()
    } else {
        escaped(s.drop_last()) + escape_char(s.last())
    }
}

/// What a character of a path specification becomes in its expression.
pub open spec fn wildcard_piece(c: char) -> Seq<char> {
    if c == '*' {
        seq!['.', '*']
    } else {
        escape_char(c)
    }
}

/// The unanchored expression for a path specification.
pub open spec fn wildcard_body(s: Seq<char>) -> Seq<char>
    decreases s.len(),
{
    if s.len() == 0 {
        Seq::empty()
    } else {
        wildcard_body(s.drop_last()) + wildcard_piece(s.last())
    }
}

/// The anchored expression for a path specification: `*` matches any run of
/// characters, `/` included, and every other character matches itself.
pub open spec fn wildcard_regex(s: Seq<char>) -> Seq<char> {
    seq!['^'] + wildcard_body(s) + seq!['$']
}

/// Whether the specification holds a wildcard.
pub open spec fn has_wildcard(s: Seq<char>) -> bool {
    s.contains('*')
}

/// What compiling the expression `src` gives.
pub uninterp spec fn regex_compiled(src: Seq<char>) -> Result<regex::Regex, regex::Error>;

/// Whether the compiled expression `re` matches somewhere in `text`.
pub uninterp spec fn regex_matches(re: regex::Regex, text: Seq<char>) -> bool;

/// Relies on regex::escape: each meta character gets a backslash before it.
#[verifier::external_body]
fn regex_escape(text: &str) -> (r: String)
    ensures
        r@ == escaped(text@),
{
    regex::escape(text)
}

/// Relies on regex::Regex::new: the outcome depends on the expression text alone.
#[verifier::external_body]
fn regex_new(src: &str) -> (r: Result<regex::Regex, regex::Error>)
    ensures
        r == regex_compiled(src@),
{
    regex::Regex::new(src)
}

/// Relies on regex::Regex::is_match: whether the expression matches in `text`.
#[verifier::external_body]
fn regex_is_match(re: &regex::Regex, text: &str) -> (r: bool)
    ensures
        r == regex_matches(*re, text@),
{
    re.is_match(text)
}

/// A compiled path specification.
pub enum PathPattern {
    /// The specification has no wildcard: a path matches when it is equal to it.
    Exact,
    /// The specification's expression.
    Wildcard(regex::Regex),
    /// The expression was refused: no path matches.
    Invalid,
}

/// The pattern that a path specification compiles to.
pub open spec fn pattern_of(spec: Seq<char>) -> PathPattern {
    if !has_wildcard(spec) {
        PathPattern::Exact
    } else {
        match regex_compiled(wildcard_regex(spec)) {
            Ok(re) => PathPattern::Wildcard(re),
            Err(_) => PathPattern::Invalid,
        }
    }
}

/// Whether the request path `path` matches the path specification `spec`.
pub open spec fn path_matches(spec: Seq<char>, path: Seq<char>) -> bool {
    match pattern_of(spec) {
        PathPattern::Exact => path == spec,
        PathPattern::Wildcard(re) => regex_matches(re, path),
        PathPattern::Invalid => false,
    }
}

/// A specification without `*` matches a path exactly when the path is equal to it.
pub proof fn lemma_exact_path(spec: Seq<char>, path: Seq<char>)
    requires
        !has_wildcard(spec),
    ensures
        path_matches(spec, path) <==> path == spec,
{
}

proof fn lemma_body_of_literal_run(p: Seq<char>, run: Seq<char>)
    requires
        !run.contains('*'),
    ensures
        wildcard_body(p + run) == wildcard_body(p) + escaped(run),
    decreases run.len(),
{
    if run.len() == 0 {
        assert(p + run =~= p);
        assert(wildcard_body(p) + escaped(run) =~= wildcard_body(p));
    } else {
        let r2 = run.drop_last();
        assert((p + run).drop_last() =~= p + r2);
        assert(!r2.contains('*')) by {
            if r2.contains('*') {
                let j = choose|j: int| 0 <= j < r2.len() && r2[j] == '*';
                assert(run[j] == '*');
            }
        }
        assert(run[run.len() - 1] != '*');
        lemma_body_of_literal_run(p, r2);
        assert(wildcard_body(p) + escaped(r2) + escape_char(run.last()) =~= wildcard_body(p)
            + escaped(run));
    }
}

/// Whether `s` holds a `*`.
fn contains_wildcard(s: &str) -> (r: bool)
    ensures
        r == has_wildcard(s@),
{
    let n = s.unicode_len();
    let mut i: usize = 0;
    while i < n
        invariant
            n == s@.len(),
            i <= n,
            forall|j: int| 0 <= j < i ==> s@[j] != '*',
        decreases n - i,
    {
        if s.get_char(i) == '*' {
            return true;
        }
        i = i + 1;
    }
    false
}

/// The anchored expression for a path specification, built from its literal
/// runs, each escaped, joined by `.*`.
pub fn wildcard_expression(spec: &str) -> (r: String)
    ensures
        r@ == wildcard_regex(spec@),
{
    let n = spec.unicode_len();
    let ghost s = spec@;
    let mut out = String::from_str("^");
    proof {
        reveal_strlit("^");
        assert(s.subrange(0, 0) =~= Seq::<char>::empty());
        assert(out@ =~= seq!['^'] + wildcard_body(s.subrange(0, 0)));
    }
    let mut start: usize = 0;
    let mut i: usize = 0;
    while i < n
        invariant
            n == s.len(),
            s == spec@,
            start <= i <= n,
            out@ == seq!['^'] + wildcard_body(s.subrange(0, start as int)),
            !s.subrange(start as int, i as int).contains('*'),
        decreases n - i,
    {
        if spec.get_char(i) == '*' {
            let ghost run = s.subrange(start as int, i as int);
            let lit = regex_escape(spec.substring_char(start, i));
            out.append(lit.as_str());
            out.append(".*");
            proof {
                reveal_strlit(".*");
                lemma_body_of_literal_run(s.subrange(0, start as int), run);
                assert(s.subrange(0, start as int) + run =~= s.subrange(0, i as int));
                assert(s.subrange(0, i as int + 1).drop_last() =~= s.subrange(0, i as int));
                assert(out@ =~= seq!['^'] + wildcard_body(s.subrange(0, i as int + 1)));
            }
            start = i + 1;
            assert(s.subrange(start as int, i as int + 1) =~= Seq::<char>::empty());
        } else {
            proof {
                let a = s.subrange(start as int, i as int + 1);
                if a.contains('*') {
                    let j = choose|j: int| 0 <= j < a.len() && a[j] == '*';
                    if j < a.len() - 1 {
                        assert(s.subrange(start as int, i as int)[j] == '*');
                    }
                }
            }
        }
        i = i + 1;
    }
    let ghost run = s.subrange(start as int, n as int);
    let lit = regex_escape(spec.substring_char(start, n));
    out.append(lit.as_str());
    out.append("$");
    proof {
        reveal_strlit("$");
        lemma_body_of_literal_run(s.subrange(0, start as int), run);
        assert(s.subrange(0, start as int) + run =~= s);
        assert(out@ =~= wildcard_regex(s));
    }
    out
}

/// Compiles a path specification: exact when it has no `*`, else its anchored
/// expression, or `Invalid` when the expression is refused.
pub fn compile(spec: &str) -> (r: PathPattern)
    ensures
        r == pattern_of(spec@),
{
    if !contains_wildcard(spec) {
        PathPattern::Exact
    } else {
        let src = wildcard_expression(spec);
        match regex_new(src.as_str()) {
            Ok(re) => PathPattern::Wildcard(re),
            Err(_) => PathPattern::Invalid,
        }
    }
}

impl PathPattern {
    /// Whether `path` matches, where `self` was compiled from `spec`.
    pub fn matches(&self, spec: &String, path: &String) -> (r: bool)
        requires
            *self == pattern_of(spec@),
        ensures
            r == path_matches(spec@, path@),
    {
        match self {
            PathPattern::Exact => *spec == *path,
            PathPattern::Wildcard(re) => regex_is_match(re, path.as_str()),
            PathPattern::Invalid => false,
        }
    }
}

} // verus!
