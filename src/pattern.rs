//! Search for a fixed text inside reads, through a compiled regular expression.

use vstd::prelude::*;
use vstd::string::StrSliceExecFns;
use regex::Regex;

verus! {

/// `regex::Regex`, a compiled regular expression, carried as an opaque value.
#[verifier::external_type_specification]
#[verifier::external_body]
pub struct ExRegex(Regex);

/// `regex::Error`, why a regular expression did not compile, carried as an opaque value.
#[verifier::external_type_specification]
#[verifier::external_body]
pub struct ExRegexError(regex::Error);

/// `p` stands in `s` starting at position `i`.
pub open spec fn occurs_at(p: Seq<char>, s: Seq<char>, i: int) -> bool {
    0 <= i && i + p.len() <= s.len() && s.subrange(i, i + p.len()) == p
}

/// `p` stands somewhere in `s`.
pub open spec fn contains(s: Seq<char>, p: Seq<char>) -> bool {
    exists|i: int| occurs_at(p, s, i)
}

/// The leftmost position at or after `from` where `p` stands in `s`.
pub open spec fn first_from(p: Seq<char>, s: Seq<char>, from: int) -> Option<int>
    decreases s.len() + 1 - from,
{
    if from < 0 || from + p.len() > s.len() {
        None
    } else if occurs_at(p, s, from) {
        Some(from)
    } else {
        first_from(p, s, from + 1)
    }
}

/// A compiled search for one fixed text.
///
/// The only constructor is [`LiteralPattern::new`], which compiles the escaped text, so the
/// regular expression held here always matches exactly `text` and nothing else.
pub struct LiteralPattern {
    re: Regex,
    text: String,
}

impl View for LiteralPattern {
    type V = Seq<char>;

    closed spec fn view(&self) -> Seq<char> {
        self.text@
    }
}

/// Whether `regex::Regex::new` accepts the escaped form of `text`. Compiling depends on the
/// pattern alone; it fails only where the compiled form would exceed the engine's size limits.
pub uninterp spec fn literal_compiles(text: Seq<char>) -> bool;

/// Relies on `regex::escape` and `regex::Regex::new`: the escaped text is compiled into a
/// regular expression that matches that text literally, or refused, depending on the text alone.
#[verifier::external_body]
fn compile_escaped(text: &str) -> (r: Result<Regex, regex::Error>)
    ensures
        r is Ok <==> literal_compiles(text@),
{
    Regex::new(&regex::escape(text))
}

/// Relies on `regex::Regex::is_match`: true iff the regular expression matches somewhere in the
/// haystack. The expression of a `LiteralPattern` matches exactly its text.
#[verifier::external_body]
fn regex_is_match(p: &LiteralPattern, hay: &str) -> (r: bool)
    ensures
        r == contains(hay@, p@),
{
    p.re.is_match(hay)
}

/// Relies on `regex::Regex::splitn` with a limit of 2: the text before the leftmost match and
/// the text after it, or the whole haystack alone when nothing matches. The expression of a
/// `LiteralPattern` matches exactly its text, and a match of it spans whole characters.
#[verifier::external_body]
fn regex_split_first(p: &LiteralPattern, hay: &str) -> (r: Vec<String>)
    ensures
        match first_from(p@, hay@, 0) {
            Some(i) => r@.len() == 2 && r@[0]@ == hay@.take(i) && r@[1]@ == hay@.skip(
                i + p@.len(),
            ),
            None => r@.len() == 1 && r@[0]@ == hay@,
        },
{
    p.re.splitn(hay, 2).map(|piece| piece.to_string()).collect()
}

impl LiteralPattern {
    /// Compiles a search for `text`; fails exactly where the regular expression engine refuses
    /// the escaped text.
    pub fn new(text: &str) -> (r: Result<LiteralPattern, regex::Error>)
        ensures
            r is Ok <==> literal_compiles(text@),
            r matches Ok(p) ==> p@ == text@,
    {
        match compile_escaped(text) {
            Ok(re) => Ok(LiteralPattern { re, text: text.to_string() }),
            Err(e) => Err(e),
        }
    }

    /// The text searched for.
    pub fn text(&self) -> (r: &str)
        ensures
            r@ == self@,
    {
        self.text.as_str()
    }

    /// Whether the text stands anywhere in `hay`.
    pub fn is_match(&self, hay: &str) -> (r: bool)
        ensures
            r == contains(hay@, self@),
    {
        regex_is_match(self, hay)
    }

    /// The character position of the leftmost occurrence of the text at or after position
    /// `from` of `hay`; `None` also when `from` lies past the end of `hay`.
    pub fn find_from(&self, hay: &str, from: usize) -> (r: Option<usize>)
        ensures
            match r {
                Some(i) => first_from(self@, hay@, from as int) == Some(i as int),
                None => first_from(self@, hay@, from as int) is None,
            },
    {
        let n = hay.unicode_len();
        if from > n {
            return None;
        }
        let tail = hay.substring_char(from, n);
        proof {
            assert(tail@ =~= hay@.skip(from as int));
            lemma_first_from_shift(self@, hay@, from as int, 0);
            lemma_first_from_is_leftmost(self@, tail@, 0);
        }
        let pieces = regex_split_first(self, tail);
        if pieces.len() < 2 {
            None
        } else {
            let j = pieces[0].as_str().unicode_len();
            Some(from + j)
        }
    }
}

/// Searching a suffix of `s` is searching `s` itself from the suffix's start on.
pub proof fn lemma_first_from_shift(p: Seq<char>, s: Seq<char>, from: int, k: int)
    requires
        0 <= from <= s.len(),
        0 <= k,
    ensures
        first_from(p, s, from + k) == match first_from(p, s.skip(from), k) {
            Some(i) => Some(i + from),
            None => None::<int>,
        },
    decreases s.len() + 1 - from - k,
{
    let t = s.skip(from);
    if from + k + p.len() > s.len() {
    } else {
        assert(t.subrange(k, k + p.len()) =~= s.subrange(from + k, from + k + p.len()));
        if !occurs_at(p, s, from + k) {
            lemma_first_from_shift(p, s, from, k + 1);
        }
    }
}

/// The leftmost occurrence found from `from` on really is an occurrence, and none stands
/// between `from` and it.
pub proof fn lemma_first_from_is_leftmost(p: Seq<char>, s: Seq<char>, from: int)
    requires
        0 <= from,
    ensures
        first_from(p, s, from) matches Some(i) ==> {
            &&& from <= i
            &&& occurs_at(p, s, i)
            &&& forall|j: int| from <= j < i ==> !occurs_at(p, s, j)
        },
        first_from(p, s, from) is None ==> forall|j: int| from <= j ==> !occurs_at(p, s, j),
    decreases s.len() + 1 - from,
{
    if from + p.len() > s.len() {
    } else if !occurs_at(p, s, from) {
        lemma_first_from_is_leftmost(p, s, from + 1);
    }
}

} // verus!
