//! Patterns that a message is matched against.
use vstd::prelude::*;
use vstd::string::*;

verus! {

#[verifier::external_type_specification]
#[verifier::external_body]
pub struct ExRegex(regex::Regex);

#[verifier::external_type_specification]
#[verifier::external_body]
pub struct ExRegexError(regex::Error);

/// Whether the regex crate accepts `pattern` as a regular expression.
pub uninterp spec fn regex_compiles(pattern: Seq<char>) -> bool;

/// Relies on regex::Regex::new: it compiles `pattern`, or returns the reason
/// it cannot; which of the two depends on the pattern alone.
#[verifier::external_body]
fn compile(pattern: &str) -> (r: Result<regex::Regex, regex::Error>)
    ensures
        r is Ok == regex_compiles(pattern@),
{
    regex::Regex::new(pattern)
}

/// `words` separated by `|`.
pub open spec fn alternation(words: Seq<Seq<char>>) -> Seq<char>
    decreases words.len(),
{
    if words.len() == 0 {
        Seq::empty()
    } else if words.len() == 1 {
        words[0]
    } else {
        alternation(words.drop_last()) + seq!['|'] + words.last()
    }
}

/// The pattern with which one may be flirted with.
#[derive(Debug, Clone)]
pub enum FlirtPattern {
    /// A regular expression, as written.
    Regex(String),
    /// Words, any of which matches.
    Words(Vec<String>),
}

impl FlirtPattern {
    /// The regular expression that the pattern stands for.
    pub open spec fn source(&self) -> Seq<char> {
        match self {
            FlirtPattern::Regex(r) => r@,
            FlirtPattern::Words(w) => alternation(w@.map_values(|s: String| s@)),
        }
    }

    /// The regular expression that the pattern stands for, as text.
    pub fn source_text(&self) -> (r: String)
        ensures
            r@ == self.source(),
    {
        match self {
            FlirtPattern::Regex(r) => r.clone(),
            FlirtPattern::Words(words) => {
                let ghost ws = words@.map_values(|s: String| s@);
                let mut out = String::new();
                let mut i: usize = 0;
                while i < words.len()
                    invariant
                        0 <= i <= words@.len(),
                        ws == words@.map_values(|s: String| s@),
                        out@ == alternation(ws.subrange(0, i as int)),
                    decreases words@.len() - i,
                {
                    proof {
                        reveal_strlit("|");
                        assert(ws.subrange(0, i as int + 1).drop_last() =~= ws.subrange(0, i as int));
                    }
                    if i > 0 {
                        out.append("|");
                    }
                    out.append(words[i].as_str());
                    i = i + 1;
                }
                assert(ws.subrange(0, words@.len() as int) =~= ws);
                out
            },
        }
    }

    /// Compiles the pattern: the alternation of the words, or the regular
    /// expression as written. Fails where the regex crate rejects it.
    pub fn to_regex(&self) -> (r: Result<regex::Regex, regex::Error>)
        ensures
            r is Ok == regex_compiles(self.source()),
    {
        let text = self.source_text();
        compile(text.as_str())
    }
}

} // verus!
