//! Evaluation and clock read from the text of a move comment, where they
//! stand as `[%eval VALUE]` and `[%clk VALUE]`.
use vstd::prelude::*;

verus! {

/// The regular expression `\[%NAME ([^\]]+)`.
pub open spec fn tag_pattern(name: Seq<char>) -> Seq<char> {
    seq!['\\', '[', '%'] + name + seq![' ', '(', '[', '^', '\\', ']', ']', '+', ')']
}

/// The NAME part of a pattern built by `tag_pattern`.
pub open spec fn pattern_name(p: Seq<char>) -> Seq<char> {
    p.subrange(3, p.len() - 9)
}

pub open spec fn is_ascii_letter(c: char) -> bool {
    ('a' <= c && c <= 'z') || ('A' <= c && c <= 'Z')
}

/// A pattern `\[%NAME ([^\]]+)` whose NAME is one to sixteen ASCII letters,
/// far below the size limit of the regex compiler.
pub open spec fn is_tag_pattern(p: Seq<char>) -> bool {
    &&& p.len() > 12
    &&& pattern_name(p).len() <= 16
    &&& p == tag_pattern(pattern_name(p))
    &&& forall|i: int| 0 <= i < pattern_name(p).len() ==> is_ascii_letter(#[trigger] pattern_name(p)[i])
}

/// The text `[%NAME ` that opens a tag.
pub open spec fn tag_opening(name: Seq<char>) -> Seq<char> {
    seq!['[', '%'] + name + seq![' ']
}

/// A tag opens at `i` and is followed by at least one character other than `]`.
pub open spec fn opens_at(text: Seq<char>, name: Seq<char>, i: int) -> bool {
    let o = tag_opening(name);
    &&& 0 <= i
    &&& i + o.len() < text.len()
    &&& text.subrange(i, i + o.len()) == o
    &&& text[i + o.len()] != ']'
}

/// The first position at or after `i` where a tag opens.
pub open spec fn first_opening(text: Seq<char>, name: Seq<char>, i: int) -> Option<int>
    decreases text.len() - i,
{
    if i < 0 || i >= text.len() {
        None
    } else if opens_at(text, name, i) {
        Some(i)
    } else {
        first_opening(text, name, i + 1)
    }
}

/// The first `]` at or after `j`, or the end of the text.
pub open spec fn value_end(text: Seq<char>, j: int) -> int
    decreases text.len() - j,
{
    if j < 0 || j >= text.len() {
        text.len() as int
    } else if text[j] == ']' {
        j
    } else {
        value_end(text, j + 1)
    }
}

/// The value of the first tag NAME in `text`: what follows `[%NAME ` up to the
/// next `]` or the end, where that is not empty.
pub open spec fn tag_value(name: Seq<char>, text: Seq<char>) -> Option<Seq<char>> {
    match first_opening(text, name, 0) {
        Some(i) => {
            let j = i + tag_opening(name).len();
            Some(text.subrange(j, value_end(text, j)))
        },
        None => None,
    }
}

pub open spec fn text_of(o: Option<String>) -> Option<Seq<char>> {
    match o {
        Some(s) => Some(s@),
        None => None,
    }
}

/// Relies on regex::Regex::new, Regex::captures and Captures::get: a pattern
/// `\[%NAME ([^\]]+)` with a short NAME of ASCII letters compiles within the
/// default size limit; its leftmost match
/// starts at the first `[%NAME ` that a character other than `]` follows, and
/// its group, being greedy, runs up to the next `]` or the end of the text.
#[verifier::external_body]
fn first_capture(pattern: &str, text: &str) -> (r: Option<String>)
    requires
        is_tag_pattern(pattern@),
    ensures
        text_of(r) == tag_value(pattern_name(pattern@), text@),
{
    let re = regex::Regex::new(pattern).ok()?;
    let caps = re.captures(text)?;
    caps.get(1).map(|m| m.as_str().to_string())
}

/// The evaluation and the clock of a comment, each where present.
#[derive(Debug, Clone)]
pub struct Annotation {
    pub eval: Option<String>,
    pub clock: Option<String>,
}

/// Reads `[%eval VALUE]` and `[%clk VALUE]` from a comment.
pub fn extract_annotation(comment: &str) -> (r: Annotation)
    ensures
        text_of(r.eval) == tag_value("eval"@, comment@),
        text_of(r.clock) == tag_value("clk"@, comment@),
{
    proof {
        reveal_strlit("\\[%eval ([^\\]]+)");
        reveal_strlit("\\[%clk ([^\\]]+)");
        reveal_strlit("eval");
        reveal_strlit("clk");
        let e = "\\[%eval ([^\\]]+)"@;
        let c = "\\[%clk ([^\\]]+)"@;
        assert(pattern_name(e) =~= "eval"@);
        assert(e =~= tag_pattern(pattern_name(e)));
        assert(pattern_name(c) =~= "clk"@);
        assert(c =~= tag_pattern(pattern_name(c)));
    }
    let eval = first_capture("\\[%eval ([^\\]]+)", comment);
    let clock = first_capture("\\[%clk ([^\\]]+)", comment);
    Annotation { eval, clock }
}

} // verus!
