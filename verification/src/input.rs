//! Parsing of one line typed at the client's terminal: either plain text to
//! relay, or a slash-prefixed instruction.
//!
//! A line is trimmed first. A leading `/` (but not `//`) introduces an
//! instruction; `//` escapes a literal leading slash; anything else is text.

use vstd::prelude::*;

verus! {

use vstd::string::StrSliceExecFns;

/// True for the characters that line trimming strips: the Unicode
/// white-space characters.
pub open spec fn is_space(c: char) -> bool {
    ||| c == ' '
    ||| ('\u{09}' <= c && c <= '\u{0d}')
    ||| c == '\u{85}'
    ||| c == '\u{a0}'
    ||| c == '\u{1680}'
    ||| ('\u{2000}' <= c && c <= '\u{200a}')
    ||| c == '\u{2028}'
    ||| c == '\u{2029}'
    ||| c == '\u{202f}'
    ||| c == '\u{205f}'
    ||| c == '\u{3000}'
}

/// How many white-space characters the sequence starts with.
pub open spec fn leading_spaces(s: Seq<char>) -> int
    decreases s.len(),
{
    if s.len() == 0 || !is_space(s[0]) {
        0
    } else {
        1 + leading_spaces(s.drop_first())
    }
}

/// How many white-space characters the sequence ends with.
pub open spec fn trailing_spaces(s: Seq<char>) -> int
    decreases s.len(),
{
    if s.len() == 0 || !is_space(s.last()) {
        0
    } else {
        1 + trailing_spaces(s.drop_last())
    }
}

/// The sequence with its leading and trailing white space removed.
pub open spec fn trimmed(s: Seq<char>) -> Seq<char> {
    let l = leading_spaces(s);
    let t = trailing_spaces(s);
    if l + t <= s.len() {
        s.subrange(l, s.len() - t)
    } else {
        Seq::<char>::empty()
    }
}

/// The characters of the instruction word `quit`.
pub open spec fn quit_chars() -> Seq<char> {
    seq!['q', 'u', 'i', 't']
}

/// The characters of the instruction prefix `to:`.
pub open spec fn to_prefix_chars() -> Seq<char> {
    seq!['t', 'o', ':']
}

/// How an instruction text resolves: `quit` quits; `to:` followed by a name
/// addresses that name, trimmed; anything else is unknown and handed back.
pub open spec fn instruct_result(t: Seq<char>, r: Result<Instruct, String>) -> bool {
    if t == quit_chars() {
        r matches Ok(Instruct::Quit)
    } else if t.len() >= 3 && t.subrange(0, 3) == to_prefix_chars() {
        r matches Ok(Instruct::To(u)) && u@ == trimmed(t.subrange(3, t.len() as int))
    } else {
        r matches Err(e) && e@ == t
    }
}

proof fn lemma_leading_spaces(s: Seq<char>, l: int)
    requires
        0 <= l <= s.len(),
        forall|j: int| 0 <= j < l ==> is_space(s[j]),
        l == s.len() || !is_space(s[l]),
    ensures
        leading_spaces(s) == l,
    decreases s.len(),
{
    if l == 0 {
    } else {
        lemma_leading_spaces(s.drop_first(), l - 1);
    }
}

proof fn lemma_trailing_spaces(s: Seq<char>, e: int)
    requires
        0 <= e <= s.len(),
        forall|j: int| e <= j < s.len() ==> is_space(s[j]),
        e == 0 || !is_space(s[e - 1]),
    ensures
        trailing_spaces(s) == s.len() - e,
    decreases s.len(),
{
    if s.len() == 0 {
    } else if e == s.len() {
    } else {
        assert(is_space(s.last()));
        lemma_trailing_spaces(s.drop_last(), e);
    }
}

/// True when line trimming strips this character.
fn is_whitespace_char(c: char) -> (r: bool)
    ensures
        r == is_space(c),
{
    c == ' ' || ('\u{09}' <= c && c <= '\u{0d}') || c == '\u{85}' || c == '\u{a0}' || c
        == '\u{1680}' || ('\u{2000}' <= c && c <= '\u{200a}') || c == '\u{2028}' || c == '\u{2029}'
        || c == '\u{202f}' || c == '\u{205f}' || c == '\u{3000}'
}

/// The string with its leading and trailing white space removed.
fn trim_str(s: &str) -> (r: String)
    ensures
        r@ == trimmed(s@),
{
    let n = s.unicode_len();
    let mut start: usize = 0;
    while start < n && is_whitespace_char(s.get_char(start))
        invariant
            start <= n,
            n == s@.len(),
            forall|j: int| 0 <= j < start ==> is_space(s@[j]),
        decreases n - start,
    {
        start = start + 1;
    }
    let mut end: usize = n;
    while end > start && is_whitespace_char(s.get_char(end - 1))
        invariant
            start <= end <= n,
            n == s@.len(),
            forall|j: int| end <= j < n ==> is_space(s@[j]),
            forall|j: int| 0 <= j < start ==> is_space(s@[j]),
            start == n || !is_space(s@[start as int]),
        decreases end,
    {
        end = end - 1;
    }
    proof {
        if start == n {
            lemma_leading_spaces(s@, start as int);
            lemma_trailing_spaces(s@, 0);
        } else {
            lemma_leading_spaces(s@, start as int);
            lemma_trailing_spaces(s@, end as int);
        }
    }
    let out = s.substring_char(start, end);
    proof {
        if start == n {
            assert(trimmed(s@) =~= s@.subrange(start as int, end as int));
        }
    }
    out.to_owned()
}

/// A client instruction typed after a leading slash.
#[derive(Debug, PartialEq, Eq)]
pub enum Instruct {
    /// Address all following text lines to this identity.
    To(String),
    /// Leave the chat.
    Quit,
}

impl Instruct {
    /// Resolves the instruction text after the slash, as
    /// [`instruct_result`] describes; an unknown instruction is handed back
    /// as the error.
    pub fn new(text: &str) -> (r: Result<Instruct, String>)
        ensures
            instruct_result(text@, r),
    {
        let n = text.unicode_len();
        if n == 4 && text.get_char(0) == 'q' && text.get_char(1) == 'u' && text.get_char(2) == 'i'
            && text.get_char(3) == 't' {
            proof {
                assert(text@ =~= quit_chars());
            }
            Ok(Instruct::Quit)
        } else if n >= 3 && text.get_char(0) == 't' && text.get_char(1) == 'o' && text.get_char(2)
            == ':' {
            proof {
                assert(text@.subrange(0, 3) =~= to_prefix_chars());
                assert(text@ != quit_chars());
            }
            let name = text.substring_char(3, n);
            Ok(Instruct::To(trim_str(name)))
        } else {
            proof {
                assert(text@ != quit_chars());
                assert(!(text@.len() >= 3 && text@.subrange(0, 3) == to_prefix_chars()));
            }
            Err(text.to_owned())
        }
    }
}

/// One line typed at the terminal, resolved.
#[derive(Debug, PartialEq, Eq)]
pub enum InputType {
    /// Plain text, to relay to the currently addressed identity.
    Text(String),
    /// A slash-prefixed instruction.
    Instruct(Instruct),
}

impl InputType {
    /// Resolves one typed line. The line is trimmed; a leading `/` (but not
    /// `//`) introduces an instruction, resolved as [`instruct_result`]
    /// describes; `//` escapes a literal slash, dropping the first one; any
    /// other line is plain text.
    pub fn parse(line: &str) -> (r: Result<InputType, String>)
        ensures
            ({
                let t = trimmed(line@);
                if t.len() >= 1 && t[0] == '/' && !(t.len() >= 2 && t[1] == '/') {
                    match r {
                        Ok(InputType::Instruct(i)) => instruct_result(
                            t.subrange(1, t.len() as int),
                            Ok(i),
                        ),
                        Err(e) => instruct_result(t.subrange(1, t.len() as int), Err(e)),
                        _ => false,
                    }
                } else if t.len() >= 2 && t[0] == '/' && t[1] == '/' {
                    r matches Ok(InputType::Text(x)) && x@ == t.subrange(1, t.len() as int)
                } else {
                    r matches Ok(InputType::Text(x)) && x@ == t
                }
            }),
    {
        let t = trim_str(line);
        let ts = t.as_str();
        let n = ts.unicode_len();
        if n >= 1 && ts.get_char(0) == '/' && !(n >= 2 && ts.get_char(1) == '/') {
            match Instruct::new(ts.substring_char(1, n)) {
                Ok(instruct) => Ok(InputType::Instruct(instruct)),
                Err(e) => Err(e),
            }
        } else if n >= 2 && ts.get_char(0) == '/' && ts.get_char(1) == '/' {
            Ok(InputType::Text(ts.substring_char(1, n).to_owned()))
        } else {
            Ok(InputType::Text(t))
        }
    }
}

} // verus!
