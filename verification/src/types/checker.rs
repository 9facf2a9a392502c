//! Type names as the compiler prints them, made shorter.

use vstd::prelude::*;
use vstd::string::StringExecFns;
use crate::types::text::{chars_of, is_white_space, push_chars};

verus! {

/// Where the part of `text` after its last `::` starts; 0 where it holds
/// no `::`.
pub open spec fn tail_start(text: Seq<char>) -> int
    decreases text.len(),
{
    if text.len() < 2 {
        0
    } else if text[text.len() - 2] == ':' && text[text.len() - 1] == ':' {
        text.len() as int
    } else {
        tail_start(text.drop_last())
    }
}

/// The part of `text` after its last `::`, or all of it.
pub open spec fn simplify_nonlist_spec(text: Seq<char>) -> Seq<char> {
    text.skip(tail_start(text))
}

/// The characters of `text` that are no whitespace.
pub open spec fn solid(text: Seq<char>) -> Seq<char> {
    text.filter(|c: char| !is_white_space(c))
}

/// `text` holds `<` or `>`.
pub open spec fn has_angle(text: Seq<char>) -> bool {
    exists|i: int| 0 <= i < text.len() && (#[trigger] text[i] == '<' || text[i] == '>')
}

/// `text` holds `<` or `>`, or it starts with `[` and ends with `]`,
/// whitespace around them not counted.
pub open spec fn is_list_like_spec(text: Seq<char>) -> bool {
    has_angle(text) || (solid(text).len() > 0 && solid(text).first() == '[' && solid(text).last()
        == ']')
}

/// Removes namespace qualifiers from a type name without generics: what
/// follows the last `::` is kept.
pub fn simplify_nonlist_type(type_str: &str) -> (name: String)
    ensures
        name@ == simplify_nonlist_spec(type_str@),
{
    let chars = chars_of(type_str);
    let len = chars.len();
    let mut end: usize = len;
    assert(chars@.take(len as int) =~= chars@);
    while end >= 2 && !(chars[end - 2] == ':' && chars[end - 1] == ':')
        invariant
            end <= len == chars@.len(),
            tail_start(chars@) == tail_start(chars@.take(end as int)),
        decreases end,
    {
        assert(chars@.take(end as int).drop_last() =~= chars@.take(end - 1));
        end -= 1;
    }
    let start: usize = if end >= 2 { end } else { 0 };
    assert(chars@.take(len as int) =~= chars@);
    let mut name = String::new();
    push_chars(&mut name, &chars, start, len);
    assert(name@ =~= chars@.skip(start as int));
    name
}

proof fn lemma_solid_push(text: Seq<char>, c: char)
    ensures
        solid(text.push(c)) == if is_white_space(c) {
            solid(text)
        } else {
            solid(text).push(c)
        },
{
    reveal(Seq::filter);
    assert(text.push(c).drop_last() =~= text);
}

/// Checks whether a type name looks generic (`Vec<T>`) or like a slice or
/// an array (`[T]`).
pub fn is_list_like(type_str: &str) -> (list: bool)
    ensures
        list == is_list_like_spec(type_str@),
{
    let mut first: Option<char> = None;
    let mut last: Option<char> = None;
    proof {
        reveal(Seq::filter);
    }
    for c in it: type_str.chars()
        invariant
            it.seq() == type_str@,
            !has_angle(type_str@.take(it.index() as int)),
            first == if solid(type_str@.take(it.index() as int)).len() > 0 {
                Some(solid(type_str@.take(it.index() as int)).first())
            } else {
                None
            },
            last == if solid(type_str@.take(it.index() as int)).len() > 0 {
                Some(solid(type_str@.take(it.index() as int)).last())
            } else {
                None
            },
    {
        let ghost seen = type_str@.take(it.index() as int);
        proof {
            lemma_solid_push(seen, c);
            assert(type_str@.take(it.index() + 1) =~= seen.push(c));
        }
        if c == '<' || c == '>' {
            assert(type_str@[it.index() as int] == c);
            return true;
        }
        assert(!has_angle(seen.push(c))) by {
            if has_angle(seen.push(c)) {
                let i = choose|i: int|
                    0 <= i < seen.push(c).len() && (#[trigger] seen.push(c)[i] == '<' || seen.push(
                        c,
                    )[i] == '>');
                if i < seen.len() {
                    assert(seen[i] == seen.push(c)[i]);
                }
            }
        }
        if !c.is_whitespace() {
            if first.is_none() {
                first = Some(c);
            }
            last = Some(c);
        }
    }
    assert(type_str@.take(type_str@.len() as int) =~= type_str@);
    match (first, last) {
        (Some(a), Some(b)) => a == '[' && b == ']',
        _ => false,
    }
}

/// A character with which a path segment may start: a letter or `_`.
pub open spec fn is_ident_start(c: char) -> bool {
    ||| 'a' <= c <= 'z'
    ||| 'A' <= c <= 'Z'
    ||| c == '_'
}

/// A character of a path segment: a letter, a digit or `_`.
pub open spec fn is_ident_char(c: char) -> bool {
    is_ident_start(c) || '0' <= c <= '9'
}

/// The end of the longest run of segment characters that starts at `from`.
pub open spec fn run_end(text: Seq<char>, from: int) -> int
    decreases text.len() - from,
{
    if 0 <= from < text.len() && is_ident_char(text[from]) {
        run_end(text, from + 1)
    } else {
        from
    }
}

/// Where the qualifier that starts at `at` ends: a segment, as long as it
/// can be, and `::` right after it. `None` where no qualifier starts.
pub open spec fn qualifier_end(text: Seq<char>, at: int) -> Option<int> {
    let colon = run_end(text, at + 1);
    if 0 <= at < text.len() && is_ident_start(text[at]) && colon + 1 < text.len() && text[colon]
        == ':' && text[colon + 1] == ':' {
        Some(colon + 2)
    } else {
        None
    }
}

/// Where the longest chain of qualifiers that starts at `at` ends. `None`
/// where no qualifier starts.
pub open spec fn chain_end(text: Seq<char>, at: int) -> Option<int>
    decreases text.len() - at,
{
    match qualifier_end(text, at) {
        None => None,
        Some(next) => if at < next <= text.len() {
            match chain_end(text, next) {
                Some(end) => Some(end),
                None => Some(next),
            }
        } else {
            Some(next)
        },
    }
}

/// `text` from `from` on without its qualifiers: read from the left, every
/// chain of qualifiers is left out as soon as one starts.
pub open spec fn without_qualifiers_from(text: Seq<char>, from: int) -> Seq<char>
    decreases text.len() - from,
{
    if from < 0 || from >= text.len() {
        Seq::empty()
    } else {
        match chain_end(text, from) {
            Some(end) => if from < end <= text.len() {
                without_qualifiers_from(text, end)
            } else {
                Seq::empty()
            },
            None => seq![text[from]] + without_qualifiers_from(text, from + 1),
        }
    }
}

/// `text` without its qualifiers.
pub open spec fn without_qualifiers(text: Seq<char>) -> Seq<char> {
    without_qualifiers_from(text, 0)
}

proof fn lemma_run_end_bounds(text: Seq<char>, from: int)
    requires
        0 <= from <= text.len(),
    ensures
        from <= run_end(text, from) <= text.len(),
    decreases text.len() - from,
{
    if from < text.len() && is_ident_char(text[from]) {
        lemma_run_end_bounds(text, from + 1);
    }
}

proof fn lemma_chain_end_bounds(text: Seq<char>, at: int)
    requires
        0 <= at <= text.len(),
    ensures
        chain_end(text, at) is Some ==> at < chain_end(text, at)->Some_0 <= text.len(),
        qualifier_end(text, at) is Some ==> at < qualifier_end(text, at)->Some_0 <= text.len(),
    decreases text.len() - at,
{
    if at < text.len() {
        lemma_run_end_bounds(text, at + 1);
        if let Some(next) = qualifier_end(text, at) {
            lemma_chain_end_bounds(text, next);
        }
    }
}

fn is_start(c: char) -> (b: bool)
    ensures
        b == is_ident_start(c),
{
    ('a' <= c && c <= 'z') || ('A' <= c && c <= 'Z') || c == '_'
}

fn find_qualifier_end(text: &Vec<char>, at: usize) -> (end: Option<usize>)
    requires
        at <= text@.len(),
    ensures
        end is Some <==> qualifier_end(text@, at as int) is Some,
        end is Some ==> qualifier_end(text@, at as int) == Some(end->Some_0 as int) && at
            < end->Some_0 <= text@.len(),
{
    let len = text.len();
    if at >= len || !is_start(text[at]) {
        return None;
    }
    let mut colon: usize = at + 1;
    while colon < len && (is_start(text[colon]) || ('0' <= text[colon] && text[colon] <= '9'))
        invariant
            at < colon <= len == text@.len(),
            run_end(text@, at + 1) == run_end(text@, colon as int),
        decreases len - colon,
    {
        colon += 1;
    }
    if len - colon >= 2 && text[colon] == ':' && text[colon + 1] == ':' {
        Some(colon + 2)
    } else {
        None
    }
}

fn find_chain_end(text: &Vec<char>, at: usize) -> (end: Option<usize>)
    requires
        at <= text@.len(),
    ensures
        end is Some <==> chain_end(text@, at as int) is Some,
        end is Some ==> chain_end(text@, at as int) == Some(end->Some_0 as int) && at
            < end->Some_0 <= text@.len(),
{
    match find_qualifier_end(text, at) {
        None => None,
        Some(first) => {
            let mut end: usize = first;
            proof {
                lemma_chain_end_bounds(text@, at as int);
            }
            loop
                invariant
                    at < end <= text@.len(),
                    chain_end(text@, at as int) == match chain_end(text@, end as int) {
                        Some(e) => Some(e),
                        None => Some(end as int),
                    },
                decreases text@.len() - end,
            {
                match find_qualifier_end(text, end) {
                    None => {
                        return Some(end);
                    },
                    Some(next) => {
                        end = next;
                    },
                }
            }
        },
    }
}

/// Appends `token` without its qualifiers to `out`.
fn push_without_qualifiers(out: &mut String, token: &Vec<char>)
    ensures
        final(out)@ == old(out)@ + without_qualifiers(token@),
{
    let len = token.len();
    let mut at: usize = 0;
    while at < len
        invariant
            at <= len == token@.len(),
            out@ + without_qualifiers_from(token@, at as int) == old(out)@ + without_qualifiers(
                token@,
            ),
        decreases len - at,
    {
        let ghost before = out@;
        match find_chain_end(token, at) {
            Some(end) => {
                at = end;
            },
            None => {
                out.push(token[at]);
                assert(out@ + without_qualifiers_from(token@, at + 1) =~= before
                    + without_qualifiers_from(token@, at as int));
                at += 1;
            },
        }
    }
    assert(out@ =~= out@ + without_qualifiers_from(token@, at as int));
}

/// What has been read of a type name: the tokens that are closed, the token
/// that is open, how many `<` are open, whether the open token holds `::`,
/// and the last character read that was none of `<`, `>` and a separating
/// comma.
pub struct Scan {
    pub done: Seq<char>,
    pub token: Seq<char>,
    pub depth: int,
    pub qualified: bool,
    pub last: char,
}

/// `done` with `token` appended: after `", "` where `done` is not empty,
/// and without its qualifiers where it holds `::`.
pub open spec fn close_token(done: Seq<char>, token: Seq<char>, qualified: bool) -> Seq<char> {
    let lead = if done.len() > 0 {
        done + ", "@
    } else {
        done
    };
    if qualified {
        lead + without_qualifiers(token)
    } else {
        lead + token
    }
}

/// Reads one character. `<` and `>` open and close a bracket and belong to
/// the token; a comma outside all brackets closes the token; every other
/// character belongs to the token, and a `:` right after a `:` marks it as
/// qualified.
pub open spec fn scan_step(s: Scan, c: char) -> Scan {
    if c == '<' {
        Scan { token: s.token.push(c), depth: s.depth + 1, ..s }
    } else if c == '>' {
        Scan { token: s.token.push(c), depth: s.depth - 1, ..s }
    } else if c == ',' && s.depth == 0 {
        Scan {
            done: close_token(s.done, s.token, s.qualified),
            token: Seq::empty(),
            qualified: false,
            ..s
        }
    } else {
        Scan {
            token: s.token.push(c),
            qualified: s.qualified || (s.last == ':' && c == ':'),
            last: c,
            ..s
        }
    }
}

/// What has been read once all of `text` is read.
pub open spec fn scan(text: Seq<char>) -> Scan
    decreases text.len(),
{
    if text.len() == 0 {
        Scan { done: Seq::empty(), token: Seq::empty(), depth: 0, qualified: false, last: ' ' }
    } else {
        scan_step(scan(text.drop_last()), text.last())
    }
}

/// The type name without its qualifiers. A name that is not list-like
/// keeps what follows its last `::`. A list-like one is cut at the commas
/// outside all brackets; each token that holds `::` loses its qualifiers;
/// the tokens are joined by `", "`.
pub open spec fn simplify_type_spec(text: Seq<char>) -> Seq<char> {
    if !is_list_like_spec(text) {
        simplify_nonlist_spec(text)
    } else {
        close_token(scan(text).done, scan(text).token, scan(text).qualified)
    }
}

/// Appends a token to the result, after `", "` where the result is not
/// empty, and without its qualifiers where `qualified` is set.
fn process_token(result: &mut String, token: &Vec<char>, qualified: bool)
    ensures
        final(result)@ == close_token(old(result)@, token@, qualified),
{
    if !result.as_str().is_empty() {
        result.append(", ");
    }
    if qualified {
        push_without_qualifiers(result, token);
    } else {
        push_chars(result, token, 0, token.len());
        assert(token@.subrange(0, token@.len() as int) =~= token@);
    }
}

/// Removes namespace qualifiers from a type name and keeps the structure
/// of its generics.
pub fn simplify_type(type_str: &str) -> (name: String)
    ensures
        name@ == simplify_type_spec(type_str@),
{
    if !is_list_like(type_str) {
        return simplify_nonlist_type(type_str);
    }
    let chars = chars_of(type_str);
    let len = chars.len();
    let mut result = String::new();
    let mut token: Vec<char> = Vec::new();
    let mut depth: i128 = 0;
    let mut qualified = false;
    let mut last = ' ';
    let mut i: usize = 0;
    while i < len
        invariant
            i <= len == chars@.len(),
            -i <= depth <= i,
            scan(chars@.take(i as int)) == (Scan {
                done: result@,
                token: token@,
                depth: depth as int,
                qualified,
                last,
            }),
        decreases len - i,
    {
        let c = chars[i];
        assert(chars@.take(i + 1).drop_last() =~= chars@.take(i as int));
        if c == '<' {
            depth += 1;
            token.push(c);
        } else if c == '>' {
            depth -= 1;
            token.push(c);
        } else if c == ',' && depth == 0 {
            process_token(&mut result, &token, qualified);
            token.clear();
            qualified = false;
        } else {
            if last == ':' && c == ':' {
                qualified = true;
            }
            token.push(c);
            last = c;
        }
        i += 1;
    }
    assert(chars@.take(len as int) =~= chars@);
    process_token(&mut result, &token, qualified);
    result
}

} // verus!
