//! The wire format of a post: a JSON object with exactly the five members
//! `id`, `title`, `body`, `author` and `created_at`, in any order, each
//! value a JSON string; the `id` value must be a UUID text. Whitespace is
//! allowed around punctuation. String contents accept the standard JSON
//! escapes; a `\uXXXX` escape names any code point outside the surrogate
//! range (surrogate pairs are not combined, so characters beyond 0xFFFF
//! appear directly). Rendering emits the members in the fixed order above,
//! without whitespace, escaping quotes, backslashes and control characters.

use vstd::prelude::*;

use crate::ids::{hex_digit_char, hex_val, is_hex_digit, is_uuid_text, parse_uuid, uuid_text,
    uuid_val};
use crate::model::{views_of, Post, PostV};
use crate::text::string_from_chars;

verus! {

pub open spec fn is_ws(c: char) -> bool {
    c == ' ' || c == '\t' || c == '\n' || c == '\r'
}

/// How one character is written inside a rendered JSON string.
pub open spec fn escape_char(c: char) -> Seq<char> {
    if c == '"' {
        seq!['\\', '"']
    } else if c == '\\' {
        seq!['\\', '\\']
    } else if c == '\n' {
        seq!['\\', 'n']
    } else if c == '\r' {
        seq!['\\', 'r']
    } else if c == '\t' {
        seq!['\\', 't']
    } else if (c as int) < 32 {
        seq!['\\', 'u', '0', '0', hex_digit_char(c as int / 16), hex_digit_char(c as int % 16)]
    } else {
        seq![c]
    }
}

/// How a text is written inside a rendered JSON string.
pub open spec fn escape_text(t: Seq<char>) -> Seq<char>
    decreases t.len(),
{
    if t.len() == 0 {
        Seq::<char>::empty()
    } else {
        escape_char(t[0]) + escape_text(t.drop_first())
    }
}

/// A rendered JSON string: the escaped text between quotes.
pub open spec fn quoted(t: Seq<char>) -> Seq<char> {
    seq!['"'] + escape_text(t) + seq!['"']
}

/// The first position at or after `i` that does not hold whitespace.
pub open spec fn skip_ws(s: Seq<char>, i: int) -> int
    decreases s.len() - i,
{
    if i < 0 {
        i
    } else if i < s.len() && is_ws(s[i]) {
        skip_ws(s, i + 1)
    } else {
        i
    }
}

/// Reads a JSON string body starting at `i` (just after the opening
/// quote), unescaping into `acc`; yields the content and the position
/// after the closing quote.
pub open spec fn parse_string_body(s: Seq<char>, i: int, acc: Seq<char>) -> Option<
    (Seq<char>, int),
>
    decreases s.len() - i,
{
    if i < 0 || i >= s.len() {
        None
    } else if s[i] == '"' {
        Some((acc, i + 1))
    } else if s[i] == '\\' {
        if i + 1 >= s.len() {
            None
        } else {
            let e = s[i + 1];
            if e == '"' || e == '\\' || e == '/' {
                parse_string_body(s, i + 2, acc.push(e))
            } else if e == 'b' {
                parse_string_body(s, i + 2, acc.push('\u{0008}'))
            } else if e == 'f' {
                parse_string_body(s, i + 2, acc.push('\u{000c}'))
            } else if e == 'n' {
                parse_string_body(s, i + 2, acc.push('\n'))
            } else if e == 'r' {
                parse_string_body(s, i + 2, acc.push('\r'))
            } else if e == 't' {
                parse_string_body(s, i + 2, acc.push('\t'))
            } else if e == 'u' {
                if i + 5 >= s.len() {
                    None
                } else if is_hex_digit(s[i + 2]) && is_hex_digit(s[i + 3]) && is_hex_digit(
                    s[i + 4],
                ) && is_hex_digit(s[i + 5]) {
                    let code = hex_val(s[i + 2]) * 4096 + hex_val(s[i + 3]) * 256 + hex_val(
                        s[i + 4],
                    ) * 16 + hex_val(s[i + 5]);
                    if code < 0xD800 || code >= 0xE000 {
                        parse_string_body(s, i + 6, acc.push(code as char))
                    } else {
                        None
                    }
                } else {
                    None
                }
            } else {
                None
            }
        }
    } else if (s[i] as int) < 32 {
        None
    } else {
        parse_string_body(s, i + 1, acc.push(s[i]))
    }
}

/// Reads one `"key" : "value"` member starting at `i`; yields key, value
/// and the position after the value's closing quote.
pub open spec fn parse_member(s: Seq<char>, i: int) -> Option<(Seq<char>, Seq<char>, int)> {
    let j = skip_ws(s, i);
    if j < s.len() && s[j] == '"' {
        match parse_string_body(s, j + 1, Seq::<char>::empty()) {
            Some((key, j2)) => {
                let j3 = skip_ws(s, j2);
                if j3 < s.len() && s[j3] == ':' {
                    let j4 = skip_ws(s, j3 + 1);
                    if j4 < s.len() && s[j4] == '"' {
                        match parse_string_body(s, j4 + 1, Seq::<char>::empty()) {
                            Some((val, j5)) => Some((key, val, j5)),
                            None => None,
                        }
                    } else {
                        None
                    }
                } else {
                    None
                }
            },
            None => None,
        }
    } else {
        None
    }
}

/// After one member, reads `k` further `, member` groups and the closing
/// brace; yields all members gathered so far and the position after the
/// brace.
pub open spec fn parse_more_members(
    s: Seq<char>,
    i: int,
    acc: Seq<(Seq<char>, Seq<char>)>,
    k: nat,
) -> Option<(Seq<(Seq<char>, Seq<char>)>, int)>
    decreases k,
{
    let j = skip_ws(s, i);
    if k == 0 {
        if j < s.len() && s[j] == '}' {
            Some((acc, j + 1))
        } else {
            None
        }
    } else {
        if j < s.len() && s[j] == ',' {
            match parse_member(s, j + 1) {
                Some((key, val, j2)) => parse_more_members(
                    s,
                    j2,
                    acc.push((key, val)),
                    (k - 1) as nat,
                ),
                None => None,
            }
        } else {
            None
        }
    }
}

/// Reads a whole post object: braces around exactly five members, with
/// nothing but whitespace before or after.
pub open spec fn parse_post_members(s: Seq<char>) -> Option<Seq<(Seq<char>, Seq<char>)>> {
    let i = skip_ws(s, 0);
    if i < s.len() && s[i] == '{' {
        match parse_member(s, i + 1) {
            Some((key, val, j)) => match parse_more_members(s, j, seq![(key, val)], 4) {
                Some((ms, j2)) => if skip_ws(s, j2) == s.len() {
                    Some(ms)
                } else {
                    None
                },
                None => None,
            },
            None => None,
        }
    } else {
        None
    }
}

pub open spec fn key_id() -> Seq<char> {
    "id"@
}

pub open spec fn key_title() -> Seq<char> {
    "title"@
}

pub open spec fn key_body() -> Seq<char> {
    "body"@
}

pub open spec fn key_author() -> Seq<char> {
    "author"@
}

pub open spec fn key_created_at() -> Seq<char> {
    "created_at"@
}

/// Whether some member carries this key.
pub open spec fn has_key(ms: Seq<(Seq<char>, Seq<char>)>, key: Seq<char>) -> bool
    decreases ms.len(),
{
    if ms.len() == 0 {
        false
    } else if ms[0].0 == key {
        true
    } else {
        has_key(ms.drop_first(), key)
    }
}

/// The value of the first member carrying this key.
pub open spec fn value_of(ms: Seq<(Seq<char>, Seq<char>)>, key: Seq<char>) -> Seq<char>
    decreases ms.len(),
{
    if ms.len() == 0 {
        Seq::<char>::empty()
    } else if ms[0].0 == key {
        ms[0].1
    } else {
        value_of(ms.drop_first(), key)
    }
}

/// Why a payload was rejected.
pub enum ParseError {
    /// The text is not a JSON object of five string members.
    Syntax,
    /// One of the five required fields is missing.
    MissingField,
    /// The `id` value is not a UUID text.
    BadId,
}

/// Whether the five members carry all five required keys. Five members
/// holding all five keys are exactly those keys, each once.
pub open spec fn all_keys(ms: Seq<(Seq<char>, Seq<char>)>) -> bool {
    &&& has_key(ms, key_id())
    &&& has_key(ms, key_title())
    &&& has_key(ms, key_body())
    &&& has_key(ms, key_author())
    &&& has_key(ms, key_created_at())
}

/// The post a payload decodes to, or `None` when it is rejected.
pub open spec fn parse_post_text(s: Seq<char>) -> Option<PostV> {
    match parse_post_members(s) {
        Some(ms) => {
            if all_keys(ms) {
                let idtext = value_of(ms, key_id());
                if is_uuid_text(idtext) {
                    Some(
                        PostV {
                            id: uuid_val(idtext),
                            title: value_of(ms, key_title()),
                            body: value_of(ms, key_body()),
                            author: value_of(ms, key_author()),
                            created_at: value_of(ms, key_created_at()),
                        },
                    )
                } else {
                    None
                }
            } else {
                None
            }
        },
        None => None,
    }
}

/// The error a rejected payload reports.
pub open spec fn parse_error_of(s: Seq<char>) -> ParseError {
    match parse_post_members(s) {
        Some(ms) => {
            if all_keys(ms) {
                ParseError::BadId
            } else {
                ParseError::MissingField
            }
        },
        None => ParseError::Syntax,
    }
}

// ------------------------------------------------------------------
// The executable parser. Each function computes exactly what the spec
// functions above describe.
// ------------------------------------------------------------------

fn skip_ws_exec(s: &str, i: usize, n: usize) -> (r: usize)
    requires
        n == s@.len(),
        i <= n,
    ensures
        r as int == skip_ws(s@, i as int),
        i <= r <= n,
    decreases n - i,
{
    let mut j = i;
    while j < n
        invariant
            i <= j <= n,
            n == s@.len(),
            skip_ws(s@, i as int) == skip_ws(s@, j as int),
        decreases n - j,
    {
        let c = s.get_char(j);
        if c == ' ' || c == '\t' || c == '\n' || c == '\r' {
            j = j + 1;
        } else {
            return j;
        }
    }
    j
}

fn parse_string_body_exec(s: &str, i0: usize, n: usize) -> (r: Option<(Vec<char>, usize)>)
    requires
        n == s@.len(),
        i0 <= n,
    ensures
        match r {
            Some(p) => parse_string_body(s@, i0 as int, Seq::<char>::empty()) == Some(
                (p.0@, p.1 as int),
            ) && i0 < p.1 <= n,
            None => parse_string_body(s@, i0 as int, Seq::<char>::empty()) is None,
        },
{
    let mut acc: Vec<char> = Vec::new();
    let mut i = i0;
    proof {
        assert(acc@ =~= Seq::<char>::empty());
    }
    loop
        invariant
            i0 <= i <= n,
            n == s@.len(),
            parse_string_body(s@, i0 as int, Seq::<char>::empty()) == parse_string_body(
                s@,
                i as int,
                acc@,
            ),
        decreases n - i,
    {
        if i >= n {
            return None;
        }
        let c = s.get_char(i);
        if c == '"' {
            return Some((acc, i + 1));
        } else if c == '\\' {
            if i + 1 >= n {
                return None;
            }
            let e = s.get_char(i + 1);
            if e == '"' || e == '\\' || e == '/' {
                acc.push(e);
                i = i + 2;
            } else if e == 'b' {
                acc.push('\u{0008}');
                i = i + 2;
            } else if e == 'f' {
                acc.push('\u{000c}');
                i = i + 2;
            } else if e == 'n' {
                acc.push('\n');
                i = i + 2;
            } else if e == 'r' {
                acc.push('\r');
                i = i + 2;
            } else if e == 't' {
                acc.push('\t');
                i = i + 2;
            } else if e == 'u' {
                if n - i <= 5 {
                    return None;
                }
                let d1 = crate::ids::hex_value(s.get_char(i + 2));
                let d2 = crate::ids::hex_value(s.get_char(i + 3));
                let d3 = crate::ids::hex_value(s.get_char(i + 4));
                let d4 = crate::ids::hex_value(s.get_char(i + 5));
                match (d1, d2, d3, d4) {
                    (Some(a), Some(b), Some(cc), Some(d)) => {
                        let code: u32 = (a as u32) * 4096 + (b as u32) * 256 + (cc as u32) * 16 + (
                        d as u32);
                        if code < 0xD800 || code >= 0xE000 {
                            match char::from_u32(code) {
                                Some(ch) => {
                                    acc.push(ch);
                                    i = i + 6;
                                },
                                None => {
                                    proof {
                                        assert(false);
                                    }
                                    return None;
                                },
                            }
                        } else {
                            return None;
                        }
                    },
                    _ => {
                        return None;
                    },
                }
            } else {
                return None;
            }
        } else if (c as u32) < 32 {
            return None;
        } else {
            acc.push(c);
            i = i + 1;
        }
    }
}

fn parse_member_exec(s: &str, i: usize, n: usize) -> (r: Option<(Vec<char>, Vec<char>, usize)>)
    requires
        n == s@.len(),
        i <= n,
    ensures
        match r {
            Some(m) => parse_member(s@, i as int) == Some((m.0@, m.1@, m.2 as int)) && i < m.2
                <= n,
            None => parse_member(s@, i as int) is None,
        },
{
    let j = skip_ws_exec(s, i, n);
    if j < n && s.get_char(j) == '"' {
        match parse_string_body_exec(s, j + 1, n) {
            Some((key, j2)) => {
                let j3 = skip_ws_exec(s, j2, n);
                if j3 < n && s.get_char(j3) == ':' {
                    let j4 = skip_ws_exec(s, j3 + 1, n);
                    if j4 < n && s.get_char(j4) == '"' {
                        match parse_string_body_exec(s, j4 + 1, n) {
                            Some((val, j5)) => Some((key, val, j5)),
                            None => None,
                        }
                    } else {
                        None
                    }
                } else {
                    None
                }
            },
            None => None,
        }
    } else {
        None
    }
}

/// The mathematical members a gathered member list stands for.
pub open spec fn member_views(ms: Seq<(Vec<char>, Vec<char>)>) -> Seq<(Seq<char>, Seq<char>)> {
    ms.map_values(|m: (Vec<char>, Vec<char>)| (m.0@, m.1@))
}

fn parse_more_members_exec(
    s: &str,
    i: usize,
    n: usize,
    k: usize,
    acc: Vec<(Vec<char>, Vec<char>)>,
) -> (r: Option<(Vec<(Vec<char>, Vec<char>)>, usize)>)
    requires
        n == s@.len(),
        i <= n,
    ensures
        match r {
            Some(p) => parse_more_members(s@, i as int, member_views(acc@), k as nat) == Some(
                (member_views(p.0@), p.1 as int),
            ) && p.1 <= n,
            None => parse_more_members(s@, i as int, member_views(acc@), k as nat) is None,
        },
    decreases k,
{
    let j = skip_ws_exec(s, i, n);
    if k == 0 {
        if j < n && s.get_char(j) == '}' {
            Some((acc, j + 1))
        } else {
            None
        }
    } else {
        if j < n && s.get_char(j) == ',' {
            match parse_member_exec(s, j + 1, n) {
                Some((key, val, j2)) => {
                    let mut acc = acc;
                    let ghost before = member_views(acc@);
                    let ghost kv = (key@, val@);
                    acc.push((key, val));
                    proof {
                        assert(member_views(acc@) =~= before.push(kv));
                    }
                    parse_more_members_exec(s, j2, n, k - 1, acc)
                },
                None => None,
            }
        } else {
            None
        }
    }
}

/// Whether this member list holds a character sequence equal to `key`.
fn lookup(ms: &Vec<(Vec<char>, Vec<char>)>, key: &str) -> (r: Option<String>)
    ensures
        r is Some <==> has_key(member_views(ms@), key@),
        r matches Some(v) ==> v@ == value_of(member_views(ms@), key@),
{
    let ghost whole = member_views(ms@);
    let mut i: usize = 0;
    proof {
        assert(whole.skip(0) =~= whole);
    }
    while i < ms.len()
        invariant
            i <= ms.len(),
            whole == member_views(ms@),
            has_key(whole, key@) == has_key(whole.skip(i as int), key@),
            value_of(whole, key@) == value_of(whole.skip(i as int), key@),
        decreases ms.len() - i,
    {
        proof {
            assert(whole.skip(i as int)[0] == whole[i as int]);
            assert(whole.skip(i as int).drop_first() =~= whole.skip(i as int + 1));
        }
        if chars_eq_str(&ms[i].0, key) {
            let v = string_from_chars(&ms[i].1);
            return Some(v);
        }
        i = i + 1;
    }
    proof {
        assert(whole.skip(i as int).len() == 0);
    }
    None
}

/// Whether these characters spell exactly this text.
fn chars_eq_str(v: &Vec<char>, s: &str) -> (r: bool)
    ensures
        r == (v@ == s@),
{
    let n = s.unicode_len();
    if v.len() != n {
        proof {
            assert(v@ != s@);
        }
        return false;
    }
    let mut i: usize = 0;
    while i < n
        invariant
            i <= n,
            n == s@.len(),
            v@.len() == n,
            forall|j: int| 0 <= j < i ==> v@[j] == s@[j],
        decreases n - i,
    {
        if v[i] != s.get_char(i) {
            return false;
        }
        i = i + 1;
    }
    proof {
        assert(v@ =~= s@);
    }
    true
}

/// Decodes a payload into a post: succeeds exactly on texts the wire
/// format accepts, and reports for each rejected text why it was
/// rejected.
pub fn parse_post(s: &str) -> (r: Result<Post, ParseError>)
    ensures
        match r {
            Ok(p) => parse_post_text(s@) == Some(p@),
            Err(e) => parse_post_text(s@) is None && e == parse_error_of(s@),
        },
{
    let n = s.unicode_len();
    let i = skip_ws_exec(s, 0, n);
    if !(i < n && s.get_char(i) == '{') {
        return Err(ParseError::Syntax);
    }
    let first = match parse_member_exec(s, i + 1, n) {
        Some(m) => m,
        None => {
            return Err(ParseError::Syntax);
        },
    };
    let (key, val, j) = first;
    let mut start: Vec<(Vec<char>, Vec<char>)> = Vec::new();
    let ghost kv = (key@, val@);
    start.push((key, val));
    proof {
        assert(member_views(start@) =~= seq![kv]);
    }
    let ms = match parse_more_members_exec(s, j, n, 4, start) {
        Some((ms, j2)) => {
            if skip_ws_exec(s, j2, n) != n {
                return Err(ParseError::Syntax);
            }
            ms
        },
        None => {
            return Err(ParseError::Syntax);
        },
    };
    let id_text = match lookup(&ms, "id") {
        Some(v) => v,
        None => {
            return Err(ParseError::MissingField);
        },
    };
    let title = match lookup(&ms, "title") {
        Some(v) => v,
        None => {
            return Err(ParseError::MissingField);
        },
    };
    let body = match lookup(&ms, "body") {
        Some(v) => v,
        None => {
            return Err(ParseError::MissingField);
        },
    };
    let author = match lookup(&ms, "author") {
        Some(v) => v,
        None => {
            return Err(ParseError::MissingField);
        },
    };
    let created_at = match lookup(&ms, "created_at") {
        Some(v) => v,
        None => {
            return Err(ParseError::MissingField);
        },
    };
    let id = match parse_uuid(id_text.as_str()) {
        Some(id) => id,
        None => {
            return Err(ParseError::BadId);
        },
    };
    Ok(Post::new(title, body, author, created_at, id))
}

// ------------------------------------------------------------------
// Rendering. A post is rendered with its five members in a fixed order
// and no whitespace; the feed is the rendered posts between brackets,
// separated by commas, in store order.
// ------------------------------------------------------------------

/// One rendered `"key":"value"` member.
pub open spec fn member_text(key: Seq<char>, val: Seq<char>) -> Seq<char> {
    quoted(key) + seq![':'] + quoted(val)
}

/// The rendered text of one post.
pub open spec fn render_post_text(p: PostV) -> Seq<char> {
    seq!['{'] + member_text(key_id(), uuid_text(p.id)) + seq![','] + member_text(
        key_title(),
        p.title,
    ) + seq![','] + member_text(key_body(), p.body) + seq![','] + member_text(
        key_author(),
        p.author,
    ) + seq![','] + member_text(key_created_at(), p.created_at) + seq!['}']
}

/// The rendered posts joined with commas, in order.
pub open spec fn joined_posts(ps: Seq<PostV>) -> Seq<char>
    decreases ps.len(),
{
    if ps.len() == 0 {
        Seq::<char>::empty()
    } else if ps.len() == 1 {
        render_post_text(ps[0])
    } else {
        render_post_text(ps[0]) + seq![','] + joined_posts(ps.drop_first())
    }
}

/// The rendered text of the whole feed.
pub open spec fn render_feed_text(ps: Seq<PostV>) -> Seq<char> {
    seq!['['] + joined_posts(ps) + seq![']']
}

/// Splitting a text splits its escaped form.
pub proof fn lemma_escape_concat(a: Seq<char>, b: Seq<char>)
    ensures
        escape_text(a + b) == escape_text(a) + escape_text(b),
    decreases a.len(),
{
    if a.len() == 0 {
        assert(a + b =~= b);
        assert(escape_text(a) + escape_text(b) =~= escape_text(b));
    } else {
        assert((a + b)[0] == a[0]);
        assert((a + b).drop_first() =~= a.drop_first() + b);
        lemma_escape_concat(a.drop_first(), b);
        assert(escape_text(a + b) =~= escape_text(a) + escape_text(b));
    }
}

/// The escaped form of a single character is its escape.
pub proof fn lemma_escape_single(c: char)
    ensures
        escape_text(seq![c]) == escape_char(c),
{
    let s = seq![c];
    assert(s.len() == 1);
    assert(s[0] == c);
    assert(s.drop_first() =~= Seq::<char>::empty());
    assert(escape_text(Seq::<char>::empty()) == Seq::<char>::empty());
    assert(escape_text(s) == escape_char(c) + escape_text(s.drop_first()));
    assert(escape_char(c) + Seq::<char>::empty() =~= escape_char(c));
}

fn push_escaped_char(out: &mut Vec<char>, c: char)
    ensures
        final(out)@ == old(out)@ + escape_char(c),
{
    let ghost before = out@;
    if c == '"' {
        out.push('\\');
        out.push('"');
    } else if c == '\\' {
        out.push('\\');
        out.push('\\');
    } else if c == '\n' {
        out.push('\\');
        out.push('n');
    } else if c == '\r' {
        out.push('\\');
        out.push('r');
    } else if c == '\t' {
        out.push('\\');
        out.push('t');
    } else if (c as u32) < 32 {
        out.push('\\');
        out.push('u');
        out.push('0');
        out.push('0');
        let b = c as u8;
        out.push(crate::ids::hex_char_pub(b / 16));
        out.push(crate::ids::hex_char_pub(b % 16));
    } else {
        out.push(c);
    }
    proof {
        assert(out@ =~= before + escape_char(c));
    }
}

fn push_escaped_str(out: &mut Vec<char>, s: &str)
    ensures
        final(out)@ == old(out)@ + escape_text(s@),
{
    let ghost start = out@;
    let n = s.unicode_len();
    let mut i: usize = 0;
    proof {
        assert(s@.take(0) =~= Seq::<char>::empty());
        assert(out@ =~= start + escape_text(s@.take(0)));
    }
    while i < n
        invariant
            i <= n,
            n == s@.len(),
            out@ == start + escape_text(s@.take(i as int)),
        decreases n - i,
    {
        let c = s.get_char(i);
        push_escaped_char(out, c);
        proof {
            assert(s@.take(i as int + 1) =~= s@.take(i as int) + seq![c]);
            lemma_escape_concat(s@.take(i as int), seq![c]);
            lemma_escape_single(c);
            assert(out@ =~= start + escape_text(s@.take(i as int + 1)));
        }
        i = i + 1;
    }
    proof {
        assert(s@.take(n as int) =~= s@);
    }
}

fn push_quoted_str(out: &mut Vec<char>, s: &str)
    ensures
        final(out)@ == old(out)@ + quoted(s@),
{
    let ghost start = out@;
    out.push('"');
    push_escaped_str(out, s);
    out.push('"');
    proof {
        assert(out@ =~= start + quoted(s@));
    }
}

fn push_quoted_chars(out: &mut Vec<char>, v: &Vec<char>)
    ensures
        final(out)@ == old(out)@ + quoted(v@),
{
    let ghost start = out@;
    out.push('"');
    let n = v.len();
    let mut i: usize = 0;
    proof {
        assert(v@.take(0) =~= Seq::<char>::empty());
        assert(out@ =~= start + seq!['"'] + escape_text(v@.take(0)));
    }
    while i < n
        invariant
            i <= n,
            n == v@.len(),
            out@ == start + seq!['"'] + escape_text(v@.take(i as int)),
        decreases n - i,
    {
        let c = v[i];
        push_escaped_char(out, c);
        proof {
            assert(v@.take(i as int + 1) =~= v@.take(i as int) + seq![c]);
            lemma_escape_concat(v@.take(i as int), seq![c]);
            lemma_escape_single(c);
            assert(out@ =~= start + seq!['"'] + escape_text(v@.take(i as int + 1)));
        }
        i = i + 1;
    }
    out.push('"');
    proof {
        assert(v@.take(n as int) =~= v@);
        assert(out@ =~= start + quoted(v@));
    }
}

/// Appends the rendered text of one post.
fn push_post(out: &mut Vec<char>, p: &Post)
    ensures
        final(out)@ == old(out)@ + render_post_text(p@),
{
    let ghost start = out@;
    out.push('{');
    push_quoted_str(out, "id");
    out.push(':');
    let idc = crate::ids::uuid_chars(p.id);
    push_quoted_chars(out, &idc);
    out.push(',');
    push_quoted_str(out, "title");
    out.push(':');
    push_quoted_str(out, p.title.as_str());
    out.push(',');
    push_quoted_str(out, "body");
    out.push(':');
    push_quoted_str(out, p.body.as_str());
    out.push(',');
    push_quoted_str(out, "author");
    out.push(':');
    push_quoted_str(out, p.author.as_str());
    out.push(',');
    push_quoted_str(out, "created_at");
    out.push(':');
    push_quoted_str(out, p.created_at.as_str());
    out.push('}');
    proof {
        assert(out@ =~= start + render_post_text(p@));
    }
}

/// Renders one post to its wire text.
pub fn render_post(p: &Post) -> (r: String)
    ensures
        r@ == render_post_text(p@),
{
    let mut out: Vec<char> = Vec::new();
    push_post(&mut out, p);
    proof {
        assert(out@ =~= render_post_text(p@));
    }
    string_from_chars(&out)
}

/// Appending a post to the feed appends its rendering, after a comma
/// when the feed was not empty.
pub proof fn lemma_joined_push(ps: Seq<PostV>, p: PostV)
    ensures
        joined_posts(ps.push(p)) == if ps.len() == 0 {
            render_post_text(p)
        } else {
            joined_posts(ps) + seq![','] + render_post_text(p)
        },
    decreases ps.len(),
{
    let whole = ps.push(p);
    if ps.len() == 0 {
        assert(whole.len() == 1);
        assert(whole[0] == p);
        assert(joined_posts(whole) =~= render_post_text(p));
    } else {
        assert(whole[0] == ps[0]);
        assert(whole.drop_first() =~= ps.drop_first().push(p));
        lemma_joined_push(ps.drop_first(), p);
        if ps.len() == 1 {
            assert(ps.drop_first().len() == 0);
            assert(joined_posts(whole) =~= joined_posts(ps) + seq![','] + render_post_text(p));
        } else {
            assert(joined_posts(ps) =~= render_post_text(ps[0]) + seq![','] + joined_posts(
                ps.drop_first(),
            ));
            assert(joined_posts(whole) =~= joined_posts(ps) + seq![','] + render_post_text(p));
        }
    }
}

/// Renders the whole feed to its wire text.
pub fn render_feed(posts: &Vec<Post>) -> (r: String)
    ensures
        r@ == render_feed_text(views_of(posts@)),
{
    let ghost views = views_of(posts@);
    let mut out: Vec<char> = Vec::new();
    out.push('[');
    let mut i: usize = 0;
    proof {
        assert(views.take(0) =~= Seq::<PostV>::empty());
        assert(out@ =~= seq!['['] + joined_posts(views.take(0)));
    }
    while i < posts.len()
        invariant
            i <= posts.len(),
            views == views_of(posts@),
            views.len() == posts@.len(),
            out@ == seq!['['] + joined_posts(views.take(i as int)),
        decreases posts.len() - i,
    {
        if i > 0 {
            out.push(',');
        }
        push_post(&mut out, &posts[i]);
        proof {
            assert(views.take(i as int + 1) =~= views.take(i as int).push(views[i as int]));
            lemma_joined_push(views.take(i as int), views[i as int]);
            assert(views[i as int] == posts@[i as int]@);
            assert(out@ =~= seq!['['] + joined_posts(views.take(i as int + 1)));
        }
        i = i + 1;
    }
    out.push(']');
    proof {
        assert(views.take(posts@.len() as int) =~= views);
        assert(out@ =~= render_feed_text(views));
    }
    string_from_chars(&out)
}

/// The message a rejected payload reports.
pub open spec fn parse_error_text(e: ParseError) -> Seq<char> {
    match e {
        ParseError::Syntax => "malformed JSON payload"@,
        ParseError::MissingField => "missing post field"@,
        ParseError::BadId => "malformed post id"@,
    }
}

impl ParseError {
    /// The error's message.
    pub fn message(&self) -> (r: String)
        ensures
            r@ == parse_error_text(*self),
    {
        match self {
            ParseError::Syntax => "malformed JSON payload".to_owned(),
            ParseError::MissingField => "missing post field".to_owned(),
            ParseError::BadId => "malformed post id".to_owned(),
        }
    }
}

} // verus!
