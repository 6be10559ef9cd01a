use vstd::prelude::*;

use crate::database::find_spec;
use crate::ids::{hex_digit_char, hex_val, is_hex_digit, lemma_uuid_round_trip, uuid_text};
use crate::json::{escape_char, escape_text, has_key, is_ws, key_author, key_body,
    key_created_at, key_id, key_title, member_text, parse_member, parse_more_members,
    parse_post_members, parse_post_text, parse_string_body, render_post_text, skip_ws,
    value_of};
use crate::model::PostV;

verus! {

/// Inside a larger text, an escaped text followed by a closing quote
/// parses back to that text, appended to whatever was gathered before.
proof fn lemma_parse_escaped_window(s: Seq<char>, i: int, acc: Seq<char>, t: Seq<char>)
    requires
        0 <= i,
        i + escape_text(t).len() + 1 <= s.len(),
        s.subrange(i, i + escape_text(t).len() + 1) == escape_text(t) + seq!['"'],
    ensures
        parse_string_body(s, i, acc) == Some((acc + t, i + escape_text(t).len() + 1)),
    decreases t.len(),
{
    let et = escape_text(t);
    let w = et + seq!['"'];
    let end = i + et.len() + 1;
    assert forall|m: int| 0 <= m < w.len() implies s[i + m] == w[m] by {
        assert(s.subrange(i, end)[m] == s[i + m]);
    }
    if t.len() == 0 {
        assert(et.len() == 0);
        assert(s[i] == w[0]);
        assert(s[i] == '"');
        assert(acc + t =~= acc);
    } else {
        let c = t[0];
        let rest = t.drop_first();
        let ec = escape_char(c);
        let er = escape_text(rest);
        assert(et == ec + er);
        let el = ec.len();
        assert(w =~= ec + (er + seq!['"']));
        assert forall|m: int| 0 <= m < el implies s[i + m] == ec[m] by {
            assert(s[i + m] == w[m]);
            assert(w[m] == ec[m]);
        }
        assert(s[i] == ec[0]) by {
            assert(s[i + 0] == ec[0]);
        }
        assert(s.subrange(i + el, end) =~= er + seq!['"']) by {
            assert forall|m: int| 0 <= m < er.len() + 1 implies s.subrange(i + el, end)[m] == (er
                + seq!['"'])[m] by {
                assert(s.subrange(i + el, end)[m] == s[i + el + m]);
                assert(s[i + el + m] == w[el + m]);
            }
        }
        if c == '"' || c == '\\' {
            assert(ec =~= seq!['\\', c]);
            assert(s[i] == '\\' && s[i + 1] == c);
            lemma_parse_escaped_window(s, i + 2, acc.push(c), rest);
            assert(acc.push(c) + rest =~= acc + t);
        } else if c == '\n' {
            assert(ec =~= seq!['\\', 'n']);
            assert(s[i] == '\\' && s[i + 1] == 'n');
            lemma_parse_escaped_window(s, i + 2, acc.push(c), rest);
            assert(acc.push(c) + rest =~= acc + t);
        } else if c == '\r' {
            assert(ec =~= seq!['\\', 'r']);
            assert(s[i] == '\\' && s[i + 1] == 'r');
            lemma_parse_escaped_window(s, i + 2, acc.push(c), rest);
            assert(acc.push(c) + rest =~= acc + t);
        } else if c == '\t' {
            assert(ec =~= seq!['\\', 't']);
            assert(s[i] == '\\' && s[i + 1] == 't');
            lemma_parse_escaped_window(s, i + 2, acc.push(c), rest);
            assert(acc.push(c) + rest =~= acc + t);
        } else if (c as int) < 32 {
            let hi = c as int / 16;
            let lo = c as int % 16;
            assert(ec =~= seq!['\\', 'u', '0', '0', hex_digit_char(hi), hex_digit_char(lo)]);
            assert(s[i] == '\\' && s[i + 1] == 'u' && s[i + 2] == '0' && s[i + 3] == '0' && s[i
                + 4] == hex_digit_char(hi) && s[i + 5] == hex_digit_char(lo));
            assert(is_hex_digit('0') && hex_val('0') == 0);
            vstd::utf8::char_is_scalar(c);
            vstd::utf8::char_u32_cast(c, c as u32);
            assert(0 <= (c as int) && (c as int) < 32);
            assert(0 <= hi < 16 && 0 <= lo < 16);
            assert(is_hex_digit(hex_digit_char(hi)) && hex_val(hex_digit_char(hi)) == hi);
            assert(is_hex_digit(hex_digit_char(lo)) && hex_val(hex_digit_char(lo)) == lo);
            let code = hex_val(s[i + 2]) * 4096 + hex_val(s[i + 3]) * 256 + hex_val(s[i + 4]) * 16
                + hex_val(s[i + 5]);
            assert(code == c as int);
            vstd::utf8::char_u32_cast(c, c as u32);
            assert((code as char) == c);
            lemma_parse_escaped_window(s, i + 6, acc.push(c), rest);
            assert(acc.push(c) + rest =~= acc + t);
        } else {
            assert(ec =~= seq![c]);
            assert(s[i] == c);
            assert(c != '"' && c != '\\' && (c as int) >= 32);
            lemma_parse_escaped_window(s, i + 1, acc.push(c), rest);
            assert(acc.push(c) + rest =~= acc + t);
        }
    }
}

/// Inside a larger text, a rendered member parses back to its key and
/// value.
proof fn lemma_parse_member_window(s: Seq<char>, i: int, key: Seq<char>, val: Seq<char>)
    requires
        0 <= i,
        i + member_text(key, val).len() <= s.len(),
        s.subrange(i, i + member_text(key, val).len()) == member_text(key, val),
    ensures
        parse_member(s, i) == Some((key, val, i + member_text(key, val).len())),
{
    let ek = escape_text(key);
    let ev = escape_text(val);
    let mt = member_text(key, val);
    let len = mt.len();
    assert(mt =~= seq!['"'] + ek + seq!['"', ':', '"'] + ev + seq!['"']);
    assert(len == ek.len() + ev.len() + 5);
    assert forall|m: int| 0 <= m < len implies s[i + m] == mt[m] by {
        assert(s.subrange(i, i + len)[m] == s[i + m]);
    }
    assert(s[i] == '"') by {
        assert(s[i + 0] == mt[0int]);
        assert(mt[0int] == '"');
    }
    assert(!is_ws('"'));
    assert(skip_ws(s, i) == i);
    assert(s.subrange(i + 1, i + 1 + ek.len() + 1) =~= ek + seq!['"']) by {
        assert forall|m: int| 0 <= m < ek.len() + 1 implies s.subrange(
            i + 1,
            i + 1 + ek.len() + 1,
        )[m] == (ek + seq!['"'])[m] by {
            assert(s.subrange(i + 1, i + 1 + ek.len() + 1)[m] == s[i + 1 + m]);
            assert(s[i + 1 + m] == mt[1 + m]);
        }
    }
    lemma_parse_escaped_window(s, i + 1, Seq::<char>::empty(), key);
    assert(Seq::<char>::empty() + key =~= key);
    let j2 = i + ek.len() + 2;
    assert(s[j2] == ':') by {
        assert(s[i + (ek.len() + 2)] == mt[ek.len() as int + 2]);
        assert(mt[ek.len() as int + 2] == ':');
    }
    assert(!is_ws(':'));
    assert(skip_ws(s, j2) == j2);
    assert(s[j2 + 1] == '"') by {
        assert(s[i + (ek.len() + 3)] == mt[ek.len() as int + 3]);
        assert(mt[ek.len() as int + 3] == '"');
    }
    assert(skip_ws(s, j2 + 1) == j2 + 1);
    assert(s.subrange(j2 + 2, j2 + 2 + ev.len() + 1) =~= ev + seq!['"']) by {
        assert forall|m: int| 0 <= m < ev.len() + 1 implies s.subrange(
            j2 + 2,
            j2 + 2 + ev.len() + 1,
        )[m] == (ev + seq!['"'])[m] by {
            assert(s.subrange(j2 + 2, j2 + 2 + ev.len() + 1)[m] == s[j2 + 2 + m]);
            assert(s[j2 + 2 + m] == mt[ek.len() + 4 + m]);
        }
    }
    lemma_parse_escaped_window(s, j2 + 2, Seq::<char>::empty(), val);
    assert(Seq::<char>::empty() + val =~= val);
    assert(j2 + 2 + ev.len() + 1 == i + len);
}

/// The five member texts of a rendered post, and where each begins and
/// ends inside it.
spec fn mt1(p: PostV) -> Seq<char> {
    member_text(key_id(), uuid_text(p.id))
}

spec fn mt2(p: PostV) -> Seq<char> {
    member_text(key_title(), p.title)
}

spec fn mt3(p: PostV) -> Seq<char> {
    member_text(key_body(), p.body)
}

spec fn mt4(p: PostV) -> Seq<char> {
    member_text(key_author(), p.author)
}

spec fn mt5(p: PostV) -> Seq<char> {
    member_text(key_created_at(), p.created_at)
}

spec fn pos_b1(p: PostV) -> int {
    1 + mt1(p).len() as int
}

spec fn pos_b2(p: PostV) -> int {
    pos_b1(p) + 1 + mt2(p).len() as int
}

spec fn pos_b3(p: PostV) -> int {
    pos_b2(p) + 1 + mt3(p).len() as int
}

spec fn pos_b4(p: PostV) -> int {
    pos_b3(p) + 1 + mt4(p).len() as int
}

spec fn pos_b5(p: PostV) -> int {
    pos_b4(p) + 1 + mt5(p).len() as int
}

/// Where the punctuation of a rendered post stands.
#[verifier::rlimit(100)]
proof fn lemma_render_punctuation(p: PostV)
    ensures
        render_post_text(p).len() == pos_b5(p) + 1,
        1 < pos_b1(p) < pos_b2(p) < pos_b3(p) < pos_b4(p) < pos_b5(p),
        render_post_text(p)[0] == '{',
        render_post_text(p)[pos_b1(p)] == ',',
        render_post_text(p)[pos_b2(p)] == ',',
        render_post_text(p)[pos_b3(p)] == ',',
        render_post_text(p)[pos_b4(p)] == ',',
        render_post_text(p)[pos_b5(p)] == '}',
{
    let s = render_post_text(p);
    assert(s == seq!['{'] + mt1(p) + seq![','] + mt2(p) + seq![','] + mt3(p) + seq![','] + mt4(p)
        + seq![','] + mt5(p) + seq!['}']);
}

/// Each member text stands whole at its place in a rendered post.
#[verifier::rlimit(100)]
proof fn lemma_render_members_early(p: PostV)
    ensures
        render_post_text(p).subrange(1, pos_b1(p)) == mt1(p),
        render_post_text(p).subrange(pos_b1(p) + 1, pos_b2(p)) == mt2(p),
        render_post_text(p).subrange(pos_b2(p) + 1, pos_b3(p)) == mt3(p),
{
    let s = render_post_text(p);
    assert(s == seq!['{'] + mt1(p) + seq![','] + mt2(p) + seq![','] + mt3(p) + seq![','] + mt4(p)
        + seq![','] + mt5(p) + seq!['}']);
    assert(s.subrange(1, pos_b1(p)) =~= mt1(p));
    assert(s.subrange(pos_b1(p) + 1, pos_b2(p)) =~= mt2(p));
    assert(s.subrange(pos_b2(p) + 1, pos_b3(p)) =~= mt3(p));
}

#[verifier::rlimit(100)]
proof fn lemma_render_members_late(p: PostV)
    ensures
        render_post_text(p).subrange(pos_b3(p) + 1, pos_b4(p)) == mt4(p),
        render_post_text(p).subrange(pos_b4(p) + 1, pos_b5(p)) == mt5(p),
{
    let s = render_post_text(p);
    assert(s == seq!['{'] + mt1(p) + seq![','] + mt2(p) + seq![','] + mt3(p) + seq![','] + mt4(p)
        + seq![','] + mt5(p) + seq!['}']);
    assert(s.subrange(pos_b3(p) + 1, pos_b4(p)) =~= mt4(p));
    assert(s.subrange(pos_b4(p) + 1, pos_b5(p)) =~= mt5(p));
}

/// Scanning a rendered post finds each member at its place, and no
/// whitespace anywhere between them.
#[verifier::rlimit(100)]
proof fn lemma_render_scan(p: PostV)
    ensures
        parse_member(render_post_text(p), 1) == Some((key_id(), uuid_text(p.id), pos_b1(p))),
        parse_member(render_post_text(p), pos_b1(p) + 1) == Some(
            (key_title(), p.title, pos_b2(p)),
        ),
        parse_member(render_post_text(p), pos_b2(p) + 1) == Some((key_body(), p.body, pos_b3(p))),
        parse_member(render_post_text(p), pos_b3(p) + 1) == Some(
            (key_author(), p.author, pos_b4(p)),
        ),
        parse_member(render_post_text(p), pos_b4(p) + 1) == Some(
            (key_created_at(), p.created_at, pos_b5(p)),
        ),
        skip_ws(render_post_text(p), 0) == 0,
        skip_ws(render_post_text(p), pos_b1(p)) == pos_b1(p),
        skip_ws(render_post_text(p), pos_b2(p)) == pos_b2(p),
        skip_ws(render_post_text(p), pos_b3(p)) == pos_b3(p),
        skip_ws(render_post_text(p), pos_b4(p)) == pos_b4(p),
        skip_ws(render_post_text(p), pos_b5(p)) == pos_b5(p),
        skip_ws(render_post_text(p), pos_b5(p) + 1) == pos_b5(p) + 1,
        render_post_text(p).len() == pos_b5(p) + 1,
        1 < pos_b1(p) < pos_b2(p) < pos_b3(p) < pos_b4(p) < pos_b5(p),
        render_post_text(p)[0] == '{',
        render_post_text(p)[pos_b1(p)] == ',',
        render_post_text(p)[pos_b2(p)] == ',',
        render_post_text(p)[pos_b3(p)] == ',',
        render_post_text(p)[pos_b4(p)] == ',',
        render_post_text(p)[pos_b5(p)] == '}',
{
    let s = render_post_text(p);
    let b1 = pos_b1(p);
    let b2 = pos_b2(p);
    let b3 = pos_b3(p);
    let b4 = pos_b4(p);
    let b5 = pos_b5(p);
    lemma_render_punctuation(p);
    lemma_render_members_early(p);
    lemma_render_members_late(p);
    lemma_parse_member_window(s, 1, key_id(), uuid_text(p.id));
    lemma_parse_member_window(s, b1 + 1, key_title(), p.title);
    lemma_parse_member_window(s, b2 + 1, key_body(), p.body);
    lemma_parse_member_window(s, b3 + 1, key_author(), p.author);
    lemma_parse_member_window(s, b4 + 1, key_created_at(), p.created_at);
    assert(!is_ws('{') && !is_ws(',') && !is_ws('}'));
    assert(skip_ws(s, 0) == 0);
    assert(skip_ws(s, b1) == b1);
    assert(skip_ws(s, b2) == b2);
    assert(skip_ws(s, b3) == b3);
    assert(skip_ws(s, b4) == b4);
    assert(skip_ws(s, b5) == b5);
    assert(skip_ws(s, b5 + 1) == b5 + 1);
}

/// One step of the member list scan: a comma, a member, and the rest.
proof fn lemma_parse_more_step(
    s: Seq<char>,
    i: int,
    acc: Seq<(Seq<char>, Seq<char>)>,
    k: nat,
    key: Seq<char>,
    val: Seq<char>,
    j2: int,
)
    requires
        0 <= i < s.len(),
        skip_ws(s, i) == i,
        s[i] == ',',
        parse_member(s, i + 1) == Some((key, val, j2)),
    ensures
        parse_more_members(s, i, acc, k + 1) == parse_more_members(s, j2, acc.push((key, val)), k),
{
    assert((k + 1) as nat - 1 == k);
}

/// The end of the member list scan: the closing brace.
proof fn lemma_parse_more_end(s: Seq<char>, i: int, acc: Seq<(Seq<char>, Seq<char>)>)
    requires
        0 <= i < s.len(),
        skip_ws(s, i) == i,
        s[i] == '}',
    ensures
        parse_more_members(s, i, acc, 0) == Some((acc, i + 1)),
{
}

/// Assembles an object scan from its member scans: a brace, five
/// members with commas between, a closing brace, and the end.
#[verifier::rlimit(100)]
proof fn lemma_assemble_object(
    s: Seq<char>,
    k1: Seq<char>,
    v1: Seq<char>,
    b1: int,
    k2: Seq<char>,
    v2: Seq<char>,
    b2: int,
    k3: Seq<char>,
    v3: Seq<char>,
    b3: int,
    k4: Seq<char>,
    v4: Seq<char>,
    b4: int,
    k5: Seq<char>,
    v5: Seq<char>,
    b5: int,
)
    requires
        s.len() == b5 + 1,
        1 < b1 < b2 < b3 < b4 < b5,
        skip_ws(s, 0) == 0,
        s[0] == '{',
        parse_member(s, 1) == Some((k1, v1, b1)),
        skip_ws(s, b1) == b1,
        s[b1] == ',',
        parse_member(s, b1 + 1) == Some((k2, v2, b2)),
        skip_ws(s, b2) == b2,
        s[b2] == ',',
        parse_member(s, b2 + 1) == Some((k3, v3, b3)),
        skip_ws(s, b3) == b3,
        s[b3] == ',',
        parse_member(s, b3 + 1) == Some((k4, v4, b4)),
        skip_ws(s, b4) == b4,
        s[b4] == ',',
        parse_member(s, b4 + 1) == Some((k5, v5, b5)),
        skip_ws(s, b5) == b5,
        s[b5] == '}',
        skip_ws(s, b5 + 1) == b5 + 1,
    ensures
        parse_post_members(s) == Some(seq![(k1, v1), (k2, v2), (k3, v3), (k4, v4), (k5, v5)]),
{
    let e1 = (k1, v1);
    let e2 = (k2, v2);
    let e3 = (k3, v3);
    let e4 = (k4, v4);
    let e5 = (k5, v5);
    let ms = seq![e1, e2, e3, e4, e5];
    assert(seq![e1].push(e2) =~= seq![e1, e2]);
    assert(seq![e1, e2].push(e3) =~= seq![e1, e2, e3]);
    assert(seq![e1, e2, e3].push(e4) =~= seq![e1, e2, e3, e4]);
    assert(seq![e1, e2, e3, e4].push(e5) =~= ms);
    lemma_parse_more_end(s, b5, ms);
    lemma_parse_more_step(s, b4, seq![e1, e2, e3, e4], 0, k5, v5, b5);
    lemma_parse_more_step(s, b3, seq![e1, e2, e3], 1, k4, v4, b4);
    lemma_parse_more_step(s, b2, seq![e1, e2], 2, k3, v3, b3);
    lemma_parse_more_step(s, b1, seq![e1], 3, k2, v2, b2);
    assert(parse_more_members(s, b1, seq![e1], 4) == Some((ms, b5 + 1)));
    assert(parse_post_members(s) == Some(ms)) by {
        assert(skip_ws(s, b5 + 1) == s.len());
    }
}

/// The structural half of the round trip: a rendered post scans back
/// to its five members in order.
#[verifier::rlimit(100)]
proof fn lemma_members_round_trip(p: PostV)
    ensures
        parse_post_members(render_post_text(p)) == Some(
            seq![
                (key_id(), uuid_text(p.id)),
                (key_title(), p.title),
                (key_body(), p.body),
                (key_author(), p.author),
                (key_created_at(), p.created_at),
            ],
        ),
{
    lemma_render_scan(p);
    lemma_assemble_object(
        render_post_text(p),
        key_id(),
        uuid_text(p.id),
        pos_b1(p),
        key_title(),
        p.title,
        pos_b2(p),
        key_body(),
        p.body,
        pos_b3(p),
        key_author(),
        p.author,
        pos_b4(p),
        key_created_at(),
        p.created_at,
        pos_b5(p),
    );
}

/// A rendered post parses back to the very post: the codec round trip.
/// This holds for every post value: every character of every field is
/// preserved exactly, as is the id.
#[verifier::rlimit(100)]
pub proof fn lemma_post_round_trip(p: PostV)
    ensures
        parse_post_text(render_post_text(p)) == Some(p),
{
    reveal_strlit("id");
    reveal_strlit("title");
    reveal_strlit("body");
    reveal_strlit("author");
    reveal_strlit("created_at");
    lemma_members_round_trip(p);
    let s = render_post_text(p);
    let e1 = (key_id(), uuid_text(p.id));
    let e2 = (key_title(), p.title);
    let e3 = (key_body(), p.body);
    let e4 = (key_author(), p.author);
    let e5 = (key_created_at(), p.created_at);
    let ms = seq![e1, e2, e3, e4, e5];
    assert(key_id().len() == 2);
    assert(key_title().len() == 5);
    assert(key_body().len() == 4);
    assert(key_author().len() == 6);
    assert(key_created_at().len() == 10);
    let ms1 = seq![e2, e3, e4, e5];
    let ms2 = seq![e3, e4, e5];
    let ms3 = seq![e4, e5];
    let ms4 = seq![e5];
    assert(ms.drop_first() =~= ms1);
    assert(ms1.drop_first() =~= ms2);
    assert(ms2.drop_first() =~= ms3);
    assert(ms3.drop_first() =~= ms4);
    assert(has_key(ms, key_id()));
    assert(value_of(ms, key_id()) == uuid_text(p.id));
    assert(has_key(ms1, key_title()));
    assert(has_key(ms, key_title()));
    assert(value_of(ms1, key_title()) == p.title);
    assert(value_of(ms, key_title()) == p.title);
    assert(has_key(ms2, key_body()));
    assert(has_key(ms1, key_body()));
    assert(has_key(ms, key_body()));
    assert(value_of(ms2, key_body()) == p.body);
    assert(value_of(ms1, key_body()) == p.body);
    assert(value_of(ms, key_body()) == p.body);
    assert(has_key(ms3, key_author()));
    assert(has_key(ms2, key_author()));
    assert(has_key(ms1, key_author()));
    assert(has_key(ms, key_author()));
    assert(value_of(ms3, key_author()) == p.author);
    assert(value_of(ms2, key_author()) == p.author);
    assert(value_of(ms1, key_author()) == p.author);
    assert(value_of(ms, key_author()) == p.author);
    assert(has_key(ms4, key_created_at()));
    assert(has_key(ms3, key_created_at()));
    assert(has_key(ms2, key_created_at()));
    assert(has_key(ms1, key_created_at()));
    assert(has_key(ms, key_created_at()));
    assert(value_of(ms4, key_created_at()) == p.created_at);
    assert(value_of(ms3, key_created_at()) == p.created_at);
    assert(value_of(ms2, key_created_at()) == p.created_at);
    assert(value_of(ms1, key_created_at()) == p.created_at);
    assert(value_of(ms, key_created_at()) == p.created_at);
    lemma_uuid_round_trip(p.id);
    assert(parse_post_text(s) == Some(p));
}

/// Rendering is injective: two posts with the same wire text are the
/// same post. With the round trip, a fetched post is structurally
/// identical to the one inserted, not merely similar.
pub proof fn lemma_render_injective(p: PostV, q: PostV)
    requires
        render_post_text(p) == render_post_text(q),
    ensures
        p == q,
{
    lemma_post_round_trip(p);
    lemma_post_round_trip(q);
}

/// Feed consistency: appending posts one at a time, in order, to any
/// store contents yields exactly the old contents followed by the new
/// posts, so the feed lists every inserted post once, in insertion
/// order, after the posts already present.
pub proof fn lemma_feed_consistency(db: Seq<PostV>, ps: Seq<PostV>)
    ensures
        insert_all(db, ps) == db + ps,
        insert_all(Seq::<PostV>::empty(), ps) == ps,
    decreases ps.len(),
{
    if ps.len() == 0 {
        assert(insert_all(db, ps) == db);
        assert(db + ps =~= db);
        assert(Seq::<PostV>::empty() + ps =~= ps);
    } else {
        lemma_feed_consistency(db.push(ps[0]), ps.drop_first());
        assert(db.push(ps[0]) + ps.drop_first() =~= db + ps);
        lemma_feed_consistency(Seq::<PostV>::empty().push(ps[0]), ps.drop_first());
        assert(Seq::<PostV>::empty() + ps =~= ps);
    }
}

/// The store contents after a sequence of inserts, each of which appends
/// as `Database::insert_post` promises.
pub open spec fn insert_all(db: Seq<PostV>, ps: Seq<PostV>) -> Seq<PostV>
    decreases ps.len(),
{
    if ps.len() == 0 {
        db
    } else {
        insert_all(db.push(ps[0]), ps.drop_first())
    }
}

/// A post with a fresh id, once appended, is found by its id; posts
/// whose ids differ are not disturbed.
pub proof fn lemma_create_then_fetch(db: Seq<PostV>, p: PostV)
    requires
        forall|i: int| 0 <= i < db.len() ==> db[i].id != p.id,
    ensures
        find_spec(db.push(p), p.id) == Some(p),
        parse_post_text(render_post_text(p)) == Some(p),
    decreases db.len(),
{
    lemma_post_round_trip(p);
    if db.len() == 0 {
        assert(db.push(p)[0] == p);
    } else {
        assert(db.push(p)[0] == db[0]);
        assert(db[0].id != p.id);
        assert(db.push(p).drop_first() =~= db.drop_first().push(p));
        lemma_create_then_fetch(db.drop_first(), p);
    }
}

/// Inserting posts with pairwise distinct, fresh ids loses none and
/// duplicates none: each inserted post's id is carried by exactly one
/// post afterwards.
pub proof fn lemma_distinct_inserts_unique(db: Seq<PostV>, ps: Seq<PostV>, k: int)
    requires
        forall|i: int, j: int| 0 <= i < j < ps.len() ==> ps[i].id != ps[j].id,
        forall|i: int, j: int|
            0 <= i < db.len() && 0 <= j < ps.len() ==> db[i].id != ps[j].id,
        0 <= k < ps.len(),
    ensures
        count_with_id(insert_all(db, ps), ps[k].id) == 1,
{
    lemma_feed_consistency(db, ps);
    lemma_count_concat(db, ps, ps[k].id);
    lemma_count_none(db, ps[k].id);
    lemma_count_one(ps, k);
}

/// How many posts in `s` carry the id.
pub open spec fn count_with_id(s: Seq<PostV>, id: u128) -> int
    decreases s.len(),
{
    if s.len() == 0 {
        0
    } else {
        (if s[0].id == id {
            1int
        } else {
            0int
        }) + count_with_id(s.drop_first(), id)
    }
}

proof fn lemma_count_concat(a: Seq<PostV>, b: Seq<PostV>, id: u128)
    ensures
        count_with_id(a + b, id) == count_with_id(a, id) + count_with_id(b, id),
    decreases a.len(),
{
    if a.len() == 0 {
        assert(a + b =~= b);
    } else {
        assert((a + b)[0] == a[0]);
        assert((a + b).drop_first() =~= a.drop_first() + b);
        lemma_count_concat(a.drop_first(), b, id);
    }
}

proof fn lemma_count_none(s: Seq<PostV>, id: u128)
    requires
        forall|i: int| 0 <= i < s.len() ==> s[i].id != id,
    ensures
        count_with_id(s, id) == 0,
    decreases s.len(),
{
    if s.len() > 0 {
        lemma_count_none(s.drop_first(), id);
    }
}

proof fn lemma_count_one(s: Seq<PostV>, k: int)
    requires
        forall|i: int, j: int| 0 <= i < j < s.len() ==> s[i].id != s[j].id,
        0 <= k < s.len(),
    ensures
        count_with_id(s, s[k].id) == 1,
    decreases s.len(),
{
    if k == 0 {
        assert forall|i: int| 0 <= i < s.drop_first().len() implies s.drop_first()[i].id
            != s[0].id by {
            assert(s.drop_first()[i] == s[i + 1]);
        }
        lemma_count_none(s.drop_first(), s[0].id);
    } else {
        assert(s[0].id != s[k].id);
        assert(s.drop_first()[k - 1] == s[k]);
        lemma_count_one(s.drop_first(), k - 1);
    }
}

} // verus!
