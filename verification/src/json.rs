//! A spec-level decoder for the JSON property payloads the desugarer emits,
//! and the round-trip law: parsing an emitted payload back gives exactly the
//! property map it was encoded from — same keys, same values, same order.

use vstd::prelude::*;

use crate::ast::{PropV, PropValV};
use crate::lexer::{is_digit_char, lemma_lex_num_shaped, lex, num_shaped, TokKind, TokenV};
use crate::parser::{has_key, spec_parse_entries, spec_parse_props, strip_quotes};
use crate::sql::{json_escape, json_escape_char, json_member, json_members, json_obj, json_str};

verus! {

/// A decoded JSON scalar: a string's unescaped content, or a number's text.
#[verifier::ext_equal]
pub ghost enum JsonValV {
    S(Seq<char>),
    N(Seq<char>),
}

/// One decoded member of a JSON object.
#[verifier::ext_equal]
pub ghost struct JsonMemberV {
    pub key: Seq<char>,
    pub val: JsonValV,
}

/// The member a property encodes to.
pub open spec fn member_of(p: PropV) -> JsonMemberV {
    JsonMemberV {
        key: p.key,
        val: match p.val {
            PropValV::Str(t) => JsonValV::S(t),
            PropValV::Num(t) => JsonValV::N(t),
        },
    }
}

/// The members a property map encodes to, in insertion order.
pub open spec fn entries_of(ps: Seq<PropV>) -> Seq<JsonMemberV> {
    ps.map_values(|p: PropV| member_of(p))
}

/// A numeric text as it may stand unquoted in the payload: non-empty and
/// free of the structural characters, as the numeric-literal grammar
/// guarantees.
pub open spec fn plain_num(t: Seq<char>) -> bool {
    t.len() > 0 && forall|i: int|
        0 <= i < t.len() ==> #[trigger] t[i] != ',' && t[i] != '}' && t[i] != '"'
}

/// Validity of one property for the round trip: a numeric value has the
/// shape the grammar gives it (string values need nothing).
pub open spec fn wf_prop(p: PropV) -> bool {
    match p.val {
        PropValV::Str(t) => true,
        PropValV::Num(t) => plain_num(t),
    }
}

/// Validity of a property map for the round trip.
pub open spec fn wf_props(ps: Seq<PropV>) -> bool {
    forall|i: int| 0 <= i < ps.len() ==> wf_prop(#[trigger] ps[i])
}

/// Decodes a JSON string body up to its closing quote: the unescaped
/// content and the remainder after the quote.
pub open spec fn jparse_str(s: Seq<char>) -> Option<(Seq<char>, Seq<char>)>
    decreases s.len(),
{
    if s.len() == 0 {
        None
    } else if s[0] == '"' {
        Some((Seq::empty(), s.drop_first()))
    } else if s[0] == '\\' {
        if s.len() >= 2 {
            match jparse_str(s.skip(2)) {
                Some(t) => Some((seq![s[1]] + t.0, t.1)),
                None => None,
            }
        } else {
            None
        }
    } else {
        match jparse_str(s.drop_first()) {
            Some(t) => Some((seq![s[0]] + t.0, t.1)),
            None => None,
        }
    }
}

/// The length of the unquoted-number prefix: up to the first `,` or `}`.
pub open spec fn num_split(s: Seq<char>) -> int
    decreases s.len(),
{
    if s.len() == 0 {
        0
    } else if s[0] == ',' || s[0] == '}' {
        0
    } else {
        1 + num_split(s.drop_first())
    }
}

pub proof fn lemma_jparse_str_shrinks(s: Seq<char>)
    ensures
        match jparse_str(s) {
            Some(t) => t.1.len() < s.len(),
            None => true,
        },
    decreases s.len(),
{
    if s.len() == 0 {
    } else if s[0] == '"' {
    } else if s[0] == '\\' {
        if s.len() >= 2 {
            lemma_jparse_str_shrinks(s.skip(2));
        }
    } else {
        lemma_jparse_str_shrinks(s.drop_first());
    }
}

pub proof fn lemma_num_split_bounds(s: Seq<char>)
    ensures
        0 <= num_split(s) <= s.len(),
    decreases s.len(),
{
    if s.len() > 0 && !(s[0] == ',' || s[0] == '}') {
        lemma_num_split_bounds(s.drop_first());
    }
}

/// Decodes the members of an object from just after `{` (or after a `,`),
/// through the closing `}`, which must end the text.
pub open spec fn jparse_members(s: Seq<char>) -> Option<Seq<JsonMemberV>>
    decreases s.len(),
{
    if s.len() == 0 || s[0] != '"' {
        None
    } else {
        proof {
            lemma_jparse_str_shrinks(s.drop_first());
        }
        match jparse_str(s.drop_first()) {
            None => None,
            Some(kt) => {
                let key = kt.0;
                let r1 = kt.1;
                if r1.len() == 0 || r1[0] != ':' {
                    None
                } else {
                    let r2 = r1.drop_first();
                    if r2.len() > 0 && r2[0] == '"' {
                        proof {
                            lemma_jparse_str_shrinks(r2.drop_first());
                        }
                        match jparse_str(r2.drop_first()) {
                            None => None,
                            Some(vt) => {
                                let m = JsonMemberV { key, val: JsonValV::S(vt.0) };
                                let r3 = vt.1;
                                if r3.len() == 1 && r3[0] == '}' {
                                    Some(seq![m])
                                } else if r3.len() > 0 && r3[0] == ',' {
                                    match jparse_members(r3.drop_first()) {
                                        Some(rest) => Some(seq![m] + rest),
                                        None => None,
                                    }
                                } else {
                                    None
                                }
                            },
                        }
                    } else {
                        let n = num_split(r2);
                        proof {
                            lemma_num_split_bounds(r2);
                        }
                        if n == 0 {
                            None
                        } else {
                            let m = JsonMemberV { key, val: JsonValV::N(r2.take(n)) };
                            let r3 = r2.skip(n);
                            if r3.len() == 1 && r3[0] == '}' {
                                Some(seq![m])
                            } else if r3.len() > 0 && r3[0] == ',' {
                                match jparse_members(r3.drop_first()) {
                                    Some(rest) => Some(seq![m] + rest),
                                    None => None,
                                }
                            } else {
                                None
                            }
                        }
                    }
                }
            },
        }
    }
}

/// Decodes a whole object: `{}`, or `{` followed by members through `}`.
pub open spec fn jparse_obj(s: Seq<char>) -> Option<Seq<JsonMemberV>> {
    if s.len() >= 2 && s[0] == '{' {
        if s.len() == 2 && s[1] == '}' {
            Some(Seq::empty())
        } else {
            jparse_members(s.drop_first())
        }
    } else {
        None
    }
}

/// Escaping distributes over concatenation.
pub proof fn lemma_json_escape_concat(a: Seq<char>, b: Seq<char>)
    ensures
        json_escape(a + b) == json_escape(a) + json_escape(b),
    decreases b.len(),
{
    if b.len() == 0 {
        assert(a + b =~= a);
        assert(json_escape(a) + json_escape(b) =~= json_escape(a));
    } else {
        lemma_json_escape_concat(a, b.drop_last());
        assert((a + b).drop_last() =~= a + b.drop_last());
        assert((a + b).last() == b.last());
        assert(json_escape(a) + (json_escape(b.drop_last()) + json_escape_char(b.last())) =~= (
        json_escape(a) + json_escape(b.drop_last())) + json_escape_char(b.last()));
    }
}

/// Decoding an escaped text followed by the closing quote gives back the
/// text and the remainder.
pub proof fn lemma_jparse_str_round_trip(k: Seq<char>, rest: Seq<char>)
    ensures
        jparse_str(json_escape(k) + seq!['"'] + rest) == Some((k, rest)),
    decreases k.len(),
{
    if k.len() == 0 {
        assert(json_escape(k) =~= Seq::<char>::empty());
        let s = json_escape(k) + seq!['"'] + rest;
        assert(s =~= seq!['"'] + rest);
        assert(s[0] == '"');
        assert(s.drop_first() =~= rest);
    } else {
        let k0 = k[0];
        let k1 = k.drop_first();
        lemma_jparse_str_round_trip(k1, rest);
        assert(k =~= k.take(1) + k1);
        lemma_json_escape_concat(k.take(1), k1);
        assert(k.take(1).len() == 1);
        assert(k.take(1).drop_last() =~= Seq::<char>::empty());
        assert(k.take(1).last() == k0);
        assert(json_escape(k.take(1)) == json_escape(k.take(1).drop_last()) + json_escape_char(
            k.take(1).last(),
        ));
        assert(json_escape(Seq::<char>::empty()) =~= Seq::<char>::empty());
        assert(json_escape(k.take(1)) =~= json_escape_char(k0));
        let s = json_escape(k) + seq!['"'] + rest;
        let inner = json_escape(k1) + seq!['"'] + rest;
        if k0 == '"' || k0 == '\\' {
            assert(json_escape_char(k0) =~= seq!['\\', k0]);
            assert(s =~= seq!['\\', k0] + inner);
            assert(s[0] == '\\');
            assert(s.len() >= 2);
            assert(s[1] == k0);
            assert(s.skip(2) =~= inner);
            assert(seq![k0] + k1 =~= k);
        } else {
            assert(json_escape_char(k0) =~= seq![k0]);
            assert(s =~= seq![k0] + inner);
            assert(s[0] == k0);
            assert(s.drop_first() =~= inner);
            assert(seq![k0] + k1 =~= k);
        }
    }
}

/// Scanning an unquoted number stops exactly at the structural character
/// that follows it.
pub proof fn lemma_num_split_exact(t: Seq<char>, rest: Seq<char>)
    requires
        forall|i: int| 0 <= i < t.len() ==> #[trigger] t[i] != ',' && t[i] != '}' && t[i] != '"',
        rest.len() > 0,
        rest[0] == ',' || rest[0] == '}',
    ensures
        num_split(t + rest) == t.len(),
    decreases t.len(),
{
    let s = t + rest;
    if t.len() == 0 {
        assert(s =~= rest);
    } else {
        assert(s[0] == t[0]);
        lemma_num_split_exact(t.drop_first(), rest);
        assert(s.drop_first() =~= t.drop_first() + rest);
    }
}

/// The members' text of a non-empty map is itself non-empty.
proof fn lemma_json_members_len(ps: Seq<PropV>)
    requires
        ps.len() > 0,
    ensures
        json_members(ps).len() > 0,
    decreases ps.len(),
{
    if ps.len() == 1 {
        assert(json_members(ps) == json_member(ps[0]));
    } else {
        lemma_json_members_len(ps.drop_last());
    }
}

/// Front decomposition of the comma-joined members.
proof fn lemma_json_members_front(ps: Seq<PropV>)
    requires
        ps.len() >= 1,
    ensures
        ps.len() == 1 ==> json_members(ps) == json_member(ps[0]),
        ps.len() > 1 ==> json_members(ps) == json_member(ps[0]) + seq![','] + json_members(
            ps.drop_first(),
        ),
    decreases ps.len(),
{
    if ps.len() == 1 {
    } else if ps.len() == 2 {
        assert(ps.drop_last() =~= seq![ps[0]]);
        assert(ps.drop_first() =~= seq![ps[1]]);
        assert(json_members(seq![ps[0]]) == json_member(ps[0]));
        assert(json_members(seq![ps[1]]) == json_member(ps[1]));
        assert(seq![ps[0]][0] == ps[0]);
        assert(seq![ps[1]][0] == ps[1]);
        assert(json_member(ps[0]) + seq![','] + json_member(ps.last()) =~= json_member(ps[0])
            + seq![','] + json_members(ps.drop_first()));
    } else {
        lemma_json_members_front(ps.drop_last());
        assert(ps.drop_last()[0] == ps[0]);
        assert(ps.drop_last().drop_first() =~= ps.drop_first().drop_last());
        assert(ps.drop_first().last() == ps.last());
        assert(ps.drop_first().len() > 1);
        assert(json_members(ps) == (json_member(ps[0]) + seq![','] + json_members(
            ps.drop_first().drop_last(),
        )) + seq![','] + json_member(ps.last()));
        assert((json_member(ps[0]) + seq![','] + json_members(ps.drop_first().drop_last()))
            + seq![','] + json_member(ps.last()) =~= json_member(ps[0]) + seq![','] + (
        json_members(ps.drop_first().drop_last()) + seq![','] + json_member(
            ps.drop_first().last(),
        )));
    }
}

/// Decoding the members' text of a non-empty valid map, closed by `}`,
/// gives back its members.
proof fn lemma_jparse_members_round_trip(ps: Seq<PropV>)
    requires
        wf_props(ps),
        ps.len() >= 1,
    ensures
        jparse_members(json_members(ps) + seq!['}']) == Some(entries_of(ps)),
    decreases ps.len(),
{
    let p = ps[0];
    let tail: Seq<char> = if ps.len() == 1 {
        seq!['}']
    } else {
        seq![','] + json_members(ps.drop_first()) + seq!['}']
    };
    lemma_json_members_front(ps);
    let s = json_members(ps) + seq!['}'];
    assert(s =~= json_member(p) + tail);
    let valtxt: Seq<char> = match p.val {
        PropValV::Str(t) => json_str(t),
        PropValV::Num(t) => t,
    };
    assert(s =~= (seq!['"'] + json_escape(p.key) + seq!['"']) + (seq![':'] + valtxt + tail));
    assert(s[0] == '"');
    assert(s.drop_first() =~= json_escape(p.key) + seq!['"'] + (seq![':'] + valtxt + tail));
    lemma_jparse_str_round_trip(p.key, seq![':'] + valtxt + tail);
    let r1 = seq![':'] + valtxt + tail;
    assert(jparse_str(s.drop_first()) == Some((p.key, r1)));
    assert(r1[0] == ':');
    let r2 = r1.drop_first();
    assert(r2 =~= valtxt + tail);
    if ps.len() > 1 {
        assert(tail[0] == ',');
        assert(tail.drop_first() =~= json_members(ps.drop_first()) + seq!['}']);
        lemma_jparse_members_round_trip(ps.drop_first());
    }
    match p.val {
        PropValV::Str(t) => {
            assert(valtxt =~= seq!['"'] + json_escape(t) + seq!['"']);
            assert(r2[0] == '"');
            assert(r2.drop_first() =~= json_escape(t) + seq!['"'] + tail);
            lemma_jparse_str_round_trip(t, tail);
            assert(jparse_str(r2.drop_first()) == Some((t, tail)));
            let m = JsonMemberV { key: p.key, val: JsonValV::S(t) };
            assert(m == member_of(p));
            if ps.len() == 1 {
                assert(tail.len() == 1 && tail[0] == '}');
                assert(jparse_members(s) == Some(seq![m]));
                assert(entries_of(ps) =~= seq![member_of(p)]);
            } else {
                assert(!(tail.len() == 1 && tail[0] == '}'));
                assert(jparse_members(s) == Some(seq![m] + entries_of(ps.drop_first())));
                assert(seq![m] + entries_of(ps.drop_first()) =~= entries_of(ps));
            }
        },
        PropValV::Num(t) => {
            assert(wf_prop(p));
            assert(plain_num(t));
            assert(r2 =~= t + tail);
            assert(tail[0] == ',' || tail[0] == '}');
            assert(r2[0] == t[0]);
            assert(t[0] != '"');
            lemma_num_split_exact(t, tail);
            assert(num_split(r2) == t.len());
            assert(num_split(r2) > 0);
            assert(r2.take(t.len() as int) =~= t);
            assert(r2.skip(t.len() as int) =~= tail);
            let m = JsonMemberV { key: p.key, val: JsonValV::N(t) };
            assert(m == member_of(p));
            if ps.len() == 1 {
                assert(tail.len() == 1 && tail[0] == '}');
                assert(jparse_members(s) == Some(seq![m]));
                assert(entries_of(ps) =~= seq![member_of(p)]);
            } else {
                assert(!(tail.len() == 1 && tail[0] == '}'));
                assert(jparse_members(s) == Some(seq![m] + entries_of(ps.drop_first())));
                assert(seq![m] + entries_of(ps.drop_first()) =~= entries_of(ps));
            }
        },
    }
}

/// Property round-trip law: for any valid property map, the JSON payload
/// the desugarer emits, parsed back, is exactly that map — the same key
/// sequence and the same values, in insertion order.
pub proof fn lemma_json_round_trip(ps: Seq<PropV>)
    requires
        wf_props(ps),
    ensures
        jparse_obj(json_obj(ps)) == Some(entries_of(ps)),
{
    let s = json_obj(ps);
    if ps.len() == 0 {
        assert(json_members(ps) =~= Seq::<char>::empty());
        assert(s =~= seq!['{', '}']);
        assert(s.len() == 2 && s[0] == '{' && s[1] == '}');
        assert(entries_of(ps) =~= Seq::<JsonMemberV>::empty());
    } else {
        lemma_json_members_len(ps);
        assert(s.len() > 2);
        assert(s[0] == '{');
        assert(s.drop_first() =~= json_members(ps) + seq!['}']);
        lemma_jparse_members_round_trip(ps);
    }
}


/// A numeric literal's characters (digits and dots) are free of the
/// structural JSON characters.
pub proof fn lemma_num_shaped_plain(t: Seq<char>)
    requires
        num_shaped(t),
    ensures
        plain_num(t),
{
    assert forall|i: int| 0 <= i < t.len() implies #[trigger] t[i] != ',' && t[i] != '}' && t[i]
        != '"' by {
        assert(is_digit_char(t[i]) || t[i] == '.');
    }
}

/// Every property map the parser builds from lexer output is valid for the
/// round trip: its numeric values keep the numeric-literal shape.
pub proof fn lemma_parse_entries_wf(toks: Seq<TokenV>, i: int, acc: Seq<PropV>)
    requires
        0 <= i,
        forall|k: int|
            0 <= k < toks.len() && (#[trigger] toks[k]).kind == TokKind::NumLit ==> num_shaped(
                toks[k].text,
            ),
        wf_props(acc),
    ensures
        match spec_parse_entries(toks, i, acc) {
            Ok(t) => wf_props(t.0),
            Err(_) => true,
        },
    decreases toks.len() - i,
{
    if i + 2 < toks.len() && toks[i].kind == TokKind::Ident && toks[i + 1].kind == TokKind::Colon
        && (toks[i + 2].kind == TokKind::StrLit || toks[i + 2].kind == TokKind::NumLit)
        && !has_key(acc, toks[i].text) {
        let val = if toks[i + 2].kind == TokKind::StrLit {
            PropValV::Str(strip_quotes(toks[i + 2].text))
        } else {
            PropValV::Num(toks[i + 2].text)
        };
        let p = PropV { key: toks[i].text, val };
        if toks[i + 2].kind == TokKind::NumLit {
            lemma_num_shaped_plain(toks[i + 2].text);
        }
        assert(wf_prop(p));
        let acc2 = acc.push(p);
        assert forall|k: int| 0 <= k < acc2.len() implies wf_prop(#[trigger] acc2[k]) by {
            if k < acc.len() {
                assert(acc2[k] == acc[k]);
            } else {
                assert(acc2[k] == p);
            }
        }
        if i + 3 < toks.len() && toks[i + 3].kind == TokKind::Comma {
            lemma_parse_entries_wf(toks, i + 4, acc2);
        }
    }
}

/// The same, from the opening brace of a property map.
pub proof fn lemma_parse_props_wf(toks: Seq<TokenV>, i: int)
    requires
        0 <= i,
        forall|k: int|
            0 <= k < toks.len() && (#[trigger] toks[k]).kind == TokKind::NumLit ==> num_shaped(
                toks[k].text,
            ),
    ensures
        match spec_parse_props(toks, i) {
            Ok(t) => wf_props(t.0),
            Err(_) => true,
        },
{
    lemma_parse_entries_wf(toks, i, Seq::empty());
}


/// Property round-trip, end to end: for any query text that lexes, every
/// property map parsed out of its tokens yields a JSON payload that parses
/// back to exactly that map.
pub proof fn lemma_parsed_props_round_trip(q: Seq<char>, i: int)
    requires
        lex(q) is Ok,
        0 <= i,
    ensures
        match spec_parse_props(lex(q)->Ok_0, i) {
            Ok(t) => jparse_obj(json_obj(t.0)) == Some(entries_of(t.0)),
            Err(_) => true,
        },
{
    lemma_lex_num_shaped(q, 0);
    lemma_parse_props_wf(lex(q)->Ok_0, i);
    match spec_parse_props(lex(q)->Ok_0, i) {
        Ok(t) => {
            lemma_json_round_trip(t.0);
        },
        Err(_) => {},
    }
}

} // verus!
