//! The laws the library keeps: lowering is invertible, lookup composes over
//! dotted paths, and each expansion outcome is forced.
use vstd::prelude::*;
use crate::config::{expand_spec, Outcome};
use crate::lower::{lower, lower_elems, Tok};
use crate::value::{lookup_segs, lookup_spec, split_path, lemma_split_path_len, Val};

verus! {

/// Whether a value is made of strings, integers, booleans and floats,
/// nested in arrays only: the values whose lowering is invertible. A table
/// does not lower at all, and a date-time lowers to a bare string literal.
pub open spec fn plain(v: Val) -> bool
    decreases v,
{
    match v {
        Val::Str(_) => true,
        Val::Int(_) => true,
        Val::Bool(_) => true,
        Val::Float(_) => true,
        Val::Datetime(_) => false,
        Val::Array(elems) => plain_elems(elems),
        Val::Table(_) => false,
    }
}

pub open spec fn plain_elems(elems: Seq<Val>) -> bool
    decreases elems,
{
    elems.len() == 0 || (plain(elems[0]) && plain_elems(elems.drop_first()))
}

/// Reading one value back from a token sequence: the value denoted by the
/// leading tokens, and the tokens that follow it.
pub open spec fn parse_value(toks: Seq<Tok>) -> Option<(Val, Seq<Tok>)>
    decreases toks.len(), 0int,
{
    if toks.len() == 0 {
        None
    } else {
        match toks[0] {
            Tok::StrLit(s) => Some((Val::Str(s), toks.drop_first())),
            Tok::IntLit(i) => Some((Val::Int(i), toks.drop_first())),
            Tok::BoolLit(b) => Some((Val::Bool(b), toks.drop_first())),
            Tok::FloatLit(s) => Some((Val::Float(s), toks.drop_first())),
            Tok::ArrayStart => match parse_items(toks.drop_first()) {
                Some((vs, rest)) => Some((Val::Array(vs), rest)),
                None => None,
            },
            _ => None,
        }
    }
}

/// Reading array items back, each followed by its comma, up to the closing
/// bracket.
pub open spec fn parse_items(toks: Seq<Tok>) -> Option<(Seq<Val>, Seq<Tok>)>
    decreases toks.len(), 1int,
{
    if toks.len() == 0 {
        None
    } else if toks[0] is ArrayEnd {
        Some((Seq::empty(), toks.drop_first()))
    } else {
        match parse_value(toks) {
            Some((v, rest)) => if rest.len() < toks.len() && rest.len() > 0 && rest[0]
                is Comma {
                match parse_items(rest.drop_first()) {
                    Some((vs, rest2)) => Some((seq![v] + vs, rest2)),
                    None => None,
                }
            } else {
                None
            },
            None => None,
        }
    }
}

/// The tokens of a lowered value are non-empty and never open with a comma
/// or a closing bracket.
proof fn lemma_lower_first(v: Val)
    requires
        lower(v) is Some,
    ensures
        lower(v)->Some_0.len() >= 1,
        !(lower(v)->Some_0[0] is Comma),
        !(lower(v)->Some_0[0] is ArrayEnd),
{
}

proof fn lemma_parse_after_lower(v: Val, rest: Seq<Tok>)
    requires
        plain(v),
    ensures
        lower(v) matches Some(ts) && parse_value(ts + rest) == Some((v, rest)),
    decreases v,
{
    match v {
        Val::Array(elems) => {
            lemma_parse_items_after(elems, rest);
            let ts = lower_elems(elems)->Some_0;
            let full = seq![Tok::ArrayStart] + ts + seq![Tok::ArrayEnd];
            assert((full + rest)[0] == Tok::ArrayStart);
            assert((full + rest).drop_first() =~= ts + seq![Tok::ArrayEnd] + rest);
        },
        _ => {
            let ts = lower(v)->Some_0;
            assert((ts + rest)[0] == ts[0]);
            assert((ts + rest).drop_first() =~= rest);
        },
    }
}

proof fn lemma_parse_items_after(elems: Seq<Val>, rest: Seq<Tok>)
    requires
        plain_elems(elems),
    ensures
        lower_elems(elems) matches Some(ts) && parse_items(ts + seq![Tok::ArrayEnd] + rest)
            == Some((elems, rest)),
    decreases elems,
{
    if elems.len() == 0 {
        assert(lower_elems(elems) == Some(Seq::<Tok>::empty()));
        let toks = Seq::<Tok>::empty() + seq![Tok::ArrayEnd] + rest;
        assert(toks[0] is ArrayEnd);
        assert(toks.drop_first() =~= rest);
    } else {
        let tail = seq![Tok::Comma] + lower_elems(elems.drop_first())->Some_0 + seq![
            Tok::ArrayEnd,
        ] + rest;
        lemma_parse_after_lower(elems[0], tail);
        lemma_parse_items_after(elems.drop_first(), rest);
        let a = lower(elems[0])->Some_0;
        let b = lower_elems(elems.drop_first())->Some_0;
        let toks = (a + seq![Tok::Comma] + b) + seq![Tok::ArrayEnd] + rest;
        lemma_lower_first(elems[0]);
        assert(toks =~= a + tail);
        assert(toks[0] == a[0]);
        assert(parse_value(toks) == Some((elems[0], tail)));
        assert(tail.len() < toks.len());
        assert(tail[0] is Comma);
        assert(tail.drop_first() =~= b + seq![Tok::ArrayEnd] + rest);
        assert(parse_items(toks) == Some((seq![elems[0]] + elems.drop_first(), rest)));
        assert(seq![elems[0]] + elems.drop_first() =~= elems);
    }
}

/// Lowering a value made of the scalar kinds and nested arrays of them, then
/// reading the emitted tokens back, yields exactly the original value.
pub proof fn lemma_lower_round_trip(v: Val)
    requires
        plain(v),
    ensures
        lower(v) matches Some(ts) && parse_value(ts) == Some((v, Seq::<Tok>::empty())),
{
    lemma_parse_after_lower(v, Seq::empty());
    let ts = lower(v)->Some_0;
    assert(ts + Seq::<Tok>::empty() =~= ts);
}

/// Expanding a path that resolves to such a value yields tokens that read
/// back as exactly that value: the call site sees an equal literal.
pub proof fn lemma_expansion_reproduces_value(doc: Val, args: Seq<Tok>, path: Seq<char>, v: Val)
    requires
        args.len() == 1 || args.len() == 3,
        args[0] == Tok::StrLit(path),
        lookup_spec(doc, path) == Some(v),
        plain(v),
    ensures
        expand_spec(doc, args) matches Outcome::Toks(ts) && parse_value(ts) == Some(
            (v, Seq::<Tok>::empty()),
        ),
{
    lemma_lower_round_trip(v);
}

proof fn lemma_lookup_segs_append(v: Val, a: Seq<Seq<char>>, b: Seq<Seq<char>>)
    ensures
        lookup_segs(v, a + b) == match lookup_segs(v, a) {
            Some(u) => lookup_segs(u, b),
            None => None::<Val>,
        },
    decreases a.len(),
{
    if a.len() == 0 {
        assert(a + b =~= b);
    } else {
        assert((a + b)[0] == a[0]);
        assert((a + b).drop_first() =~= a.drop_first() + b);
        match v {
            Val::Table(entries) => {
                match crate::value::table_get(entries, a[0]) {
                    Some(u) => {
                        lemma_lookup_segs_append(u, a.drop_first(), b);
                    },
                    None => {},
                }
            },
            _ => {},
        }
    }
}

proof fn lemma_split_path_dot(s1: Seq<char>, s2: Seq<char>)
    ensures
        split_path(s1 + seq!['.'] + s2) == split_path(s1) + split_path(s2),
    decreases s2.len(),
{
    lemma_split_path_len(s1);
    if s2.len() == 0 {
        let s = s1 + seq!['.'] + s2;
        assert(s.drop_last() =~= s1);
        assert(s.last() == '.');
        assert(split_path(Seq::<char>::empty()) == seq![Seq::<char>::empty()]);
        assert(split_path(s1).push(Seq::<char>::empty()) =~= split_path(s1) + seq![
            Seq::<char>::empty(),
        ]);
    } else {
        let s = s1 + seq!['.'] + s2;
        assert(s.drop_last() =~= s1 + seq!['.'] + s2.drop_last());
        assert(s.last() == s2.last());
        lemma_split_path_dot(s1, s2.drop_last());
        lemma_split_path_len(s2.drop_last());
        let x = split_path(s1);
        let y = split_path(s2.drop_last());
        if s2.last() == '.' {
            assert((x + y).push(Seq::<char>::empty()) =~= x + y.push(Seq::<char>::empty()));
        } else {
            assert((x + y).last() == y.last());
            assert((x + y).update(x.len() + y.len() - 1, y.last().push(s2.last())) =~= x
                + y.update(y.len() - 1, y.last().push(s2.last())));
        }
    }
}

/// Lookup is associative over dotted segments: resolving `s1 ++ "." ++ s2`
/// equals resolving `s1`, then resolving `s2` against what it found.
pub proof fn lemma_lookup_dotted(v: Val, s1: Seq<char>, s2: Seq<char>)
    ensures
        lookup_spec(v, s1 + seq!['.'] + s2) == match lookup_spec(v, s1) {
            Some(u) => lookup_spec(u, s2),
            None => None::<Val>,
        },
{
    lemma_split_path_dot(s1, s2);
    lemma_lookup_segs_append(v, split_path(s1), split_path(s2));
}

/// A path that resolves to a table makes the expansion fail, even when a
/// fallback argument was supplied: the fallback serves an absent key only.
pub proof fn lemma_table_value_always_errors(doc: Val, args: Seq<Tok>, path: Seq<char>)
    requires
        args.len() == 1 || args.len() == 3,
        args[0] == Tok::StrLit(path),
        lookup_spec(doc, path) matches Some(v) && v is Table,
    ensures
        expand_spec(doc, args) == Outcome::TableValue,
{
}

/// An absent path with a fallback expands to exactly the fallback token,
/// whatever the document holds.
pub proof fn lemma_default_used(doc: Val, args: Seq<Tok>, path: Seq<char>)
    requires
        args.len() == 3,
        args[0] == Tok::StrLit(path),
        lookup_spec(doc, path) is None,
    ensures
        expand_spec(doc, args) == Outcome::Toks(seq![args[2]]),
{
}

/// An absent path without a fallback comes back as an error value naming the
/// path, for this call site alone; nothing is aborted.
pub proof fn lemma_missing_key_reported(doc: Val, args: Seq<Tok>, path: Seq<char>)
    requires
        args.len() == 1,
        args[0] == Tok::StrLit(path),
        lookup_spec(doc, path) is None,
    ensures
        expand_spec(doc, args) == Outcome::MissingKey(path),
{
}

} // verus!
