//! Lowering a configuration value to a literal token sequence.
use vstd::prelude::*;
use crate::value::{TomlValue, Val, model_elems, lemma_model_elems_index, lemma_model_elems_len};

verus! {

/// A literal token emitted in place of a macro invocation. An array value
/// becomes a bracketed, comma-separated (trailing comma included) run of its
/// elements' tokens.
#[derive(Debug, PartialEq)]
pub enum Token {
    /// A string literal; date-time values are also carried as one.
    StrLit(String),
    /// An unsuffixed integer literal.
    IntLit(i64),
    /// A boolean literal.
    BoolLit(bool),
    /// An unsuffixed floating literal, as its canonical decimal text.
    FloatLit(String),
    /// The separator inside an array literal and inside a macro argument list.
    Comma,
    /// The opening of an array literal.
    ArrayStart,
    /// The closing of an array literal.
    ArrayEnd,
    /// Any other host token tree, carried through as its source text:
    /// lowering never emits one, but a fallback argument may hold one, and
    /// it is then passed along verbatim.
    Opaque(String),
}

impl Clone for Token {
    /// An equal token.
    fn clone(&self) -> (r: Self)
        ensures
            r == *self,
    {
        match self {
            Token::StrLit(s) => Token::StrLit(s.clone()),
            Token::IntLit(i) => Token::IntLit(*i),
            Token::BoolLit(b) => Token::BoolLit(*b),
            Token::FloatLit(s) => Token::FloatLit(s.clone()),
            Token::Comma => Token::Comma,
            Token::ArrayStart => Token::ArrayStart,
            Token::ArrayEnd => Token::ArrayEnd,
            Token::Opaque(s) => Token::Opaque(s.clone()),
        }
    }
}

/// The mathematical model of a `Token`.
pub enum Tok {
    StrLit(Seq<char>),
    IntLit(int),
    BoolLit(bool),
    FloatLit(Seq<char>),
    Comma,
    ArrayStart,
    ArrayEnd,
    Opaque(Seq<char>),
}

impl Token {
    /// The model of this token.
    pub open spec fn model(self) -> Tok {
        match self {
            Token::StrLit(s) => Tok::StrLit(s@),
            Token::IntLit(i) => Tok::IntLit(i as int),
            Token::BoolLit(b) => Tok::BoolLit(b),
            Token::FloatLit(s) => Tok::FloatLit(s@),
            Token::Comma => Tok::Comma,
            Token::ArrayStart => Tok::ArrayStart,
            Token::ArrayEnd => Tok::ArrayEnd,
            Token::Opaque(s) => Tok::Opaque(s@),
        }
    }
}

/// The models of a token sequence.
pub open spec fn tok_models(ts: Seq<Token>) -> Seq<Tok> {
    Seq::new(ts.len(), |i: int| ts[i].model())
}

/// Lowering a value to its literal tokens; a table has none.
pub open spec fn lower(v: Val) -> Option<Seq<Tok>>
    decreases v,
{
    match v {
        Val::Str(s) => Some(seq![Tok::StrLit(s)]),
        Val::Int(i) => Some(seq![Tok::IntLit(i)]),
        Val::Bool(b) => Some(seq![Tok::BoolLit(b)]),
        Val::Float(s) => Some(seq![Tok::FloatLit(s)]),
        Val::Datetime(s) => Some(seq![Tok::StrLit(s)]),
        Val::Array(elems) => match lower_elems(elems) {
            Some(ts) => Some(seq![Tok::ArrayStart] + ts + seq![Tok::ArrayEnd]),
            None => None,
        },
        Val::Table(_) => None,
    }
}

/// Lowering the elements of an array: each element's tokens followed by a comma.
pub open spec fn lower_elems(elems: Seq<Val>) -> Option<Seq<Tok>>
    decreases elems,
{
    if elems.len() == 0 {
        Some(Seq::empty())
    } else {
        match lower(elems[0]) {
            Some(ts) => match lower_elems(elems.drop_first()) {
                Some(rest) => Some(ts + seq![Tok::Comma] + rest),
                None => None,
            },
            None => None,
        }
    }
}

/// Whether a value holds no table anywhere: exactly these values lower.
pub open spec fn table_free(v: Val) -> bool
    decreases v,
{
    match v {
        Val::Array(elems) => elems_table_free(elems),
        Val::Table(_) => false,
        _ => true,
    }
}

pub open spec fn elems_table_free(elems: Seq<Val>) -> bool
    decreases elems,
{
    elems.len() == 0 || (table_free(elems[0]) && elems_table_free(elems.drop_first()))
}

/// Lowering succeeds exactly on table-free values.
pub proof fn lemma_lower_some_iff_table_free(v: Val)
    ensures
        lower(v) is Some <==> table_free(v),
    decreases v,
{
    match v {
        Val::Array(elems) => {
            lemma_lower_elems_some_iff_table_free(elems);
        },
        _ => {},
    }
}

pub proof fn lemma_lower_elems_some_iff_table_free(elems: Seq<Val>)
    ensures
        lower_elems(elems) is Some <==> elems_table_free(elems),
    decreases elems,
{
    if elems.len() > 0 {
        lemma_lower_some_iff_table_free(elems[0]);
        lemma_lower_elems_some_iff_table_free(elems.drop_first());
    }
}

/// The error of lowering: only a table value refuses conversion.
#[derive(Debug, Clone, PartialEq)]
pub enum LoweringError {
    /// The resolved value is a table, which has no literal form.
    TableValue,
}

/// `lower_elems` over a sequence extended by one element.
pub proof fn lemma_lower_elems_push(elems: Seq<Val>, e: Val)
    ensures
        lower_elems(elems.push(e)) == match (lower_elems(elems), lower(e)) {
            (Some(a), Some(b)) => Some(a + b + seq![Tok::Comma]),
            _ => None::<Seq<Tok>>,
        },
    decreases elems,
{
    if elems.len() == 0 {
        assert(elems.push(e)[0] == e);
        assert(elems.push(e).drop_first() =~= Seq::<Val>::empty());
        assert(lower_elems(Seq::<Val>::empty()) == Some(Seq::<Tok>::empty()));
        match lower(e) {
            Some(b) => {
                assert(lower_elems(elems.push(e)) == Some(b + seq![Tok::Comma] + Seq::empty()));
                assert(b + seq![Tok::Comma] + Seq::empty() =~= Seq::empty() + b + seq![
                    Tok::Comma,
                ]);
            },
            None => {},
        }
    } else {
        assert(elems.push(e)[0] == elems[0]);
        assert(elems.push(e).drop_first() =~= elems.drop_first().push(e));
        lemma_lower_elems_push(elems.drop_first(), e);
        match (lower(elems[0]), lower_elems(elems.drop_first()), lower(e)) {
            (Some(ts), Some(rest), Some(b)) => {
                assert(ts + seq![Tok::Comma] + (rest + b + seq![Tok::Comma]) =~= (ts + seq![
                    Tok::Comma,
                ] + rest) + b + seq![Tok::Comma]);
            },
            _ => {},
        }
    }
}

/// `model_elems` over a sequence extended by one element.
pub proof fn lemma_model_elems_push(s: Seq<TomlValue>, e: TomlValue)
    ensures
        model_elems(s.push(e)) =~= model_elems(s).push(e.model()),
    decreases s,
{
    if s.len() == 0 {
        assert(s.push(e)[0] == e);
        assert(s.push(e).drop_first() =~= Seq::<TomlValue>::empty());
        assert(model_elems(Seq::<TomlValue>::empty()) =~= Seq::<Val>::empty());
    } else {
        assert(s.push(e)[0] == s[0]);
        assert(s.push(e).drop_first() =~= s.drop_first().push(e));
        lemma_model_elems_push(s.drop_first(), e);
    }
}

impl TomlValue {
    /// Converts this value into its literal token sequence; a table is
    /// rejected with `LoweringError::TableValue`, and only a table is.
    pub fn to_tokens(&self) -> (r: Result<Vec<Token>, LoweringError>)
        ensures
            match r {
                Ok(ts) => lower(self.model()) == Some(tok_models(ts@)),
                Err(_) => lower(self.model()) is None,
            },
        decreases *self,
    {
        match self {
            TomlValue::Str(s) => {
                let ts = vec![Token::StrLit(s.clone())];
                proof {
                    assert(tok_models(ts@) =~= seq![Tok::StrLit(s@)]);
                }
                Ok(ts)
            },
            TomlValue::Int(i) => {
                let ts = vec![Token::IntLit(*i)];
                proof {
                    assert(tok_models(ts@) =~= seq![Tok::IntLit(*i as int)]);
                }
                Ok(ts)
            },
            TomlValue::Bool(b) => {
                let ts = vec![Token::BoolLit(*b)];
                proof {
                    assert(tok_models(ts@) =~= seq![Tok::BoolLit(*b)]);
                }
                Ok(ts)
            },
            TomlValue::Float(s) => {
                let ts = vec![Token::FloatLit(s.clone())];
                proof {
                    assert(tok_models(ts@) =~= seq![Tok::FloatLit(s@)]);
                }
                Ok(ts)
            },
            TomlValue::Datetime(s) => {
                let ts = vec![Token::StrLit(s.clone())];
                proof {
                    assert(tok_models(ts@) =~= seq![Tok::StrLit(s@)]);
                }
                Ok(ts)
            },
            TomlValue::Array(elems) => {
                let mut out: Vec<Token> = Vec::new();
                out.push(Token::ArrayStart);
                let ghost gelems: Seq<Val> = model_elems(elems@);
                proof {
                    lemma_model_elems_len(elems@);
                    assert(elems@.take(0) =~= Seq::<TomlValue>::empty());
                    assert(model_elems(elems@.take(0)) =~= Seq::<Val>::empty());
                    assert(tok_models(out@) =~= seq![Tok::ArrayStart] + Seq::<Tok>::empty());
                }
                let mut i: usize = 0;
                while i < elems.len()
                    invariant
                        i <= elems@.len(),
                        *self == TomlValue::Array(*elems),
                        gelems == model_elems(elems@),
                        lower_elems(model_elems(elems@.take(i as int))) matches Some(done)
                            && tok_models(out@) == seq![Tok::ArrayStart] + done,
                    decreases elems@.len() - i,
                {
                    proof {
                        assert(decreases_to!(*self => self->Array_0));
                        assert(decreases_to!(self->Array_0 => self->Array_0@));
                        assert(decreases_to!(self->Array_0@ => self->Array_0@[i as int]));
                        assert(elems@ == self->Array_0@);
                    }
                    let mut piece = match elems[i].to_tokens() {
                        Ok(ts) => ts,
                        Err(e) => {
                            proof {
                                lemma_model_elems_len(elems@);
                                lemma_model_elems_index(elems@, i as int);
                                lemma_lower_some_iff_table_free(elems@[i as int].model());
                                lemma_elems_with_table(gelems, i as int);
                                lemma_lower_elems_some_iff_table_free(gelems);
                            }
                            return Err(e);
                        },
                    };
                    let ghost out0: Seq<Token> = out@;
                    let ghost piece0: Seq<Token> = piece@;
                    out.append(&mut piece);
                    out.push(Token::Comma);
                    proof {
                        lemma_model_elems_index(elems@, i as int);
                        assert(elems@.take(i + 1) =~= elems@.take(i as int).push(
                            elems@[i as int],
                        ));
                        lemma_model_elems_push(elems@.take(i as int), elems@[i as int]);
                        lemma_lower_elems_push(
                            model_elems(elems@.take(i as int)),
                            elems@[i as int].model(),
                        );
                        assert(out@ =~= out0 + piece0 + seq![Token::Comma]);
                        lemma_tok_models_concat(out0, piece0);
                        lemma_tok_models_concat(out0 + piece0, seq![Token::Comma]);
                        assert(tok_models(seq![Token::Comma]) =~= seq![Tok::Comma]);
                        assert(tok_models(out@) == tok_models(out0 + piece0 + seq![Token::Comma]));
                        assert(tok_models(out@) =~= seq![Tok::ArrayStart] + (lower_elems(
                            model_elems(elems@.take(i as int)),
                        )->Some_0 + lower(elems@[i as int].model())->Some_0 + seq![Tok::Comma]));
                    }
                    i += 1;
                }
                out.push(Token::ArrayEnd);
                proof {
                    assert(elems@.take(elems@.len() as int) =~= elems@);
                    assert(tok_models(out@) =~= seq![Tok::ArrayStart] + lower_elems(
                        gelems,
                    )->Some_0 + seq![Tok::ArrayEnd]);
                }
                Ok(out)
            },
            TomlValue::Table(_) => Err(LoweringError::TableValue),
        }
    }
}

/// `tok_models` distributes over concatenation.
pub proof fn lemma_tok_models_concat(a: Seq<Token>, b: Seq<Token>)
    ensures
        tok_models(a + b) =~= tok_models(a) + tok_models(b),
{
}

/// If one element of a sequence holds a table, the sequence is not table-free.
proof fn lemma_elems_with_table(elems: Seq<Val>, i: int)
    requires
        0 <= i < elems.len(),
        !table_free(elems[i]),
    ensures
        !elems_table_free(elems),
    decreases elems.len(),
{
    if i > 0 {
        lemma_elems_with_table(elems.drop_first(), i - 1);
    }
}

} // verus!
