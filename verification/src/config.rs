//! The configuration document and the macro expansion it backs.
use vstd::prelude::*;
use crate::lower::{tok_models, lower, Tok, Token};
use crate::value::{lookup, lookup_spec, TomlValue, Val};

verus! {

/// Why a configuration document could not be produced; both abort
/// registration.
#[derive(Debug, PartialEq)]
pub enum Error {
    /// The configuration file could not be read; carries the report.
    IoError(String),
    /// The text is not well-formed TOML; carries the parser's report,
    /// with line and column positions.
    TomlError(String),
}

impl Error {
    /// The model of the carried report.
    pub open spec fn message_model(self) -> Seq<char> {
        match self {
            Error::IoError(m) => m@,
            Error::TomlError(m) => m@,
        }
    }

    /// A human-readable description of the failure.
    pub fn description(&self) -> (r: &str)
        ensures
            r@ == self.message_model(),
    {
        match self {
            Error::IoError(m) => m.as_str(),
            Error::TomlError(m) => m.as_str(),
        }
    }
}

/// Declares toml's value tree so that the conversion below can take it.
#[verifier::external_type_specification]
#[verifier::external_body]
pub struct ExTomlValue(toml::Value);

/// What the TOML parser yields on the given text: the document tree if the
/// text is well-formed, `None` otherwise.
pub uninterp spec fn parsed_document(text: Seq<char>) -> Option<Val>;

/// The parser's rendered failure reports on the given text, in order; each
/// carries its line and column.
pub uninterp spec fn parse_reports(text: Seq<char>) -> Seq<Seq<char>>;

/// The views of a sequence of reports.
pub open spec fn report_views(msgs: Seq<String>) -> Seq<Seq<char>> {
    Seq::new(msgs.len(), |i: int| msgs[i]@)
}

/// One message holding every report in order, each closed by a semicolon.
pub open spec fn join_reports(msgs: Seq<Seq<char>>) -> Seq<char>
    decreases msgs.len(),
{
    if msgs.len() == 0 {
        Seq::empty()
    } else {
        msgs[0] + "; "@ + join_reports(msgs.drop_first())
    }
}

/// Relies on the shape of `toml::Value`: each variant is carried over one
/// for one, a float and a date-time as their display text. A float's display
/// is its shortest decimal form, which re-parses to the same number, so the
/// carried text is an exact stand-in for the value.
#[verifier::external_body]
fn convert_value(v: toml::Value) -> TomlValue {
    match v {
        toml::Value::String(s) => TomlValue::Str(s),
        toml::Value::Integer(i) => TomlValue::Int(i),
        toml::Value::Boolean(b) => TomlValue::Bool(b),
        toml::Value::Float(n) => TomlValue::Float(n.to_string()),
        toml::Value::Datetime(d) => TomlValue::Datetime(d.to_string()),
        toml::Value::Array(a) => TomlValue::Array(a.into_iter().map(convert_value).collect()),
        toml::Value::Table(t) => TomlValue::Table(
            t.into_iter().map(|(k, w)| (k, convert_value(w))).collect(),
        ),
    }
}

/// Relies on toml's parser: `str::parse::<toml::Table>` decides and builds
/// the document, and on its failure `toml::de::DeTable::parse_recoverable`
/// yields every report the parser made, not only the first; one report (the
/// strict parser's own) stands in when the recovering pass reports none.
/// Both are functions of the text alone; a successful parse yields the root
/// table; each rendered report carries its line and column.
#[verifier::external_body]
fn parse_document(text: &str) -> (r: Result<TomlValue, Vec<String>>)
    ensures
        match parsed_document(text@) {
            Some(d) => r matches Ok(v) && v.model() == d && d is Table,
            None => r matches Err(msgs) && report_views(msgs@) == parse_reports(text@)
                && msgs@.len() >= 1,
        },
{
    match text.parse::<toml::Table>() {
        Ok(t) => Ok(convert_value(toml::Value::Table(t))),
        Err(e) => {
            let (_, errors) = toml::de::DeTable::parse_recoverable(text);
            let mut msgs: Vec<String> = errors.iter().map(|x| x.to_string()).collect();
            if msgs.is_empty() {
                msgs.push(e.to_string());
            }
            Err(msgs)
        },
    }
}

proof fn lemma_report_views_push(s: Seq<String>, m: String)
    ensures
        report_views(s.push(m)) =~= report_views(s).push(m@),
{
}

/// `join_reports` over a sequence extended by one report.
proof fn lemma_join_reports_push(msgs: Seq<Seq<char>>, m: Seq<char>)
    ensures
        join_reports(msgs.push(m)) == join_reports(msgs) + m + "; "@,
    decreases msgs.len(),
{
    if msgs.len() == 0 {
        assert(msgs.push(m)[0] == m);
        assert(msgs.push(m).drop_first() =~= Seq::<Seq<char>>::empty());
        assert(join_reports(Seq::<Seq<char>>::empty()) == Seq::<char>::empty());
        assert(m + "; "@ + Seq::<char>::empty() =~= Seq::<char>::empty() + m + "; "@);
    } else {
        assert(msgs.push(m)[0] == msgs[0]);
        assert(msgs.push(m).drop_first() =~= msgs.drop_first().push(m));
        lemma_join_reports_push(msgs.drop_first(), m);
        assert(msgs[0] + "; "@ + (join_reports(msgs.drop_first()) + m + "; "@) =~= (msgs[0]
            + "; "@ + join_reports(msgs.drop_first())) + m + "; "@);
    }
}

/// Why one macro invocation failed; each is reported for that call site
/// alone, so the surrounding compilation can go on.
#[derive(Debug, PartialEq)]
pub enum ExpandError {
    /// The call had no arguments, or its first was not a string literal.
    BadArgument,
    /// No value at the path and no fallback was supplied; carries the path.
    MissingKey(String),
    /// The path resolved to a table, which has no literal form.
    TableValue,
}

/// A loaded configuration document, bound to the macro for the whole
/// compilation; the file name only serves the diagnostics.
pub struct Config {
    filename: String,
    data: TomlValue,
}

/// What one expansion comes to: replacement tokens, or one of the per-call
/// errors, each reported without aborting the surrounding compilation.
pub enum Outcome {
    Toks(Seq<Tok>),
    BadArgument,
    MissingKey(Seq<char>),
    TableValue,
}

/// The expansion of a macro invocation against a document. The call takes
/// either one argument (a string literal naming a dotted path) or three
/// (the path, a separator, and a fallback token); any other arity, or a
/// first argument that is no string literal, is rejected. A resolved value
/// is lowered to its literal tokens; an absent path falls back to the third
/// argument's verbatim token, if one was supplied; a table value is an
/// error even then.
pub open spec fn expand_spec(doc: Val, args: Seq<Tok>) -> Outcome {
    if args.len() != 1 && args.len() != 3 {
        Outcome::BadArgument
    } else {
        match args[0] {
            Tok::StrLit(path) => match lookup_spec(doc, path) {
                Some(v) => match lower(v) {
                    Some(ts) => Outcome::Toks(ts),
                    None => Outcome::TableValue,
                },
                None => if args.len() == 3 {
                    Outcome::Toks(seq![args[2]])
                } else {
                    Outcome::MissingKey(path)
                },
            },
            _ => Outcome::BadArgument,
        }
    }
}

/// The outcome that an expansion's return value stands for.
pub open spec fn result_model(r: Result<Vec<Token>, ExpandError>) -> Outcome {
    match r {
        Ok(ts) => Outcome::Toks(tok_models(ts@)),
        Err(ExpandError::BadArgument) => Outcome::BadArgument,
        Err(ExpandError::MissingKey(p)) => Outcome::MissingKey(p@),
        Err(ExpandError::TableValue) => Outcome::TableValue,
    }
}

/// The dotted path named by the macro arguments: the first argument, which
/// must be a string literal.
fn get_path<'a>(args: &'a Vec<Token>) -> (r: Option<&'a String>)
    ensures
        match r {
            Some(p) => args@.len() >= 1 && args@[0] == Token::StrLit(*p),
            None => args@.len() == 0 || !(args@[0] is StrLit),
        },
{
    if args.len() == 0 {
        return None;
    }
    match &args[0] {
        Token::StrLit(s) => Some(s),
        _ => None,
    }
}

impl Config {
    /// The model of the document tree.
    pub closed spec fn doc(self) -> Val {
        self.data.model()
    }

    /// The model of the file name used for diagnostics.
    pub closed spec fn file(self) -> Seq<char> {
        self.filename@
    }

    /// The document root is a table.
    pub open spec fn wf(self) -> bool {
        self.doc() is Table
    }

    /// Builds the configuration from the text of the named file. Succeeds
    /// exactly when the text is well-formed TOML; a parse failure carries
    /// every report the parser made, never only the first, joined after a
    /// fixed prefix and each closed by a semicolon.
    pub fn new(filename: String, text: &str) -> (r: Result<Config, Error>)
        ensures
            match parsed_document(text@) {
                Some(d) => r matches Ok(c) && c.doc() == d && c.file() == filename@ && c.wf(),
                None => r matches Err(e) && e matches Error::TomlError(m) && m@
                    == "TOML parsing errors: "@ + join_reports(parse_reports(text@)),
            },
    {
        match parse_document(text) {
            Ok(data) => Ok(Config { filename, data }),
            Err(msgs) => {
                let mut report = String::from_str("TOML parsing errors: ");
                let ghost prefix: Seq<char> = report@;
                let mut i: usize = 0;
                proof {
                    assert(msgs@.take(0) =~= Seq::<String>::empty());
                    assert(report_views(Seq::<String>::empty()) =~= Seq::<Seq<char>>::empty());
                    assert(report@ =~= prefix + join_reports(Seq::<Seq<char>>::empty()));
                }
                while i < msgs.len()
                    invariant
                        i <= msgs@.len(),
                        report_views(msgs@) == parse_reports(text@),
                        prefix == "TOML parsing errors: "@,
                        report@ == prefix + join_reports(report_views(msgs@.take(i as int))),
                    decreases msgs@.len() - i,
                {
                    report.append(msgs[i].as_str());
                    report.append("; ");
                    proof {
                        assert(msgs@.take(i + 1) =~= msgs@.take(i as int).push(msgs@[i as int]));
                        lemma_report_views_push(msgs@.take(i as int), msgs@[i as int]);
                        lemma_join_reports_push(
                            report_views(msgs@.take(i as int)),
                            msgs@[i as int]@,
                        );
                        assert(report@ =~= prefix + (join_reports(
                            report_views(msgs@.take(i as int)),
                        ) + msgs@[i as int]@ + "; "@));
                    }
                    i += 1;
                }
                proof {
                    assert(msgs@.take(msgs@.len() as int) =~= msgs@);
                }
                Err(Error::TomlError(report))
            },
        }
    }

    /// The per-call diagnostic for an absent path: names the path and the
    /// configuration file it was not found in.
    pub fn missing_key_report(&self, path: &str) -> (r: String)
        ensures
            r@ == "Could not get a value at '"@ + path@ + "' in '"@ + self.file() + "'"@,
    {
        let mut m = String::from_str("Could not get a value at '");
        m.append(path);
        m.append("' in '");
        m.append(self.filename.as_str());
        m.append("'");
        m
    }

    /// The name of the file this document came from.
    pub fn filename(&self) -> (r: &str)
        ensures
            r@ == self.file(),
    {
        self.filename.as_str()
    }

    /// Expands one macro invocation: resolves the path named by `args`
    /// against the document and returns the replacement tokens, or the error
    /// to report for this call site alone.
    pub fn expand(&self, args: &Vec<Token>) -> (r: Result<Vec<Token>, ExpandError>)
        ensures
            result_model(r) == expand_spec(self.doc(), tok_models(args@)),
    {
        if args.len() != 1 && args.len() != 3 {
            return Err(ExpandError::BadArgument);
        }
        proof {
            assert(tok_models(args@)[0] == args@[0].model());
        }
        let path: &String = match get_path(args) {
            Some(p) => p,
            None => {
                return Err(ExpandError::BadArgument);
            },
        };
        match lookup(&self.data, path.as_str()) {
            Some(value) => match value.to_tokens() {
                Ok(ts) => Ok(ts),
                Err(_) => Err(ExpandError::TableValue),
            },
            None => {
                if args.len() == 3 {
                    let fallback = args[2].clone();
                    let ts = vec![fallback];
                    proof {
                        assert(tok_models(ts@) =~= seq![args@[2].model()]);
                        assert(tok_models(args@)[2] == args@[2].model());
                    }
                    Ok(ts)
                } else {
                    Err(ExpandError::MissingKey(path.clone()))
                }
            },
        }
    }
}

} // verus!
