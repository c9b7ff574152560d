use confy::config::{Config, Error, ExpandError};
use confy::lower::Token;
use confy::plugin::{check_arguments, plugin_error_message, PluginArg, PluginError};
use confy::value::{lookup, TomlValue};

const SAMPLE: &str =
    "string = \"value\"\nint = 42\nbool = false\nfloat = 78.8\narray = [3, 4, 5]\n";

fn sample_config() -> Config {
    Config::new(String::from("tests/Config.toml"), SAMPLE).unwrap()
}

fn expand_path(cfg: &Config, path: &str) -> Result<Vec<Token>, ExpandError> {
    cfg.expand(&vec![Token::StrLit(path.to_string())])
}

#[test]
fn read_toml() {
    let cfg = sample_config();
    assert_eq!(
        expand_path(&cfg, "string").unwrap(),
        vec![Token::StrLit("value".to_string())]
    );
    assert_eq!(expand_path(&cfg, "int").unwrap(), vec![Token::IntLit(42)]);
    assert_eq!(expand_path(&cfg, "bool").unwrap(), vec![Token::BoolLit(false)]);
    assert_eq!(
        expand_path(&cfg, "float").unwrap(),
        vec![Token::FloatLit("78.8".to_string())]
    );
    assert_eq!(
        expand_path(&cfg, "array").unwrap(),
        vec![
            Token::ArrayStart,
            Token::IntLit(3),
            Token::Comma,
            Token::IntLit(4),
            Token::Comma,
            Token::IntLit(5),
            Token::Comma,
            Token::ArrayEnd,
        ]
    );
}

#[test]
fn default_value() {
    let cfg = sample_config();
    let args = vec![
        Token::StrLit("no-here/at all".to_string()),
        Token::Comma,
        Token::IntLit(42),
    ];
    assert_eq!(cfg.expand(&args).unwrap(), vec![Token::IntLit(42)]);
}

#[test]
fn nested_arrays_lower_recursively() {
    let cfg = Config::new(String::from("n.toml"), "a = [[1, 2], [3]]\n").unwrap();
    assert_eq!(
        expand_path(&cfg, "a").unwrap(),
        vec![
            Token::ArrayStart,
            Token::ArrayStart,
            Token::IntLit(1),
            Token::Comma,
            Token::IntLit(2),
            Token::Comma,
            Token::ArrayEnd,
            Token::Comma,
            Token::ArrayStart,
            Token::IntLit(3),
            Token::Comma,
            Token::ArrayEnd,
            Token::Comma,
            Token::ArrayEnd,
        ]
    );
}

#[test]
fn datetime_lowers_to_its_text() {
    let cfg = Config::new(String::from("d.toml"), "when = 1979-05-27T07:32:00Z\n").unwrap();
    assert_eq!(
        expand_path(&cfg, "when").unwrap(),
        vec![Token::StrLit("1979-05-27T07:32:00Z".to_string())]
    );
}

#[test]
fn lookup_walks_nested_tables() {
    let inner = TomlValue::Table(vec![("c".to_string(), TomlValue::Int(7))]);
    let mid = TomlValue::Table(vec![("b".to_string(), inner)]);
    let doc = TomlValue::Table(vec![("a".to_string(), mid)]);
    assert_eq!(lookup(&doc, "a.b.c"), Some(&TomlValue::Int(7)));
    let at_a = lookup(&doc, "a").unwrap();
    let at_b = lookup(at_a, "b").unwrap();
    assert_eq!(lookup(at_b, "c"), Some(&TomlValue::Int(7)));
    assert_eq!(lookup(&doc, "a.b.missing"), None);
    assert_eq!(lookup(&doc, "a.b.c.deeper"), None);
}

#[test]
fn dotted_path_resolves_through_document() {
    let cfg = Config::new(String::from("t.toml"), "[a.b]\nc = 1\n").unwrap();
    assert_eq!(expand_path(&cfg, "a.b.c").unwrap(), vec![Token::IntLit(1)]);
}

#[test]
fn missing_key_without_default_is_reported() {
    let cfg = sample_config();
    assert_eq!(
        expand_path(&cfg, "absent"),
        Err(ExpandError::MissingKey("absent".to_string()))
    );
    // the document is untouched: later expansions still succeed
    assert_eq!(expand_path(&cfg, "int").unwrap(), vec![Token::IntLit(42)]);
}

#[test]
fn table_value_errors_even_with_default() {
    let cfg = Config::new(String::from("t.toml"), "[tbl]\nx = 1\n").unwrap();
    let args = vec![
        Token::StrLit("tbl".to_string()),
        Token::Comma,
        Token::IntLit(9),
    ];
    assert_eq!(cfg.expand(&args), Err(ExpandError::TableValue));
    assert_eq!(expand_path(&cfg, "tbl"), Err(ExpandError::TableValue));
}

#[test]
fn bad_arguments_are_rejected() {
    let cfg = sample_config();
    assert_eq!(cfg.expand(&vec![]), Err(ExpandError::BadArgument));
    assert_eq!(
        cfg.expand(&vec![Token::IntLit(1)]),
        Err(ExpandError::BadArgument)
    );
    // two arguments are neither a bare path nor a path with a fallback
    assert_eq!(
        cfg.expand(&vec![Token::StrLit("int".to_string()), Token::Comma]),
        Err(ExpandError::BadArgument)
    );
}

#[test]
fn malformed_toml_is_a_parse_error() {
    let err = match Config::new(String::from("bad.toml"), "a = [1,\n") {
        Ok(_) => panic!("malformed TOML was accepted"),
        Err(err) => err,
    };
    match &err {
        Error::TomlError(_) => {}
        other => panic!("unexpected error {:?}", other),
    }
    assert!(err.description().starts_with("TOML parsing errors: "));
}

#[test]
fn parse_errors_are_aggregated() {
    // two malformed lines: every report must appear, never only the first
    let err = match Config::new(String::from("bad.toml"), "a = \nb = \n") {
        Ok(_) => panic!("malformed TOML was accepted"),
        Err(err) => err,
    };
    let text = err.description().to_string();
    assert!(text.starts_with("TOML parsing errors: "));
    assert!(text.matches("TOML parse error").count() >= 2);
    assert!(text.contains("line 1"));
    assert!(text.contains("line 2"));
}

#[test]
fn missing_key_report_names_path_and_file() {
    let cfg = sample_config();
    assert_eq!(
        cfg.missing_key_report("no.where"),
        "Could not get a value at 'no.where' in 'tests/Config.toml'"
    );
}

#[test]
fn plugin_error_message_carries_usage_and_detail() {
    let msg = plugin_error_message(&PluginError::NoArgument);
    assert!(msg.starts_with(
        "Confy plugin declaration must look like: `#![plugin(confy(file=\"file.toml\"))]`"
    ));
    assert!(msg.ends_with("There is no argument"));
    assert!(plugin_error_message(&PluginError::NotString)
        .ends_with("`file` argument is not a string"));
}

#[test]
fn opaque_fallback_passes_through_verbatim() {
    let cfg = sample_config();
    let args = vec![
        Token::StrLit("absent".to_string()),
        Token::Comma,
        Token::Opaque("x + 1".to_string()),
    ];
    assert_eq!(
        cfg.expand(&args).unwrap(),
        vec![Token::Opaque("x + 1".to_string())]
    );
}

#[test]
fn error_descriptions_carry_the_message() {
    let io = Error::IoError("could not open it".to_string());
    assert_eq!(io.description(), "could not open it");
    let parse = Error::TomlError("bad line".to_string());
    assert_eq!(parse.description(), "bad line");
}

#[test]
fn plugin_arguments_are_checked() {
    let good = vec![PluginArg::NamedStr {
        name: "file".to_string(),
        value: "conf.toml".to_string(),
    }];
    assert_eq!(check_arguments(&good), Ok("conf.toml".to_string()));

    assert_eq!(check_arguments(&vec![]), Err(PluginError::NoArgument));
    let two = vec![PluginArg::Other, PluginArg::Other];
    assert_eq!(check_arguments(&two), Err(PluginError::NoArgument));

    let wrong_name = vec![PluginArg::NamedStr {
        name: "path".to_string(),
        value: "conf.toml".to_string(),
    }];
    assert_eq!(check_arguments(&wrong_name), Err(PluginError::NotFile));

    let not_string = vec![PluginArg::NamedOther {
        name: "file".to_string(),
    }];
    assert_eq!(check_arguments(&not_string), Err(PluginError::NotString));

    let bad_shape = vec![PluginArg::Other];
    assert_eq!(check_arguments(&bad_shape), Err(PluginError::BadSyntax));
}

#[test]
fn filename_is_kept_for_diagnostics() {
    let cfg = sample_config();
    assert_eq!(cfg.filename(), "tests/Config.toml");
}

#[test]
fn to_tokens_rejects_only_tables() {
    let table = TomlValue::Table(vec![]);
    assert!(table.to_tokens().is_err());
    let arr = TomlValue::Array(vec![TomlValue::Table(vec![])]);
    assert!(arr.to_tokens().is_err());
    let fine = TomlValue::Array(vec![TomlValue::Str("x".to_string())]);
    assert_eq!(
        fine.to_tokens().unwrap(),
        vec![
            Token::ArrayStart,
            Token::StrLit("x".to_string()),
            Token::Comma,
            Token::ArrayEnd,
        ]
    );
}
