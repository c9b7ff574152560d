//! Checking the plugin's own declaration arguments.
use vstd::prelude::*;
use crate::value::str_eq;

verus! {

/// One argument of the plugin's declaration, as the host hands it over.
#[derive(Debug, PartialEq)]
pub enum PluginArg {
    /// `name = "value"` with a string literal value.
    NamedStr { name: String, value: String },
    /// `name = <literal>` with a non-string literal value.
    NamedOther { name: String },
    /// Any other meta-item shape.
    Other,
}

/// The mathematical model of a `PluginArg`.
pub enum ArgShape {
    NamedStr(Seq<char>, Seq<char>),
    NamedOther(Seq<char>),
    Other,
}

impl PluginArg {
    /// The model of this argument.
    pub open spec fn model(self) -> ArgShape {
        match self {
            PluginArg::NamedStr { name, value } => ArgShape::NamedStr(name@, value@),
            PluginArg::NamedOther { name } => ArgShape::NamedOther(name@),
            PluginArg::Other => ArgShape::Other,
        }
    }
}

/// The models of an argument sequence.
pub open spec fn arg_models(args: Seq<PluginArg>) -> Seq<ArgShape> {
    Seq::new(args.len(), |i: int| args[i].model())
}

/// Why the plugin declaration was rejected; each is fatal for registration.
#[derive(Debug, PartialEq)]
pub enum PluginError {
    /// Not exactly one argument.
    NoArgument,
    /// The one argument is not named `file`.
    NotFile,
    /// The `file` argument's value is not a string.
    NotString,
    /// The argument is not a `name = value` pair.
    BadSyntax,
}

impl PluginError {
    /// The specific complaint behind this rejection.
    pub open spec fn detail_spec(self) -> Seq<char> {
        match self {
            PluginError::NoArgument => "There is no argument"@,
            PluginError::NotFile => "Missing `file` argument"@,
            PluginError::NotString => "`file` argument is not a string"@,
            PluginError::BadSyntax => "Bad plugin call syntax"@,
        }
    }

    /// The specific complaint, as the registrar reports it.
    pub fn detail(&self) -> (r: &str)
        ensures
            r@ == self.detail_spec(),
    {
        match self {
            PluginError::NoArgument => "There is no argument",
            PluginError::NotFile => "Missing `file` argument",
            PluginError::NotString => "`file` argument is not a string",
            PluginError::BadSyntax => "Bad plugin call syntax",
        }
    }
}

/// The fatal report for a malformed plugin declaration: the usage line,
/// then the specific complaint.
pub fn plugin_error_message(err: &PluginError) -> (r: String)
    ensures
        r@ == "Confy plugin declaration must look like: `#![plugin(confy(file=\"file.toml\"))]`; "@
            + err.detail_spec(),
{
    let mut m = String::from_str(
        "Confy plugin declaration must look like: `#![plugin(confy(file=\"file.toml\"))]`; ",
    );
    m.append(err.detail());
    m
}

/// The configuration file path named by the declaration, or why there is
/// none: the declaration must carry exactly `file = "<path>"`.
pub open spec fn check_spec(args: Seq<ArgShape>) -> Result<Seq<char>, PluginError> {
    if args.len() != 1 {
        Err(PluginError::NoArgument)
    } else {
        match args[0] {
            ArgShape::NamedStr(name, value) => if name == "file"@ {
                Ok(value)
            } else {
                Err(PluginError::NotFile)
            },
            ArgShape::NamedOther(name) => if name == "file"@ {
                Err(PluginError::NotString)
            } else {
                Err(PluginError::NotFile)
            },
            ArgShape::Other => Err(PluginError::BadSyntax),
        }
    }
}

/// Checks the arguments of the plugin declaration and extracts the
/// configuration file path.
pub fn check_arguments(args: &Vec<PluginArg>) -> (r: Result<String, PluginError>)
    ensures
        match r {
            Ok(s) => check_spec(arg_models(args@)) == Ok::<Seq<char>, PluginError>(s@),
            Err(e) => check_spec(arg_models(args@)) == Err::<Seq<char>, PluginError>(e),
        },
{
    if args.len() != 1 {
        return Err(PluginError::NoArgument);
    }
    proof {
        assert(arg_models(args@)[0] == args@[0].model());
    }
    match &args[0] {
        PluginArg::NamedStr { name, value } => {
            if str_eq(name.as_str(), "file") {
                Ok(value.clone())
            } else {
                Err(PluginError::NotFile)
            }
        },
        PluginArg::NamedOther { name } => {
            if str_eq(name.as_str(), "file") {
                Err(PluginError::NotString)
            } else {
                Err(PluginError::NotFile)
            }
        },
        PluginArg::Other => Err(PluginError::BadSyntax),
    }
}

} // verus!
