//! The configuration of a generation, and how it is put together from the
//! arguments of an invocation.

use crate::error::{Error, Failure};
use crate::name::CaseMode;
use vstd::prelude::*;

verus! {

/// A configuration, with its texts as character sequences.
pub struct Settings {
    pub enum_name: Seq<char>,
    pub source_text: Seq<char>,
    pub remove_prefix: Seq<char>,
    pub remove_suffix: Seq<char>,
    pub case_mode: CaseMode,
}

/// What a generation works from: the name of the enumeration, the text to
/// scan for `#define` lines, and how names are normalized.
#[derive(Debug)]
pub struct Configuration {
    pub enum_name: String,
    pub source_text: String,
    pub remove_prefix: String,
    pub remove_suffix: String,
    pub case_mode: CaseMode,
}

impl View for Configuration {
    type V = Settings;

    open spec fn view(&self) -> Settings {
        Settings {
            enum_name: self.enum_name@,
            source_text: self.source_text@,
            remove_prefix: self.remove_prefix@,
            remove_suffix: self.remove_suffix@,
            case_mode: self.case_mode,
        }
    }
}

/// What a literal holds.
#[derive(Debug)]
pub enum LiteralValue {
    /// A string literal, with the string it denotes.
    Str(String),
    /// A boolean literal.
    Bool(bool),
    /// Any other literal.
    Other,
}

/// A literal given as the value of an option: its text as written, and what it holds.
#[derive(Debug)]
pub struct Literal {
    pub text: String,
    pub value: LiteralValue,
}

/// One argument of an invocation.
#[derive(Debug)]
pub enum Argument {
    /// A bare path: the name of the enumeration.
    Name(String),
    /// A parenthesized list. It is ignored.
    List,
    /// An option, `key = value`.
    NameValue { key: String, value: Literal },
    /// An embedded macro invocation that expanded to this string: the text to scan.
    Content(String),
}

/// The string that a literal denotes.
pub open spec fn lit_to_string(literal: Literal) -> Result<Seq<char>, Failure> {
    match literal.value {
        LiteralValue::Str(s) => Ok(s@),
        _ => Err(Failure::NotAString { literal: literal.text@ }),
    }
}

/// The boolean that a literal denotes.
pub open spec fn lit_to_bool(literal: Literal) -> Result<bool, Failure> {
    match literal.value {
        LiteralValue::Bool(b) => Ok(b),
        _ => Err(Failure::NotABool { literal: literal.text@ }),
    }
}

/// The enumeration name that the arguments give: the last bare path.
pub open spec fn enum_name_of(arguments: Seq<Argument>) -> Option<Seq<char>>
    decreases arguments.len(),
{
    if arguments.len() == 0 {
        None
    } else {
        match arguments.last() {
            Argument::Name(name) => Some(name@),
            _ => enum_name_of(arguments.drop_last()),
        }
    }
}

/// The literal that the arguments give for `key`: that of the last option
/// with this key. An embedded macro counts as a string given for `content`.
pub open spec fn option_of(arguments: Seq<Argument>, key: Seq<char>) -> Option<Literal>
    decreases arguments.len(),
{
    if arguments.len() == 0 {
        None
    } else {
        match arguments.last() {
            Argument::NameValue { key: k, value } => if k@ == key {
                Some(value)
            } else {
                option_of(arguments.drop_last(), key)
            },
            Argument::Content(text) => if key == "content"@ {
                Some(Literal { text, value: LiteralValue::Str(text) })
            } else {
                option_of(arguments.drop_last(), key)
            },
            _ => option_of(arguments.drop_last(), key),
        }
    }
}

/// The string given for `key`, if the key is given.
pub open spec fn string_option(arguments: Seq<Argument>, key: Seq<char>) -> Option<
    Result<Seq<char>, Failure>,
> {
    match option_of(arguments, key) {
        Some(literal) => Some(lit_to_string(literal)),
        None => None,
    }
}

/// The boolean given for `key`, if the key is given.
pub open spec fn bool_option(arguments: Seq<Argument>, key: Seq<char>) -> Option<
    Result<bool, Failure>,
> {
    match option_of(arguments, key) {
        Some(literal) => Some(lit_to_bool(literal)),
        None => None,
    }
}

/// The case mode that the two case options select; lowercase wins over uppercase.
pub open spec fn case_mode_of(to_lower: bool, to_upper: bool) -> CaseMode {
    if to_lower {
        CaseMode::Lower
    } else if to_upper {
        CaseMode::Upper
    } else {
        CaseMode::Preserve
    }
}

/// A string option that may be left out, in which case it is empty.
pub open spec fn or_empty(given: Option<Result<Seq<char>, Failure>>) -> Result<Seq<char>, Failure> {
    match given {
        Some(r) => r,
        None => Ok(Seq::<char>::empty()),
    }
}

/// A boolean option that may be left out, in which case it is false.
pub open spec fn or_false(given: Option<Result<bool, Failure>>) -> Result<bool, Failure> {
    match given {
        Some(r) => r,
        None => Ok(false),
    }
}

/// The configuration that the arguments describe. The name and `content`
/// are required; `remove_suffix` and `remove_prefix` default to the empty
/// string, `to_upper` and `to_lower` to false. Where several things are
/// wrong, the first of them in this order is reported.
pub open spec fn configuration_spec(arguments: Seq<Argument>) -> Result<Settings, Failure> {
    match enum_name_of(arguments) {
        None => Err(Failure::MissingEnumName),
        Some(enum_name) => match string_option(arguments, "content"@) {
            None => Err(Failure::MissingContent),
            Some(Err(f)) => Err(f),
            Some(Ok(source_text)) => match or_empty(string_option(arguments, "remove_suffix"@)) {
                Err(f) => Err(f),
                Ok(remove_suffix) => match or_empty(string_option(arguments, "remove_prefix"@)) {
                    Err(f) => Err(f),
                    Ok(remove_prefix) => match or_false(bool_option(arguments, "to_upper"@)) {
                        Err(f) => Err(f),
                        Ok(to_upper) => match or_false(bool_option(arguments, "to_lower"@)) {
                            Err(f) => Err(f),
                            Ok(to_lower) => Ok(
                                Settings {
                                    enum_name,
                                    source_text,
                                    remove_prefix,
                                    remove_suffix,
                                    case_mode: case_mode_of(to_lower, to_upper),
                                },
                            ),
                        },
                    },
                },
            },
        },
    }
}

/// The string that a literal denotes, or the error that it is not a string.
pub fn parse_lit_to_string(literal: &Literal) -> (r: Result<String, Error>)
    ensures
        match r {
            Ok(s) => lit_to_string(*literal) == Ok::<Seq<char>, Failure>(s@),
            Err(e) => lit_to_string(*literal) == Err::<Seq<char>, Failure>(e@),
        },
{
    match &literal.value {
        LiteralValue::Str(s) => Ok(s.clone()),
        _ => Err(Error::NotAString { literal: literal.text.clone() }),
    }
}

/// The boolean that a literal denotes, or the error that it is not a boolean.
pub fn parse_lit_to_bool(literal: &Literal) -> (r: Result<bool, Error>)
    ensures
        match r {
            Ok(b) => lit_to_bool(*literal) == Ok::<bool, Failure>(b),
            Err(e) => lit_to_bool(*literal) == Err::<bool, Failure>(e@),
        },
{
    match &literal.value {
        LiteralValue::Bool(b) => Ok(*b),
        _ => Err(Error::NotABool { literal: literal.text.clone() }),
    }
}

/// The last bare path among the arguments.
fn find_enum_name(arguments: &Vec<Argument>) -> (r: Option<String>)
    ensures
        match r {
            Some(name) => enum_name_of(arguments@) == Some(name@),
            None => enum_name_of(arguments@) is None,
        },
{
    let mut i: usize = arguments.len();
    assert(arguments@.take(i as int) =~= arguments@);
    while i > 0
        invariant
            i <= arguments.len(),
            enum_name_of(arguments@) == enum_name_of(arguments@.take(i as int)),
        decreases i,
    {
        assert(arguments@.take(i as int).drop_last() =~= arguments@.take(i - 1));
        i -= 1;
        match &arguments[i] {
            Argument::Name(name) => {
                return Some(name.clone());
            },
            _ => {},
        }
    }
    None
}

/// What the arguments give for `key`, read as a string.
fn find_string(arguments: &Vec<Argument>, key: &str) -> (r: Option<Result<String, Error>>)
    ensures
        match r {
            Some(Ok(s)) => string_option(arguments@, key@) == Some(Ok::<Seq<char>, Failure>(s@)),
            Some(Err(e)) => string_option(arguments@, key@) == Some(
                Err::<Seq<char>, Failure>(e@),
            ),
            None => string_option(arguments@, key@) is None,
        },
{
    let wanted = key.to_owned();
    let content = "content".to_owned();
    let mut i: usize = arguments.len();
    assert(arguments@.take(i as int) =~= arguments@);
    while i > 0
        invariant
            i <= arguments.len(),
            wanted@ == key@,
            content@ == "content"@,
            option_of(arguments@, key@) == option_of(arguments@.take(i as int), key@),
        decreases i,
    {
        assert(arguments@.take(i as int).drop_last() =~= arguments@.take(i - 1));
        i -= 1;
        match &arguments[i] {
            Argument::NameValue { key: k, value } => {
                if *k == wanted {
                    return Some(parse_lit_to_string(value));
                }
            },
            Argument::Content(text) => {
                if wanted == content {
                    return Some(Ok(text.clone()));
                }
            },
            _ => {},
        }
    }
    None
}

/// What the arguments give for `key`, read as a boolean.
fn find_bool(arguments: &Vec<Argument>, key: &str) -> (r: Option<Result<bool, Error>>)
    ensures
        match r {
            Some(Ok(b)) => bool_option(arguments@, key@) == Some(Ok::<bool, Failure>(b)),
            Some(Err(e)) => bool_option(arguments@, key@) == Some(Err::<bool, Failure>(e@)),
            None => bool_option(arguments@, key@) is None,
        },
{
    let wanted = key.to_owned();
    let content = "content".to_owned();
    let mut i: usize = arguments.len();
    assert(arguments@.take(i as int) =~= arguments@);
    while i > 0
        invariant
            i <= arguments.len(),
            wanted@ == key@,
            content@ == "content"@,
            option_of(arguments@, key@) == option_of(arguments@.take(i as int), key@),
        decreases i,
    {
        assert(arguments@.take(i as int).drop_last() =~= arguments@.take(i - 1));
        i -= 1;
        match &arguments[i] {
            Argument::NameValue { key: k, value } => {
                if *k == wanted {
                    return Some(parse_lit_to_bool(value));
                }
            },
            Argument::Content(text) => {
                if wanted == content {
                    return Some(
                        Err(Error::NotABool { literal: text.clone() }),
                    );
                }
            },
            _ => {},
        }
    }
    None
}

impl Configuration {
    /// Puts the configuration together from the arguments of an invocation.
    pub fn from_arguments(arguments: &Vec<Argument>) -> (r: Result<Configuration, Error>)
        ensures
            match r {
                Ok(configuration) => configuration_spec(arguments@) == Ok::<Settings, Failure>(
                    configuration@,
                ),
                Err(e) => configuration_spec(arguments@) == Err::<Settings, Failure>(e@),
            },
    {
        let enum_name = match find_enum_name(arguments) {
            Some(name) => name,
            None => {
                return Err(Error::MissingEnumName);
            },
        };
        let source_text = match find_string(arguments, "content") {
            Some(Ok(text)) => text,
            Some(Err(e)) => {
                return Err(e);
            },
            None => {
                return Err(Error::MissingContent);
            },
        };
        let remove_suffix = match find_string(arguments, "remove_suffix") {
            Some(Ok(text)) => text,
            Some(Err(e)) => {
                return Err(e);
            },
            None => String::new(),
        };
        let remove_prefix = match find_string(arguments, "remove_prefix") {
            Some(Ok(text)) => text,
            Some(Err(e)) => {
                return Err(e);
            },
            None => String::new(),
        };
        let to_upper = match find_bool(arguments, "to_upper") {
            Some(Ok(b)) => b,
            Some(Err(e)) => {
                return Err(e);
            },
            None => false,
        };
        let to_lower = match find_bool(arguments, "to_lower") {
            Some(Ok(b)) => b,
            Some(Err(e)) => {
                return Err(e);
            },
            None => false,
        };
        let case_mode = if to_lower {
            CaseMode::Lower
        } else if to_upper {
            CaseMode::Upper
        } else {
            CaseMode::Preserve
        };
        Ok(Configuration { enum_name, source_text, remove_prefix, remove_suffix, case_mode })
    }
}

} // verus!
