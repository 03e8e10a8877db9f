//! Command-line conventions shared by the server and the client.
use crate::http::codec::{bounded_decimal, parse_decimal};
use vstd::prelude::*;
use vstd::utf8::encode_utf8;

verus! {

/// Address used by the client and the server when none is given.
pub const DEFAULT_ADDRESS: &'static str = "127.0.0.1:9898";

/// The form of an address: `<host>:<port>`.
pub const ADDRESS_PATTERN: &'static str = r"^[a-zA-Z0-9\.\-]+:\d{1,5}$";

/// Errors in the command-line arguments.
#[derive(Debug, Clone)]
pub enum CLIError {
    InvalidUrlFormat,
    MissingParameter(&'static str),
    InvalidParameter,
}

impl CLIError {
    /// A human readable description of the error.
    pub fn message(&self) -> (r: String)
        ensures
            match *self {
                CLIError::InvalidUrlFormat => r@ == "Invalid target format. Should be <host>:<port>"@,
                CLIError::MissingParameter(p) => r@ == "Missing parameter '"@ + p@ + "'"@,
                CLIError::InvalidParameter => r@ == "Invalid parameter"@,
            },
    {
        match self {
            CLIError::InvalidUrlFormat => String::from_str(
                "Invalid target format. Should be <host>:<port>",
            ),
            CLIError::MissingParameter(p) => String::from_str("Missing parameter '").concat(
                p,
            ).concat("'"),
            CLIError::InvalidParameter => String::from_str("Invalid parameter"),
        }
    }
}

/// Whether `text` matches the regular expression `pattern`; `None` where the
/// pattern is not a valid expression.
pub uninterp spec fn regex_match(pattern: Seq<char>, text: Seq<char>) -> Option<bool>;

/// Relies on regex::Regex::new and Regex::is_match.
#[verifier::external_body]
fn regex_is_match(pattern: &str, text: &str) -> (r: Option<bool>)
    ensures
        r == regex_match(pattern@, text@),
{
    regex::Regex::new(pattern).ok().map(|re| re.is_match(text))
}

/// The verdict on an address, given whether it matches [`ADDRESS_PATTERN`].
pub fn address_verdict<'a>(url: &'a str, matched: Option<bool>) -> (r: Result<&'a str, CLIError>)
    ensures
        matched == Some(true) ==> r == Ok::<&'a str, CLIError>(url),
        matched != Some(true) ==> r matches Err(CLIError::InvalidUrlFormat),
{
    match matched {
        Some(true) => Ok(url),
        _ => Err(CLIError::InvalidUrlFormat),
    }
}

/// Checks that an address has the form `<host>:<port>`; returns it if so.
pub fn validate_address<'a>(url: &'a str) -> (r: Result<&'a str, CLIError>)
    ensures
        regex_match(ADDRESS_PATTERN@, url@) == Some(true) ==> r == Ok::<&'a str, CLIError>(url),
        regex_match(ADDRESS_PATTERN@, url@) != Some(true) ==> r matches Err(
            CLIError::InvalidUrlFormat,
        ),
{
    address_verdict(url, regex_is_match(ADDRESS_PATTERN, url))
}

/// What the client is asked to do.
#[derive(Debug, Clone, Copy, PartialEq, Eq, Structural)]
pub enum Action {
    Get,
    Insert,
    Delete,
}

/// The code of a character, with ASCII capitals made small.
pub open spec fn ascii_lower_char(c: char) -> u32 {
    if 65 <= c as u32 && c as u32 <= 90 {
        ((c as u32) + 32) as u32
    } else {
        c as u32
    }
}

/// The codes of a text's characters, with ASCII capitals made small.
pub open spec fn ascii_lower(s: Seq<char>) -> Seq<u32> {
    s.map_values(|c: char| ascii_lower_char(c))
}

/// The codes of a text's characters.
pub open spec fn codes(s: Seq<char>) -> Seq<u32> {
    s.map_values(|c: char| c as u32)
}

/// The action that a word names, in any case.
pub open spec fn action_of(s: Seq<char>) -> Option<Action> {
    if ascii_lower(s) == codes("get"@) {
        Some(Action::Get)
    } else if ascii_lower(s) == codes("insert"@) {
        Some(Action::Insert)
    } else if ascii_lower(s) == codes("delete"@) {
        Some(Action::Delete)
    } else {
        None
    }
}

fn lower_char(c: char) -> (r: u32)
    ensures
        r == ascii_lower_char(c),
{
    let code = c as u32;
    if 65 <= code && code <= 90 {
        code + 32
    } else {
        code
    }
}

/// Whether `s`, with its ASCII capitals made small, is `lower`.
fn lower_equals(s: &str, lower: &str) -> (r: bool)
    ensures
        r == (ascii_lower(s@) == codes(lower@)),
{
    let n = s.unicode_len();
    if n != lower.unicode_len() {
        assert(ascii_lower(s@).len() != codes(lower@).len());
        return false;
    }
    let mut i: usize = 0;
    while i < n
        invariant
            n == s@.len(),
            n == lower@.len(),
            i <= n,
            forall|j: int| 0 <= j < i ==> ascii_lower_char(#[trigger] s@[j]) == lower@[j] as u32,
        decreases n - i,
    {
        if lower_char(s.get_char(i)) != lower.get_char(i) as u32 {
            assert(ascii_lower(s@)[i as int] != codes(lower@)[i as int]);
            return false;
        }
        i = i + 1;
    }
    assert(ascii_lower(s@) =~= codes(lower@));
    true
}

/// Reads the action that a word names, in any case.
pub fn parse_action(action: String) -> (r: Result<Action, CLIError>)
    ensures
        match action_of(action@) {
            Some(a) => r == Ok::<Action, CLIError>(a),
            None => r matches Err(CLIError::InvalidParameter),
        },
{
    proof {
        reveal_strlit("get");
        reveal_strlit("insert");
        reveal_strlit("delete");
    }
    if lower_equals(action.as_str(), "get") {
        Ok(Action::Get)
    } else if lower_equals(action.as_str(), "insert") {
        Ok(Action::Insert)
    } else if lower_equals(action.as_str(), "delete") {
        Ok(Action::Delete)
    } else {
        Err(CLIError::InvalidParameter)
    }
}

/// The client's options.
#[derive(Debug)]
pub struct CLIOptions {
    pub target: String,
    pub action: Action,
    pub table: Option<u32>,
    pub orders: Vec<String>,
}

/// What the arguments ask for.
pub enum CliOutcome {
    /// A parameter is missing; its description
    Missing(Seq<char>),
    /// A parameter is not valid
    Invalid,
    /// Target, action, table and the remaining words
    Options(Seq<char>, Action, Option<u32>, Seq<Seq<char>>),
}

/// What the command-line `args` ask for, after the program's name: an
/// optional address (else [`DEFAULT_ADDRESS`]), an action, an optional table
/// number, then the remaining words.
pub open spec fn cli_outcome(args: Seq<Seq<char>>) -> CliOutcome {
    if args.len() < 2 {
        CliOutcome::Missing("target or action"@)
    } else {
        let explicit = regex_match(ADDRESS_PATTERN@, args[1]) == Some(true);
        let a: int = if explicit { 2 } else { 1 };
        let target = if explicit { args[1] } else { DEFAULT_ADDRESS@ };
        if args.len() <= a {
            CliOutcome::Missing("action"@)
        } else {
            match action_of(args[a]) {
                None => CliOutcome::Invalid,
                Some(action) => if args.len() <= a + 1 {
                    CliOutcome::Options(target, action, None, Seq::empty())
                } else {
                    match bounded_decimal(encode_utf8(args[a + 1]), u32::MAX as nat) {
                        None => CliOutcome::Invalid,
                        Some(t) => CliOutcome::Options(
                            target,
                            action,
                            Some(t as u32),
                            args.subrange(a + 2, args.len() as int),
                        ),
                    }
                },
            }
        }
    }
}

pub open spec fn texts(v: Seq<String>) -> Seq<Seq<char>> {
    v.map_values(|s: String| s@)
}

/// Reads the client's command line; `args` starts with the program's name.
pub fn parse_cli_args(args: Vec<String>) -> (r: Result<CLIOptions, CLIError>)
    ensures
        match cli_outcome(texts(args@)) {
            CliOutcome::Missing(what) => r matches Err(CLIError::MissingParameter(p)) && p@ == what,
            CliOutcome::Invalid => r matches Err(CLIError::InvalidParameter),
            CliOutcome::Options(target, action, table, orders) => r matches Ok(o) && o.target@
                == target && o.action == action && o.table == table && texts(o.orders@) == orders,
        },
{
    proof {
        reveal_strlit("target or action");
        reveal_strlit("action");
    }
    if args.len() < 2 {
        return Err(CLIError::MissingParameter("target or action"));
    }
    let (target, a) = match validate_address(args[1].as_str()) {
        Ok(t) => (String::from_str(t), 2usize),
        Err(_) => (String::from_str(DEFAULT_ADDRESS), 1usize),
    };
    if args.len() <= a {
        return Err(CLIError::MissingParameter("action"));
    }
    let action = parse_action(args[a].clone())?;
    if args.len() <= a + 1 {
        return Ok(CLIOptions { target, action, table: None, orders: Vec::new() });
    }
    let table = match parse_decimal(args[a + 1].as_str().as_bytes(), u32::MAX as u64) {
        Some(t) => t as u32,
        None => return Err(CLIError::InvalidParameter),
    };
    let mut orders: Vec<String> = Vec::new();
    let mut i: usize = a + 2;
    while i < args.len()
        invariant
            a + 2 <= i <= args@.len(),
            texts(orders@) =~= texts(args@).subrange(a + 2, i as int),
        decreases args.len() - i,
    {
        let ghost prev = orders@;
        orders.push(args[i].clone());
        assert(texts(orders@) =~= texts(prev).push(args@[i as int]@));
        i = i + 1;
    }
    Ok(CLIOptions { target, action, table: Some(table), orders })
}

} // verus!
