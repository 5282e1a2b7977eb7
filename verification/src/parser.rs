//! The command parser: one line of free-form text is split on whitespace,
//! the first token names a command of the registry, and the remaining tokens
//! are matched positionally against the command's argument specification and
//! converted according to each argument's type. Extra tokens beyond the
//! specification are ignored by design; a missing required argument, an
//! unknown command, an empty line and a malformed typed argument each fail
//! with their own error.

use vstd::prelude::*;
use vstd::seq_lib::*;
use vstd::string::{StrSliceExecFns, StringExecFns};

use crate::commands::{ArgSpec, ArgSpecV, ArgType, CommandEntryV, Commands, required_count,
    spec_catalog, spec_lookup};
use crate::text::{append_decimal, spec_decimal, str_equal};

verus! {

/// The whitespace characters on which an input line is split into tokens.
pub open spec fn is_wspace(c: char) -> bool {
    c == ' ' || c == '\t' || c == '\r' || c == '\n'
}

/// The position right after the token that starts at `i`: the first position
/// at or after `i` that holds whitespace or ends the line.
pub open spec fn token_end(s: Seq<char>, i: int) -> int
    decreases s.len() - i,
{
    if i < 0 || i >= s.len() {
        i
    } else if is_wspace(s[i]) {
        i
    } else {
        token_end(s, i + 1)
    }
}

pub proof fn lemma_token_end(s: Seq<char>, i: int)
    requires
        0 <= i <= s.len(),
    ensures
        i <= token_end(s, i) <= s.len(),
        forall|k: int| i <= k < token_end(s, i) ==> !is_wspace(s[k]),
        token_end(s, i) < s.len() ==> is_wspace(s[token_end(s, i)]),
        i < s.len() && !is_wspace(s[i]) ==> token_end(s, i) > i,
    decreases s.len() - i,
{
    if i < s.len() && !is_wspace(s[i]) {
        lemma_token_end(s, i + 1);
    }
}

pub proof fn lemma_token_end_is(s: Seq<char>, i: int, j: int)
    requires
        0 <= i <= j <= s.len(),
        forall|k: int| i <= k < j ==> !is_wspace(s[k]),
        j == s.len() || is_wspace(s[j]),
    ensures
        token_end(s, i) == j,
    decreases j - i,
{
    if i < j {
        lemma_token_end_is(s, i + 1, j);
    }
}

/// The tokens of `s` from position `i` on: maximal runs of non-whitespace
/// characters, in order.
pub open spec fn spec_tokenize_from(s: Seq<char>, i: int) -> Seq<Seq<char>>
    decreases s.len() - i,
        when 0 <= i <= s.len()
        via spec_tokenize_from_dec
{
    if i >= s.len() {
        Seq::empty()
    } else if is_wspace(s[i]) {
        spec_tokenize_from(s, i + 1)
    } else {
        seq![s.subrange(i, token_end(s, i))] + spec_tokenize_from(s, token_end(s, i))
    }
}

#[via_fn]
proof fn spec_tokenize_from_dec(s: Seq<char>, i: int) {
    if 0 <= i < s.len() && !is_wspace(s[i]) {
        lemma_token_end(s, i);
    }
}

/// The whitespace-separated tokens of a line, in order.
pub open spec fn spec_tokenize(s: Seq<char>) -> Seq<Seq<char>> {
    spec_tokenize_from(s, 0)
}

fn is_space_char(c: char) -> (r: bool)
    ensures
        r == is_wspace(c),
{
    c == ' ' || c == '\t' || c == '\r' || c == '\n'
}

/// Splits a line into its whitespace-separated tokens.
pub fn tokenize(line: &str) -> (r: Vec<String>)
    ensures
        r@.map_values(|t: String| t@) == spec_tokenize(line@),
{
    let n = line.unicode_len();
    let mut out: Vec<String> = Vec::new();
    let mut i: usize = 0;
    assert(out@.map_values(|t: String| t@).len() == out@.len());
    assert(spec_tokenize(line@) =~~= out@.map_values(|t: String| t@) + spec_tokenize_from(
        line@,
        0,
    ));
    while i < n
        invariant
            n == line@.len(),
            i <= n,
            spec_tokenize(line@) == out@.map_values(|t: String| t@) + spec_tokenize_from(
                line@,
                i as int,
            ),
        decreases n - i,
    {
        if is_space_char(line.get_char(i)) {
            assert(spec_tokenize_from(line@, i as int) == spec_tokenize_from(line@, i + 1int));
            i += 1;
        } else {
            let start = i;
            let mut j: usize = i + 1;
            while j < n && !is_space_char(line.get_char(j))
                invariant
                    n == line@.len(),
                    start < j <= n,
                    forall|k: int| start <= k < j ==> !is_wspace(line@[k]),
                decreases n - j,
            {
                j += 1;
            }
            proof {
                lemma_token_end_is(line@, start as int, j as int);
            }
            let tok = line.substring_char(start, j).to_owned();
            let ghost tokv = tok@;
            let ghost prev = out@;
            proof {
                assert(prev.map_values(|t: String| t@).len() == prev.len());
                prev.lemma_push_map_commute(|t: String| t@, tok);
            }
            out.push(tok);
            proof {
                assert(spec_tokenize_from(line@, start as int) == seq![
                    line@.subrange(start as int, j as int),
                ] + spec_tokenize_from(line@, j as int));
                assert(out@.map_values(|t: String| t@) == prev.map_values(|t: String| t@).push(
                    tokv,
                ));
                assert(prev.map_values(|t: String| t@) + (seq![tokv] + spec_tokenize_from(
                    line@,
                    j as int,
                )) =~~= out@.map_values(|t: String| t@) + spec_tokenize_from(line@, j as int));
            }
            i = j;
        }
    }
    assert(spec_tokenize_from(line@, n as int) =~~= Seq::<Seq<char>>::empty());
    assert(out@.map_values(|t: String| t@) + Seq::<Seq<char>>::empty() =~~= out@.map_values(
        |t: String| t@,
    ));
    out
}

/// Why a line was rejected: an empty line, a command name that is not
/// registered, fewer tokens than the command's required arguments (the count
/// reported is how many the command requires in all), or a token that does
/// not convert to its argument's type.
#[derive(Debug)]
pub enum CommandParseError {
    Empty,
    UnknownCommand(String),
    MissingArguments(usize),
    InvalidArgument(String),
}

/// The mathematical value of a [`CommandParseError`].
#[verifier::ext_equal]
pub enum ParseErrV {
    Empty,
    UnknownCommand(Seq<char>),
    MissingArguments(int),
    InvalidArgument(Seq<char>),
}

impl View for CommandParseError {
    type V = ParseErrV;

    open spec fn view(&self) -> ParseErrV {
        match self {
            CommandParseError::Empty => ParseErrV::Empty,
            CommandParseError::UnknownCommand(c) => ParseErrV::UnknownCommand(c@),
            CommandParseError::MissingArguments(n) => ParseErrV::MissingArguments(*n as int),
            CommandParseError::InvalidArgument(t) => ParseErrV::InvalidArgument(t@),
        }
    }
}

/// A typed argument value as it will stand in the structured request: a
/// string taken verbatim, a numeric literal kept in its textual form, or a
/// boolean coerced from its token.
#[derive(Debug, Clone)]
pub enum ArgValue {
    Str(String),
    Num(String),
    Bool(bool),
}

/// The mathematical value of an [`ArgValue`].
#[verifier::ext_equal]
pub enum ArgValueV {
    Str(Seq<char>),
    Num(Seq<char>),
    Bool(bool),
}

impl View for ArgValue {
    type V = ArgValueV;

    open spec fn view(&self) -> ArgValueV {
        match self {
            ArgValue::Str(s) => ArgValueV::Str(s@),
            ArgValue::Num(s) => ArgValueV::Num(s@),
            ArgValue::Bool(b) => ArgValueV::Bool(*b),
        }
    }
}

/// One named argument of a request, in the mathematical model.
#[verifier::ext_equal]
pub struct ArgBindingV {
    pub name: Seq<char>,
    pub value: ArgValueV,
}

/// A validated, structured request: the command name and the supplied
/// arguments in specification order. Arguments that were not supplied are
/// absent, which is distinct from any false or zero value.
#[derive(Debug)]
pub struct ParsedRequest {
    pub command: String,
    pub arguments: Vec<(String, ArgValue)>,
}

/// The mathematical value of a [`ParsedRequest`].
#[verifier::ext_equal]
pub struct ParsedRequestV {
    pub command: Seq<char>,
    pub arguments: Seq<ArgBindingV>,
}

impl View for ParsedRequest {
    type V = ParsedRequestV;

    open spec fn view(&self) -> ParsedRequestV {
        ParsedRequestV {
            command: self.command@,
            arguments: self.arguments@.map_values(
                |p: (String, ArgValue)| ArgBindingV { name: p.0@, value: p.1@ },
            ),
        }
    }
}

/// Whether a token is a JSON numeric literal. The judgement is made by the
/// numeric parser of the wire-format library and depends on the characters
/// alone; it is named here rather than restated.
pub uninterp spec fn is_json_number(s: Seq<char>) -> bool;

/// Relies on serde_json::Number's `FromStr`: whether a token parses as a
/// JSON numeric literal (integer or decimal) is a function of the characters
/// alone, and the parse does not panic.
#[verifier::external_body]
fn json_number_check(s: &str) -> (r: bool)
    ensures
        r == is_json_number(s@),
{
    <serde_json::Number as core::str::FromStr>::from_str(s).is_ok()
}

/// The conversion of one token according to an argument type: strings are
/// taken verbatim, booleans accept exactly `true`, `1`, `false` and `0`, and
/// numbers must be JSON numeric literals. `None` means the token is rejected.
pub open spec fn spec_convert(tok: Seq<char>, t: ArgType) -> Option<ArgValueV> {
    match t {
        ArgType::String => Some(ArgValueV::Str(tok)),
        ArgType::Boolean => if tok == "true"@ || tok == "1"@ {
            Some(ArgValueV::Bool(true))
        } else if tok == "false"@ || tok == "0"@ {
            Some(ArgValueV::Bool(false))
        } else {
            None
        },
        ArgType::Number => if is_json_number(tok) {
            Some(ArgValueV::Num(tok))
        } else {
            None
        },
    }
}

fn convert_arg(tok: &str, t: ArgType) -> (r: Option<ArgValue>)
    ensures
        match r {
            Some(v) => spec_convert(tok@, t) == Some(v@),
            None => spec_convert(tok@, t) is None,
        },
{
    match t {
        ArgType::String => Some(ArgValue::Str(tok.to_owned())),
        ArgType::Boolean => {
            if str_equal(tok, "true") || str_equal(tok, "1") {
                Some(ArgValue::Bool(true))
            } else if str_equal(tok, "false") || str_equal(tok, "0") {
                Some(ArgValue::Bool(false))
            } else {
                None
            }
        },
        ArgType::Number => {
            if json_number_check(tok) {
                Some(ArgValue::Num(tok.to_owned()))
            } else {
                None
            }
        },
    }
}

/// The argument bindings collected from the argument specifications at
/// positions `i` and up, against the argument tokens `toks`. `req` is the
/// command's total count of required arguments, reported when one is
/// missing.
pub open spec fn spec_collect_from(
    aspecs: Seq<ArgSpecV>,
    toks: Seq<Seq<char>>,
    req: int,
    i: int,
) -> Result<Seq<ArgBindingV>, ParseErrV>
    decreases aspecs.len() - i,
{
    if i < 0 || i >= aspecs.len() {
        Ok(Seq::empty())
    } else if i < toks.len() {
        match spec_convert(toks[i], aspecs[i].arg_type) {
            Option::None => Err(ParseErrV::InvalidArgument(toks[i])),
            Option::Some(v) => match spec_collect_from(aspecs, toks, req, i + 1) {
                Result::Ok(rest) => Ok(
                    seq![ArgBindingV { name: aspecs[i].name, value: v }] + rest,
                ),
                Result::Err(e) => Err(e),
            },
        }
    } else if aspecs[i].required {
        Err(ParseErrV::MissingArguments(req))
    } else {
        spec_collect_from(aspecs, toks, req, i + 1)
    }
}

/// `r` with `acc` prepended to its collected bindings, when it succeeded.
pub open spec fn with_args_prefix(
    acc: Seq<ArgBindingV>,
    r: Result<Seq<ArgBindingV>, ParseErrV>,
) -> Result<Seq<ArgBindingV>, ParseErrV> {
    match r {
        Result::Ok(rest) => Ok(acc + rest),
        Result::Err(e) => Err(e),
    }
}

/// What parsing one line against a registry yields: the structured request,
/// or the first error in the order the specification prescribes. An empty
/// line fails first, then an unregistered command name, then the positional
/// argument checks.
pub open spec fn spec_parse(
    entries: Seq<CommandEntryV>,
    line: Seq<char>,
) -> Result<ParsedRequestV, ParseErrV> {
    let toks = spec_tokenize(line);
    if toks.len() == 0 {
        Err(ParseErrV::Empty)
    } else {
        match spec_lookup(entries, toks[0]) {
            Option::None => Err(ParseErrV::UnknownCommand(toks[0])),
            Option::Some(aspecs) => match spec_collect_from(
                aspecs,
                toks.drop_first(),
                required_count(aspecs),
                0,
            ) {
                Result::Ok(args) => Ok(ParsedRequestV { command: toks[0], arguments: args }),
                Result::Err(e) => Err(e),
            },
        }
    }
}

fn required_count_of(args: &Vec<ArgSpec>) -> (r: usize)
    ensures
        r as int == required_count(args@.map_values(|a: ArgSpec| a@)),
        r <= args@.len(),
{
    let ghost argsv = args@.map_values(|a: ArgSpec| a@);
    let n = args.len();
    let mut count: usize = 0;
    let mut i: usize = 0;
    assert(argsv.len() == args@.len());
    assert(argsv.take(0) =~~= Seq::<ArgSpecV>::empty());
    while i < n
        invariant
            n == args@.len(),
            argsv == args@.map_values(|a: ArgSpec| a@),
            argsv.len() == n,
            i <= n,
            count <= i,
            count as int == required_count(argsv.take(i as int)),
        decreases n - i,
    {
        proof {
            assert(argsv.take(i + 1int).drop_last() =~~= argsv.take(i as int));
            assert(argsv.take(i + 1int).last() == argsv[i as int]);
            assert(argsv[i as int] == args@[i as int]@);
        }
        if args[i].required {
            count += 1;
        }
        i += 1;
    }
    assert(argsv.take(n as int) =~~= argsv);
    count
}

/// The command parser: the registry together with the parsing rules.
pub struct CommandParser {
    pub commands: Commands,
}

impl CommandParser {
    /// Builds a parser over the fixed command catalog.
    pub fn new() -> (r: Self)
        ensures
            r.commands@ == spec_catalog(),
    {
        Self { commands: Commands::new() }
    }

    /// Parses one line of input against the registry, as [`spec_parse`]
    /// prescribes: the structured request on success, and the first
    /// applicable error otherwise. A command name that is not registered
    /// never yields a request.
    pub fn parse(&self, input: &str) -> (r: Result<ParsedRequest, CommandParseError>)
        ensures
            match r {
                Ok(req) => spec_parse(self.commands@, input@) == Ok::<
                    ParsedRequestV,
                    ParseErrV,
                >(req@),
                Err(e) => spec_parse(self.commands@, input@) == Err::<
                    ParsedRequestV,
                    ParseErrV,
                >(e@),
            },
    {
        let toks = tokenize(input);
        let ghost toksv = toks@.map_values(|t: String| t@);
        assert(toksv == spec_tokenize(input@));
        assert(toksv.len() == toks@.len());
        if toks.len() == 0 {
            return Err(CommandParseError::Empty);
        }
        assert(toksv[0] == toks@[0]@);
        let found = self.commands.lookup(toks[0].as_str());
        match found {
            None => {
                let c = toks[0].clone();
                return Err(CommandParseError::UnknownCommand(c));
            },
            Some(aspecs) => {
                let ghost aspecsv = aspecs@.map_values(|a: ArgSpec| a@);
                assert(aspecsv.len() == aspecs@.len());
                let req = required_count_of(aspecs);
                let ghost argtoks = toksv.drop_first();
                let n = aspecs.len();
                let mut args: Vec<(String, ArgValue)> = Vec::new();
                let ghost pairview = |p: (String, ArgValue)| ArgBindingV {
                    name: p.0@,
                    value: p.1@,
                };
                assert(argtoks.len() == toksv.len() - 1);
                assert(args@.map_values(pairview).len() == args@.len());
                assert(args@.map_values(pairview) + Seq::<ArgBindingV>::empty()
                    =~~= Seq::<ArgBindingV>::empty());
                let mut i: usize = 0;
                while i < n
                    invariant
                        n == aspecs@.len(),
                        i <= n,
                        aspecsv == aspecs@.map_values(|a: ArgSpec| a@),
                        aspecsv.len() == n,
                        toksv == toks@.map_values(|t: String| t@),
                        toksv == spec_tokenize(input@),
                        toksv.len() == toks@.len(),
                        toksv.len() >= 1,
                        spec_lookup(self.commands@, toksv[0]) == Some(aspecsv),
                        argtoks == toksv.drop_first(),
                        req as int == required_count(aspecsv),
                        pairview == (|p: (String, ArgValue)| ArgBindingV {
                            name: p.0@,
                            value: p.1@,
                        }),
                        argtoks.len() == toksv.len() - 1,
                        spec_collect_from(aspecsv, argtoks, req as int, 0) == with_args_prefix(
                            args@.map_values(pairview),
                            spec_collect_from(aspecsv, argtoks, req as int, i as int),
                        ),
                    decreases n - i,
                {
                    let ghost accv = args@.map_values(pairview);
                    proof {
                        assert(accv.len() == args@.len());
                        assert(aspecsv[i as int] == aspecs@[i as int]@);
                    }
                    if i + 1 < toks.len() {
                        proof {
                            assert(argtoks[i as int] == toksv[i + 1int]);
                            assert(toksv[i + 1int] == toks@[i + 1int]@);
                        }
                        match convert_arg(toks[i + 1].as_str(), aspecs[i].arg_type) {
                            None => {
                                assert(spec_collect_from(aspecsv, argtoks, req as int, i as int)
                                    == Err::<Seq<ArgBindingV>, ParseErrV>(
                                    ParseErrV::InvalidArgument(argtoks[i as int]),
                                ));
                                assert(with_args_prefix(
                                    args@.map_values(pairview),
                                    spec_collect_from(aspecsv, argtoks, req as int, i as int),
                                ) == Err::<Seq<ArgBindingV>, ParseErrV>(
                                    ParseErrV::InvalidArgument(argtoks[i as int]),
                                ));
                                assert(spec_collect_from(aspecsv, argtoks, req as int, 0)
                                    == Err::<Seq<ArgBindingV>, ParseErrV>(
                                    ParseErrV::InvalidArgument(argtoks[i as int]),
                                ));
                                assert(spec_parse(self.commands@, input@) == Err::<
                                    ParsedRequestV,
                                    ParseErrV,
                                >(ParseErrV::InvalidArgument(argtoks[i as int])));
                                let t = toks[i + 1].clone();
                                return Err(CommandParseError::InvalidArgument(t));
                            },
                            Some(v) => {
                                let nm = aspecs[i].name.clone();
                                let ghost bound = ArgBindingV { name: nm@, value: v@ };
                                let ghost prev = args@;
                                proof {
                                    prev.lemma_push_map_commute(pairview, (nm, v));
                                }
                                let pair = (nm, v);
                                assert(pairview(pair) == bound);
                                args.push(pair);
                                proof {
                                    assert(args@.map_values(pairview) == accv.push(bound));
                                    let rest = spec_collect_from(
                                        aspecsv,
                                        argtoks,
                                        req as int,
                                        i + 1int,
                                    );
                                    if rest is Ok {
                                        assert(accv + (seq![bound] + rest->Ok_0) =~~= accv.push(
                                            bound,
                                        ) + rest->Ok_0);
                                    }
                                }
                            },
                        }
                    } else {
                        if aspecs[i].required {
                            assert(spec_collect_from(aspecsv, argtoks, req as int, i as int)
                                == Err::<Seq<ArgBindingV>, ParseErrV>(
                                ParseErrV::MissingArguments(req as int),
                            ));
                            assert(spec_parse(self.commands@, input@) == Err::<
                                ParsedRequestV,
                                ParseErrV,
                            >(ParseErrV::MissingArguments(req as int)));
                            return Err(CommandParseError::MissingArguments(req));
                        }
                        assert(spec_collect_from(aspecsv, argtoks, req as int, i as int)
                            == spec_collect_from(aspecsv, argtoks, req as int, i + 1int));
                    }
                    i += 1;
                }
                assert(spec_collect_from(aspecsv, argtoks, req as int, n as int) == Ok::<
                    Seq<ArgBindingV>,
                    ParseErrV,
                >(Seq::empty()));
                assert(args@.map_values(pairview) + Seq::<ArgBindingV>::empty() =~~= args@
                    .map_values(pairview));
                let command = toks[0].clone();
                let r = ParsedRequest { command, arguments: args };
                assert(r@ =~~= (ParsedRequestV {
                    command: toksv[0],
                    arguments: spec_collect_from(aspecsv, argtoks, req as int, 0)->Ok_0,
                }));
                return Ok(r);
            },
        }
    }
}

/// Law: a line whose first token is not a registered command name always
/// fails with `UnknownCommand`, so no request is ever produced for it and
/// nothing is handed on towards the connection.
pub proof fn lemma_unknown_command_rejected(entries: Seq<CommandEntryV>, line: Seq<char>)
    requires
        spec_tokenize(line).len() > 0,
        spec_lookup(entries, spec_tokenize(line)[0]) is None,
    ensures
        spec_parse(entries, line) == Err::<ParsedRequestV, ParseErrV>(
            ParseErrV::UnknownCommand(spec_tokenize(line)[0]),
        ),
{
}

/// The report text of each parse error.
pub open spec fn spec_parse_error_message(e: ParseErrV) -> Seq<char> {
    match e {
        ParseErrV::Empty => "No command provided"@,
        ParseErrV::UnknownCommand(c) => "Unknown command "@ + c,
        ParseErrV::MissingArguments(n) => "Missing arguments: expected at least "@ + spec_decimal(
            n,
        ),
        ParseErrV::InvalidArgument(t) => "Bad argument: "@ + t,
    }
}

/// Law: tokens beyond the argument specification's length are silently
/// ignored. Collecting against any surplus of tokens yields exactly what
/// collecting against the first `aspecs.len()` of them yields, so a line
/// with trailing extra tokens parses to the same request.
pub proof fn lemma_surplus_tokens_ignored(
    aspecs: Seq<ArgSpecV>,
    toks: Seq<Seq<char>>,
    req: int,
    k: int,
)
    requires
        0 <= k,
        aspecs.len() <= toks.len(),
    ensures
        spec_collect_from(aspecs, toks, req, k) == spec_collect_from(
            aspecs,
            toks.take(aspecs.len() as int),
            req,
            k,
        ),
    decreases aspecs.len() - k,
{
    let cut = toks.take(aspecs.len() as int);
    assert(cut.len() == aspecs.len());
    if k >= aspecs.len() {
    } else {
        assert(cut[k] == toks[k]);
        lemma_surplus_tokens_ignored(aspecs, toks, req, k + 1);
    }
}

pub proof fn lemma_collect_binds_required(
    aspecs: Seq<ArgSpecV>,
    toks: Seq<Seq<char>>,
    req: int,
    k: int,
)
    requires
        0 <= k,
        spec_collect_from(aspecs, toks, req, k) is Ok,
    ensures
        forall|i: int|
            k <= i < aspecs.len() && aspecs[i].required ==> exists|b: int|
                0 <= b < spec_collect_from(aspecs, toks, req, k)->Ok_0.len()
                    && spec_collect_from(aspecs, toks, req, k)->Ok_0[b].name == aspecs[i].name,
    decreases aspecs.len() - k,
{
    if k >= aspecs.len() {
    } else if k < toks.len() {
        lemma_collect_binds_required(aspecs, toks, req, k + 1);
        let v = spec_convert(toks[k], aspecs[k].arg_type)->0;
        let rest = spec_collect_from(aspecs, toks, req, k + 1)->Ok_0;
        let whole = spec_collect_from(aspecs, toks, req, k)->Ok_0;
        assert(whole == seq![ArgBindingV { name: aspecs[k].name, value: v }] + rest);
        assert forall|i: int|
            k <= i < aspecs.len() && aspecs[i].required implies exists|b: int|
                0 <= b < whole.len() && whole[b].name == aspecs[i].name by {
            if i == k {
                assert(whole[0].name == aspecs[k].name);
            } else {
                let b0 = choose|b0: int|
                    0 <= b0 < rest.len() && rest[b0].name == aspecs[i].name;
                assert(whole[b0 + 1].name == aspecs[i].name);
            }
        }
    } else {
        lemma_collect_binds_required(aspecs, toks, req, k + 1);
        assert(!aspecs[k].required);
        assert forall|i: int|
            k <= i < aspecs.len() && aspecs[i].required implies exists|b: int|
                0 <= b < spec_collect_from(aspecs, toks, req, k)->Ok_0.len()
                    && spec_collect_from(aspecs, toks, req, k)->Ok_0[b].name
                    == aspecs[i].name by {
            assert(i > k);
            assert(spec_collect_from(aspecs, toks, req, k) == spec_collect_from(
                aspecs,
                toks,
                req,
                k + 1,
            ));
        }
    }
}

/// Law: a line parses successfully only if every required argument of its
/// command received a value; each such argument is bound by name in the
/// request that comes out.
pub proof fn lemma_parse_binds_required(entries: Seq<CommandEntryV>, line: Seq<char>)
    requires
        spec_parse(entries, line) is Ok,
    ensures
        ({
            let toks = spec_tokenize(line);
            let aspecs = spec_lookup(entries, toks[0])->Some_0;
            let req = spec_parse(entries, line)->Ok_0;
            forall|i: int|
                0 <= i < aspecs.len() && aspecs[i].required ==> exists|b: int|
                    0 <= b < req.arguments.len() && req.arguments[b].name == aspecs[i].name
        }),
{
    let toks = spec_tokenize(line);
    assert(toks.len() > 0);
    assert(spec_lookup(entries, toks[0]) is Some);
    let aspecs = spec_lookup(entries, toks[0])->Some_0;
    let col = spec_collect_from(aspecs, toks.drop_first(), required_count(aspecs), 0);
    assert(col is Ok);
    assert(spec_parse(entries, line)->Ok_0.arguments == col->Ok_0);
    lemma_collect_binds_required(aspecs, toks.drop_first(), required_count(aspecs), 0);
}

impl CommandParseError {
    /// A human-readable report of the error.
    pub fn message(&self) -> (r: String)
        ensures
            r@ == spec_parse_error_message(self@),
    {
        match self {
            CommandParseError::Empty => "No command provided".to_owned(),
            CommandParseError::UnknownCommand(c) => {
                let mut s = "Unknown command ".to_owned();
                s.append(c.as_str());
                s
            },
            CommandParseError::MissingArguments(n) => {
                let mut s = "Missing arguments: expected at least ".to_owned();
                append_decimal(&mut s, *n as u64);
                s
            },
            CommandParseError::InvalidArgument(t) => {
                let mut s = "Bad argument: ".to_owned();
                s.append(t.as_str());
                s
            },
        }
    }
}

} // verus!
