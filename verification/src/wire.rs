//! The wire form of a structured request: a single self-describing message
//! holding the `command` field and, only when any arguments were supplied,
//! an `arguments` mapping. String content is escaped as the wire format
//! requires; numeric argument values keep the textual form that was
//! validated at parse time; a request without arguments omits the
//! `arguments` field altogether.

use vstd::prelude::*;
use vstd::seq_lib::*;
use vstd::string::{StrSliceExecFns, StringExecFns};

use crate::parser::{ArgBindingV, ArgValue, ParsedRequest, ParsedRequestV};
use crate::parser::ArgValueV;
use crate::text::digit_str;

verus! {

/// The lower-case hexadecimal digit for a value below sixteen.
pub open spec fn hex_lower_str(d: int) -> Seq<char> {
    if d < 10 {
        digit_str(d)
    } else if d == 10 {
        "a"@
    } else if d == 11 {
        "b"@
    } else if d == 12 {
        "c"@
    } else if d == 13 {
        "d"@
    } else if d == 14 {
        "e"@
    } else {
        "f"@
    }
}

/// How one character is written inside a wire string: quotes and backslashes
/// are escaped, control characters become a hexadecimal escape, and every
/// other character stands as itself.
pub open spec fn escape_char(c: char) -> Seq<char> {
    if c == '"' {
        "\\\""@
    } else if c == '\\' {
        "\\\\"@
    } else if (c as u32) < 32 {
        "\\u00"@ + hex_lower_str(c as u32 as int / 16) + hex_lower_str(c as u32 as int % 16)
    } else {
        seq![c]
    }
}

/// The escaped wire form of a string's characters.
pub open spec fn spec_escape(s: Seq<char>) -> Seq<char>
    decreases s.len(),
{
    if s.len() == 0 {
        Seq::empty()
    } else {
        spec_escape(s.drop_last()) + escape_char(s.last())
    }
}

fn append_hex_digit(out: &mut String, d: u32)
    requires
        d < 16,
    ensures
        final(out)@ == old(out)@ + hex_lower_str(d as int),
{
    if d == 0 {
        out.append("0");
    } else if d == 1 {
        out.append("1");
    } else if d == 2 {
        out.append("2");
    } else if d == 3 {
        out.append("3");
    } else if d == 4 {
        out.append("4");
    } else if d == 5 {
        out.append("5");
    } else if d == 6 {
        out.append("6");
    } else if d == 7 {
        out.append("7");
    } else if d == 8 {
        out.append("8");
    } else if d == 9 {
        out.append("9");
    } else if d == 10 {
        out.append("a");
    } else if d == 11 {
        out.append("b");
    } else if d == 12 {
        out.append("c");
    } else if d == 13 {
        out.append("d");
    } else if d == 14 {
        out.append("e");
    } else {
        out.append("f");
    }
}

/// Appends the escaped wire form of `s` to `out`.
fn escape_append(out: &mut String, s: &str)
    ensures
        final(out)@ == old(out)@ + spec_escape(s@),
{
    let n = s.unicode_len();
    let mut i: usize = 0;
    assert(old(out)@ + spec_escape(s@.take(0)) =~~= old(out)@);
    while i < n
        invariant
            n == s@.len(),
            i <= n,
            out@ == old(out)@ + spec_escape(s@.take(i as int)),
        decreases n - i,
    {
        let ghost prev = out@;
        let c = s.get_char(i);
        if c == '"' {
            out.append("\\\"");
        } else if c == '\\' {
            out.append("\\\\");
        } else if (c as u32) < 32 {
            let d = c as u32;
            out.append("\\u00");
            append_hex_digit(out, d / 16);
            append_hex_digit(out, d % 16);
            assert(out@ =~~= prev + ("\\u00"@ + hex_lower_str(d as int / 16) + hex_lower_str(
                d as int % 16,
            )));
        } else {
            let piece = s.substring_char(i, i + 1);
            assert(piece@ =~~= seq![s@[i as int]]);
            out.append(piece);
        }
        proof {
            assert(s@.take(i + 1int).drop_last() =~~= s@.take(i as int));
            assert(s@.take(i + 1int).last() == s@[i as int]);
            assert(spec_escape(s@.take(i + 1int)) == spec_escape(s@.take(i as int)) + escape_char(
                s@[i as int],
            ));
            assert(out@ =~~= old(out)@ + spec_escape(s@.take(i + 1int)));
        }
        i += 1;
    }
    assert(s@.take(n as int) =~~= s@);
}

/// The wire form of one argument value.
pub open spec fn spec_encode_value(v: ArgValueV) -> Seq<char> {
    match v {
        ArgValueV::Str(s) => "\""@ + spec_escape(s) + "\""@,
        ArgValueV::Num(t) => t,
        ArgValueV::Bool(b) => if b {
            "true"@
        } else {
            "false"@
        },
    }
}

/// The wire form of one named argument inside the `arguments` mapping.
pub open spec fn spec_encode_binding(b: ArgBindingV) -> Seq<char> {
    "\""@ + spec_escape(b.name) + "\":"@ + spec_encode_value(b.value)
}

/// The wire form of the argument bindings, comma-separated, in order.
pub open spec fn spec_encode_args(args: Seq<ArgBindingV>) -> Seq<char>
    decreases args.len(),
{
    if args.len() == 0 {
        Seq::empty()
    } else if args.len() == 1 {
        spec_encode_binding(args[0])
    } else {
        spec_encode_args(args.drop_last()) + ","@ + spec_encode_binding(args.last())
    }
}

/// The complete wire form of a request: the `command` field always, the
/// `arguments` mapping only when at least one argument was supplied.
pub open spec fn spec_encode_request(req: ParsedRequestV) -> Seq<char> {
    "{\"command\":\""@ + spec_escape(req.command) + "\""@ + (if req.arguments.len() == 0 {
        Seq::<char>::empty()
    } else {
        ",\"arguments\":{"@ + spec_encode_args(req.arguments) + "}"@
    }) + "}"@
}

fn append_value(out: &mut String, v: &ArgValue)
    ensures
        final(out)@ == old(out)@ + spec_encode_value(v@),
{
    match v {
        ArgValue::Str(s) => {
            out.append("\"");
            escape_append(out, s.as_str());
            out.append("\"");
            assert(out@ =~~= old(out)@ + ("\""@ + spec_escape(s@) + "\""@));
        },
        ArgValue::Num(t) => {
            out.append(t.as_str());
        },
        ArgValue::Bool(b) => {
            if *b {
                out.append("true");
            } else {
                out.append("false");
            }
        },
    }
}

/// Serializes a structured request to its wire form.
pub fn encode_request(req: &ParsedRequest) -> (r: String)
    ensures
        r@ == spec_encode_request(req@),
{
    let ghost argsv = req@.arguments;
    let mut out = String::new();
    out.append("{\"command\":\"");
    escape_append(&mut out, req.command.as_str());
    out.append("\"");
    let ghost head = "{\"command\":\""@ + spec_escape(req.command@) + "\""@;
    assert(out@ =~~= head);
    let n = req.arguments.len();
    assert(argsv.len() == n);
    if n > 0 {
        out.append(",\"arguments\":{");
        let ghost open_head = head + ",\"arguments\":{"@;
        assert(out@ =~~= open_head);
        let mut i: usize = 0;
        assert(open_head + spec_encode_args(argsv.take(0)) =~~= open_head);
        while i < n
            invariant
                n == req.arguments.len(),
                argsv == req@.arguments,
                argsv.len() == n,
                i <= n,
                open_head == head + ",\"arguments\":{"@,
                head == "{\"command\":\""@ + spec_escape(req.command@) + "\""@,
                out@ == open_head + spec_encode_args(argsv.take(i as int)),
            decreases n - i,
        {
            let ghost prev = out@;
            proof {
                assert(argsv[i as int] == (ArgBindingV {
                    name: req.arguments@[i as int].0@,
                    value: req.arguments@[i as int].1@,
                }));
            }
            if i > 0 {
                out.append(",");
            }
            out.append("\"");
            escape_append(&mut out, req.arguments[i].0.as_str());
            out.append("\":");
            append_value(&mut out, &req.arguments[i].1);
            proof {
                let b = argsv[i as int];
                if i == 0 {
                    assert(out@ =~~= prev + spec_encode_binding(b));
                    assert(spec_encode_args(argsv.take(1)) == spec_encode_binding(
                        argsv.take(1)[0],
                    ));
                    assert(argsv.take(1)[0] == b);
                    assert(out@ =~~= open_head + spec_encode_args(argsv.take(i + 1int)));
                } else {
                    assert(out@ =~~= prev + (","@ + spec_encode_binding(b)));
                    assert(argsv.take(i + 1int).drop_last() =~~= argsv.take(i as int));
                    assert(argsv.take(i + 1int).last() == b);
                    assert(argsv.take(i + 1int).len() >= 2);
                    assert(spec_encode_args(argsv.take(i + 1int)) == spec_encode_args(
                        argsv.take(i as int),
                    ) + ","@ + spec_encode_binding(b));
                    assert(out@ =~~= open_head + spec_encode_args(argsv.take(i + 1int)));
                }
            }
            i += 1;
        }
        assert(argsv.take(n as int) =~~= argsv);
        out.append("}");
        out.append("}");
        assert(out@ =~~= spec_encode_request(req@));
    } else {
        out.append("}");
        assert(out@ =~~= spec_encode_request(req@));
    }
    out
}

/// Law: a request that carries no arguments encodes to the command-only wire
/// form, in which the `arguments` field is absent altogether — not present
/// as an empty mapping.
pub proof fn lemma_encode_omits_empty_arguments(req: ParsedRequestV)
    requires
        req.arguments.len() == 0,
    ensures
        spec_encode_request(req) == "{\"command\":\""@ + spec_escape(req.command) + "\"}"@,
{
    reveal_strlit("\"");
    reveal_strlit("}");
    reveal_strlit("\"}");
    assert(spec_encode_request(req) =~~= "{\"command\":\""@ + spec_escape(req.command)
        + "\"}"@);
}

} // verus!
