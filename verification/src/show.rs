//! How values are written out: by `Syng ut`, `tekst`, joining with `og`, and in
//! error messages.
use vstd::prelude::*;
use crate::host::{halt_settled, settled, tape_kept};
use crate::host::{ask_text_s, res_v, FloatOp, FloatOpV, Halt, HaltV, Request, RequestV, Tape, TapeV};
use crate::text::{int_text, push_int_text, string_of};
use crate::value::{value_v, values_v, Value, ValueV};

verus! {

/// The text of a value, asking the host for the text of each decimal in it.
pub open spec fn show_s(t: TapeV, v: ValueV) -> (TapeV, Result<Seq<char>, HaltV>)
    decreases v, 0int,
{
    match v {
        ValueV::Int(n) => (t, Ok(int_text(n as int))),
        ValueV::Float(b) => ask_text_s(t, RequestV::Float(FloatOpV::Show(b))),
        ValueV::Str(s) => (t, Ok(s)),
        ValueV::Bool(b) => (t, Ok(if b { "ja"@ } else { "nei"@ })),
        ValueV::Null => (t, Ok("tome hender"@)),
        ValueV::List(xs) => {
            let (t1, r) = show_items_s(t, xs, 0, "["@);
            match r {
                Ok(s) => (t1, Ok(s + "]"@)),
                Err(h) => (t1, Err(h)),
            }
        },
        ValueV::Func { .. } => (t, Ok("<funksjon>"@)),
        ValueV::Object { class, .. } => (t, Ok("<"@ + class + ">"@)),
    }
}

/// `acc` followed by the texts of `xs[i..]`, each after the first of the whole list
/// preceded by `", "`.
pub open spec fn show_items_s(t: TapeV, xs: Seq<ValueV>, i: int, acc: Seq<char>) -> (TapeV, Result<Seq<char>, HaltV>)
    decreases xs, xs.len() - i,
{
    if i < 0 || i >= xs.len() {
        (t, Ok(acc))
    } else {
        let (t1, r) = show_s(t, xs[i]);
        match r {
            Ok(s) => show_items_s(t1, xs, i + 1, acc + (if i > 0 { ", "@ } else { ""@ }) + s),
            Err(h) => (t1, Err(h)),
        }
    }
}

/// The decimal text of a whole number.
pub fn int_string(n: i64) -> (s: String)
    ensures
        s@ == int_text(n as int),
{
    let mut v: Vec<char> = Vec::new();
    push_int_text(&mut v, n);
    assert(v@ =~= int_text(n as int));
    string_of(v.as_slice())
}

pub fn show(tape: &mut Tape, v: &Value) -> (r: Result<String, Halt>)
    ensures
        (final(tape)@, res_v(r)) == show_s(old(tape)@, v@),
        tape_kept(old(tape)@, final(tape)@),
        settled(final(tape)@, r),
    decreases v,
{
    match v {
        Value::Int(n) => Ok(int_string(*n)),
        Value::Float(b) => tape.ask_text(Request::Float(FloatOp::Show(*b))),
        Value::Str(s) => Ok(s.clone()),
        Value::Bool(b) => {
            if *b {
                Ok("ja".to_owned())
            } else {
                Ok("nei".to_owned())
            }
        },
        Value::Null => Ok("tome hender".to_owned()),
        Value::List(xs) => {
            let r = show_items(tape, xs);
            match r {
                Ok(s) => {
                    let mut out = s;
                    out.append("]");
                    Ok(out)
                },
                Err(h) => Err(h),
            }
        },
        Value::Func { .. } => Ok("<funksjon>".to_owned()),
        Value::Object { class, .. } => {
            let mut out = "<".to_owned();
            out.append(class.as_str());
            out.append(">");
            Ok(out)
        },
    }
}

/// `"["` followed by the texts of the items, separated by `", "`.
fn show_items(tape: &mut Tape, xs: &Vec<Value>) -> (r: Result<String, Halt>)
    ensures
        (final(tape)@, res_v(r)) == show_items_s(old(tape)@, values_v(*xs), 0, "["@),
        tape_kept(old(tape)@, final(tape)@),
        settled(final(tape)@, r),
    decreases xs,
{
    let ghost xv = values_v(*xs);
    let mut out = "[".to_owned();
    let mut i: usize = 0;
    while i < xs.len()
        invariant
            tape_kept(old(tape)@, tape@),
            i <= xs.len(),
            xv == values_v(*xs),
            xv.len() == xs@.len(),
            show_items_s(tape@, xv, i as int, out@) == show_items_s(old(tape)@, xv, 0, "["@),
        decreases xs.len() - i,
    {
        assert(xv[i as int] == value_v(xs@[i as int]));
        let r = show(tape, &xs[i]);
        match r {
            Ok(s) => {
                let ghost before = out@;
                if i > 0 {
                    out.append(", ");
                }
                out.append(s.as_str());
                assert(out@ =~= before + (if i > 0 { ", "@ } else { ""@ }) + s@) by {
                    reveal_strlit(", ");
                    reveal_strlit("");
                }
            },
            Err(h) => {
                return Err(h);
            },
        }
        i += 1;
    }
    Ok(out)
}

} // verus!
