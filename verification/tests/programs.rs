use tbv::host::{clone_answer, Answer, FloatOp, Halt, Num, Request, Tape};
use tbv::ast::{BinOpKind, Expr, Stmt};
use tbv::interp::Interpreter;
use tbv::lexer::tokenize;
use tbv::parser::parse;

/// What the test host does for a request: it keeps what is printed, feeds the given
/// input lines, and works doubles out with `f64`.
fn answer_for(req: Request, out: &mut Vec<String>, input: &[&str], next: &mut usize) -> Answer {
    match req {
        Request::Print(s) => {
            out.push(s);
            Answer::Done
        }
        Request::ReadInput => {
            if *next < input.len() {
                *next += 1;
                Answer::Text(input[*next - 1].to_string())
            } else {
                Answer::Text(String::new())
            }
        }
        Request::SleepInt(_) | Request::SleepFloat(_) => Answer::Done,
        Request::Float(op) => float_answer(op),
        Request::ReadFile(p) => Answer::Failed(format!("no file {}", p)),
        Request::WriteFile(_, _) => Answer::Done,
        _ => panic!("unexpected request in a test"),
    }
}

fn num(n: Num) -> f64 {
    match n {
        Num::Int(i) => i as f64,
        Num::Float(b) => f64::from_bits(b),
    }
}

fn float_answer(op: FloatOp) -> Answer {
    match op {
        FloatOp::Parse(s) => match s.parse::<f64>() {
            Ok(v) => Answer::Bits(v.to_bits()),
            Err(e) => Answer::Failed(e.to_string()),
        },
        FloatOp::FromInt(n) => Answer::Bits((n as f64).to_bits()),
        FloatOp::ToInt(b) => Answer::Int(f64::from_bits(b) as i64),
        FloatOp::ToPort(b) => Answer::Int((f64::from_bits(b) as u16) as i64),
        FloatOp::Show(b) => {
            let v = f64::from_bits(b);
            if v == v.floor() && v.abs() < 1e15 {
                Answer::Text(format!("{}", v as i64))
            } else {
                Answer::Text(format!("{}", v))
            }
        }
        FloatOp::Arith(op, a, b) => {
            let (x, y) = (num(a), num(b));
            let r = match op {
                BinOpKind::Add => x + y,
                BinOpKind::Sub => x - y,
                BinOpKind::Mul => x * y,
                BinOpKind::Div => x / y,
                _ => x % y,
            };
            Answer::Bits(r.to_bits())
        }
    }
}

/// Runs a program to its end with the given input; the printed lines and the error
/// it ended with, if any.
fn run_with(src: &str, input: &[&str]) -> (Vec<String>, Option<String>) {
    let toks = tokenize(src).expect("the program should lex");
    let prog = parse(toks).expect("the program should parse");
    let mut answers: Vec<Answer> = Vec::new();
    let mut out: Vec<String> = Vec::new();
    let mut next = 0usize;
    loop {
        let mut interp = Interpreter::new();
        let mut tape = Tape::new(answers.iter().map(clone_answer).collect());
        match interp.run(&prog, &mut tape) {
            Ok(()) => return (out, None),
            Err(Halt::Pending(req)) => {
                let a = answer_for(req, &mut out, input, &mut next);
                answers.push(a);
            }
            Err(Halt::Error(m)) => return (out, Some(m)),
            Err(Halt::Panic(m)) => return (out, Some(format!("panic: {}", m))),
            Err(Halt::OutOfFuel) => panic!("out of fuel"),
            Err(Halt::Mismatch) => panic!("answer of the wrong kind"),
        }
    }
}

fn run(src: &str) -> Vec<String> {
    let (out, err) = run_with(src, &[]);
    assert!(err.is_none(), "unexpected error: {:?}", err);
    out
}

#[test]
fn hello_world() {
    assert_eq!(run("Syng ut: «Aldri var landet so fagert som no»\n"), vec!["Aldri var landet so fagert som no"]);
}

#[test]
fn arithmetic_table() {
    let out = run("Syng ut: 3 og 4\nSyng ut: 10 utan 3\nSyng ut: 6 gongar 7\nSyng ut: 10 delt på 3\nSyng ut: resten av 10 delt på 3\n");
    assert_eq!(out, vec!["7", "7", "42", "3", "1"]);
}

#[test]
fn negative_division_truncates() {
    let out = run("lat a vera 0 utan 7\nSyng ut: a delt på 2\nSyng ut: resten av a delt på 2\n");
    assert_eq!(out, vec!["-3", "-1"]);
}

#[test]
fn string_concatenation() {
    let out = run("lat n vera 3\nSyng ut: «tal: » og n\nSyng ut: n og «!»\nSyng ut: «[» og [1, 2] og «]»\n");
    assert_eq!(out, vec!["tal: 3", "3!", "[[1, 2]]"]);
}

#[test]
fn list_concatenation() {
    assert_eq!(run("Syng ut: [1, 2] og [3]\n"), vec!["[1, 2, 3]"]);
}

#[test]
fn display_of_values() {
    let out = run("Syng ut: ja\nSyng ut: nei\nSyng ut: tome hender\nSyng ut: [1, «to», ja, [3]]\nSyng ut: []\n");
    assert_eq!(out, vec!["ja", "nei", "tome hender", "[1, to, ja, [3]]", "[]"]);
}

#[test]
fn decimals() {
    let out = run("Syng ut: 3.14\nSyng ut: 2.0\nSyng ut: 1.5 og 1\nSyng ut: 1 delt på 4.0\nSyng ut: 2 er 2.0\n");
    assert_eq!(out, vec!["3.14", "2", "2.5", "0.25", "ja"]);
}

#[test]
fn comparisons() {
    let out = run("Syng ut: 3 er mindre enn 4\nSyng ut: 3 er større enn 4\nSyng ut: 3 er 3\nSyng ut: 3 er ikkje 3\nSyng ut: «a» er mindre enn «b»\nSyng ut: ikkje ja\n");
    assert_eq!(out, vec!["ja", "nei", "ja", "nei", "ja", "nei"]);
}

#[test]
fn conditionals_with_else_if() {
    let src = "lat x vera 2\nDu kjem ikkje utanom x er 1:\n    Syng ut: «ein»\nMen om x er 2:\n    Syng ut: «to»\nMen om ikkje:\n    Syng ut: «anna»\nDet er nok.\n";
    assert_eq!(run(src), vec!["to"]);
}

#[test]
fn while_loop_counts() {
    let src = "lat i vera 1\nEit øyeblikk om gangen, medan i er mindre enn 4:\n    Syng ut: i\n    i tek imot i og 1\nDet er nok.\n";
    assert_eq!(run(src), vec!["1", "2", "3"]);
}

#[test]
fn for_each_over_list_and_text() {
    let src = "kvar song i [«a», «b»]:\n    Syng ut: song\nDet er nok.\nkvar c i «hei»:\n    Syng ut: c\nDet er nok.\n";
    assert_eq!(run(src), vec!["a", "b", "h", "e", "i"]);
}

#[test]
fn count_loop_with_variable() {
    let src = "Topp attom toppar 3 som i gongar:\n    Syng ut: i\nDet er nok.\nTopp attom toppar 2 gongar:\n    Syng ut: «hei»\nDet er nok.\n";
    assert_eq!(run(src), vec!["0", "1", "2", "hei", "hei"]);
}

#[test]
fn infinite_loop_with_break_and_continue() {
    let src = "lat i vera 0\nEvig i lysets rike:\n    i tek imot i og 1\n    Du kjem ikkje utanom i er 2:\n        atter ein gong.\n    Det er nok.\n    Du kjem ikkje utanom i er større enn 3:\n        stansar stilt.\n    Det er nok.\n    Syng ut: i\nDet er nok.\n";
    assert_eq!(run(src), vec!["1", "3"]);
}

#[test]
fn functions_and_calls() {
    let src = "Gud har ein plan med kvadrat(n):\n    Takk at du tok mine byrder: n gongar n\nDet er nok.\nSyng ut: kvadrat(7)\nlat r vera Bli med til kvadrat med 5\nSyng ut: r\n";
    assert_eq!(run(src), vec!["49", "25"]);
}

#[test]
fn function_without_return_gives_nothing() {
    let src = "Gud har ein plan med tom():\n    lat x vera 1\nDet er nok.\nSyng ut: tom()\n";
    assert_eq!(run(src), vec!["tome hender"]);
}

#[test]
fn recursion() {
    let src = "Gud har ein plan med fak(n):\n    Du kjem ikkje utanom n er mindre enn 2:\n        Takk at du tok mine byrder: 1\n    Det er nok.\n    Takk at du tok mine byrder: n gongar fak(n utan 1)\nDet er nok.\nSyng ut: fak(10)\n";
    assert_eq!(run(src), vec!["3628800"]);
}

#[test]
fn wrong_number_of_arguments() {
    let src = "Gud har ein plan med f(a, b):\n    Takk at du tok mine byrder: a\nDet er nok.\nSyng ut: f(1)\n";
    let (_, err) = run_with(src, &[]);
    assert_eq!(err, Some("f: ventar 2 argument, fekk 1".to_string()));
}

#[test]
fn caught_error_sets_feilen() {
    let src = "Prøv å få gjort det du kan:\n    lat n vera heiltal(«ikkje eit tal»)\nVer ikkje redd:\n    Syng ut: «Noko gjekk gale: » og feilen\nDet er nok.\n";
    assert_eq!(run(src), vec!["Noko gjekk gale: heiltal: kan ikkje konvertera «ikkje eit tal»"]);
}

#[test]
fn raised_error_is_caught() {
    let src = "Prøv å få gjort det du kan:\n    Rop ut: «noko gjekk gale»\nVer ikkje redd:\n    Syng ut: feilen\nDet er nok.\n";
    assert_eq!(run(src), vec!["noko gjekk gale"]);
}

#[test]
fn uncaught_error_ends_the_program() {
    let (out, err) = run_with("Syng ut: 1\nRop ut: «stopp»\nSyng ut: 2\n", &[]);
    assert_eq!(out, vec!["1"]);
    assert_eq!(err, Some("stopp".to_string()));
}

#[test]
fn failed_guard() {
    let (_, err) = run_with("Set vakt: 1 er 2\n", &[]);
    assert_eq!(err, Some("Vakt broten: nei er ikkje sant".to_string()));
}

#[test]
fn undefined_name() {
    let (_, err) = run_with("Syng ut: x\n", &[]);
    assert_eq!(err, Some("'x' er ikkje definert".to_string()));
}

#[test]
fn division_by_zero() {
    let (_, err) = run_with("Syng ut: 1 delt på 0\n", &[]);
    assert_eq!(err, Some("deling på null".to_string()));
    let (_, err) = run_with("Syng ut: resten av 1 delt på 0\n", &[]);
    assert_eq!(err, Some("deling på null".to_string()));
    let (_, err) = run_with("Syng ut: 1 delt på 0.0\n", &[]);
    assert_eq!(err, Some("deling på null".to_string()));
}

#[test]
fn division_overflow_aborts() {
    let src = "lat m vera 0 utan 9223372036854775807 utan 1\nPrøv å få gjort det du kan:\n    Syng ut: m delt på (0 utan 1)\nVer ikkje redd:\n    Syng ut: «fanga»\nDet er nok.\n";
    let (out, err) = run_with(src, &[]);
    assert!(out.is_empty());
    assert_eq!(err, Some("panic: attempt to divide with overflow".to_string()));
}

#[test]
fn bad_operands() {
    let (_, err) = run_with("Syng ut: ja gongar 2\n", &[]);
    assert_eq!(err, Some("aritmetisk operasjon på ja og 2".to_string()));
    let (_, err) = run_with("Syng ut: ja og 2\n", &[]);
    assert_eq!(err, Some("kan ikkje legga saman ja og 2".to_string()));
}

#[test]
fn input_is_read_as_text() {
    let (out, err) = run_with("Kom med din svar\nSyng ut: heiltal(svar) og 1\n", &["41\r\n"]);
    assert!(err.is_none());
    assert_eq!(out, vec!["42"]);
}

#[test]
fn builtins() {
    let src = "lat l vera [3, 1, 2]\nSyng ut: lengd(l)\nSyng ut: lengd(«hæ»)\nSyng ut: legg til(l, 4)\nSyng ut: l\nSyng ut: del frå(l, 0)\nSyng ut: sorter(l)\nSyng ut: kvart tal(3)\nSyng ut: del opp(«a,b,c», «,»)\nSyng ut: sett saman([1, 2, 3], «-»)\nSyng ut: tekst(12) og «x»\nSyng ut: heiltal(« 17 »)\nSyng ut: desimaltal(«2.5»)\n";
    assert_eq!(
        run(src),
        vec!["3", "2", "[3, 1, 2, 4]", "[3, 1, 2]", "[1, 2]", "[1, 2, 3]", "[0, 1, 2]", "[a, b, c]", "1-2-3", "12x", "17", "2.5"]
    );
}

#[test]
fn builtin_errors() {
    let (_, err) = run_with("Syng ut: lengd(1, 2)\n", &[]);
    assert_eq!(err, Some("lengd: forventar 1 argument, fekk 2".to_string()));
    let (_, err) = run_with("Syng ut: lengd(5)\n", &[]);
    assert_eq!(err, Some("lengd: uforventa type 5".to_string()));
    let (_, err) = run_with("Syng ut: del frå([1], 5)\n", &[]);
    assert_eq!(err, Some("indeks 5 utanfor [0, 1)".to_string()));
    let (_, err) = run_with("Syng ut: del opp(1, 2, 3)\n", &[]);
    assert_eq!(err, Some("del_opp: forventar 1 eller 2 argument, fekk 3".to_string()));
}

#[test]
fn indexing() {
    let out = run("lat l vera [10, 20, 30]\nSyng ut: l[0]\nSyng ut: l[0 utan 1]\nSyng ut: «hei»[1]\n");
    assert_eq!(out, vec!["10", "30", "e"]);
    let (_, err) = run_with("Syng ut: [1][3]\n", &[]);
    assert_eq!(err, Some("indeks 3 utanfor [0, 1)".to_string()));
}

#[test]
fn classes_fields_and_methods() {
    let src = "Songen Teljar:\n    lat n vera 0\n    Gud har ein plan med auk(k):\n        sjølv sin n tek imot sjølv sin n og k\n        Takk at du tok mine byrder: sjølv sin n\n    Det er nok.\nDet er nok.\nSyng for meg songen om Teljar til t\nt vert kalla til å auk med 5\nSyng ut: t sin n\nSyng ut: t vert kalla til å auk med 2\nt sin n tek imot 100\nSyng ut: t sin n\n";
    assert_eq!(run(src), vec!["5", "7", "100"]);
}

#[test]
fn files_are_asked_of_the_host() {
    let (_, err) = run_with("Opna den klåre kjelda: «x.txt» til t\n", &[]);
    assert_eq!(err, Some("kan ikkje lesa 'x.txt': no file x.txt".to_string()));
}

#[test]
fn state_lives_on_between_programs() {
    let mut interp = Interpreter::new();
    let p1 = parse(tokenize("Gud har ein plan med to():\n    Takk at du tok mine byrder: 2\nDet er nok.\n").unwrap()).unwrap();
    let mut tape = Tape::new(Vec::new());
    assert!(interp.run(&p1, &mut tape).is_ok());
    let p2 = parse(tokenize("Syng ut: to()\n").unwrap()).unwrap();
    let mut tape = Tape::new(Vec::new());
    match interp.run(&p2, &mut tape) {
        Err(Halt::Pending(Request::Print(s))) => assert_eq!(s, "2"),
        _ => panic!("expected a print request"),
    }
}

#[test]
fn snapshot_keeps_the_state() {
    let mut interp = Interpreter::new();
    let p1 = parse(tokenize("Gud har ein plan med tre():\n    Takk at du tok mine byrder: 3\nDet er nok.\n").unwrap()).unwrap();
    let mut tape = Tape::new(Vec::new());
    assert!(interp.run(&p1, &mut tape).is_ok());
    let mut copy = interp.snapshot();
    let p2 = parse(tokenize("Syng ut: tre()\n").unwrap()).unwrap();
    let mut tape = Tape::new(vec![Answer::Done]);
    assert!(copy.run(&p2, &mut tape).is_ok());
    assert_eq!(tape.used(), 1);
}

#[test]
fn ikkje_negates_a_whole_comparison() {
    let prog = parse(tokenize("Syng ut: ikkje a er b\n").unwrap()).unwrap();
    assert_eq!(prog.len(), 1);
    match &prog[0] {
        Stmt::Print { value: Expr::Not(inner), .. } => match inner.as_ref() {
            Expr::BinOp { op: BinOpKind::Eq, left, right } => {
                assert!(matches!(left.as_ref(), Expr::Var(a) if a == "a"));
                assert!(matches!(right.as_ref(), Expr::Var(b) if b == "b"));
            }
            _ => panic!("expected a comparison under ikkje"),
        },
        _ => panic!("expected ikkje (a er b)"),
    }
    let out = run("Syng ut: ikkje 1 er 2\nSyng ut: ikkje 2 er 2\nSyng ut: ikkje 1 er mindre enn 2\nSyng ut: ikkje 3 er ikkje 3\n");
    assert_eq!(out, vec!["ja", "nei", "nei", "ja"]);
}

#[test]
fn ikkje_alone_binds_tightly() {
    let out = run("Syng ut: ikkje ja\nSyng ut: ikkje (nei)\nSyng ut: ikkje nei og «x»\nlat a vera ja\nDu kjem ikkje utanom ikkje a er nei:\n    Syng ut: «a er ja»\nDet er nok.\n");
    assert_eq!(out, vec!["nei", "ja", "jax", "a er ja"]);
}
