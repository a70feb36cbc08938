use tbv::ast::BinOpKind;
use tbv::host::{clone_answer, Answer, FloatOp, Halt, Request, Tape};
use tbv::interp::Interpreter;
use tbv::lexer::{is_dash, stalls, strip_comment, tokenize, TokenKind};
use tbv::ops::apply_binop;
use tbv::parser::{is_method_name_stop, is_two_word_builtin, parse};
use tbv::repl::{prompt, repl_line, ReplStep};
use tbv::value::{normalize_idx, Value};

fn words_of(src: &str) -> Vec<String> {
    tokenize(src)
        .unwrap()
        .into_iter()
        .map(|t| match t.kind {
            TokenKind::Word(w) => format!("w:{}", w),
            TokenKind::Int(n) => format!("i:{}", n),
            TokenKind::Float(f) => format!("f:{}", f),
            TokenKind::Str(s) => format!("s:{}", s),
            TokenKind::Comma => ",".to_string(),
            TokenKind::Dot => ".".to_string(),
            TokenKind::Colon => ":".to_string(),
            TokenKind::LParen => "(".to_string(),
            TokenKind::RParen => ")".to_string(),
            TokenKind::LBracket => "[".to_string(),
            TokenKind::RBracket => "]".to_string(),
            TokenKind::Eof => "eof".to_string(),
        })
        .collect()
}

#[test]
fn lexes_a_statement() {
    assert_eq!(
        words_of("Syng ut: «hei» og 3.5, [1]"),
        vec!["w:Syng", "w:ut", ":", "s:hei", "w:og", "f:3.5", ",", "[", "i:1", "]", "eof"]
    );
}

#[test]
fn lexes_comments_away() {
    assert_eq!(words_of("lat x vera 1 – – ein kommentar – –\n"), vec!["w:lat", "w:x", "w:vera", "i:1", "eof"]);
    assert_eq!(strip_comment("lat x vera 1 – – kommentar"), "lat x vera 1 ");
    assert_eq!(strip_comment("ingen kommentar"), "ingen kommentar");
}

#[test]
fn hyphen_pairs_are_no_comment() {
    assert_eq!(strip_comment("lat x vera 1 -- y"), "lat x vera 1 -- y");
    assert_eq!(strip_comment("lat x vera 1 — — y"), "lat x vera 1 ");
    assert_eq!(strip_comment("a –– b"), "a ");
    assert_eq!(words_of("Syng ut: «a -- b»\n"), vec!["w:Syng", "w:ut", ":", "s:a -- b", "eof"]);
}

#[test]
fn dashes() {
    assert!(is_dash('–'));
    assert!(is_dash('—'));
    assert!(!is_dash('-'));
    assert!(!is_dash('a'));
}

#[test]
fn unterminated_text_is_an_error() {
    match tokenize("Syng ut: «hei\n") {
        Err(e) => assert!(e.contains("1"), "{}", e),
        Ok(_) => panic!("expected an error"),
    }
}

#[test]
fn a_stray_closing_quote_stalls() {
    assert!(stalls("Syng ut: »\n"));
    assert!(!stalls("Syng ut: «hei»\n"));
}

#[test]
fn two_word_builtins() {
    assert!(is_two_word_builtin("legg til"));
    assert!(is_two_word_builtin("del frå"));
    assert!(is_two_word_builtin("sett saman"));
    assert!(!is_two_word_builtin("lengd"));
}

#[test]
fn method_name_stops() {
    assert!(is_method_name_stop("med"));
    assert!(!is_method_name_stop("auk"));
}

#[test]
fn parse_errors_quote_the_token() {
    match parse(tokenize("Syng ut: ,\n").unwrap()) {
        Err(e) => assert!(e.contains("Comma") || e.contains(","), "{}", e),
        Ok(_) => panic!("expected a parse error"),
    }
    match parse(tokenize("lat «x» vera 1\n").unwrap()) {
        Err(e) => assert!(e.contains("\"x\""), "{}", e),
        Ok(_) => panic!("expected a parse error"),
    }
}

#[test]
fn index_normalisation() {
    assert_eq!(normalize_idx(0, 3), Ok(0));
    assert_eq!(normalize_idx(-1, 3), Ok(2));
    assert_eq!(normalize_idx(-3, 3), Ok(0));
    assert_eq!(normalize_idx(3, 3), Err("indeks 3 utanfor [0, 3)".to_string()));
    assert_eq!(normalize_idx(-4, 3), Err("indeks -4 utanfor [0, 3)".to_string()));
}

fn int_of(r: Result<Value, Halt>) -> i64 {
    match r {
        Ok(Value::Int(n)) => n,
        _ => panic!("expected a whole number"),
    }
}

#[test]
fn division_law_on_values() {
    let mut tape = Tape::new(Vec::new());
    for (a, b) in [(7i64, 2i64), (-7, 2), (7, -2), (-7, -2), (0, 5), (i64::MIN, 2)] {
        let q = int_of(apply_binop(&mut tape, BinOpKind::Div, &Value::Int(a), &Value::Int(b)));
        let r = int_of(apply_binop(&mut tape, BinOpKind::Mod, &Value::Int(a), &Value::Int(b)));
        assert_eq!(q, a / b);
        assert_eq!(r, a % b);
        assert_eq!(b * q + r, a);
    }
    assert_eq!(tape.used(), 0);
}

#[test]
fn overflowing_arithmetic_wraps() {
    let mut tape = Tape::new(Vec::new());
    assert_eq!(int_of(apply_binop(&mut tape, BinOpKind::Add, &Value::Int(i64::MAX), &Value::Int(1))), i64::MIN);
    assert_eq!(int_of(apply_binop(&mut tape, BinOpKind::Mul, &Value::Int(i64::MAX), &Value::Int(2))), -2);
    match apply_binop(&mut tape, BinOpKind::Mod, &Value::Int(i64::MIN), &Value::Int(-1)) {
        Err(Halt::Panic(m)) => assert_eq!(m, "attempt to calculate the remainder with overflow"),
        _ => panic!("expected an abort"),
    }
}

#[test]
fn equality_is_negated_by_ne() {
    let mut tape = Tape::new(Vec::new());
    let pairs = [(Value::Int(1), Value::Int(1)), (Value::Str("a".to_string()), Value::Str("b".to_string())), (Value::Null, Value::Null), (Value::Bool(true), Value::Int(1))];
    for (l, r) in pairs.iter() {
        let eq = matches!(apply_binop(&mut tape, BinOpKind::Eq, l, r), Ok(Value::Bool(true)));
        let ne = matches!(apply_binop(&mut tape, BinOpKind::Ne, l, r), Ok(Value::Bool(true)));
        assert_eq!(eq, !ne);
    }
}

#[test]
fn decimal_arithmetic_is_asked_of_the_host() {
    let mut tape = Tape::new(Vec::new());
    match apply_binop(&mut tape, BinOpKind::Add, &Value::Int(1), &Value::Float(2.5f64.to_bits())) {
        Err(Halt::Pending(Request::Float(FloatOp::Arith(BinOpKind::Add, _, _)))) => {}
        _ => panic!("expected a request for decimal arithmetic"),
    }
    let mut tape = Tape::new(vec![Answer::Bits(3.5f64.to_bits())]);
    match apply_binop(&mut tape, BinOpKind::Add, &Value::Int(1), &Value::Float(2.5f64.to_bits())) {
        Ok(Value::Float(b)) => assert_eq!(f64::from_bits(b), 3.5),
        _ => panic!("expected a decimal"),
    }
    let mut tape = Tape::new(vec![Answer::Done]);
    assert!(matches!(
        apply_binop(&mut tape, BinOpKind::Add, &Value::Int(1), &Value::Float(2.5f64.to_bits())),
        Err(Halt::Mismatch)
    ));
}

/// Runs a program whose output is all it asks for.
fn printed(src: &str) -> Vec<String> {
    let prog = parse(tokenize(src).unwrap()).unwrap();
    let mut answers: Vec<Answer> = Vec::new();
    let mut out = Vec::new();
    loop {
        let mut interp = Interpreter::new();
        let mut tape = Tape::new(answers.iter().map(clone_answer).collect());
        match interp.run(&prog, &mut tape) {
            Ok(()) => return out,
            Err(Halt::Pending(Request::Print(s))) => {
                out.push(s);
                answers.push(Answer::Done);
            }
            Err(Halt::Error(m)) => {
                out.push(format!("error: {}", m));
                return out;
            }
            _ => panic!("unexpected stop"),
        }
    }
}

#[test]
fn number_text_round_trip() {
    let out = printed("Syng ut: heiltal(tekst(0 utan 9223372036854775807 utan 1))\nSyng ut: heiltal(tekst(0))\nSyng ut: heiltal(tekst(9223372036854775807))\nSyng ut: heiltal(tekst(0 utan 42))\n");
    assert_eq!(out, vec!["-9223372036854775808", "0", "9223372036854775807", "-42"]);
}

#[test]
fn sorting_whole_numbers() {
    assert_eq!(printed("Syng ut: sorter([5, 0 utan 1, 3, 3, 0])\n"), vec!["[-1, 0, 3, 3, 5]"]);
    assert_eq!(printed("Syng ut: sorter([«b», «a», «c»])\n"), vec!["[a, b, c]"]);
}

#[test]
fn inner_scope_is_forgotten() {
    let src = "lat x vera 1\nDu kjem ikkje utanom ja:\n    lat y vera 2\n    x tek imot 5\nDet er nok.\nSyng ut: x\nSyng ut: y\n";
    assert_eq!(printed(src), vec!["5", "error: 'y' er ikkje definert"]);
}

#[test]
fn split_and_join() {
    assert_eq!(printed("Syng ut: sett saman(del opp(«a;;b;;», «;;»), «;;»)\n"), vec!["a;;b;;"]);
    assert_eq!(printed("Syng ut: del opp(«ab», «»)\n"), vec!["[, a, b, ]"]);
    assert_eq!(printed("Syng ut: del opp(«ab»)\n"), vec!["[a, b]"]);
}

/// Serves one request to a program and returns what it sent back.
fn serve_once(src: &str, lines: &[&str], body: &str) -> String {
    let prog = parse(tokenize(src).unwrap()).unwrap();
    let mut answers: Vec<Answer> = Vec::new();
    let mut lines_given = 0usize;
    let mut accepts = 0usize;
    let mut sent: Option<String> = None;
    loop {
        let mut interp = Interpreter::new();
        let mut tape = Tape::new(answers.iter().map(clone_answer).collect());
        match interp.run(&prog, &mut tape) {
            Err(Halt::Pending(req)) => {
                let a = match req {
                    Request::Listen(8080) => Answer::Done,
                    Request::Accept => {
                        accepts += 1;
                        if accepts > 1 {
                            return sent.unwrap();
                        }
                        Answer::Done
                    }
                    Request::ReadConn => {
                        lines_given += 1;
                        Answer::Text(lines.get(lines_given - 1).unwrap_or(&"").to_string())
                    }
                    Request::ReadBody(n) => {
                        assert_eq!(n, body.len());
                        Answer::Text(body.to_string())
                    }
                    Request::Send(s) => {
                        sent = Some(s);
                        Answer::Done
                    }
                    _ => panic!("unexpected request"),
                };
                answers.push(a);
            }
            _ => panic!("the server stopped"),
        }
    }
}

#[test]
fn web_server_answers() {
    let src = "Lytt ved port 8080:\n    Du kjem ikkje utanom vegen er «/hei»:\n        Svar med: «Hei, verd!»\n    Det er nok.\n    Svar med: metode og « » og kropp\nDet er nok.\n";
    let sent = serve_once(src, &["POST /x HTTP/1.1\r\n", "CONTENT-length: 3\r\n", "\r\n"], "abc");
    assert_eq!(sent, "HTTP/1.1 200 OK\r\nContent-Length: 8\r\nContent-Type: text/plain; charset=utf-8\r\nConnection: close\r\n\r\nPOST abc");
    let sent = serve_once(src, &["GET /hei HTTP/1.1\r\n", "\r\n"], "");
    assert_eq!(sent, "HTTP/1.1 200 OK\r\nContent-Length: 4\r\nContent-Type: text/plain; charset=utf-8\r\nConnection: close\r\n\r\nGET ");
}

#[test]
fn last_reply_wins() {
    let src = "Lytt ved port 8080:\n    Svar med: «ø»\n    Svar med: «to»\nDet er nok.\n";
    let sent = serve_once(src, &["GET / HTTP/1.1\r\n", "\r\n"], "");
    assert_eq!(sent, "HTTP/1.1 200 OK\r\nContent-Length: 2\r\nContent-Type: text/plain; charset=utf-8\r\nConnection: close\r\n\r\nto");
    let src = "Lytt ved port 8080:\n    Svar med: «blåbær»\nDet er nok.\n";
    let sent = serve_once(src, &["GET / HTTP/1.1\r\n", "\r\n"], "");
    assert!(sent.contains("Content-Length: 8\r\n"));
}

#[test]
fn handler_errors_are_ignored() {
    let src = "Lytt ved port 8080:\n    Svar med: «før»\n    Rop ut: «feil»\nDet er nok.\n";
    let sent = serve_once(src, &["GET / HTTP/1.1\r\n", "\r\n"], "");
    assert!(sent.ends_with("\r\n\r\nfør"));
}

#[test]
fn dash_pairs_end_a_line_even_in_text() {
    match tokenize("Syng ut: «a – – b»\n") {
        Err(e) => assert!(e.contains("unterminated"), "{}", e),
        Ok(_) => panic!("the comment should cut the text short"),
    }
}

#[test]
fn a_run_stops_only_once_every_answer_is_used() {
    let prog = parse(tokenize("Syng ut: 1\nSyng ut: 2\nSyng ut: 3\n").unwrap()).unwrap();
    for given in 0..3usize {
        let mut tape = Tape::new((0..given).map(|_| Answer::Done).collect());
        let mut interp = Interpreter::new();
        match interp.run(&prog, &mut tape) {
            Err(Halt::Pending(Request::Print(s))) => {
                assert_eq!(s, format!("{}", given + 1));
                assert_eq!(tape.used(), given);
            }
            _ => panic!("expected a print request"),
        }
    }
    let mut tape = Tape::new((0..5).map(|_| Answer::Done).collect());
    let mut interp = Interpreter::new();
    assert!(interp.run(&prog, &mut tape).is_ok());
    assert_eq!(tape.used(), 3);
}

#[test]
fn objects_print_as_their_class() {
    let src = "Songen Fugl:\n    lat namn vera «trost»\nDet er nok.\nSyng for meg songen om Fugl til f\nSyng ut: f\nSyng ut: f sin namn\n";
    assert_eq!(printed(src), vec!["<Fugl>", "trost"]);
}

fn truth_of(r: Result<Value, Halt>) -> bool {
    match r {
        Ok(Value::Bool(b)) => b,
        _ => panic!("expected a truth value"),
    }
}

#[test]
fn less_is_greater_swapped() {
    let mut tape = Tape::new(Vec::new());
    let values = vec![
        Value::Int(2),
        Value::Int(3),
        Value::Int(-1),
        Value::Str("a".to_string()),
        Value::Str("ab".to_string()),
        Value::Str("b".to_string()),
        Value::Float(2.5f64.to_bits()),
        Value::Float((-0.5f64).to_bits()),
        Value::Bool(true),
    ];
    for l in &values {
        for r in &values {
            let mixed = matches!((l, r), (Value::Int(_), Value::Float(_)) | (Value::Float(_), Value::Int(_)));
            if mixed {
                continue;
            }
            let lt = truth_of(apply_binop(&mut tape, BinOpKind::Lt, l, r));
            let gt = truth_of(apply_binop(&mut tape, BinOpKind::Gt, r, l));
            assert_eq!(lt, gt);
        }
    }
    assert!(truth_of(apply_binop(&mut tape, BinOpKind::Lt, &Value::Int(2), &Value::Int(3))));
    assert!(truth_of(apply_binop(&mut tape, BinOpKind::Gt, &Value::Str("b".to_string()), &Value::Str("a".to_string()))));
    assert_eq!(tape.used(), 0);
}

#[test]
fn split_and_join_on_nothing() {
    assert_eq!(printed("Syng ut: sett saman(del opp(«abc», «»), «»)\n"), vec!["abc"]);
    assert_eq!(printed("Syng ut: sett saman(del opp(«», «»), «»)\n"), vec![""]);
    assert_eq!(printed("Syng ut: del opp(«», «»)\n"), vec!["[, ]"]);
}

#[test]
fn prompts() {
    assert_eq!(prompt(""), "🌅 ");
    assert_eq!(prompt("Syng ut: (\n"), "   ");
}

#[test]
fn repl_quits_on_avslutt() {
    let mut buf = String::from("Syng ut: (\n");
    assert!(matches!(repl_line(&mut buf, "  avslutt \r\n"), ReplStep::Quit));
    assert_eq!(buf, "Syng ut: (\n");
    let mut empty = String::new();
    assert!(matches!(repl_line(&mut empty, "avslutt"), ReplStep::Quit));
    assert_eq!(empty, "");
}

#[test]
fn repl_runs_a_whole_statement() {
    let mut buf = String::new();
    match repl_line(&mut buf, "Syng ut: 1\r\n") {
        ReplStep::Run(p) => assert_eq!(p.len(), 1),
        _ => panic!("expected a program"),
    }
    assert_eq!(buf, "");
}

#[test]
fn repl_gathers_a_block() {
    let mut buf = String::new();
    assert!(matches!(repl_line(&mut buf, "Du kjem ikkje utanom ja:\n"), ReplStep::More));
    assert_eq!(buf, "Du kjem ikkje utanom ja:\n");
    assert_eq!(prompt(&buf), "   ");
    assert!(matches!(repl_line(&mut buf, "    Syng ut: 1\n"), ReplStep::More));
    assert_eq!(buf, "Du kjem ikkje utanom ja:\n    Syng ut: 1\n");
    match repl_line(&mut buf, "Det er nok.\n") {
        ReplStep::Run(p) => assert_eq!(p.len(), 1),
        _ => panic!("expected a program"),
    }
    assert_eq!(buf, "");
}

#[test]
fn repl_reports_on_a_blank_line() {
    let mut buf = String::new();
    assert!(matches!(repl_line(&mut buf, "Syng ut: (\n"), ReplStep::More));
    assert!(matches!(repl_line(&mut buf, "   \n"), ReplStep::Report));
    assert_eq!(buf, "");
    assert!(matches!(repl_line(&mut buf, "Syng ut: «ope\n"), ReplStep::More));
    assert!(matches!(repl_line(&mut buf, "\n"), ReplStep::Report));
    assert_eq!(buf, "");
}

#[test]
fn repl_hangs_on_a_stray_closing_guillemet() {
    let mut buf = String::new();
    assert!(matches!(repl_line(&mut buf, "Syng ut: »\n"), ReplStep::Hang));
}
