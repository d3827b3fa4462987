use parl::codegen::{generate, Instr};
use parl::lexer::lex;
use parl::parser::parse;

fn compile(src: &str) -> Vec<Instr> {
    let tokens = lex(&src.chars().collect()).unwrap();
    let ast = parse(&tokens, &"gen.parl".to_string()).unwrap();
    generate(&ast)
}

fn targets_in_range(code: &[Instr]) -> bool {
    code.iter().all(|i| match i {
        Instr::Jmp(a) | Instr::CJmp(a) | Instr::CJmp2(a) | Instr::Call(a, _) => *a < code.len(),
        _ => true,
    })
}

#[test]
fn declaration_compiles_to_store_and_halt() {
    assert_eq!(
        compile("let x: int = 5;"),
        vec![Instr::PushLit("5".to_string()), Instr::PushNum(0), Instr::PushNum(0), Instr::St, Instr::Halt]
    );
}

#[test]
fn call_pushes_argument_then_calls_function_body() {
    let code = compile("fun f(a: int) -> int { return a + 1; } let y: int = f(2);");
    let call_at = code.iter().position(|i| matches!(i, Instr::Call(_, 1))).unwrap();
    assert_eq!(code[call_at - 1], Instr::PushLit("2".to_string()));
    let halt_at = code.iter().position(|i| *i == Instr::Halt).unwrap();
    assert!(call_at < halt_at);
    let Instr::Call(address, argc) = code[call_at] else { panic!() };
    assert_eq!(argc, 1);
    assert!(address > halt_at);
    assert_eq!(code[address], Instr::PushNum(1));
    assert_eq!(code[address + 1], Instr::OFrame);
    assert_eq!(code[address + 2], Instr::PushVar(0, 0));
    assert_eq!(code[code.len() - 1], Instr::Ret);
    assert!(targets_in_range(&code));
}

#[test]
fn while_loop_jumps_back_to_its_condition() {
    let code = compile("let x: int = 0; while (x < 10) { x = x + 1; }");
    let top = 4;
    assert_eq!(code[top], Instr::PushVar(0, 0));
    let exit_at = code.iter().position(|i| matches!(i, Instr::CJmp2(_))).unwrap();
    let back_at = code.iter().position(|i| matches!(i, Instr::Jmp(_))).unwrap();
    assert!(exit_at < back_at);
    assert_eq!(code[back_at], Instr::Jmp(top));
    assert_eq!(code[exit_at], Instr::CJmp2(back_at + 1));
    assert_eq!(code[back_at + 1], Instr::Halt);
    assert!(targets_in_range(&code));
}

#[test]
fn generation_is_deterministic() {
    let src = "fun g(a: int, b: bool) -> int { if (b and a < 3) { return a; } else { return 0; } } \
               for (let i: int = 0; i < 3; i = i + 1) { __print g(i, true or false); }";
    let first = compile(src);
    assert_eq!(first, compile(src));
    assert!(targets_in_range(&first));
}

#[test]
fn short_circuit_uses_conditional_jumps() {
    let code = compile("let b: bool = true and false;");
    assert!(code.iter().any(|i| matches!(i, Instr::CJmp2(_))));
    assert!(!code.iter().any(|i| *i == Instr::And));
    assert!(targets_in_range(&code));
}

#[test]
fn declaration_renders_as_parir_text() {
    let text = parl::text::render(&compile("let x: int = 5;"));
    assert_eq!(text, "push 5\npush 0\npush 0\nst\nhalt\n");
}

#[test]
fn variables_and_jumps_render_with_operands() {
    let code = vec![Instr::PushVar(3, 12), Instr::CJmp2(10), Instr::Call(7, 2), Instr::Alloc(0), Instr::Ret];
    assert_eq!(
        parl::text::render(&code),
        "push [12, 3]\ncjmp2 10\ncall 7 2\nalloc 0\nret\n"
    );
}
