use crate::codegen::Instr;
use vstd::prelude::*;
use vstd::string::StringExecFns;

verus! {

/// Relies on `String::push`: the character is appended to the string.
#[verifier::external_body]
pub(crate) fn push_char(s: &mut String, c: char)
    ensures
        final(s)@ == old(s)@.push(c),
{
    s.push(c);
}

pub open spec fn digit_char(d: nat) -> char {
    if d == 0 {
        '0'
    } else if d == 1 {
        '1'
    } else if d == 2 {
        '2'
    } else if d == 3 {
        '3'
    } else if d == 4 {
        '4'
    } else if d == 5 {
        '5'
    } else if d == 6 {
        '6'
    } else if d == 7 {
        '7'
    } else if d == 8 {
        '8'
    } else {
        '9'
    }
}

/// The decimal digits of `n`.
pub open spec fn decimal(n: nat) -> Seq<char>
    decreases n,
{
    if n < 10 {
        seq![digit_char(n)]
    } else {
        decimal(n / 10).push(digit_char(n % 10))
    }
}

fn push_decimal(out: &mut String, n: usize)
    ensures
        final(out)@ == old(out)@ + decimal(n as nat),
    decreases n,
{
    if n >= 10 {
        push_decimal(out, n / 10);
    }
    let d = n % 10;
    let c = if d == 0 {
        '0'
    } else if d == 1 {
        '1'
    } else if d == 2 {
        '2'
    } else if d == 3 {
        '3'
    } else if d == 4 {
        '4'
    } else if d == 5 {
        '5'
    } else if d == 6 {
        '6'
    } else if d == 7 {
        '7'
    } else if d == 8 {
        '8'
    } else {
        '9'
    };
    push_char(out, c);
    assert(out@ =~= old(out)@ + decimal(n as nat));
}

/// The mnemonic of an instruction without operands.
pub open spec fn mnemonic(i: Instr) -> Seq<char> {
    match i {
        Instr::Pop => "pop"@,
        Instr::St => "st"@,
        Instr::Add => "add"@,
        Instr::Sub => "sub"@,
        Instr::Mul => "mul"@,
        Instr::Div => "div"@,
        Instr::Eq => "eq"@,
        Instr::Neq => "neq"@,
        Instr::Lt => "lt"@,
        Instr::Le => "le"@,
        Instr::Gt => "gt"@,
        Instr::Ge => "ge"@,
        Instr::And => "and"@,
        Instr::Or => "or"@,
        Instr::Not => "not"@,
        Instr::Ret => "ret"@,
        Instr::OFrame => "oframe"@,
        Instr::CFrame => "cframe"@,
        Instr::Print => "print"@,
        Instr::Delay => "delay"@,
        Instr::Clear => "clear"@,
        Instr::Width => "width"@,
        Instr::Height => "height"@,
        Instr::Read => "read"@,
        Instr::IRnd => "irnd"@,
        Instr::Write => "write"@,
        Instr::WriteBox => "writebox"@,
        _ => "halt"@,
    }
}

/// One PArIR instruction as text: lowercase mnemonic, space-separated
/// operands, a variable as `[frame-level-delta, slot]`.
pub open spec fn instr_text(i: Instr) -> Seq<char> {
    match i {
        Instr::PushLit(lit) => "push "@ + lit@,
        Instr::PushNum(n) => "push "@ + decimal(n as nat),
        Instr::PushVar(slot, level) => "push ["@ + decimal(level as nat) + ", "@ + decimal(slot as nat) + "]"@,
        Instr::Jmp(a) => "jmp "@ + decimal(a as nat),
        Instr::CJmp(a) => "cjmp "@ + decimal(a as nat),
        Instr::CJmp2(a) => "cjmp2 "@ + decimal(a as nat),
        Instr::Call(a, argc) => "call "@ + decimal(a as nat) + " "@ + decimal(argc as nat),
        Instr::Alloc(n) => "alloc "@ + decimal(n as nat),
        _ => mnemonic(i),
    }
}

/// A program as text: one instruction per line.
pub open spec fn program_text(code: Seq<Instr>) -> Seq<char>
    decreases code.len(),
{
    if code.len() == 0 {
        Seq::empty()
    } else {
        program_text(code.drop_last()) + instr_text(code.last()) + "\n"@
    }
}

/// Appends the text of one instruction.
fn push_instr(out: &mut String, i: &Instr)
    ensures
        final(out)@ == old(out)@ + instr_text(*i),
{
    match i {
        Instr::PushLit(lit) => {
            out.append("push ");
            out.append(lit.as_str());
        },
        Instr::PushNum(n) => {
            out.append("push ");
            push_decimal(out, *n);
        },
        Instr::PushVar(slot, level) => {
            out.append("push [");
            push_decimal(out, *level);
            out.append(", ");
            push_decimal(out, *slot);
            out.append("]");
        },
        Instr::Jmp(a) => {
            out.append("jmp ");
            push_decimal(out, *a);
        },
        Instr::CJmp(a) => {
            out.append("cjmp ");
            push_decimal(out, *a);
        },
        Instr::CJmp2(a) => {
            out.append("cjmp2 ");
            push_decimal(out, *a);
        },
        Instr::Call(a, argc) => {
            out.append("call ");
            push_decimal(out, *a);
            out.append(" ");
            push_decimal(out, *argc);
        },
        Instr::Alloc(n) => {
            out.append("alloc ");
            push_decimal(out, *n);
        },
        Instr::Pop => out.append("pop"),
        Instr::St => out.append("st"),
        Instr::Add => out.append("add"),
        Instr::Sub => out.append("sub"),
        Instr::Mul => out.append("mul"),
        Instr::Div => out.append("div"),
        Instr::Eq => out.append("eq"),
        Instr::Neq => out.append("neq"),
        Instr::Lt => out.append("lt"),
        Instr::Le => out.append("le"),
        Instr::Gt => out.append("gt"),
        Instr::Ge => out.append("ge"),
        Instr::And => out.append("and"),
        Instr::Or => out.append("or"),
        Instr::Not => out.append("not"),
        Instr::Ret => out.append("ret"),
        Instr::OFrame => out.append("oframe"),
        Instr::CFrame => out.append("cframe"),
        Instr::Print => out.append("print"),
        Instr::Delay => out.append("delay"),
        Instr::Clear => out.append("clear"),
        Instr::Width => out.append("width"),
        Instr::Height => out.append("height"),
        Instr::Read => out.append("read"),
        Instr::IRnd => out.append("irnd"),
        Instr::Write => out.append("write"),
        Instr::WriteBox => out.append("writebox"),
        Instr::Halt => out.append("halt"),
    }
    assert(out@ =~= old(out)@ + instr_text(*i));
}

/// The PArIR text of a program: each instruction on its own line.
pub fn render(code: &Vec<Instr>) -> (r: String)
    ensures
        r@ == program_text(code@),
{
    let mut out = String::new();
    let mut i: usize = 0;
    assert(code@.subrange(0, 0) =~= Seq::<Instr>::empty());
    while i < code.len()
        invariant
            i <= code.len(),
            out@ == program_text(code@.subrange(0, i as int)),
        decreases code.len() - i,
    {
        push_instr(&mut out, &code[i]);
        out.append("\n");
        assert(code@.subrange(0, i + 1).drop_last() =~= code@.subrange(0, i as int));
        assert(out@ =~= program_text(code@.subrange(0, i + 1)));
        i = i + 1;
    }
    assert(code@.subrange(0, i as int) =~= code@);
    out
}

} // verus!
