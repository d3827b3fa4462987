use crate::ast::AstNode;
use crate::lowering;
use crate::lowering::{
    count_decls, lookup_variable, lower, lower_args, lower_functions, lower_functions_in, lower_node, lower_seq,
    resolve_calls, with_code, GenState,
};
use crate::tokens::TokenKind;
use vstd::prelude::*;

verus! {

broadcast use vstd::std_specs::vec::axiom_vec_index_decreases;

/// A PArIR instruction. Jump and call operands are instruction addresses.
#[derive(Debug, Clone, PartialEq, Eq)]
pub enum Instr {
    /// Push a literal operand, written as it stands in the source.
    PushLit(String),
    /// Push a number.
    PushNum(usize),
    /// Push the value of slot `slot` in the frame `level` frames out.
    PushVar(usize, usize),
    Pop,
    St,
    Add,
    Sub,
    Mul,
    Div,
    Eq,
    Neq,
    Lt,
    Le,
    Gt,
    Ge,
    And,
    Or,
    Not,
    Jmp(usize),
    CJmp(usize),
    CJmp2(usize),
    /// Call the function at an address with a number of arguments.
    Call(usize, usize),
    Ret,
    Alloc(usize),
    OFrame,
    CFrame,
    Print,
    Delay,
    Clear,
    Width,
    Height,
    Read,
    IRnd,
    Write,
    WriteBox,
    Halt,
}

/// The address an instruction jumps or calls to, if it has one.
pub open spec fn target(i: Instr) -> Option<usize> {
    match i {
        Instr::Jmp(a) => Some(a),
        Instr::CJmp(a) => Some(a),
        Instr::CJmp2(a) => Some(a),
        Instr::Call(a, _) => Some(a),
        _ => None,
    }
}

/// Every jump and call in `code` lands at most `bound`.
pub open spec fn targets_within(code: Seq<Instr>, bound: int) -> bool {
    forall|i: int| 0 <= i < code.len() ==> (#[trigger] target(code[i]) matches Some(a) ==> a <= bound)
}


/// The number of variables `stmts` declare directly.
fn count_declarations(stmts: &Vec<AstNode>) -> (r: usize)
    ensures
        r == count_decls(stmts@),
{
    let mut n: usize = 0;
    let mut i: usize = 0;
    while i < stmts.len()
        invariant
            n <= i <= stmts.len(),
            n == count_decls(stmts@.subrange(0, i as int)),
        decreases stmts.len() - i,
    {
        assert(stmts@.subrange(0, i + 1).drop_last() =~= stmts@.subrange(0, i as int));
        if let AstNode::VarDec { .. } = &stmts[i] {
            n = n + 1;
        }
        i = i + 1;
    }
    assert(stmts@.subrange(0, i as int) =~= stmts@);
    n
}

/// PArIR generator: the code emitted so far, the variables of each open
/// frame (innermost last), function addresses, and calls to resolve.
pub struct CodeGen {
    code: Vec<Instr>,
    frames: Vec<Vec<String>>,
    /// Number of frames open when the function being emitted was entered
    fn_base: usize,
    functions: Vec<(String, usize)>,
    calls: Vec<(usize, String, usize)>,
}

impl View for CodeGen {
    type V = GenState;

    closed spec fn view(&self) -> GenState {
        GenState {
            code: self.code@,
            frames: self.frames@.map_values(|f: Vec<String>| f@.map_values(|n: String| n@)),
            fn_base: self.fn_base as nat,
            functions: self.functions@.map_values(|p: (String, usize)| (p.0@, p.1 as nat)),
            calls: self.calls@.map_values(|c: (usize, String, usize)| (c.0 as nat, c.1@, c.2 as nat)),
        }
    }
}

impl CodeGen {
    /// Jumps land within the code, function addresses lie inside it, and
    /// pending calls name existing instructions.
    pub closed spec fn wf(&self) -> bool {
        &&& targets_within(self.code@, self.code@.len() as int)
        &&& forall|i: int| 0 <= i < self.functions@.len() ==> #[trigger] self.functions@[i].1 < self.code@.len()
        &&& forall|i: int| 0 <= i < self.calls@.len() ==> #[trigger] self.calls@[i].0 < self.code@.len()
    }

    pub closed spec fn len(&self) -> nat {
        self.code@.len()
    }

    fn new() -> (r: Self)
        ensures
            r.wf(),
            r@ == (GenState {
                code: Seq::empty(),
                frames: Seq::empty(),
                fn_base: 0,
                functions: Seq::empty(),
                calls: Seq::empty(),
            }),
    {
        let r = CodeGen { code: Vec::new(), frames: Vec::new(), fn_base: 0, functions: Vec::new(), calls: Vec::new() };
        assert(r@.code =~= Seq::empty());
        assert(r@.frames =~= Seq::empty());
        assert(r@.functions =~= Seq::empty());
        assert(r@.calls =~= Seq::empty());
        r
    }

    /// Appends an instruction whose target, if any, is at most the current
    /// length.
    fn emit(&mut self, i: Instr)
        requires
            old(self).wf(),
            target(i) matches Some(a) ==> a <= old(self).code@.len(),
        ensures
            final(self).wf(),
            final(self).code@ == old(self).code@.push(i),
            final(self)@ == lowering::emit(old(self)@, i),
            target(i) is None ==> targets_within(final(self).code@, old(self).code@.len() as int),
            final(self).frames == old(self).frames,
            final(self).fn_base == old(self).fn_base,
    {
        self.code.push(i);
        assert(targets_within(self.code@, self.code@.len() as int)) by {
            assert forall|k: int| 0 <= k < self.code@.len() implies (#[trigger] target(self.code@[k]) matches Some(
                a,
            ) ==> a <= self.code@.len()) by {
                if k < old(self).code@.len() {
                    assert(self.code@[k] == old(self).code@[k]);
                }
            }
        }
        assert(target(i) is None ==> targets_within(self.code@, old(self).code@.len() as int)) by {
            assert forall|k: int| 0 <= k < self.code@.len() implies (#[trigger] target(self.code@[k]) matches Some(
                a,
            ) ==> a <= old(self).code@.len()) by {
                if k < old(self).code@.len() {
                    assert(self.code@[k] == old(self).code@[k]);
                }
            }
        }
    }

    /// Points the jump at `at` to the current end of the code: a `jmp`
    /// (kind 0), `cjmp2` (kind 1) or `cjmp` (otherwise).
    fn patch(&mut self, at: usize, instr_kind: u8)
        requires
            old(self).wf(),
            at < old(self).code@.len(),
        ensures
            final(self).wf(),
            final(self).code@.len() == old(self).code@.len(),
            final(self)@ == lowering::patch(old(self)@, at as nat, instr_kind),
            final(self).frames == old(self).frames,
            final(self).fn_base == old(self).fn_base,
    {
        let here = self.code.len();
        let i = if instr_kind == 0 {
            Instr::Jmp(here)
        } else if instr_kind == 1 {
            Instr::CJmp2(here)
        } else {
            Instr::CJmp(here)
        };
        self.code.set(at, i);
        assert(self@ =~= lowering::patch(old(self)@, at as nat, instr_kind));
        assert(targets_within(self.code@, self.code@.len() as int)) by {
            assert forall|k: int| 0 <= k < self.code@.len() implies (#[trigger] target(self.code@[k]) matches Some(
                a,
            ) ==> a <= self.code@.len()) by {
                if k != at {
                    assert(self.code@[k] == old(self).code@[k]);
                }
            }
        }
    }

    /// The first slot of `frame` that holds `name`.
    fn slot_in(frame: &Vec<String>, name: &String) -> (r: Option<usize>)
        ensures
            match lowering::slot_of(frame@.map_values(|n: String| n@), name@, 0) {
                Some(j) => r == Some(j as usize) && j < frame.len(),
                None => r is None,
            },
    {
        let ghost f = frame@.map_values(|n: String| n@);
        let mut j: usize = 0;
        while j < frame.len()
            invariant
                j <= frame.len(),
                f == frame@.map_values(|n: String| n@),
                lowering::slot_of(f, name@, 0) == lowering::slot_of(f, name@, j as int),
            decreases frame.len() - j,
        {
            if frame[j] == *name {
                return Some(j);
            }
            j = j + 1;
        }
        None
    }

    /// The frame distance and slot of the innermost variable `name` visible
    /// from the current function.
    fn find_variable(&self, name: &String) -> (r: Option<(usize, usize)>)
        ensures
            match lookup_variable(self@, name@) {
                Some((l, sl)) => r == Some((l as usize, sl as usize)),
                None => r is None,
            },
    {
        let n = self.frames.len();
        let mut i = n;
        while i > self.fn_base && i > 0
            invariant
                i <= n,
                n == self.frames.len(),
                lookup_variable(self@, name@) == lowering::find_variable(
                    self@.frames,
                    self@.fn_base,
                    i as int,
                    name@,
                ),
            decreases i,
        {
            assert(self@.frames[i - 1] == self.frames@[i - 1]@.map_values(|n: String| n@));
            match Self::slot_in(&self.frames[i - 1], name) {
                Some(j) => {
                    return Some((n - i, j));
                },
                None => {},
            }
            i = i - 1;
        }
        None
    }

    fn open_frame(&mut self, size: usize)
        requires
            old(self).wf(),
        ensures
            final(self).wf(),
            final(self)@ == lowering::open_frame(old(self)@, size as nat),
    {
        self.emit(Instr::PushNum(size));
        self.emit(Instr::OFrame);
        let ghost mid = self@;
        let fresh: Vec<String> = Vec::new();
        assert(fresh@.map_values(|n: String| n@) =~= Seq::<Seq<char>>::empty());
        self.frames.push(fresh);
        assert(self@.frames =~= mid.frames.push(Seq::empty()));
        assert(self@ =~= lowering::open_frame(old(self)@, size as nat));
    }

    fn close_frame(&mut self)
        requires
            old(self).wf(),
        ensures
            final(self).wf(),
            final(self)@ == lowering::close_frame(old(self)@),
    {
        self.emit(Instr::CFrame);
        let ghost mid = self@;
        let _ = self.frames.pop();
        assert(mid.frames.len() > 0 ==> self@.frames =~= mid.frames.drop_last());
        assert(mid.frames.len() == 0 ==> self@.frames =~= mid.frames);
        assert(self@ =~= lowering::close_frame(old(self)@));
    }

    /// Stores the top of the stack into the variable `name`.
    fn store(&mut self, name: &String)
        requires
            old(self).wf(),
        ensures
            final(self).wf(),
            final(self)@ == lowering::store(old(self)@, name@),
    {
        let (level, slot) = match self.find_variable(name) {
            Some(at) => at,
            None => (0, 0),
        };
        self.emit(Instr::PushNum(slot));
        self.emit(Instr::PushNum(level));
        self.emit(Instr::St);
    }

    /// Declares `name` in the innermost frame, in the next slot.
    fn declare(&mut self, name: &String)
        requires
            old(self).wf(),
        ensures
            final(self).wf(),
            final(self)@ == lowering::declare(old(self)@, name@),
    {
        let n = self.frames.len();
        if n > 0 {
            let mut top = self.frames.pop().unwrap();
            let ghost old_top = top@.map_values(|x: String| x@);
            top.push(name.clone());
            assert(top@.map_values(|x: String| x@) =~= old_top.push(name@));
            self.frames.push(top);
            assert(self@.frames =~= old(self)@.frames.update(n - 1, old(self)@.frames.last().push(name@)));
        }
        assert(self@ =~= lowering::declare(old(self)@, name@));
    }

    /// Emits the statements of `stmts` in order, function declarations
    /// aside.
    fn gen_stmts(&mut self, stmts: &Vec<AstNode>)
        requires
            old(self).wf(),
        ensures
            final(self).wf(),
            final(self).len() >= old(self).len(),
            final(self)@ == lower_seq(old(self)@, *stmts, 0),
        decreases stmts, 0int,
    {
        let mut i: usize = 0;
        while i < stmts.len()
            invariant
                self.wf(),
                self.len() >= old(self).len(),
                i <= stmts.len(),
                lower_seq(old(self)@, *stmts, 0) == lower_seq(self@, *stmts, i as int),
            decreases stmts.len() - i,
        {
            proof {
                assert(decreases_to!(*stmts => stmts[i as int]));
            }
            self.gen(&stmts[i]);
            i = i + 1;
        }
    }

    /// Emits the code of `node`; function declarations are emitted after
    /// the program's `halt`.
    fn gen(&mut self, node: &AstNode)
        requires
            old(self).wf(),
        ensures
            final(self).wf(),
            final(self).len() >= old(self).len(),
            final(self)@ == lower_node(old(self)@, *node),
        decreases node, 1int,
    {
        match node {
            AstNode::Program { statements } => {
                proof {
                    assert(decreases_to!(*node => node->Program_statements));
                }
                self.gen_stmts(statements);
            },
            AstNode::Block { statements } => {
                proof {
                    assert(decreases_to!(*node => node->Block_statements));
                }
                let size = count_declarations(statements);
                self.open_frame(size);
                self.gen_stmts(statements);
                self.close_frame();
            },
            AstNode::FunctionDecl { .. } => {},
            AstNode::FormalParam { .. } => {},
            AstNode::EndOfFile => {},
            AstNode::VarDec { identifier, expression, .. } => {
                self.gen(expression);
                self.declare(&identifier.span.lexeme);
                self.store(&identifier.span.lexeme);
            },
            AstNode::Assignment { identifier, expression } => {
                self.gen(expression);
                self.store(&identifier.span.lexeme);
            },
            AstNode::Identifier { token } => {
                match self.find_variable(&token.span.lexeme) {
                    Some((level, slot)) => self.emit(Instr::PushVar(slot, level)),
                    None => self.emit(Instr::PushNum(0)),
                }
            },
            AstNode::IntLiteral(t) => self.emit(Instr::PushLit(t.span.lexeme.clone())),
            AstNode::FloatLiteral(t) => self.emit(Instr::PushLit(t.span.lexeme.clone())),
            AstNode::ColourLiteral(t) => self.emit(Instr::PushLit(t.span.lexeme.clone())),
            AstNode::BoolLiteral(t) => {
                if t.span.lexeme == "true".to_owned() {
                    self.emit(Instr::PushNum(1));
                } else {
                    self.emit(Instr::PushNum(0));
                }
            },
            AstNode::Expression { expr, .. } => self.gen(expr),
            AstNode::UnaryOp { operator, expr } => {
                if operator.kind == TokenKind::Not {
                    self.gen(expr);
                    self.emit(Instr::Not);
                } else {
                    self.emit(Instr::PushNum(0));
                    self.gen(expr);
                    self.emit(Instr::Sub);
                }
            },
            AstNode::BinOp { .. } => self.gen_bin_op(node),
            AstNode::FunctionCall { .. } => self.gen_call(node),
            AstNode::If { .. } => self.gen_if(node),
            AstNode::While { .. } => self.gen_while(node),
            AstNode::For { .. } => self.gen_for(node),
            AstNode::Return { expression } => {
                self.gen(expression);
                let ghost mid = self@;
                let ghost k0: nat = if mid.frames.len() > mid.fn_base {
                    (mid.frames.len() - mid.fn_base) as nat
                } else {
                    0
                };
                let mut open = self.frames.len();
                while open > self.fn_base
                    invariant
                        self.wf(),
                        self.len() >= old(self).len(),
                        self.fn_base == mid.fn_base,
                        open <= mid.frames.len(),
                        lowering::emit_n(mid, Instr::CFrame, k0) == lowering::emit_n(
                            self@,
                            Instr::CFrame,
                            if open > self.fn_base {
                                (open - self.fn_base) as nat
                            } else {
                                0
                            },
                        ),
                    decreases open,
                {
                    self.emit(Instr::CFrame);
                    open = open - 1;
                }
                self.emit(Instr::Ret);
            },
            AstNode::Print { expression } => {
                self.gen(expression);
                self.emit(Instr::Print);
            },
            AstNode::Delay { expression } => {
                self.gen(expression);
                self.emit(Instr::Delay);
            },
            AstNode::PadClear { expr } => {
                self.gen(expr);
                self.emit(Instr::Clear);
            },
            AstNode::PadRandI { upper_bound } => {
                self.gen(upper_bound);
                self.emit(Instr::IRnd);
            },
            AstNode::PadWidth => self.emit(Instr::Width),
            AstNode::PadHeight => self.emit(Instr::Height),
            AstNode::PadRead { x, y } => {
                self.gen(y);
                self.gen(x);
                self.emit(Instr::Read);
            },
            AstNode::PadWrite { .. } => self.gen_pad_write(node),
            AstNode::PadWriteBox { .. } => self.gen_pad_write(node),
        }
    }

    fn gen_bin_op(&mut self, node: &AstNode)
        requires
            old(self).wf(),
            *node is BinOp,
        ensures
            final(self).wf(),
            final(self).len() >= old(self).len(),
            final(self)@ == lower_node(old(self)@, *node),
        decreases node, 0int,
    {
        if let AstNode::BinOp { left, operator, right } = node {
            let k = operator.kind;
            if k == TokenKind::And || k == TokenKind::Or {
                // Short circuit: the right operand runs only when the left
                // one does not decide.
                self.gen(left);
                let decide = self.code.len();
                if k == TokenKind::And {
                    self.emit(Instr::CJmp2(0));
                } else {
                    self.emit(Instr::CJmp(0));
                }
                self.gen(right);
                let skip = self.code.len();
                self.emit(Instr::Jmp(0));
                self.patch(decide, if k == TokenKind::And { 1 } else { 2 });
                if k == TokenKind::And {
                    self.emit(Instr::PushNum(0));
                } else {
                    self.emit(Instr::PushNum(1));
                }
                self.patch(skip, 0);
            } else {
                self.gen(left);
                self.gen(right);
                let i = match k {
                    TokenKind::Plus => Instr::Add,
                    TokenKind::Minus => Instr::Sub,
                    TokenKind::Multiply => Instr::Mul,
                    TokenKind::Divide => Instr::Div,
                    TokenKind::EqEq => Instr::Eq,
                    TokenKind::NotEqual => Instr::Neq,
                    TokenKind::LessThan => Instr::Lt,
                    TokenKind::LessThanEqual => Instr::Le,
                    TokenKind::GreaterThan => Instr::Gt,
                    _ => Instr::Ge,
                };
                self.emit(i);
            }
        }
    }

    fn gen_call(&mut self, node: &AstNode)
        requires
            old(self).wf(),
            *node is FunctionCall,
        ensures
            final(self).wf(),
            final(self).len() >= old(self).len(),
            final(self)@ == lower_node(old(self)@, *node),
        decreases node, 0int,
    {
        if let AstNode::FunctionCall { identifier, args } = node {
            proof {
                assert(decreases_to!(*node => node->FunctionCall_args));
            }
            let mut i = args.len();
            while i > 0
                invariant
                    self.wf(),
                    self.len() >= old(self).len(),
                    i <= args.len(),
                    *node == (AstNode::FunctionCall { identifier: *identifier, args: *args }),
                    lower_args(old(self)@, *args, args.len() as int) == lower_args(self@, *args, i as int),
                decreases i,
            {
                proof {
                    assert(decreases_to!(*node => node->FunctionCall_args));
                    assert(decreases_to!(*args => args[i - 1]));
                }
                self.gen(&args[i - 1]);
                i = i - 1;
            }
            let at = self.code.len();
            self.emit(Instr::Call(0, args.len()));
            let ghost mid = self@;
            self.calls.push((at, identifier.span.lexeme.clone(), args.len()));
            assert(self@.calls =~= mid.calls.push((at as nat, identifier.span.lexeme@, args.len() as nat)));
            assert(self@ =~= (GenState {
                code: mid.code,
                frames: mid.frames,
                fn_base: mid.fn_base,
                functions: mid.functions,
                calls: mid.calls.push((at as nat, identifier.span.lexeme@, args.len() as nat)),
            }));
        }
    }

    fn gen_if(&mut self, node: &AstNode)
        requires
            old(self).wf(),
            *node is If,
        ensures
            final(self).wf(),
            final(self).len() >= old(self).len(),
            final(self)@ == lower_node(old(self)@, *node),
        decreases node, 0int,
    {
        if let AstNode::If { condition, if_true, if_false } = node {
            self.gen(condition);
            let to_else = self.code.len();
            self.emit(Instr::CJmp2(0));
            self.gen(if_true);
            match if_false {
                Some(f) => {
                    let to_end = self.code.len();
                    self.emit(Instr::Jmp(0));
                    self.patch(to_else, 1);
                    self.gen(f);
                    self.patch(to_end, 0);
                },
                None => self.patch(to_else, 1),
            }
        }
    }

    fn gen_while(&mut self, node: &AstNode)
        requires
            old(self).wf(),
            *node is While,
        ensures
            final(self).wf(),
            final(self).len() >= old(self).len(),
            final(self)@ == lower_node(old(self)@, *node),
        decreases node, 0int,
    {
        if let AstNode::While { condition, body } = node {
            let top = self.code.len();
            self.gen(condition);
            let to_end = self.code.len();
            self.emit(Instr::CJmp2(0));
            self.gen(body);
            self.emit(Instr::Jmp(top));
            self.patch(to_end, 1);
        }
    }

    fn gen_for(&mut self, node: &AstNode)
        requires
            old(self).wf(),
            *node is For,
        ensures
            final(self).wf(),
            final(self).len() >= old(self).len(),
            final(self)@ == lower_node(old(self)@, *node),
        decreases node, 0int,
    {
        if let AstNode::For { initializer, condition, increment, body } = node {
            let size: usize = if initializer.is_some() { 1 } else { 0 };
            self.open_frame(size);
            if let Some(init) = initializer {
                self.gen(init);
            }
            let top = self.code.len();
            self.gen(condition);
            let to_end = self.code.len();
            self.emit(Instr::CJmp2(0));
            self.gen(body);
            if let Some(inc) = increment {
                self.gen(inc);
            }
            self.emit(Instr::Jmp(top));
            self.patch(to_end, 1);
            self.close_frame();
        }
    }

    fn gen_pad_write(&mut self, node: &AstNode)
        requires
            old(self).wf(),
            *node is PadWrite || *node is PadWriteBox,
        ensures
            final(self).wf(),
            final(self).len() >= old(self).len(),
            final(self)@ == lower_node(old(self)@, *node),
        decreases node, 0int,
    {
        match node {
            AstNode::PadWrite { loc_x, loc_y, colour } => {
                self.gen(colour);
                self.gen(loc_y);
                self.gen(loc_x);
                self.emit(Instr::Write);
            },
            AstNode::PadWriteBox { loc_x, loc_y, width, height, colour } => {
                self.gen(colour);
                self.gen(height);
                self.gen(width);
                self.gen(loc_y);
                self.gen(loc_x);
                self.emit(Instr::WriteBox);
            },
            _ => {},
        }
    }

    /// Every jump and call lands on an instruction.
    pub closed spec fn closed(&self) -> bool {
        self.code@.len() > 0 && targets_within(self.code@, self.code@.len() - 1)
    }

    /// Emits the body of every function declared in `stmts`, at any depth.
    fn gen_functions(&mut self, stmts: &Vec<AstNode>)
        requires
            old(self).wf(),
            old(self).closed(),
        ensures
            final(self).wf(),
            final(self).closed(),
            final(self)@ == lower_functions(old(self)@, *stmts, 0),
        decreases stmts, 0int,
    {
        let mut i: usize = 0;
        while i < stmts.len()
            invariant
                self.wf(),
                self.closed(),
                i <= stmts.len(),
                lower_functions(old(self)@, *stmts, 0) == lower_functions(self@, *stmts, i as int),
            decreases stmts.len() - i,
        {
            proof {
                assert(decreases_to!(*stmts => stmts[i as int]));
            }
            self.gen_function_in(&stmts[i]);
            i = i + 1;
        }
    }

    /// Emits the functions declared in the statement `node`.
    fn gen_function_in(&mut self, node: &AstNode)
        requires
            old(self).wf(),
            old(self).closed(),
        ensures
            final(self).wf(),
            final(self).closed(),
            final(self)@ == lower_functions_in(old(self)@, *node),
        decreases node, 1int,
    {
        match node {
            AstNode::FunctionDecl { identifier, params, block, .. } => {
                let address = self.code.len();
                let saved_base = self.fn_base;
                self.fn_base = self.frames.len();
                let mut names: Vec<String> = Vec::new();
                let mut k: usize = 0;
                assert(names@.map_values(|n: String| n@) =~= lowering::param_names(params@.subrange(0, 0)));
                while k < params.len()
                    invariant
                        k <= params.len(),
                        names@.map_values(|n: String| n@) == lowering::param_names(params@.subrange(0, k as int)),
                    decreases params.len() - k,
                {
                    assert(params@.subrange(0, k + 1).drop_last() =~= params@.subrange(0, k as int));
                    let ghost before = names@.map_values(|n: String| n@);
                    if let AstNode::FormalParam { identifier, .. } = &params[k] {
                        names.push(identifier.span.lexeme.clone());
                        assert(names@.map_values(|n: String| n@) =~= before.push(identifier.span.lexeme@));
                    }
                    k = k + 1;
                }
                assert(params@.subrange(0, k as int) =~= params@);
                let ghost pushed = GenState {
                    code: old(self)@.code,
                    frames: old(self)@.frames.push(lowering::param_names(params@)),
                    fn_base: old(self)@.frames.len(),
                    functions: old(self)@.functions,
                    calls: old(self)@.calls,
                };
                let names_len = names.len();
                self.frames.push(names);
                assert(self@.frames =~= old(self)@.frames.push(lowering::param_names(params@)));
                assert(self@.code =~= old(self)@.code);
                assert(self@.functions =~= old(self)@.functions);
                assert(self@.calls =~= old(self)@.calls);
                assert(self@ =~= pushed);
                match &**block {
                    AstNode::Block { statements } => {
                        proof {
                            assert(decreases_to!(*node => node->FunctionDecl_block));
                            assert(decreases_to!(*node->FunctionDecl_block => node->FunctionDecl_block->Block_statements));
                        }
                        let size = names_len.saturating_add(count_declarations(statements));
                        self.emit(Instr::PushNum(size));
                        self.emit(Instr::OFrame);
                        let ghost s1 = self@;
                        self.functions.push((identifier.span.lexeme.clone(), address));
                        assert(self@.functions =~= s1.functions.push((identifier.span.lexeme@, address as nat)));
                        self.gen_stmts(statements);
                        self.emit(Instr::CFrame);
                        self.emit(Instr::Ret);
                        let ghost s4 = self@;
                        let _ = self.frames.pop();
                        self.fn_base = saved_base;
                        assert(s4.frames.len() > 0 ==> self@.frames =~= s4.frames.drop_last());
                        assert(s4.frames.len() == 0 ==> self@.frames =~= s4.frames);
                        self.gen_functions(statements);
                    },
                    _ => {
                        let _ = self.frames.pop();
                        self.fn_base = saved_base;
                        assert(self@.frames =~= old(self)@.frames);
                        assert(self@ =~= old(self)@);
                    },
                }
            },
            AstNode::Block { statements } => {
                proof {
                    assert(decreases_to!(*node => node->Block_statements));
                }
                self.gen_functions(statements);
            },
            AstNode::If { if_true, if_false, .. } => {
                self.gen_function_in(if_true);
                if let Some(f) = if_false {
                    self.gen_function_in(f);
                }
            },
            AstNode::While { body, .. } => self.gen_function_in(body),
            AstNode::For { body, .. } => self.gen_function_in(body),
            _ => {},
        }
    }

    /// The address of the function `name`, if one was emitted.
    fn function_address(&self, name: &String) -> (r: Option<usize>)
        ensures
            self.wf() ==> (r matches Some(a) ==> a < self.code@.len()),
            match lowering::function_address(self@.functions, name@, 0) {
                Some(a) => r == Some(a as usize),
                None => r is None,
            },
    {
        let mut i: usize = 0;
        while i < self.functions.len()
            invariant
                i <= self.functions.len(),
                lowering::function_address(self@.functions, name@, 0) == lowering::function_address(
                    self@.functions,
                    name@,
                    i as int,
                ),
            decreases self.functions.len() - i,
        {
            if self.functions[i].0 == *name {
                return Some(self.functions[i].1);
            }
            i = i + 1;
        }
        None
    }

    /// Sets the call at `at` to the function at `address`.
    fn resolve_call(&mut self, at: usize, address: usize, argc: usize)
        requires
            old(self).wf(),
            old(self).closed(),
            at < old(self).code@.len(),
            address < old(self).code@.len(),
        ensures
            final(self).wf(),
            final(self).closed(),
            final(self).calls == old(self).calls,
            final(self)@ == with_code(old(self)@, old(self)@.code.update(at as int, Instr::Call(address, argc))),
    {
        self.code.set(at, Instr::Call(address, argc));
        assert(self@ =~= with_code(old(self)@, old(self)@.code.update(at as int, Instr::Call(address, argc))));
        assert forall|k: int| 0 <= k < self.code@.len() implies (#[trigger] target(self.code@[k]) matches Some(a)
            ==> a <= self.code@.len() - 1) by {
            if k != at {
                assert(self.code@[k] == old(self).code@[k]);
            }
        }
    }
}

/// Compiles a program to PArIR: the top-level statements, `halt`,
/// then the body of each function. Every `jmp`, `cjmp`, `cjmp2` and
/// `call` in the result lands on one of its instructions.
pub fn generate(ast: &AstNode) -> (r: Vec<Instr>)
    ensures
        r@ == lower(*ast),
        r.len() > 0,
        forall|i: int| 0 <= i < r@.len() ==> (#[trigger] target(r@[i]) matches Some(a) ==> a < r@.len()),
{
    let mut g = CodeGen::new();
    let fresh: Vec<String> = Vec::new();
    assert(fresh@.map_values(|n: String| n@) =~= Seq::<Seq<char>>::empty());
    g.frames.push(fresh);
    assert(g@.frames =~= seq![Seq::<Seq<char>>::empty()]);
    g.gen(ast);
    g.emit(Instr::Halt);
    if let AstNode::Program { statements } = ast {
        g.gen_functions(statements);
    }
    let ghost s2 = g@;
    let mut i: usize = 0;
    while i < g.calls.len()
        invariant
            g.wf(),
            g.closed(),
            i <= g.calls.len(),
            g@.calls == s2.calls,
            g@.functions == s2.functions,
            resolve_calls(s2, 0) == resolve_calls(g@, i as int),
        decreases g.calls.len() - i,
    {
        let (at, argc) = (g.calls[i].0, g.calls[i].2);
        assert(g@.calls[i as int] == (at as nat, g.calls@[i as int].1@, argc as nat));
        let address = match g.function_address(&g.calls[i].1) {
            Some(a) => a,
            None => 0,
        };
        g.resolve_call(at, address, argc);
        i = i + 1;
    }
    g.code
}

} // verus!
