use vstd::prelude::*;

verus! {

/// The closed set of PArL value types; `Void` is the type of statements.
#[derive(Debug, Clone, Copy, PartialEq, Eq, Structural)]
pub enum Type {
    Int,
    Float,
    Bool,
    Colour,
    Void,
}

/// The type a type name denotes, if the name is one.
pub open spec fn type_named(name: Seq<char>) -> Option<Type> {
    if name == "int"@ {
        Some(Type::Int)
    } else if name == "float"@ {
        Some(Type::Float)
    } else if name == "bool"@ {
        Some(Type::Bool)
    } else if name == "colour"@ {
        Some(Type::Colour)
    } else {
        None
    }
}

/// Looks a type name up among `int`, `float`, `bool` and `colour`.
pub fn lookup_type_name(name: &String) -> (r: Option<Type>)
    ensures
        r == type_named(name@),
{
    proof {
        reveal_strlit("int");
        reveal_strlit("float");
        reveal_strlit("bool");
        reveal_strlit("colour");
    }
    if *name == "int".to_owned() {
        Some(Type::Int)
    } else if *name == "float".to_owned() {
        Some(Type::Float)
    } else if *name == "bool".to_owned() {
        Some(Type::Bool)
    } else if *name == "colour".to_owned() {
        Some(Type::Colour)
    } else {
        None
    }
}

/// What a function signature states: its return type and its parameters,
/// each as a type and a name, in declaration order.
pub struct SigView {
    pub ret: Type,
    pub params: Seq<(Type, Seq<char>)>,
}

/// The return type and the ordered parameters of a function.
#[derive(Debug, Clone)]
pub struct Signature {
    pub return_type: Type,
    pub parameters: Vec<(Type, String)>,
}

impl View for Signature {
    type V = SigView;

    open spec fn view(&self) -> SigView {
        SigView { ret: self.return_type, params: self.parameters@.map_values(|p: (Type, String)| (p.0, p.1@)) }
    }
}

impl Signature {
    pub fn new(return_type: Type) -> (r: Signature)
        ensures
            r@.ret == return_type,
            r@.params.len() == 0,
    {
        Signature { return_type, parameters: Vec::new() }
    }

    /// A copy of the signature with the same view.
    pub fn duplicate(&self) -> (r: Signature)
        ensures
            r@ == self@,
    {
        let mut parameters: Vec<(Type, String)> = Vec::new();
        let mut i: usize = 0;
        while i < self.parameters.len()
            invariant
                i <= self.parameters.len(),
                parameters@.len() == i,
                forall|j: int| 0 <= j < i ==> #[trigger] parameters@[j].0 == self.parameters@[j].0
                    && parameters@[j].1@ == self.parameters@[j].1@,
            decreases self.parameters.len() - i,
        {
            let p = &self.parameters[i];
            parameters.push((p.0, p.1.clone()));
            i = i + 1;
        }
        let r = Signature { return_type: self.return_type, parameters };
        assert(r@.params =~= self@.params);
        r
    }
}

/// What a symbol is bound to: a value type (the declared type of a variable,
/// or the return type of a function; `None` while unknown), and a signature
/// for a function.
pub struct Binding {
    pub ty: Option<Type>,
    pub sig: Option<SigView>,
}

/// An entry of a symbol table.
#[derive(Debug, Clone)]
pub struct Symbol {
    pub lexeme: String,
    pub ty: Option<Type>,
    pub signature: Option<Signature>,
}

impl Symbol {
    pub open spec fn binding(&self) -> Binding {
        Binding {
            ty: self.ty,
            sig: match self.signature {
                Some(s) => Some(s@),
                None => None,
            },
        }
    }
}

/// The binding of `name` in a table given as its entries in insertion order.
pub open spec fn entry_of(entries: Seq<(Seq<char>, Binding)>, name: Seq<char>) -> Option<Binding>
    decreases entries.len(),
{
    if entries.len() == 0 {
        None
    } else if entries.last().0 == name {
        Some(entries.last().1)
    } else {
        entry_of(entries.drop_last(), name)
    }
}

/// No name occurs twice among the entries.
pub open spec fn names_unique(entries: Seq<(Seq<char>, Binding)>) -> bool {
    forall|i: int, j: int|
        0 <= i < j < entries.len() ==> #[trigger] entries[i].0 != #[trigger] entries[j].0
}

/// One lexical scope: the symbols declared in it, in declaration order.
#[derive(Debug)]
pub struct SymbolTable {
    pub symbols: Vec<Symbol>,
}

impl View for SymbolTable {
    type V = Seq<(Seq<char>, Binding)>;

    open spec fn view(&self) -> Seq<(Seq<char>, Binding)> {
        self.symbols@.map_values(|s: Symbol| (s.lexeme@, s.binding()))
    }
}

proof fn lemma_entry_absent(entries: Seq<(Seq<char>, Binding)>, name: Seq<char>)
    ensures
        entry_of(entries, name) is None <==> forall|i: int|
            0 <= i < entries.len() ==> #[trigger] entries[i].0 != name,
    decreases entries.len(),
{
    if entries.len() > 0 {
        lemma_entry_absent(entries.drop_last(), name);
        if entry_of(entries, name) is None {
            assert forall|i: int| 0 <= i < entries.len() implies #[trigger] entries[i].0 != name by {
                if i < entries.len() - 1 {
                    assert(entries.drop_last()[i] == entries[i]);
                }
            }
        } else if entries.last().0 != name {
            let i = choose|i: int| 0 <= i < entries.len() - 1 && #[trigger] entries.drop_last()[i].0 == name;
            assert(entries[i].0 == name);
        }
    }
}

proof fn lemma_entry_push(entries: Seq<(Seq<char>, Binding)>, e: (Seq<char>, Binding), name: Seq<char>)
    ensures
        entry_of(entries.push(e), name) == if e.0 == name { Some(e.1) } else { entry_of(entries, name) },
{
    assert(entries.push(e).drop_last() =~= entries);
}

impl SymbolTable {
    /// Lexemes are unique within the table.
    pub open spec fn wf(&self) -> bool {
        names_unique(self@)
    }

    pub fn new() -> (r: SymbolTable)
        ensures
            r@ == Seq::<(Seq<char>, Binding)>::empty(),
            r.wf(),
    {
        let r = SymbolTable { symbols: Vec::new() };
        assert(r@ =~= Seq::empty());
        r
    }

    /// The symbol declared under `lexeme`, if any.
    pub fn find_symbol(&self, lexeme: &str) -> (r: Option<&Symbol>)
        ensures
            entry_of(self@, lexeme@) == match r {
                Some(s) => Some(s.binding()),
                None => None,
            },
            r matches Some(s) ==> s.lexeme@ == lexeme@,
    {
        let name = lexeme.to_owned();
        let mut i: usize = self.symbols.len();
        assert(self@.subrange(0, i as int) =~= self@);
        while i > 0
            invariant
                i <= self.symbols.len(),
                name@ == lexeme@,
                entry_of(self@, lexeme@) == entry_of(self@.subrange(0, i as int), lexeme@),
            decreases i,
        {
            let s = &self.symbols[i - 1];
            assert(self@[i - 1] == (s.lexeme@, s.binding()));
            assert(self@.subrange(0, i as int).drop_last() =~= self@.subrange(0, i - 1));
            if s.lexeme == name {
                return Some(s);
            }
            i = i - 1;
        }
        None
    }

    /// Declares `sym` unless its lexeme is already declared here; says
    /// whether it was declared.
    pub fn insert(&mut self, sym: Symbol) -> (added: bool)
        requires
            old(self).wf(),
        ensures
            final(self).wf(),
            added == (entry_of(old(self)@, sym.lexeme@) is None),
            added ==> final(self)@ == old(self)@.push((sym.lexeme@, sym.binding())),
            !added ==> final(self)@ == old(self)@,
    {
        let name = sym.lexeme.clone();
        let present = self.find_symbol(name.as_str()).is_some();
        if present {
            false
        } else {
            proof {
                lemma_entry_absent(self@, sym.lexeme@);
            }
            let ghost e = (sym.lexeme@, sym.binding());
            self.symbols.push(sym);
            assert(self@ =~= old(self)@.push(e));
            true
        }
    }

    /// Declares a variable (or a name whose type is not known yet) unless
    /// the lexeme is already declared here; says whether it was declared.
    pub fn add_symbol(&mut self, lexeme: &str, ty: Option<Type>) -> (added: bool)
        requires
            old(self).wf(),
        ensures
            final(self).wf(),
            added == (entry_of(old(self)@, lexeme@) is None),
            added ==> final(self)@ == old(self)@.push((lexeme@, Binding { ty, sig: None })),
            !added ==> final(self)@ == old(self)@,
    {
        self.insert(Symbol { lexeme: lexeme.to_owned(), ty, signature: None })
    }

    /// Declares a function with its signature unless the lexeme is already
    /// declared here; says whether it was declared.
    pub fn add_function(&mut self, lexeme: &str, signature: Signature) -> (added: bool)
        requires
            old(self).wf(),
        ensures
            final(self).wf(),
            added == (entry_of(old(self)@, lexeme@) is None),
            added ==> final(self)@ == old(self)@.push(
                (lexeme@, Binding { ty: Some(signature@.ret), sig: Some(signature@) }),
            ),
            !added ==> final(self)@ == old(self)@,
    {
        let ret = signature.return_type;
        self.insert(Symbol { lexeme: lexeme.to_owned(), ty: Some(ret), signature: Some(signature) })
    }
}

} // verus!
