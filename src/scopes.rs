use crate::symbols::{Symbol, SymbolTable};
use crate::typing::{declare_at, lookup, pop_env, push_scope, top_has, truncate_env, with_env, TcState};
use vstd::prelude::*;

verus! {

/// A stack of lexical scopes, innermost last, with the flag and the bound
/// that the capture rule needs.
#[derive(Debug)]
pub struct ScopeStack {
    /// Stack of symbol tables, each representing a scope
    tables: Vec<SymbolTable>,
    /// Whether the node being visited lies within a function body
    inside_function: bool,
    /// Inside a function body, the lowest scope a name may resolve to
    peek_limit: usize,
}

impl View for ScopeStack {
    type V = TcState;

    closed spec fn view(&self) -> TcState {
        TcState {
            env: self.tables@.map_values(|t: SymbolTable| t@),
            in_fn: self.inside_function,
            limit: self.peek_limit as nat,
        }
    }
}

impl ScopeStack {
    /// Every scope holds each lexeme at most once.
    pub closed spec fn inv(&self) -> bool {
        forall|i: int| 0 <= i < self.tables@.len() ==> #[trigger] self.tables@[i].wf()
    }

    pub fn new() -> (r: Self)
        ensures
            r.inv(),
            r@ == (TcState { env: Seq::empty(), in_fn: false, limit: 0 }),
    {
        let r = ScopeStack { tables: Vec::new(), inside_function: false, peek_limit: 0 };
        assert(r@.env =~= Seq::empty());
        r
    }

    pub fn depth(&self) -> (r: usize)
        ensures
            r == self@.env.len(),
    {
        self.tables.len()
    }

    pub fn inside_function(&self) -> (r: bool)
        ensures
            r == self@.in_fn,
    {
        self.inside_function
    }

    pub fn peek_limit(&self) -> (r: usize)
        ensures
            r == self@.limit,
    {
        self.peek_limit
    }

    pub fn set_flags(&mut self, inside_function: bool, peek_limit: usize)
        requires
            old(self).inv(),
        ensures
            final(self).inv(),
            final(self)@ == (TcState { env: old(self)@.env, in_fn: inside_function, limit: peek_limit as nat }),
    {
        self.inside_function = inside_function;
        self.peek_limit = peek_limit;
    }

    /// Whether the innermost scope declares `name`.
    pub fn top_has(&self, name: &String) -> (r: bool)
        ensures
            r == top_has(self@.env, name@),
    {
        let n = self.tables.len();
        if n == 0 {
            false
        } else {
            assert(self@.env.last() == self.tables@[n - 1]@);
            self.tables[n - 1].find_symbol(name.as_str()).is_some()
        }
    }

    /// Drops every scope above the first `depth`.
    pub fn truncate(&mut self, depth: usize)
        requires
            old(self).inv(),
        ensures
            final(self).inv(),
            final(self)@ == with_env(old(self)@, truncate_env(old(self)@.env, depth as nat)),
    {
        self.tables.truncate(depth);
        assert(self@.env =~= truncate_env(old(self)@.env, depth as nat));
    }

    /// The innermost symbol that `name` resolves to among the scopes with
    /// index at least `lo`.
    pub fn find_from(&self, lo: usize, name: &String) -> (r: Option<&Symbol>)
        ensures
            match r {
                Some(s) => lookup(self@.env, lo as int, name@) == Some(s.binding()),
                None => lookup(self@.env, lo as int, name@) is None,
            },
    {
        let ghost env = self@.env;
        let mut i: usize = self.tables.len();
        assert(env.subrange(0, i as int) =~= env);
        while i > lo
            invariant
                i <= self.tables.len(),
                env == self@.env,
                lookup(env, lo as int, name@) == lookup(env.subrange(0, i as int), lo as int, name@),
            decreases i,
        {
            let t = &self.tables[i - 1];
            assert(env.subrange(0, i as int).drop_last() =~= env.subrange(0, i - 1));
            assert(env.subrange(0, i as int).last() == t@);
            match t.find_symbol(name.as_str()) {
                Some(s) => {
                    return Some(s);
                },
                None => {},
            }
            i = i - 1;
        }
        None
    }

    pub fn push(&mut self)
        requires
            old(self).inv(),
        ensures
            final(self).inv(),
            final(self)@ == push_scope(old(self)@),
    {
        self.tables.push(SymbolTable::new());
        assert(self@.env =~= old(self)@.env.push(Seq::empty()));
    }

    pub fn pop(&mut self)
        requires
            old(self).inv(),
        ensures
            final(self).inv(),
            final(self)@ == with_env(old(self)@, pop_env(old(self)@.env)),
    {
        let _ = self.tables.pop();
        assert(self@.env =~= pop_env(old(self)@.env));
    }

    /// Declares `sym` in scope `idx` unless that scope already declares it.
    pub fn declare_in(&mut self, idx: usize, sym: Symbol)
        requires
            old(self).inv(),
        ensures
            final(self).inv(),
            final(self)@ == with_env(
                old(self)@,
                declare_at(old(self)@.env, idx as int, sym.lexeme@, sym.binding()),
            ),
    {
        let n = self.tables.len();
        if idx >= n {
            return;
        }
        let mut above: Vec<SymbolTable> = Vec::new();
        while self.tables.len() > idx + 1
            invariant
                idx < self.tables.len() <= n,
                n == old(self).tables.len(),
                self.tables@ + above@.reverse() == old(self).tables@,
                forall|i: int| 0 <= i < self.tables@.len() ==> #[trigger] self.tables@[i].wf(),
                forall|i: int| 0 <= i < above@.len() ==> #[trigger] above@[i].wf(),
                self.inside_function == old(self).inside_function,
                self.peek_limit == old(self).peek_limit,
            decreases self.tables.len(),
        {
            let t = self.tables.pop().unwrap();
            above.push(t);
            assert(self.tables@ + above@.reverse() =~= old(self).tables@) by {
                assert(above@.reverse() =~= seq![t] + above@.drop_last().reverse());
            }
        }
        let mut t = self.tables.pop().unwrap();
        assert(t == old(self).tables@[idx as int]);
        assert(self.tables@.push(t) + above@.reverse() =~= old(self).tables@);
        assert(above@.reverse() =~= old(self).tables@.subrange(idx + 1, n as int));
        let _ = t.insert(sym);
        self.tables.push(t);
        let ghost mid = self.tables@;
        while above.len() > 0
            invariant
                idx + 1 <= n,
                n == old(self).tables.len(),
                self.tables@ + above@.reverse() == mid + old(self).tables@.subrange(idx + 1, n as int),
                forall|i: int| 0 <= i < self.tables@.len() ==> #[trigger] self.tables@[i].wf(),
                forall|i: int| 0 <= i < above@.len() ==> #[trigger] above@[i].wf(),
                self.inside_function == old(self).inside_function,
                self.peek_limit == old(self).peek_limit,
            decreases above.len(),
        {
            let u = above.pop().unwrap();
            self.tables.push(u);
            assert(above@.push(u).reverse() =~= seq![u] + above@.reverse());
            assert(self.tables@ + above@.reverse() =~= mid + old(self).tables@.subrange(idx + 1, n as int));
        }
        assert(self.tables@ =~= mid + old(self).tables@.subrange(idx + 1, n as int));
        assert(self@.env =~= declare_at(old(self)@.env, idx as int, sym.lexeme@, sym.binding()));
    }

    /// Whether one of the `hi` outermost scopes declares `name`.
    pub fn find_below(&self, hi: usize, name: &String) -> (r: bool)
        requires
            hi <= self@.env.len(),
        ensures
            r == (lookup(self@.env.subrange(0, hi as int), 0, name@) is Some),
    {
        let ghost env = self@.env.subrange(0, hi as int);
        let mut i: usize = hi;
        assert(env.subrange(0, i as int) =~= env);
        while i > 0
            invariant
                i <= hi <= self.tables.len(),
                env == self@.env.subrange(0, hi as int),
                lookup(env, 0, name@) == lookup(env.subrange(0, i as int), 0, name@),
            decreases i,
        {
            let t = &self.tables[i - 1];
            assert(env.subrange(0, i as int).drop_last() =~= env.subrange(0, i - 1));
            assert(env.subrange(0, i as int).last() == t@);
            if t.find_symbol(name.as_str()).is_some() {
                return true;
            }
            i = i - 1;
        }
        false
    }
}

} // verus!
