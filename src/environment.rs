use vstd::prelude::*;

use crate::token::Token;
use crate::value::{EvaluatedExpr, InterpreterError, Number};

verus! {

/// The bindings of every scope, outermost first.
pub type Scopes<N> = Seq<Map<Seq<char>, EvaluatedExpr<N>>>;

/// The bindings of one scope, kept in a list: a later entry for a name
/// stands over an earlier one.
pub open spec fn scope_map<N>(b: Seq<(String, EvaluatedExpr<N>)>) -> Map<
    Seq<char>,
    EvaluatedExpr<N>,
>
    decreases b.len(),
{
    if b.len() == 0 {
        Map::empty()
    } else {
        scope_map(b.drop_last()).insert(b.last().0@, b.last().1)
    }
}

/// Index of the innermost scope that binds `name`.
pub open spec fn owner<N>(scopes: Scopes<N>, name: Seq<char>) -> Option<int>
    decreases scopes.len(),
{
    if scopes.len() == 0 {
        None
    } else if scopes.last().contains_key(name) {
        Some(scopes.len() - 1)
    } else {
        owner(scopes.drop_last(), name)
    }
}

/// Reading `name`: the innermost binding, else an undefined-variable error.
pub open spec fn lookup<N>(scopes: Scopes<N>, name: String) -> Result<
    EvaluatedExpr<N>,
    InterpreterError,
> {
    match owner(scopes, name@) {
        Some(i) => Ok(scopes[i][name@]),
        None => Err(InterpreterError::UndefinedVariable(name)),
    }
}

/// Scopes after a successful assignment: only the innermost binding changes.
pub open spec fn assigned<N>(scopes: Scopes<N>, name: Seq<char>, value: EvaluatedExpr<N>) -> Scopes<
    N,
> {
    match owner(scopes, name) {
        Some(i) => scopes.update(i, scopes[i].insert(name, value)),
        None => scopes,
    }
}

/// Scopes after a definition: the current (innermost) scope binds `name`.
pub open spec fn defined<N>(scopes: Scopes<N>, name: Seq<char>, value: EvaluatedExpr<N>) -> Scopes<
    N,
> {
    scopes.update(scopes.len() - 1, scopes.last().insert(name, value))
}

proof fn lemma_scope_absent<N>(b: Seq<(String, EvaluatedExpr<N>)>, name: Seq<char>)
    requires
        forall|m: int| 0 <= m < b.len() ==> b[m].0@ != name,
    ensures
        !scope_map(b).contains_key(name),
    decreases b.len(),
{
    if b.len() > 0 {
        lemma_scope_absent(b.drop_last(), name);
    }
}

/// The last entry for a name is its binding.
proof fn lemma_scope_latest<N>(b: Seq<(String, EvaluatedExpr<N>)>, j: int, name: Seq<char>)
    requires
        0 <= j < b.len(),
        b[j].0@ == name,
        forall|m: int| j < m < b.len() ==> b[m].0@ != name,
    ensures
        scope_map(b).contains_key(name),
        scope_map(b)[name] == b[j].1,
    decreases b.len(),
{
    if j < b.len() - 1 {
        lemma_scope_latest(b.drop_last(), j, name);
    }
}

/// Overwriting the last entry for a name rebinds it and nothing else.
proof fn lemma_scope_overwrite<N>(
    b: Seq<(String, EvaluatedExpr<N>)>,
    j: int,
    entry: (String, EvaluatedExpr<N>),
)
    requires
        0 <= j < b.len(),
        b[j].0@ == entry.0@,
        forall|m: int| j < m < b.len() ==> b[m].0@ != entry.0@,
    ensures
        scope_map(b.update(j, entry)) == scope_map(b).insert(entry.0@, entry.1),
    decreases b.len(),
{
    let c = b.update(j, entry);
    if j == b.len() - 1 {
        assert(c.drop_last() =~= b.drop_last());
        assert(scope_map(c) =~= scope_map(b).insert(entry.0@, entry.1));
    } else {
        assert(c.drop_last() =~= b.drop_last().update(j, entry));
        lemma_scope_overwrite(b.drop_last(), j, entry);
        assert(scope_map(c) =~= scope_map(b).insert(entry.0@, entry.1));
    }
}

/// The innermost owner of a name is a scope that binds it.
pub(crate) proof fn lemma_owner_bound<N>(s: Scopes<N>, name: Seq<char>)
    ensures
        owner(s, name) matches Some(i) ==> 0 <= i < s.len() && s[i].contains_key(name),
    decreases s.len(),
{
    if s.len() > 0 && !s.last().contains_key(name) {
        lemma_owner_bound(s.drop_last(), name);
    }
}

proof fn lemma_owner_prefix<N>(scopes: Scopes<N>, i: int, name: Seq<char>)
    requires
        0 < i <= scopes.len(),
        !scopes[i - 1].contains_key(name),
    ensures
        owner(scopes.subrange(0, i), name) == owner(scopes.subrange(0, i - 1), name),
{
    assert(scopes.subrange(0, i).drop_last() =~= scopes.subrange(0, i - 1));
}

proof fn lemma_owner_found<N>(scopes: Scopes<N>, i: int, name: Seq<char>)
    requires
        0 < i <= scopes.len(),
        scopes[i - 1].contains_key(name),
    ensures
        owner(scopes.subrange(0, i), name) == Some(i - 1),
{
}

/// Name-to-value bindings in a stack of scopes: the global scope first, the
/// current block's scope last.
pub struct Environment<N> {
    scopes: Vec<Vec<(String, EvaluatedExpr<N>)>>,
}

impl<N: Number> View for Environment<N> {
    type V = Scopes<N>;

    closed spec fn view(&self) -> Scopes<N> {
        self.scopes@.map_values(|s: Vec<(String, EvaluatedExpr<N>)>| scope_map(s@))
    }
}

impl<N: Number> Environment<N> {
    /// There is always a current scope.
    pub open spec fn wf(&self) -> bool {
        self@.len() >= 1
    }

    /// An environment with one empty (global) scope.
    pub fn new() -> (r: Environment<N>)
        ensures
            r.wf(),
            r@ == seq![Map::<Seq<char>, EvaluatedExpr<N>>::empty()],
    {
        let mut scopes: Vec<Vec<(String, EvaluatedExpr<N>)>> = Vec::new();
        scopes.push(Vec::new());
        let r = Environment { scopes };
        assert(r@ =~= seq![Map::<Seq<char>, EvaluatedExpr<N>>::empty()]);
        r
    }

    /// Enters a block: a new, empty scope inside the current one.
    pub fn push_scope(&mut self)
        requires
            old(self).wf(),
        ensures
            final(self).wf(),
            final(self)@ == old(self)@.push(Map::empty()),
    {
        self.scopes.push(Vec::new());
        assert(self@ =~= old(self)@.push(Map::empty()));
    }

    /// Leaves a block: drops the current scope and its bindings.
    pub fn pop_scope(&mut self)
        requires
            old(self).wf(),
            old(self)@.len() > 1,
        ensures
            final(self).wf(),
            final(self)@ == old(self)@.drop_last(),
    {
        let _ = self.scopes.pop();
        assert(self@ =~= old(self)@.drop_last());
    }

    /// Makes `enclosing` the scopes around this one, which must have no
    /// enclosing scopes yet.
    pub fn set_enclosing(&mut self, enclosing: Environment<N>)
        requires
            old(self).wf(),
            enclosing.wf(),
            old(self)@.len() == 1,
        ensures
            final(self).wf(),
            final(self)@ == enclosing@ + old(self)@,
    {
        let mut scopes = enclosing.scopes;
        let inner = self.scopes.pop().unwrap();
        scopes.push(inner);
        self.scopes = scopes;
        assert(self@ =~= enclosing@ + old(self)@);
    }

    /// Takes out the scopes around the current one, which stays alone.
    pub fn take_enclosing(&mut self) -> (r: Environment<N>)
        requires
            old(self).wf(),
            old(self)@.len() > 1,
        ensures
            final(self).wf(),
            r.wf(),
            final(self)@ == seq![old(self)@.last()],
            r@ == old(self)@.drop_last(),
    {
        let inner = self.scopes.pop().unwrap();
        let mut own: Vec<Vec<(String, EvaluatedExpr<N>)>> = Vec::new();
        own.push(inner);
        let mut outer = own;
        std::mem::swap(&mut self.scopes, &mut outer);
        let r = Environment { scopes: outer };
        assert(self@ =~= seq![old(self)@.last()]);
        assert(r@ =~= old(self)@.drop_last());
        r
    }

    /// Binds `name` in the current scope, over any binding it had there.
    pub fn define(&mut self, name: String, value: EvaluatedExpr<N>)
        requires
            old(self).wf(),
        ensures
            final(self).wf(),
            final(self)@ == defined(old(self)@, name@, value),
    {
        let last = self.scopes.len() - 1;
        let ghost b = self.scopes@[last as int]@;
        match find_binding(&self.scopes[last], &name) {
            Some(j) => {
                proof {
                    lemma_scope_overwrite(b, j as int, (name, value));
                }
                self.scopes[last].set(j, (name, value));
            },
            None => {
                proof {
                    lemma_scope_absent(b, name@);
                    assert(b.push((name, value)).drop_last() =~= b);
                }
                self.scopes[last].push((name, value));
            },
        }
        assert(self@ =~= defined(old(self)@, name@, value));
    }

    /// The value of the innermost binding of `name`, else an
    /// undefined-variable error.
    pub fn get(&self, name: &Token) -> (r: Result<EvaluatedExpr<N>, InterpreterError>)
        requires
            self.wf(),
        ensures
            r == lookup(self@, name.lexeme),
    {
        match self.find_owner(&name.lexeme) {
            Some((i, j)) => Ok(self.scopes[i][j].1.duplicate()),
            None => Err(InterpreterError::UndefinedVariable(name.lexeme.clone())),
        }
    }

    /// Rebinds the innermost binding of `name`; never creates one. Fails with
    /// an undefined-variable error, changing nothing, when no scope binds it.
    pub fn assign(&mut self, name: &Token, value: EvaluatedExpr<N>) -> (r: Result<
        (),
        InterpreterError,
    >)
        requires
            old(self).wf(),
        ensures
            final(self).wf(),
            owner(old(self)@, name.lexeme@) is Some ==> r is Ok && final(self)@ == assigned(
                old(self)@,
                name.lexeme@,
                value,
            ),
            owner(old(self)@, name.lexeme@) is None ==> r == Err::<(), InterpreterError>(
                InterpreterError::UndefinedVariable(name.lexeme),
            ) && final(self)@ == old(self)@,
    {
        match self.find_owner(&name.lexeme) {
            Some((i, j)) => {
                let ghost b = self.scopes@[i as int]@;
                let key = name.lexeme.clone();
                proof {
                    lemma_scope_overwrite(b, j as int, (key, value));
                }
                self.scopes[i].set(j, (key, value));
                assert(self@ =~= assigned(old(self)@, name.lexeme@, value));
                Ok(())
            },
            None => Err(InterpreterError::UndefinedVariable(name.lexeme.clone())),
        }
    }

    /// Where the innermost binding of `name` is: scope index and entry index.
    fn find_owner(&self, name: &String) -> (r: Option<(usize, usize)>)
        requires
            self.wf(),
        ensures
            match r {
                Some((i, j)) => {
                    &&& owner(self@, name@) == Some(i as int)
                    &&& i < self.scopes@.len()
                    &&& j < self.scopes@[i as int]@.len()
                    &&& self.scopes@[i as int]@[j as int].0@ == name@
                    &&& forall|m: int|
                        j < m < self.scopes@[i as int]@.len() ==> self.scopes@[i as int]@[m].0@
                            != name@
                    &&& self@[i as int][name@] == self.scopes@[i as int]@[j as int].1
                },
                None => owner(self@, name@) is None,
            },
    {
        let ghost v = self@;
        let mut i = self.scopes.len();
        assert(v.subrange(0, i as int) =~= v);
        while i > 0
            invariant
                self.wf(),
                v == self@,
                i <= self.scopes@.len(),
                owner(v, name@) == owner(v.subrange(0, i as int), name@),
            decreases i,
        {
            let ghost b = self.scopes@[i - 1]@;
            match find_binding(&self.scopes[i - 1], name) {
                Some(j) => {
                    proof {
                        lemma_scope_latest(b, j as int, name@);
                        lemma_owner_found(v, i as int, name@);
                    }
                    return Some((i - 1, j));
                },
                None => {
                    proof {
                        lemma_scope_absent(b, name@);
                        lemma_owner_prefix(v, i as int, name@);
                    }
                },
            }
            i = i - 1;
        }
        None
    }
}

/// Index of the last entry for `name` in a scope's list.
fn find_binding<N>(scope: &Vec<(String, EvaluatedExpr<N>)>, name: &String) -> (r: Option<usize>)
    ensures
        match r {
            Some(j) => {
                &&& j < scope@.len()
                &&& scope@[j as int].0@ == name@
                &&& forall|m: int| j < m < scope@.len() ==> scope@[m].0@ != name@
            },
            None => forall|m: int| 0 <= m < scope@.len() ==> scope@[m].0@ != name@,
        },
{
    let mut j = scope.len();
    while j > 0
        invariant
            j <= scope@.len(),
            forall|m: int| j <= m < scope@.len() ==> scope@[m].0@ != name@,
        decreases j,
    {
        if scope[j - 1].0 == *name {
            return Some(j - 1);
        }
        j = j - 1;
    }
    None
}

} // verus!
