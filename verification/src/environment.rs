//! Scopes and the names bound in them.

use vstd::prelude::*;
use vstd::string::StringExecFns;

use crate::error::RunTimeError;
use crate::error::RunTimeErrorView;
use crate::token::Token;
use crate::token::TokenView;
use crate::value::Value;
use crate::value::ValueView;

verus! {

/// A name and the value bound to it.
pub struct Binding {
    name: String,
    value: Value,
}

pub struct BindingView {
    pub name: Seq<char>,
    pub value: ValueView,
}

impl View for Binding {
    type V = BindingView;

    closed spec fn view(&self) -> BindingView {
        BindingView { name: self.name@, value: self.value@ }
    }
}

/// One scope: its bindings, and the scope that encloses it, if any.
pub struct Scope {
    enclosing: Option<usize>,
    bindings: Vec<Binding>,
}

pub struct ScopeView {
    pub enclosing: Option<usize>,
    pub bindings: Seq<BindingView>,
}

impl View for Scope {
    type V = ScopeView;

    closed spec fn view(&self) -> ScopeView {
        ScopeView {
            enclosing: self.enclosing,
            bindings: Seq::new(self.bindings@.len(), |i: int| self.bindings@[i]@),
        }
    }
}

/// The scopes of an interpreter. A scope is named by its number; the
/// chain of enclosing scopes leads from a scope to ever smaller numbers.
/// Scopes are shared by number: a function that names a scope sees what
/// everyone else writes there.
pub struct Environment {
    scopes: Vec<Scope>,
}

impl View for Environment {
    type V = Seq<ScopeView>;

    closed spec fn view(&self) -> Seq<ScopeView> {
        Seq::new(self.scopes@.len(), |i: int| self.scopes@[i]@)
    }
}

/// The index of the first binding of a name among the bindings from
/// `from` on.
pub open spec fn position(bindings: Seq<BindingView>, name: Seq<char>, from: int) -> Option<int>
    decreases bindings.len() - from,
{
    if from < 0 || from >= bindings.len() {
        None
    } else if bindings[from].name == name {
        Some(from)
    } else {
        position(bindings, name, from + 1)
    }
}

/// The bindings after a name has been bound to a value: the value
/// replaces the one that the name had, or the name is added.
pub open spec fn bound(bindings: Seq<BindingView>, name: Seq<char>, value: ValueView) -> Seq<
    BindingView,
> {
    match position(bindings, name, 0) {
        Some(i) => bindings.update(i, BindingView { name, value }),
        None => bindings.push(BindingView { name, value }),
    }
}

/// The value that a name is bound to, if it is bound.
pub open spec fn value_of(bindings: Seq<BindingView>, name: Seq<char>) -> Option<ValueView> {
    match position(bindings, name, 0) {
        Some(i) => Some(bindings[i].value),
        None => None,
    }
}

/// The scope that encloses a scope, if there is one: it has a smaller
/// number.
pub open spec fn parent(env: Seq<ScopeView>, scope: int) -> Option<int> {
    if 0 <= scope < env.len() {
        match env[scope].enclosing {
            Some(p) => if p < scope {
                Some(p as int)
            } else {
                None
            },
            None => None,
        }
    } else {
        None
    }
}

/// The nearest scope that binds a name, going from a scope outward.
pub open spec fn resolve(env: Seq<ScopeView>, scope: int, name: Seq<char>) -> Option<int>
    decreases scope,
{
    if scope < 0 || scope >= env.len() {
        None
    } else if position(env[scope].bindings, name, 0) is Some {
        Some(scope)
    } else {
        match parent(env, scope) {
            Some(p) => resolve(env, p, name),
            None => None,
        }
    }
}

/// The value of a name as seen from a scope.
pub open spec fn lookup(env: Seq<ScopeView>, scope: int, name: Seq<char>) -> Option<ValueView> {
    match resolve(env, scope, name) {
        Some(s) => value_of(env[s].bindings, name),
        None => None,
    }
}

/// The scopes after a name has been bound in one of them.
pub open spec fn defined(env: Seq<ScopeView>, scope: int, name: Seq<char>, value: ValueView) -> Seq<
    ScopeView,
> {
    if 0 <= scope < env.len() {
        env.update(
            scope,
            ScopeView {
                enclosing: env[scope].enclosing,
                bindings: bound(env[scope].bindings, name, value),
            },
        )
    } else {
        env
    }
}

/// The scopes after a value has been assigned to a name as seen from a
/// scope: the nearest scope that binds the name gets the value, and a
/// name that no scope binds is not bound.
pub open spec fn assigned(env: Seq<ScopeView>, scope: int, name: Seq<char>, value: ValueView) -> Seq<
    ScopeView,
> {
    match resolve(env, scope, name) {
        Some(s) => defined(env, s, name, value),
        None => env,
    }
}

/// The scopes after a new one has been opened. A scope that names no
/// scope of the environment as its enclosing scope has none.
pub open spec fn opened(env: Seq<ScopeView>, enclosing: Option<usize>) -> Seq<ScopeView> {
    env.push(
        ScopeView {
            enclosing: match enclosing {
                Some(p) => if p < env.len() {
                    Some(p)
                } else {
                    None
                },
                None => None,
            },
            bindings: Seq::empty(),
        },
    )
}

/// The error for a name that no scope binds.
pub open spec fn undefined_variable(name: TokenView) -> RunTimeErrorView {
    RunTimeErrorView { token: name, message: "Undefined variable '"@ + name.lexeme + "'."@ }
}

/// Where a name is first bound does not change when another name is
/// bound, and a name that has been bound is first bound where it was
/// before, or at the end.
pub proof fn lemma_position_bound(
    bindings: Seq<BindingView>,
    name: Seq<char>,
    value: ValueView,
    other: Seq<char>,
)
    ensures
        other != name ==> position(bound(bindings, name, value), other, 0) == position(
            bindings,
            other,
            0,
        ),
        position(bound(bindings, name, value), name, 0) == (match position(bindings, name, 0) {
            Some(i) => Some(i),
            None => Some(bindings.len() as int),
        }),
{
    let after = bound(bindings, name, value);
    lemma_position_first(bindings, name, 0);
    if other != name {
        lemma_position_other(bindings, after, other, 0);
    }
    match position(bindings, name, 0) {
        Some(i) => {
            lemma_position_updated(bindings, name, value, i, 0);
        },
        None => {
            lemma_position_pushed(bindings, name, value, 0);
        },
    }
}

/// Where a name is first bound depends only on the names: bindings with
/// the same names in front, and none of this name behind, bind it at
/// the same place.
proof fn lemma_position_other(
    bindings: Seq<BindingView>,
    after: Seq<BindingView>,
    other: Seq<char>,
    from: int,
)
    requires
        0 <= from,
        after.len() >= bindings.len(),
        forall|j: int| 0 <= j < bindings.len() ==> after[j].name == bindings[j].name,
        forall|j: int| bindings.len() <= j < after.len() ==> after[j].name != other,
    ensures
        position(after, other, from) == position(bindings, other, from),
    decreases after.len() - from,
{
    if from < after.len() {
        lemma_position_other(bindings, after, other, from + 1);
    }
}

/// The first binding of a name is a binding of that name, and none
/// stands before it.
pub proof fn lemma_position_first(bindings: Seq<BindingView>, name: Seq<char>, from: int)
    requires
        0 <= from,
    ensures
        position(bindings, name, from) matches Some(i) ==> from <= i < bindings.len()
            && bindings[i].name == name && forall|j: int| from <= j < i ==> bindings[j].name != name,
        position(bindings, name, from) is None ==> forall|j: int|
            from <= j < bindings.len() ==> bindings[j].name != name,
    decreases bindings.len() - from,
{
    if from < bindings.len() && bindings[from].name != name {
        lemma_position_first(bindings, name, from + 1);
    }
}

proof fn lemma_position_updated(
    bindings: Seq<BindingView>,
    name: Seq<char>,
    value: ValueView,
    at: int,
    from: int,
)
    requires
        0 <= from <= at < bindings.len(),
        bindings[at].name == name,
        forall|j: int| from <= j < at ==> bindings[j].name != name,
    ensures
        position(bindings.update(at, BindingView { name, value }), name, from) == Some(at),
    decreases at - from,
{
    if from < at {
        lemma_position_updated(bindings, name, value, at, from + 1);
    }
}

proof fn lemma_position_pushed(
    bindings: Seq<BindingView>,
    name: Seq<char>,
    value: ValueView,
    from: int,
)
    requires
        0 <= from <= bindings.len(),
        forall|j: int| from <= j < bindings.len() ==> bindings[j].name != name,
    ensures
        position(bindings.push(BindingView { name, value }), name, from) == Some(
            bindings.len() as int,
        ),
    decreases bindings.len() - from,
{
    if from < bindings.len() {
        lemma_position_pushed(bindings, name, value, from + 1);
    }
}

/// A name that has just been bound in a scope is seen from that scope
/// with the value it was bound to, and no other name is seen otherwise
/// than before.
pub proof fn lemma_define_then_get(
    env: Seq<ScopeView>,
    scope: int,
    name: Seq<char>,
    value: ValueView,
    other: Seq<char>,
)
    requires
        0 <= scope < env.len(),
    ensures
        lookup(defined(env, scope, name, value), scope, name) == Some(value),
        other != name ==> lookup(defined(env, scope, name, value), scope, other) == lookup(
            env,
            scope,
            other,
        ),
{
    lemma_position_bound(env[scope].bindings, name, value, name);
    lemma_position_first(env[scope].bindings, name, 0);
    if other != name {
        lemma_resolve_defined(env, scope, name, value, other, scope);
        lemma_position_bound(env[scope].bindings, name, value, other);
        match resolve(env, scope, other) {
            Some(s) => {
                lemma_resolve_range(env, scope, other);
                if s == scope {
                    lemma_position_first(env[scope].bindings, other, 0);
                }
            },
            None => {},
        }
    }
}

/// The scope that binds a name lies on the chain: it is a scope of the
/// environment, not behind the one the search began in.
pub proof fn lemma_resolve_range(env: Seq<ScopeView>, scope: int, name: Seq<char>)
    ensures
        resolve(env, scope, name) matches Some(s) ==> 0 <= s <= scope && s < env.len() && position(
            env[s].bindings,
            name,
            0,
        ) is Some,
    decreases scope,
{
    if 0 <= scope < env.len() && position(env[scope].bindings, name, 0) is None {
        match parent(env, scope) {
            Some(p) => lemma_resolve_range(env, p, name),
            None => {},
        }
    }
}

/// Binding a name in one scope does not change where another name is
/// found.
pub proof fn lemma_resolve_defined(
    env: Seq<ScopeView>,
    scope: int,
    name: Seq<char>,
    value: ValueView,
    other: Seq<char>,
    from: int,
)
    requires
        0 <= scope < env.len(),
        other != name,
    ensures
        resolve(defined(env, scope, name, value), from, other) == resolve(env, from, other),
    decreases from,
{
    let after = defined(env, scope, name, value);
    if 0 <= from < env.len() {
        if from == scope {
            lemma_position_bound(env[scope].bindings, name, value, other);
        }
        assert(parent(after, from) == parent(env, from));
        if position(env[from].bindings, other, 0) is None {
            match parent(env, from) {
                Some(p) => lemma_resolve_defined(env, scope, name, value, other, p),
                None => {},
            }
        }
    }
}

/// The bindings of a scope as a mapping from names to values.
pub open spec fn mapping(bindings: Seq<BindingView>) -> Map<Seq<char>, ValueView> {
    Map::new(
        |name: Seq<char>| position(bindings, name, 0) is Some,
        |name: Seq<char>| bindings[position(bindings, name, 0)->0].value,
    )
}

/// Binding a name in a scope is putting it into the mapping: the name
/// has the new value, and every other name what it had.
pub proof fn lemma_bound_is_insert(bindings: Seq<BindingView>, name: Seq<char>, value: ValueView)
    ensures
        mapping(bound(bindings, name, value)) == mapping(bindings).insert(name, value),
{
    let after = bound(bindings, name, value);
    lemma_position_first(bindings, name, 0);
    assert forall|other: Seq<char>|
        mapping(after).dom().contains(other) == mapping(bindings).insert(
            name,
            value,
        ).dom().contains(other) by {
        lemma_position_bound(bindings, name, value, other);
    }
    assert forall|other: Seq<char>| #[trigger]
        mapping(after).dom().contains(other) implies mapping(after)[other] == mapping(
        bindings,
    ).insert(name, value)[other] by {
        lemma_position_bound(bindings, name, value, other);
        if other != name {
            lemma_position_first(bindings, other, 0);
        }
    }
    assert(mapping(after) =~= mapping(bindings).insert(name, value));
}

/// A name that has been assigned to is seen from the same scope with the
/// value assigned, if any scope on the way binds it; if none does,
/// nothing changes.
pub proof fn lemma_assign_then_get(
    env: Seq<ScopeView>,
    scope: int,
    name: Seq<char>,
    value: ValueView,
)
    ensures
        resolve(env, scope, name) is Some ==> lookup(
            assigned(env, scope, name, value),
            scope,
            name,
        ) == Some(value),
        resolve(env, scope, name) is None ==> assigned(env, scope, name, value) == env,
        assigned(env, scope, name, value).len() == env.len(),
{
    match resolve(env, scope, name) {
        Some(s) => {
            lemma_resolve_range(env, scope, name);
            lemma_resolve_assigned(env, s, name, value, scope);
            lemma_position_bound(env[s].bindings, name, value, name);
            lemma_position_first(env[s].bindings, name, 0);
        },
        None => {},
    }
}

/// Giving a name a new value in the scope where it is found does not
/// change where it is found.
proof fn lemma_resolve_assigned(
    env: Seq<ScopeView>,
    target: int,
    name: Seq<char>,
    value: ValueView,
    from: int,
)
    requires
        0 <= target < env.len(),
        position(env[target].bindings, name, 0) is Some,
    ensures
        resolve(defined(env, target, name, value), from, name) == resolve(env, from, name),
    decreases from,
{
    let after = defined(env, target, name, value);
    if 0 <= from < env.len() {
        lemma_position_bound(env[target].bindings, name, value, name);
        assert(parent(after, from) == parent(env, from));
        if position(env[from].bindings, name, 0) is None {
            match parent(env, from) {
                Some(p) => lemma_resolve_assigned(env, target, name, value, p),
                None => {},
            }
        }
    }
}

/// What a scope sees does not depend on the scopes that were opened
/// after it.
pub proof fn lemma_resolve_earlier(
    env: Seq<ScopeView>,
    later: ScopeView,
    scope: int,
    name: Seq<char>,
)
    requires
        scope < env.len(),
    ensures
        resolve(env.push(later), scope, name) == resolve(env, scope, name),
    decreases scope,
{
    if 0 <= scope {
        assert(env.push(later)[scope] == env[scope]);
        assert(parent(env.push(later), scope) == parent(env, scope));
        if position(env[scope].bindings, name, 0) is None {
            match parent(env, scope) {
                Some(p) => lemma_resolve_earlier(env, later, p, name),
                None => {},
            }
        }
    }
}

/// A scope that has just been opened sees what the scope around it
/// sees: scoping is lexical.
pub proof fn lemma_opened_sees_enclosing(env: Seq<ScopeView>, enclosing: usize, name: Seq<char>)
    requires
        enclosing < env.len(),
    ensures
        lookup(opened(env, Some(enclosing)), env.len() as int, name) == lookup(
            env,
            enclosing as int,
            name,
        ),
{
    let after = opened(env, Some(enclosing));
    let inner = after[env.len() as int];
    assert(position(inner.bindings, name, 0) is None);
    assert(parent(after, env.len() as int) == Some(enclosing as int));
    lemma_resolve_earlier(env, inner, enclosing as int, name);
    match resolve(env, enclosing as int, name) {
        Some(s) => {
            lemma_resolve_range(env, enclosing as int, name);
            assert(after[s] == env[s]);
        },
        None => {},
    }
}

impl Scope {
    /// The index of the first binding of a name.
    fn find(&self, name: &String) -> (found: Option<usize>)
        ensures
            match found {
                Some(i) => position(self@.bindings, name@, 0) == Some(i as int) && i
                    < self.bindings@.len(),
                None => position(self@.bindings, name@, 0) is None,
            },
    {
        let mut i: usize = 0;
        while i < self.bindings.len()
            invariant
                i <= self.bindings@.len(),
                position(self@.bindings, name@, 0) == position(self@.bindings, name@, i as int),
            decreases self.bindings@.len() - i,
        {
            if self.bindings[i].name == *name {
                return Some(i);
            }
            i += 1;
        }
        None
    }

    /// Binds a name to a value in this scope.
    fn bind(&mut self, name: String, value: Value)
        ensures
            final(self)@ == (ScopeView {
                enclosing: old(self)@.enclosing,
                bindings: bound(old(self)@.bindings, name@, value@),
            }),
    {
        match self.find(&name) {
            Some(i) => {
                let ghost before = self@.bindings;
                let binding = Binding { name, value };
                let ghost target = binding@;
                self.bindings.push(binding);
                self.bindings.swap_remove(i);
                assert(self@.bindings =~= before.update(i as int, target));
            },
            None => {
                let ghost before = self@.bindings;
                let binding = Binding { name, value };
                self.bindings.push(binding);
                assert(self@.bindings =~= before.push(binding@));
            },
        }
    }
}

impl Environment {
    /// An environment of one scope, which encloses all others: the
    /// global scope, with the number 0.
    pub fn new() -> (env: Environment)
        ensures
            env@ == seq![ScopeView { enclosing: None, bindings: Seq::empty() }],
    {
        let mut scopes: Vec<Scope> = Vec::new();
        let root = Scope { enclosing: None, bindings: Vec::new() };
        assert(root@.bindings =~= Seq::empty());
        scopes.push(root);
        let env = Environment { scopes };
        assert(env@ =~= seq![ScopeView { enclosing: None, bindings: Seq::empty() }]);
        env
    }

    /// The number of scopes.
    pub fn len(&self) -> (count: usize)
        ensures
            count == self@.len(),
    {
        self.scopes.len()
    }

    /// Opens a new scope inside an enclosing one, and hands back its
    /// number.
    pub fn scope(&mut self, enclosing: Option<usize>) -> (id: usize)
        ensures
            id == old(self)@.len(),
            final(self)@ == opened(old(self)@, enclosing),
    {
        let parent = match enclosing {
            Some(p) => if p < self.scopes.len() {
                Some(p)
            } else {
                None
            },
            None => None,
        };
        let id = self.scopes.len();
        let scope = Scope { enclosing: parent, bindings: Vec::new() };
        assert(scope@.bindings =~= Seq::empty());
        let ghost before = self@;
        self.scopes.push(scope);
        assert(self@ =~= opened(before, enclosing));
        id
    }

    /// Binds a name in a scope, to `nil` when no value is given. A name
    /// that the scope binds already is bound anew.
    pub fn define(&mut self, scope: usize, name: String, value: Option<Value>)
        ensures
            final(self)@ == defined(
                old(self)@,
                scope as int,
                name@,
                match value {
                    Some(v) => v@,
                    None => ValueView::Nil,
                },
            ),
    {
        if scope >= self.scopes.len() {
            return ;
        }
        let value = match value {
            Some(v) => v,
            None => Value::Nil,
        };
        let ghost before = self@;
        let ghost model = value@;
        self.scopes[scope].bind(name, value);
        assert(self@ =~= defined(before, scope as int, name@, model));
    }

    /// The value of a name as seen from a scope: that of the nearest
    /// enclosing scope that binds it.
    pub fn get(&self, scope: usize, name: Token) -> (r: Result<Value, RunTimeError>)
        ensures
            match r {
                Ok(value) => lookup(self@, scope as int, name.lexeme@) == Some(value@),
                Err(error) => lookup(self@, scope as int, name.lexeme@) is None && error@
                    == undefined_variable(name@),
            },
    {
        let mut current = scope;
        loop
            invariant
                resolve(self@, scope as int, name.lexeme@) == resolve(
                    self@,
                    current as int,
                    name.lexeme@,
                ),
            decreases current,
        {
            if current >= self.scopes.len() {
                return Err(Self::undefined(name));
            }
            match self.scopes[current].find(&name.lexeme) {
                Some(i) => {
                    let value = self.scopes[current].bindings[i].value.duplicate();
                    return Ok(value);
                },
                None => {},
            }
            match self.scopes[current].enclosing {
                Some(p) => {
                    if p < current {
                        current = p;
                    } else {
                        return Err(Self::undefined(name));
                    }
                },
                None => {
                    return Err(Self::undefined(name));
                },
            }
        }
    }

    /// The error for a name that no scope binds.
    fn undefined(name: Token) -> (error: RunTimeError)
        ensures
            error@ == undefined_variable(name@),
    {
        let mut message = String::from_str("Undefined variable '");
        message.append(name.lexeme.as_str());
        message.append("'.");
        RunTimeError::new(name, message)
    }

    /// Gives a name as seen from a scope a new value: in the nearest
    /// enclosing scope that binds it. A name that no scope binds is an
    /// error, and is not bound.
    pub fn assign(&mut self, scope: usize, name: Token, value: Value) -> (r: Result<
        (),
        RunTimeError,
    >)
        ensures
            final(self)@ == assigned(old(self)@, scope as int, name.lexeme@, value@),
            match r {
                Ok(_) => resolve(old(self)@, scope as int, name.lexeme@) is Some,
                Err(error) => resolve(old(self)@, scope as int, name.lexeme@) is None && error@
                    == undefined_variable(name@),
            },
    {
        let mut current = scope;
        loop
            invariant
                *self == *old(self),
                resolve(self@, scope as int, name.lexeme@) == resolve(
                    self@,
                    current as int,
                    name.lexeme@,
                ),
            decreases current,
        {
            if current >= self.scopes.len() {
                return Err(Self::undefined(name));
            }
            match self.scopes[current].find(&name.lexeme) {
                Some(_) => {
                    let ghost before = self@;
                    let ghost model = value@;
                    self.scopes[current].bind(name.lexeme, value);
                    assert(self@ =~= defined(before, current as int, name.lexeme@, model));
                    return Ok(());
                },
                None => {},
            }
            match self.scopes[current].enclosing {
                Some(p) => {
                    if p < current {
                        current = p;
                    } else {
                        return Err(Self::undefined(name));
                    }
                },
                None => {
                    return Err(Self::undefined(name));
                },
            }
        }
    }
}

} // verus!
