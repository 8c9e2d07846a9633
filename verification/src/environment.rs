//! The chain of lexical scopes.
//!
//! An environment is a stack of scopes: the root scope at the bottom, the
//! innermost scope on top, each scope the child of the one below it. A name
//! made of upper-case letters alone is a constant, any other a variable.
use vstd::prelude::*;

use crate::fields::{bound, field_index, find_field, lemma_field_index, store, stored};
use crate::error::Error;
use crate::text::characters;
use crate::values::{fields, BuiltIn, RuntimeValue, Value};

verus! {

/// Whether a character is an upper-case letter: what `char::is_uppercase`
/// says of it.
pub uninterp spec fn uppercase(character: char) -> bool;

/// Whether a character is an upper-case letter.
///
/// Trusted: calls `char::is_uppercase`, whose answer depends on the
/// character alone; the contract gives that answer its name and claims
/// nothing else about it.
#[verifier::external_body]
fn is_uppercase(character: char) -> (result: bool)
    ensures
        result == uppercase(character),
{
    character.is_uppercase()
}

/// Whether a name is that of a constant: each of its characters is an
/// upper-case letter.
pub open spec fn is_constant_name(name: Seq<char>) -> bool {
    forall|i: int| 0 <= i < name.len() ==> uppercase(#[trigger] name[i])
}

/// Whether a name is that of a constant.
pub fn names_constant(name: &str) -> (result: bool)
    ensures
        result == is_constant_name(name@),
{
    let letters = characters(name);
    let mut index: usize = 0;
    while index < letters.len()
        invariant
            index <= letters@.len(),
            letters@ == name@,
            forall|i: int| 0 <= i < index ==> uppercase(#[trigger] name@[i]),
        decreases letters@.len() - index,
    {
        if !is_uppercase(letters[index]) {
            return false;
        }
        index += 1;
    }
    true
}

/// The bindings of one scope, as lists of names and values.
pub struct ScopeModel {
    pub variables: Seq<(Seq<char>, Value)>,
    pub constants: Seq<(Seq<char>, Value)>,
}

/// What a name stands for: the variable of the innermost scope that has
/// one, else its constant, else what the name stands for one scope further
/// out.
pub open spec fn lookup_in(scopes: Seq<ScopeModel>, name: Seq<char>) -> Option<Value>
    decreases scopes.len(),
{
    if scopes.len() == 0 {
        None
    } else {
        match bound(scopes.last().variables, name) {
            Some(value) => Some(value),
            None => match bound(scopes.last().constants, name) {
                Some(value) => Some(value),
                None => lookup_in(scopes.drop_last(), name),
            },
        }
    }
}

/// The scopes after `name` was declared in the innermost of them: as a
/// constant where the name is that of a constant, else as a variable.
pub open spec fn declared(scopes: Seq<ScopeModel>, name: Seq<char>, value: Value) -> Seq<
    ScopeModel,
>
    recommends
        scopes.len() > 0,
{
    let scope = scopes.last();
    let changed = if is_constant_name(name) {
        ScopeModel { variables: scope.variables, constants: stored(scope.constants, name, value) }
    } else {
        ScopeModel { variables: stored(scope.variables, name, value), constants: scope.constants }
    };
    scopes.drop_last().push(changed)
}

/// The scopes after `value` was assigned to the variable `name` of the
/// innermost scope that has one; nothing where no scope has one.
pub open spec fn assigned(scopes: Seq<ScopeModel>, name: Seq<char>, value: Value) -> Option<
    Seq<ScopeModel>,
>
    decreases scopes.len(),
{
    if scopes.len() == 0 {
        None
    } else if bound(scopes.last().variables, name) is Some {
        Some(
            scopes.drop_last().push(
                ScopeModel {
                    variables: stored(scopes.last().variables, name, value),
                    constants: scopes.last().constants,
                },
            ),
        )
    } else {
        match assigned(scopes.drop_last(), name, value) {
            Some(outer) => Some(outer.push(scopes.last())),
            None => None,
        }
    }
}

/// The scope that a program starts in: no variables, and the constants
/// `null`, `true` and `false` and the native functions `print`, `input` and
/// `tup`.
pub open spec fn root_scope() -> ScopeModel {
    ScopeModel {
        variables: Seq::empty(),
        constants: seq![
            ("null"@, Value::Null),
            ("true"@, Value::Boolean(true)),
            ("false"@, Value::Boolean(false)),
            ("print"@, Value::BuiltInFunction(BuiltIn::Print)),
            ("input"@, Value::BuiltInFunction(BuiltIn::Input)),
            ("tup"@, Value::BuiltInFunction(BuiltIn::Tup)),
        ],
    }
}

pub open spec fn empty_scope() -> ScopeModel {
    ScopeModel { variables: Seq::empty(), constants: Seq::empty() }
}

/// No variable has the name of a constant.
pub open spec fn variables_named_well(entries: Seq<(Seq<char>, Value)>) -> bool {
    forall|i: int| 0 <= i < entries.len() ==> !is_constant_name((#[trigger] entries[i]).0)
}

/// There is a scope, and no variable of any scope has the name of a
/// constant.
pub open spec fn well_formed(scopes: Seq<ScopeModel>) -> bool {
    &&& scopes.len() > 0
    &&& forall|i: int| 0 <= i < scopes.len() ==> variables_named_well((#[trigger] scopes[i]).variables)
}

/// One scope.
pub struct Scope {
    variables: Vec<(String, RuntimeValue)>,
    constants: Vec<(String, RuntimeValue)>,
}

impl Scope {
    pub closed spec fn model(&self) -> ScopeModel {
        ScopeModel { variables: fields(self.variables@), constants: fields(self.constants@) }
    }
}

pub closed spec fn scope_models(scopes: Seq<Scope>) -> Seq<ScopeModel> {
    Seq::new(scopes.len(), |i: int| scopes[i].model())
}

fn constant(entries: &mut Vec<(String, RuntimeValue)>, name: &str, value: RuntimeValue)
    ensures
        fields(final(entries)@) == fields(old(entries)@).push((name@, value.model())),
{
    let ghost before = fields(entries@);
    entries.push((name.to_owned(), value));
    assert(fields(entries@) =~= before.push((name@, value.model())));
}

/// The scopes of a running program.
pub struct Environment {
    scopes: Vec<Scope>,
}

impl Environment {
    /// The scopes, the root scope first and the innermost scope last.
    pub closed spec fn model(&self) -> Seq<ScopeModel> {
        scope_models(self.scopes@)
    }

    /// Whether the environment is one that this module's functions can
    /// have made.
    pub open spec fn wf(&self) -> bool {
        well_formed(self.model())
    }

    /// With no parent, the root scope of a program; with a parent, the
    /// parent's scopes and a new, empty scope inside them.
    pub fn new(parent: Option<Environment>) -> (environment: Environment)
        requires
            parent matches Some(outer) ==> outer.wf(),
        ensures
            environment.wf(),
            environment.model() == match parent {
                Some(outer) => outer.model().push(empty_scope()),
                None => seq![root_scope()],
            },
    {
        match parent {
            Some(outer) => {
                let mut environment = outer;
                environment.enter();
                environment
            },
            None => {
                let mut constants: Vec<(String, RuntimeValue)> = Vec::new();
                assert(fields(constants@) =~= Seq::empty());
                constant(&mut constants, "null", RuntimeValue::Null);
                constant(&mut constants, "true", RuntimeValue::Boolean(true));
                constant(&mut constants, "false", RuntimeValue::Boolean(false));
                constant(&mut constants, "print", RuntimeValue::BuiltInFunction(BuiltIn::Print));
                constant(&mut constants, "input", RuntimeValue::BuiltInFunction(BuiltIn::Input));
                constant(&mut constants, "tup", RuntimeValue::BuiltInFunction(BuiltIn::Tup));
                let variables: Vec<(String, RuntimeValue)> = Vec::new();
                assert(fields(variables@) =~= Seq::empty());
                let mut scopes: Vec<Scope> = Vec::new();
                let scope = Scope { variables, constants };
                assert(scope.model().constants =~= root_scope().constants);
                assert(scope.model() == root_scope());
                scopes.push(scope);
                let environment = Environment { scopes };
                assert(environment.scopes@[0].model() == root_scope());
                assert(environment.model() =~= seq![root_scope()]);
                environment
            },
        }
    }

    /// The number of scopes.
    pub fn depth(&self) -> (depth: usize)
        ensures
            depth == self.model().len(),
    {
        self.scopes.len()
    }

    /// Opens a new, empty scope inside the innermost one.
    pub fn enter(&mut self)
        requires
            old(self).wf(),
        ensures
            final(self).wf(),
            final(self).model() == old(self).model().push(empty_scope()),
    {
        let variables: Vec<(String, RuntimeValue)> = Vec::new();
        let constants: Vec<(String, RuntimeValue)> = Vec::new();
        assert(fields(variables@) =~= Seq::empty());
        assert(fields(constants@) =~= Seq::empty());
        self.scopes.push(Scope { variables, constants });
        assert(self.model() =~= old(self).model().push(empty_scope()));
    }

    /// Closes the innermost scope. The root scope stays.
    pub fn leave(&mut self)
        requires
            old(self).wf(),
        ensures
            final(self).wf(),
            final(self).model() == if old(self).model().len() > 1 {
                old(self).model().drop_last()
            } else {
                old(self).model()
            },
    {
        if self.scopes.len() > 1 {
            self.scopes.pop();
            assert(self.model() =~= old(self).model().drop_last());
        }
    }

    /// The value that a name stands for.
    pub fn lookup(&self, variable_name: &str) -> (result: Result<&RuntimeValue, Error>)
        ensures
            match result {
                Ok(value) => lookup_in(self.model(), variable_name@) == Some(value.model()),
                Err(error) => error == Error::UndefinedName && lookup_in(
                    self.model(),
                    variable_name@,
                ) is None,
            },
    {
        let mut depth: usize = self.scopes.len();
        let ghost all = self.model();
        assert(all.subrange(0, depth as int) =~= all);
        while depth > 0
            invariant
                depth <= self.scopes@.len(),
                all == self.model(),
                lookup_in(all, variable_name@) == lookup_in(
                    all.subrange(0, depth as int),
                    variable_name@,
                ),
            decreases depth,
        {
            let scope = &self.scopes[depth - 1];
            proof {
                let inner = all.subrange(0, depth as int);
                assert(inner.last() == scope.model());
                assert(inner.drop_last() =~= all.subrange(0, depth - 1));
            }
            let variable = find_field(&scope.variables, variable_name);
            if variable < scope.variables.len() {
                return Ok(&scope.variables[variable].1);
            }
            let constant = find_field(&scope.constants, variable_name);
            if constant < scope.constants.len() {
                return Ok(&scope.constants[constant].1);
            }
            depth -= 1;
        }
        Err(Error::UndefinedName)
    }

    /// Declares a name in the innermost scope: as a constant where the name
    /// is made of upper-case letters alone, else as a variable. A name that
    /// the scope holds already is bound anew.
    pub fn declare_variable(&mut self, variable_name: String, variable_value: RuntimeValue)
        requires
            old(self).wf(),
        ensures
            final(self).wf(),
            final(self).model() == declared(
                old(self).model(),
                variable_name@,
                variable_value.model(),
            ),
    {
        let ghost before = self.model();
        let mut scope = self.scopes.pop().unwrap();
        let ghost rest = self.model();
        assert(rest =~= before.drop_last());
        assert(scope.model() == before.last());
        if names_constant(variable_name.as_str()) {
            store(&mut scope.constants, variable_name, variable_value);
        } else {
            proof {
                lemma_stored_names(
                    scope.model().variables,
                    variable_name@,
                    variable_value.model(),
                );
            }
            store(&mut scope.variables, variable_name, variable_value);
        }
        self.scopes.push(scope);
        assert(self.model() =~= rest.push(scope.model()));
        assert forall|i: int| 0 <= i < self.model().len() implies variables_named_well(
            (#[trigger] self.model()[i]).variables,
        ) by {
            if i < rest.len() {
                assert(self.model()[i] == before[i]);
            }
        }
    }

    /// Gives a new value to the variable of that name in the innermost
    /// scope that has one. Constants are out of its reach.
    pub fn assign(&mut self, variable_name: String, variable_value: RuntimeValue) -> (result:
        Result<(), Error>)
        requires
            old(self).wf(),
        ensures
            final(self).wf(),
            match result {
                Ok(_) => assigned(old(self).model(), variable_name@, variable_value.model())
                    == Some(final(self).model()),
                Err(error) => error == Error::UndefinedName && assigned(
                    old(self).model(),
                    variable_name@,
                    variable_value.model(),
                ) is None && final(self).model() == old(self).model(),
            },
    {
        let ghost before = self.model();
        let found = assign_in(&mut self.scopes, variable_name, variable_value);
        proof {
            if found {
                lemma_assigned_well_formed(before, variable_name@, variable_value.model());
            }
        }
        if found {
            Ok(())
        } else {
            Err(Error::UndefinedName)
        }
    }
}

fn assign_in(scopes: &mut Vec<Scope>, name: String, value: RuntimeValue) -> (found: bool)
    ensures
        found ==> assigned(scope_models(old(scopes)@), name@, value.model()) == Some(
            scope_models(final(scopes)@),
        ),
        !found ==> assigned(scope_models(old(scopes)@), name@, value.model()) is None
            && scope_models(final(scopes)@) == scope_models(old(scopes)@),
    decreases old(scopes)@.len(),
{
    let ghost before = scope_models(scopes@);
    if scopes.len() == 0 {
        return false;
    }
    let mut scope = scopes.pop().unwrap();
    let ghost rest = scope_models(scopes@);
    assert(rest =~= before.drop_last());
    assert(scope.model() == before.last());
    let variable = find_field(&scope.variables, name.as_str());
    if variable < scope.variables.len() {
        store(&mut scope.variables, name, value);
        scopes.push(scope);
        assert(scope_models(scopes@) =~= rest.push(scope.model()));
        true
    } else {
        let found = assign_in(scopes, name, value);
        let ghost outer = scope_models(scopes@);
        scopes.push(scope);
        assert(scope_models(scopes@) =~= outer.push(scope.model()));
        proof {
            if !found {
                assert(outer.push(scope.model()) =~= before);
            }
        }
        found
    }
}

/// Binding a name that is not that of a constant keeps the variables named
/// well.
pub proof fn lemma_stored_names(entries: Seq<(Seq<char>, Value)>, name: Seq<char>, value: Value)
    requires
        variables_named_well(entries),
        !is_constant_name(name),
    ensures
        variables_named_well(stored(entries, name, value)),
{
    lemma_field_index(entries, name);
    let after = stored(entries, name, value);
    assert forall|i: int| 0 <= i < after.len() implies !is_constant_name(
        (#[trigger] after[i]).0,
    ) by {
        if i < entries.len() && i != field_index(entries, name) {
            assert(after[i] == entries[i]);
        }
    }
}

/// An assignment keeps an environment well formed.
pub proof fn lemma_assigned_well_formed(scopes: Seq<ScopeModel>, name: Seq<char>, value: Value)
    requires
        well_formed(scopes),
        assigned(scopes, name, value) is Some,
    ensures
        well_formed(assigned(scopes, name, value)->0),
    decreases scopes.len(),
{
    let after = assigned(scopes, name, value)->0;
    let last = scopes.last();
    if bound(last.variables, name) is Some {
        lemma_field_index(last.variables, name);
        let at = field_index(last.variables, name);
        assert(!is_constant_name(last.variables[at].0));
        lemma_stored_names(last.variables, name, value);
        assert forall|i: int| 0 <= i < after.len() implies variables_named_well(
            (#[trigger] after[i]).variables,
        ) by {
            if i < scopes.len() - 1 {
                assert(after[i] == scopes[i]);
            }
        }
    } else {
        let outer = scopes.drop_last();
        assert(outer.len() > 0) by {
            if outer.len() == 0 {
                assert(assigned(outer, name, value) is None);
            }
        }
        assert forall|i: int| 0 <= i < outer.len() implies variables_named_well(
            (#[trigger] outer[i]).variables,
        ) by {
            assert(outer[i] == scopes[i]);
        }
        lemma_assigned_well_formed(outer, name, value);
        let changed = assigned(outer, name, value)->0;
        assert forall|i: int| 0 <= i < after.len() implies variables_named_well(
            (#[trigger] after[i]).variables,
        ) by {
            if i < changed.len() {
                assert(after[i] == changed[i]);
            } else {
                assert(after[i] == last);
            }
        }
    }
}

} // verus!
