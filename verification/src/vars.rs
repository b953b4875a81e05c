//! The variable table of a session, and how arguments get their values.

use vstd::prelude::*;
use crate::row_store::EditError;
use crate::script::{copy_from, same_chars, Arg, ArgV, Val, Value};

verus! {

/// The value under `key` in a list of names and values, the newest entry first.
pub open spec fn lookup(names: Seq<Seq<char>>, vals: Seq<Val>, key: Seq<char>) -> Option<Val>
    decreases names.len(),
{
    if names.len() == 0 || names.len() != vals.len() {
        None
    } else if names.last() == key {
        Some(vals.last())
    } else {
        lookup(names.drop_last(), vals.drop_last(), key)
    }
}

/// Replacing the value of the newest entry of a name changes what is found
/// under that name, and under no other.
pub proof fn lemma_lookup_update(names: Seq<Seq<char>>, vals: Seq<Val>, i: int, v: Val, key: Seq<char>)
    requires
        names.len() == vals.len(),
        0 <= i < names.len(),
        forall|j: int| i < j < names.len() ==> names[j] != names[i],
    ensures
        lookup(names, vals.update(i, v), key) == if key == names[i] {
            Some(v)
        } else {
            lookup(names, vals, key)
        },
    decreases names.len(),
{
    let last = names.len() - 1;
    if i == last {
        assert(vals.update(i, v).drop_last() =~= vals.drop_last());
    } else {
        assert(names[last] != names[i]);
        if names.last() != key {
            lemma_lookup_update(names.drop_last(), vals.drop_last(), i, v, key);
            assert(vals.update(i, v).drop_last() =~= vals.drop_last().update(i, v));
        }
    }
}

/// The variables of a session. They live from the session's start to its end.
pub struct VarTable {
    names: Vec<Vec<char>>,
    values: Vec<Value>,
}

impl View for VarTable {
    type V = Map<Seq<char>, Val>;

    closed spec fn view(&self) -> Map<Seq<char>, Val> {
        Map::new(
            |k: Seq<char>| lookup(self.spec_names(), self.spec_values(), k) is Some,
            |k: Seq<char>| lookup(self.spec_names(), self.spec_values(), k)->Some_0,
        )
    }
}

/// A copy of a value.
pub fn copy_value(v: &Value) -> (res: Value)
    ensures
        res@ == v@,
{
    match v {
        Value::Str(s) => {
            assert(s@.skip(0) =~= s@);
            Value::Str(copy_from(s, 0))
        },
        Value::Num(n) => Value::Num(*n),
        Value::Bool(b) => Value::Bool(*b),
    }
}

impl VarTable {
    closed spec fn spec_names(&self) -> Seq<Seq<char>> {
        Seq::new(self.names@.len(), |i: int| self.names@[i]@)
    }

    closed spec fn spec_values(&self) -> Seq<Val> {
        Seq::new(self.values@.len(), |i: int| self.values@[i]@)
    }

    /// Names and values go in pairs.
    pub closed spec fn wf(&self) -> bool {
        self.names@.len() == self.values@.len()
    }

    /// Whether names and values go in pairs, found out by counting.
    pub fn is_well_formed(&self) -> (res: bool)
        ensures
            res == self.wf(),
    {
        self.names.len() == self.values.len()
    }

    /// A table without variables.
    pub fn new() -> (res: VarTable)
        ensures
            res.wf(),
            res@ == Map::<Seq<char>, Val>::empty(),
    {
        let res = VarTable { names: Vec::new(), values: Vec::new() };
        assert(res@ =~= Map::<Seq<char>, Val>::empty());
        res
    }

    fn find(&self, name: &Vec<char>) -> (res: Option<usize>)
        requires
            self.wf(),
        ensures
            match res {
                Some(i) => i < self.names@.len() && self.names@[i as int]@ == name@ && lookup(
                    self.spec_names(),
                    self.spec_values(),
                    name@,
                ) == Some(self.values@[i as int]@) && forall|j: int|
                    i < j < self.names@.len() ==> self.spec_names()[j] != name@,
                None => lookup(self.spec_names(), self.spec_values(), name@) is None,
            },
    {
        let ghost names = self.spec_names();
        let ghost vals = self.spec_values();
        let mut i: usize = self.names.len();
        assert(names.take(i as int) =~= names);
        assert(vals.take(i as int) =~= vals);
        while i > 0
            invariant
                i <= self.names@.len(),
                self.wf(),
                names == self.spec_names(),
                vals == self.spec_values(),
                lookup(names, vals, name@) == lookup(names.take(i as int), vals.take(i as int), name@),
                forall|j: int| i <= j < names.len() ==> names[j] != name@,
            decreases i,
        {
            i -= 1;
            assert(names.take(i + 1).drop_last() =~= names.take(i as int));
            assert(vals.take(i + 1).drop_last() =~= vals.take(i as int));
            assert(names.take(i + 1).last() == self.names@[i as int]@);
            if same_chars(&self.names[i], name) {
                return Some(i);
            }
        }
        None
    }

    /// The value of the variable `name`, if it was ever set.
    pub fn get(&self, name: &Vec<char>) -> (res: Option<Value>)
        requires
            self.wf(),
        ensures
            res is Some <==> self@.contains_key(name@),
            res is Some ==> res->Some_0@ == self@[name@],
    {
        match self.find(name) {
            Some(i) => Some(copy_value(&self.values[i])),
            None => None,
        }
    }

    /// Sets the variable `name` to `value`, whether or not it was set before.
    pub fn set(&mut self, name: Vec<char>, value: Value)
        requires
            old(self).wf(),
        ensures
            final(self).wf(),
            final(self)@ == old(self)@.insert(name@, value@),
    {
        let ghost names = self.spec_names();
        let ghost vals = self.spec_values();
        match self.find(&name) {
            Some(i) => {
                self.values.set(i, value);
                assert(self.spec_names() =~= names);
                assert(self.spec_values() =~= vals.update(i as int, value@));
                assert forall|k: Seq<char>|
                    lookup(names, vals.update(i as int, value@), k) == (if k == name@ {
                        Some(value@)
                    } else {
                        lookup(names, vals, k)
                    }) by {
                    lemma_lookup_update(names, vals, i as int, value@, k);
                }
                assert(self@ =~= old(self)@.insert(name@, value@));
            },
            None => {
                self.names.push(name);
                self.values.push(value);
                assert(self.spec_names() =~= names.push(name@));
                assert(self.spec_values() =~= vals.push(value@));
                assert(names.push(name@).drop_last() =~= names);
                assert(vals.push(value@).drop_last() =~= vals);
                assert(self@ =~= old(self)@.insert(name@, value@));
            },
        }
    }
}

/// The value of an argument: a literal's own, a variable's from the table.
pub open spec fn spec_resolve(a: ArgV, vars: Map<Seq<char>, Val>) -> Result<Val, EditError> {
    match a {
        ArgV::Lit(v) => Ok(v),
        ArgV::Var(n) => if vars.contains_key(n) {
            Ok(vars[n])
        } else {
            Err(EditError::UndefinedVariable)
        },
    }
}

/// Gives an argument its value at the time the command runs.
pub fn resolve(a: &Arg, vars: &VarTable) -> (res: Result<Value, EditError>)
    requires
        vars.wf(),
    ensures
        match spec_resolve(a@, vars@) {
            Ok(v) => res is Ok && res->Ok_0@ == v,
            Err(e) => res is Err && res->Err_0 == e,
        },
{
    match a {
        Arg::Lit(v) => Ok(copy_value(v)),
        Arg::Var(n) => match vars.get(n) {
            Some(v) => Ok(v),
            None => Err(EditError::UndefinedVariable),
        },
    }
}

} // verus!
