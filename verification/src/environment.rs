//! The name-to-value binding table used during evaluation: one flat table
//! for the whole program, with declare, assign and lookup and their distinct
//! failure cases. Viewed as a `Map` from the name's characters to the
//! value's view.

use crate::error::{err_v, error_view, Error, ErrorType};
use crate::types::{value_view, RuntimeValue, ValueV};
use vstd::prelude::*;
use vstd::string::StringExecFns;

verus! {

/// The map described by a list of bindings; later entries shadow earlier
/// ones, though a well-formed environment never holds a name twice.
pub open spec fn bindings_map(s: Seq<(String, RuntimeValue)>) -> Map<Seq<char>, ValueV>
    decreases s.len(),
{
    if s.len() == 0 {
        Map::empty()
    } else {
        bindings_map(s.drop_last()).insert(s.last().0@, value_view(s.last().1))
    }
}

/// Whether a binding list holds each name at most once.
pub open spec fn distinct_keys(s: Seq<(String, RuntimeValue)>) -> bool {
    forall|i: int, j: int| 0 <= i < j < s.len() ==> (#[trigger] s[i]).0@ != (#[trigger] s[j]).0@
}

/// A name is in the map exactly when some binding carries it.
proof fn lemma_bindings_contains(s: Seq<(String, RuntimeValue)>, k: Seq<char>)
    ensures
        bindings_map(s).contains_key(k) <==> exists|i: int|
            0 <= i < s.len() && (#[trigger] s[i]).0@ == k,
    decreases s.len(),
{
    if s.len() > 0 {
        lemma_bindings_contains(s.drop_last(), k);
        if s.last().0@ == k {
            assert(s[s.len() - 1].0@ == k);
        } else {
            if exists|i: int| 0 <= i < s.len() && (#[trigger] s[i]).0@ == k {
                let i = choose|i: int| 0 <= i < s.len() && (#[trigger] s[i]).0@ == k;
                assert(s.drop_last()[i] == s[i]);
            }
        }
    }
}

/// With distinct names, the map's value for a name is the value of the
/// binding that carries it.
proof fn lemma_bindings_at(s: Seq<(String, RuntimeValue)>, i: int)
    requires
        distinct_keys(s),
        0 <= i < s.len(),
    ensures
        bindings_map(s).contains_key(s[i].0@),
        bindings_map(s)[s[i].0@] == value_view(s[i].1),
    decreases s.len(),
{
    if i == s.len() - 1 {
    } else {
        assert(distinct_keys(s.drop_last()));
        assert(s.drop_last()[i] == s[i]);
        lemma_bindings_at(s.drop_last(), i);
        assert(s[i].0@ != s.last().0@);
    }
}

/// With distinct names, replacing the binding that carries a name updates
/// the map at that name alone.
proof fn lemma_bindings_update(s: Seq<(String, RuntimeValue)>, i: int, e: (String, RuntimeValue))
    requires
        distinct_keys(s),
        0 <= i < s.len(),
        e.0@ == s[i].0@,
    ensures
        bindings_map(s.update(i, e)) =~= bindings_map(s).insert(e.0@, value_view(e.1)),
    decreases s.len(),
{
    if i == s.len() - 1 {
        assert(s.update(i, e).drop_last() =~= s.drop_last());
        assert(s.update(i, e).last() == e);
    } else {
        assert(distinct_keys(s.drop_last()));
        assert(s.drop_last()[i] == s[i]);
        lemma_bindings_update(s.drop_last(), i, e);
        assert(s.update(i, e).drop_last() =~= s.drop_last().update(i, e));
        assert(s.update(i, e).last() == s.last());
        assert(s[i].0@ != s.last().0@);
    }
}

/// The binding table: a list of name/value pairs with pairwise distinct
/// names, abstracted as a `Map` from names to value views.
pub struct Environment {
    entries: Vec<(String, RuntimeValue)>,
}

impl Environment {
    #[verifier::type_invariant]
    spec fn wf(self) -> bool {
        distinct_keys(self.entries@)
    }
}

impl View for Environment {
    type V = Map<Seq<char>, ValueV>;

    closed spec fn view(&self) -> Map<Seq<char>, ValueV> {
        bindings_map(self.entries@)
    }
}

/// The index of the binding that carries `name`, if any.
fn find_index(entries: &Vec<(String, RuntimeValue)>, name: &String) -> (r: Option<usize>)
    ensures
        match r {
            Some(i) => i < entries@.len() && entries@[i as int].0@ == name@,
            None => forall|j: int| 0 <= j < entries@.len() ==> (#[trigger] entries@[j]).0@ != name@,
        },
{
    let n = entries.len();
    let mut i: usize = 0;
    while i < n
        invariant
            i <= n,
            n == entries@.len(),
            forall|j: int| 0 <= j < i ==> (#[trigger] entries@[j]).0@ != name@,
        decreases n - i,
    {
        if entries[i].0 == *name {
            return Some(i);
        }
        i = i + 1;
    }
    None
}

/// A fresh environment holding the one native function, `print`.
pub fn generate_environment() -> (env: Environment)
    ensures
        env@ == Map::<Seq<char>, ValueV>::empty().insert(
            "print"@,
            ValueV::NativeFunction("print"@),
        ),
{
    let name = String::from_str("print");
    let value = RuntimeValue::NativeFunction(String::from_str("print"));
    let mut entries: Vec<(String, RuntimeValue)> = Vec::new();
    entries.push((name, value));
    let env = Environment { entries };
    proof {
        assert(env.entries@.drop_last() =~= Seq::<(String, RuntimeValue)>::empty());
        assert(bindings_map(Seq::<(String, RuntimeValue)>::empty()) =~= Map::<
            Seq<char>,
            ValueV,
        >::empty());
        assert(env@ =~= Map::<Seq<char>, ValueV>::empty().insert(
            "print"@,
            ValueV::NativeFunction("print"@),
        ));
    }
    env
}

/// Binds `name` to `value` if it is not yet bound; a `NameError` otherwise,
/// with the environment unchanged.
pub fn declare(env: &mut Environment, name: String, value: RuntimeValue) -> (r: Result<(), Error>)
    ensures
        match r {
            Ok(_) => !old(env)@.contains_key(name@) && final(env)@ == old(env)@.insert(
                name@,
                value_view(value),
            ),
            Err(e) => old(env)@.contains_key(name@) && final(env)@ == old(env)@ && error_view(e)
                == err_v(
                ErrorType::NameError,
                "Variable '"@ + name@ + "' already declared"@,
                0,
                0,
            ),
        },
{
    proof {
        use_type_invariant(&*env);
        lemma_bindings_contains(env.entries@, name@);
    }
    match find_index(&env.entries, &name) {
        Some(_) => {
            let mut msg = String::from_str("Variable '");
            msg.append(name.as_str());
            msg.append("' already declared");
            Err(Error::new(ErrorType::NameError, msg, 0, 0))
        },
        None => {
            let ghost prev = env.entries@;
            let mut entries: Vec<(String, RuntimeValue)> = Vec::new();
            core::mem::swap(&mut env.entries, &mut entries);
            entries.push((name, value));
            proof {
                assert(entries@.drop_last() =~= prev);
            }
            env.entries = entries;
            Ok(())
        },
    }
}

/// Replaces the value bound to `name` if it is bound, returning the value;
/// a `NameError` otherwise, with the environment unchanged.
pub fn assign(env: &mut Environment, name: String, value: RuntimeValue) -> (r: Result<
    RuntimeValue,
    Error,
>)
    ensures
        match r {
            Ok(v) => old(env)@.contains_key(name@) && final(env)@ == old(env)@.insert(
                name@,
                value_view(value),
            ) && value_view(v) == value_view(value),
            Err(e) => !old(env)@.contains_key(name@) && final(env)@ == old(env)@ && error_view(e)
                == err_v(ErrorType::NameError, "'"@ + name@ + "' is undefined"@, 0, 0),
        },
{
    proof {
        use_type_invariant(&*env);
        lemma_bindings_contains(env.entries@, name@);
    }
    match find_index(&env.entries, &name) {
        Some(i) => {
            let ghost prev = env.entries@;
            let result = value.clone();
            let mut entries: Vec<(String, RuntimeValue)> = Vec::new();
            core::mem::swap(&mut env.entries, &mut entries);
            entries.set(i, (name, value));
            proof {
                lemma_bindings_update(prev, i as int, entries@[i as int]);
                assert(distinct_keys(entries@));
            }
            env.entries = entries;
            Ok(result)
        },
        None => {
            let mut msg = String::from_str("'");
            msg.append(name.as_str());
            msg.append("' is undefined");
            Err(Error::new(ErrorType::NameError, msg, 0, 0))
        },
    }
}

/// A copy of the value bound to `name`, if any; the environment itself is
/// left unchanged.
pub fn lookup(env: &mut Environment, name: String) -> (r: Option<RuntimeValue>)
    ensures
        *final(env) == *old(env),
        match r {
            Some(v) => old(env)@.contains_key(name@) && value_view(v) == old(env)@[name@],
            None => !old(env)@.contains_key(name@),
        },
{
    proof {
        use_type_invariant(&*env);
        lemma_bindings_contains(env.entries@, name@);
    }
    match find_index(&env.entries, &name) {
        Some(i) => {
            proof {
                lemma_bindings_at(env.entries@, i as int);
            }
            let v = env.entries[i].1.clone();
            Some(v)
        },
        None => None,
    }
}

} // verus!
