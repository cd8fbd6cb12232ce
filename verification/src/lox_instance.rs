use crate::environment_value::EnvironmentValue;
use crate::interpreter::{step_ok, Interpreter};
use crate::lox_class::spec_find_method;
use crate::statement::{program_wf, Program};
use crate::tokens::{Error, Token};
use vstd::prelude::*;

verus! {

/// An object: the arena index of its class and its mutable fields,
/// newest entry last.
pub struct LoxInstance {
    pub belong_class: usize,
    pub fields: Vec<(String, EnvironmentValue)>,
}

/// The newest field entry under `name`, if any.
pub open spec fn field_lookup(fields: Seq<(String, EnvironmentValue)>, name: Seq<char>) -> Option<
    EnvironmentValue,
>
    decreases fields.len(),
{
    if fields.len() == 0 {
        None
    } else if fields.last().0@ == name {
        Some(fields.last().1)
    } else {
        field_lookup(fields.drop_last(), name)
    }
}

/// A field that a lookup returns is one of the instance's entries.
pub proof fn lemma_field_lookup_found(fields: Seq<(String, EnvironmentValue)>, name: Seq<char>)
    ensures
        field_lookup(fields, name) matches Some(v) ==> exists|k: int|
            0 <= k < fields.len() && (#[trigger] fields[k]).1 == v,
    decreases fields.len(),
{
    if fields.len() > 0 {
        if fields.last().0@ == name {
            assert(fields[fields.len() - 1].1 == fields.last().1);
        } else {
            lemma_field_lookup_found(fields.drop_last(), name);
            match field_lookup(fields.drop_last(), name) {
                Some(v) => {
                    let k = choose|k: int|
                        0 <= k < fields.drop_last().len() && (#[trigger] fields.drop_last()[k]).1
                            == v;
                    assert(fields[k].1 == v);
                },
                None => {},
            }
        }
    }
}

impl LoxInstance {
    /// Property access on an instance: a field of that name wins;
    /// otherwise a method found on the class (or up its superclass chain)
    /// is returned, bound to this instance; otherwise the property is
    /// undefined.
    pub fn get(
        interpreter: &mut Interpreter,
        program: &Program,
        instance_idx: usize,
        name: &Token,
    ) -> (r: Result<EnvironmentValue, Error>)
        requires
            old(interpreter).wf(*program),
            program_wf(*program),
            instance_idx < old(interpreter).ni(),
        ensures
            step_ok(*final(interpreter), *old(interpreter), *program),
            r matches Ok(v) ==> final(interpreter).v_ok(*program, v),
            final(interpreter).fuel == old(interpreter).fuel,
            ({
                let fields0 = old(interpreter).instances@[instance_idx as int].fields@;
                let cls = old(interpreter).instances@[instance_idx as int].belong_class as int;
                match field_lookup(fields0, name.lexeme@) {
                    Some(v) => r == Ok::<EnvironmentValue, Error>(v) && *final(interpreter)
                        == *old(interpreter),
                    None => match spec_find_method(
                        old(interpreter).classes@,
                        cls,
                        name.lexeme@,
                    ) {
                        Some(m) => (r matches Ok(b) && b matches EnvironmentValue::LoxFunction(bf)
                            && bf.declaration == m.declaration && bf.is_initializer
                            == m.is_initializer && final(interpreter).envs.list@[
                        bf.closure as int].previous == Some(m.closure) && final(interpreter).envs.list@[bf.closure as int].values@.len() == 1 && final(interpreter).envs.list@[bf.closure as int].values@[0].0@ == "this"@ && final(interpreter).envs.list@[bf.closure as int].values@[0].1
                            == EnvironmentValue::LoxInstance(instance_idx)),
                        None => (r matches Err(e) && e.line == name.line && e.column == name.column
                            && e.message@ == "Undefined property "@ + name.lexeme@),
                    },
                }
            }),
    {
        proof {
            lemma_field_lookup_found(
                interpreter.instances@[instance_idx as int].fields@,
                name.lexeme@,
            );
        }
        match interpreter.instances[instance_idx].field(&name.lexeme) {
            Some(value) => Ok(value),
            None => {
                let class_idx = interpreter.instances[instance_idx].belong_class;
                match interpreter.find_method(program, class_idx, &name.lexeme) {
                    Some(method) => {
                        let bound = method.bind(interpreter, program, instance_idx);
                        Ok(EnvironmentValue::LoxFunction(bound))
                    },
                    None => Err(
                        Error {
                            line: name.line,
                            column: name.column,
                            message: "Undefined property ".to_owned().concat(name.lexeme.as_str()),
                        },
                    ),
                }
            },
        }
    }

    pub fn new(belong_class: usize) -> (r: Self)
        ensures
            r.belong_class == belong_class,
            r.fields@.len() == 0,
    {
        LoxInstance { belong_class, fields: Vec::new() }
    }

    /// Creates or overwrites the field `name` on this instance.
    pub fn set(&mut self, name: String, value: EnvironmentValue)
        ensures
            final(self).belong_class == old(self).belong_class,
            final(self).fields@ == old(self).fields@.push((name, value)),
    {
        self.fields.push((name, value));
    }

    /// Reads this instance's own field `name`.
    pub fn field(&self, name: &String) -> (r: Option<EnvironmentValue>)
        ensures
            r == field_lookup(self.fields@, name@),
    {
        let m = self.fields.len();
        assert(self.fields@.take(m as int) =~= self.fields@);
        let mut i: usize = m;
        while i > 0
            invariant
                i <= self.fields@.len(),
                field_lookup(self.fields@, name@) == field_lookup(
                    self.fields@.take(i as int),
                    name@,
                ),
            decreases i,
        {
            assert(self.fields@.take(i as int).last() == self.fields@[i - 1]);
            assert(self.fields@.take(i as int).drop_last() =~= self.fields@.take(i - 1));
            if self.fields[i - 1].0 == *name {
                return Some(self.fields[i - 1].1.clone());
            }
            i = i - 1;
        }
        assert(self.fields@.take(0) =~= Seq::<(String, EnvironmentValue)>::empty());
        None
    }
}

} // verus!
