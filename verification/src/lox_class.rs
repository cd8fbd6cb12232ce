use crate::environment_value::EnvironmentValue;
use crate::interpreter::{class_ok, fun_ok, lemma_evolves_trans, step_ok, value_ok, Interpreter};
use crate::lox_function::LoxFunction;
use crate::statement::{program_wf, Program};
use crate::tokens::Error;
use vstd::prelude::*;

verus! {

/// A class value: its name, the arena index of its superclass if any, and
/// its own methods. Inherited methods are found by walking the superclass
/// chain, which only ever points at classes created earlier.
pub struct LoxClass {
    pub name: String,
    pub superclass: Option<usize>,
    pub methods: Vec<(String, LoxFunction)>,
}

/// The newest method entry under `name` in one class's own table.
pub open spec fn method_lookup(methods: Seq<(String, LoxFunction)>, name: Seq<char>) -> Option<
    LoxFunction,
>
    decreases methods.len(),
{
    if methods.len() == 0 {
        None
    } else if methods.last().0@ == name {
        Some(methods.last().1)
    } else {
        method_lookup(methods.drop_last(), name)
    }
}

impl LoxClass {
    pub fn new(name: String, superclass: Option<usize>, methods: Vec<(String, LoxFunction)>) -> (r:
        Self)
        ensures
            r == (LoxClass { name, superclass, methods }),
    {
        LoxClass { name, superclass, methods }
    }

    /// This class's own entry for `name`, not consulting the superclass.
    pub fn own_method(&self, name: &String) -> (r: Option<LoxFunction>)
        ensures
            r == method_lookup(self.methods@, name@),
    {
        let m = self.methods.len();
        assert(self.methods@.take(m as int) =~= self.methods@);
        let mut i: usize = m;
        while i > 0
            invariant
                i <= self.methods@.len(),
                method_lookup(self.methods@, name@) == method_lookup(
                    self.methods@.take(i as int),
                    name@,
                ),
            decreases i,
        {
            assert(self.methods@.take(i as int).last() == self.methods@[i - 1]);
            assert(self.methods@.take(i as int).drop_last() =~= self.methods@.take(i - 1));
            if self.methods[i - 1].0 == *name {
                return Some(self.methods[i - 1].1);
            }
            i = i - 1;
        }
        assert(self.methods@.take(0) =~= Seq::<(String, LoxFunction)>::empty());
        None
    }

    /// The number of arguments a call of this class takes: the arity of
    /// its own initializer if it has one, else zero.
    pub fn arity(&self, program: &crate::statement::Program) -> (r: usize)
        requires
            forall|k: int|
                0 <= k < self.methods@.len() ==> (#[trigger] self.methods@[k].1).declaration
                    < program.functions@.len(),
        ensures
            match method_lookup(self.methods@, "init"@) {
                Some(f) => r == program.functions@[f.declaration as int].params@.len(),
                None => r == 0,
            },
    {
        let init_key: String = "init".to_owned();
        match self.own_method(&init_key) {
            Some(f) => {
                proof {
                    lemma_method_lookup_found(self.methods@, init_key@);
                }
                program.functions[f.declaration].params.len()
            },
            None => 0,
        }
    }
}

/// Method search along the superclass chain: the nearest class defining
/// the name wins, so a subclass method shadows its superclass's; nothing
/// is found only when no class on the whole chain defines the name.
pub open spec fn spec_find_method(classes: Seq<LoxClass>, c: int, name: Seq<char>) -> Option<
    LoxFunction,
>
    decreases c,
{
    if c < 0 || c >= classes.len() {
        None
    } else {
        match method_lookup(classes[c].methods@, name) {
            Some(f) => Some(f),
            None => match classes[c].superclass {
                Some(p) => if p < c {
                    spec_find_method(classes, p as int, name)
                } else {
                    None
                },
                None => None,
            },
        }
    }
}

impl LoxClass {
    /// Constructing an instance: a fresh object is created; if the class
    /// has its own initializer it is bound to the new object and invoked
    /// with the arguments; the new object is the result.
    pub fn call(
        interpreter: &mut Interpreter,
        program: &Program,
        class_idx: usize,
        args: Vec<EnvironmentValue>,
    ) -> (r: Result<EnvironmentValue, Error>)
        requires
            old(interpreter).wf(*program),
            program_wf(*program),
            class_idx < old(interpreter).nc(),
            forall|k: int|
                0 <= k < args@.len() ==> value_ok(
                    #[trigger] args@[k],
                    old(interpreter).nc(),
                    old(interpreter).ni(),
                    program.functions@.len() as int,
                    old(interpreter).ne(),
                ),
            args@.len() == (match method_lookup(
                old(interpreter).classes@[class_idx as int].methods@,
                "init"@,
            ) {
                Some(f) => program.functions@[f.declaration as int].params@.len(),
                None => 0int as nat,
            }),
        ensures
            step_ok(*final(interpreter), *old(interpreter), *program),
            r matches Ok(v) ==> final(interpreter).v_ok(*program, v),
            r is Ok ==> final(interpreter).fuel < old(interpreter).fuel,
            r is Ok ==> r == Ok::<EnvironmentValue, Error>(
                EnvironmentValue::LoxInstance(old(interpreter).ni() as usize),
            ) && final(interpreter).ni() > old(interpreter).ni(),
            method_lookup(old(interpreter).classes@[class_idx as int].methods@, "init"@) is None
                ==> old(interpreter).fuel > 0 ==> r is Ok && final(interpreter).instances@[old(
                interpreter,
            ).ni() as int].fields@.len() == 0,
        decreases interpreter.fuel, 2int,
    {
        interpreter.consume_fuel()?;
        let ghost pre = *interpreter;
        let instance_idx = interpreter.add_instance(program, class_idx);

        let init_key: String = "init".to_owned();
        let initializer = interpreter.classes[class_idx].own_method(&init_key);
        match initializer {
            Some(init_method) => {
                proof {
                    lemma_method_lookup_found(
                        interpreter.classes@[class_idx as int].methods@,
                        init_key@,
                    );
                }
                let ghost mid = *interpreter;
                let bound = init_method.bind(interpreter, program, instance_idx);
                proof {
                    lemma_evolves_trans(*interpreter, mid, pre);
                    assert forall|k: int| 0 <= k < args@.len() implies value_ok(
                        #[trigger] args@[k],
                        interpreter.nc(),
                        interpreter.ni(),
                        program.functions@.len() as int,
                        interpreter.ne(),
                    ) by {
                        assert(value_ok(
                            args@[k],
                            old(interpreter).nc(),
                            old(interpreter).ni(),
                            program.functions@.len() as int,
                            old(interpreter).ne(),
                        ));
                    }
                }
                let ghost mid2 = *interpreter;
                match bound.call(interpreter, program, args) {
                    Ok(_) => {
                        proof {
                            lemma_evolves_trans(*interpreter, mid2, pre);
                        }
                        Ok(EnvironmentValue::LoxInstance(instance_idx))
                    },
                    Err(e) => Err(e),
                }
            },
            None => Ok(EnvironmentValue::LoxInstance(instance_idx)),
        }
    }
}

/// A found method comes from the table, so every fact that holds of each
/// table entry holds of it.
pub proof fn lemma_method_lookup_found(methods: Seq<(String, LoxFunction)>, name: Seq<char>)
    ensures
        method_lookup(methods, name) matches Some(f) ==> exists|k: int|
            0 <= k < methods.len() && #[trigger] methods[k].1 == f,
    decreases methods.len(),
{
    if methods.len() > 0 {
        if methods.last().0@ == name {
            assert(methods[methods.len() - 1].1 == methods.last().1);
        } else {
            lemma_method_lookup_found(methods.drop_last(), name);
            match method_lookup(methods.drop_last(), name) {
                Some(f) => {
                    let k = choose|k: int|
                        0 <= k < methods.drop_last().len() && #[trigger] methods.drop_last()[k].1
                            == f;
                    assert(methods[k].1 == f);
                },
                None => {},
            }
        }
    }
}

} // verus!
