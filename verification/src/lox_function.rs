use crate::environment::frame_lookup;
use crate::environment_value::EnvironmentValue;
use crate::interpreter::{
    evolves, fun_ok, lemma_evolves_trans, step_ok, value_ok, Flow, Interpreter,
};
use crate::statement::{lemma_stmts_wf_mono, program_wf, stmts_wf, Program};
use crate::tokens::Error;
use vstd::prelude::*;

verus! {

/// A Lox function value: the index of its declaration in the program's
/// function table, the index of the frame it closes over, and whether it
/// is a class initializer.
#[derive(Debug, Clone, Copy, PartialEq, Eq, Structural)]
pub struct LoxFunction {
    pub declaration: usize,
    pub closure: usize,
    pub is_initializer: bool,
}

impl LoxFunction {
    pub fn new(declaration: usize, closure: usize, is_initializer: bool) -> (r: Self)
        ensures
            r == (LoxFunction { declaration, closure, is_initializer }),
    {
        LoxFunction { declaration, closure, is_initializer }
    }

    /// Invokes the function: a fresh frame is created whose parent is this
    /// function's closure - never the caller's current frame - the
    /// parameters are bound in it, and the body runs inside it. An
    /// initializer hands back the `this` of its closure; any other
    /// function hands back the returned value, or nil.
    pub fn call(
        self,
        interpreter: &mut Interpreter,
        program: &Program,
        args: Vec<EnvironmentValue>,
    ) -> (r: Result<EnvironmentValue, Error>)
        requires
            old(interpreter).wf(*program),
            program_wf(*program),
            fun_ok(self, program.functions@.len() as int, old(interpreter).ne()),
            args@.len() == program.functions@[self.declaration as int].params@.len(),
            forall|k: int|
                0 <= k < args@.len() ==> value_ok(
                    #[trigger] args@[k],
                    old(interpreter).nc(),
                    old(interpreter).ni(),
                    program.functions@.len() as int,
                    old(interpreter).ne(),
                ),
        ensures
            step_ok(*final(interpreter), *old(interpreter), *program),
            r matches Ok(v) ==> final(interpreter).v_ok(*program, v),
            r is Ok ==> final(interpreter).fuel < old(interpreter).fuel,
            old(interpreter).fuel > 0 ==> final(interpreter).ne() > old(interpreter).ne() && final(interpreter).envs.list@[old(interpreter).ne() as int].previous == Some(self.closure),
            old(interpreter).fuel > 0 ==> final(interpreter).envs.list@[old(
                interpreter,
            ).ne() as int].values@.len() >= args@.len() && (forall|i: int|
                0 <= i < args@.len() ==> (#[trigger] final(interpreter).envs.list@[old(
                    interpreter,
                ).ne() as int].values@[i]).0@ == program.functions@[self.declaration as int].params@[i].lexeme@
                    && final(interpreter).envs.list@[old(interpreter).ne() as int].values@[i].1
                    == args@[i]),
            r is Ok ==> self.is_initializer ==> r == Ok::<EnvironmentValue, Error>(
                match frame_lookup(
                    final(interpreter).envs.list@[self.closure as int].values@,
                    "this"@,
                ) {
                    Some(v) => v,
                    None => EnvironmentValue::Nil,
                },
            ),
            !self.is_initializer ==> program.functions@[self.declaration as int].body@.len() == 0
                ==> old(interpreter).fuel >= 1 ==> r == Ok::<EnvironmentValue, Error>(
                EnvironmentValue::Nil,
            ),
            program.functions@[self.declaration as int].body@.len() == 0 ==> old(
                interpreter,
            ).fuel >= 1 ==> r is Ok,
        decreases interpreter.fuel, 1int,
    {
        interpreter.consume_fuel()?;
        let env_save = interpreter.push_frame(program, Some(self.closure));
        let ghost after_push = *interpreter;

        let np = program.functions[self.declaration].params.len();
        let mut i: usize = 0;
        while i < np
            invariant
                i <= np,
                np == args@.len(),
                program_wf(*program),
                fun_ok(self, program.functions@.len() as int, old(interpreter).ne()),
                interpreter.wf(*program),
                evolves(*interpreter, after_push),
                evolves(after_push, *old(interpreter)),
                interpreter.envs.env_pos == after_push.envs.env_pos,
                interpreter.envs.env_pos == old(interpreter).ne(),
                np == program.functions@[self.declaration as int].params@.len(),
                interpreter.envs.list@[old(interpreter).ne() as int].values@.len() == i,
                forall|k: int|
                    0 <= k < i ==> (#[trigger] interpreter.envs.list@[old(
                        interpreter,
                    ).ne() as int].values@[k]).0@ == program.functions@[self.declaration as int].params@[k].lexeme@
                        && interpreter.envs.list@[old(interpreter).ne() as int].values@[k].1
                        == args@[k],
                forall|k: int|
                    0 <= k < args@.len() ==> value_ok(
                        #[trigger] args@[k],
                        interpreter.nc(),
                        interpreter.ni(),
                        program.functions@.len() as int,
                        interpreter.ne(),
                    ),
            decreases np - i,
        {
            let name = program.functions[self.declaration].params[i].lexeme.clone();
            let arg = args[i].clone();
            interpreter.define_value(program, name, arg);
            i = i + 1;
        }
        proof {
            lemma_evolves_trans(*interpreter, after_push, *old(interpreter));
            lemma_stmts_wf_mono(
                program.functions@[self.declaration as int].body@,
                program.id_count as int,
                program.id_count as int,
                self.declaration as int,
                program.functions@.len() as int,
            );
        }
        let ghost before_body = *interpreter;
        let flow = interpreter.exec_statement_list(
            program,
            &program.functions[self.declaration].body,
        );
        proof {
            lemma_evolves_trans(*interpreter, before_body, *old(interpreter));
        }
        interpreter.envs.go_to_env_by_pos(env_save);
        let flow = match flow {
            Ok(f) => f,
            Err(e) => {
                return Err(e);
            },
        };
        if self.is_initializer {
            proof {
                frame_lookup_found_at(interpreter, self.closure as int);
            }
            match interpreter.envs.get_with_pos("this", self.closure) {
                Some(v) => Ok(v),
                None => Ok(EnvironmentValue::Nil),
            }
        } else {
            match flow {
                Flow::Returning(v) => Ok(v),
                Flow::Normal => Ok(EnvironmentValue::Nil),
            }
        }
    }

    /// Binds a method to a receiver: the bound function shares the
    /// declaration and initializer flag, but closes over a fresh frame
    /// whose parent is the method's original closure and whose sole
    /// binding is `this`, mapped to the receiver.
    pub fn bind(
        self,
        interpreter: &mut Interpreter,
        program: &Program,
        instance_idx: usize,
    ) -> (r: LoxFunction)
        requires
            old(interpreter).wf(*program),
            fun_ok(self, program.functions@.len() as int, old(interpreter).ne()),
            instance_idx < old(interpreter).ni(),
        ensures
            step_ok(*final(interpreter), *old(interpreter), *program),
            final(interpreter).fuel == old(interpreter).fuel,
            final(interpreter).classes == old(interpreter).classes,
            final(interpreter).instances == old(interpreter).instances,
            final(interpreter).output == old(interpreter).output,
            r.declaration == self.declaration,
            r.is_initializer == self.is_initializer,
            r.closure == old(interpreter).ne(),
            final(interpreter).ne() == old(interpreter).ne() + 1,
            fun_ok(r, program.functions@.len() as int, final(interpreter).ne()),
            final(interpreter).envs.list@[r.closure as int].previous == Some(self.closure),
            final(interpreter).envs.list@[r.closure as int].values@.len() == 1,
            final(interpreter).envs.list@[r.closure as int].values@[0].0@ == "this"@,
            final(interpreter).envs.list@[r.closure as int].values@[0].1
                == EnvironmentValue::LoxInstance(instance_idx),
            frame_lookup(final(interpreter).envs.list@[r.closure as int].values@, "this"@) == Some(
                EnvironmentValue::LoxInstance(instance_idx),
            ),
    {
        let from_pos = interpreter.push_frame(program, Some(self.closure));
        interpreter.define_value(
            program,
            "this".to_owned(),
            EnvironmentValue::LoxInstance(instance_idx),
        );
        let new_closure = interpreter.envs.env_pos;
        interpreter.envs.go_to_env_by_pos(from_pos);
        LoxFunction {
            declaration: self.declaration,
            closure: new_closure,
            is_initializer: self.is_initializer,
        }
    }
}

/// Whatever an initializer's closure frame binds under `this` is a value
/// the frame stores, hence a valid one.
proof fn frame_lookup_found_at(interpreter: &Interpreter, pos: int)
    requires
        0 <= pos < interpreter.ne(),
    ensures
        frame_lookup(interpreter.envs.list@[pos].values@, "this"@) matches Some(v) ==> exists|
            k: int,
        |
            0 <= k < interpreter.envs.list@[pos].values@.len() && (
            #[trigger] interpreter.envs.list@[pos].values@[k]).1 == v,
{
    crate::environment::lemma_frame_lookup_found(interpreter.envs.list@[pos].values@, "this"@);
}

} // verus!
