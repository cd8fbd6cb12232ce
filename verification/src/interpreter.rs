use crate::environment::{frame_lookup, spec_walk, EnvironmentList};
use crate::environment_value::EnvironmentValue;
use crate::lox_class::LoxClass;
use crate::lox_function::LoxFunction;
use crate::lox_instance::{field_lookup, LoxInstance};
use crate::expression::{
    expr_wf, AssignmentExpression, BinaryExpression, CallExpression, Expr, GetExpression,
    LiteralExpression, LogicalExpression, SetExpression, SuperExpression, ThisExpression,
    UnaryExpression, VariableExpression,
};
use crate::statement::{
    program_wf, stmt_wf, stmts_wf, ClassStatement, ForStatement, IfStatement, PrintStatement,
    Program, ReturnStatement, Stmt, VarStatement, WhileStatement,
};
use crate::tokens::{decimal_string, Error, TokensType, ValueType};
use crate::environment_value::spec_print_text;
use vstd::prelude::*;

verus! {

/// A function value is valid when its declaration lies in the program's
/// function table and its closure frame lies in the arena.
pub open spec fn fun_ok(f: LoxFunction, n_funs: int, n_envs: int) -> bool {
    f.declaration < n_funs && f.closure < n_envs
}

/// A value is valid when every arena index it carries is live.
pub open spec fn value_ok(
    v: EnvironmentValue,
    n_classes: int,
    n_insts: int,
    n_funs: int,
    n_envs: int,
) -> bool {
    match v {
        EnvironmentValue::LoxClass(c) => c < n_classes,
        EnvironmentValue::LoxInstance(i) => i < n_insts,
        EnvironmentValue::LoxFunction(f) => fun_ok(f, n_funs, n_envs),
        _ => true,
    }
}

pub open spec fn vals_ok(
    vals: Seq<(String, EnvironmentValue)>,
    n_classes: int,
    n_insts: int,
    n_funs: int,
    n_envs: int,
) -> bool {
    forall|j: int|
        0 <= j < vals.len() ==> value_ok((#[trigger] vals[j]).1, n_classes, n_insts, n_funs, n_envs)
}

/// A class is valid when its superclass was created before it (so method
/// search terminates) and all its methods are valid functions.
pub open spec fn class_ok(c: LoxClass, idx: int, n_funs: int, n_envs: int) -> bool {
    &&& (match c.superclass {
        Some(p) => p < idx,
        None => true,
    })
    &&& forall|k: int|
        0 <= k < c.methods@.len() ==> fun_ok((#[trigger] c.methods@[k]).1, n_funs, n_envs)
}

pub open spec fn inst_ok(
    inst: LoxInstance,
    n_classes: int,
    n_insts: int,
    n_funs: int,
    n_envs: int,
) -> bool {
    inst.belong_class < n_classes && vals_ok(inst.fields@, n_classes, n_insts, n_funs, n_envs)
}

/// How one statement completes: by falling through, or by `return`
/// carrying a value up to the enclosing call.
pub enum Flow {
    Normal,
    Returning(EnvironmentValue),
}

/// The tree walker. It owns the frame arena, the class and instance
/// arenas, the resolver's scope record, the lines printed so far, and a
/// step budget that makes every run finite.
pub struct Interpreter {
    pub envs: EnvironmentList,
    pub classes: Vec<LoxClass>,
    pub instances: Vec<LoxInstance>,
    pub scope_record: Vec<Option<usize>>,
    pub output: Vec<String>,
    pub fuel: u64,
}

/// The interpreter only ever appends to its output.
pub open spec fn output_extends(post: Interpreter, pre: Interpreter) -> bool {
    &&& post.output@.len() >= pre.output@.len()
    &&& forall|i: int| 0 <= i < pre.output@.len() ==> #[trigger] post.output@[i] == pre.output@[i]
}

/// What every evaluation step preserves: frames, classes and instances
/// are only added, never removed; a frame's parent link never changes
/// once made; the scope record is read-only; fuel only burns down; output
/// only grows.
pub open spec fn evolves(post: Interpreter, pre: Interpreter) -> bool {
    &&& post.envs.list@.len() >= pre.envs.list@.len()
    &&& forall|i: int|
        0 <= i < pre.envs.list@.len() ==> (#[trigger] post.envs.list@[i]).previous
            == pre.envs.list@[i].previous
    &&& forall|i: int|
        0 <= i < pre.envs.list@.len() ==> (#[trigger] post.envs.list@[i]).values@.len()
            >= pre.envs.list@[i].values@.len()
    &&& forall|i: int, j: int|
        0 <= i < pre.envs.list@.len() && 0 <= j < pre.envs.list@[i].values@.len() ==> (
        #[trigger] post.envs.list@[i].values@[j]) == pre.envs.list@[i].values@[j]
    &&& post.classes@.len() >= pre.classes@.len()
    &&& post.instances@.len() >= pre.instances@.len()
    &&& post.scope_record == pre.scope_record
    &&& post.fuel <= pre.fuel
    &&& output_extends(post, pre)
}

/// What a name-use site denotes in a given state: the binding at the
/// recorded depth, or the global binding when no depth was recorded.
pub open spec fn spec_name_lookup(pre: Interpreter, id: int, name: Seq<char>) -> Option<
    EnvironmentValue,
> {
    match pre.scope_record@[id] {
        Some(d) => frame_lookup(
            pre.envs.list@[spec_walk(pre.envs.list@, pre.envs.env_pos as int, d as nat)].values@,
            name,
        ),
        None => frame_lookup(pre.envs.list@[0].values@, name),
    }
}

/// The common frame of every evaluation step: the invariant is kept, the
/// state evolves monotonically, and the current frame is restored.
pub open spec fn step_ok(post: Interpreter, pre: Interpreter, program: Program) -> bool {
    &&& post.wf(program)
    &&& evolves(post, pre)
    &&& post.envs.env_pos == pre.envs.env_pos
}

pub proof fn lemma_evolves_trans(c: Interpreter, b: Interpreter, a: Interpreter)
    requires
        evolves(c, b),
        evolves(b, a),
    ensures
        evolves(c, a),
{
    assert forall|i: int| 0 <= i < a.envs.list@.len() implies (#[trigger] c.envs.list@[i]).previous
        == a.envs.list@[i].previous by {
        assert(b.envs.list@[i].previous == a.envs.list@[i].previous);
        assert(c.envs.list@[i].previous == b.envs.list@[i].previous);
    }
    assert forall|i: int| 0 <= i < a.output@.len() implies #[trigger] c.output@[i]
        == a.output@[i] by {
        assert(b.output@[i] == a.output@[i]);
        assert(c.output@[i] == b.output@[i]);
    }
    assert forall|i: int| 0 <= i < a.envs.list@.len() implies (
    #[trigger] c.envs.list@[i]).values@.len() >= a.envs.list@[i].values@.len() by {
        assert(b.envs.list@[i].values@.len() >= a.envs.list@[i].values@.len());
        assert(c.envs.list@[i].values@.len() >= b.envs.list@[i].values@.len());
    }
    assert forall|i: int, j: int|
        0 <= i < a.envs.list@.len() && 0 <= j < a.envs.list@[i].values@.len() implies (
    #[trigger] c.envs.list@[i].values@[j]) == a.envs.list@[i].values@[j] by {
        assert(b.envs.list@[i].values@.len() >= a.envs.list@[i].values@.len());
        assert(b.envs.list@[i].values@[j] == a.envs.list@[i].values@[j]);
        assert(c.envs.list@[i].values@[j] == b.envs.list@[i].values@[j]);
    }
}

/// Appending one valid binding to a single frame keeps the interpreter
/// invariant: every other frame, class and instance is untouched, and
/// the arena sizes do not change.
pub proof fn lemma_wf_after_binding_push(
    pre: Interpreter,
    post: Interpreter,
    program: Program,
    target: int,
)
    requires
        pre.wf(program),
        0 <= target < pre.ne(),
        post.envs.wf(),
        post.scope_record == pre.scope_record,
        post.classes == pre.classes,
        post.instances == pre.instances,
        post.envs.list@.len() == pre.envs.list@.len(),
        post.envs.list@[target].values@.len() == pre.envs.list@[target].values@.len() + 1,
        forall|j: int|
            0 <= j < pre.envs.list@[target].values@.len() ==> #[trigger] post.envs.list@[
                target].values@[j] == pre.envs.list@[target].values@[j],
        value_ok(
            post.envs.list@[target].values@.last().1,
            pre.nc(),
            pre.ni(),
            program.functions@.len() as int,
            pre.ne(),
        ),
        forall|j: int|
            0 <= j < post.envs.list@.len() && j != target ==> #[trigger] post.envs.list@[j]
                == pre.envs.list@[j],
    ensures
        post.wf(program),
{
    let nf = program.functions@.len() as int;
    assert forall|i: int| 0 <= i < post.ne() implies vals_ok(
        (#[trigger] post.envs.list@[i]).values@,
        post.nc(),
        post.ni(),
        nf,
        post.ne(),
    ) by {
        assert(vals_ok(pre.envs.list@[i].values@, pre.nc(), pre.ni(), nf, pre.ne()));
        if i == target {
            assert forall|j: int| 0 <= j < post.envs.list@[i].values@.len() implies value_ok(
                (#[trigger] post.envs.list@[i].values@[j]).1,
                post.nc(),
                post.ni(),
                nf,
                post.ne(),
            ) by {
                if j < pre.envs.list@[i].values@.len() {
                    assert(post.envs.list@[i].values@[j] == pre.envs.list@[i].values@[j]);
                } else {
                    assert(post.envs.list@[i].values@[j] == post.envs.list@[i].values@.last());
                }
            }
        }
    }
}

impl Interpreter {
    pub open spec fn nc(self) -> int {
        self.classes@.len() as int
    }

    pub open spec fn ni(self) -> int {
        self.instances@.len() as int
    }

    pub open spec fn ne(self) -> int {
        self.envs.list@.len() as int
    }

    /// Shorthand: `v` is valid against this interpreter's current arenas.
    pub open spec fn v_ok(self, program: Program, v: EnvironmentValue) -> bool {
        value_ok(v, self.nc(), self.ni(), program.functions@.len() as int, self.ne())
    }

    /// The interpreter's invariant: the frame arena is well formed, the
    /// scope record has a slot per node id, and every value stored in any
    /// frame, instance field or class method table is valid.
    pub open spec fn wf(self, program: Program) -> bool {
        &&& self.envs.wf()
        &&& self.scope_record@.len() == program.id_count
        &&& forall|i: int|
            0 <= i < self.ne() ==> vals_ok(
                (#[trigger] self.envs.list@[i]).values@,
                self.nc(),
                self.ni(),
                program.functions@.len() as int,
                self.ne(),
            )
        &&& forall|c: int|
            0 <= c < self.nc() ==> class_ok(
                #[trigger] self.classes@[c],
                c,
                program.functions@.len() as int,
                self.ne(),
            )
        &&& forall|i: int|
            0 <= i < self.ni() ==> inst_ok(
                #[trigger] self.instances@[i],
                self.nc(),
                self.ni(),
                program.functions@.len() as int,
                self.ne(),
            )
    }

    /// Builds an interpreter over the given scope record, with a step
    /// budget; the arena starts with only the immortal global frame.
    pub fn new(scope_record: Vec<Option<usize>>, fuel: u64) -> (r: Self)
        ensures
            r.envs.wf(),
            r.envs.env_pos == 0,
            r.envs.list@.len() == 1,
            r.scope_record == scope_record,
            r.output@.len() == 0,
            r.fuel == fuel,
            r.classes@.len() == 0,
            r.instances@.len() == 0,
            forall|p: Program| r.scope_record@.len() == p.id_count ==> #[trigger] r.wf(p),
    {
        let r = Interpreter {
            envs: EnvironmentList::new(),
            classes: Vec::new(),
            instances: Vec::new(),
            scope_record,
            output: Vec::new(),
            fuel,
        };
        proof {
            assert forall|p: Program| r.scope_record@.len() == p.id_count implies r.wf(p) by {
                assert(r.envs.list@[0].values@.len() == 0);
                assert forall|i: int| 0 <= i < r.ne() implies vals_ok(
                    (#[trigger] r.envs.list@[i]).values@,
                    r.nc(),
                    r.ni(),
                    p.functions@.len() as int,
                    r.ne(),
                ) by {
                    assert(i == 0);
                }
            }
        }
        r
    }

    /// Burns one unit of the step budget; errs when it is exhausted, so
    /// that even a diverging program's run is finite.
    pub(crate) fn consume_fuel(&mut self) -> (r: Result<(), Error>)
        ensures
            final(self).envs == old(self).envs,
            final(self).classes == old(self).classes,
            final(self).instances == old(self).instances,
            final(self).scope_record == old(self).scope_record,
            final(self).output == old(self).output,
            r is Ok ==> final(self).fuel == old(self).fuel - 1,
            r is Err ==> *final(self) == *old(self) && old(self).fuel == 0,
    {
        if self.fuel == 0 {
            return Err(
                Error { line: 0, column: 0, message: "Execution budget exhausted".to_owned() },
            );
        }
        self.fuel = self.fuel - 1;
        Ok(())
    }

    /// Opens a fresh frame whose parent is `parent` (or the current frame)
    /// and makes it current; returns the previously current frame index.
    pub(crate) fn push_frame(&mut self, program: &Program, parent: Option<usize>) -> (r: usize)
        requires
            old(self).wf(*program),
            parent matches Some(p) ==> p < old(self).ne(),
        ensures
            final(self).wf(*program),
            evolves(*final(self), *old(self)),
            r == old(self).envs.env_pos,
            final(self).envs.env_pos == old(self).ne(),
            final(self).ne() == old(self).ne() + 1,
            final(self).envs.list@.last().values@.len() == 0,
            final(self).envs.list@.last().previous == Some(
                match parent {
                    Some(p) => p,
                    None => old(self).envs.env_pos,
                },
            ),
            forall|i: int|
                0 <= i < old(self).ne() ==> #[trigger] final(self).envs.list@[i] == old(self).envs.list@[i],
            final(self).classes == old(self).classes,
            final(self).instances == old(self).instances,
            final(self).output == old(self).output,
            final(self).fuel == old(self).fuel,
    {
        let r = self.envs.next(parent);
        proof {
            let nf = program.functions@.len() as int;
            assert forall|i: int| 0 <= i < self.ne() implies vals_ok(
                (#[trigger] self.envs.list@[i]).values@,
                self.nc(),
                self.ni(),
                nf,
                self.ne(),
            ) by {
                if i < old(self).ne() {
                    assert(vals_ok(
                        old(self).envs.list@[i].values@,
                        self.nc(),
                        self.ni(),
                        nf,
                        old(self).ne(),
                    ));
                    assert forall|j: int| 0 <= j < self.envs.list@[i].values@.len() implies
                        value_ok(
                        (#[trigger] self.envs.list@[i].values@[j]).1,
                        self.nc(),
                        self.ni(),
                        nf,
                        self.ne(),
                    ) by {
                        assert(value_ok(
                            old(self).envs.list@[i].values@[j].1,
                            self.nc(),
                            self.ni(),
                            nf,
                            old(self).ne(),
                        ));
                    }
                } else {
                    assert(self.envs.list@[i].values@.len() == 0);
                }
            }
            assert forall|c: int| 0 <= c < self.nc() implies class_ok(
                #[trigger] self.classes@[c],
                c,
                nf,
                self.ne(),
            ) by {
                assert(class_ok(old(self).classes@[c], c, nf, old(self).ne()));
            }
            assert forall|i: int| 0 <= i < self.ni() implies inst_ok(
                #[trigger] self.instances@[i],
                self.nc(),
                self.ni(),
                nf,
                self.ne(),
            ) by {
                assert(inst_ok(
                    old(self).instances@[i],
                    self.nc(),
                    self.ni(),
                    nf,
                    old(self).ne(),
                ));
            }
        }
        r
    }

    /// Binds `name` to `value` in the current frame.
    pub(crate) fn define_value(&mut self, program: &Program, name: String, value: EnvironmentValue)
        requires
            old(self).wf(*program),
            old(self).v_ok(*program, value),
        ensures
            final(self).wf(*program),
            evolves(*final(self), *old(self)),
            final(self).envs.env_pos == old(self).envs.env_pos,
            final(self).ne() == old(self).ne(),
            final(self).envs.list@[old(self).envs.env_pos as int].values@ == old(self).envs.list@[old(self).envs.env_pos as int].values@.push((name, value)),
            forall|j: int|
                0 <= j < final(self).ne() && j != old(self).envs.env_pos ==> #[trigger] final(self).envs.list@[j] == old(self).envs.list@[j],
            final(self).classes == old(self).classes,
            final(self).instances == old(self).instances,
            final(self).output == old(self).output,
            final(self).fuel == old(self).fuel,
    {
        let ghost pos = self.envs.env_pos as int;
        self.envs.define(name, value);
        proof {
            lemma_wf_after_binding_push(*old(self), *self, *program, pos);
        }
    }

    /// Writes `name` in the frame `distance` links up from the current one.
    pub(crate) fn assign_at_distance(
        &mut self,
        program: &Program,
        name: &crate::tokens::Token,
        distance: usize,
        value: EnvironmentValue,
    )
        requires
            old(self).wf(*program),
            old(self).v_ok(*program, value),
        ensures
            final(self).wf(*program),
            evolves(*final(self), *old(self)),
            final(self).envs.env_pos == old(self).envs.env_pos,
            final(self).ne() == old(self).ne(),
            ({
                let target = spec_walk(
                    old(self).envs.list@,
                    old(self).envs.env_pos as int,
                    distance as nat,
                );
                final(self).envs.list@[target].values@ == old(self).envs.list@[target].values@.push(
                    (name.lexeme, value),
                )
            }),
            final(self).classes == old(self).classes,
            final(self).instances == old(self).instances,
            final(self).output == old(self).output,
            final(self).fuel == old(self).fuel,
    {
        proof {
            self.envs.lemma_walk_bounds(self.envs.env_pos as int, distance as nat);
        }
        let ghost target = spec_walk(self.envs.list@, self.envs.env_pos as int, distance as nat);
        self.envs.assign_by_distance(name, distance, value);
        proof {
            lemma_wf_after_binding_push(*old(self), *self, *program, target);
        }
    }

    /// Writes `name` in the nearest enclosing frame that binds it; errs,
    /// changing nothing, when no frame on the chain does.
    pub(crate) fn assign_chain(
        &mut self,
        program: &Program,
        name: &crate::tokens::Token,
        value: EnvironmentValue,
    ) -> (r: Result<(), Error>)
        requires
            old(self).wf(*program),
            old(self).v_ok(*program, value),
        ensures
            final(self).wf(*program),
            evolves(*final(self), *old(self)),
            final(self).envs.env_pos == old(self).envs.env_pos,
            final(self).ne() == old(self).ne(),
            final(self).classes == old(self).classes,
            final(self).instances == old(self).instances,
            final(self).output == old(self).output,
            final(self).fuel == old(self).fuel,
            r is Ok <==> EnvironmentList::spec_resolve(
                old(self).envs.list@,
                old(self).envs.env_pos as int,
                name.lexeme@,
            ) is Some,
    {
        let ghost target_opt = EnvironmentList::spec_resolve(
            self.envs.list@,
            self.envs.env_pos as int,
            name.lexeme@,
        );
        let r = self.envs.assign(name, value);
        proof {
            if r is Ok {
                EnvironmentList::lemma_resolve_in_range(
                    old(self).envs.list@,
                    old(self).envs.env_pos as int,
                    name.lexeme@,
                );
                lemma_wf_after_binding_push(*old(self), *self, *program, target_opt.unwrap());
            }
        }
        match r {
            Ok(_) => Ok(()),
            Err(e) => Err(e),
        }
    }

    /// Writes `name` in the global frame, creating or shadowing it.
    pub(crate) fn global_define(
        &mut self,
        program: &Program,
        name: &crate::tokens::Token,
        value: EnvironmentValue,
    )
        requires
            old(self).wf(*program),
            old(self).v_ok(*program, value),
        ensures
            final(self).wf(*program),
            evolves(*final(self), *old(self)),
            final(self).envs.env_pos == old(self).envs.env_pos,
            final(self).ne() == old(self).ne(),
            final(self).envs.list@[0].values@ == old(self).envs.list@[0].values@.push(
                (name.lexeme, value),
            ),
            final(self).classes == old(self).classes,
            final(self).instances == old(self).instances,
            final(self).output == old(self).output,
            final(self).fuel == old(self).fuel,
    {
        self.envs.global_assign(name, value);
        proof {
            lemma_wf_after_binding_push(*old(self), *self, *program, 0);
        }
    }

    /// Puts a new class into the arena and returns its index.
    pub(crate) fn add_class(&mut self, program: &Program, class: LoxClass) -> (r: usize)
        requires
            old(self).wf(*program),
            class_ok(
                class,
                old(self).nc(),
                program.functions@.len() as int,
                old(self).ne(),
            ),
        ensures
            final(self).wf(*program),
            evolves(*final(self), *old(self)),
            final(self).envs == old(self).envs,
            final(self).nc() == old(self).nc() + 1,
            r == old(self).nc(),
            final(self).classes@ == old(self).classes@.push(class),
            final(self).instances == old(self).instances,
            final(self).output == old(self).output,
            final(self).fuel == old(self).fuel,
    {
        let r = self.classes.len();
        self.classes.push(class);
        proof {
            let nf = program.functions@.len() as int;
            assert forall|i: int| 0 <= i < self.ne() implies vals_ok(
                (#[trigger] self.envs.list@[i]).values@,
                self.nc(),
                self.ni(),
                nf,
                self.ne(),
            ) by {
                assert(vals_ok(
                    old(self).envs.list@[i].values@,
                    old(self).nc(),
                    self.ni(),
                    nf,
                    self.ne(),
                ));
                assert forall|j: int| 0 <= j < self.envs.list@[i].values@.len() implies value_ok(
                    (#[trigger] self.envs.list@[i].values@[j]).1,
                    self.nc(),
                    self.ni(),
                    nf,
                    self.ne(),
                ) by {
                    assert(value_ok(
                        old(self).envs.list@[i].values@[j].1,
                        old(self).nc(),
                        self.ni(),
                        nf,
                        self.ne(),
                    ));
                }
            }
            assert forall|i: int| 0 <= i < self.ni() implies inst_ok(
                #[trigger] self.instances@[i],
                self.nc(),
                self.ni(),
                nf,
                self.ne(),
            ) by {
                assert(inst_ok(old(self).instances@[i], old(self).nc(), self.ni(), nf, self.ne()));
                assert forall|j: int| 0 <= j < self.instances@[i].fields@.len() implies value_ok(
                    (#[trigger] self.instances@[i].fields@[j]).1,
                    self.nc(),
                    self.ni(),
                    nf,
                    self.ne(),
                ) by {
                    assert(value_ok(
                        old(self).instances@[i].fields@[j].1,
                        old(self).nc(),
                        self.ni(),
                        nf,
                        self.ne(),
                    ));
                }
            }
        }
        r
    }

    /// Puts a fresh, fieldless instance of class `class_idx` into the
    /// arena and returns its index.
    pub(crate) fn add_instance(&mut self, program: &Program, class_idx: usize) -> (r: usize)
        requires
            old(self).wf(*program),
            class_idx < old(self).nc(),
        ensures
            final(self).wf(*program),
            evolves(*final(self), *old(self)),
            final(self).envs == old(self).envs,
            final(self).ni() == old(self).ni() + 1,
            r == old(self).ni(),
            final(self).classes == old(self).classes,
            final(self).instances@.last().belong_class == class_idx,
            final(self).instances@.last().fields@.len() == 0,
            forall|i: int|
                0 <= i < old(self).ni() ==> #[trigger] final(self).instances@[i] == old(self).instances@[i],
            final(self).output == old(self).output,
            final(self).fuel == old(self).fuel,
    {
        let r = self.instances.len();
        self.instances.push(LoxInstance::new(class_idx));
        proof {
            let nf = program.functions@.len() as int;
            assert forall|i: int| 0 <= i < self.ne() implies vals_ok(
                (#[trigger] self.envs.list@[i]).values@,
                self.nc(),
                self.ni(),
                nf,
                self.ne(),
            ) by {
                assert(vals_ok(
                    old(self).envs.list@[i].values@,
                    self.nc(),
                    old(self).ni(),
                    nf,
                    self.ne(),
                ));
                assert forall|j: int| 0 <= j < self.envs.list@[i].values@.len() implies value_ok(
                    (#[trigger] self.envs.list@[i].values@[j]).1,
                    self.nc(),
                    self.ni(),
                    nf,
                    self.ne(),
                ) by {
                    assert(value_ok(
                        old(self).envs.list@[i].values@[j].1,
                        self.nc(),
                        old(self).ni(),
                        nf,
                        self.ne(),
                    ));
                }
            }
            assert forall|i: int| 0 <= i < self.ni() implies inst_ok(
                #[trigger] self.instances@[i],
                self.nc(),
                self.ni(),
                nf,
                self.ne(),
            ) by {
                if i < old(self).ni() {
                    assert(inst_ok(
                        old(self).instances@[i],
                        self.nc(),
                        old(self).ni(),
                        nf,
                        self.ne(),
                    ));
                    assert forall|j: int| 0 <= j < self.instances@[i].fields@.len() implies
                        value_ok(
                        (#[trigger] self.instances@[i].fields@[j]).1,
                        self.nc(),
                        self.ni(),
                        nf,
                        self.ne(),
                    ) by {
                        assert(value_ok(
                            old(self).instances@[i].fields@[j].1,
                            self.nc(),
                            old(self).ni(),
                            nf,
                            self.ne(),
                        ));
                    }
                } else {
                    assert(self.instances@[i].fields@.len() == 0);
                }
            }
        }
        r
    }

    /// Creates or overwrites a field of an instance.
    pub(crate) fn set_instance_field(
        &mut self,
        program: &Program,
        instance_idx: usize,
        name: String,
        value: EnvironmentValue,
    )
        requires
            old(self).wf(*program),
            instance_idx < old(self).ni(),
            old(self).v_ok(*program, value),
        ensures
            final(self).wf(*program),
            evolves(*final(self), *old(self)),
            final(self).envs == old(self).envs,
            final(self).ni() == old(self).ni(),
            final(self).classes == old(self).classes,
            final(self).instances@[instance_idx as int].fields@ == old(self).instances@[instance_idx as int].fields@.push((name, value)),
            final(self).instances@[instance_idx as int].belong_class == old(self).instances@[instance_idx as int].belong_class,
            forall|i: int|
                0 <= i < final(self).ni() && i != instance_idx ==> #[trigger] final(self).instances@[i] == old(self).instances@[i],
            final(self).output == old(self).output,
            final(self).fuel == old(self).fuel,
    {
        self.instances[instance_idx].set(name, value);
        proof {
            let nf = program.functions@.len() as int;
            assert forall|i: int| 0 <= i < self.ni() implies inst_ok(
                #[trigger] self.instances@[i],
                self.nc(),
                self.ni(),
                nf,
                self.ne(),
            ) by {
                assert(inst_ok(old(self).instances@[i], self.nc(), self.ni(), nf, self.ne()));
                if i == instance_idx {
                    assert forall|j: int| 0 <= j < self.instances@[i].fields@.len() implies
                        value_ok(
                        (#[trigger] self.instances@[i].fields@[j]).1,
                        self.nc(),
                        self.ni(),
                        nf,
                        self.ne(),
                    ) by {
                        if j < old(self).instances@[i].fields@.len() {
                            assert(self.instances@[i].fields@[j] == old(self).instances@[i].fields@[j]);
                        } else {
                            assert(self.instances@[i].fields@[j] == (name, value));
                        }
                    }
                }
            }
        }
    }

    /// Appends one line to the program's output.
    pub(crate) fn append_output(&mut self, line: String)
        ensures
            final(self).envs == old(self).envs,
            final(self).classes == old(self).classes,
            final(self).instances == old(self).instances,
            final(self).scope_record == old(self).scope_record,
            final(self).fuel == old(self).fuel,
            final(self).output@ == old(self).output@.push(line),
    {
        self.output.push(line);
    }

    /// Looks `name` up along the superclass chain starting at `class_idx`:
    /// the nearest class defining the name wins, and nothing comes back
    /// exactly when no class on the chain defines it.
    pub fn find_method(&self, program: &Program, class_idx: usize, name: &String) -> (r: Option<
        LoxFunction,
    >)
        requires
            self.wf(*program),
            class_idx < self.nc(),
        ensures
            r == crate::lox_class::spec_find_method(self.classes@, class_idx as int, name@),
            r matches Some(f) ==> fun_ok(f, program.functions@.len() as int, self.ne()),
        decreases class_idx,
    {
        match self.classes[class_idx].own_method(name) {
            Some(f) => {
                proof {
                    crate::lox_class::lemma_method_lookup_found(
                        self.classes@[class_idx as int].methods@,
                        name@,
                    );
                }
                Some(f)
            },
            None => {
                match self.classes[class_idx].superclass {
                    Some(parent) => self.find_method(program, parent, name),
                    None => None,
                }
            },
        }
    }

    /// Evaluates one expression. Every step keeps the invariant, restores
    /// the current frame, burns at least one unit of fuel on success, and
    /// returns a valid value.
    pub fn evaluate_expression_item(&mut self, program: &Program, expr: &Expr) -> (r: Result<
        EnvironmentValue,
        Error,
    >)
        requires
            old(self).wf(*program),
            program_wf(*program),
            expr_wf(*expr, program.id_count as int),
        ensures
            step_ok(*final(self), *old(self), *program),
            r matches Ok(v) ==> final(self).v_ok(*program, v),
            r is Ok ==> final(self).fuel < old(self).fuel,
            *expr matches Expr::Variable(v) ==> old(self).fuel > 0 ==> final(self).envs == old(self).envs && final(self).classes == old(self).classes && final(self).instances == old(self).instances && final(self).output == old(self).output && final(self).fuel == old(self).fuel
                - 1 && (r matches Ok(val) ==> spec_name_lookup(
                *old(self),
                v.id as int,
                v.name.lexeme@,
            ) == Some(val)) && (r is Err <==> spec_name_lookup(
                *old(self),
                v.id as int,
                v.name.lexeme@,
            ) is None),
            *expr matches Expr::Literal(l) ==> old(self).fuel > 0 ==> final(self).envs == old(self).envs && final(self).classes == old(self).classes && final(self).instances == old(self).instances && final(self).output == old(self).output && final(self).fuel == old(self).fuel - 1 && r is Ok && (match l.value {
                Some(ValueType::Number(n)) => r == Ok::<EnvironmentValue, Error>(
                    EnvironmentValue::Number(n),
                ),
                Some(ValueType::Bool(b)) => r == Ok::<EnvironmentValue, Error>(
                    EnvironmentValue::Bool(b),
                ),
                Some(ValueType::String(sv)) => (r matches Ok(v) && v matches
                    EnvironmentValue::String(rv) && rv@ == sv@),
                None => r == Ok::<EnvironmentValue, Error>(EnvironmentValue::Nil),
            }),
        decreases self.fuel, 0int,
    {
        self.consume_fuel()?;
        match expr {
            Expr::Binary(expr_binary) => self.visit_binary_expr(program, expr_binary),
            Expr::Logical(expr_logical) => self.visit_logical_expr(program, expr_logical),
            Expr::Grouping(expr_grouping) => self.evaluate_expression_item(
                program,
                &expr_grouping.expression,
            ),
            Expr::Literal(expr_literal) => self.visit_literal_expr(expr_literal),
            Expr::Unary(expr_unary) => self.visit_unary_expr(program, expr_unary),
            Expr::Variable(expr_variable) => self.visit_variable_expr(program, expr_variable),
            Expr::Assignment(expr_assignment) => self.visit_assignment_expr(
                program,
                expr_assignment,
            ),
            Expr::Call(expr_call) => self.visit_call_expr(program, expr_call),
            Expr::Get(expr_get) => self.visit_get_expr(program, expr_get),
            Expr::SetProp(expr_set) => self.visit_set_expr(program, expr_set),
            Expr::This(expr_this) => self.visit_this_expr(program, expr_this),
            Expr::Super(expr_super) => self.visit_super_expr(program, expr_super),
        }
    }

    /// A literal evaluates to exactly the value its token carried.
    fn visit_literal_expr(&self, expr: &LiteralExpression) -> (r: Result<EnvironmentValue, Error>)
        ensures
            r is Ok,
            match expr.value {
                Some(ValueType::Number(n)) => r == Ok::<EnvironmentValue, Error>(
                    EnvironmentValue::Number(n),
                ),
                Some(ValueType::Bool(b)) => r == Ok::<EnvironmentValue, Error>(
                    EnvironmentValue::Bool(b),
                ),
                Some(ValueType::String(_)) => (r matches Ok(v) && v matches
                    EnvironmentValue::String(z) && expr.value matches Some(ValueType::String(s))
                    && z@ == s@),
                None => r == Ok::<EnvironmentValue, Error>(EnvironmentValue::Nil),
            },
            r matches Ok(v) ==> !(v is LoxClass) && !(v is LoxInstance) && !(v is LoxFunction),
    {
        match &expr.value {
            Some(ValueType::Bool(bool_val)) => Ok(EnvironmentValue::Bool(*bool_val)),
            Some(ValueType::Number(number_val)) => Ok(EnvironmentValue::Number(*number_val)),
            Some(ValueType::String(string_val)) => Ok(EnvironmentValue::String(string_val.clone())),
            None => Ok(EnvironmentValue::Nil),
        }
    }

    /// Reads a variable. With a recorded depth `d`, the value is the one
    /// last bound to the name in the frame reached by walking exactly `d`
    /// parent links from the current frame; with no recorded depth the
    /// name is read in the global frame. It errs exactly when that frame
    /// has no such binding.
    pub fn visit_variable_expr(&self, program: &Program, expr: &VariableExpression) -> (r: Result<
        EnvironmentValue,
        Error,
    >)
        requires
            self.wf(*program),
            expr.id < program.id_count,
        ensures
            r matches Ok(v) ==> self.v_ok(*program, v),
            match self.scope_record@[expr.id as int] {
                Some(d) => {
                    let target = spec_walk(self.envs.list@, self.envs.env_pos as int, d as nat);
                    &&& (r matches Ok(v) ==> frame_lookup(
                        self.envs.list@[target].values@,
                        expr.name.lexeme@,
                    ) == Some(v))
                    &&& (r is Err <==> frame_lookup(
                        self.envs.list@[target].values@,
                        expr.name.lexeme@,
                    ) is None)
                },
                None => {
                    &&& (r matches Ok(v) ==> frame_lookup(
                        self.envs.list@[0].values@,
                        expr.name.lexeme@,
                    ) == Some(v))
                    &&& (r is Err <==> frame_lookup(
                        self.envs.list@[0].values@,
                        expr.name.lexeme@,
                    ) is None)
                },
            },
    {
        let r = match self.scope_record[expr.id] {
            Some(d) => {
                proof {
                    self.envs.lemma_walk_bounds(self.envs.env_pos as int, d as nat);
                }
                self.envs.get_by_distance(&expr.name, d)
            },
            None => self.envs.global_get(&expr.name),
        };
        proof {
            match self.scope_record@[expr.id as int] {
                Some(d) => {
                    let target = spec_walk(self.envs.list@, self.envs.env_pos as int, d as nat);
                    crate::environment::lemma_frame_lookup_found(
                        self.envs.list@[target].values@,
                        expr.name.lexeme@,
                    );
                },
                None => {
                    crate::environment::lemma_frame_lookup_found(
                        self.envs.list@[0].values@,
                        expr.name.lexeme@,
                    );
                },
            }
        }
        r
    }

    /// Reads the `this` binding through its recorded depth, exactly as a
    /// variable read: the binding in the frame the recorded number of
    /// parent links up, the globals when unrecorded, an error iff unbound.
    fn visit_this_expr(&self, program: &Program, expr: &ThisExpression) -> (r: Result<
        EnvironmentValue,
        Error,
    >)
        requires
            self.wf(*program),
            expr.id < program.id_count,
        ensures
            r matches Ok(v) ==> self.v_ok(*program, v),
            match self.scope_record@[expr.id as int] {
                Some(d) => {
                    let target = spec_walk(self.envs.list@, self.envs.env_pos as int, d as nat);
                    &&& (r matches Ok(v) ==> frame_lookup(
                        self.envs.list@[target].values@,
                        expr.keyword.lexeme@,
                    ) == Some(v))
                    &&& (r is Err <==> frame_lookup(
                        self.envs.list@[target].values@,
                        expr.keyword.lexeme@,
                    ) is None)
                },
                None => {
                    &&& (r matches Ok(v) ==> frame_lookup(
                        self.envs.list@[0].values@,
                        expr.keyword.lexeme@,
                    ) == Some(v))
                    &&& (r is Err <==> frame_lookup(
                        self.envs.list@[0].values@,
                        expr.keyword.lexeme@,
                    ) is None)
                },
            },
    {
        let r = match self.scope_record[expr.id] {
            Some(d) => {
                proof {
                    self.envs.lemma_walk_bounds(self.envs.env_pos as int, d as nat);
                }
                self.envs.get_by_distance(&expr.keyword, d)
            },
            None => self.envs.global_get(&expr.keyword),
        };
        proof {
            match self.scope_record@[expr.id as int] {
                Some(d) => {
                    let target = spec_walk(self.envs.list@, self.envs.env_pos as int, d as nat);
                    crate::environment::lemma_frame_lookup_found(
                        self.envs.list@[target].values@,
                        expr.keyword.lexeme@,
                    );
                },
                None => {
                    crate::environment::lemma_frame_lookup_found(
                        self.envs.list@[0].values@,
                        expr.keyword.lexeme@,
                    );
                },
            }
        }
        r
    }

    fn visit_unary_expr(&mut self, program: &Program, expr: &UnaryExpression) -> (r: Result<
        EnvironmentValue,
        Error,
    >)
        requires
            old(self).wf(*program),
            program_wf(*program),
            expr_wf(expr.expression, program.id_count as int),
        ensures
            step_ok(*final(self), *old(self), *program),
            r matches Ok(v) ==> final(self).v_ok(*program, v),
            expr.expression matches Expr::Literal(l) ==> l.value matches Some(
                ValueType::Number(n),
            ) ==> old(self).fuel >= 1 ==> (match expr.operator.token_type {
                TokensType::Minus => r == Ok::<EnvironmentValue, Error>(
                    EnvironmentValue::Number(crate::numbers::num_neg_bits(n)),
                ),
                TokensType::Bang => r == Ok::<EnvironmentValue, Error>(
                    EnvironmentValue::Bool(crate::numbers::num_eq_bits(n, 0)),
                ),
                _ => true,
            }),
            expr.expression matches Expr::Literal(l) ==> l.value is None ==> old(self).fuel >= 1
                ==> expr.operator.token_type == TokensType::Bang ==> r == Ok::<
                EnvironmentValue,
                Error,
            >(EnvironmentValue::Bool(true)),
        decreases self.fuel, 1int,
    {
        let right = self.evaluate_expression_item(program, &expr.expression)?;

        match expr.operator.token_type {
            TokensType::Minus => {
                if !right.is_number() {
                    return Err(
                        Error {
                            line: expr.operator.line,
                            column: expr.operator.column,
                            message: "Operand must be a number".to_owned(),
                        },
                    );
                }
                match EnvironmentValue::neg(&right) {
                    Ok(v) => Ok(v),
                    Err(_) => Err(
                        Error {
                            line: expr.operator.line,
                            column: expr.operator.column,
                            message: "Operand must be a number".to_owned(),
                        },
                    ),
                }
            },
            TokensType::Bang => Ok(EnvironmentValue::Bool(!right.is_truthy())),
            _ => Err(
                Error {
                    line: expr.operator.line,
                    column: expr.operator.column,
                    message: "Should not happen".to_owned(),
                },
            ),
        }
    }

    fn visit_binary_expr(&mut self, program: &Program, expr: &BinaryExpression) -> (r: Result<
        EnvironmentValue,
        Error,
    >)
        requires
            old(self).wf(*program),
            program_wf(*program),
            expr_wf(expr.left, program.id_count as int),
            expr_wf(expr.right, program.id_count as int),
        ensures
            step_ok(*final(self), *old(self), *program),
            r matches Ok(v) ==> final(self).v_ok(*program, v),
            expr.left matches Expr::Literal(l1) ==> l1.value matches Some(
                ValueType::Number(a),
            ) ==> expr.right matches Expr::Literal(l2) ==> l2.value matches Some(
                ValueType::Number(b),
            ) ==> old(self).fuel >= 2 ==> (match expr.operator.token_type {
                TokensType::Plus => r == Ok::<EnvironmentValue, Error>(
                    EnvironmentValue::Number(crate::numbers::num_add_bits(a, b)),
                ),
                TokensType::Minus => r == Ok::<EnvironmentValue, Error>(
                    EnvironmentValue::Number(crate::numbers::num_sub_bits(a, b)),
                ),
                TokensType::Slash => r == Ok::<EnvironmentValue, Error>(
                    EnvironmentValue::Number(crate::numbers::num_div_bits(a, b)),
                ),
                TokensType::Star => r == Ok::<EnvironmentValue, Error>(
                    EnvironmentValue::Number(crate::numbers::num_mul_bits(a, b)),
                ),
                TokensType::Greater => r == Ok::<EnvironmentValue, Error>(
                    EnvironmentValue::Bool(crate::numbers::num_gt_bits(a, b)),
                ),
                TokensType::GreaterEqual => r == Ok::<EnvironmentValue, Error>(
                    EnvironmentValue::Bool(crate::numbers::num_ge_bits(a, b)),
                ),
                TokensType::Less => r == Ok::<EnvironmentValue, Error>(
                    EnvironmentValue::Bool(crate::numbers::num_lt_bits(a, b)),
                ),
                TokensType::LessEqual => r == Ok::<EnvironmentValue, Error>(
                    EnvironmentValue::Bool(crate::numbers::num_le_bits(a, b)),
                ),
                TokensType::EqualEqual => r == Ok::<EnvironmentValue, Error>(
                    EnvironmentValue::Bool(crate::numbers::num_eq_bits(a, b)),
                ),
                TokensType::BangEqual => r == Ok::<EnvironmentValue, Error>(
                    EnvironmentValue::Bool(!crate::numbers::num_eq_bits(a, b)),
                ),
                _ => true,
            }),
        decreases self.fuel, 1int,
    {
        let left = self.evaluate_expression_item(program, &expr.left)?;
        let right = self.evaluate_expression_item(program, &expr.right)?;

        match expr.operator.token_type {
            TokensType::Plus => {
                match EnvironmentValue::add(&left, &right) {
                    Ok(v) => Ok(v),
                    Err(_) => Err(
                        Error {
                            line: expr.operator.line,
                            column: expr.operator.column,
                            message: "Operands must be two numbers or two strings".to_owned(),
                        },
                    ),
                }
            },
            TokensType::Minus | TokensType::Slash | TokensType::Star | TokensType::Greater
                | TokensType::GreaterEqual | TokensType::Less | TokensType::LessEqual => {
                Self::number_binary_calculate(&expr.operator, &left, &right)
            },
            TokensType::BangEqual => {
                match EnvironmentValue::partial_eq(&left, &right) {
                    Ok(v) => Ok(v),
                    Err(_) => Err(
                        Error {
                            line: expr.operator.line,
                            column: expr.operator.column,
                            message: "\"!=\" and \"==\" operands only support number/string/boolean".to_owned(),
                        },
                    ),
                }
            },
            TokensType::EqualEqual => {
                match EnvironmentValue::eq(&left, &right) {
                    Ok(v) => Ok(v),
                    Err(_) => Err(
                        Error {
                            line: expr.operator.line,
                            column: expr.operator.column,
                            message: "\"!=\" and \"==\" operands only support number/string/boolean".to_owned(),
                        },
                    ),
                }
            },
            _ => Err(
                Error {
                    line: expr.operator.line,
                    column: expr.operator.column,
                    message: "Should not happen".to_owned(),
                },
            ),
        }
    }

    /// The arithmetic and ordering operators on two numbers; anything else
    /// is a type error.
    pub fn number_binary_calculate(
        operator: &crate::tokens::Token,
        left: &EnvironmentValue,
        right: &EnvironmentValue,
    ) -> (r: Result<EnvironmentValue, Error>)
        ensures
            !(*left is Number && *right is Number) ==> r is Err,
            *left matches EnvironmentValue::Number(a) ==> *right matches EnvironmentValue::Number(
                b,
            ) ==> match operator.token_type {
                TokensType::Minus => r == Ok::<EnvironmentValue, Error>(
                    EnvironmentValue::Number(crate::numbers::num_sub_bits(a, b)),
                ),
                TokensType::Slash => r == Ok::<EnvironmentValue, Error>(
                    EnvironmentValue::Number(crate::numbers::num_div_bits(a, b)),
                ),
                TokensType::Star => r == Ok::<EnvironmentValue, Error>(
                    EnvironmentValue::Number(crate::numbers::num_mul_bits(a, b)),
                ),
                TokensType::Greater => r == Ok::<EnvironmentValue, Error>(
                    EnvironmentValue::Bool(crate::numbers::num_gt_bits(a, b)),
                ),
                TokensType::GreaterEqual => r == Ok::<EnvironmentValue, Error>(
                    EnvironmentValue::Bool(crate::numbers::num_ge_bits(a, b)),
                ),
                TokensType::Less => r == Ok::<EnvironmentValue, Error>(
                    EnvironmentValue::Bool(crate::numbers::num_lt_bits(a, b)),
                ),
                TokensType::LessEqual => r == Ok::<EnvironmentValue, Error>(
                    EnvironmentValue::Bool(crate::numbers::num_le_bits(a, b)),
                ),
                _ => r is Err,
            },
            r matches Ok(v) ==> (v is Number || v is Bool),
    {
        if !left.is_number() || !right.is_number() {
            return Err(
                Error {
                    line: operator.line,
                    column: operator.column,
                    message: "Operands must be two numbers or two strings".to_owned(),
                },
            );
        }
        let fallback = Error {
            line: operator.line,
            column: operator.column,
            message: "Should not happen".to_owned(),
        };
        match operator.token_type {
            TokensType::Minus => match EnvironmentValue::sub(left, right) {
                Ok(v) => Ok(v),
                Err(_) => Err(fallback),
            },
            TokensType::Slash => match EnvironmentValue::div(left, right) {
                Ok(v) => Ok(v),
                Err(_) => Err(fallback),
            },
            TokensType::Star => match EnvironmentValue::mul(left, right) {
                Ok(v) => Ok(v),
                Err(_) => Err(fallback),
            },
            TokensType::Greater => match EnvironmentValue::gt(left, right) {
                Ok(v) => Ok(v),
                Err(_) => Err(fallback),
            },
            TokensType::GreaterEqual => match EnvironmentValue::ge(left, right) {
                Ok(v) => Ok(v),
                Err(_) => Err(fallback),
            },
            TokensType::Less => match EnvironmentValue::lt(left, right) {
                Ok(v) => Ok(v),
                Err(_) => Err(fallback),
            },
            TokensType::LessEqual => match EnvironmentValue::le(left, right) {
                Ok(v) => Ok(v),
                Err(_) => Err(fallback),
            },
            _ => Err(fallback),
        }
    }

    /// Short-circuit `and`/`or`: the operand that decided the outcome is
    /// the result.
    fn visit_logical_expr(&mut self, program: &Program, expr: &LogicalExpression) -> (r: Result<
        EnvironmentValue,
        Error,
    >)
        requires
            old(self).wf(*program),
            program_wf(*program),
            expr_wf(expr.left, program.id_count as int),
            expr_wf(expr.right, program.id_count as int),
        ensures
            step_ok(*final(self), *old(self), *program),
            r matches Ok(v) ==> final(self).v_ok(*program, v),
            expr.left matches Expr::Literal(l) ==> l.value matches Some(ValueType::Bool(bv))
                ==> old(self).fuel >= 1 ==> expr.operator.token_type == TokensType::Or ==> bv
                ==> r == Ok::<EnvironmentValue, Error>(EnvironmentValue::Bool(true)),
            expr.left matches Expr::Literal(l) ==> l.value matches Some(ValueType::Bool(bv))
                ==> old(self).fuel >= 1 ==> expr.operator.token_type == TokensType::And ==> !bv
                ==> r == Ok::<EnvironmentValue, Error>(EnvironmentValue::Bool(false)),
        decreases self.fuel, 1int,
    {
        let left = self.evaluate_expression_item(program, &expr.left)?;

        match expr.operator.token_type {
            TokensType::Or => {
                if left.is_truthy() {
                    Ok(left)
                } else {
                    self.evaluate_expression_item(program, &expr.right)
                }
            },
            TokensType::And => {
                if left.is_truthy() {
                    self.evaluate_expression_item(program, &expr.right)
                } else {
                    Ok(left)
                }
            },
            _ => Err(
                Error {
                    line: expr.operator.line,
                    column: expr.operator.column,
                    message: "Should not happen".to_owned(),
                },
            ),
        }
    }

    /// Evaluates the right-hand side, then writes the name at its recorded
    /// depth (or in the globals); the assigned value is the result.
    fn visit_assignment_expr(
        &mut self,
        program: &Program,
        expr: &AssignmentExpression,
    ) -> (r: Result<EnvironmentValue, Error>)
        requires
            old(self).wf(*program),
            program_wf(*program),
            expr.id < program.id_count,
            expr_wf(expr.value, program.id_count as int),
        ensures
            step_ok(*final(self), *old(self), *program),
            r matches Ok(v) ==> final(self).v_ok(*program, v),
        decreases self.fuel, 1int,
    {
        let value = self.evaluate_expression_item(program, &expr.value)?;
        match self.scope_record[expr.id] {
            Some(d) => {
                self.assign_at_distance(program, &expr.name, d, value.clone());
            },
            None => {
                self.global_define(program, &expr.name, value.clone());
            },
        }
        Ok(value)
    }

    /// Evaluates callee and arguments left to right, checks arity, and
    /// dispatches to function call or class construction. Only functions
    /// and classes can be called.
    fn visit_call_expr(&mut self, program: &Program, expr: &CallExpression) -> (r: Result<
        EnvironmentValue,
        Error,
    >)
        requires
            old(self).wf(*program),
            program_wf(*program),
            expr_wf(expr.callee, program.id_count as int),
            forall|i: int|
                0 <= i < expr.args@.len() ==> expr_wf(
                    #[trigger] expr.args@[i],
                    program.id_count as int,
                ),
        ensures
            step_ok(*final(self), *old(self), *program),
            r matches Ok(v) ==> final(self).v_ok(*program, v),
            expr.callee matches Expr::Literal(_l) ==> old(self).fuel >= 1 ==> r is Err,
            expr.callee matches Expr::Variable(cv) ==> spec_name_lookup(
                *old(self),
                cv.id as int,
                cv.name.lexeme@,
            ) matches Some(EnvironmentValue::LoxFunction(f)) ==> old(self).fuel >= 1
                ==> expr.args@.len() != program.functions@[f.declaration as int].params@.len()
                ==> r is Err,
            expr.callee matches Expr::Variable(cv) ==> spec_name_lookup(
                *old(self),
                cv.id as int,
                cv.name.lexeme@,
            ) matches Some(EnvironmentValue::LoxFunction(f)) ==> old(self).fuel >= 2
                ==> expr.args@.len() == 0 ==> program.functions@[
                f.declaration as int].params@.len() == 0 ==> program.functions@[
                f.declaration as int].body@.len() == 0 ==> !f.is_initializer ==> r == Ok::<
                EnvironmentValue,
                Error,
            >(EnvironmentValue::Nil),
        decreases self.fuel, 1int,
    {
        let callee = self.evaluate_expression_item(program, &expr.callee)?;
        let ghost pre_args = *self;

        let n_args = expr.args.len();
        let mut args: Vec<EnvironmentValue> = Vec::new();
        let mut i: usize = 0;
        if n_args > 0 {
            while i < n_args
            invariant
                i <= n_args,
                n_args == expr.args@.len(),
                args@.len() == i,
                program_wf(*program),
                forall|k: int|
                    0 <= k < expr.args@.len() ==> expr_wf(
                        #[trigger] expr.args@[k],
                        program.id_count as int,
                    ),
                self.wf(*program),
                evolves(*self, pre_args),
                evolves(*self, *old(self)),
                self.envs.env_pos == pre_args.envs.env_pos,
                self.envs.env_pos == old(self).envs.env_pos,
                self.fuel < old(self).fuel,
                forall|k: int|
                    0 <= k < args@.len() ==> value_ok(
                        #[trigger] args@[k],
                        self.nc(),
                        self.ni(),
                        program.functions@.len() as int,
                        self.ne(),
                    ),
            decreases n_args - i,
        {
            let ghost before = *self;
            let arg = match self.evaluate_expression_item(program, &expr.args[i]) {
                Ok(v) => v,
                Err(e) => {
                    proof {
                        lemma_evolves_trans(*self, before, pre_args);
                        lemma_evolves_trans(*self, before, *old(self));
                    }
                    return Err(e);
                },
            };
            proof {
                lemma_evolves_trans(*self, before, pre_args);
                lemma_evolves_trans(*self, before, *old(self));
                assert forall|k: int| 0 <= k < args@.len() implies value_ok(
                    #[trigger] args@[k],
                    self.nc(),
                    self.ni(),
                    program.functions@.len() as int,
                    self.ne(),
                ) by {
                    assert(value_ok(
                        args@[k],
                        before.nc(),
                        before.ni(),
                        program.functions@.len() as int,
                        before.ne(),
                    ));
                }
            }
            args.push(arg);
            i = i + 1;
        }
        }

        let ghost before_dispatch = *self;
        match callee {
            EnvironmentValue::LoxClass(class_idx) => {
                let arity = self.classes[class_idx].arity(program);
                if args.len() != arity {
                    return Err(Self::arity_error(&expr.end_parenthese, arity, args.len()));
                }
                let res = LoxClass::call(self, program, class_idx, args);
                proof {
                    lemma_evolves_trans(*self, before_dispatch, *old(self));
                }
                res
            },
            EnvironmentValue::LoxFunction(f) => {
                let arity = program.functions[f.declaration].params.len();
                if args.len() != arity {
                    return Err(Self::arity_error(&expr.end_parenthese, arity, args.len()));
                }
                let res = f.call(self, program, args);
                proof {
                    lemma_evolves_trans(*self, before_dispatch, *old(self));
                }
                res
            },
            _ => Err(
                Error {
                    line: expr.end_parenthese.line,
                    column: expr.end_parenthese.column,
                    message: "Can only call functions and classes".to_owned(),
                },
            ),
        }
    }

    /// The diagnostic for a call with the wrong number of arguments.
    fn arity_error(paren: &crate::tokens::Token, expected: usize, got: usize) -> (r: Error)
        ensures
            r.line == paren.line,
            r.column == paren.column,
    {
        let mut message: String = "Expect ".to_owned();
        let e = decimal_string(expected as u64);
        message.append(e.as_str());
        message.append(" arguments but got ");
        let g = decimal_string(got as u64);
        message.append(g.as_str());
        Error { line: paren.line, column: paren.column, message }
    }

    /// Property read: only instances have properties; a missing field
    /// falls back to a method bound to the receiver.
    fn visit_get_expr(&mut self, program: &Program, expr: &GetExpression) -> (r: Result<
        EnvironmentValue,
        Error,
    >)
        requires
            old(self).wf(*program),
            program_wf(*program),
            expr_wf(expr.object, program.id_count as int),
        ensures
            step_ok(*final(self), *old(self), *program),
            r matches Ok(v) ==> final(self).v_ok(*program, v),
            expr.object matches Expr::Literal(_l) ==> old(self).fuel >= 1 ==> (r matches Err(e)
                && e.line == expr.name.line && e.column == expr.name.column),
            expr.object matches Expr::Variable(ov) ==> spec_name_lookup(
                *old(self),
                ov.id as int,
                ov.name.lexeme@,
            ) matches Some(EnvironmentValue::LoxInstance(ii)) ==> old(self).fuel >= 1 ==> ({
                let fields0 = old(self).instances@[ii as int].fields@;
                let cls = old(self).instances@[ii as int].belong_class as int;
                match field_lookup(fields0, expr.name.lexeme@) {
                    Some(v) => r == Ok::<EnvironmentValue, Error>(v),
                    None => match crate::lox_class::spec_find_method(
                        old(self).classes@,
                        cls,
                        expr.name.lexeme@,
                    ) {
                        Some(m) => (r matches Ok(b) && b matches EnvironmentValue::LoxFunction(bf)
                            && bf.declaration == m.declaration && bf.is_initializer
                            == m.is_initializer),
                        None => (r matches Err(e) && e.message@ == "Undefined property "@
                            + expr.name.lexeme@),
                    },
                }
            }),
        decreases self.fuel, 1int,
    {
        let obj = self.evaluate_expression_item(program, &expr.object)?;
        match obj {
            EnvironmentValue::LoxInstance(instance_idx) => {
                LoxInstance::get(self, program, instance_idx, &expr.name)
            },
            _ => Err(
                Error {
                    line: expr.name.line,
                    column: expr.name.column,
                    message: "Only instances have properties at ".to_owned().concat(
                        expr.name.lexeme.as_str(),
                    ),
                },
            ),
        }
    }

    /// Property write: evaluates the object, then the value, and stores
    /// the field on the instance; the value is the result.
    fn visit_set_expr(&mut self, program: &Program, expr: &SetExpression) -> (r: Result<
        EnvironmentValue,
        Error,
    >)
        requires
            old(self).wf(*program),
            program_wf(*program),
            expr_wf(expr.object, program.id_count as int),
            expr_wf(expr.value, program.id_count as int),
        ensures
            step_ok(*final(self), *old(self), *program),
            r matches Ok(v) ==> final(self).v_ok(*program, v),
            expr.object matches Expr::Literal(_l) ==> old(self).fuel >= 1 ==> (r matches Err(e)
                && e.line == expr.name.line && e.column == expr.name.column),
        decreases self.fuel, 1int,
    {
        let ghost pre = *self;
        let obj = self.evaluate_expression_item(program, &expr.object)?;
        match obj {
            EnvironmentValue::LoxInstance(instance_idx) => {
                let ghost mid = *self;
                let value = match self.evaluate_expression_item(program, &expr.value) {
                    Ok(v) => v,
                    Err(e) => {
                        proof {
                            lemma_evolves_trans(*self, mid, pre);
                        }
                        return Err(e);
                    },
                };
                self.set_instance_field(program, instance_idx, expr.name.lexeme.clone(), value.clone());
                proof {
                    lemma_evolves_trans(*self, mid, pre);
                }
                Ok(value)
            },
            _ => Err(
                Error {
                    line: expr.name.line,
                    column: expr.name.column,
                    message: "Only instances have properties at ".to_owned().concat(
                        expr.name.lexeme.as_str(),
                    ),
                },
            ),
        }
    }

    /// `super.NAME`: reads the superclass through the recorded depth, the
    /// receiver through the `this` binding one frame closer, and hands
    /// back the named method - found on the superclass's chain - bound to
    /// that receiver; every other constellation is an undefined property.
    fn visit_super_expr(&mut self, program: &Program, expr: &SuperExpression) -> (r: Result<
        EnvironmentValue,
        Error,
    >)
        requires
            old(self).wf(*program),
            program_wf(*program),
            expr.id < program.id_count,
        ensures
            step_ok(*final(self), *old(self), *program),
            r matches Ok(v) ==> final(self).v_ok(*program, v),
            ({
                let pre = *old(self);
                match pre.scope_record@[expr.id as int] {
                    Some(d) => {
                        let target = spec_walk(pre.envs.list@, pre.envs.env_pos as int, d as nat);
                        match frame_lookup(pre.envs.list@[target].values@, expr.keyword.lexeme@) {
                            Some(EnvironmentValue::LoxClass(sc)) => {
                                let dt: nat = if d > 0 {
                                    (d - 1) as nat
                                } else {
                                    0nat
                                };
                                let t2 = spec_walk(pre.envs.list@, pre.envs.env_pos as int, dt);
                                match frame_lookup(pre.envs.list@[t2].values@, "this"@) {
                                    Some(EnvironmentValue::LoxInstance(inst)) => {
                                        match crate::lox_class::spec_find_method(
                                            pre.classes@,
                                            sc as int,
                                            expr.method.lexeme@,
                                        ) {
                                            Some(m) => (r matches Ok(b) && b matches
                                                EnvironmentValue::LoxFunction(bf) && bf.declaration
                                                == m.declaration && bf.is_initializer
                                                == m.is_initializer && final(self).envs.list@[
                                            bf.closure as int].previous == Some(m.closure)
                                                && final(self).envs.list@[
                                            bf.closure as int].values@.len() == 1 && final(self).envs.list@[bf.closure as int].values@[0].0@
                                                == "this"@ && final(self).envs.list@[
                                            bf.closure as int].values@[0].1
                                                == EnvironmentValue::LoxInstance(inst)),
                                            None => r is Err,
                                        }
                                    },
                                    _ => r is Err,
                                }
                            },
                            _ => r is Err,
                        }
                    },
                    None => r is Err,
                }
            }),
        decreases self.fuel, 1int,
    {
        let distance = match self.scope_record[expr.id] {
            Some(d) => d,
            None => {
                return Err(
                    Error {
                        line: expr.keyword.line,
                        column: expr.keyword.column,
                        message: "Undefined property ".to_owned().concat(expr.method.lexeme.as_str()),
                    },
                );
            },
        };
        proof {
            self.envs.lemma_walk_bounds(self.envs.env_pos as int, distance as nat);
        }
        let superclass = match self.envs.get_by_distance(&expr.keyword, distance) {
            Ok(v) => v,
            Err(e) => {
                return Err(e);
            },
        };
        proof {
            let target = spec_walk(self.envs.list@, self.envs.env_pos as int, distance as nat);
            crate::environment::lemma_frame_lookup_found(
                self.envs.list@[target].values@,
                expr.keyword.lexeme@,
            );
        }
        match superclass {
            EnvironmentValue::LoxClass(superclass_idx) => {
                let d_this = if distance > 0 {
                    distance - 1
                } else {
                    0
                };
                proof {
                    self.envs.lemma_walk_bounds(self.envs.env_pos as int, d_this as nat);
                }
                let obj = self.envs.get_by_distance_default("this", d_this);
                proof {
                    let target = spec_walk(self.envs.list@, self.envs.env_pos as int, d_this as nat);
                    crate::environment::lemma_frame_lookup_found(
                        self.envs.list@[target].values@,
                        "this"@,
                    );
                }
                match obj {
                    Some(EnvironmentValue::LoxInstance(instance_idx)) => {
                        match self.find_method(program, superclass_idx, &expr.method.lexeme) {
                            Some(method) => {
                                let bound = method.bind(self, program, instance_idx);
                                Ok(EnvironmentValue::LoxFunction(bound))
                            },
                            None => Err(
                                Error {
                                    line: expr.keyword.line,
                                    column: expr.keyword.column,
                                    message: "Undefined property ".to_owned().concat(
                                        expr.method.lexeme.as_str(),
                                    ),
                                },
                            ),
                        }
                    },
                    _ => Err(
                        Error {
                            line: expr.keyword.line,
                            column: expr.keyword.column,
                            message: "Undefined property ".to_owned().concat(
                                expr.method.lexeme.as_str(),
                            ),
                        },
                    ),
                }
            },
            _ => Err(
                Error {
                    line: expr.keyword.line,
                    column: expr.keyword.column,
                    message: "Undefined property ".to_owned().concat(expr.method.lexeme.as_str()),
                },
            ),
        }
    }

    /// Runs one statement to completion, yielding how control continues.
    pub fn evaluate_statement_item(&mut self, program: &Program, stmt: &Stmt) -> (r: Result<
        Flow,
        Error,
    >)
        requires
            old(self).wf(*program),
            program_wf(*program),
            stmt_wf(*stmt, program.id_count as int, program.functions@.len() as int),
        ensures
            step_ok(*final(self), *old(self), *program),
            r matches Ok(f) ==> (f matches Flow::Returning(v) ==> final(self).v_ok(*program, v)),
            r is Ok ==> final(self).fuel < old(self).fuel,
            *stmt matches Stmt::Print(ps) ==> ps.expression matches Expr::Literal(l) ==> old(self).fuel >= 2 ==> r is Ok && final(self).output@.len() == old(self).output@.len() + 1
                && final(self).output@.last()@ == (match l.value {
                Some(ValueType::Number(n)) => crate::numbers::num_text(n),
                Some(ValueType::String(sv)) => sv@,
                Some(ValueType::Bool(b)) => if b {
                    "true"@
                } else {
                    "false"@
                },
                None => "Nil"@,
            }),
            *stmt matches Stmt::Function(fun_idx) ==> r is Ok ==> frame_lookup(
                final(self).envs.list@[old(self).envs.env_pos as int].values@,
                program.functions@[fun_idx as int].name.lexeme@,
            ) == Some(
                EnvironmentValue::LoxFunction(
                    LoxFunction {
                        declaration: fun_idx,
                        closure: old(self).envs.env_pos,
                        is_initializer: false,
                    },
                ),
            ),
        decreases self.fuel, 0int,
    {
        self.consume_fuel()?;
        match stmt {
            Stmt::Function(fun_idx) => self.visit_function_stmt(program, *fun_idx),
            Stmt::If(stmt_if) => self.visit_if_stmt(program, stmt_if),
            Stmt::Expression(stmt_expression) => {
                let _ = self.evaluate_expression_item(program, &stmt_expression.expression)?;
                Ok(Flow::Normal)
            },
            Stmt::Print(stmt_print) => self.visit_print_stmt(program, stmt_print),
            Stmt::While(stmt_while) => self.visit_while_stmt(program, stmt_while),
            Stmt::For(stmt_for) => self.visit_for_stmt(program, stmt_for),
            Stmt::Var(stmt_var) => self.visit_var_stmt(program, stmt_var),
            Stmt::Block(stmt_block) => self.visit_block_stmt(program, &stmt_block.statements),
            Stmt::Return(stmt_return) => self.visit_return_stmt(program, stmt_return),
            Stmt::Class(stmt_class) => self.visit_class_stmt(program, stmt_class),
        }
    }

    /// Declaring a function binds, in the current frame, a function value
    /// that closes over exactly the frame that was current here.
    fn visit_function_stmt(&mut self, program: &Program, fun_idx: usize) -> (r: Result<Flow, Error>)
        requires
            old(self).wf(*program),
            program_wf(*program),
            fun_idx < program.functions@.len(),
        ensures
            step_ok(*final(self), *old(self), *program),
            r is Ok,
            r == Ok::<Flow, Error>(Flow::Normal),
            frame_lookup(
                final(self).envs.list@[old(self).envs.env_pos as int].values@,
                program.functions@[fun_idx as int].name.lexeme@,
            ) == Some(
                EnvironmentValue::LoxFunction(
                    LoxFunction {
                        declaration: fun_idx,
                        closure: old(self).envs.env_pos,
                        is_initializer: false,
                    },
                ),
            ),
        decreases self.fuel, 1int,
    {
        let lox_function = LoxFunction::new(fun_idx, self.envs.env_pos, false);
        let name = program.functions[fun_idx].name.lexeme.clone();
        self.define_value(program, name, EnvironmentValue::LoxFunction(lox_function));
        Ok(Flow::Normal)
    }

    fn visit_if_stmt(&mut self, program: &Program, stmt: &IfStatement) -> (r: Result<Flow, Error>)
        requires
            old(self).wf(*program),
            program_wf(*program),
            expr_wf(stmt.condition, program.id_count as int),
            stmt_wf(stmt.then_branch, program.id_count as int, program.functions@.len() as int),
            stmt.else_branch matches Some(e) ==> stmt_wf(
                e,
                program.id_count as int,
                program.functions@.len() as int,
            ),
        ensures
            step_ok(*final(self), *old(self), *program),
            r matches Ok(f) ==> (f matches Flow::Returning(v) ==> final(self).v_ok(*program, v)),
        decreases self.fuel, 1int,
    {
        let ghost pre = *self;
        let value = self.evaluate_expression_item(program, &stmt.condition)?;
        let ghost mid = *self;
        let r = if value.is_truthy() {
            self.evaluate_statement_item(program, &stmt.then_branch)
        } else {
            match &stmt.else_branch {
                Some(else_branch) => self.evaluate_statement_item(program, else_branch),
                None => Ok(Flow::Normal),
            }
        };
        proof {
            lemma_evolves_trans(*self, mid, pre);
        }
        r
    }

    /// Renders the value and appends it as one line of output; values
    /// without a printable form are refused. The line depends on the value
    /// alone, so printing the same value twice appends the same line twice.
    fn print_value(&mut self, value: &EnvironmentValue, keyword: &crate::tokens::Token) -> (r:
        Result<(), Error>)
        ensures
            final(self).envs == old(self).envs,
            final(self).classes == old(self).classes,
            final(self).instances == old(self).instances,
            final(self).scope_record == old(self).scope_record,
            final(self).fuel == old(self).fuel,
            r is Ok <==> spec_print_text(*value) is Some,
            r is Ok ==> final(self).output@.len() == old(self).output@.len() + 1 && final(self).output@.last()@ == spec_print_text(*value).unwrap() && forall|i: int|
                0 <= i < old(self).output@.len() ==> #[trigger] final(self).output@[i] == old(self).output@[i],
            r is Err ==> *final(self) == *old(self),
    {
        match value.as_print() {
            Ok(message) => {
                self.append_output(message);
                Ok(())
            },
            Err(_) => Err(
                Error {
                    line: keyword.line,
                    column: keyword.column,
                    message: "Lox only support print String/Boolean/Number".to_owned(),
                },
            ),
        }
    }

    fn visit_print_stmt(&mut self, program: &Program, stmt: &PrintStatement) -> (r: Result<
        Flow,
        Error,
    >)
        requires
            old(self).wf(*program),
            program_wf(*program),
            expr_wf(stmt.expression, program.id_count as int),
        ensures
            step_ok(*final(self), *old(self), *program),
            r matches Ok(f) ==> f is Normal,
            stmt.expression matches Expr::Literal(l) ==> old(self).fuel >= 1 ==> r is Ok && final(self).output@.len() == old(self).output@.len() + 1 && final(self).output@.last()@
                == (match l.value {
                Some(ValueType::Number(n)) => crate::numbers::num_text(n),
                Some(ValueType::String(sv)) => sv@,
                Some(ValueType::Bool(b)) => if b {
                    "true"@
                } else {
                    "false"@
                },
                None => "Nil"@,
            }),
        decreases self.fuel, 1int,
    {
        let ghost pre = *self;
        let value = self.evaluate_expression_item(program, &stmt.expression)?;
        let ghost mid = *self;
        match self.print_value(&value, &stmt.keyword) {
            Ok(_) => {
                proof {
                    lemma_evolves_trans(*self, mid, pre);
                }
                Ok(Flow::Normal)
            },
            Err(e) => Err(e),
        }
    }

    fn visit_while_stmt(&mut self, program: &Program, stmt: &WhileStatement) -> (r: Result<
        Flow,
        Error,
    >)
        requires
            old(self).wf(*program),
            program_wf(*program),
            expr_wf(stmt.condition, program.id_count as int),
            stmt_wf(stmt.body, program.id_count as int, program.functions@.len() as int),
        ensures
            step_ok(*final(self), *old(self), *program),
            r matches Ok(f) ==> (f matches Flow::Returning(v) ==> final(self).v_ok(*program, v)),
        decreases self.fuel, 1int,
    {
        loop
            invariant
                program_wf(*program),
                expr_wf(stmt.condition, program.id_count as int),
                stmt_wf(stmt.body, program.id_count as int, program.functions@.len() as int),
                self.wf(*program),
                evolves(*self, *old(self)),
                self.envs.env_pos == old(self).envs.env_pos,
            decreases self.fuel,
        {
            let ghost pre = *self;
            let c = match self.evaluate_expression_item(program, &stmt.condition) {
                Ok(v) => v,
                Err(e) => {
                    proof {
                        lemma_evolves_trans(*self, pre, *old(self));
                    }
                    return Err(e);
                },
            };
            proof {
                lemma_evolves_trans(*self, pre, *old(self));
            }
            if !c.is_truthy() {
                break ;
            }
            let ghost mid = *self;
            match self.evaluate_statement_item(program, &stmt.body) {
                Ok(Flow::Normal) => {
                    proof {
                        lemma_evolves_trans(*self, mid, *old(self));
                    }
                },
                Ok(Flow::Returning(v)) => {
                    proof {
                        lemma_evolves_trans(*self, mid, *old(self));
                    }
                    return Ok(Flow::Returning(v));
                },
                Err(e) => {
                    proof {
                        lemma_evolves_trans(*self, mid, *old(self));
                    }
                    return Err(e);
                },
            }
        }
        Ok(Flow::Normal)
    }

    /// `for` introduces its own frame around initializer, condition,
    /// update and body; with no condition the loop body never runs.
    fn visit_for_stmt(&mut self, program: &Program, stmt: &ForStatement) -> (r: Result<Flow, Error>)
        requires
            old(self).wf(*program),
            program_wf(*program),
            stmt.initializer matches Some(i) ==> stmt_wf(
                i,
                program.id_count as int,
                program.functions@.len() as int,
            ),
            stmt.condition matches Some(c) ==> expr_wf(c, program.id_count as int),
            stmt.updator matches Some(u) ==> expr_wf(u, program.id_count as int),
            stmt_wf(stmt.body, program.id_count as int, program.functions@.len() as int),
        ensures
            step_ok(*final(self), *old(self), *program),
            r matches Ok(f) ==> (f matches Flow::Returning(v) ==> final(self).v_ok(*program, v)),
            stmt.initializer is None && stmt.condition is None ==> r == Ok::<Flow, Error>(
                Flow::Normal,
            ) && final(self).output == old(self).output,
        decreases self.fuel, 1int,
    {
        let saved = self.push_frame(program, None);
        let ghost frame_idx = old(self).ne();
        match &stmt.initializer {
            Some(initializer) => {
                let ghost pre = *self;
                match self.evaluate_statement_item(program, initializer) {
                    Ok(Flow::Normal) => {
                        proof {
                            lemma_evolves_trans(*self, pre, *old(self));
                        }
                    },
                    Ok(Flow::Returning(v)) => {
                        proof {
                            lemma_evolves_trans(*self, pre, *old(self));
                        }
                        self.envs.back();
                        return Ok(Flow::Returning(v));
                    },
                    Err(e) => {
                        proof {
                            lemma_evolves_trans(*self, pre, *old(self));
                        }
                        self.envs.back();
                        return Err(e);
                    },
                }
            },
            None => {},
        }
        match &stmt.condition {
            Some(condition) => {
                loop
                    invariant
                        program_wf(*program),
                        stmt.condition is Some,
                        expr_wf(*condition, program.id_count as int),
                        stmt.updator matches Some(u) ==> expr_wf(u, program.id_count as int),
                        stmt_wf(
                            stmt.body,
                            program.id_count as int,
                            program.functions@.len() as int,
                        ),
                        self.wf(*program),
                        evolves(*self, *old(self)),
                        self.envs.env_pos == frame_idx,
                        frame_idx < self.ne(),
                        self.envs.list@[frame_idx as int].previous == Some(saved),
                        saved == old(self).envs.env_pos,
                    decreases self.fuel,
                {
                    let ghost pre = *self;
                    let c = match self.evaluate_expression_item(program, condition) {
                        Ok(v) => v,
                        Err(e) => {
                            proof {
                                lemma_evolves_trans(*self, pre, *old(self));
                            }
                            self.envs.back();
                            return Err(e);
                        },
                    };
                    proof {
                        lemma_evolves_trans(*self, pre, *old(self));
                    }
                    if !c.is_truthy() {
                        break ;
                    }
                    let ghost mid = *self;
                    match self.evaluate_statement_item(program, &stmt.body) {
                        Ok(Flow::Normal) => {
                            proof {
                                lemma_evolves_trans(*self, mid, *old(self));
                            }
                        },
                        Ok(Flow::Returning(v)) => {
                            proof {
                                lemma_evolves_trans(*self, mid, *old(self));
                            }
                            self.envs.back();
                            return Ok(Flow::Returning(v));
                        },
                        Err(e) => {
                            proof {
                                lemma_evolves_trans(*self, mid, *old(self));
                            }
                            self.envs.back();
                            return Err(e);
                        },
                    }
                    match &stmt.updator {
                        Some(updator) => {
                            let ghost mid2 = *self;
                            match self.evaluate_expression_item(program, updator) {
                                Ok(_) => {
                                    proof {
                                        lemma_evolves_trans(*self, mid2, *old(self));
                                    }
                                },
                                Err(e) => {
                                    proof {
                                        lemma_evolves_trans(*self, mid2, *old(self));
                                    }
                                    self.envs.back();
                                    return Err(e);
                                },
                            }
                        },
                        None => {},
                    }
                }
            },
            None => {},
        }
        self.envs.back();
        Ok(Flow::Normal)
    }

    fn visit_var_stmt(&mut self, program: &Program, stmt: &VarStatement) -> (r: Result<Flow, Error>)
        requires
            old(self).wf(*program),
            program_wf(*program),
            stmt.initializer matches Some(i) ==> expr_wf(i, program.id_count as int),
        ensures
            step_ok(*final(self), *old(self), *program),
            r matches Ok(f) ==> f is Normal,
            r is Ok ==> frame_lookup(
                final(self).envs.list@[old(self).envs.env_pos as int].values@,
                stmt.name.lexeme@,
            ) is Some,
            stmt.initializer is None ==> r is Ok && frame_lookup(
                final(self).envs.list@[old(self).envs.env_pos as int].values@,
                stmt.name.lexeme@,
            ) == Some(EnvironmentValue::Nil),
        decreases self.fuel, 1int,
    {
        let value = match &stmt.initializer {
            Some(initializer) => self.evaluate_expression_item(program, initializer)?,
            None => EnvironmentValue::Nil,
        };
        self.define_value(program, stmt.name.lexeme.clone(), value);
        Ok(Flow::Normal)
    }

    /// A block runs inside a fresh frame whose parent is the frame current
    /// here; the frame is left again on every exit path.
    fn visit_block_stmt(&mut self, program: &Program, statements: &Vec<Stmt>) -> (r: Result<
        Flow,
        Error,
    >)
        requires
            old(self).wf(*program),
            program_wf(*program),
            stmts_wf(statements@, program.id_count as int, program.functions@.len() as int),
        ensures
            step_ok(*final(self), *old(self), *program),
            r matches Ok(f) ==> (f matches Flow::Returning(v) ==> final(self).v_ok(*program, v)),
        decreases self.fuel, 2int,
    {
        let saved = self.push_frame(program, None);
        let ghost frame_idx = old(self).ne();
        let ghost pre = *self;
        let r = self.exec_statement_list(program, statements);
        proof {
            lemma_evolves_trans(*self, pre, *old(self));
        }
        self.envs.back();
        r
    }

    /// Runs the statements in order until one returns, errs, or the list
    /// is done.
    pub fn exec_statement_list(&mut self, program: &Program, stmts: &Vec<Stmt>) -> (r: Result<
        Flow,
        Error,
    >)
        requires
            old(self).wf(*program),
            program_wf(*program),
            stmts_wf(stmts@, program.id_count as int, program.functions@.len() as int),
        ensures
            step_ok(*final(self), *old(self), *program),
            r matches Ok(f) ==> (f matches Flow::Returning(v) ==> final(self).v_ok(*program, v)),
            stmts@.len() == 0 ==> r == Ok::<Flow, Error>(Flow::Normal) && *final(self) == *old(self),
        decreases self.fuel, 1int,
    {
        let n = stmts.len();
        if n == 0 {
            return Ok(Flow::Normal);
        }
        let mut i: usize = 0;
        while i < n
            invariant
                i <= n,
                n == stmts@.len(),
                program_wf(*program),
                stmts_wf(stmts@, program.id_count as int, program.functions@.len() as int),
                self.wf(*program),
                evolves(*self, *old(self)),
                self.envs.env_pos == old(self).envs.env_pos,
            decreases n - i,
        {
            let ghost pre = *self;
            match self.evaluate_statement_item(program, &stmts[i]) {
                Ok(Flow::Normal) => {
                    proof {
                        lemma_evolves_trans(*self, pre, *old(self));
                    }
                },
                Ok(Flow::Returning(v)) => {
                    proof {
                        lemma_evolves_trans(*self, pre, *old(self));
                    }
                    return Ok(Flow::Returning(v));
                },
                Err(e) => {
                    proof {
                        lemma_evolves_trans(*self, pre, *old(self));
                    }
                    return Err(e);
                },
            }
            i = i + 1;
        }
        Ok(Flow::Normal)
    }

    fn visit_return_stmt(&mut self, program: &Program, stmt: &ReturnStatement) -> (r: Result<
        Flow,
        Error,
    >)
        requires
            old(self).wf(*program),
            program_wf(*program),
            expr_wf(stmt.value, program.id_count as int),
        ensures
            step_ok(*final(self), *old(self), *program),
            r matches Ok(f) ==> (f matches Flow::Returning(v) ==> final(self).v_ok(*program, v)),
        decreases self.fuel, 1int,
    {
        let value = self.evaluate_expression_item(program, &stmt.value)?;
        Ok(Flow::Returning(value))
    }

    /// Declares the class: the name is bound first (so methods can refer
    /// to it), the superclass expression must evaluate to a class, method
    /// closures chain through an extra frame binding `super` when there is
    /// a superclass, and finally the name is assigned the finished class.
    fn visit_class_stmt(&mut self, program: &Program, stmt: &ClassStatement) -> (r: Result<
        Flow,
        Error,
    >)
        requires
            old(self).wf(*program),
            program_wf(*program),
            stmt.superclass matches Some(v) ==> v.id < program.id_count,
            forall|i: int|
                0 <= i < stmt.methods@.len() ==> #[trigger] stmt.methods@[i]
                    < program.functions@.len(),
        ensures
            step_ok(*final(self), *old(self), *program),
            r matches Ok(f) ==> f is Normal,
            stmt.superclass is None ==> r is Ok,
            r is Ok ==> final(self).nc() > old(self).nc() && ({
                let c = final(self).classes@[old(self).nc() as int];
                &&& c.name@ == stmt.name.lexeme@
                &&& c.methods@.len() == stmt.methods@.len()
                &&& (forall|k: int|
                    0 <= k < stmt.methods@.len() ==> {
                        let m = (#[trigger] c.methods@[k]).1;
                        &&& c.methods@[k].0@ == program.functions@[stmt.methods@[k] as int].name.lexeme@
                        &&& m.declaration == stmt.methods@[k]
                        &&& m.is_initializer == (program.functions@[
                            stmt.methods@[k] as int].name.lexeme@ == "init"@)
                    })
                &&& (stmt.superclass is None ==> c.superclass is None)
            }),
        decreases self.fuel, 1int,
    {
        self.define_value(program, stmt.name.lexeme.clone(), EnvironmentValue::Nil);

        let mut superclass_idx: Option<usize> = None;
        let mut pushed = false;
        let ghost after_define = *self;
        match &stmt.superclass {
            Some(superclass) => {
                let superclass_value = match self.visit_variable_expr(program, superclass) {
                    Ok(v) => v,
                    Err(e) => {
                        return Err(e);
                    },
                };
                match superclass_value {
                    EnvironmentValue::LoxClass(sc) => {
                        self.push_frame(program, None);
                        self.define_value(
                            program,
                            "super".to_owned(),
                            EnvironmentValue::LoxClass(sc),
                        );
                        superclass_idx = Some(sc);
                        pushed = true;
                    },
                    _ => {
                        return Err(
                            Error {
                                line: stmt.name.line,
                                column: stmt.name.column,
                                message: "Superclass must be a class at ".to_owned().concat(
                                    stmt.name.lexeme.as_str(),
                                ),
                            },
                        );
                    },
                }
            },
            None => {},
        }

        let init_key: String = "init".to_owned();
        let mut methods: Vec<(String, LoxFunction)> = Vec::new();
        let m = stmt.methods.len();
        let mut i: usize = 0;
        while i < m
            invariant
                i <= m,
                m == stmt.methods@.len(),
                program_wf(*program),
                forall|j: int|
                    0 <= j < stmt.methods@.len() ==> #[trigger] stmt.methods@[j]
                        < program.functions@.len(),
                self.wf(*program),
                evolves(*self, after_define),
                self.envs.env_pos < self.ne(),
                superclass_idx matches Some(sc) ==> sc < self.nc(),
                pushed ==> self.envs.list@[self.envs.env_pos as int].previous == Some(
                    after_define.envs.env_pos,
                ),
                pushed ==> self.envs.env_pos == after_define.ne(),
                !pushed ==> self.envs.env_pos == after_define.envs.env_pos,
                !pushed ==> self.envs == after_define.envs,
                stmt.superclass is None ==> !pushed,
                forall|k: int|
                    0 <= k < methods@.len() ==> fun_ok(
                        (#[trigger] methods@[k]).1,
                        program.functions@.len() as int,
                        self.ne(),
                    ),
                init_key@ == "init"@,
                methods@.len() == i,
                forall|k: int|
                    0 <= k < i ==> {
                        let mth = (#[trigger] methods@[k]).1;
                        &&& methods@[k].0@ == program.functions@[
                            stmt.methods@[k] as int].name.lexeme@
                        &&& mth.declaration == stmt.methods@[k]
                        &&& mth.is_initializer == (program.functions@[
                            stmt.methods@[k] as int].name.lexeme@ == "init"@)
                    },
            decreases m - i,
        {
            let fun_idx = stmt.methods[i];
            let method_name = program.functions[fun_idx].name.lexeme.clone();
            let is_init = method_name == init_key;
            let method = LoxFunction::new(fun_idx, self.envs.env_pos, is_init);
            methods.push((method_name, method));
            i = i + 1;
        }

        let lox_class = LoxClass::new(stmt.name.lexeme.clone(), superclass_idx, methods);
        if pushed {
            self.envs.back();
        }
        let class_idx = self.add_class(program, lox_class);
        proof {
            lemma_evolves_trans(*self, after_define, *old(self));
            if stmt.superclass is None {
                let pos = self.envs.env_pos as int;
                assert(frame_lookup(self.envs.list@[pos].values@, stmt.name.lexeme@) is Some);
                assert(EnvironmentList::spec_resolve(self.envs.list@, pos, stmt.name.lexeme@)
                    is Some);
            }
        }
        match self.assign_chain(
            program,
            &stmt.name,
            EnvironmentValue::LoxClass(class_idx),
        ) {
            Ok(_) => {
                proof {
                    lemma_evolves_trans(*self, after_define, *old(self));
                }
                Ok(Flow::Normal)
            },
            Err(e) => Err(e),
        }
    }

    /// Runs a whole program's statements against the globals.
    pub fn interpret(&mut self, program: &Program) -> (r: Result<(), Error>)
        requires
            old(self).wf(*program),
            program_wf(*program),
        ensures
            step_ok(*final(self), *old(self), *program),
    {
        match self.exec_statement_list(program, &program.statements) {
            Ok(_) => Ok(()),
            Err(e) => Err(e),
        }
    }
}

} // verus!
