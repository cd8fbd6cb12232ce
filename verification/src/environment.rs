use crate::environment_value::EnvironmentValue;
use crate::tokens::Token;
use vstd::prelude::*;

verus! {

/// One lexical frame: its bindings, newest last, and the index of its
/// lexical parent. Only frame 0, the global frame, has no parent.
pub struct Frame {
    pub values: Vec<(String, EnvironmentValue)>,
    pub previous: Option<usize>,
}

/// The binding a frame holds for `name`: the newest entry wins.
pub open spec fn frame_lookup(vals: Seq<(String, EnvironmentValue)>, name: Seq<char>) -> Option<
    EnvironmentValue,
>
    decreases vals.len(),
{
    if vals.len() == 0 {
        None
    } else if vals.last().0@ == name {
        Some(vals.last().1)
    } else {
        frame_lookup(vals.drop_last(), name)
    }
}

/// A binding that a lookup returns is one of the frame's entries, so any
/// fact that holds of every stored value holds of it.
pub proof fn lemma_frame_lookup_found(vals: Seq<(String, EnvironmentValue)>, name: Seq<char>)
    ensures
        frame_lookup(vals, name) matches Some(v) ==> exists|k: int|
            0 <= k < vals.len() && (#[trigger] vals[k]).1 == v,
    decreases vals.len(),
{
    if vals.len() > 0 {
        if vals.last().0@ == name {
            assert(vals[vals.len() - 1].1 == vals.last().1);
        } else {
            lemma_frame_lookup_found(vals.drop_last(), name);
            match frame_lookup(vals.drop_last(), name) {
                Some(v) => {
                    let k = choose|k: int|
                        0 <= k < vals.drop_last().len() && (#[trigger] vals.drop_last()[k]).1 == v;
                    assert(vals[k].1 == v);
                },
                None => {},
            }
        }
    }
}

/// The parent link of the frame at index `i` may only point below `i`.
pub open spec fn parent_below(f: Frame, i: int) -> bool {
    match f.previous {
        Some(p) => p < i,
        None => true,
    }
}

/// The arena of frames. `env_pos` is the frame that is current; frames are
/// linked to their lexical parents by index, so a function value can keep
/// its defining scope alive merely by remembering an index.
pub struct EnvironmentList {
    pub list: Vec<Frame>,
    pub env_pos: usize,
}

/// Walks `d` parent links from `from`, stopping early at the global frame.
pub open spec fn spec_walk(frames: Seq<Frame>, from: int, d: nat) -> int
    decreases d,
{
    if d == 0 {
        from
    } else {
        match frames[from].previous {
            None => from,
            Some(p) => spec_walk(frames, p as int, (d - 1) as nat),
        }
    }
}

impl EnvironmentList {
    /// Well-formedness: the global frame exists and is its own root, the
    /// current position is live, and parent links only point downward, so
    /// every parent chain reaches frame 0.
    pub open spec fn wf(self) -> bool {
        &&& self.list@.len() > 0
        &&& self.env_pos < self.list@.len()
        &&& self.list@[0].previous is None
        &&& forall|i: int| 0 <= i < self.list@.len() ==> parent_below(#[trigger] self.list@[i], i)
    }

    /// Walking parent links from a live frame lands on a live frame no
    /// higher than where it started.
    pub proof fn lemma_walk_bounds(self, from: int, d: nat)
        requires
            self.wf(),
            0 <= from < self.list@.len(),
        ensures
            0 <= spec_walk(self.list@, from, d) <= from,
        decreases d,
    {
        if d > 0 {
            match self.list@[from].previous {
                None => {},
                Some(p) => {
                    self.lemma_walk_bounds(p as int, (d - 1) as nat);
                },
            }
        }
    }

    /// Every parent chain reaches the global frame: walking at least as
    /// many links as the frame's own index always lands on frame 0's
    /// chain end, the one frame with no parent.
    pub proof fn lemma_chain_reaches_global(self, from: int, d: nat)
        requires
            self.wf(),
            0 <= from < self.list@.len(),
            d >= from,
        ensures
            self.list@[spec_walk(self.list@, from, d)].previous is None,
        decreases from,
    {
        match self.list@[from].previous {
            None => {},
            Some(p) => {
                assert(parent_below(self.list@[from], from));
                self.lemma_chain_reaches_global(p as int, (d - 1) as nat);
            },
        }
    }

    pub fn new() -> (r: Self)
        ensures
            r.wf(),
            r.env_pos == 0,
            r.list@.len() == 1,
            r.list@[0].values@.len() == 0,
            r.list@[0].previous is None,
    {
        let mut list: Vec<Frame> = Vec::new();
        list.push(Frame { values: Vec::new(), previous: None });
        EnvironmentList { list, env_pos: 0 }
    }

    /// Binds `name` in the current frame, shadowing any older binding.
    pub fn define(&mut self, name: String, value: EnvironmentValue)
        requires
            old(self).wf(),
        ensures
            final(self).wf(),
            final(self).env_pos == old(self).env_pos,
            final(self).list@.len() == old(self).list@.len(),
            final(self).list@[old(self).env_pos as int].values@ == old(self).list@[old(self).env_pos as int].values@.push((name, value)),
            final(self).list@[old(self).env_pos as int].previous == old(self).list@[old(self).env_pos as int].previous,
            forall|j: int|
                0 <= j < final(self).list@.len() && j != old(self).env_pos ==> final(self).list@[j]
                    == old(self).list@[j],
    {
        let pos = self.env_pos;
        self.list[pos].values.push((name, value));
    }

    /// Reads `name` in the frame `distance` parent links up from the
    /// current frame; errs, with the token's position, exactly when that
    /// frame has no such binding.
    pub fn get_by_distance(&self, name: &Token, distance: usize) -> (r: Result<
        EnvironmentValue,
        crate::tokens::Error,
    >)
        requires
            self.wf(),
        ensures
            r matches Ok(v) ==> frame_lookup(
                self.list@[spec_walk(self.list@, self.env_pos as int, distance as nat)].values@,
                name.lexeme@,
            ) == Some(v),
            r is Err <==> frame_lookup(
                self.list@[spec_walk(self.list@, self.env_pos as int, distance as nat)].values@,
                name.lexeme@,
            ) is None,
    {
        proof {
            self.lemma_walk_bounds(self.env_pos as int, distance as nat);
        }
        match self.get_by_distance_default(name.lexeme.as_str(), distance) {
            Some(v) => Ok(v),
            None => Err(
                crate::tokens::Error {
                    line: name.line,
                    column: name.column,
                    message: "Undefined variable at ".to_owned().concat(name.lexeme.as_str()),
                },
            ),
        }
    }

    /// Reads `name` in the frame `distance` parent links up, or nothing if
    /// that frame does not bind it.
    pub fn get_by_distance_default(&self, name: &str, distance: usize) -> (r: Option<
        EnvironmentValue,
    >)
        requires
            self.wf(),
        ensures
            r == frame_lookup(
                self.list@[spec_walk(self.list@, self.env_pos as int, distance as nat)].values@,
                name@,
            ),
    {
        proof {
            self.lemma_walk_bounds(self.env_pos as int, distance as nat);
        }
        let mut pos = self.env_pos;
        let mut steps: usize = 0;
        while steps < distance
            invariant
                self.wf(),
                steps <= distance,
                0 <= pos < self.list@.len(),
                spec_walk(self.list@, self.env_pos as int, distance as nat) == spec_walk(
                    self.list@,
                    pos as int,
                    (distance - steps) as nat,
                ),
            decreases distance - steps,
        {
            match self.list[pos].previous {
                Some(p) => {
                    pos = p;
                    steps = steps + 1;
                },
                None => {
                    assert(spec_walk(self.list@, pos as int, (distance - steps) as nat) == pos);
                    steps = distance;
                },
            }
        }
        assert(pos as int == spec_walk(self.list@, self.env_pos as int, distance as nat));
        self.frame_get(pos, name)
    }

    /// Reads `name` in the frame at index `pos`.
    fn frame_get(&self, pos: usize, name: &str) -> (r: Option<EnvironmentValue>)
        requires
            pos < self.list@.len(),
        ensures
            r == frame_lookup(self.list@[pos as int].values@, name@),
    {
        let key: String = name.to_owned();
        let n = self.list[pos].values.len();
        assert(self.list@[pos as int].values@.take(n as int) =~= self.list@[pos as int].values@);
        let mut i: usize = n;
        while i > 0
            invariant
                pos < self.list@.len(),
                key@ == name@,
                i <= self.list@[pos as int].values@.len(),
                frame_lookup(self.list@[pos as int].values@, name@) == frame_lookup(
                    self.list@[pos as int].values@.take(i as int),
                    name@,
                ),
            decreases i,
        {
            let entry_name = &self.list[pos].values[i - 1].0;
            assert(self.list@[pos as int].values@.take(i as int).last() == self.list@[
                pos as int].values@[i - 1]);
            assert(self.list@[pos as int].values@.take(i as int).drop_last() =~= self.list@[
                pos as int].values@.take(i - 1));
            if *entry_name == key {
                return Some(self.list[pos].values[i - 1].1.clone());
            }
            i = i - 1;
        }
        assert(self.list@[pos as int].values@.take(0) =~= Seq::<(
            String,
            EnvironmentValue,
        )>::empty());
        None
    }

    /// Writes `name` in the frame `distance` parent links up from the
    /// current frame, creating or shadowing the binding there.
    pub fn assign_by_distance(&mut self, name: &Token, distance: usize, value: EnvironmentValue)
        requires
            old(self).wf(),
        ensures
            final(self).wf(),
            final(self).env_pos == old(self).env_pos,
            final(self).list@.len() == old(self).list@.len(),
            forall|j: int|
                0 <= j < final(self).list@.len() ==> #[trigger] final(self).list@[j].previous
                    == old(self).list@[j].previous,
            ({
                let target = spec_walk(old(self).list@, old(self).env_pos as int, distance as nat);
                &&& final(self).list@[target].values@ == old(self).list@[target].values@.push(
                    (name.lexeme, value),
                )
                &&& forall|j: int|
                    0 <= j < final(self).list@.len() && j != target ==> final(self).list@[j] == old(self).list@[j]
            }),
    {
        proof {
            self.lemma_walk_bounds(self.env_pos as int, distance as nat);
        }
        let mut pos = self.env_pos;
        let mut steps: usize = 0;
        while steps < distance
            invariant
                self.wf(),
                steps <= distance,
                0 <= pos < self.list@.len(),
                self == old(self),
                spec_walk(self.list@, self.env_pos as int, distance as nat) == spec_walk(
                    self.list@,
                    pos as int,
                    (distance - steps) as nat,
                ),
            decreases distance - steps,
        {
            match self.list[pos].previous {
                Some(p) => {
                    pos = p;
                    steps = steps + 1;
                },
                None => {
                    assert(spec_walk(self.list@, pos as int, (distance - steps) as nat) == pos);
                    steps = distance;
                },
            }
        }
        assert(pos as int == spec_walk(self.list@, self.env_pos as int, distance as nat));
        self.list[pos].values.push((name.lexeme.clone(), value));
    }

    /// The first frame on the parent chain from `from` that binds `name`.
    pub open spec fn spec_resolve(frames: Seq<Frame>, from: int, name: Seq<char>) -> Option<int>
        decreases from + 1,
    {
        if from < 0 || from >= frames.len() {
            None
        } else if frame_lookup(frames[from].values@, name) is Some {
            Some(from)
        } else {
            match frames[from].previous {
                None => None,
                Some(p) => if p < from {
                    Self::spec_resolve(frames, p as int, name)
                } else {
                    None
                },
            }
        }
    }

    /// A frame that the chain search names is a live frame.
    pub proof fn lemma_resolve_in_range(frames: Seq<Frame>, from: int, name: Seq<char>)
        ensures
            Self::spec_resolve(frames, from, name) matches Some(t) ==> 0 <= t < frames.len(),
        decreases from + 1,
    {
        if 0 <= from < frames.len() {
            if frame_lookup(frames[from].values@, name) is Some {
            } else {
                match frames[from].previous {
                    Some(p) => {
                        if p < from {
                            Self::lemma_resolve_in_range(frames, p as int, name);
                        }
                    },
                    None => {},
                }
            }
        }
    }

    /// Writes `name` in the nearest enclosing frame that already binds it,
    /// walking parent links from the current frame; errs, leaving every
    /// frame unchanged, exactly when no frame on that chain binds it.
    pub fn assign(&mut self, name: &Token, value: EnvironmentValue) -> (r: Result<
        (),
        crate::tokens::Error,
    >)
        requires
            old(self).wf(),
        ensures
            final(self).wf(),
            final(self).env_pos == old(self).env_pos,
            final(self).list@.len() == old(self).list@.len(),
            forall|j: int|
                0 <= j < final(self).list@.len() ==> #[trigger] final(self).list@[j].previous
                    == old(self).list@[j].previous,
            r is Ok <==> Self::spec_resolve(
                old(self).list@,
                old(self).env_pos as int,
                name.lexeme@,
            ) is Some,
            r is Ok ==> ({
                let target = Self::spec_resolve(
                    old(self).list@,
                    old(self).env_pos as int,
                    name.lexeme@,
                ).unwrap();
                &&& final(self).list@[target].values@ == old(self).list@[target].values@.push(
                    (name.lexeme, value),
                )
                &&& forall|j: int|
                    0 <= j < final(self).list@.len() && j != target ==> final(self).list@[j] == old(self).list@[j]
            }),
            r is Err ==> *final(self) == *old(self),
    {
        let mut pos = self.env_pos;
        loop
            invariant
                self.wf(),
                0 <= pos < self.list@.len(),
                *self == *old(self),
                Self::spec_resolve(old(self).list@, old(self).env_pos as int, name.lexeme@)
                    == Self::spec_resolve(self.list@, pos as int, name.lexeme@),
            decreases pos,
        {
            if self.frame_get(pos, name.lexeme.as_str()).is_some() {
                self.list[pos].values.push((name.lexeme.clone(), value));
                return Ok(());
            }
            match self.list[pos].previous {
                Some(p) => {
                    assert(parent_below(self.list@[pos as int], pos as int));
                    pos = p;
                },
                None => {
                    return Err(
                        crate::tokens::Error {
                            line: name.line,
                            column: name.column,
                            message: "Undefined variable at ".to_owned().concat(
                                name.lexeme.as_str(),
                            ),
                        },
                    );
                },
            }
        }
    }

    /// Opens a fresh frame whose parent is `previous` (or the current frame
    /// when absent), makes it current, and returns the index that was
    /// current before.
    pub fn next(&mut self, previous: Option<usize>) -> (r: usize)
        requires
            old(self).wf(),
            previous matches Some(p) ==> p < old(self).list@.len(),
        ensures
            final(self).wf(),
            r == old(self).env_pos,
            final(self).env_pos == old(self).list@.len(),
            final(self).list@.len() == old(self).list@.len() + 1,
            forall|j: int|
                0 <= j < old(self).list@.len() ==> final(self).list@[j] == old(self).list@[j],
            final(self).list@.last().values@.len() == 0,
            final(self).list@.last().previous == Some(
                match previous {
                    Some(p) => p,
                    None => old(self).env_pos,
                },
            ),
    {
        let from_pos = self.env_pos;
        let parent = match previous {
            Some(p) => p,
            None => self.env_pos,
        };
        self.list.push(Frame { values: Vec::new(), previous: Some(parent) });
        self.env_pos = self.list.len() - 1;
        from_pos
    }

    /// Leaves the current frame, restoring its parent as current. The frame
    /// itself stays in the arena: a closure made inside it may still point
    /// at it.
    pub fn back(&mut self)
        requires
            old(self).wf(),
            old(self).list@[old(self).env_pos as int].previous is Some,
        ensures
            final(self).wf(),
            final(self).list == old(self).list,
            final(self).env_pos == old(self).list@[old(self).env_pos as int].previous.unwrap(),
    {
        let pos = self.env_pos;
        match self.list[pos].previous {
            Some(p) => {
                self.env_pos = p;
            },
            None => {},
        }
    }

    /// Makes the frame at `env_pos` current; the call machinery uses this
    /// to run a body inside a frame it prepared earlier.
    pub fn go_to_env_by_pos(&mut self, env_pos: usize)
        requires
            old(self).wf(),
            env_pos < old(self).list@.len(),
        ensures
            final(self).wf(),
            final(self).list == old(self).list,
            final(self).env_pos == env_pos,
    {
        self.env_pos = env_pos;
    }

    /// Reads `name` in the global frame; errs exactly when it is unbound.
    pub fn global_get(&self, name: &Token) -> (r: Result<EnvironmentValue, crate::tokens::Error>)
        requires
            self.wf(),
        ensures
            r matches Ok(v) ==> frame_lookup(self.list@[0].values@, name.lexeme@) == Some(v),
            r is Err <==> frame_lookup(self.list@[0].values@, name.lexeme@) is None,
    {
        match self.frame_get(0, name.lexeme.as_str()) {
            Some(v) => Ok(v),
            None => Err(
                crate::tokens::Error {
                    line: name.line,
                    column: name.column,
                    message: "Undefined variable at ".to_owned().concat(name.lexeme.as_str()),
                },
            ),
        }
    }

    /// Writes `name` in the global frame, creating or shadowing it.
    pub fn global_assign(&mut self, name: &Token, value: EnvironmentValue)
        requires
            old(self).wf(),
        ensures
            final(self).wf(),
            final(self).env_pos == old(self).env_pos,
            final(self).list@.len() == old(self).list@.len(),
            final(self).list@[0].values@ == old(self).list@[0].values@.push((name.lexeme, value)),
            final(self).list@[0].previous == old(self).list@[0].previous,
            forall|j: int|
                0 < j < final(self).list@.len() ==> final(self).list@[j] == old(self).list@[j],
    {
        self.list[0].values.push((name.lexeme.clone(), value));
    }

    /// Reads `name` in the frame at index `pos`.
    pub fn get_with_pos(&self, name: &str, pos: usize) -> (r: Option<EnvironmentValue>)
        requires
            self.wf(),
            pos < self.list@.len(),
        ensures
            r == frame_lookup(self.list@[pos as int].values@, name@),
    {
        self.frame_get(pos, name)
    }
}

} // verus!
