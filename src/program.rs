use vstd::prelude::*;
use vstd::string::*;
use crate::instruction::{Instruction, is_symbol, symbol_of};

verus! {

/// Why a source text could not be turned into a program.
#[derive(Copy, Clone, Debug, PartialEq, Eq, Structural)]
pub enum Error {
    /// A `]` with no open `[` before it; the index it would have had in the program.
    MissingOpenBracket(usize),
    /// The number of `[` that were never closed.
    MissingCloseBracket(usize),
}

/// The instruction characters of a source text, in order, comments removed.
pub open spec fn symbols(s: Seq<char>) -> Seq<char>
    decreases s.len(),
{
    if s.len() == 0 {
        Seq::empty()
    } else if is_symbol(s.last()) {
        symbols(s.drop_last()).push(s.last())
    } else {
        symbols(s.drop_last())
    }
}

/// How a character changes the bracket depth.
pub open spec fn bracket_delta(c: char) -> int {
    if c == '[' {
        1
    } else if c == ']' {
        -1
    } else {
        0
    }
}

/// Open brackets minus close brackets in `t`.
pub open spec fn depth(t: Seq<char>) -> int
    decreases t.len(),
{
    if t.len() == 0 {
        0
    } else {
        depth(t.drop_last()) + bracket_delta(t.last())
    }
}

/// The bracket depth before position `k` of `t`.
pub open spec fn depth_at(t: Seq<char>, k: int) -> int {
    depth(t.take(k))
}

/// The index of the first `]` of `t` that closes nothing, if there is one.
pub open spec fn first_unmatched_close(t: Seq<char>) -> Option<nat>
    decreases t.len(),
{
    if t.len() == 0 {
        None
    } else {
        match first_unmatched_close(t.drop_last()) {
            Some(k) => Some(k),
            None => if depth(t) < 0 {
                Some((t.len() - 1) as nat)
            } else {
                None
            },
        }
    }
}

/// Every bracket of `t` has a partner.
pub open spec fn balanced(t: Seq<char>) -> bool {
    first_unmatched_close(t) is None && depth(t) == 0
}

/// The `[` at `i` of `t` is closed by the `]` at `j`: `j` is the first
/// position after `i` at which the depth comes back to its level before `i`.
pub open spec fn matches(t: Seq<char>, i: int, j: int) -> bool {
    &&& 0 <= i < j < t.len()
    &&& t[i] == '['
    &&& depth_at(t, j + 1) == depth_at(t, i)
    &&& forall|k: int| i < k <= j ==> #[trigger] depth_at(t, k) > depth_at(t, i)
}

/// The text of an instruction list.
pub open spec fn render(p: Seq<Instruction>) -> Seq<char> {
    p.map_values(|i: Instruction| symbol_of(i))
}

/// Each bracket of `p` names its partner in the rendered text.
pub open spec fn resolved(p: Seq<Instruction>) -> bool {
    forall|i: int|
        0 <= i < p.len() ==> match #[trigger] p[i] {
            Instruction::SkipForward(t) => matches(render(p), i, t as int),
            Instruction::SkipBackward(o) => matches(render(p), o as int, i),
            _ => true,
        }
}

/// An instruction list that parsing can produce.
pub open spec fn well_formed(p: Seq<Instruction>) -> bool {
    balanced(render(p)) && resolved(p)
}

proof fn lemma_symbols_push(s: Seq<char>, c: char)
    ensures
        symbols(s.push(c)) == (if is_symbol(c) {
            symbols(s).push(c)
        } else {
            symbols(s)
        }),
{
    assert(s.push(c).drop_last() =~= s);
}

proof fn lemma_symbols_concat(a: Seq<char>, b: Seq<char>)
    ensures
        symbols(a + b) == symbols(a) + symbols(b),
    decreases b.len(),
{
    if b.len() == 0 {
        assert(a + b =~= a);
        assert(symbols(a) + symbols(b) =~= symbols(a));
    } else {
        let b0 = b.drop_last();
        lemma_symbols_concat(a, b0);
        assert(a + b =~= (a + b0).push(b.last()));
        assert(b =~= b0.push(b.last()));
        lemma_symbols_push(a + b0, b.last());
        lemma_symbols_push(b0, b.last());
        assert((symbols(a) + symbols(b0)).push(b.last()) =~= symbols(a) + symbols(b0).push(
            b.last(),
        ));
    }
}

proof fn lemma_push_unfold(t: Seq<char>, c: char)
    ensures
        depth(t.push(c)) == depth(t) + bracket_delta(c),
        first_unmatched_close(t.push(c)) == (match first_unmatched_close(t) {
            Some(k) => Some(k),
            None => if depth(t) + bracket_delta(c) < 0 {
                Some(t.len())
            } else {
                None
            },
        }),
        forall|k: int| 0 <= k <= t.len() ==> #[trigger] depth_at(t.push(c), k) == depth_at(t, k),
        depth_at(t.push(c), t.len() + 1int) == depth(t) + bracket_delta(c),
{
    assert(t.push(c).drop_last() =~= t);
    assert forall|k: int| 0 <= k <= t.len() implies #[trigger] depth_at(t.push(c), k) == depth_at(
        t,
        k,
    ) by {
        assert(t.push(c).take(k) =~= t.take(k));
    }
    assert(t.push(c).take(t.len() + 1int) =~= t.push(c));
}

proof fn lemma_first_unmatched_extends(t: Seq<char>, u: Seq<char>)
    requires
        first_unmatched_close(t) is Some,
    ensures
        first_unmatched_close(t + u) == first_unmatched_close(t),
    decreases u.len(),
{
    if u.len() == 0 {
        assert(t + u =~= t);
    } else {
        let u0 = u.drop_last();
        lemma_first_unmatched_extends(t, u0);
        assert(t + u =~= (t + u0).push(u.last()));
        lemma_push_unfold(t + u0, u.last());
    }
}

proof fn lemma_matches_push(t: Seq<char>, c: char, i: int, j: int)
    requires
        matches(t, i, j),
    ensures
        matches(t.push(c), i, j),
{
    lemma_push_unfold(t, c);
    assert forall|k: int| i < k <= j implies #[trigger] depth_at(t.push(c), k) > depth_at(
        t.push(c),
        i,
    ) by {
        assert(depth_at(t, k) > depth_at(t, i));
    }
}

/// A rendered instruction list holds instruction characters only.
pub proof fn lemma_render_symbols(p: Seq<Instruction>)
    ensures
        symbols(render(p)) == render(p),
    decreases p.len(),
{
    if p.len() > 0 {
        let front = p.drop_last();
        lemma_render_symbols(front);
        assert(render(p) =~= render(front).push(symbol_of(p.last())));
        lemma_symbols_push(render(front), symbol_of(p.last()));
    } else {
        assert(render(p) =~= Seq::<char>::empty());
    }
}

proof fn lemma_depth_at_step(t: Seq<char>, k: int)
    requires
        0 <= k < t.len(),
    ensures
        depth_at(t, k + 1) == depth_at(t, k) + bracket_delta(t[k]),
{
    assert(t.take(k + 1).drop_last() =~= t.take(k));
}

proof fn lemma_close_unique(t: Seq<char>, i: int, j1: int, j2: int)
    requires
        matches(t, i, j1),
        matches(t, i, j2),
    ensures
        j1 == j2,
{
    if j1 < j2 {
        assert(depth_at(t, j1 + 1) > depth_at(t, i));
    } else if j2 < j1 {
        assert(depth_at(t, j2 + 1) > depth_at(t, i));
    }
}

proof fn lemma_open_unique(t: Seq<char>, i1: int, i2: int, j: int)
    requires
        matches(t, i1, j),
        matches(t, i2, j),
    ensures
        i1 == i2,
{
    if i1 < i2 {
        assert(depth_at(t, i2) > depth_at(t, i1));
    } else if i2 < i1 {
        assert(depth_at(t, i1) > depth_at(t, i2));
    }
}

/// In a well-formed program every `SkipForward(t)` at `i` has
/// `SkipBackward(i)` at `t`, and every `SkipBackward(o)` at `j` has
/// `SkipForward(j)` at `o`.
pub proof fn lemma_partners(p: Seq<Instruction>)
    requires
        well_formed(p),
    ensures
        forall|i: int|
            0 <= i < p.len() ==> match #[trigger] p[i] {
                Instruction::SkipForward(t) => t < p.len() && p[t as int]
                    == Instruction::SkipBackward(i as usize),
                Instruction::SkipBackward(o) => o < i && p[o as int] == Instruction::SkipForward(
                    i as usize,
                ),
                _ => true,
            },
{
    let r = render(p);
    assert forall|i: int| 0 <= i < p.len() implies match #[trigger] p[i] {
        Instruction::SkipForward(t) => t < p.len() && p[t as int] == Instruction::SkipBackward(
            i as usize,
        ),
        Instruction::SkipBackward(o) => o < i && p[o as int] == Instruction::SkipForward(
            i as usize,
        ),
        _ => true,
    } by {
        match p[i] {
            Instruction::SkipForward(t) => {
                let t = t as int;
                assert(matches(r, i, t));
                lemma_depth_at_step(r, t);
                assert(depth_at(r, t) > depth_at(r, i));
                assert(r[t] == symbol_of(p[t]));
                match p[t] {
                    Instruction::SkipBackward(o) => {
                        lemma_open_unique(r, o as int, i, t);
                    },
                    _ => {},
                }
            },
            Instruction::SkipBackward(o) => {
                let o = o as int;
                assert(matches(r, o, i));
                assert(r[o] == symbol_of(p[o]));
                match p[o] {
                    Instruction::SkipForward(t) => {
                        lemma_close_unique(r, o, t as int, i);
                    },
                    _ => {},
                }
            },
            _ => {},
        }
    }
}

/// Rendering a well-formed program and parsing the text again gives the
/// same instructions: the text is free of comments and balanced, and any
/// well-formed program with that text is `p` itself.
pub proof fn lemma_round_trip(p: Seq<Instruction>, q: Seq<Instruction>)
    requires
        well_formed(p),
        well_formed(q),
        render(q) == symbols(render(p)),
    ensures
        symbols(render(p)) == render(p),
        balanced(symbols(render(p))),
        q == p,
{
    lemma_render_symbols(p);
    let r = render(p);
    assert(q.len() == p.len()) by {
        assert(render(q).len() == q.len());
    }
    assert forall|i: int| 0 <= i < p.len() implies q[i] == p[i] by {
        assert(render(q)[i] == r[i]);
        assert(symbol_of(q[i]) == symbol_of(p[i]));
        match (p[i], q[i]) {
            (Instruction::SkipForward(t1), Instruction::SkipForward(t2)) => {
                lemma_close_unique(r, i, t1 as int, t2 as int);
            },
            (Instruction::SkipBackward(o1), Instruction::SkipBackward(o2)) => {
                lemma_open_unique(r, o1 as int, o2 as int, i);
            },
            _ => {},
        }
    }
    assert(q =~= p);
}

/// A parsed brainfuck program: instructions with resolved jump targets.
#[derive(Debug)]
pub struct Program {
    asl: Vec<Instruction>,
}

impl View for Program {
    type V = Seq<Instruction>;

    closed spec fn view(&self) -> Seq<Instruction> {
        self.asl@
    }
}

impl Program {
    #[verifier::type_invariant]
    spec fn inv(&self) -> bool {
        well_formed(self.asl@)
    }

    /// Compile source text into a program, matching every bracket.
    ///
    /// Characters that are not instructions are comments and are skipped.
    /// A `]` that closes nothing gives `MissingOpenBracket` with the index it
    /// would have had; otherwise open brackets left at the end give
    /// `MissingCloseBracket` with their number.
    pub fn parse(source: &str) -> (r: Result<Program, Error>)
        ensures
            r is Ok <==> balanced(symbols(source@)),
            match r {
                Ok(p) => balanced(symbols(source@)) && render(p@) == symbols(source@)
                    && well_formed(p@),
                Err(Error::MissingOpenBracket(k)) => first_unmatched_close(symbols(source@))
                    == Some(k as nat),
                Err(Error::MissingCloseBracket(n)) => first_unmatched_close(symbols(source@))
                    is None && depth(symbols(source@)) == n && n > 0,
            },
    {
        let mut asl: Vec<Instruction> = Vec::new();
        let mut stack: Vec<usize> = Vec::new();
        let ghost mut done: Seq<char> = Seq::empty();
        for c in it: source.chars()
            invariant
                it.seq() == source@,
                done == source@.take(it.index() as int),
                render(asl@) == symbols(done),
                first_unmatched_close(symbols(done)) is None,
                depth(symbols(done)) == stack@.len(),
                forall|k: int|
                    0 <= k < stack@.len() ==> {
                        &&& (#[trigger] stack@[k]) < asl@.len()
                        &&& symbols(done)[stack@[k] as int] == '['
                        &&& depth_at(symbols(done), stack@[k] as int) == k
                        &&& forall|m: int|
                            stack@[k] < m <= asl@.len() ==> #[trigger] depth_at(symbols(done), m)
                                > k
                    },
                forall|i: int|
                    0 <= i < asl@.len() ==> match #[trigger] asl@[i] {
                        Instruction::SkipForward(t) => stack@.contains(i as usize) || matches(
                            symbols(done),
                            i,
                            t as int,
                        ),
                        Instruction::SkipBackward(o) => matches(symbols(done), o as int, i),
                        _ => true,
                    },
        {
            let ghost before = symbols(done);
            proof {
                assert(source@.take(it.index() + 1) =~= done.push(c));
                lemma_symbols_push(done, c);
                lemma_push_unfold(before, c);
                done = done.push(c);
            }
            let ghost n = asl@.len() as int;
            let ghost old_asl = asl@;
            let ghost old_stack = stack@;
            if c == '>' || c == '<' || c == '+' || c == '-' || c == '.' || c == ',' {
                let ins = if c == '>' {
                    Instruction::IncPtr
                } else if c == '<' {
                    Instruction::DecPtr
                } else if c == '+' {
                    Instruction::IncVal
                } else if c == '-' {
                    Instruction::DecVal
                } else if c == '.' {
                    Instruction::Output
                } else {
                    Instruction::Input
                };
                asl.push(ins);
                proof {
                    assert(render(asl@) =~= render(old_asl).push(c));
                    assert forall|i: int| 0 <= i < asl@.len() implies match #[trigger] asl@[i] {
                        Instruction::SkipForward(t) => stack@.contains(i as usize) || matches(
                            symbols(done),
                            i,
                            t as int,
                        ),
                        Instruction::SkipBackward(o) => matches(symbols(done), o as int, i),
                        _ => true,
                    } by {
                        if i < n {
                            assert(asl@[i] == old_asl[i]);
                            match old_asl[i] {
                                Instruction::SkipForward(t) => {
                                    if !stack@.contains(i as usize) {
                                        lemma_matches_push(before, c, i, t as int);
                                    }
                                },
                                Instruction::SkipBackward(o) => {
                                    lemma_matches_push(before, c, o as int, i);
                                },
                                _ => {},
                            }
                        }
                    }
                }
            } else if c == '[' {
                stack.push(asl.len());
                asl.push(Instruction::SkipForward(0));
                proof {
                    assert(render(asl@) =~= render(old_asl).push(c));
                    assert(stack@[old_stack.len() as int] == n);
                    assert forall|i: int| 0 <= i < asl@.len() implies match #[trigger] asl@[i] {
                        Instruction::SkipForward(t) => stack@.contains(i as usize) || matches(
                            symbols(done),
                            i,
                            t as int,
                        ),
                        Instruction::SkipBackward(o) => matches(symbols(done), o as int, i),
                        _ => true,
                    } by {
                        if i < n {
                            assert(asl@[i] == old_asl[i]);
                            match old_asl[i] {
                                Instruction::SkipForward(t) => {
                                    if old_stack.contains(i as usize) {
                                        let k = choose|k: int|
                                            0 <= k < old_stack.len() && old_stack[k] == i as usize;
                                        assert(stack@[k] == i as usize);
                                    } else {
                                        lemma_matches_push(before, c, i, t as int);
                                    }
                                },
                                Instruction::SkipBackward(o) => {
                                    lemma_matches_push(before, c, o as int, i);
                                },
                                _ => {},
                            }
                        } else {
                            assert(stack@[old_stack.len() as int] == i as usize);
                        }
                    }
                }
            } else if c == ']' {
                let here = asl.len();
                match stack.pop() {
                    Some(open) => {
                        asl.set(open, Instruction::SkipForward(here));
                        asl.push(Instruction::SkipBackward(open));
                        proof {
                            let top = old_stack.len() - 1;
                            assert(old_stack[top] == open);
                            assert(render(asl@) =~= render(old_asl).push(c)) by {
                                assert(symbol_of(old_asl[open as int]) == '[');
                            }
                            assert(matches(symbols(done), open as int, n)) by {
                                assert forall|k: int| open < k <= n implies #[trigger] depth_at(
                                    symbols(done),
                                    k,
                                ) > depth_at(symbols(done), open as int) by {
                                    assert(depth_at(before, k) > top);
                                }
                            }
                            assert forall|i: int|
                                0 <= i < asl@.len() implies match #[trigger] asl@[i] {
                                Instruction::SkipForward(t) => stack@.contains(i as usize)
                                    || matches(symbols(done), i, t as int),
                                Instruction::SkipBackward(o) => matches(
                                    symbols(done),
                                    o as int,
                                    i,
                                ),
                                _ => true,
                            } by {
                                if i < n && i != open {
                                    assert(asl@[i] == old_asl[i]);
                                    match old_asl[i] {
                                        Instruction::SkipForward(t) => {
                                            if old_stack.contains(i as usize) {
                                                let k = choose|k: int|
                                                    0 <= k < old_stack.len() && old_stack[k]
                                                        == i as usize;
                                                assert(k != top);
                                                assert(stack@[k] == i as usize);
                                            } else {
                                                lemma_matches_push(before, c, i, t as int);
                                            }
                                        },
                                        Instruction::SkipBackward(o) => {
                                            lemma_matches_push(before, c, o as int, i);
                                        },
                                        _ => {},
                                    }
                                }
                            }
                            assert forall|k: int| 0 <= k < stack@.len() implies {
                                &&& (#[trigger] stack@[k]) < asl@.len()
                                &&& symbols(done)[stack@[k] as int] == '['
                                &&& depth_at(symbols(done), stack@[k] as int) == k
                                &&& forall|m: int|
                                    stack@[k] < m <= asl@.len() ==> #[trigger] depth_at(
                                        symbols(done),
                                        m,
                                    ) > k
                            } by {
                                assert(stack@[k] == old_stack[k]);
                                assert forall|m: int| stack@[k] < m <= asl@.len() implies #[trigger] depth_at(
                                    symbols(done),
                                    m,
                                ) > k by {
                                    if m <= n {
                                        assert(depth_at(before, m) > k);
                                    }
                                }
                            }
                        }
                    },
                    None => {
                        proof {
                            let rest = source@.skip(done.len() as int);
                            assert(source@ =~= done + rest);
                            lemma_symbols_concat(done, rest);
                            lemma_first_unmatched_extends(symbols(done), symbols(rest));
                        }
                        return Err(Error::MissingOpenBracket(here));
                    },
                }
            }
        }
        proof {
            assert(done =~= source@);
        }
        if stack.len() > 0 {
            return Err(Error::MissingCloseBracket(stack.len()));
        }
        proof {
            assert forall|i: int| 0 <= i < asl@.len() implies match #[trigger] asl@[i] {
                Instruction::SkipForward(t) => matches(render(asl@), i, t as int),
                Instruction::SkipBackward(o) => matches(render(asl@), o as int, i),
                _ => true,
            } by {
                match asl@[i] {
                    Instruction::SkipForward(t) => {
                        assert(!stack@.contains(i as usize));
                    },
                    _ => {},
                }
            }
        }
        Ok(Program { asl })
    }

    /// The program as text: one character per instruction.
    pub fn to_string(&self) -> (s: String)
        ensures
            s@ == render(self@),
    {
        let mut s = String::new();
        let mut i: usize = 0;
        while i < self.asl.len()
            invariant
                i <= self.asl@.len(),
                s@ == render(self.asl@.take(i as int)),
            decreases self.asl@.len() - i,
        {
            let piece = match self.asl[i] {
                Instruction::IncPtr => ">",
                Instruction::DecPtr => "<",
                Instruction::IncVal => "+",
                Instruction::DecVal => "-",
                Instruction::Output => ".",
                Instruction::Input => ",",
                Instruction::SkipForward(_) => "[",
                Instruction::SkipBackward(_) => "]",
            };
            proof {
                reveal_strlit(">");
                reveal_strlit("<");
                reveal_strlit("+");
                reveal_strlit("-");
                reveal_strlit(".");
                reveal_strlit(",");
                reveal_strlit("[");
                reveal_strlit("]");
                assert(piece@ =~= seq![symbol_of(self.asl@[i as int])]);
            }
            s.append(piece);
            proof {
                assert(render(self.asl@.take(i + 1)) =~= render(self.asl@.take(i as int)) + piece@);
            }
            i = i + 1;
        }
        proof {
            assert(self.asl@.take(i as int) =~= self.asl@);
        }
        s
    }

    /// The instruction at `iptr`, or `None` past the end.
    pub fn get(&self, iptr: usize) -> (r: Option<Instruction>)
        ensures
            well_formed(self@),
            self@.len() <= usize::MAX,
            r == (if iptr < self@.len() {
                Some(self@[iptr as int])
            } else {
                None
            }),
    {
        proof {
            use_type_invariant(self);
        }
        if iptr < self.asl.len() {
            Some(self.asl[iptr])
        } else {
            None
        }
    }

    /// The number of instructions.
    pub fn len(&self) -> (n: usize)
        ensures
            n == self@.len(),
    {
        self.asl.len()
    }
}

} // verus!
