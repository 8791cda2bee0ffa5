//! Resolved programs: an instruction sequence with its loop jump table, and
//! the parser that builds one from source text.

use vstd::prelude::*;
use crate::bracket::{
    balanced,
    depth,
    earliest_unmatched_open,
    first_unmatched_close,
    is_resolved,
    paired,
    never_negative,
    pending,
};
use crate::command::{decode, instruction_chars, Command};
use crate::error::{BrainfuckError, StructuralError};

verus! {

/// A validated program: its instructions and, for every bracket, the index of
/// its partner.
#[derive(Debug)]
pub struct ResolvedProgram {
    commands: Vec<Command>,
    jumps: Vec<usize>,
}

/// What `resolve` knows of the first `upto` instructions while it walks the
/// sequence: every `]` has its partner recorded, and every `[` either has it
/// recorded too or is still open.
spec fn resolved_upto(s: Seq<Command>, jumps: Seq<usize>, upto: int) -> bool {
    &&& jumps.len() == upto
    &&& forall|k: int|
        0 <= k < upto ==> match #[trigger] s[k] {
            Command::LoopStart => pending(s, k, upto) || (jumps[k] < upto && paired(
                s,
                k,
                jumps[k] as int,
            )),
            Command::LoopEnd => paired(s, jumps[k] as int, k),
            _ => jumps[k] == k,
        }
}

/// The stack of open loops in front of instruction `upto`: entry `d` is the
/// `[` that raised the depth from `d` to `d + 1` and is still open.
spec fn open_loops(s: Seq<Command>, stack: Seq<usize>, upto: int) -> bool {
    &&& stack.len() == depth(s, upto)
    &&& forall|d: int|
        0 <= d < stack.len() ==> pending(s, (#[trigger] stack[d]) as int, upto) && depth(
            s,
            stack[d] as int,
        ) == d
}

impl ResolvedProgram {
    /// The instructions, in order.
    pub closed spec fn commands_spec(&self) -> Seq<Command> {
        self.commands@
    }

    /// The jump table: at the index of a bracket, the index of its partner;
    /// at any other index, that index itself.
    pub closed spec fn jumps_spec(&self) -> Seq<usize> {
        self.jumps@
    }

    /// The invariant of a resolved program: the brackets are balanced and the
    /// jump table holds each bracket's partner.
    pub open spec fn wf(&self) -> bool {
        &&& balanced(self.commands_spec())
        &&& is_resolved(self.commands_spec(), self.jumps_spec())
    }

    #[verifier::type_invariant]
    pub open spec fn type_inv(&self) -> bool {
        self.wf()
    }

    /// The program without instructions.
    pub fn empty() -> (r: ResolvedProgram)
        ensures
            r.wf(),
            r.commands_spec() == Seq::<Command>::empty(),
            r.jumps_spec() == Seq::<usize>::empty(),
    {
        ResolvedProgram { commands: Vec::new(), jumps: Vec::new() }
    }

    /// The number of instructions.
    pub fn len(&self) -> (r: usize)
        ensures
            r == self.commands_spec().len(),
    {
        self.commands.len()
    }

    /// The instruction at `index`, or `None` behind the last one.
    pub fn command(&self, index: usize) -> (r: Option<Command>)
        ensures
            r == if index < self.commands_spec().len() {
                Some(self.commands_spec()[index as int])
            } else {
                None
            },
    {
        if index < self.commands.len() {
            Some(self.commands[index])
        } else {
            None
        }
    }

    /// The partner of the bracket at `index`: `None` where `index` holds no
    /// bracket or lies behind the last instruction.
    pub fn jump(&self, index: usize) -> (r: Option<usize>)
        ensures
            self.wf(),
            r == if index < self.commands_spec().len() && self.commands_spec()[index as int]
                is LoopStart {
                Some(self.jumps_spec()[index as int])
            } else if index < self.commands_spec().len() && self.commands_spec()[index as int]
                is LoopEnd {
                Some(self.jumps_spec()[index as int])
            } else {
                None
            },
    {
        proof {
            use_type_invariant(self);
        }
        if index < self.commands.len() {
            match self.commands[index] {
                Command::LoopStart => Some(self.jumps[index]),
                Command::LoopEnd => Some(self.jumps[index]),
                _ => None,
            }
        } else {
            None
        }
    }

    /// The instruction at `index`.
    pub(crate) fn command_at(&self, index: usize) -> (r: Command)
        requires
            index < self.commands_spec().len(),
        ensures
            r == self.commands_spec()[index as int],
    {
        self.commands[index]
    }

    /// The jump table's entry at `index`, which for a bracket is the index
    /// of its partner and so lies inside the program.
    pub(crate) fn partner_at(&self, index: usize) -> (r: usize)
        requires
            index < self.commands_spec().len(),
        ensures
            r == self.jumps_spec()[index as int],
            r < self.commands_spec().len(),
    {
        proof {
            use_type_invariant(self);
            let s = self.commands_spec();
            let k = index as int;
            assert(match #[trigger] s[k] {
                Command::LoopStart => paired(s, k, self.jumps_spec()[k] as int),
                Command::LoopEnd => paired(s, self.jumps_spec()[k] as int, k),
                _ => self.jumps_spec()[k] == k,
            });
        }
        self.jumps[index]
    }

    /// The instructions, in order.
    pub fn commands(&self) -> (r: &Vec<Command>)
        ensures
            r@ == self.commands_spec(),
    {
        &self.commands
    }

    /// Gives up the jump table and hands out the instructions.
    pub fn into_commands(self) -> (r: Vec<Command>)
        ensures
            r@ == self.commands_spec(),
    {
        self.commands
    }

    /// Matches the brackets of an instruction sequence and builds its jump
    /// table, or reports the first structural defect.
    pub fn resolve(commands: Vec<Command>) -> (r: Result<ResolvedProgram, StructuralError>)
        ensures
            r is Ok <==> balanced(commands@),
            match r {
                Ok(program) => program.wf() && program.commands_spec() == commands@,
                Err(StructuralError::UnmatchedCloseBracket { position }) => first_unmatched_close(
                    commands@,
                    position as int,
                ),
                Err(StructuralError::UnmatchedOpenBracket { position }) => earliest_unmatched_open(
                    commands@,
                    position as int,
                ),
            },
    {
        let ghost s = commands@;
        let n: usize = commands.len();
        let mut stack: Vec<usize> = Vec::new();
        let mut jumps: Vec<usize> = Vec::new();
        let mut i: usize = 0;
        while i < n
            invariant
                s == commands@,
                n == s.len(),
                0 <= i <= n,
                never_negative(s, i as int),
                open_loops(s, stack@, i as int),
                resolved_upto(s, jumps@, i as int),
            decreases n - i,
        {
            let ghost old_stack = stack@;
            match commands[i] {
                Command::LoopStart => {
                    stack.push(i);
                    jumps.push(i);
                },
                Command::LoopEnd => {
                    match stack.pop() {
                        None => {
                            proof {
                                crate::bracket::lemma_verdict_unique(s, i as int, 0);
                            }
                            return Err(StructuralError::UnmatchedCloseBracket { position: i });
                        },
                        Some(open) => {
                            assert(open == old_stack[old_stack.len() - 1]);
                            jumps.set(open, i);
                            jumps.push(open);
                            proof {
                                assert(paired(s, open as int, i as int));
                                assert forall|k: int| 0 <= k < i && s[k] == Command::LoopStart
                                    && pending(s, k, i as int) && k != open implies pending(
                                    s,
                                    k,
                                    i + 1,
                                ) by {
                                    assert(depth(s, i as int) > depth(s, k));
                                    if k < open {
                                        assert(depth(s, open as int) > depth(s, k));
                                    } else {
                                        assert(depth(s, k) > depth(s, open as int));
                                    }
                                }
                            }
                        },
                    }
                },
                _ => {
                    jumps.push(i);
                },
            }
            proof {
                assert(depth(s, i + 1) == depth(s, i as int) + crate::bracket::depth_change(
                    s[i as int],
                ));
                assert forall|d: int| 0 <= d < stack@.len() implies pending(
                    s,
                    (#[trigger] stack@[d]) as int,
                    i + 1,
                ) && depth(s, stack@[d] as int) == d by {
                    if d < old_stack.len() {
                        assert(stack@[d] == old_stack[d]);
                        assert(pending(s, old_stack[d] as int, i as int));
                        assert(depth(s, i as int) > depth(s, old_stack[d] as int));
                    }
                }
                assert forall|k: int| 0 <= k < i + 1 implies match #[trigger] s[k] {
                    Command::LoopStart => pending(s, k, i + 1) || (jumps@[k] < i + 1 && paired(
                        s,
                        k,
                        jumps@[k] as int,
                    )),
                    Command::LoopEnd => paired(s, jumps@[k] as int, k),
                    _ => jumps@[k] == k,
                } by {
                    if k < i {
                        if s[k] == Command::LoopStart && pending(s, k, i as int) {
                            assert(depth(s, i as int) > depth(s, k));
                        }
                    }
                }
            }
            i = i + 1;
        }
        if stack.len() > 0 {
            let position = stack[0];
            proof {
                assert(pending(s, stack@[0] as int, n as int));
                crate::bracket::lemma_verdict_unique(s, position as int, 0);
            }
            return Err(StructuralError::UnmatchedOpenBracket { position });
        }
        proof {
            assert(balanced(s));
            assert forall|k: int| 0 <= k < s.len() implies match #[trigger] s[k] {
                Command::LoopStart => paired(s, k, jumps@[k] as int),
                Command::LoopEnd => paired(s, jumps@[k] as int, k),
                _ => jumps@[k] == k,
            } by {
                crate::bracket::lemma_balanced_none_pending(s, k);
            }
        }
        Ok(ResolvedProgram { commands, jumps })
    }
}

/// Decodes a source text and resolves its loops. Characters that are no
/// instruction are skipped; the text is accepted exactly if its brackets are
/// balanced, and the program then has one instruction for each instruction
/// character.
pub fn parse(source: &str) -> (r: Result<ResolvedProgram, StructuralError>)
    ensures
        r is Ok <==> balanced(decode(source@)),
        match r {
            Ok(program) => {
                &&& program.wf()
                &&& program.commands_spec() == decode(source@)
                &&& program.commands_spec().len() == instruction_chars(source@).len()
            },
            Err(StructuralError::UnmatchedCloseBracket { position }) => first_unmatched_close(
                decode(source@),
                position as int,
            ),
            Err(StructuralError::UnmatchedOpenBracket { position }) => earliest_unmatched_open(
                decode(source@),
                position as int,
            ),
        },
{
    ResolvedProgram::resolve(Command::decode_str(source))
}

impl Command {
    /// Decodes a source text and checks its brackets, without keeping the
    /// jump table. The error says only which kind of bracket is missing: a
    /// closing one exactly if no `]` came without its `[`.
    pub fn parse_string(s: &str) -> (r: Result<Vec<Command>, BrainfuckError>)
        ensures
            r is Ok <==> balanced(decode(s@)),
            match r {
                Ok(commands) => commands@ == decode(s@),
                Err(e) => e == BrainfuckError::MissingBracketError(
                    never_negative(decode(s@), decode(s@).len() as int),
                ),
            },
    {
        match parse(s) {
            Ok(program) => Ok(program.into_commands()),
            Err(e) => {
                proof {
                    if e is UnmatchedCloseBracket {
                        crate::bracket::lemma_close_goes_negative(
                            decode(s@),
                            e.position_spec() as int,
                        );
                    }
                }
                Err(e.coarse())
            },
        }
    }
}

impl Clone for ResolvedProgram {
    fn clone(&self) -> (r: Self)
        ensures
            r.wf(),
            r.commands_spec() == self.commands_spec(),
            r.jumps_spec() == self.jumps_spec(),
    {
        proof {
            use_type_invariant(self);
        }
        let commands = self.commands.clone();
        let jumps = self.jumps.clone();
        assert(commands@ =~= self.commands@);
        assert(jumps@ =~= self.jumps@);
        ResolvedProgram { commands, jumps }
    }
}

} // verus!
