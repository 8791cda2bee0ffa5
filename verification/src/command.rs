//! The instruction set and the decoding of source text.

use vstd::prelude::*;

verus! {

/// One instruction of the language.
#[derive(Debug, Clone, Copy, PartialEq, Eq, Structural)]
pub enum Command {
    /// `>`: move the data pointer one cell to the right.
    IncrementPointer,
    /// `<`: move the data pointer one cell to the left.
    DecrementPointer,
    /// `+`: add one to the current cell, wrapping at 256.
    Increment,
    /// `-`: subtract one from the current cell, wrapping below 0.
    Decrement,
    /// `.`: emit the current cell.
    Output,
    /// `,`: read one byte into the current cell.
    Input,
    /// `[`: skip the loop body if the current cell is zero.
    LoopStart,
    /// `]`: repeat the loop body if the current cell is not zero.
    LoopEnd,
}

/// The instruction that a character stands for, if it stands for one.
pub open spec fn command_of_char(c: char) -> Option<Command> {
    if c == '>' {
        Some(Command::IncrementPointer)
    } else if c == '<' {
        Some(Command::DecrementPointer)
    } else if c == '+' {
        Some(Command::Increment)
    } else if c == '-' {
        Some(Command::Decrement)
    } else if c == '.' {
        Some(Command::Output)
    } else if c == ',' {
        Some(Command::Input)
    } else if c == '[' {
        Some(Command::LoopStart)
    } else if c == ']' {
        Some(Command::LoopEnd)
    } else {
        None
    }
}

/// Whether a character is one of the eight instruction characters.
pub open spec fn is_command_char(c: char) -> bool {
    command_of_char(c) is Some
}

/// The instruction characters of a source text, in order.
pub open spec fn instruction_chars(source: Seq<char>) -> Seq<char> {
    source.filter(|c: char| is_command_char(c))
}

/// The instructions of a source text: its instruction characters, in order,
/// each mapped to its instruction. Every other character is a comment.
pub open spec fn decode(source: Seq<char>) -> Seq<Command> {
    instruction_chars(source).map_values(|c: char| command_of_char(c).unwrap())
}

/// Decoding a text extended by one character: the character's instruction is
/// appended if it has one, and nothing changes otherwise.
pub proof fn lemma_decode_push(source: Seq<char>, c: char)
    ensures
        decode(source.push(c)) == match command_of_char(c) {
            Some(cmd) => decode(source).push(cmd),
            None => decode(source),
        },
{
    let keep = |c: char| is_command_char(c);
    let extended = source.push(c);
    assert(extended.drop_last() == source);
    reveal_with_fuel(Seq::filter, 2);
    assert(extended.filter(keep) == if keep(c) {
        source.filter(keep).push(c)
    } else {
        source.filter(keep)
    });
    assert(decode(extended) =~= match command_of_char(c) {
        Some(cmd) => decode(source).push(cmd),
        None => decode(source),
    });
}

impl Command {
    /// Maps a character to its instruction; `None` for a comment character.
    pub fn from_char(c: char) -> (r: Option<Command>)
        ensures
            r == command_of_char(c),
    {
        match c {
            '>' => Some(Command::IncrementPointer),
            '<' => Some(Command::DecrementPointer),
            '+' => Some(Command::Increment),
            '-' => Some(Command::Decrement),
            '.' => Some(Command::Output),
            ',' => Some(Command::Input),
            '[' => Some(Command::LoopStart),
            ']' => Some(Command::LoopEnd),
            _ => None,
        }
    }

    /// Decodes a source text into its instruction sequence.
    pub fn decode_str(s: &str) -> (r: Vec<Command>)
        ensures
            r@ == decode(s@),
    {
        let mut out: Vec<Command> = Vec::new();
        assert(s@.take(0) == Seq::<char>::empty());
        for c in it: s.chars()
            invariant
                it.seq() == s@,
                out@ == decode(s@.take(it.index())),
        {
            proof {
                lemma_decode_push(s@.take(it.index()), c);
                assert(s@.take(it.index() + 1) == s@.take(it.index()).push(c));
            }
            match Command::from_char(c) {
                Some(cmd) => out.push(cmd),
                None => {},
            }
        }
        assert(s@.take(s@.len() as int) == s@);
        out
    }
}

} // verus!
