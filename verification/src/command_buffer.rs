use vstd::prelude::*;

verus! {

/// The character that a backspace key sends.
pub const BACKSPACE: char = '\x08';

/// The command line after the character `c` arrived: a backspace drops
/// the last character, if there is one; a line feed empties the line; any
/// other character is added at the end.
pub open spec fn line_after(line: Seq<char>, c: char) -> Seq<char> {
    if c == BACKSPACE {
        if line.len() > 0 {
            line.drop_last()
        } else {
            line
        }
    } else if c == '\n' {
        Seq::empty()
    } else {
        line.push(c)
    }
}

/// Takes one typed character into the command line. A line feed ends the
/// line: the finished line comes back, and the buffer is left empty. For
/// any other character nothing comes back.
pub fn received_char(c: char, command_buffer: &mut Vec<char>) -> (finished: Option<Vec<char>>)
    ensures
        final(command_buffer)@ == line_after(old(command_buffer)@, c),
        c == '\n' ==> finished is Some && finished.unwrap()@ == old(command_buffer)@,
        c != '\n' ==> finished is None,
{
    if c == BACKSPACE {
        command_buffer.pop();
        None
    } else if c == '\n' {
        let mut line: Vec<char> = Vec::new();
        std::mem::swap(command_buffer, &mut line);
        Some(line)
    } else {
        command_buffer.push(c);
        None
    }
}

} // verus!
