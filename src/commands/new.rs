//! The `new` subcommand: its arguments, and the shell escaping of the kit's
//! path that the generated build files use.

use vstd::prelude::*;

verus! {

/// Arguments of `new`: the name of the project directory to create.
pub struct Args {
    pub name: String,
}

/// Whether a shell gives `c` a meaning of its own, so that it must be
/// preceded by a backslash to stand for itself.
pub open spec fn is_shell_special(c: char) -> bool {
    c == ' ' || c == '\t' || c == '\n' || c == ';' || c == '&' || c == '|' || c == '<'
        || c == '>' || c == '(' || c == ')' || c == '$' || c == '`' || c == '\\' || c == '"'
        || c == '\'' || c == '*' || c == '?' || c == '[' || c == ']' || c == '#' || c == '~'
        || c == '='
}

/// The text that stands for `c` in an escaped path.
pub open spec fn escaped_char(c: char) -> Seq<char> {
    if is_shell_special(c) {
        seq!['\\', c]
    } else {
        seq![c]
    }
}

/// `s` with a backslash put before each shell-special character.
pub open spec fn escaped(s: Seq<char>) -> Seq<char>
    decreases s.len(),
{
    if s.len() == 0 {
        seq![]
    } else {
        escaped(s.drop_last()) + escaped_char(s.last())
    }
}

fn shell_special(c: char) -> (r: bool)
    ensures
        r == is_shell_special(c),
{
    c == ' ' || c == '\t' || c == '\n' || c == ';' || c == '&' || c == '|' || c == '<'
        || c == '>' || c == '(' || c == ')' || c == '$' || c == '`' || c == '\\' || c == '"'
        || c == '\'' || c == '*' || c == '?' || c == '[' || c == ']' || c == '#' || c == '~'
        || c == '='
}

/// Escapes `path` for a shell command line: every shell-special character is
/// preceded by a backslash, all others are kept as they are.
pub fn escape_path(path: &str) -> (r: String)
    ensures
        r@ == escaped(path@),
{
    broadcast use vstd::string::group_string_axioms;

    let mut result = String::new();
    for c in it: path.chars()
        invariant
            it.seq() == path@,
            result@ == escaped(path@.take(it.index() as int)),
    {
        assert(path@.take(it.index() + 1).drop_last() == path@.take(it.index() as int));
        if shell_special(c) {
            result.push('\\');
        }
        result.push(c);
    }
    assert(path@.take(path@.len() as int) == path@);
    result
}

} // verus!
