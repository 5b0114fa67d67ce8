//! Console commands: `/exit`, `/reload`, `/reset`, or an expression for the
//! script sandbox.
use vstd::prelude::*;
use vstd::string::*;

verus! {

/// One line typed at the console.
#[derive(Clone, Debug, PartialEq, Eq)]
pub enum ConsoleMsg {
    /// An expression to evaluate in the script sandbox.
    Command(String),
    Reload,
    Reset,
    Exit,
}

/// Reads one console line: the reserved words `/exit`, `/reload` and
/// `/reset`, and any other line as an expression.
pub fn parse_command(s: String) -> (r: ConsoleMsg)
    ensures
        s@ == "/exit"@ ==> r == ConsoleMsg::Exit,
        s@ == "/reload"@ ==> r == ConsoleMsg::Reload,
        s@ == "/reset"@ ==> r == ConsoleMsg::Reset,
        s@ != "/exit"@ && s@ != "/reload"@ && s@ != "/reset"@ ==> r == ConsoleMsg::Command(s),
{
    proof {
        reveal_strlit("/exit");
        reveal_strlit("/reload");
        reveal_strlit("/reset");
        assert("/reload"@.len() != "/exit"@.len());
        assert("/reset"@[3] != "/exit"@[3]);
        assert("/reset"@.len() != "/reload"@.len());
    }
    if s == String::from_str("/exit") {
        ConsoleMsg::Exit
    } else if s == String::from_str("/reload") {
        ConsoleMsg::Reload
    } else if s == String::from_str("/reset") {
        ConsoleMsg::Reset
    } else {
        ConsoleMsg::Command(s)
    }
}

} // verus!
