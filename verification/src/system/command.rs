//! Commands as values. The library says which tool is to be run with which
//! arguments; running it is left to the program around the library.

use vstd::prelude::*;
use vstd::string::StringExecFns;

verus! {

/// A call of a system tool.
#[derive(Debug, Clone)]
pub struct ToolCommand {
    /// The name of the tool.
    pub program: String,
    /// Its arguments, in order.
    pub args: Vec<String>,
}

/// A list of texts as a sequence of character sequences.
pub open spec fn texts_view(texts: Seq<String>) -> Seq<Seq<char>> {
    Seq::new(texts.len(), |i: int| texts[i]@)
}

impl ToolCommand {
    /// The arguments as character sequences.
    pub open spec fn args_view(&self) -> Seq<Seq<char>> {
        texts_view(self.args@)
    }

    /// A call of `program` without arguments.
    pub fn new(program: &str) -> (cmd: Self)
        ensures
            cmd.program@ == program@,
            cmd.args_view() == Seq::<Seq<char>>::empty(),
    {
        let cmd = ToolCommand { program: String::from_str(program), args: Vec::new() };
        assert(cmd.args_view() =~= Seq::<Seq<char>>::empty());
        cmd
    }

    /// Adds one argument at the end.
    pub fn arg(&mut self, arg: &str)
        ensures
            final(self).program@ == old(self).program@,
            final(self).args_view() == old(self).args_view().push(arg@),
    {
        self.args.push(String::from_str(arg));
        assert(self.args_view() =~= old(self).args_view().push(arg@));
    }
}

/// The character of a decimal digit.
pub open spec fn digit_char(d: nat) -> char
    recommends
        d < 10,
{
    if d == 0 {
        '0'
    } else if d == 1 {
        '1'
    } else if d == 2 {
        '2'
    } else if d == 3 {
        '3'
    } else if d == 4 {
        '4'
    } else if d == 5 {
        '5'
    } else if d == 6 {
        '6'
    } else if d == 7 {
        '7'
    } else if d == 8 {
        '8'
    } else {
        '9'
    }
}

/// A number written in decimal, without leading zeros.
pub open spec fn decimal_chars(n: nat) -> Seq<char>
    decreases n,
{
    if n < 10 {
        seq![digit_char(n)]
    } else {
        decimal_chars(n / 10).push(digit_char(n % 10))
    }
}

/// The text of a decimal digit.
fn digit_text(d: u64) -> (text: &'static str)
    requires
        d < 10,
    ensures
        text@ == seq![digit_char(d as nat)],
{
    proof {
        reveal_strlit("0");
        reveal_strlit("1");
        reveal_strlit("2");
        reveal_strlit("3");
        reveal_strlit("4");
        reveal_strlit("5");
        reveal_strlit("6");
        reveal_strlit("7");
        reveal_strlit("8");
        reveal_strlit("9");
    }
    let text: &'static str = if d == 0 {
        "0"
    } else if d == 1 {
        "1"
    } else if d == 2 {
        "2"
    } else if d == 3 {
        "3"
    } else if d == 4 {
        "4"
    } else if d == 5 {
        "5"
    } else if d == 6 {
        "6"
    } else if d == 7 {
        "7"
    } else if d == 8 {
        "8"
    } else {
        "9"
    };
    assert(text@ =~= seq![digit_char(d as nat)]);
    text
}

/// Writes a number in decimal.
pub fn to_decimal(n: u64) -> (text: String)
    ensures
        text@ == decimal_chars(n as nat),
    decreases n,
{
    if n < 10 {
        String::from_str(digit_text(n))
    } else {
        let mut text = to_decimal(n / 10);
        text.append(digit_text(n % 10));
        assert(text@ =~= decimal_chars((n / 10) as nat).push(digit_char((n % 10) as nat)));
        text
    }
}

} // verus!
