//! Text for the serial line.

use vstd::prelude::*;
use vstd::string::StringExecFns;

verus! {

/// The text that prints `out` as a line on the serial port: `out`, then a line
/// feed.
#[allow(non_snake_case)]
pub fn serialPrintln(out: &str) -> (line: String)
    ensures
        line@ == out@.push('\n'),
{
    let mut line = String::from_str(out);
    proof {
        reveal_strlit("\n");
        assert("\n"@ =~= seq!['\n']);
    }
    line.append("\n");
    assert(line@ =~= out@.push('\n'));
    line
}

} // verus!
