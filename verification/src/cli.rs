//! The command-line tool's texts: its version line and its usage text.
use vstd::prelude::*;
use crate::text::push_str;

verus! {

/// `tmats X.Y.Z (irig106-tmats X.Y.Z)`: the tool and the library are
/// released in lockstep, so both carry the library's version.
pub open spec fn version_line_text() -> Seq<char> {
    "tmats "@ + crate::VERSION@ + " (irig106-tmats "@ + crate::VERSION@ + ")"@
}

/// The body of the usage text, after the version line.
pub open spec fn usage_body() -> Seq<char> {
    "\nView, extract, and check IRIG 106 Chapter 9 TMATS.\n\nUsage: tmats [-h | --help] [-V | --version]\n\nCommands are not implemented yet. The planned set is show, extract,\nchecksum, verify, stamp, validate and diff.\n"@
}

/// The version line.
pub fn version_line() -> (r: String)
    ensures
        r@ == version_line_text(),
{
    let mut s = String::new();
    push_str(&mut s, "tmats ");
    push_str(&mut s, crate::VERSION);
    push_str(&mut s, " (irig106-tmats ");
    push_str(&mut s, crate::VERSION);
    push_str(&mut s, ")");
    s
}

/// The usage text: the version line, then what the tool does and how to call it.
pub fn help_text() -> (r: String)
    ensures
        r@ == version_line_text() + usage_body(),
{
    let mut s = version_line();
    push_str(
        &mut s,
        "\nView, extract, and check IRIG 106 Chapter 9 TMATS.\n\nUsage: tmats [-h | --help] [-V | --version]\n\nCommands are not implemented yet. The planned set is show, extract,\nchecksum, verify, stamp, validate and diff.\n",
    );
    s
}

} // verus!
