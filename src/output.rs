//! Choice of the sink that the rendered image is written to.

use vstd::prelude::*;
use vstd::string::StrSliceExecFns;

verus! {

/// Whether `c` has the Unicode `White_Space` property.
pub open spec fn is_white_space(c: char) -> bool {
    let u = c as u32;
    (0x9 <= u && u <= 0xd) || u == 0x20 || u == 0x85 || u == 0xa0 || u == 0x1680 || (0x2000 <= u
        && u <= 0x200a) || u == 0x2028 || u == 0x2029 || u == 0x202f || u == 0x205f || u == 0x3000
}

/// `s` without its leading whitespace.
pub open spec fn trim_start(s: Seq<char>) -> Seq<char>
    decreases s.len(),
{
    if s.len() > 0 && is_white_space(s[0]) {
        trim_start(s.drop_first())
    } else {
        s
    }
}

/// `s` without its trailing whitespace.
pub open spec fn trim_end(s: Seq<char>) -> Seq<char>
    decreases s.len(),
{
    if s.len() > 0 && is_white_space(s.last()) {
        trim_end(s.drop_last())
    } else {
        s
    }
}

/// `s` without its leading and trailing whitespace.
pub open spec fn trimmed(s: Seq<char>) -> Seq<char> {
    trim_end(trim_start(s))
}

/// Relies on `str::trim`: `s` with leading and trailing whitespace removed,
/// whitespace being the characters of the Unicode `White_Space` property.
#[verifier::external_body]
fn trim_whitespace(s: &str) -> (r: &str)
    ensures
        r@ == trimmed(s@),
{
    s.trim()
}

/// Where the rendered image goes.
#[derive(Clone, Debug)]
pub enum OutputTarget {
    /// Standard output.
    Stdout,
    /// The file of this name, created or truncated.
    File(String),
}

/// Whether an output name, already trimmed, asks for standard output: it is
/// empty or a single `-`.
pub open spec fn names_stdout(name: Seq<char>) -> bool {
    name.len() == 0 || name == seq!['-']
}

/// The target that the trimmed output name `name` selects: standard output
/// when `names_stdout(name)`, else the file called `name`.
pub fn target_for_name(name: &str) -> (r: OutputTarget)
    ensures
        names_stdout(name@) ==> r is Stdout,
        !names_stdout(name@) ==> (r matches OutputTarget::File(f) && f@ == name@),
{
    let n = name.unicode_len();
    if n == 0 {
        return OutputTarget::Stdout;
    }
    if n == 1 && name.get_char(0) == '-' {
        assert(name@ =~= seq!['-']);
        return OutputTarget::Stdout;
    }
    OutputTarget::File(name.to_owned())
}

/// The target that the output argument `arg` selects, once whitespace at
/// either end is ignored: standard output for an empty name or `-`, else
/// the file of the trimmed name.
pub fn output_target(arg: &str) -> (r: OutputTarget)
    ensures
        names_stdout(trimmed(arg@)) ==> r is Stdout,
        !names_stdout(trimmed(arg@)) ==> (r matches OutputTarget::File(f) && f@ == trimmed(arg@)),
{
    target_for_name(trim_whitespace(arg))
}

} // verus!
