//! Capability commands: values that ask the terminal to switch an optional
//! reporting mode on or off.
//!
//! A command renders itself as a control sequence: the introducer, the code
//! of the capability, and a terminator that says on or off. Rendering only
//! formats. Writing the text to the terminal is the caller's part.

use vstd::prelude::*;
use vstd::string::StringExecFns;

verus! {

/// Rendering a command failed: no part of what was written counts as a
/// valid sequence.
#[derive(Debug, Clone, Copy, PartialEq, Eq, Structural)]
pub struct FormatError;

/// The native call of a command failed.
#[derive(Debug, Clone, Copy, PartialEq, Eq, Structural)]
pub struct NativeError;

/// Whether a capability is switched on or off.
#[derive(Debug, Clone, Copy, PartialEq, Eq, Structural)]
pub enum Toggle {
    Enable,
    Disable,
}

/// The control sequence introducer: the escape character and an opening
/// square bracket.
pub open spec fn csi() -> Seq<char> {
    seq!['\u{1b}', '[']
}

impl Toggle {
    /// The character that ends the sequence of a toggle: `h` sets the mode,
    /// `l` resets it.
    pub open spec fn terminator(self) -> char {
        match self {
            Toggle::Enable => 'h',
            Toggle::Disable => 'l',
        }
    }
}

/// The control sequence of one toggle: the introducer, the code of the
/// capability, the terminator.
pub open spec fn toggle_sequence(code: Seq<char>, toggle: Toggle) -> Seq<char> {
    csi() + code + seq![toggle.terminator()]
}

/// Appends the control sequence of one toggle to `f`.
pub fn write_toggle(f: &mut String, code: &str, toggle: Toggle)
    ensures
        final(f)@ == old(f)@ + toggle_sequence(code@, toggle),
{
    f.append("\x1b[");
    f.append(code);
    match toggle {
        Toggle::Enable => f.append("h"),
        Toggle::Disable => f.append("l"),
    }
    proof {
        reveal_strlit("\x1b[");
        reveal_strlit("h");
        reveal_strlit("l");
        assert("\x1b["@ =~= csi());
        assert("h"@ =~= seq!['h']);
        assert("l"@ =~= seq!['l']);
        assert(f@ =~= old(f)@ + toggle_sequence(code@, toggle));
    }
}

/// The two sequences of a capability are a pair: they are the same up to the
/// terminator, and the terminators differ.
pub proof fn lemma_toggles_differ_in_terminator(code: Seq<char>)
    ensures
        toggle_sequence(code, Toggle::Enable).drop_last() == toggle_sequence(
            code,
            Toggle::Disable,
        ).drop_last(),
        toggle_sequence(code, Toggle::Enable).last() != toggle_sequence(
            code,
            Toggle::Disable,
        ).last(),
{
    assert(toggle_sequence(code, Toggle::Enable).drop_last() =~= csi() + code);
    assert(toggle_sequence(code, Toggle::Disable).drop_last() =~= csi() + code);
}

/// A request to the terminal that can be written as a control sequence.
pub trait Command {
    /// The control sequence that makes the request.
    spec fn ansi(&self) -> Seq<char>;

    /// Appends the control sequence to `f`. Nothing else is done: no I/O.
    ///
    /// After a failure the caller cannot tell what state the capability is
    /// in, and takes it as unchanged.
    fn write_ansi(&self, f: &mut String) -> (done: Result<(), FormatError>)
        ensures
            done is Ok ==> final(f)@ == old(f)@ + self.ansi(),
    ;

    /// Makes the request through the platform's own interface, for a
    /// terminal that does not interpret the control sequence.
    fn execute_winapi(&self) -> (done: Result<(), NativeError>)
    ;
}

/// Rendering a command twice gives the text of one rendering twice over,
/// behind what the sink held: one rendering leaves nothing behind that
/// changes the next.
pub proof fn lemma_render_twice<C: Command>(command: C, sink: Seq<char>)
    ensures
        (sink + command.ansi()) + command.ansi() == sink + (command.ansi() + command.ansi()),
{
    assert((sink + command.ansi()) + command.ansi() =~= sink + (command.ansi() + command.ansi()));
}

} // verus!
