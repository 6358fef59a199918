//! A text buffer that indents every non-empty line by the current
//! indentation, as the emitted Rust source is written line by line.

use vstd::prelude::*;
use crate::text::push_char;

verus! {

/// The written text, the current indentation (in spaces) and whether the
/// next character starts a new line.
pub struct EmitState {
    pub text: Seq<char>,
    pub indent: nat,
    pub at_line_start: bool,
}

pub open spec fn spaces(n: nat) -> Seq<char> {
    Seq::new(n, |i: int| ' ')
}

/// The state after writing `t`: the indentation is inserted before the first
/// character of every line that is not empty.
pub open spec fn put(st: EmitState, t: Seq<char>) -> EmitState
    decreases t.len(),
{
    if t.len() == 0 {
        st
    } else {
        let c = t[0];
        let next = if c == '\n' {
            EmitState { text: st.text.push('\n'), indent: st.indent, at_line_start: true }
        } else {
            EmitState {
                text: (if st.at_line_start { st.text + spaces(st.indent) } else { st.text }).push(c),
                indent: st.indent,
                at_line_start: false,
            }
        };
        put(next, t.drop_first())
    }
}

pub open spec fn indented(st: EmitState) -> EmitState {
    EmitState { indent: st.indent + 4, ..st }
}

pub open spec fn unindented(st: EmitState) -> EmitState {
    EmitState { indent: if st.indent >= 4 { (st.indent - 4) as nat } else { 0 }, ..st }
}

pub open spec fn initial_state() -> EmitState {
    EmitState { text: seq![], indent: 0, at_line_start: true }
}

/// Writing two pieces one after the other is writing their concatenation.
pub proof fn lemma_put_concat(st: EmitState, a: Seq<char>, b: Seq<char>)
    ensures
        put(put(st, a), b) == put(st, a + b),
    decreases a.len(),
{
    if a.len() == 0 {
        assert(a + b =~= b);
    } else {
        assert((a + b)[0] == a[0]);
        assert((a + b).drop_first() =~= a.drop_first() + b);
        let c = a[0];
        let next = if c == '\n' {
            EmitState { text: st.text.push('\n'), indent: st.indent, at_line_start: true }
        } else {
            EmitState {
                text: (if st.at_line_start { st.text + spaces(st.indent) } else { st.text }).push(c),
                indent: st.indent,
                at_line_start: false,
            }
        };
        lemma_put_concat(next, a.drop_first(), b);
    }
}

/// Writing keeps the indentation and extends the text.
pub proof fn lemma_put_keeps_indent(st: EmitState, t: Seq<char>)
    ensures
        put(st, t).indent == st.indent,
        put(st, t).text.len() >= st.text.len(),
        st.text.is_prefix_of(put(st, t).text),
    decreases t.len(),
{
    if t.len() > 0 {
        let c = t[0];
        let next = if c == '\n' {
            EmitState { text: st.text.push('\n'), indent: st.indent, at_line_start: true }
        } else {
            EmitState {
                text: (if st.at_line_start { st.text + spaces(st.indent) } else { st.text }).push(c),
                indent: st.indent,
                at_line_start: false,
            }
        };
        lemma_put_keeps_indent(next, t.drop_first());
        assert(st.text.is_prefix_of(next.text));
    }
}

/// The output buffer of the emitter.
pub struct IndentBuffer {
    text: String,
    indent: usize,
    at_line_start: bool,
}

impl View for IndentBuffer {
    type V = EmitState;

    closed spec fn view(&self) -> EmitState {
        EmitState { text: self.text@, indent: self.indent as nat, at_line_start: self.at_line_start }
    }
}

impl IndentBuffer {
    pub fn new() -> (b: Self)
        ensures
            b@ == initial_state(),
    {
        IndentBuffer { text: String::new(), indent: 0, at_line_start: true }
    }

    /// Writes `t`, indenting each new non-empty line.
    pub fn write(&mut self, t: &str)
        ensures
            final(self)@ == put(old(self)@, t@),
    {
        let ghost start = self@;
        proof {
            assert(t@.take(0) =~= seq![]);
        }
        for c in it: t.chars()
            invariant
                it.seq() == t@,
                self@ == put(start, it.seq().take(it.index() as int)),
        {
            let ghost before = self@;
            let ghost i = it.index() as int;
            if c == '\n' {
                push_char(&mut self.text, '\n');
                self.at_line_start = true;
            } else {
                if self.at_line_start {
                    let mut k: usize = 0;
                    while k < self.indent
                        invariant
                            k <= self.indent,
                            self.indent == before.indent,
                            self.at_line_start == before.at_line_start,
                            self.text@ == before.text + spaces(k as nat),
                        decreases self.indent - k,
                    {
                        push_char(&mut self.text, ' ');
                        k = k + 1;
                        proof {
                            assert(self.text@ =~= before.text + spaces(k as nat));
                        }
                    }
                }
                push_char(&mut self.text, c);
                self.at_line_start = false;
            }
            proof {
                assert(seq![c].drop_first() =~= Seq::<char>::empty());
                assert(seq![c][0] == c);
                reveal_with_fuel(put, 2);
                assert(put(before, seq![c]) == self@);
                lemma_put_concat(start, t@.take(i), seq![c]);
                assert(t@.take(i) + seq![c] =~= t@.take(i + 1));
            }
        }
        proof {
            assert(t@.take(t@.len() as int) =~= t@);
        }
    }

    pub fn indent(&mut self)
        requires
            old(self)@.indent + 4 <= usize::MAX,
        ensures
            final(self)@ == indented(old(self)@),
    {
        self.indent = self.indent + 4;
    }

    pub fn unindent(&mut self)
        ensures
            final(self)@ == unindented(old(self)@),
    {
        if self.indent >= 4 {
            self.indent = self.indent - 4;
        } else {
            self.indent = 0;
        }
    }

    /// The written text.
    pub fn into_string(self) -> (s: String)
        ensures
            s@ == self@.text,
    {
        self.text
    }
}

} // verus!
