//! The lock-guarded record the emulation loop publishes for an observer: the
//! bounded trace log, a copy of the machine state, and the pause flag the
//! observer sets.
use vstd::prelude::*;

use crate::machine::{C8, reset_mstate};
use crate::ui_state::{keymap_default_spec, UIStates};

verus! {

/// The trace log holds at most this many lines; the oldest is evicted first.
pub const TRACE_CAPACITY: usize = 100;

/// Whether a new line is appended at all: once a self-loop is detected, a
/// line identical to the newest logged one is collapsed into it.
pub open spec fn trace_appended(log: Seq<Seq<char>>, line: Seq<char>, endloop: bool) -> bool {
    !(endloop && log.len() > 0 && log.last() == line)
}

/// The log after publishing one line: append, evicting the oldest entry
/// beyond the capacity, unless the line collapses into the newest one.
pub open spec fn push_trace_spec(log: Seq<Seq<char>>, line: Seq<char>, endloop: bool) -> Seq<
    Seq<char>,
> {
    if !trace_appended(log, line, endloop) {
        log
    } else {
        let grown = log.push(line);
        if grown.len() > 100 {
            grown.subrange(1, grown.len() as int)
        } else {
            grown
        }
    }
}

/// The log never grows past the capacity, eviction is first-in first-out,
/// and an appended line always becomes the newest entry.
pub proof fn lemma_trace_log_bounded(log: Seq<Seq<char>>, line: Seq<char>, endloop: bool)
    requires
        log.len() <= 100,
    ensures
        push_trace_spec(log, line, endloop).len() <= 100,
        trace_appended(log, line, endloop) && log.len() == 100 ==> push_trace_spec(
            log,
            line,
            endloop,
        ) == log.subrange(1, 100).push(line),
        trace_appended(log, line, endloop) ==> push_trace_spec(log, line, endloop).last() == line,
{
    if trace_appended(log, line, endloop) && log.len() == 100 {
        assert(push_trace_spec(log, line, endloop) =~= log.subrange(1, 100).push(line));
    }
}

/// Data both threads have access to, used for the emulator to communicate
/// its current state to the observer.
pub struct InterThreadData {
    pub executed_instructions: Vec<String>,
    pub internal_state: C8,
    pub freeze: bool,
    pub keymap: [i32; 16],
}

impl InterThreadData {
    /// The trace log as the sequence of its lines' characters.
    pub open spec fn log_view(&self) -> Seq<Seq<char>> {
        self.executed_instructions.deep_view()
    }

    pub open spec fn wf(&self) -> bool {
        self.executed_instructions@.len() <= 100
    }

    pub fn new() -> (r: Self)
        ensures
            r.executed_instructions@.len() == 0,
            r.internal_state@ == reset_mstate(),
            r.freeze == false,
            r.keymap@ == keymap_default_spec(),
            r.wf(),
    {
        InterThreadData {
            executed_instructions: Vec::new(),
            internal_state: C8::default(),
            freeze: false,
            keymap: UIStates::keymap_default(),
        }
    }

    /// Publishes one executed instruction: appends its trace line (collapsing
    /// a repeated self-loop line, evicting the oldest entry past the
    /// capacity) and overwrites the machine state copy. When the line
    /// collapses, the state copy is left as it was.
    pub fn send_state(&mut self, opcode: String, internal_state: &C8)
        ensures
            final(self).log_view() == push_trace_spec(
                old(self).log_view(),
                opcode@,
                internal_state@.endloop,
            ),
            final(self).internal_state == if trace_appended(
                old(self).log_view(),
                opcode@,
                internal_state@.endloop,
            ) {
                *internal_state
            } else {
                old(self).internal_state
            },
            final(self).freeze == old(self).freeze,
            final(self).keymap == old(self).keymap,
            old(self).wf() ==> final(self).wf(),
    {
        if internal_state.endloop && self.executed_instructions.len() > 0 {
            let last_idx = self.executed_instructions.len() - 1;
            if self.executed_instructions[last_idx] == opcode {
                proof {
                    assert(old(self).log_view().last() == opcode@);
                    assert(!trace_appended(old(self).log_view(), opcode@, internal_state@.endloop));
                }
                return ;
            }
        }
        proof {
            assert(trace_appended(old(self).log_view(), opcode@, internal_state@.endloop));
        }
        self.executed_instructions.push(opcode);
        proof {
            assert(self.executed_instructions.deep_view() =~= old(self).log_view().push(opcode@));
        }
        if self.executed_instructions.len() > 100 {
            let ghost grown = self.executed_instructions.deep_view();
            self.executed_instructions.remove(0);
            proof {
                assert(self.executed_instructions.deep_view() =~= grown.subrange(
                    1,
                    grown.len() as int,
                ));
            }
        }
        self.internal_state = *internal_state;
    }
}

} // verus!
