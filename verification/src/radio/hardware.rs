//! What the link takes for granted of the radio.
//!
//! The radio runs one operation at a time. A start task takes it out of the
//! disabled state; at the end of the operation it disables itself and
//! raises the flag that the link is woken by. A new operation may be started
//! only on a radio that is disabled and whose flag is down: started earlier,
//! it would cut the running operation short, and a flag left standing would
//! be taken for the end of the new one.

use vstd::prelude::*;

use super::command::Command;

verus! {

/// The part of the radio's state that the link relies on.
pub struct RadioHardware {
    /// The radio is in its disabled state.
    pub disabled: bool,
    /// The flag of a finished operation stands.
    pub disabled_event: bool,
}

impl RadioHardware {
    /// A radio that a new operation can be started on: disabled, with no
    /// completion left over.
    pub open spec fn ready(self) -> bool {
        self.disabled && !self.disabled_event
    }

    /// A radio in the middle of an operation.
    pub open spec fn running(self) -> bool {
        !self.disabled && !self.disabled_event
    }

    /// A radio whose operation has ended and has not been taken note of.
    pub open spec fn finished(self) -> bool {
        self.disabled && self.disabled_event
    }

    /// The radio once its operation has ended by itself.
    pub open spec fn spec_finish(self) -> RadioHardware {
        RadioHardware { disabled: true, disabled_event: true }
    }

    /// Whether `command` starts an operation.
    pub open spec fn spec_starts(command: Command) -> bool {
        command is StartTx || command is StartRx
    }

    /// The radio after it has carried out `command`. Starting an operation
    /// takes it out of the disabled state; once the wait for the disabled
    /// state is over it is disabled and has raised its flag; clearing the
    /// flag takes the flag down. The other commands change neither.
    pub open spec fn spec_apply(self, command: Command) -> RadioHardware {
        match command {
            Command::StartTx | Command::StartRx => RadioHardware { disabled: false, ..self },
            Command::AwaitDisabled => RadioHardware { disabled: true, disabled_event: true },
            Command::ClearDisabledEvent => RadioHardware { disabled_event: false, ..self },
            _ => self,
        }
    }

    /// The radio after it has carried out `commands` in order.
    pub open spec fn spec_apply_all(self, commands: Seq<Command>) -> RadioHardware
        decreases commands.len(),
    {
        if commands.len() == 0 {
            self
        } else {
            self.spec_apply_all(commands.drop_last()).spec_apply(commands.last())
        }
    }

    /// Whether `commands`, carried out in order on this radio, start an
    /// operation only when the radio is ready for one.
    pub open spec fn spec_starts_safely(self, commands: Seq<Command>) -> bool
        decreases commands.len(),
    {
        commands.len() == 0 || {
            &&& self.spec_starts_safely(commands.drop_last())
            &&& Self::spec_starts(commands.last()) ==> self.spec_apply_all(
                commands.drop_last(),
            ).ready()
        }
    }

    /// Carrying out one list of commands after another is carrying out the
    /// two as one list.
    pub proof fn lemma_apply_concat(self, first: Seq<Command>, second: Seq<Command>)
        ensures
            self.spec_apply_all(first + second) == self.spec_apply_all(first).spec_apply_all(
                second,
            ),
            self.spec_starts_safely(first + second) == (self.spec_starts_safely(first)
                && self.spec_apply_all(first).spec_starts_safely(second)),
        decreases second.len(),
    {
        if second.len() > 0 {
            assert((first + second).drop_last() =~= first + second.drop_last());
            self.lemma_apply_concat(first, second.drop_last());
        }
    }

    /// What a single command does.
    pub proof fn lemma_apply_one(self, command: Command)
        ensures
            self.spec_apply_all(seq![command]) == self.spec_apply(command),
            self.spec_starts_safely(seq![command]) == (Self::spec_starts(command)
                ==> self.ready()),
    {
        reveal_with_fuel(RadioHardware::spec_starts_safely, 2);
    }

    /// What a command does at the end of a list.
    pub proof fn lemma_apply_push(self, commands: Seq<Command>, command: Command)
        ensures
            self.spec_apply_all(commands.push(command)) == self.spec_apply_all(
                commands,
            ).spec_apply(command),
            self.spec_starts_safely(commands.push(command)) == (self.spec_starts_safely(commands)
                && (Self::spec_starts(command) ==> self.spec_apply_all(commands).ready())),
    {
        assert(commands.push(command).drop_last() =~= commands);
    }
}

} // verus!
