use vstd::prelude::*;

verus! {

/// Gas for the first run of the child, which stops it early.
pub const FIRST_RUN_GAS: u64 = 100;

/// Gas for the resumed run of the child.
pub const SECOND_RUN_GAS: u64 = 0x0FFF_FFFF_FFFF_FFFF;

/// Length in bytes of the hash the child leaves in its memory.
pub const CHILD_HASH_LEN: u64 = 32;

/// Number of general-purpose registers of a PolkaVM machine.
pub const REGISTER_COUNT: usize = 13;

/// Register in which the child reports the address of its hash.
pub const HASH_ADDRESS_REGISTER: usize = 7;

/// Register in which the child reports the length of its hash.
pub const HASH_LENGTH_REGISTER: usize = 8;

/// What the parent service waits for next.
#[derive(Clone, Copy, Debug, PartialEq, Eq)]
pub enum ParentStage {
    /// The child's program blob is being parsed.
    AwaitBlob,
    /// The first child machine is being created.
    AwaitFirstMachine,
    /// The child's memory and registers are being initialised.
    AwaitInit,
    /// The child runs with little gas.
    AwaitFirstRun,
    /// The child's memory is being copied out.
    AwaitExtract,
    /// The child machine is being removed.
    AwaitExpunge,
    /// A second machine is being created at the child's program counter.
    AwaitSecondMachine,
    /// The copied memory is being written into the second machine.
    AwaitWrite,
    /// The second machine runs with ample gas.
    AwaitSecondRun,
    /// The hash is being read out of the second machine.
    AwaitPeek,
    /// The run is over.
    Done,
}

/// The parent service's progress and what it has learnt so far.
#[derive(Clone, Copy, Debug, PartialEq, Eq)]
pub struct ParentState {
    pub stage: ParentStage,
    /// Index of the first child machine.
    pub first_machine: u64,
    /// Index of the machine that resumes the child.
    pub second_machine: u64,
    /// Address of the hash in the resumed child's memory.
    pub hash_address: u64,
    /// Address of the parent's own buffer that the hash is copied into and
    /// that `refine` returns.
    pub hash_buffer: u64,
    /// The registers the child runs with next: the initial ones until the
    /// first run, then those that run left behind.
    pub registers: [u64; REGISTER_COUNT],
}

/// What a host call reported back to the parent.
#[derive(Clone, Copy, Debug, PartialEq, Eq)]
pub enum HostEvent {
    /// Whether the child's program blob parsed.
    BlobParsed(bool),
    /// A machine was created, with this index.
    MachineCreated(u64),
    /// The child's memory and registers were initialised.
    ChildInitialised,
    /// The child ran; these are its registers afterwards.
    Invoked([u64; REGISTER_COUNT]),
    /// Whether the child's memory could be copied out.
    MemoryExtracted(bool),
    /// The child machine was removed; this is its program counter.
    Expunged(u64),
    /// Whether the memory could be written into the second machine.
    MemoryWritten(bool),
    /// The hash was read out; 0 means success.
    Peeked(u64),
}

/// The next host call the parent wants, or how its `refine` returns.
#[derive(Clone, Copy, Debug, PartialEq, Eq)]
pub enum HostAction {
    ParseBlob,
    CreateMachine { pc: u64 },
    InitChild { machine: u64 },
    /// Run `machine` with `gas` and these registers.
    Invoke { machine: u64, gas: u64, registers: [u64; REGISTER_COUNT] },
    /// Copy the memory out of `machine`.
    ExtractMemory { machine: u64 },
    Expunge { machine: u64 },
    /// Write the memory copied out of the first machine into `machine`.
    WriteMemory { machine: u64 },
    /// Copy `length` bytes at `address` in `machine`'s memory into the
    /// parent's buffer at `destination`.
    PeekHash { machine: u64, destination: u64, address: u64, length: u64 },
    /// `refine` returns this address and length.
    Finish { address: u64, length: u64 },
    /// `refine` returns its error result.
    Fail,
}

/// The state a run starts in, with the child's initial registers and the
/// address of the parent's buffer for the hash.
pub open spec fn parent_initial(registers: [u64; REGISTER_COUNT], hash_buffer: u64) -> ParentState {
    ParentState {
        stage: ParentStage::AwaitBlob,
        first_machine: 0,
        second_machine: 0,
        hash_address: 0,
        hash_buffer: hash_buffer,
        registers: registers,
    }
}

/// `state` moved to `stage`.
pub open spec fn at_stage(state: ParentState, stage: ParentStage) -> ParentState {
    ParentState { stage: stage, ..state }
}

/// The parent's transition table: the next state and action after
/// `event` in `state`. An event the stage does not expect, or any event
/// after the run is over, ends the run with a failure.
pub open spec fn parent_next(state: ParentState, event: HostEvent) -> (ParentState, HostAction) {
    let done = at_stage(state, ParentStage::Done);
    match (state.stage, event) {
        (ParentStage::AwaitBlob, HostEvent::BlobParsed(ok)) => if ok {
            (at_stage(state, ParentStage::AwaitFirstMachine), HostAction::CreateMachine { pc: 0 })
        } else {
            (done, HostAction::Fail)
        },
        (ParentStage::AwaitFirstMachine, HostEvent::MachineCreated(m)) => (
            ParentState { stage: ParentStage::AwaitInit, first_machine: m, ..state },
            HostAction::InitChild { machine: m },
        ),
        (ParentStage::AwaitInit, HostEvent::ChildInitialised) => (
            at_stage(state, ParentStage::AwaitFirstRun),
            HostAction::Invoke {
                machine: state.first_machine,
                gas: FIRST_RUN_GAS,
                registers: state.registers,
            },
        ),
        (ParentStage::AwaitFirstRun, HostEvent::Invoked(regs)) => (
            ParentState { stage: ParentStage::AwaitExtract, registers: regs, ..state },
            HostAction::ExtractMemory { machine: state.first_machine },
        ),
        (ParentStage::AwaitExtract, HostEvent::MemoryExtracted(ok)) => if ok {
            (
                at_stage(state, ParentStage::AwaitExpunge),
                HostAction::Expunge { machine: state.first_machine },
            )
        } else {
            (done, HostAction::Fail)
        },
        (ParentStage::AwaitExpunge, HostEvent::Expunged(pc)) => (
            at_stage(state, ParentStage::AwaitSecondMachine),
            HostAction::CreateMachine { pc: pc },
        ),
        (ParentStage::AwaitSecondMachine, HostEvent::MachineCreated(m)) => (
            ParentState { stage: ParentStage::AwaitWrite, second_machine: m, ..state },
            HostAction::WriteMemory { machine: m },
        ),
        (ParentStage::AwaitWrite, HostEvent::MemoryWritten(ok)) => if ok {
            (
                at_stage(state, ParentStage::AwaitSecondRun),
                HostAction::Invoke {
                    machine: state.second_machine,
                    gas: SECOND_RUN_GAS,
                    registers: state.registers,
                },
            )
        } else {
            (done, HostAction::Fail)
        },
        (ParentStage::AwaitSecondRun, HostEvent::Invoked(regs)) => {
            let address = regs@[HASH_ADDRESS_REGISTER as int];
            (
                ParentState {
                    stage: ParentStage::AwaitPeek,
                    hash_address: address,
                    registers: regs,
                    ..state
                },
                HostAction::PeekHash {
                    machine: state.second_machine,
                    destination: state.hash_buffer,
                    address: address,
                    length: CHILD_HASH_LEN,
                },
            )
        },
        (ParentStage::AwaitPeek, HostEvent::Peeked(code)) => if code == 0 {
            (done, HostAction::Finish { address: state.hash_buffer, length: CHILD_HASH_LEN })
        } else {
            (done, HostAction::Fail)
        },
        _ => (done, HostAction::Fail),
    }
}

/// Starts a run of the parent service with the child's initial registers
/// and the address of the parent's buffer that will hold the hash: it
/// first parses the child's program blob.
pub fn parent_start(registers: [u64; REGISTER_COUNT], hash_buffer: u64) -> (res: (ParentState, HostAction))
    ensures
        res == (parent_initial(registers, hash_buffer), HostAction::ParseBlob),
{
    (
        ParentState {
            stage: ParentStage::AwaitBlob,
            first_machine: 0,
            second_machine: 0,
            hash_address: 0,
            hash_buffer,
            registers,
        },
        HostAction::ParseBlob,
    )
}

/// One decision of the parent service: from its state and the result of
/// the last host call, the next state and the next host call (or how
/// `refine` returns).
pub fn parent_step(state: ParentState, event: HostEvent) -> (res: (ParentState, HostAction))
    ensures
        res == parent_next(state, event),
{
    let done = ParentState { stage: ParentStage::Done, ..state };
    match (state.stage, event) {
        (ParentStage::AwaitBlob, HostEvent::BlobParsed(ok)) => if ok {
            (
                ParentState { stage: ParentStage::AwaitFirstMachine, ..state },
                HostAction::CreateMachine { pc: 0 },
            )
        } else {
            (done, HostAction::Fail)
        },
        (ParentStage::AwaitFirstMachine, HostEvent::MachineCreated(m)) => (
            ParentState { stage: ParentStage::AwaitInit, first_machine: m, ..state },
            HostAction::InitChild { machine: m },
        ),
        (ParentStage::AwaitInit, HostEvent::ChildInitialised) => (
            ParentState { stage: ParentStage::AwaitFirstRun, ..state },
            HostAction::Invoke {
                machine: state.first_machine,
                gas: FIRST_RUN_GAS,
                registers: state.registers,
            },
        ),
        (ParentStage::AwaitFirstRun, HostEvent::Invoked(regs)) => (
            ParentState { stage: ParentStage::AwaitExtract, registers: regs, ..state },
            HostAction::ExtractMemory { machine: state.first_machine },
        ),
        (ParentStage::AwaitExtract, HostEvent::MemoryExtracted(ok)) => if ok {
            (
                ParentState { stage: ParentStage::AwaitExpunge, ..state },
                HostAction::Expunge { machine: state.first_machine },
            )
        } else {
            (done, HostAction::Fail)
        },
        (ParentStage::AwaitExpunge, HostEvent::Expunged(pc)) => (
            ParentState { stage: ParentStage::AwaitSecondMachine, ..state },
            HostAction::CreateMachine { pc },
        ),
        (ParentStage::AwaitSecondMachine, HostEvent::MachineCreated(m)) => (
            ParentState { stage: ParentStage::AwaitWrite, second_machine: m, ..state },
            HostAction::WriteMemory { machine: m },
        ),
        (ParentStage::AwaitWrite, HostEvent::MemoryWritten(ok)) => if ok {
            (
                ParentState { stage: ParentStage::AwaitSecondRun, ..state },
                HostAction::Invoke {
                    machine: state.second_machine,
                    gas: SECOND_RUN_GAS,
                    registers: state.registers,
                },
            )
        } else {
            (done, HostAction::Fail)
        },
        (ParentStage::AwaitSecondRun, HostEvent::Invoked(regs)) => {
            let address = regs[HASH_ADDRESS_REGISTER];
            (
                ParentState {
                    stage: ParentStage::AwaitPeek,
                    hash_address: address,
                    registers: regs,
                    ..state
                },
                HostAction::PeekHash {
                    machine: state.second_machine,
                    destination: state.hash_buffer,
                    address,
                    length: CHILD_HASH_LEN,
                },
            )
        },
        (ParentStage::AwaitPeek, HostEvent::Peeked(code)) => if code == 0 {
            (done, HostAction::Finish { address: state.hash_buffer, length: CHILD_HASH_LEN })
        } else {
            (done, HostAction::Fail)
        },
        _ => (done, HostAction::Fail),
    }
}

/// The state and the actions of a run that started with the child's
/// `initial` registers and the hash buffer `hash_buffer`, and has
/// received `events`, the first action being the one `parent_start`
/// gives.
pub open spec fn parent_run(initial: [u64; REGISTER_COUNT], hash_buffer: u64, events: Seq<HostEvent>) -> (ParentState, Seq<HostAction>)
    decreases events.len(),
{
    if events.len() == 0 {
        (parent_initial(initial, hash_buffer), seq![HostAction::ParseBlob])
    } else {
        let (state, actions) = parent_run(initial, hash_buffer, events.drop_last());
        let (next, action) = parent_next(state, events.last());
        (next, actions.push(action))
    }
}

/// One more event extends a run by one step of the transition table.
proof fn lemma_run_prefix(initial: [u64; REGISTER_COUNT], hash_buffer: u64, events: Seq<HostEvent>, k: int)
    requires
        0 <= k < events.len(),
    ensures
        parent_run(initial, hash_buffer, events.take(k + 1)) == ({
            let (state, actions) = parent_run(initial, hash_buffer, events.take(k));
            let (next, action) = parent_next(state, events[k]);
            (next, actions.push(action))
        }),
{
    assert(events.take(k + 1).drop_last() =~= events.take(k));
}

/// The events of a run in which every host call succeeds.
pub open spec fn successful_events(
    first_machine: u64,
    first_regs: [u64; REGISTER_COUNT],
    pc: u64,
    second_machine: u64,
    final_regs: [u64; REGISTER_COUNT],
) -> Seq<HostEvent> {
    seq![
        HostEvent::BlobParsed(true),
        HostEvent::MachineCreated(first_machine),
        HostEvent::ChildInitialised,
        HostEvent::Invoked(first_regs),
        HostEvent::MemoryExtracted(true),
        HostEvent::Expunged(pc),
        HostEvent::MachineCreated(second_machine),
        HostEvent::MemoryWritten(true),
        HostEvent::Invoked(final_regs),
        HostEvent::Peeked(0),
    ]
}

/// The actions of a run in which every host call succeeds.
pub open spec fn successful_actions(
    initial: [u64; REGISTER_COUNT],
    hash_buffer: u64,
    first_machine: u64,
    first_regs: [u64; REGISTER_COUNT],
    pc: u64,
    second_machine: u64,
    final_regs: [u64; REGISTER_COUNT],
) -> Seq<HostAction> {
    let address = final_regs@[HASH_ADDRESS_REGISTER as int];
    seq![
        HostAction::ParseBlob,
        HostAction::CreateMachine { pc: 0 },
        HostAction::InitChild { machine: first_machine },
        HostAction::Invoke { machine: first_machine, gas: FIRST_RUN_GAS, registers: initial },
        HostAction::ExtractMemory { machine: first_machine },
        HostAction::Expunge { machine: first_machine },
        HostAction::CreateMachine { pc: pc },
        HostAction::WriteMemory { machine: second_machine },
        HostAction::Invoke { machine: second_machine, gas: SECOND_RUN_GAS, registers: first_regs },
        HostAction::PeekHash {
            machine: second_machine,
            destination: hash_buffer,
            address: address,
            length: CHILD_HASH_LEN,
        },
        HostAction::Finish { address: hash_buffer, length: CHILD_HASH_LEN },
    ]
}

/// When every host call succeeds, the parent parses the blob, creates the
/// child, initialises it, runs it with `FIRST_RUN_GAS` and the initial
/// registers, copies its memory out, removes it, recreates it at the
/// program counter it stopped at, writes the copied memory into the new
/// machine, runs that machine with `SECOND_RUN_GAS` and the registers the
/// first run left behind, copies the 32-byte hash at the address the child
/// left in register 7 into the parent's hash buffer, and returns the
/// address of that buffer and the hash length.
pub proof fn lemma_successful_run(
    initial: [u64; REGISTER_COUNT],
    hash_buffer: u64,
    first_machine: u64,
    first_regs: [u64; REGISTER_COUNT],
    pc: u64,
    second_machine: u64,
    final_regs: [u64; REGISTER_COUNT],
)
    ensures
        parent_run(initial, hash_buffer, successful_events(first_machine, first_regs, pc, second_machine, final_regs)).1
            == successful_actions(initial, hash_buffer, first_machine, first_regs, pc, second_machine, final_regs),
        parent_run(initial, hash_buffer, successful_events(first_machine, first_regs, pc, second_machine, final_regs)).0.stage
            == ParentStage::Done,
        ({
            let actions = parent_run(
                initial,
                hash_buffer,
                successful_events(first_machine, first_regs, pc, second_machine, final_regs),
            ).1;
            &&& actions.len() == 11
            &&& actions[0] == HostAction::ParseBlob
            &&& actions[1] == (HostAction::CreateMachine { pc: 0 })
            &&& actions[2] == (HostAction::InitChild { machine: first_machine })
            &&& actions[3] == (HostAction::Invoke { machine: first_machine, gas: 100, registers: initial })
            &&& actions[4] == (HostAction::ExtractMemory { machine: first_machine })
            &&& actions[5] == (HostAction::Expunge { machine: first_machine })
            &&& actions[6] == (HostAction::CreateMachine { pc: pc })
            &&& actions[7] == (HostAction::WriteMemory { machine: second_machine })
            &&& actions[8] == (HostAction::Invoke {
                machine: second_machine,
                gas: 0x0FFF_FFFF_FFFF_FFFF,
                registers: first_regs,
            })
            &&& actions[9] == (HostAction::PeekHash {
                machine: second_machine,
                destination: hash_buffer,
                address: final_regs[7],
                length: 32,
            })
            &&& actions[10] == (HostAction::Finish { address: hash_buffer, length: 32 })
        }),
{
    let events = successful_events(first_machine, first_regs, pc, second_machine, final_regs);
    assert(events.take(0) =~= Seq::<HostEvent>::empty());
    lemma_run_prefix(initial, hash_buffer, events, 0);
    lemma_run_prefix(initial, hash_buffer, events, 1);
    lemma_run_prefix(initial, hash_buffer, events, 2);
    lemma_run_prefix(initial, hash_buffer, events, 3);
    lemma_run_prefix(initial, hash_buffer, events, 4);
    lemma_run_prefix(initial, hash_buffer, events, 5);
    lemma_run_prefix(initial, hash_buffer, events, 6);
    lemma_run_prefix(initial, hash_buffer, events, 7);
    lemma_run_prefix(initial, hash_buffer, events, 8);
    lemma_run_prefix(initial, hash_buffer, events, 9);
    assert(events.take(10) =~= events);
    assert(parent_run(initial, hash_buffer, events).1
        =~= successful_actions(initial, hash_buffer, first_machine, first_regs, pc, second_machine, final_regs));
}

/// A step ends the run exactly when it returns (`Finish` or `Fail`); a
/// finished run stays finished; and `Finish` comes only from a successful
/// copy of the hash, with the address of the parent's hash buffer and the
/// hash length.
pub proof fn lemma_terminal_actions(state: ParentState, event: HostEvent)
    ensures
        ({
            let (next, action) = parent_next(state, event);
            &&& (action is Finish || action is Fail) <==> next.stage == ParentStage::Done
            &&& state.stage == ParentStage::Done ==> next == state && action == HostAction::Fail
            &&& action is Finish ==> {
                &&& state.stage == ParentStage::AwaitPeek
                &&& event == HostEvent::Peeked(0)
                &&& action == (HostAction::Finish { address: state.hash_buffer, length: CHILD_HASH_LEN })
            }
        }),
{
}

/// A failed blob parse, memory copy, memory write or hash read makes
/// `refine` return its error result at once; a child that runs out of gas
/// in its first run does not.
pub proof fn lemma_failed_calls_abort(state: ParentState, code: u64, regs: [u64; REGISTER_COUNT])
    requires
        code != 0,
    ensures
        parent_next(at_stage(state, ParentStage::AwaitBlob), HostEvent::BlobParsed(false)).1
            == HostAction::Fail,
        parent_next(at_stage(state, ParentStage::AwaitExtract), HostEvent::MemoryExtracted(false)).1
            == HostAction::Fail,
        parent_next(at_stage(state, ParentStage::AwaitWrite), HostEvent::MemoryWritten(false)).1
            == HostAction::Fail,
        parent_next(at_stage(state, ParentStage::AwaitPeek), HostEvent::Peeked(code)).1
            == HostAction::Fail,
        parent_next(at_stage(state, ParentStage::AwaitFirstRun), HostEvent::Invoked(regs)).1
            == (HostAction::ExtractMemory { machine: state.first_machine }),
{
}

} // verus!
