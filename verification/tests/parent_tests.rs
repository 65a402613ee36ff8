use jam_services::parent::{
    parent_start, parent_step, HostAction, HostEvent, ParentStage, CHILD_HASH_LEN, FIRST_RUN_GAS,
    REGISTER_COUNT, SECOND_RUN_GAS,
};

fn registers(r7: u64) -> [u64; REGISTER_COUNT] {
    let mut regs = [0u64; REGISTER_COUNT];
    regs[7] = r7;
    regs[8] = 32;
    regs
}

#[test]
fn successful_run_returns_hash_address() {
    let initial = [5u64; REGISTER_COUNT];
    let mut after_first_run = registers(0);
    after_first_run[0] = 99;
    let (mut state, first) = parent_start(initial, 0x5000);
    assert_eq!(first, HostAction::ParseBlob);
    let events = vec![
        HostEvent::BlobParsed(true),
        HostEvent::MachineCreated(4),
        HostEvent::ChildInitialised,
        HostEvent::Invoked(after_first_run),
        HostEvent::MemoryExtracted(true),
        HostEvent::Expunged(77),
        HostEvent::MachineCreated(5),
        HostEvent::MemoryWritten(true),
        HostEvent::Invoked(registers(0xABCD)),
        HostEvent::Peeked(0),
    ];
    let expected = vec![
        HostAction::CreateMachine { pc: 0 },
        HostAction::InitChild { machine: 4 },
        HostAction::Invoke { machine: 4, gas: FIRST_RUN_GAS, registers: initial },
        HostAction::ExtractMemory { machine: 4 },
        HostAction::Expunge { machine: 4 },
        HostAction::CreateMachine { pc: 77 },
        HostAction::WriteMemory { machine: 5 },
        HostAction::Invoke { machine: 5, gas: SECOND_RUN_GAS, registers: after_first_run },
        HostAction::PeekHash { machine: 5, destination: 0x5000, address: 0xABCD, length: CHILD_HASH_LEN },
        HostAction::Finish { address: 0x5000, length: 32 },
    ];
    for (event, want) in events.into_iter().zip(expected) {
        let (next, action) = parent_step(state, event);
        assert_eq!(action, want);
        state = next;
    }
    assert_eq!(state.stage, ParentStage::Done);
    assert_eq!(FIRST_RUN_GAS, 100);
    assert_eq!(SECOND_RUN_GAS, 0x0FFF_FFFF_FFFF_FFFF);
}

fn run(events: Vec<HostEvent>) -> Vec<HostAction> {
    let (mut state, _) = parent_start([0u64; REGISTER_COUNT], 0x5000);
    let mut actions = Vec::new();
    for event in events {
        let (next, action) = parent_step(state, event);
        actions.push(action);
        state = next;
    }
    actions
}

#[test]
fn unparsable_blob_fails() {
    assert_eq!(run(vec![HostEvent::BlobParsed(false)]), vec![HostAction::Fail]);
}

#[test]
fn failed_memory_extraction_fails() {
    let actions = run(vec![
        HostEvent::BlobParsed(true),
        HostEvent::MachineCreated(1),
        HostEvent::ChildInitialised,
        HostEvent::Invoked(registers(0)),
        HostEvent::MemoryExtracted(false),
    ]);
    assert_eq!(actions.last(), Some(&HostAction::Fail));
}

#[test]
fn failed_memory_write_fails() {
    let actions = run(vec![
        HostEvent::BlobParsed(true),
        HostEvent::MachineCreated(1),
        HostEvent::ChildInitialised,
        HostEvent::Invoked(registers(0)),
        HostEvent::MemoryExtracted(true),
        HostEvent::Expunged(3),
        HostEvent::MachineCreated(2),
        HostEvent::MemoryWritten(false),
    ]);
    assert_eq!(actions.last(), Some(&HostAction::Fail));
}

#[test]
fn failed_peek_fails() {
    let actions = run(vec![
        HostEvent::BlobParsed(true),
        HostEvent::MachineCreated(1),
        HostEvent::ChildInitialised,
        HostEvent::Invoked(registers(0)),
        HostEvent::MemoryExtracted(true),
        HostEvent::Expunged(3),
        HostEvent::MachineCreated(2),
        HostEvent::MemoryWritten(true),
        HostEvent::Invoked(registers(64)),
        HostEvent::Peeked(1),
    ]);
    assert_eq!(actions.last(), Some(&HostAction::Fail));
}

#[test]
fn unexpected_event_fails_and_run_stays_finished() {
    let actions = run(vec![HostEvent::ChildInitialised, HostEvent::BlobParsed(true)]);
    assert_eq!(actions, vec![HostAction::Fail, HostAction::Fail]);
}
