use fault_diag::backtrace::{backtrace, backtrace_header, FrameMemory, StackFrame, StackWalker};
use fault_diag::core_id::{cpu_id, CPU_COUNT};
use fault_diag::exception::{
    begin_fault, exception_level, fault_message, fault_registers, level_number,
    unsupported_level_message, ExceptionLevel, ExceptionSnapshot, FaultField, FaultStep,
    SystemRegister,
};
use fault_diag::format::{push_bytes, push_dec, push_hex, push_str};
use fault_diag::lifecycle::{CoreEvent, CoreState};
use fault_diag::report::{panic_line, panic_report, PanicRecord, SourceLocation};
use fault_diag::sink::SharedSink;

fn text(bytes: &[u8]) -> String {
    String::from_utf8(bytes.to_vec()).unwrap()
}

#[test]
fn core_id_keeps_low_eight_bits() {
    for core in 0..CPU_COUNT {
        assert_eq!(cpu_id(0x8000_0000 | core), core);
        assert_eq!(cpu_id(0xffff_ff00 | core), core);
    }
    assert_eq!(cpu_id(0), 0);
    assert_eq!(cpu_id(0xff), 255);
    assert_eq!(cpu_id(0x1234), 0x34);
    assert_eq!(cpu_id(u64::MAX), 255);
}

#[test]
fn decimal_and_hex_formatting() {
    let mut out = Vec::new();
    push_dec(&mut out, 0);
    push_str(&mut out, " ");
    push_dec(&mut out, 1907);
    push_str(&mut out, " ");
    push_dec(&mut out, u64::MAX);
    assert_eq!(text(&out), "0 1907 18446744073709551615");
    let mut hex = Vec::new();
    push_hex(&mut hex, 0xdead_beef, false);
    push_bytes(&mut hex, b"/");
    push_hex(&mut hex, 0xdead_beef, true);
    push_bytes(&mut hex, b"/");
    push_hex(&mut hex, 0, true);
    push_bytes(&mut hex, b"/");
    push_hex(&mut hex, u64::MAX, false);
    assert_eq!(text(&hex), "deadbeef/DEADBEEF/0/ffffffffffffffff");
}

#[test]
fn level_extracted_from_bits_two_and_up() {
    assert_eq!(level_number(0b1000), 2);
    assert_eq!(level_number(0b0111), 1);
    assert_eq!(exception_level(0b0100), Some(ExceptionLevel::El1));
    assert_eq!(exception_level(0b1000), Some(ExceptionLevel::El2));
    assert_eq!(exception_level(0b0000), None);
    assert_eq!(exception_level(0b1100), None);
    assert_eq!(exception_level(0b0011), None);
}

#[test]
fn capture_at_level_two_reads_its_four_registers() {
    match begin_fault(0b1000) {
        FaultStep::ReadRegisters(level, regs) => {
            assert_eq!(level, ExceptionLevel::El2);
            assert_eq!(regs, fault_registers(ExceptionLevel::El2));
            let fields = [
                FaultField::Syndrome,
                FaultField::FaultAddress,
                FaultField::ReturnAddress,
                FaultField::SavedState,
            ];
            for i in 0..4 {
                assert_eq!(regs[i], SystemRegister { level: ExceptionLevel::El2, field: fields[i] });
            }
        }
        FaultStep::Fatal(_) => panic!("level two must be captured"),
    }
}

#[test]
fn capture_at_level_one_reads_its_four_registers() {
    match begin_fault(0b0100) {
        FaultStep::ReadRegisters(level, regs) => {
            assert_eq!(level, ExceptionLevel::El1);
            assert!(regs.iter().all(|r| r.level == ExceptionLevel::El1));
            assert_eq!(regs[0].field, FaultField::Syndrome);
            assert_eq!(regs[3].field, FaultField::SavedState);
        }
        FaultStep::Fatal(_) => panic!("level one must be captured"),
    }
}

#[test]
fn unsupported_levels_read_nothing() {
    for el in [0u64, 0b1100, 0b1_0000] {
        match begin_fault(el) {
            FaultStep::Fatal(message) => {
                assert_eq!(message, unsupported_level_message(el));
            }
            FaultStep::ReadRegisters(..) => panic!("no register may be read"),
        }
    }
    assert_eq!(text(&unsupported_level_message(0b1100)), "Exception caught at unsupported level 3");
    assert_eq!(text(&unsupported_level_message(0)), "Exception caught at unsupported level 0");
}

#[test]
fn fault_report_carries_all_four_values() {
    let snapshot =
        ExceptionSnapshot::from_registers(ExceptionLevel::El1, [0x9600_0045, 0xdead_0000, 0x8_1234, 0x3c5]);
    assert_eq!(snapshot.syndrome, 0x9600_0045);
    assert_eq!(snapshot.saved_state, 0x3c5);
    let m = text(&fault_message(2, 0x11, &snapshot));
    assert_eq!(
        m,
        "Core #2 triggered an exception at level 1: Kind: 0x11, Syndrome: 0x96000045, \
         Address: 0xdead0000, Location: 0x81234, State: 0x3c5"
    );
    let snapshot2 = ExceptionSnapshot {
        level: ExceptionLevel::El2,
        syndrome: 0,
        fault_address: 0,
        return_address: 0,
        saved_state: 0,
    };
    assert_eq!(
        text(&fault_message(0, 0, &snapshot2)),
        "Core #0 triggered an exception at level 2: Kind: 0x0, Syndrome: 0x0, Address: 0x0, \
         Location: 0x0, State: 0x0"
    );
}

#[test]
fn panic_line_with_location_and_message() {
    let record = PanicRecord {
        location: Some(SourceLocation { file: "src/main.rs", line: 137 }),
        message: Some("Exception caught at unsupported level 3"),
    };
    assert_eq!(
        text(&panic_line(1, &record)),
        "Core #1 panicked at src/main.rs:137: Exception caught at unsupported level 3\n"
    );
}

#[test]
fn panic_line_without_location_or_message() {
    let record = PanicRecord { location: None, message: None };
    assert_eq!(text(&panic_line(3, &record)), "Core #3 panic: Unknown reason\n");
    let record = PanicRecord { location: None, message: Some("out of range") };
    assert_eq!(text(&panic_line(0, &record)), "Core #0 panic: out of range\n");
    let record = PanicRecord { location: Some(SourceLocation { file: "a.rs", line: 0 }), message: None };
    assert_eq!(text(&panic_line(0, &record)), "Core #0 panicked at a.rs:0: Unknown reason\n");
}

/// A chain of frame records from `base`, sixteen bytes apart, whose walk
/// yields `ras` in order and then a null frame pointer.
fn chain(base: u64, ras: &[u64]) -> (StackFrame, FrameMemory) {
    let mut words = Vec::new();
    for i in 0..ras.len() {
        if i + 1 < ras.len() {
            words.push(base + 16 * (i as u64 + 1));
            words.push(ras[i + 1]);
        } else {
            words.push(0);
            words.push(0);
        }
    }
    let start = if ras.is_empty() {
        StackFrame { frame_pointer: 0, return_address: 0 }
    } else {
        StackFrame { frame_pointer: base, return_address: ras[0] }
    };
    (start, FrameMemory { base, words })
}

#[test]
fn backtrace_of_three_frames() {
    let (start, memory) = chain(0x4000, &[0x8_0abc, 0x8_0100, 0x8_0010]);
    assert_eq!(
        text(&backtrace(start, &memory)),
        "Backtrace:\n#0: 0x80ABC\n#1: 0x80100\n#2: 0x80010\n"
    );
}

#[test]
fn backtrace_of_empty_chain_is_header_only() {
    let (start, memory) = chain(0x4000, &[]);
    assert_eq!(text(&backtrace(start, &memory)), "Backtrace:\n");
    assert_eq!(text(&backtrace_header()), "Backtrace:\n");
    let memory = FrameMemory { base: 0x10, words: vec![1, 2, 3] };
    let start = StackFrame { frame_pointer: 0, return_address: 0xfeed };
    assert_eq!(text(&backtrace(start, &memory)), "Backtrace:\n");
}

#[test]
fn backtrace_emits_one_line_per_frame() {
    for k in 0..12u64 {
        let ras: Vec<u64> = (0..k).map(|i| 0x1000 + i).collect();
        let (start, memory) = chain(0x20_0000, &ras);
        let out = text(&backtrace(start, &memory));
        let lines: Vec<&str> = out.lines().collect();
        assert_eq!(lines.len() as u64, k + 1);
        assert_eq!(lines[0], "Backtrace:");
        for i in 0..k {
            assert_eq!(lines[i as usize + 1], format!("#{}: 0x{:X}", i, 0x1000 + i));
        }
    }
}

#[test]
fn frame_memory_loads_aligned_records_only() {
    let memory = FrameMemory { base: 0x100, words: vec![0x110, 0xaa, 0, 0xbb] };
    assert_eq!(memory.load(0x100), Some(StackFrame { frame_pointer: 0x110, return_address: 0xaa }));
    assert_eq!(memory.load(0x108), Some(StackFrame { frame_pointer: 0xaa, return_address: 0 }));
    assert_eq!(memory.load(0x110), Some(StackFrame { frame_pointer: 0, return_address: 0xbb }));
    assert_eq!(memory.load(0x118), None);
    assert_eq!(memory.load(0x104), None);
    assert_eq!(memory.load(0xf8), None);
}

#[test]
fn walker_steps_through_frames() {
    let mut walker = StackWalker::new(StackFrame { frame_pointer: 0x40, return_address: 0xabc });
    assert!(!walker.is_done());
    assert_eq!(text(&walker.frame_line()), "#0: 0xABC\n");
    walker.advance(StackFrame { frame_pointer: 0x80, return_address: 0xdef });
    assert_eq!(walker.index, 1);
    assert_eq!(text(&walker.frame_line()), "#1: 0xDEF\n");
    walker.advance(StackFrame { frame_pointer: 0, return_address: 0 });
    assert!(walker.is_done());
}

#[test]
fn panic_report_is_message_line_then_backtrace() {
    let (start, memory) = chain(0x9000, &[0x40_0010, 0x40_0200]);
    let record = PanicRecord {
        location: Some(SourceLocation { file: "src/main.rs", line: 140 }),
        message: Some("boom"),
    };
    let out = text(&panic_report(2, &record, start, &memory));
    assert_eq!(
        out,
        "Core #2 panicked at src/main.rs:140: boom\nBacktrace:\n#0: 0x400010\n#1: 0x400200\n"
    );
    let lines: Vec<&str> = out.lines().collect();
    assert_eq!(lines.len(), 4);
    assert_eq!(lines[1], "Backtrace:");
}

#[test]
fn sink_lock_is_exclusive() {
    let mut sink = SharedSink::new();
    assert_eq!(sink.owner(), None);
    assert!(sink.try_lock(0));
    assert!(!sink.try_lock(1));
    assert!(!sink.try_lock(0));
    assert_eq!(sink.owner(), Some(0));
    sink.write(0, b"AAAA");
    assert!(!sink.try_lock(1));
    sink.write(0, b"aa\n");
    sink.unlock(0);
    assert_eq!(sink.owner(), None);
    assert!(sink.try_lock(1));
    sink.write(1, b"BBBB\n");
    sink.unlock(1);
    assert_eq!(text(sink.output()), "AAAAaa\nBBBB\n");
}

#[test]
fn interleaved_cores_keep_each_write_whole() {
    // Two cores alternate attempts; each writes its message only while it holds the lock.
    let a: &[u8] = b"Core #0 panic: first\n";
    let b: &[u8] = b"Core #1 panic: second\n";
    let mut sink = SharedSink::new();
    let mut done = [false, false];
    let mut turn = 0u64;
    while !(done[0] && done[1]) {
        let core = turn % 2;
        if !done[core as usize] && sink.try_lock(core) {
            sink.write(core, if core == 0 { a } else { b });
            if turn % 3 == 0 {
                assert!(!sink.try_lock(1 - core));
            }
            sink.unlock(core);
            done[core as usize] = true;
        }
        turn += 1;
    }
    let out = sink.output().clone();
    assert_eq!(out.len(), a.len() + b.len());
    assert!(out.windows(a.len()).any(|w| w == a));
    assert!(out.windows(b.len()).any(|w| w == b));
}

#[test]
fn halted_core_stays_halted() {
    let events = [
        CoreEvent::Started,
        CoreEvent::Finished,
        CoreEvent::Trapped,
        CoreEvent::Fatal,
        CoreEvent::Reported,
    ];
    let mut s = CoreState::Halted;
    for e in events.iter().chain(events.iter()) {
        s = s.step(*e);
        assert_eq!(s, CoreState::Halted);
        assert!(s.is_halted());
    }
}

#[test]
fn core_lifecycle_paths() {
    let s = CoreState::Booting.step(CoreEvent::Started);
    assert_eq!(s, CoreState::Running);
    assert_eq!(s.step(CoreEvent::Finished), CoreState::Halted);
    let f = s.step(CoreEvent::Trapped);
    assert_eq!(f, CoreState::Faulted);
    let p = f.step(CoreEvent::Fatal);
    assert_eq!(p, CoreState::Panicking);
    assert_eq!(p.step(CoreEvent::Trapped), CoreState::Panicking);
    assert_eq!(p.step(CoreEvent::Reported), CoreState::Halted);
    assert_eq!(s.step(CoreEvent::Fatal), CoreState::Panicking);
    let mut h = CoreState::Running;
    h.halt();
    assert!(h.is_halted());
}

