use oscilloscope::sampling::BufferId;
use oscilloscope::sampling::SamplePipeline;

#[test]
fn start_cycle_targets_the_active_buffer() {
    let mut p = SamplePipeline::new();
    assert!(!p.is_in_flight());
    let target = p.start_cycle();
    assert_eq!(target, BufferId::First);
    assert!(p.is_in_flight());
    assert_eq!(p.active_buffer(), BufferId::First);
}

#[test]
fn transfer_complete_hands_off_and_swaps() {
    let mut p = SamplePipeline::new();
    p.start_cycle();
    let samples: Vec<u16> = (0..16u16).map(|i| 100 + i).collect();
    let filled = p.on_transfer_complete(&samples);
    assert_eq!(filled, samples, "the consumer sees what the engine streamed");
    // The engine moved to the other buffer: what it writes next is
    // never the buffer just handed off.
    assert_eq!(p.active_buffer(), BufferId::Second);
    assert!(p.is_in_flight(), "re-armed for the next cycle");
    // The handed-off readings sit in the spare buffer, which the
    // engine no longer owns.
    assert_eq!(p.spare_samples(), samples);
}

#[test]
fn consecutive_cycles_alternate_buffers() {
    let mut p = SamplePipeline::new();
    p.start_cycle();
    let first: Vec<u16> = vec![7; 16];
    let second: Vec<u16> = vec![9; 16];
    p.on_transfer_complete(&first);
    let target1 = p.active_buffer();
    p.on_transfer_complete(&second);
    let target2 = p.active_buffer();
    assert_ne!(target1, BufferId::First);
    assert_eq!(target2, BufferId::First);
    // The second cycle overwrote the second buffer only: the first
    // cycle's readings were consumed before the engine returned.
    assert_eq!(p.spare_samples(), second);
}
