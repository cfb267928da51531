use proc_manager::history::{megabytes, History, ProcessReadings, ProcessSample};

#[test]
fn readings_are_kept_per_process() {
    let mut h = History::new(3);
    h.record(&vec![(1, 10), (2, 20)]);
    h.record(&vec![(1, 11), (2, 21)]);
    assert_eq!(h.readings(1), vec![10, 11]);
    assert_eq!(h.readings(2), vec![20, 21]);
    assert!(h.readings(3).is_empty());
}

#[test]
fn oldest_readings_are_dropped_beyond_the_limit() {
    let mut h = History::new(2);
    for v in 0..5u64 {
        h.record(&vec![(7, v)]);
    }
    assert_eq!(h.readings(7), vec![3, 4]);
}

#[test]
fn processes_without_a_sample_are_forgotten() {
    let mut h = History::new(5);
    h.record(&vec![(1, 1), (2, 2)]);
    h.record(&vec![(2, 3)]);
    assert!(h.readings(1).is_empty());
    assert_eq!(h.readings(2), vec![2, 3]);
    h.record(&vec![(1, 9)]);
    assert_eq!(h.readings(1), vec![9]);
}

#[test]
fn zero_limit_keeps_nothing() {
    let mut h = History::new(0);
    h.record(&vec![(1, 1)]);
    assert!(h.readings(1).is_empty());
}

#[test]
fn megabytes_round_down() {
    assert_eq!(megabytes(0), 0);
    assert_eq!(megabytes(1024 * 1024 - 1), 0);
    assert_eq!(megabytes(5 * 1024 * 1024 + 7), 5);
}

#[test]
fn process_readings_keep_a_hundred_of_each() {
    let mut r = ProcessReadings::new();
    for v in 0..150u64 {
        r.record(&vec![ProcessSample { pid: 9, cpu: v, memory: v * 1024 * 1024 + 5 }]);
    }
    let cpu = r.cpu_readings(9);
    assert_eq!(cpu.len(), 100);
    assert_eq!(cpu[0], 50);
    assert_eq!(*cpu.last().unwrap(), 149);
    assert_eq!(*r.memory_readings(9).last().unwrap(), 149);
    r.record(&vec![ProcessSample { pid: 1, cpu: 3, memory: 0 }]);
    assert!(r.cpu_readings(9).is_empty());
    assert_eq!(r.memory_readings(1), vec![0]);
}
