use sysmon::distributor::Distributor;
use sysmon::sampler::{SampleOutcome, Sampler, TickAction};
use sysmon::snapshot::{build, build_process, RawProcess, RawReading, SystemSnapshot, FULL_LOAD};

fn reading(host: &str, memory: u64, cpu: u32, procs: Vec<RawProcess>) -> RawReading {
    RawReading {
        system_name: Some("Linux".to_string()),
        kernel_version: Some("6.1.0".to_string()),
        os_version: Some("12".to_string()),
        host_name: Some(host.to_string()),
        memory_usage: memory,
        cpu_usage: cpu,
        processes: procs,
    }
}

fn bare_reading() -> RawReading {
    RawReading {
        system_name: None,
        kernel_version: None,
        os_version: None,
        host_name: None,
        memory_usage: 0,
        cpu_usage: 0,
        processes: Vec::new(),
    }
}

fn host_of(s: &SystemSnapshot) -> String {
    s.host_name.clone().unwrap()
}

#[test]
fn zero_processes_give_empty_list() {
    let s = build(&reading("a", 1, 2, Vec::new()));
    assert!(s.processes.is_empty());
}

#[test]
fn missing_identity_fields_stay_missing() {
    let s = build(&bare_reading());
    assert!(s.system_name.is_none());
    assert!(s.kernel_version.is_none());
    assert!(s.os_version.is_none());
    assert!(s.host_name.is_none());
    let mut r = reading("box", 5, 7, Vec::new());
    r.kernel_version = None;
    r.host_name = None;
    let s = build(&r);
    assert_eq!(s.system_name, Some("Linux".to_string()));
    assert!(s.kernel_version.is_none());
    assert_eq!(s.os_version, Some("12".to_string()));
    assert!(s.host_name.is_none());
}

#[test]
fn fields_are_copied_from_the_reading() {
    let procs = vec![
        RawProcess { pid: 1, name: Some("init".to_string()), cpu: 150, memory: 4096 },
        RawProcess { pid: 42, name: None, cpu: 25000, memory: 8 },
    ];
    let s = build(&reading("host1", 123456, 4321, procs));
    assert_eq!(s.memory_usage, 123456);
    assert_eq!(s.cpu_usage, 4321);
    assert_eq!(host_of(&s), "host1");
    assert_eq!(s.processes.len(), 2);
    assert_eq!(s.processes[0].pid, 1);
    assert_eq!(s.processes[0].name, "init");
    assert_eq!(s.processes[0].cpu, 150);
    assert_eq!(s.processes[0].memory, 4096);
    assert_eq!(s.processes[1].pid, 42);
    assert_eq!(s.processes[1].name, "<unknown>");
    assert_eq!(s.processes[1].cpu, 25000);
}

#[test]
fn undecodable_name_gets_fallback() {
    let p = build_process(&RawProcess { pid: 9, name: None, cpu: 0, memory: 0 });
    assert_eq!(p.name, "<unknown>");
    assert_eq!(p.pid, 9);
}

#[test]
fn cpu_stays_within_full_load() {
    for cpu in [0u32, 1, 5000, FULL_LOAD] {
        let s = build(&reading("h", 0, cpu, Vec::new()));
        assert!(s.cpu_usage <= FULL_LOAD);
        assert_eq!(s.cpu_usage, cpu);
    }
}

#[test]
fn copy_keeps_every_field() {
    let procs = vec![RawProcess { pid: 3, name: Some("sh".to_string()), cpu: 1, memory: 2 }];
    let s = build(&reading("c", 10, 20, procs));
    let t = s.copy();
    assert_eq!(host_of(&t), "c");
    assert_eq!(t.memory_usage, 10);
    assert_eq!(t.cpu_usage, 20);
    assert_eq!(t.processes.len(), 1);
    assert_eq!(t.processes[0].name, "sh");
}

#[test]
fn three_ticks_delivered_in_order() {
    let mut sampler = Sampler::new(100);
    let mut dist = Distributor::new();
    let id = dist.subscribe().unwrap();
    let mut seen = Vec::new();
    for (host, mem) in [("r1", 1u64), ("r2", 2), ("r3", 3)] {
        assert!(sampler.is_running());
        let n = sampler.tick(&SampleOutcome::Reading(reading(host, mem, 10, Vec::new())), &mut dist);
        assert_eq!(n, 1);
        if let Some(s) = dist.take(id) {
            seen.push((host_of(&s), s.memory_usage));
        }
        assert!(dist.take(id).is_none());
    }
    assert_eq!(seen, vec![("r1".to_string(), 1), ("r2".to_string(), 2), ("r3".to_string(), 3)]);
    assert_eq!(sampler.ticks(), 3);
    assert_eq!(sampler.delivered(), 3);
    assert_eq!(sampler.interval_ms(), 100);
}

#[test]
fn failed_tick_is_skipped_and_loop_survives() {
    let mut sampler = Sampler::new(100);
    let mut dist = Distributor::new();
    let id = dist.subscribe().unwrap();
    let outcomes = vec![
        SampleOutcome::Reading(reading("r1", 1, 0, Vec::new())),
        SampleOutcome::Failed,
        SampleOutcome::Reading(reading("r3", 3, 0, Vec::new())),
    ];
    let mut seen = Vec::new();
    for o in outcomes.iter() {
        assert!(sampler.is_running());
        sampler.tick(o, &mut dist);
        if let Some(s) = dist.take(id) {
            seen.push(host_of(&s));
        }
    }
    assert_eq!(seen, vec!["r1".to_string(), "r3".to_string()]);
    assert!(sampler.is_running());
    assert_eq!(sampler.ticks(), 3);
    assert_eq!(sampler.delivered(), 2);
    assert_eq!(sampler.skipped(), 1);
    assert_eq!(sampler.last_delivered(), Some(3));
}

#[test]
fn no_subscriber_then_late_subscriber_gets_next() {
    let mut sampler = Sampler::new(100);
    let mut dist = Distributor::new();
    let n = sampler.tick(&SampleOutcome::Reading(reading("missed", 1, 0, Vec::new())), &mut dist);
    assert_eq!(n, 0);
    assert!(sampler.is_running());
    assert_eq!(sampler.unheard(), 1);
    let id = dist.subscribe().unwrap();
    assert!(dist.take(id).is_none());
    let n = sampler.tick(&SampleOutcome::Reading(reading("next", 2, 0, Vec::new())), &mut dist);
    assert_eq!(n, 1);
    assert_eq!(host_of(&dist.take(id).unwrap()), "next");
    assert_eq!(sampler.unheard(), 1);
}

#[test]
fn latest_value_wins() {
    let mut dist = Distributor::new();
    let id = dist.subscribe().unwrap();
    dist.broadcast(&build(&reading("old", 1, 0, Vec::new())));
    dist.broadcast(&build(&reading("new", 2, 0, Vec::new())));
    assert_eq!(host_of(&dist.take(id).unwrap()), "new");
    assert!(dist.take(id).is_none());
}

#[test]
fn pull_query_uses_one_reading() {
    let a = reading("a", 100, 1000, vec![RawProcess { pid: 1, name: Some("x".to_string()), cpu: 5, memory: 6 }]);
    let b = reading("b", 200, 2000, Vec::new());
    let sa = build(&a);
    let sb = build(&b);
    assert_eq!((host_of(&sa), sa.memory_usage, sa.cpu_usage, sa.processes.len()), ("a".to_string(), 100, 1000, 1));
    assert_eq!((host_of(&sb), sb.memory_usage, sb.cpu_usage, sb.processes.len()), ("b".to_string(), 200, 2000, 0));
}

#[test]
fn on_sample_builds_or_skips() {
    let mut sampler = Sampler::new(1000);
    match sampler.on_sample(&SampleOutcome::Reading(reading("h", 7, 8, Vec::new()))) {
        TickAction::Deliver(s) => assert_eq!(s.memory_usage, 7),
        TickAction::Skip => panic!("a reading must be delivered"),
    }
    assert!(matches!(sampler.on_sample(&SampleOutcome::Failed), TickAction::Skip));
    sampler.on_delivered(0);
    assert_eq!(sampler.unheard(), 1);
    sampler.on_delivered(2);
    assert_eq!(sampler.unheard(), 1);
}

#[test]
fn stop_ends_the_loop() {
    let mut sampler = Sampler::new(1000);
    let mut dist = Distributor::new();
    let mut ticks = 0;
    while sampler.is_running() {
        sampler.tick(&SampleOutcome::Failed, &mut dist);
        ticks += 1;
        if ticks == 2 {
            sampler.stop();
        }
    }
    assert_eq!(ticks, 2);
    assert!(!sampler.is_running());
}

#[test]
fn subscribe_and_unsubscribe() {
    let mut dist = Distributor::new();
    let a = dist.subscribe().unwrap();
    let b = dist.subscribe().unwrap();
    assert_ne!(a, b);
    assert_eq!(dist.subscriber_count(), 2);
    assert!(dist.unsubscribe(a));
    assert!(!dist.unsubscribe(a));
    assert_eq!(dist.subscriber_count(), 1);
    assert_eq!(dist.broadcast(&build(&bare_reading())), 1);
    assert!(dist.take(a).is_none());
    assert!(dist.take(b).is_some());
}

#[test]
fn occasional_taker_sees_order_without_duplicates() {
    let mut sampler = Sampler::new(100);
    let mut dist = Distributor::new();
    let id = dist.subscribe().unwrap();
    let outcomes = vec![
        SampleOutcome::Reading(reading("t1", 1, 0, Vec::new())),
        SampleOutcome::Reading(reading("t2", 2, 0, Vec::new())),
        SampleOutcome::Failed,
        SampleOutcome::Reading(reading("t4", 4, 0, Vec::new())),
        SampleOutcome::Reading(reading("t5", 5, 0, Vec::new())),
    ];
    let takes = [false, true, true, false, true];
    let mut seen = Vec::new();
    for (o, t) in outcomes.iter().zip(takes.iter()) {
        sampler.tick(o, &mut dist);
        if *t {
            if let Some(s) = dist.take(id) {
                seen.push(host_of(&s));
            }
        }
    }
    assert_eq!(seen, vec!["t2".to_string(), "t5".to_string()]);
}

#[test]
fn subscribe_on_fresh_registry_succeeds() {
    let mut dist = Distributor::new();
    assert_eq!(dist.subscribe(), Some(0));
    dist.broadcast(&build(&bare_reading()));
    assert_eq!(dist.subscribe(), Some(1));
    assert!(dist.unsubscribe(0));
    assert_eq!(dist.subscribe(), Some(2));
}

#[test]
fn distinct_pids_stay_distinct() {
    let procs = vec![
        RawProcess { pid: 10, name: Some("a".to_string()), cpu: 0, memory: 0 },
        RawProcess { pid: 11, name: None, cpu: 0, memory: 0 },
        RawProcess { pid: 12, name: Some("c".to_string()), cpu: 0, memory: 0 },
    ];
    let s = build(&reading("p", 0, 0, procs));
    let pids: Vec<u32> = s.processes.iter().map(|p| p.pid).collect();
    assert_eq!(pids, vec![10, 11, 12]);
}
