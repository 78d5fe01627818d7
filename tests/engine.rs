use hwmon_gtk::fuse::Fuse;
use hwmon_gtk::source::{Input, Source};
use hwmon_gtk::update::{Group, Update, Updater};

/// An adapter that hands out scripted outcomes and counts its reads.
struct Mock {
    name: String,
    outcomes: Vec<Option<i64>>,
    reads: u32,
}

impl Input for Mock {
    fn read(&mut self) -> Option<i64> {
        self.reads += 1;
        if self.outcomes.is_empty() {
            None
        } else {
            self.outcomes.remove(0)
        }
    }

    fn unit(&self) -> &str {
        " RPM"
    }

    fn name(&self) -> &str {
        &self.name
    }
}

fn mock(name: &str, outcomes: Vec<Option<i64>>) -> Mock {
    Mock { name: name.to_string(), outcomes, reads: 0 }
}

#[test]
fn fuse_starts_intact_and_stays_blown() {
    let mut f = Fuse::new();
    assert!(!f.blown());
    f.blow();
    assert!(f.blown());
    f.blow();
    assert!(f.blown());
}

#[test]
fn apply_keeps_min_cur_max_ordered() {
    let mut s = Source::new(mock("a", vec![]));
    let mut prev_min = s.min();
    let mut prev_max = s.max();
    for v in [5000, -3000, 12000, 7000, -1000] {
        s.apply(Some(v));
        assert_eq!(s.cur(), v);
        assert!(s.min() <= s.cur() && s.cur() <= s.max());
        assert!(s.min() <= prev_min);
        assert!(s.max() >= prev_max);
        prev_min = s.min();
        prev_max = s.max();
    }
    assert_eq!((s.min(), s.cur(), s.max()), (-3000, -1000, 12000));
}

#[test]
fn cold_start_sentinel_stays_in_the_range() {
    let mut s = Source::new(mock("a", vec![]));
    assert_eq!((s.min(), s.cur(), s.max()), (0, 0, 0));
    s.apply(Some(45000));
    assert_eq!((s.min(), s.cur(), s.max()), (0, 45000, 45000));
}

#[test]
fn missing_sample_trips_the_latch_and_keeps_the_values() {
    let mut s = Source::new(mock("a", vec![]));
    s.apply(Some(1000));
    s.apply(None);
    assert!(s.faulted());
    assert_eq!((s.min(), s.cur(), s.max()), (0, 1000, 1000));
    s.apply(Some(2000));
    assert!(s.faulted());
}

#[test]
fn faulted_record_is_never_read_again() {
    let mut s = Source::new(mock("a", vec![Some(1000), None, Some(3000), Some(4000)]));
    s.update();
    s.update();
    assert!(s.faulted());
    assert_eq!(s.input().reads, 2);
    for _ in 0..5 {
        s.update();
    }
    assert_eq!(s.input().reads, 2);
    assert_eq!(s.cur(), 1000);
}

fn engine(outcomes: Vec<Vec<Option<i64>>>) -> Updater<Mock> {
    let sources = outcomes
        .into_iter()
        .enumerate()
        .map(|(i, o)| mock(&format!("fan{}", i + 1), o))
        .collect();
    Updater::new(vec![Group { name: "nct6775".to_string(), sources }])
}

#[test]
fn every_tick_yields_one_notification() {
    let mut none_fail = engine(vec![vec![Some(1); 3], vec![Some(2); 3]]);
    let mut some_fail = engine(vec![vec![Some(1); 3], vec![]]);
    let mut all_fail = engine(vec![vec![], vec![]]);
    let mut empty: Updater<Mock> = Updater::new(vec![]);
    for u in [&mut none_fail, &mut some_fail, &mut all_fail, &mut empty] {
        for _ in 0..3 {
            assert_eq!(u.update(), Update::Tick);
        }
    }
    assert!(!some_fail.source(0).faulted());
    assert!(some_fail.source(1).faulted());
    assert!(all_fail.source(0).faulted() && all_fail.source(1).faulted());
}

#[test]
fn engine_skips_faulted_records() {
    let mut u = engine(vec![vec![Some(5), Some(6), Some(7)], vec![None, Some(9)]]);
    u.update();
    u.update();
    u.update();
    assert_eq!(u.source(0).input().reads, 3);
    assert_eq!(u.source(0).cur(), 7);
    assert_eq!(u.source(1).input().reads, 1);
    assert!(u.source(1).faulted());
    assert_eq!(u.source(1).cur(), 0);
}

#[test]
fn catalogue_keeps_discovery_order_and_unique_keys() {
    let mut u = Updater::new(vec![
        Group { name: "coretemp".to_string(), sources: vec![mock("Core 0", vec![]), mock("Core 1", vec![])] },
        Group { name: "nct6775".to_string(), sources: vec![mock("fan1", vec![])] },
    ]);
    assert_eq!(u.len(), 3);
    assert_eq!((u.group(0), u.name(0)), ("coretemp", "Core 0"));
    assert_eq!((u.group(1), u.name(1)), ("coretemp", "Core 1"));
    assert_eq!((u.group(2), u.name(2)), ("nct6775", "fan1"));
    assert_eq!(u.position(&"nct6775".to_string(), &"fan1".to_string()), Some(2));
    assert_eq!(u.position(&"nct6775".to_string(), &"fan2".to_string()), None);
    let at = u.insert("coretemp", mock("Core 1", vec![Some(8)]));
    assert_eq!(at, 1);
    assert_eq!(u.len(), 3);
    let at = u.insert("nct6775", mock("fan2", vec![]));
    assert_eq!(at, 3);
    assert_eq!(u.len(), 4);
}

#[test]
fn duplicate_key_takes_the_later_adapter_in_place() {
    let mut u = Updater::new(vec![Group {
        name: "g".to_string(),
        sources: vec![mock("x", vec![Some(1)]), mock("y", vec![Some(2)]), mock("x", vec![Some(3)])],
    }]);
    assert_eq!(u.len(), 2);
    u.update();
    assert_eq!(u.name(0), "x");
    assert_eq!(u.source(0).cur(), 3);
    assert_eq!(u.source(1).cur(), 2);
}

#[test]
fn snapshot_reports_every_record() {
    let mut u = engine(vec![vec![Some(1500)], vec![None]]);
    u.update();
    let snap = u.snapshot();
    assert_eq!(snap.len(), 2);
    assert_eq!(snap[0].group, "nct6775");
    assert_eq!(snap[0].name, "fan1");
    assert_eq!(snap[0].unit, " RPM");
    assert_eq!((snap[0].min, snap[0].cur, snap[0].max), (0, 1500, 1500));
    assert!(!snap[0].faulted);
    assert!(snap[1].faulted);
}
