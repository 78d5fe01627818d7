use hwmon_gtk::schedule::{Action, Event, Phase, Scheduler, PERIOD_MS};

#[test]
fn loop_ticks_notifies_then_sleeps() {
    let mut s = Scheduler::new();
    assert_eq!(s.phase(), Phase::Idle);
    assert_eq!(s.next(Event::Started), Action::Tick);
    assert_eq!(s.next(Event::Ticked), Action::Notify);
    assert_eq!(s.next(Event::Sent), Action::Sleep);
    assert_eq!(s.phase(), Phase::Sleeping);
    assert_eq!(s.next(Event::Woke), Action::Tick);
    assert_eq!(s.next(Event::Ticked), Action::Notify);
    assert_eq!(PERIOD_MS, 2000);
}

#[test]
fn closed_receiver_stops_within_one_period() {
    let mut s = Scheduler::new();
    s.next(Event::Started);
    s.next(Event::Ticked);
    s.next(Event::Sent);
    // the receiver goes away while the scheduler sleeps
    assert_eq!(s.next(Event::Woke), Action::Tick);
    assert_eq!(s.next(Event::Ticked), Action::Notify);
    assert_eq!(s.next(Event::SendFailed), Action::Exit);
    assert_eq!(s.phase(), Phase::Stopped);
    for e in [Event::Started, Event::Ticked, Event::Sent, Event::Woke, Event::SendFailed] {
        assert_eq!(s.next(e), Action::Exit);
        assert_eq!(s.phase(), Phase::Stopped);
    }
}

#[test]
fn one_notification_per_tick_over_a_run() {
    let mut s = Scheduler::new();
    let mut ticks = 0;
    let mut notes = 0;
    let mut ev = Event::Started;
    for _ in 0..30 {
        match s.next(ev) {
            Action::Tick => {
                ticks += 1;
                ev = Event::Ticked;
            }
            Action::Notify => {
                notes += 1;
                ev = Event::Sent;
            }
            Action::Sleep => ev = Event::Woke,
            Action::Exit | Action::Wait => break,
        }
        assert!(ticks == notes || ticks == notes + 1);
    }
    assert_eq!(ticks, 10);
    assert_eq!(notes, 10);
}

#[test]
fn events_out_of_turn_change_nothing() {
    let mut s = Scheduler::new();
    assert_eq!(s.next(Event::Woke), Action::Wait);
    assert_eq!(s.phase(), Phase::Idle);
    s.next(Event::Started);
    assert_eq!(s.next(Event::Sent), Action::Wait);
    assert_eq!(s.phase(), Phase::Ticking);
}
