use eggtimer::{next_step, AlarmStep, Duration, EggTimer};

#[test]
fn alarm_fires_once_run_out() {
    assert_eq!(next_step(None, &Duration::new(0, 2_000_000)), AlarmStep::Fire);
}

#[test]
fn alarm_sleeps_all_but_the_margin() {
    let step = next_step(Some(Duration::new(1, 0)), &Duration::new(0, 2_000_000));
    assert_eq!(step, AlarmStep::Sleep(Duration::new(0, 998_000_000)));
}

#[test]
fn alarm_spins_within_the_margin() {
    let margin = Duration::new(0, 2_000_000);
    assert_eq!(next_step(Some(Duration::new(0, 1_000)), &margin), AlarmStep::Spin);
    assert_eq!(next_step(Some(margin), &margin), AlarmStep::Spin);
}

#[test]
fn alarm_waits_for_a_real_countdown() {
    let timer = EggTimer::set(Duration::new(0, 30_000_000));
    let margin = Duration::new(0, 2_000_000);
    let mut spins: u64 = 0;
    loop {
        match next_step(timer.duration_left(), &margin) {
            AlarmStep::Sleep(d) => {
                let until = std::time::Instant::now()
                    + std::time::Duration::new(d.as_secs(), d.subsec_nanos());
                while std::time::Instant::now() < until {}
            }
            AlarmStep::Spin => spins += 1,
            AlarmStep::Fire => break,
        }
    }
    assert!(timer.started_at().elapsed() >= std::time::Duration::from_millis(30));
    assert!(timer.is_ready());
    let _ = spins;
}
