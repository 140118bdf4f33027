use omni_led::devices::devices::DeviceStatus;
use omni_led::script_handler::scheduler::{layout_duration, LayoutSchedule, ScanAction, Schedules, State};
use omni_led::script_handler::screen_builder::{
    gate_open, next_screen, open_screen_builder, press_toggle, BuilderError, BuilderType, ScreenBuilderImpl,
};

fn schedule(run_on: &[&[&str]]) -> LayoutSchedule {
    LayoutSchedule::new(
        "screen".to_string(),
        run_on.iter().map(|keys| keys.iter().map(|k| k.to_string()).collect()).collect(),
    )
}

/// Runs one tick, answering predicate requests from `answers` in turn; gives the action
/// the scan ended with and how many predicates were asked.
fn tick(s: &mut LayoutSchedule, time_passed: u64, answers: &[bool]) -> (ScanAction, usize) {
    let mut scan = s.begin_update(time_passed);
    let mut answer = None;
    let mut asked = 0;
    loop {
        match s.scan(&mut scan, answer) {
            ScanAction::TestPredicate(_) => {
                answer = Some(answers[asked]);
                asked += 1;
            }
            other => return (other, asked),
        }
    }
}

#[test]
fn marked_layout_is_drawn_as_new_update() {
    let mut s = schedule(&[&["A"], &["B"]]);
    s.mark_for_update("B");
    let (action, asked) = tick(&mut s, 0, &[true]);
    assert_eq!(action, ScanAction::Render { layout: 1, new_update: true, screen_changed: true });
    assert_eq!(asked, 1);
    s.finish_update(1, true, layout_duration(None), State::Finished);

    // Nothing new: nothing drawn, and no predicate asked.
    let (action, asked) = tick(&mut s, 10, &[]);
    assert_eq!(action, ScanAction::Idle);
    assert_eq!(asked, 0);
}

#[test]
fn higher_priority_preempts_and_lower_waits_for_time() {
    let mut s = schedule(&[&["A"], &["B"]]);
    s.mark_for_update("A");
    let (action, _) = tick(&mut s, 0, &[true]);
    assert_eq!(action, ScanAction::Render { layout: 0, new_update: true, screen_changed: false });
    s.finish_update(0, true, 1000, State::Finished);

    // While layout 0 holds the screen, layout 1 is not considered.
    s.mark_for_update("B");
    let (action, asked) = tick(&mut s, 400, &[true]);
    assert_eq!(action, ScanAction::Idle);
    assert_eq!(asked, 0);

    // The mark was cleared by that tick; once the time is up, a new mark draws layout 1.
    s.mark_for_update("B");
    let (action, _) = tick(&mut s, 600, &[true]);
    assert_eq!(action, ScanAction::Render { layout: 1, new_update: true, screen_changed: true });
}

#[test]
fn failed_predicate_falls_through() {
    let mut s = schedule(&[&["A"], &["A"]]);
    s.mark_for_update("A");
    let (action, asked) = tick(&mut s, 0, &[false, true]);
    assert_eq!(action, ScanAction::Render { layout: 1, new_update: true, screen_changed: true });
    assert_eq!(asked, 2);
}

#[test]
fn repeats_while_animating_or_time_left() {
    let mut s = schedule(&[&["A"]]);
    s.mark_for_update("A");
    let _ = tick(&mut s, 0, &[true]);
    s.finish_update(0, true, 500, State::InProgress);
    let (action, _) = tick(&mut s, 100, &[]);
    assert_eq!(action, ScanAction::Render { layout: 0, new_update: false, screen_changed: false });
    s.finish_update(0, false, 0, State::CanFinish);
    let (action, _) = tick(&mut s, 100, &[]);
    assert_eq!(action, ScanAction::Render { layout: 0, new_update: false, screen_changed: false });
    s.finish_update(0, false, 0, State::CanFinish);
    let (action, _) = tick(&mut s, 1000, &[]);
    assert_eq!(action, ScanAction::Idle);
}

#[test]
fn schedules_mark_and_reset_by_name() {
    let mut all = Schedules::new();
    all.register(LayoutSchedule::new("one".to_string(), vec![vec!["K".to_string()]]));
    all.register(LayoutSchedule::new("two".to_string(), vec![vec!["K".to_string()]]));
    assert_eq!(all.len(), 2);
    all.mark_for_update("K");
    assert_eq!(all.reset("two"), Some(1));
    assert_eq!(all.reset("three"), None);
}

#[test]
fn default_layout_duration() {
    assert_eq!(layout_duration(None), 1000);
    assert_eq!(layout_duration(Some(250)), 250);
}

#[test]
fn builder_refuses_mixing_layouts_and_groups() {
    let mut b: ScreenBuilderImpl<u32> = ScreenBuilderImpl::new("dev".to_string());
    assert!(b.with_layout(1).is_ok());
    assert_eq!(b.with_layout_group(vec![2]), Err(BuilderError::GroupAfterLayout));
    assert_eq!(b.with_layout_group_toggle(vec!["K".to_string()]), Err(BuilderError::ToggleAfterLayout));

    let mut g: ScreenBuilderImpl<u32> = ScreenBuilderImpl::new("dev".to_string());
    assert!(g.with_layout_group(vec![1, 2]).is_ok());
    assert!(g.with_layout_group(vec![3]).is_ok());
    assert_eq!(g.with_layout(4), Err(BuilderError::LayoutAfterGroup));
    assert!(g.with_layout_group_toggle(vec!["KEY(A)".to_string()]).is_ok());
    let registration = g.register();
    assert_eq!(registration.device_name, "dev");
    let gates: Vec<(u32, Option<usize>)> = registration.layouts.iter().map(|l| (l.layout, l.screen)).collect();
    assert_eq!(gates, vec![(1, Some(0)), (2, Some(0)), (3, Some(1))]);
    let (keys, count) = registration.toggle.unwrap();
    assert_eq!(keys, vec!["KEY(A)".to_string()]);
    assert_eq!(count, 2);

    let plain = b.register();
    assert!(plain.toggle.is_none());
    assert_eq!(plain.layouts.len(), 1);
    assert_eq!(plain.layouts[0].screen, None);
    let _ = BuilderType::Layout;
}

#[test]
fn builder_error_messages() {
    assert_eq!(
        BuilderError::LayoutAfterGroup.message(),
        "Can't use 'with_layout' after calling 'with_layout_group' or 'with_layout_group_toggle'."
    );
    assert_eq!(BuilderError::GroupAfterLayout.message(), "Can't use 'with_layout_group' after calling 'with_layout'.");
    assert_eq!(
        BuilderError::ToggleAfterLayout.message(),
        "Can't use 'with_layout_group_toggle' after calling 'with_layout'."
    );
    assert_eq!(BuilderError::DeviceAlreadyLoaded("d".to_string()).message(), "Device 'd' already loaded.");
    assert_eq!(BuilderError::DeviceNotFound("d".to_string()).message(), "Device 'd' not found.");
}

#[test]
fn builder_for_device_status() {
    assert!(open_screen_builder::<u32>(Some(DeviceStatus::Available), "d".to_string()).is_ok());
    assert_eq!(
        open_screen_builder::<u32>(Some(DeviceStatus::Loaded), "d".to_string()).err(),
        Some(BuilderError::DeviceAlreadyLoaded("d".to_string()))
    );
    assert_eq!(
        open_screen_builder::<u32>(None, "d".to_string()).err(),
        Some(BuilderError::DeviceNotFound("d".to_string()))
    );
}

#[test]
fn toggle_cycles_through_screens() {
    let mut current = 0;
    let mut seen = vec![];
    for _ in 0..3 {
        current = next_screen(current, 3);
        seen.push(current);
    }
    assert_eq!(seen, vec![1, 2, 0]);
    assert_eq!(next_screen(0, 0), 0);
    assert_eq!(next_screen(0, 1), 0);
    assert!(gate_open(None, 5));
    assert!(gate_open(Some(1), 1));
    assert!(!gate_open(Some(1), 0));
}

#[test]
fn layout_groups_with_toggle_as_configured() {
    let mut builder: ScreenBuilderImpl<&str> =
        open_screen_builder(Some(DeviceStatus::Available), "YOUR_DEVICE_NAME".to_string()).ok().unwrap();
    assert!(builder.with_layout_group(vec!["volume", "spotify", "clock"]).is_ok());
    assert!(builder.with_layout_group(vec!["weather"]).is_ok());
    assert!(builder
        .with_layout_group_toggle(vec!["KEY(RAlt)".to_string(), "KEY(Slash)".to_string()])
        .is_ok());
    let registration = builder.register();
    let (keys, count) = registration.toggle.unwrap();
    assert_eq!(keys, vec!["KEY(RAlt)".to_string(), "KEY(Slash)".to_string()]);
    assert_eq!(count, 2);

    // Only the layouts of the selected screen pass their gate; the toggle switches over.
    let mut current = 0;
    let open: Vec<&str> =
        registration.layouts.iter().filter(|l| gate_open(l.screen, current)).map(|l| l.layout).collect();
    assert_eq!(open, vec!["volume", "spotify", "clock"]);
    current = next_screen(current, count);
    let open: Vec<&str> =
        registration.layouts.iter().filter(|l| gate_open(l.screen, current)).map(|l| l.layout).collect();
    assert_eq!(open, vec!["weather"]);
    assert_eq!(next_screen(current, count), 0);
}

#[test]
fn toggle_press_switches_screen_and_restarts_schedule() {
    let mut all = Schedules::new();
    let mut s = LayoutSchedule::new("dev".to_string(), vec![vec!["A".to_string()], vec!["B".to_string()]]);
    s.mark_for_update("A");
    let _ = tick(&mut s, 0, &[true]);
    s.finish_update(0, true, 5000, State::InProgress);
    all.register(s);
    let mut current = 1;
    assert_eq!(press_toggle(&mut current, 2, &mut all, "dev"), Some(0));
    assert_eq!(current, 0);
    assert_eq!(press_toggle(&mut current, 2, &mut all, "other"), None);
    assert_eq!(current, 1);
}
