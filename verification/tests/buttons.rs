use buttonshim::buttons::{diff_events, Button, Buttons, State};

#[test]
fn change_state() {
    let state = State::Released;

    // Pressed at 0 ms against a 2000 ms threshold: a press begins.
    let state = state.pressing(0, 2000);
    assert!(match state {
        State::Pressed(_) => true,
        _ => false,
    });

    // Still pressed 10 ms later against a 1 ms threshold: promoted to Hold.
    let state = state.pressing(10, 1);
    assert_eq!(state, State::Hold);

    let state = state.releasing(10, 1);
    assert_eq!(state, State::Released);

    // A short press: released 10 ms in against a 100 ms threshold.
    let state = state.pressing(20, 100);
    let state = state.releasing(30, 100);
    assert_eq!(state, State::Clicked);
}

#[test]
fn transition_table() {
    let th: u64 = 100;

    // Released row.
    assert_eq!(State::Released.transition(true, 50, th), State::Pressed(50));
    assert_eq!(State::Released.transition(false, 50, th), State::Released);

    // Pressed row: strictly past the threshold promotes to Hold,
    // at or below it the press start is kept.
    assert_eq!(State::Pressed(10).transition(true, 60, th), State::Pressed(10));
    assert_eq!(State::Pressed(10).transition(true, 110, th), State::Pressed(10));
    assert_eq!(State::Pressed(10).transition(true, 111, th), State::Hold);

    // Pressed row, released: strictly before the threshold clicks,
    // at or past it releases.
    assert_eq!(State::Pressed(10).transition(false, 109, th), State::Clicked);
    assert_eq!(State::Pressed(10).transition(false, 110, th), State::Released);
    assert_eq!(State::Pressed(10).transition(false, 200, th), State::Released);

    // Hold row: sticky while pressed, cleared on release.
    assert_eq!(State::Hold.transition(true, 5000, th), State::Hold);
    assert_eq!(State::Hold.transition(false, 5000, th), State::Released);

    // Clicked row: consumed on the very next sample.
    assert_eq!(State::Clicked.transition(true, 70, th), State::Pressed(70));
    assert_eq!(State::Clicked.transition(false, 70, th), State::Released);
}

#[test]
fn click_one_millisecond_before_threshold() {
    // Channel A pressed at t0, sampled released one millisecond before a
    // 100 ms threshold elapses: that is a click.
    let t0: u64 = 400;
    let state = State::Pressed(t0).releasing(t0 + 99, 100);
    assert_eq!(state, State::Clicked);

    // Whatever the next raw bit, the channel leaves Clicked.
    assert_eq!(state.transition(false, t0 + 110, 100), State::Released);
    assert_eq!(state.transition(true, t0 + 110, 100), State::Pressed(t0 + 110));
}

#[test]
fn from_index_names_the_five_channels() {
    let s = State::Hold;
    assert_eq!(Button::from_index(0, s), Some(Button::A(s)));
    assert_eq!(Button::from_index(1, s), Some(Button::B(s)));
    assert_eq!(Button::from_index(2, s), Some(Button::C(s)));
    assert_eq!(Button::from_index(3, s), Some(Button::D(s)));
    assert_eq!(Button::from_index(4, s), Some(Button::E(s)));
    assert_eq!(Button::from_index(5, s), None);
}

#[test]
fn fresh_engine_is_all_released() {
    let engine = Buttons::new();
    assert_eq!(engine.a(), State::Released);
    assert_eq!(engine.b(), State::Released);
    assert_eq!(engine.c(), State::Released);
    assert_eq!(engine.d(), State::Released);
    assert_eq!(engine.e(), State::Released);
}

#[test]
fn press_a_from_idle_emits_one_event() {
    // Raw sample 0b11110: channel A pressed (active-low), others
    // released, at engine state all-Released.
    let mut engine = Buttons::new();
    let events = engine.tick(0b11110, 7);
    assert_eq!(engine.a(), State::Pressed(7));
    assert_eq!(engine.b(), State::Released);
    assert_eq!(engine.c(), State::Released);
    assert_eq!(engine.d(), State::Released);
    assert_eq!(engine.e(), State::Released);
    assert_eq!(events, vec![Button::A(State::Pressed(7))]);
}

#[test]
fn simultaneous_changes_emit_in_channel_order() {
    let mut engine = Buttons::new();
    engine.set_hold_threshold(100);
    // A goes down first.
    let events = engine.tick(0b11110, 0);
    assert_eq!(events, vec![Button::A(State::Pressed(0))]);
    // In the same later tick, A releases (past the threshold) and B
    // presses: events come A then B, never the other way round.
    let events = engine.tick(0b11101, 500);
    assert_eq!(
        events,
        vec![Button::A(State::Released), Button::B(State::Pressed(500))]
    );
}

#[test]
fn steady_state_emits_no_events() {
    let mut engine = Buttons::new();
    let events = engine.tick(0b11111, 10);
    assert!(events.is_empty());
    // A held button below the threshold keeps its state: no repeats.
    engine.tick(0b11110, 20);
    let events = engine.tick(0b11110, 30);
    assert!(events.is_empty());
    assert_eq!(engine.a(), State::Pressed(20));
}

#[test]
fn held_past_threshold_becomes_and_stays_hold() {
    let mut engine = Buttons::new();
    engine.set_hold_threshold(100);
    engine.update(0b11110, 0);
    assert_eq!(engine.a(), State::Pressed(0));
    engine.update(0b11110, 100);
    assert_eq!(engine.a(), State::Pressed(0));
    let events = {
        let mut e = engine.clone();
        e.tick(0b11110, 101)
    };
    assert_eq!(events, vec![Button::A(State::Hold)]);
    engine.update(0b11110, 101);
    assert_eq!(engine.a(), State::Hold);
    // Sticky for as long as the press lasts.
    engine.update(0b11110, 1_000_000);
    assert_eq!(engine.a(), State::Hold);
    // Cleared only on physical release.
    engine.update(0b11111, 1_000_001);
    assert_eq!(engine.a(), State::Released);
}

#[test]
fn diff_events_lists_every_changed_channel() {
    let prev = vec![
        State::Released,
        State::Pressed(3),
        State::Hold,
        State::Released,
        State::Clicked,
    ];
    let next = vec![
        State::Released,
        State::Hold,
        State::Released,
        State::Released,
        State::Released,
    ];
    let events = diff_events(&prev, &next);
    assert_eq!(
        events,
        vec![
            Button::B(State::Hold),
            Button::C(State::Released),
            Button::E(State::Released),
        ]
    );
}

#[test]
fn update_runs_all_five_channels() {
    let mut engine = Buttons::new();
    // All five pressed at once.
    engine.update(0b00000, 42);
    assert_eq!(engine.a(), State::Pressed(42));
    assert_eq!(engine.b(), State::Pressed(42));
    assert_eq!(engine.c(), State::Pressed(42));
    assert_eq!(engine.d(), State::Pressed(42));
    assert_eq!(engine.e(), State::Pressed(42));
    // Unused high bits of the sample change nothing.
    engine.update(0b11100000, 43);
    assert_eq!(engine.a(), State::Pressed(42));
    assert_eq!(engine.e(), State::Pressed(42));
}
