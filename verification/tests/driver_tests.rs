use game_of_life::EvolutionDriver;
use game_of_life::Universe;
use game_of_life::UniverseCell;

#[test]
fn driver_starts_idle_and_toggles() {
    let universe = Universe::new_empty(3, 3);
    let mut driver = EvolutionDriver::new(5);
    assert!(!driver.is_running());
    driver.toggle_run(&universe);
    assert!(driver.is_running());
    driver.toggle_run(&universe);
    assert!(!driver.is_running());
}

#[test]
fn run_while_running_is_a_no_op() {
    let universe = Universe::new_empty(3, 3);
    let mut driver = EvolutionDriver::new(5);
    assert!(driver.run(&universe));
    assert!(!driver.run(&universe), "a second run request starts nothing");
    assert!(driver.is_running());
    driver.halt();
    assert!(!driver.is_running());
}

#[test]
fn interval_follows_the_evolution_speed() {
    let mut driver = EvolutionDriver::new(1);
    assert_eq!(driver.interval_ms(), 1000);
    driver.set_evolution_speed(5);
    assert_eq!(driver.interval_ms(), 200);
    driver.set_evolution_speed(100);
    assert_eq!(driver.interval_ms(), 10);
    assert_eq!(driver.evolution_speed(), 100);
}

#[test]
fn step_publishes_ticked_generations_in_order() {
    // A blinker: the driver's working copy evolves privately; the universe
    // handed to `run` is untouched.
    let mut universe = Universe::new_empty(5, 5);
    universe.set_cell(2, 1, UniverseCell::Alive);
    universe.set_cell(2, 2, UniverseCell::Alive);
    universe.set_cell(2, 3, UniverseCell::Alive);

    let mut driver = EvolutionDriver::new(10);
    driver.run(&universe);

    let first = driver.step().expect("running driver publishes");
    assert_eq!(first.generations(), 1);
    let (cell, _) = first.get_cell(1, 2);
    assert_eq!(cell, UniverseCell::Alive, "the blinker flipped vertical");

    let second = driver.step().expect("still running");
    assert_eq!(second.generations(), 2);
    let (cell, _) = second.get_cell(2, 1);
    assert_eq!(cell, UniverseCell::Alive, "the blinker flipped back");

    assert_eq!(universe.generations(), 0, "the source universe never ticked");
}

#[test]
fn no_generation_is_published_after_halt() {
    let universe = Universe::new_empty(4, 4);
    let mut driver = EvolutionDriver::new(10);
    driver.run(&universe);
    assert!(driver.step().is_some());
    driver.halt();
    for _ in 0..5 {
        assert!(driver.step().is_none(), "a halted driver publishes nothing");
    }
}

#[test]
fn idle_driver_never_publishes() {
    let mut driver = EvolutionDriver::new(50);
    for _ in 0..3 {
        assert!(driver.step().is_none());
    }
}

#[test]
fn halt_stops_the_message_stream_through_a_channel() {
    // The driver's decisions pump a channel the way the application's
    // ticking loop does: once halt is observed, nothing more is sent, so
    // the receiver drains and then stays empty.
    let mut universe = Universe::new_empty(5, 5);
    universe.set_cell(2, 1, UniverseCell::Alive);
    universe.set_cell(2, 2, UniverseCell::Alive);
    universe.set_cell(2, 3, UniverseCell::Alive);

    let (sender, receiver) = async_channel::unbounded::<Universe>();
    let mut driver = EvolutionDriver::new(10);
    driver.run(&universe);

    for _ in 0..3 {
        if let Some(generation) = driver.step() {
            sender.try_send(generation).expect("unbounded channel accepts");
        }
    }
    driver.halt();
    for _ in 0..3 {
        if let Some(generation) = driver.step() {
            sender.try_send(generation).expect("unbounded channel accepts");
        }
    }

    // Exactly the pre-halt generations arrived, in production order.
    let mut received = Vec::new();
    while let Ok(generation) = receiver.try_recv() {
        received.push(generation);
    }
    assert_eq!(received.len(), 3);
    assert_eq!(received[0].generations(), 1);
    assert_eq!(received[1].generations(), 2);
    assert_eq!(received[2].generations(), 3);
}

#[test]
fn translators_are_credited() {
    let translators = game_of_life::translators_list();
    assert_eq!(
        translators,
        vec![
            "Andrea Coronese (English, Italian)",
            "Rene Coty (French)"
        ]
    );
}
