use lifegrid::grid::Grid;
use lifegrid::mainloop::LoopState;
use nanorand::rand::pcg64::Pcg64;

fn stable_block() -> Grid {
    let mut g = Grid::new();
    g.set(1, 1, 1);
    g.set(1, 2, 1);
    g.set(2, 1, 1);
    g.set(2, 2, 1);
    g
}

fn scattered_cells() -> Grid {
    let mut g = Grid::new();
    g.set(1, 3, 1);
    g.set(2, 2, 1);
    g.set(3, 0, 1);
    g.set(3, 1, 1);
    g
}

fn cells_of(g: &Grid) -> [[u8; 5]; 5] {
    let mut rows = [[0u8; 5]; 5];
    for r in 0..5 {
        for c in 0..5 {
            rows[r][c] = g.get(r, c);
        }
    }
    rows
}

#[test]
fn terminal_grid_dwells_long_and_advances_by_five() {
    let mut rng = Pcg64::new_seed(1);
    let mut st = LoopState::new(stable_block());
    let report = st.loop_tick(false, false, &mut rng);
    assert!(!report.enter_game);
    assert_eq!(report.dwell, 500);
    assert_eq!(st.counter_curr, 5);
    assert_eq!(cells_of(&st.leds), cells_of(&stable_block()));
}

#[test]
fn evolving_grid_dwells_short_and_advances_by_one() {
    let mut rng = Pcg64::new_seed(1);
    let mut st = LoopState::new(scattered_cells());
    let report = st.loop_tick(false, false, &mut rng);
    // The scatter collapses to an L-triomino that is still evolving, so
    // the dwell stays short.
    assert_eq!(report.dwell, 100);
    assert_eq!(st.counter_curr, 1);
    assert_eq!(
        cells_of(&st.leds),
        [
            [0, 0, 0, 0, 0],
            [0, 0, 0, 0, 0],
            [0, 1, 1, 0, 0],
            [0, 1, 0, 0, 0],
            [0, 0, 0, 0, 0],
        ]
    );
}

#[test]
fn complement_waits_for_the_guard() {
    let mut rng = Pcg64::new_seed(1);
    let mut st = LoopState::new(stable_block());
    // Counters start equal, so the first secondary press cannot complement;
    // with no primary press the automaton steps instead (the block is
    // stable, so the grid is unchanged).
    let before = cells_of(&st.leds);
    st.loop_tick(false, true, &mut rng);
    assert_eq!(cells_of(&st.leds), before);
    // The stable grid advanced the counter by 5: the guard has elapsed and
    // the next secondary press complements.
    st.loop_tick(false, true, &mut rng);
    let mut expected = [[1u8; 5]; 5];
    expected[1][1] = 0;
    expected[1][2] = 0;
    expected[2][1] = 0;
    expected[2][2] = 0;
    assert_eq!(cells_of(&st.leds), expected);
}

#[test]
fn complement_rearms_the_guard() {
    let mut rng = Pcg64::new_seed(1);
    let mut st = LoopState::new(stable_block());
    st.loop_tick(false, false, &mut rng);
    st.loop_tick(false, true, &mut rng);
    let after_complement = cells_of(&st.leds);
    // Immediately pressing again finds the guard re-armed: no second
    // complement; the (full-ish) grid steps instead.
    st.loop_tick(false, true, &mut rng);
    assert_ne!(cells_of(&st.leds), {
        let mut flipped = [[0u8; 5]; 5];
        for r in 0..5 {
            for c in 0..5 {
                flipped[r][c] = after_complement[r][c] ^ 1;
            }
        }
        flipped
    });
}

#[test]
fn primary_press_rerandomizes() {
    let mut rng = Pcg64::new_seed(7);
    let mut st = LoopState::new(Grid::new());
    let report = st.loop_tick(true, false, &mut rng);
    assert!(!report.enter_game);
    for r in 0..5 {
        for c in 0..5 {
            let v = st.leds.get(r, c);
            assert!(v == 0 || v == 1);
        }
    }
}

#[test]
fn game_entry_after_twenty_rerandomizations() {
    let mut rng = Pcg64::new_seed(3);
    let mut st = LoopState::new(Grid::new());
    for _ in 0..20 {
        let report = st.loop_tick(true, false, &mut rng);
        assert!(!report.enter_game);
    }
    let report = st.loop_tick(true, false, &mut rng);
    assert!(report.enter_game);
    // The counter restarted: the very next primary press does not re-enter.
    let report = st.loop_tick(true, false, &mut rng);
    assert!(!report.enter_game);
}
