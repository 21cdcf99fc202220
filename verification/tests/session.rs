use blockfall::block::{CellColor, FallingBlock, Point, StackedBlock};
use blockfall::event::Event;
use blockfall::handler::{
    drop_step, finish_clear, generate_new_block, handle_event, hard_drop, is_valid_position,
    left, line_to_score, quit, right, score_update, time_update, Outcome,
};
use blockfall::state::State;

const GRAY: CellColor = CellColor::Rgb(128, 128, 128);

fn point_set(points: &[Point]) -> Vec<(isize, isize)> {
    let mut v: Vec<(isize, isize)> = points.iter().map(|p| (p.x, p.y)).collect();
    v.sort();
    v
}

fn session_with(curr: FallingBlock, next: FallingBlock) -> State {
    State::new(10, 20, curr, next)
}

fn square_at(x: isize, y: isize) -> FallingBlock {
    let mut fb = FallingBlock::new(6, 0);
    fb.shift(&Point::new(x, y));
    fb
}

#[test]
fn triangular_scores() {
    assert_eq!(line_to_score(0), 0);
    assert_eq!(line_to_score(1), 1);
    assert_eq!(line_to_score(2), 3);
    assert_eq!(line_to_score(3), 6);
    assert_eq!(line_to_score(4), 10);
}

#[test]
fn spawned_square_is_centered_with_its_lowest_cells_at_the_top_row() {
    // Catalog index 6, orientation 0, empty 10x20 board.
    let mut s = session_with(FallingBlock::new(0, 0), FallingBlock::new(6, 0));
    let overflow = generate_new_block(&mut s);
    assert!(!overflow);
    assert!(!s.quit_signal);
    let pts = s.two_blocks.current_block().points();
    assert_eq!(point_set(&pts), vec![(4, 19), (4, 20), (5, 19), (5, 20)]);
    for p in pts.iter() {
        assert!(0 <= p.x && p.x < 10);
    }
    // The lowest extent sits exactly at the top row of the board.
    assert_eq!(pts.iter().map(|p| p.y).min().unwrap(), 19);
    // The fresh preview piece is a real catalog entry, untranslated.
    let next = s.two_blocks.next_block();
    assert!(next.block_idx < 7);
    assert!(next.orientation < 4);
    assert_eq!((next.offset.x, next.offset.y), (0, 0));
}

#[test]
fn spawning_onto_a_full_stack_overflows() {
    let mut s = session_with(FallingBlock::new(0, 0), FallingBlock::new(6, 0));
    let everything: Vec<Point> = (0..20)
        .flat_map(|y| (0..10).map(move |x| Point::new(x, y)))
        .collect();
    s.stacked_blocks.cover(GRAY, &everything);
    let overflow = generate_new_block(&mut s);
    assert!(overflow);
    assert!(s.quit_signal);
    assert_eq!(s.message.as_deref(), Some("block stack overflow"));
}

#[test]
fn move_left_at_the_wall_changes_nothing() {
    // The square's leftmost cells sit at x = 0: MoveLeft must be rejected.
    let mut s = session_with(square_at(-1, 5), FallingBlock::new(0, 0));
    let before = point_set(&s.two_blocks.current_block().points());
    assert_eq!(before, vec![(0, 5), (0, 6), (1, 5), (1, 6)]);

    let moved = left(&mut s);
    assert!(!moved);
    assert_eq!(point_set(&s.two_blocks.current_block().points()), before);

    // The same command through the dispatcher, while playing.
    let _ = s.timer.resume(0);
    let r = handle_event(Event::Left, &mut s, 0);
    assert!(matches!(r, Outcome::Moved { changed: false }));
    assert_eq!(point_set(&s.two_blocks.current_block().points()), before);

    // Moving right from the wall still works.
    assert!(right(&mut s));
    assert_eq!(
        point_set(&s.two_blocks.current_block().points()),
        vec![(1, 5), (1, 6), (2, 5), (2, 6)]
    );
}

#[test]
fn moves_blocked_by_stacked_cells_are_rejected() {
    let mut s = session_with(square_at(3, 5), FallingBlock::new(0, 0));
    s.stacked_blocks.cover(GRAY, &vec![Point::new(3, 5)]);
    assert!(!left(&mut s));
    assert!(right(&mut s));
    let pts = s.two_blocks.current_block().points();
    assert!(is_valid_position(&pts, &s));
}

#[test]
fn soft_drop_moves_down_until_it_locks_in() {
    let mut s = session_with(square_at(3, 1), FallingBlock::new(4, 0));
    let _ = s.timer.resume(0);
    let r = drop_step(&mut s, 77);
    assert!(matches!(r, Outcome::Dropped { landed: false, .. }));
    assert_eq!(
        point_set(&s.two_blocks.current_block().points()),
        vec![(4, 0), (4, 1), (5, 0), (5, 1)]
    );
    // The auto-drop schedule was re-referenced to the drop instant.
    assert_eq!(s.timer.scheduled_time(1, 0), Some(77));

    // The next step is blocked by the floor: the piece locks in and the
    // preview piece spawns.
    let r = drop_step(&mut s, 99);
    match r {
        Outcome::Dropped { landed, lines, overflow } => {
            assert!(landed);
            assert!(lines.is_empty());
            assert!(!overflow);
        }
        other => panic!("unexpected outcome {other:?}"),
    }
    for (x, y) in [(4, 0), (4, 1), (5, 0), (5, 1)] {
        assert_eq!(s.stacked_blocks.color_at(&Point::new(x, y)), FallingBlock::new(6, 0).color());
    }
    // The bar piece spawned centered at the top.
    assert_eq!(
        point_set(&s.two_blocks.current_block().points()),
        vec![(3, 20), (4, 20), (5, 20), (6, 20)]
    );
    assert!(!s.quit_signal);
}

#[test]
fn hard_drop_falls_to_the_stack() {
    let mut s = session_with(square_at(3, 17), FallingBlock::new(4, 0));
    s.stacked_blocks.cover(GRAY, &vec![Point::new(4, 2)]);
    let r = hard_drop(&mut s, 5);
    assert!(matches!(r, Outcome::Dropped { landed: true, .. }));
    // The square rests on the single gray cell at (4, 2).
    for (x, y) in [(4, 3), (4, 4), (5, 3), (5, 4)] {
        assert_eq!(s.stacked_blocks.color_at(&Point::new(x, y)), FallingBlock::new(6, 0).color());
    }
}

#[test]
fn locking_in_on_a_full_row_pauses_for_the_clear() {
    // Row 0 lacks only the two cells the square will fill.
    let mut s = session_with(square_at(3, 0), FallingBlock::new(4, 0));
    let _ = s.timer.resume(0);
    let rest: Vec<Point> = (0..10)
        .filter(|x| *x != 4 && *x != 5)
        .map(|x| Point::new(x, 0))
        .collect();
    s.stacked_blocks.cover(GRAY, &rest);

    let r = drop_step(&mut s, 10);
    match r {
        Outcome::Dropped { landed, lines, overflow } => {
            assert!(landed);
            assert_eq!(lines, vec![0]);
            assert!(!overflow);
        }
        other => panic!("unexpected outcome {other:?}"),
    }
    // The clock paused and input is disabled for the blink.
    assert!(s.timer.is_paused());
    assert!(!s.handle_signal);
    // Commands are ignored entirely while the blink runs.
    let r = handle_event(Event::Left, &mut s, 11);
    assert!(matches!(r, Outcome::Ignored));

    let cleared = finish_clear(&mut s, 20);
    assert_eq!(cleared, 1);
    assert_eq!(s.record.line, 1);
    assert_eq!(s.record.score, 1);
    assert!(s.handle_signal);
    assert!(!s.timer.is_paused());
    assert!(s.stacked_blocks.full_lines().is_empty());
    // Row 0 kept only the square's upper half, shifted down.
    for x in 0..10 {
        let c = s.stacked_blocks.color_at(&Point::new(x, 0));
        if x == 4 || x == 5 {
            assert_eq!(c, FallingBlock::new(6, 0).color());
        } else {
            assert_eq!(c, CellColor::Empty);
        }
    }
}

#[test]
fn four_rows_cleared_at_once_award_ten_points() {
    let mut s = session_with(square_at(3, 0), FallingBlock::new(4, 0));
    let _ = s.timer.resume(0);
    for y in 0..4 {
        let row: Vec<Point> = (0..10).map(|x| Point::new(x, y)).collect();
        s.stacked_blocks.cover(GRAY, &row);
    }
    let cleared = finish_clear(&mut s, 50);
    assert_eq!(cleared, 4);
    assert_eq!(s.record.line, 4);
    assert_eq!(s.record.score, 10);
}

#[test]
fn the_paused_state_machine_honors_only_toggle_quit_and_resize() {
    let mut s = session_with(square_at(3, 5), FallingBlock::new(0, 0));
    assert!(s.timer.is_paused());
    let before = point_set(&s.two_blocks.current_block().points());

    assert!(matches!(handle_event(Event::Left, &mut s, 1), Outcome::Ignored));
    assert!(matches!(handle_event(Event::Drop, &mut s, 2), Outcome::Ignored));
    assert!(matches!(handle_event(Event::HardDrop, &mut s, 3), Outcome::Ignored));
    assert_eq!(point_set(&s.two_blocks.current_block().points()), before);
    assert!(matches!(
        handle_event(Event::Resize, &mut s, 4),
        Outcome::ResizeRequested
    ));

    assert!(matches!(handle_event(Event::Toggle, &mut s, 5), Outcome::Resumed));
    assert!(!s.timer.is_paused());
    assert!(matches!(handle_event(Event::Toggle, &mut s, 6), Outcome::Paused));
    assert!(s.timer.is_paused());

    assert!(matches!(handle_event(Event::Quit, &mut s, 7), Outcome::Quitting));
    assert!(s.quit());
}

#[test]
fn unknown_commands_do_nothing_while_playing() {
    let mut s = session_with(square_at(3, 5), FallingBlock::new(0, 0));
    let _ = s.timer.resume(0);
    assert!(matches!(handle_event(Event::Unknow, &mut s, 1), Outcome::Ignored));
    assert!(matches!(
        handle_event(Event::ClockRotate, &mut s, 2),
        Outcome::Moved { .. }
    ));
}

#[test]
fn record_updates_accumulate() {
    let mut s = session_with(square_at(3, 5), FallingBlock::new(0, 0));
    time_update(42, &mut s);
    assert_eq!(s.record.secs, 42);
    score_update(2, 3, &mut s);
    score_update(1, 1, &mut s);
    assert_eq!(s.record.line, 3);
    assert_eq!(s.record.score, 4);
    assert_eq!(s.record.speed, 1);
    quit(&mut s);
    assert!(s.quit_signal);
}
