use blockfall::block::FallingBlock;
use blockfall::frame::{
    get_global_borders, get_inner_borders, test_terminal_size, GameFrame, NextBlockFrame,
    RecordFrame, NEXT_BLOCK_FRAME_HEIGHT, NEXT_BLOCK_FRAME_WIDTH, RECORD_FRAME_HEIGHT,
    RECORD_FRAME_WIDTH, RIGHT_SIDE_WIDTH,
};
use blockfall::state::State;

#[test]
fn the_default_board_needs_a_41_by_22_screen() {
    let s = State::new(10, 20, FallingBlock::new(0, 0), FallingBlock::new(1, 0));
    let game = s.get_game_size();
    assert_eq!(game, (20, 20));
    assert_eq!(
        test_terminal_size(game, (80, 24)),
        Ok(((80, 41), (24, 22)))
    );
    assert_eq!(
        test_terminal_size(game, (41, 22)),
        Ok(((41, 41), (22, 22)))
    );
    assert_eq!(
        test_terminal_size(game, (40, 24)),
        Err(((40, 41), (24, 22)))
    );
    assert_eq!(
        test_terminal_size(game, (80, 21)),
        Err(((80, 41), (21, 22)))
    );
}

#[test]
fn the_game_is_centered_in_the_terminal() {
    let (top, bottom, left, right, middle) = get_global_borders((20, 20), (80, 24));
    assert_eq!((top, bottom), (1, 22));
    assert_eq!((left, right), (19, 59));
    assert_eq!(middle, 59 - RIGHT_SIDE_WIDTH);
    assert_eq!(
        get_inner_borders((top, bottom, left, right)),
        (2, 21, 20, 58)
    );
}

#[test]
fn the_three_frames_share_the_side_column() {
    let game = (20u16, 20u16);
    let term = (80u16, 24u16);
    let (top, bottom, left, _right, middle) = get_global_borders(game, term);

    assert_eq!(GameFrame::get_borders(game, term), (top, bottom, left, middle));

    let record = RecordFrame::get_borders(game, term);
    assert_eq!(record.0, bottom - RECORD_FRAME_HEIGHT);
    assert_eq!(record.1, bottom);
    assert_eq!(record.2, middle + 1);
    assert_eq!(record.3, middle + 1 + RECORD_FRAME_WIDTH);

    let preview = NextBlockFrame::get_borders(game, term);
    assert_eq!(preview.0, top);
    assert_eq!(preview.1, top + NEXT_BLOCK_FRAME_HEIGHT - 1);
    assert_eq!(preview.2, middle + 1);
    assert_eq!(preview.3, middle + 1 + NEXT_BLOCK_FRAME_WIDTH);
}

#[test]
fn the_clock_readout_is_zero_padded() {
    assert_eq!(RecordFrame::secs_to_string(0), "00:00:00");
    assert_eq!(RecordFrame::secs_to_string(59), "00:00:59");
    assert_eq!(RecordFrame::secs_to_string(60), "00:01:00");
    assert_eq!(RecordFrame::secs_to_string(3600), "01:00:00");
    assert_eq!(RecordFrame::secs_to_string(3661), "01:01:01");
    assert_eq!(RecordFrame::secs_to_string(86399), "23:59:59");
    // Hours keep growing past two digits.
    assert_eq!(RecordFrame::secs_to_string(360_000), "100:00:00");
    assert_eq!(RecordFrame::secs_to_string(u32::MAX), "1193046:28:15");
}
