use image_viewer::playback::{
    pause_millis, Action, Event, Phase, Player, EXIT_FAILURE, EXIT_OK,
};
use image_viewer::render::{ending, CanvasOp};

fn play(player: &mut Player, events: &[Event]) -> Vec<Action> {
    events.iter().map(|e| player.step(*e)).collect()
}

fn count_finishes(actions: &[Action]) -> usize {
    actions.iter().filter(|a| matches!(a, Action::Finish { .. })).count()
}

#[test]
fn exit_codes() {
    assert_eq!(EXIT_OK, 0);
    assert_eq!(EXIT_FAILURE, 1);
}

#[test]
fn a_run_begins_idle() {
    let p = Player::new(true);
    assert_eq!(p, Player { phase: Phase::Idle, frames: 0, looping: true });
    assert!(!p.is_finished());
    assert!(!Player::new(false).looping);
}

#[test]
fn a_still_picture_is_shown_once() {
    let mut p = Player::new(false);
    let actions = play(&mut p, &[Event::Start, Event::Decoded { frames: 1 }, Event::FrameShown]);
    assert_eq!(
        actions,
        vec![Action::Decode, Action::Show { frame: 0 }, Action::Finish { code: 0, canvas_open: true }]
    );
    assert!(p.is_finished());
}

#[test]
fn frames_are_shown_once_in_order_without_looping() {
    let mut p = Player::new(false);
    let actions = play(
        &mut p,
        &[
            Event::Start,
            Event::Decoded { frames: 3 },
            Event::FrameShown,
            Event::FrameShown,
            Event::FrameShown,
            Event::FrameShown,
        ],
    );
    assert_eq!(
        actions,
        vec![
            Action::Decode,
            Action::Show { frame: 0 },
            Action::Show { frame: 1 },
            Action::Show { frame: 2 },
            Action::Finish { code: 0, canvas_open: true },
            Action::Nothing,
        ]
    );
    assert_eq!(p, Player { phase: Phase::Finished, frames: 3, looping: false });
}

#[test]
fn looping_starts_again_after_the_last_frame() {
    let mut p = Player::new(true);
    let mut events = vec![Event::Start, Event::Decoded { frames: 3 }];
    events.extend(vec![Event::FrameShown; 7]);
    let actions = play(&mut p, &events);
    let shown: Vec<usize> = actions
        .iter()
        .filter_map(|a| match a {
            Action::Show { frame } => Some(*frame),
            _ => None,
        })
        .collect();
    assert_eq!(shown, vec![0, 1, 2, 0, 1, 2, 0, 1]);
    assert_eq!(count_finishes(&actions), 0);
    assert_eq!(p.phase, Phase::Showing { frame: 1 });
}

#[test]
fn looping_over_one_frame_shows_it_again_and_again() {
    let mut p = Player::new(true);
    let actions = play(
        &mut p,
        &[Event::Start, Event::Decoded { frames: 1 }, Event::FrameShown, Event::FrameShown],
    );
    assert_eq!(
        actions,
        vec![Action::Decode, Action::Show { frame: 0 }, Action::Show { frame: 0 }, Action::Show { frame: 0 }]
    );
}

#[test]
fn a_file_without_frames_ends_at_once() {
    for looping in [false, true] {
        let mut p = Player::new(looping);
        let actions = play(&mut p, &[Event::Start, Event::Decoded { frames: 0 }, Event::FrameShown]);
        assert_eq!(actions, vec![Action::Decode, Action::Finish { code: 0, canvas_open: true }, Action::Nothing]);
    }
}

#[test]
fn a_file_that_cannot_be_decoded_ends_with_code_1_and_shows_nothing() {
    for looping in [false, true] {
        let mut p = Player::new(looping);
        let actions = play(
            &mut p,
            &[
                Event::Start,
                Event::DecodeFailed,
                Event::Decoded { frames: 5 },
                Event::FrameShown,
                Event::Interrupt,
                Event::Start,
            ],
        );
        assert_eq!(
            actions,
            vec![
                Action::Decode,
                Action::Finish { code: 1, canvas_open: false },
                Action::Nothing,
                Action::Nothing,
                Action::Nothing,
                Action::Nothing,
            ]
        );
        assert!(actions.iter().all(|a| !matches!(a, Action::Show { .. })));
        assert!(p.is_finished());
    }
}

#[test]
fn interrupting_a_loop_cleans_up_once_and_shows_nothing_more() {
    for n in 1..5usize {
        for k in 0..12usize {
            let mut p = Player::new(true);
            let mut events = vec![Event::Start, Event::Decoded { frames: n }];
            events.extend(vec![Event::FrameShown; k]);
            events.push(Event::Interrupt);
            events.extend(vec![
                Event::FrameShown,
                Event::Interrupt,
                Event::Decoded { frames: 2 },
                Event::Start,
                Event::DecodeFailed,
                Event::FrameShown,
            ]);
            let actions = play(&mut p, &events);
            assert_eq!(count_finishes(&actions), 1);
            assert_eq!(actions[k + 2], Action::Finish { code: 0, canvas_open: true });
            for frame in 0..=k {
                assert_eq!(actions[1 + frame], Action::Show { frame: frame % n });
            }
            for later in &actions[k + 3..] {
                assert_eq!(*later, Action::Nothing);
            }
            assert!(p.is_finished());
        }
    }
}

#[test]
fn interrupt_ends_a_run_in_every_phase() {
    let mut idle = Player::new(false);
    assert_eq!(idle.step(Event::Interrupt), Action::Finish { code: 0, canvas_open: false });
    assert_eq!(idle.step(Event::Start), Action::Nothing);

    let mut decoding = Player::new(false);
    decoding.step(Event::Start);
    assert_eq!(decoding.step(Event::Interrupt), Action::Finish { code: 0, canvas_open: false });

    let mut showing = Player::new(true);
    play(&mut showing, &[Event::Start, Event::Decoded { frames: 2 }]);
    assert_eq!(showing.step(Event::Interrupt), Action::Finish { code: 0, canvas_open: true });
    assert_eq!(decoding.step(Event::Decoded { frames: 2 }), Action::Nothing);

    let mut finished = Player::new(false);
    play(&mut finished, &[Event::Start, Event::Decoded { frames: 1 }, Event::FrameShown]);
    assert_eq!(finished.step(Event::Interrupt), Action::Nothing);
}

#[test]
fn events_that_do_not_belong_are_passed_over() {
    let mut p = Player::new(false);
    assert_eq!(p.step(Event::FrameShown), Action::Nothing);
    assert_eq!(p.step(Event::Decoded { frames: 3 }), Action::Nothing);
    assert_eq!(p.step(Event::DecodeFailed), Action::Nothing);
    assert_eq!(p, Player::new(false));
    assert_eq!(p.step(Event::Start), Action::Decode);
    assert_eq!(p.step(Event::Start), Action::Nothing);
    assert_eq!(p.step(Event::FrameShown), Action::Nothing);
    assert_eq!(p.phase, Phase::Decoding);
    assert_eq!(p.step(Event::Decoded { frames: 2 }), Action::Show { frame: 0 });
    assert_eq!(p.step(Event::Decoded { frames: 9 }), Action::Nothing);
    assert_eq!(p.step(Event::DecodeFailed), Action::Nothing);
    assert_eq!(p.step(Event::Start), Action::Nothing);
    assert_eq!(p, Player { phase: Phase::Showing { frame: 0 }, frames: 2, looping: false });
}

#[test]
fn the_last_possible_frame_does_not_overflow() {
    let mut p = Player { phase: Phase::Showing { frame: usize::MAX }, frames: usize::MAX, looping: true };
    assert_eq!(p.step(Event::FrameShown), Action::Show { frame: 0 });
    let mut q = Player { phase: Phase::Showing { frame: usize::MAX - 1 }, frames: usize::MAX, looping: false };
    assert_eq!(q.step(Event::FrameShown), Action::Finish { code: 0, canvas_open: true });
}

#[test]
fn pause_is_the_numerator_of_the_delay() {
    assert_eq!(pause_millis(100, 1), 100);
    assert_eq!(pause_millis(0, 1), 0);
    assert_eq!(pause_millis(1000, 30), 1000);
    assert_eq!(pause_millis(7, 0), 7);
    assert_eq!(pause_millis(u32::MAX, 1), 4294967295);
}

#[test]
fn a_frame_that_cannot_be_drawn_ends_the_run_with_code_1() {
    for looping in [false, true] {
        let mut p = Player::new(looping);
        let actions = play(
            &mut p,
            &[
                Event::Start,
                Event::Decoded { frames: 3 },
                Event::FrameShown,
                Event::DrawFailed,
                Event::FrameShown,
                Event::Interrupt,
            ],
        );
        assert_eq!(
            actions,
            vec![
                Action::Decode,
                Action::Show { frame: 0 },
                Action::Show { frame: 1 },
                Action::Finish { code: 1, canvas_open: true },
                Action::Nothing,
                Action::Nothing,
            ]
        );
    }
    let mut idle = Player::new(false);
    assert_eq!(idle.step(Event::DrawFailed), Action::Nothing);
    assert_eq!(idle.step(Event::Start), Action::Decode);
    assert_eq!(idle.step(Event::DrawFailed), Action::Nothing);
    assert_eq!(idle.phase, Phase::Decoding);
}

#[test]
fn bytes_that_are_no_image_end_the_run_with_code_1_before_anything_is_drawn() {
    let empty: &[u8] = b"";
    let text: &[u8] = b"gif_loop=true\n";
    let cut_short: &[u8] = b"GIF89a";
    for bytes in [empty, text, cut_short] {
        let decoded = image::load_from_memory(bytes);
        assert!(decoded.is_err());
        let mut p = Player::new(false);
        assert_eq!(p.step(Event::Start), Action::Decode);
        let event = match decoded {
            Ok(_) => Event::Decoded { frames: 1 },
            Err(_) => Event::DecodeFailed,
        };
        assert_eq!(p.step(event), Action::Finish { code: 1, canvas_open: false });
        assert_eq!(ending(false), vec![]);
        assert_eq!(p.step(Event::FrameShown), Action::Nothing);
        assert!(p.is_finished());
    }
}

#[test]
fn the_canvas_is_cleaned_up_only_where_it_was_opened() {
    assert_eq!(ending(true), vec![CanvasOp::Deinit, CanvasOp::ResetColor]);
    assert_eq!(ending(false), vec![]);
    // every ending of a run, with whether the file had been decoded by then
    let endings: [(&[Event], bool); 6] = [
        (&[Event::Interrupt], false),
        (&[Event::Start, Event::Interrupt], false),
        (&[Event::Start, Event::DecodeFailed], false),
        (&[Event::Start, Event::Decoded { frames: 0 }], true),
        (&[Event::Start, Event::Decoded { frames: 1 }, Event::FrameShown], true),
        (&[Event::Start, Event::Decoded { frames: 1 }, Event::DrawFailed], true),
    ];
    for (events, opened) in endings {
        let mut p = Player::new(false);
        let actions = play(&mut p, events);
        match actions.last() {
            Some(Action::Finish { canvas_open, .. }) => assert_eq!(*canvas_open, opened),
            other => panic!("no ending: {:?}", other),
        }
    }
}
