use graphed::bars::{
    element_count_for_width, element_number_to_pixel_x, Bar, BarState, ELEMENT_WIDTH, MAX_BARS,
};
use graphed::config::{CENTER_X, CENTER_Y, WINDOW_HEIGHT, WINDOW_WIDTH};
use graphed::coordinate::PixelCoordinate2D;
use graphed::dataset::Dataset;
use graphed::model::SortType;
use graphed::sort::SortingVisualization;

fn engine_on(sort_type: SortType, values: &[u32]) -> SortingVisualization {
    let dataset = Dataset::from_values(values.to_vec()).unwrap();
    SortingVisualization::with_dataset(sort_type, dataset).unwrap()
}

#[test]
fn window_of_seven_hundred_pixels_takes_thirty_seven_bars() {
    assert_eq!(WINDOW_WIDTH, 700);
    assert_eq!(element_count_for_width(WINDOW_WIDTH), 37);
}

#[test]
fn narrow_windows_take_few_bars_or_none() {
    assert_eq!(element_count_for_width(0), 0);
    assert_eq!(element_count_for_width(16), 0);
    assert_eq!(element_count_for_width(17), 0);
    assert_eq!(element_count_for_width(34), 0);
    assert_eq!(element_count_for_width(35), 1);
    assert_eq!(element_count_for_width(52), 1);
    assert_eq!(element_count_for_width(53), 2);
    assert_eq!(element_count_for_width(u32::MAX), 238609293);
}

#[test]
fn bars_stand_eighteen_pixels_apart() {
    assert_eq!(element_number_to_pixel_x(0), 10);
    assert_eq!(element_number_to_pixel_x(1), 28);
    assert_eq!(element_number_to_pixel_x(2), 46);
    assert_eq!(element_number_to_pixel_x(36), 658);
    assert_eq!(element_number_to_pixel_x((MAX_BARS - 1) as u32), 2147483638);
}

#[test]
fn bars_of_a_run_in_progress() {
    let mut engine = engine_on(SortType::Insertion, &[300, 100, 200, 50]);
    assert_eq!(engine.step(), Ok(()));
    assert_eq!(engine.step(), Ok(()));
    let m = engine.snapshot();
    assert_eq!(m.index, 2);
    let bars = m.bars();
    assert_eq!(
        bars,
        vec![
            Bar {
                position: PixelCoordinate2D::new(10, 590),
                width: 15,
                height: 100,
                state: BarState::Idle,
            },
            Bar {
                position: PixelCoordinate2D::new(28, 390),
                width: 15,
                height: 300,
                state: BarState::Idle,
            },
            Bar {
                position: PixelCoordinate2D::new(46, 490),
                width: 15,
                height: 200,
                state: BarState::Cursor,
            },
            Bar {
                position: PixelCoordinate2D::new(64, 640),
                width: 15,
                height: 50,
                state: BarState::Idle,
            },
        ]
    );
    assert_eq!(ELEMENT_WIDTH, 15);
    assert_eq!(WINDOW_HEIGHT, 700);
}

#[test]
fn active_bars_outrank_the_cursor() {
    let mut engine = engine_on(SortType::Insertion, &[300, 100, 200]);
    assert_eq!(engine.step(), Ok(()));
    let m = engine.snapshot();
    assert_eq!(m.active_elements, vec![0, 1]);
    assert_eq!(m.index, 1);
    assert_eq!(m.bar_state_at(0), BarState::Active);
    assert_eq!(m.bar_state_at(1), BarState::Active);
    assert_eq!(m.bar_state_at(2), BarState::Idle);
    assert!(m.is_active(0));
    assert!(m.is_active(1));
    assert!(!m.is_active(2));
}

#[test]
fn the_cursor_shows_only_under_insertion_sort() {
    let mut engine = engine_on(SortType::Shell, &[5, 1, 4, 2, 3]);
    assert_eq!(engine.step(), Ok(()));
    assert_eq!(engine.step(), Ok(()));
    let m = engine.snapshot();
    assert_eq!(m.index, 1);
    assert!(m.active_elements.is_empty());
    assert_eq!(m.bar_state_at(1), BarState::Idle);
}

#[test]
fn the_cursor_never_shows_at_position_zero() {
    let engine = engine_on(SortType::Insertion, &[5, 1, 4]);
    let m = engine.snapshot();
    assert_eq!(m.index, 0);
    assert_eq!(m.bar_state_at(0), BarState::Idle);
}

#[test]
fn a_completed_run_colours_every_bar_alike() {
    let mut engine = engine_on(SortType::Insertion, &[3, 1, 2]);
    while !engine.is_sorted() {
        assert_eq!(engine.step(), Ok(()));
    }
    let m = engine.snapshot();
    assert!(m.bars().iter().all(|bar| bar.state == BarState::Correct));
    assert_eq!(m.verdict(), Some("Sorted!"));

    let mut engine = engine_on(SortType::Shell, &[7, 6, 5, 4, 3, 2, 1, 0]);
    while !engine.is_sorted() {
        assert_eq!(engine.step(), Ok(()));
    }
    let m = engine.snapshot();
    assert!(!m.correct);
    assert!(m.bars().iter().all(|bar| bar.state == BarState::Incorrect));
    assert_eq!(m.verdict(), Some("Not Sorted :("));
}

#[test]
fn a_run_in_progress_has_no_verdict() {
    let engine = engine_on(SortType::Insertion, &[3, 1, 2]);
    assert_eq!(engine.snapshot().verdict(), None);
}

#[test]
fn the_tallest_value_still_stands_inside_the_window() {
    let engine = engine_on(SortType::Insertion, &[511, 0]);
    let bars = engine.snapshot().bars();
    assert_eq!(bars[0].position, PixelCoordinate2D::new(10, 179));
    assert_eq!(bars[0].height, 511);
    assert_eq!(bars[1].position, PixelCoordinate2D::new(28, 690));
    assert_eq!(bars[1].height, 0);
}

#[test]
fn algorithms_have_names() {
    assert_eq!(SortType::Insertion.name(), "Insertion");
    assert_eq!(SortType::Shell.name(), "Shell");
    assert_eq!(SortType::Merge.name(), "Merge");
    assert_eq!(SortType::Quick.name(), "Quick");
}

#[test]
fn pixel_coordinates_are_made_from_numbers_and_pairs() {
    let p = PixelCoordinate2D::new(3, -4);
    assert_eq!((p.x, p.y), (3, -4));
    let q = PixelCoordinate2D::new_tuple((-7, 9));
    assert_eq!((q.x, q.y), (-7, 9));
    assert_eq!(PixelCoordinate2D::new_tuple((3, -4)), p);
    assert_ne!(p, q);
}

#[test]
fn origin_and_center_of_the_window() {
    assert_eq!(PixelCoordinate2D::origin(), PixelCoordinate2D::new(0, 0));
    assert_eq!(PixelCoordinate2D::center(), PixelCoordinate2D::new(350, 350));
    assert_eq!((CENTER_X, CENTER_Y), (350, 350));
}

#[test]
fn a_snapshot_that_was_tampered_with_is_not_laid_out() {
    let engine = engine_on(SortType::Insertion, &[300, 100, 200]);
    let sound = engine.snapshot();
    assert_eq!(sound.try_bars(), Some(sound.bars()));
    let mut high = engine.snapshot();
    high.elements[1] = (1, 512);
    assert_eq!(high.try_bars(), None);
    let mut misplaced = engine.snapshot();
    misplaced.elements[1] = (2, 100);
    assert_eq!(misplaced.try_bars(), None);
    let mut still_sound = engine.snapshot();
    still_sound.elements[1] = (1, 511);
    still_sound.active_elements = vec![7];
    assert_eq!(still_sound.try_bars().map(|bars| bars[1].position), Some(PixelCoordinate2D::new(28, 179)));
}
