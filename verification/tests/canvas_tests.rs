use daygrid::canvas::{Canvas, LayoutError};
use daygrid::time_of_day::{StepType, TimeOfDay};

fn day(width: u16) -> Canvas {
    Canvas::new(TimeOfDay::new(0, 0), TimeOfDay::new(23, 59), (width, 24), (0, 0)).unwrap()
}

#[test]
fn canvas_needs_a_window_that_ends_after_it_starts() {
    let same = Canvas::new(TimeOfDay::new(8, 0), TimeOfDay::new(8, 0), (80, 24), (0, 0));
    assert_eq!(same.err(), Some(LayoutError::InvalidWindow));
    let reversed = Canvas::new(TimeOfDay::new(9, 0), TimeOfDay::new(8, 0), (80, 24), (0, 0));
    assert_eq!(reversed.err(), Some(LayoutError::InvalidWindow));
    let both = Canvas::new(TimeOfDay::new(9, 0), TimeOfDay::new(8, 0), (0, 24), (0, 0));
    assert_eq!(both.err(), Some(LayoutError::InvalidWindow));
}

#[test]
fn canvas_needs_a_column() {
    let canvas = Canvas::new(TimeOfDay::new(8, 0), TimeOfDay::new(9, 0), (0, 24), (0, 0));
    assert_eq!(canvas.err(), Some(LayoutError::ZeroWidth));
}

#[test]
fn canvas_takes_any_origin() {
    let canvas =
        Canvas::new(TimeOfDay::new(8, 0), TimeOfDay::new(9, 0), (1, 0), (65535, 65535));
    assert!(canvas.is_ok());
}

#[test]
fn total_minutes_is_the_length_of_the_window() {
    assert_eq!(day(80).total_minutes(), 1439);
    let hour =
        Canvas::new(TimeOfDay::new(8, 30), TimeOfDay::new(9, 30), (80, 24), (0, 0)).unwrap();
    assert_eq!(hour.total_minutes(), 60);
}

#[test]
fn columns_divide_by_the_minutes_per_column_rounded_up() {
    let canvas = day(80);
    assert_eq!(canvas.get_x_position_by_tod(&TimeOfDay::new(0, 0)), Ok(0));
    assert_eq!(canvas.get_x_position_by_tod(&TimeOfDay::new(0, 17)), Ok(0));
    assert_eq!(canvas.get_x_position_by_tod(&TimeOfDay::new(0, 18)), Ok(1));
    assert_eq!(canvas.get_x_position_by_tod(&TimeOfDay::new(13, 0)), Ok(43));
    assert_eq!(canvas.get_x_position_by_tod(&TimeOfDay::new(14, 0)), Ok(46));
    assert_eq!(canvas.get_x_position_by_tod(&TimeOfDay::new(15, 0)), Ok(50));
    assert_eq!(canvas.get_x_position_by_tod(&TimeOfDay::new(23, 59)), Ok(79));
}

#[test]
fn columns_of_a_window_that_divides_evenly() {
    let canvas =
        Canvas::new(TimeOfDay::new(8, 0), TimeOfDay::new(10, 0), (12, 24), (0, 0)).unwrap();
    assert_eq!(canvas.get_x_position_by_tod(&TimeOfDay::new(8, 0)), Ok(0));
    assert_eq!(canvas.get_x_position_by_tod(&TimeOfDay::new(8, 9)), Ok(0));
    assert_eq!(canvas.get_x_position_by_tod(&TimeOfDay::new(8, 10)), Ok(1));
    assert_eq!(canvas.get_x_position_by_tod(&TimeOfDay::new(9, 15)), Ok(7));
    assert_eq!(canvas.get_x_position_by_tod(&TimeOfDay::new(10, 0)), Ok(12));
}

#[test]
fn columns_of_a_grid_wider_than_the_window_is_long() {
    let canvas =
        Canvas::new(TimeOfDay::new(8, 0), TimeOfDay::new(8, 10), (500, 24), (0, 0)).unwrap();
    assert_eq!(canvas.get_x_position_by_tod(&TimeOfDay::new(8, 0)), Ok(0));
    assert_eq!(canvas.get_x_position_by_tod(&TimeOfDay::new(8, 3)), Ok(3));
    assert_eq!(canvas.get_x_position_by_tod(&TimeOfDay::new(8, 10)), Ok(10));
}

#[test]
fn columns_of_the_widest_window_and_grid() {
    let canvas = Canvas::new(
        TimeOfDay::from_minutes(0),
        TimeOfDay::from_minutes(65535),
        (65535, 1),
        (0, 0),
    )
    .unwrap();
    assert_eq!(canvas.get_x_position_by_tod(&TimeOfDay::from_minutes(65535)), Ok(65535));
    let narrow = Canvas::new(
        TimeOfDay::from_minutes(0),
        TimeOfDay::from_minutes(65535),
        (1, 1),
        (0, 0),
    )
    .unwrap();
    assert_eq!(narrow.get_x_position_by_tod(&TimeOfDay::from_minutes(65534)), Ok(0));
    assert_eq!(narrow.get_x_position_by_tod(&TimeOfDay::from_minutes(65535)), Ok(1));
    let two = Canvas::new(
        TimeOfDay::from_minutes(0),
        TimeOfDay::from_minutes(65535),
        (2, 1),
        (0, 0),
    )
    .unwrap();
    assert_eq!(two.get_x_position_by_tod(&TimeOfDay::from_minutes(32767)), Ok(0));
    assert_eq!(two.get_x_position_by_tod(&TimeOfDay::from_minutes(32768)), Ok(1));
    assert_eq!(two.get_x_position_by_tod(&TimeOfDay::from_minutes(65535)), Ok(1));
}

#[test]
fn columns_never_step_back_as_time_goes_on() {
    for width in [1u16, 7, 80, 200, 1439, 2000] {
        let canvas = day(width);
        let mut previous: u16 = 0;
        for minute in 0u16..=1439 {
            let x = canvas.get_x_position_by_tod(&TimeOfDay::from_minutes(minute)).unwrap();
            assert!(previous <= x);
            assert!(x <= width);
            previous = x;
        }
    }
}

#[test]
fn a_time_outside_the_window_has_no_column() {
    let canvas =
        Canvas::new(TimeOfDay::new(8, 0), TimeOfDay::new(10, 0), (12, 24), (0, 0)).unwrap();
    assert_eq!(
        canvas.get_x_position_by_tod(&TimeOfDay::new(7, 59)),
        Err(LayoutError::OutOfWindow)
    );
    assert_eq!(
        canvas.get_x_position_by_tod(&TimeOfDay::new(10, 1)),
        Err(LayoutError::OutOfWindow)
    );
}

#[test]
fn ticks_take_the_first_distance_that_leaves_room() {
    assert_eq!(day(600).get_step_type(), StepType::Minute(15));
    assert_eq!(day(576).get_step_type(), StepType::Minute(15));
    assert_eq!(day(575).get_step_type(), StepType::Minute(30));
    assert_eq!(day(288).get_step_type(), StepType::Minute(30));
    assert_eq!(day(287).get_step_type(), StepType::Hour(1));
    assert_eq!(day(144).get_step_type(), StepType::Hour(1));
    assert_eq!(day(143).get_step_type(), StepType::Hour(2));
    assert_eq!(day(80).get_step_type(), StepType::Hour(2));
    assert_eq!(day(72).get_step_type(), StepType::Hour(2));
    assert_eq!(day(71).get_step_type(), StepType::Hour(3));
}

#[test]
fn ticks_are_counted_with_the_one_at_the_start() {
    // 90 minutes in quarters of an hour are six steps but seven ticks, one
    // more than a sixth of 36 columns; in half hours they are four ticks.
    let canvas =
        Canvas::new(TimeOfDay::new(8, 0), TimeOfDay::new(9, 30), (36, 24), (0, 0)).unwrap();
    assert_eq!(canvas.get_step_type(), StepType::Minute(30));
    let wider =
        Canvas::new(TimeOfDay::new(8, 0), TimeOfDay::new(9, 30), (42, 24), (0, 0)).unwrap();
    assert_eq!(wider.get_step_type(), StepType::Minute(15));
}

#[test]
fn ticks_fall_back_to_three_hours_where_nothing_fits() {
    assert_eq!(day(53).get_step_type(), StepType::Hour(3));
    assert_eq!(day(41).get_step_type(), StepType::Hour(3));
    assert_eq!(day(6).get_step_type(), StepType::Hour(3));
    assert_eq!(day(1).get_step_type(), StepType::Hour(3));
}

#[test]
fn ticks_of_a_short_window_are_a_quarter_of_an_hour_apart() {
    let canvas =
        Canvas::new(TimeOfDay::new(8, 0), TimeOfDay::new(8, 14), (6, 24), (0, 0)).unwrap();
    assert_eq!(canvas.get_step_type(), StepType::Minute(15));
    let narrow =
        Canvas::new(TimeOfDay::new(8, 0), TimeOfDay::new(8, 14), (5, 24), (0, 0)).unwrap();
    assert_eq!(narrow.get_step_type(), StepType::Hour(3));
}

#[test]
fn ticks_depend_on_width_and_length_of_the_window_alone() {
    let morning =
        Canvas::new(TimeOfDay::new(6, 0), TimeOfDay::new(12, 0), (40, 10), (0, 0)).unwrap();
    let evening =
        Canvas::new(TimeOfDay::new(17, 30), TimeOfDay::new(23, 30), (40, 50), (7, 9)).unwrap();
    assert_eq!(morning.get_step_type(), evening.get_step_type());
    assert_eq!(morning.get_step_type(), StepType::Hour(2));
    assert_eq!(morning.get_step_type(), morning.get_step_type());
}

#[test]
fn create_block_places_an_event_on_the_grid() {
    let canvas = day(80);
    let block = canvas
        .create_block(
            TimeOfDay::new(13, 0),
            TimeOfDay::new(15, 0),
            "Lunch".to_string(),
            "Lunch at the café".to_string(),
        )
        .unwrap();
    assert_eq!(block.start, TimeOfDay::new(13, 0));
    assert_eq!(block.end, TimeOfDay::new(15, 0));
    assert_eq!(block.title, "Lunch");
    assert_eq!(block.description, "Lunch at the café");
    assert_eq!((block.x, block.y, block.width, block.height), (43, 0, 7, 2));
}

#[test]
fn create_block_may_give_a_block_without_width() {
    let canvas = day(80);
    let block = canvas
        .create_block(TimeOfDay::new(13, 0), TimeOfDay::new(13, 1), String::new(), String::new())
        .unwrap();
    assert_eq!((block.x, block.y, block.width, block.height), (43, 0, 0, 2));
}

#[test]
fn create_block_refuses_an_event_that_does_not_end_after_it_starts() {
    let canvas = day(80);
    let same = canvas.create_block(
        TimeOfDay::new(13, 0),
        TimeOfDay::new(13, 0),
        "a".to_string(),
        "b".to_string(),
    );
    assert_eq!(same.err(), Some(LayoutError::InvalidInterval));
    let reversed = canvas.create_block(
        TimeOfDay::new(15, 0),
        TimeOfDay::new(13, 0),
        "a".to_string(),
        "b".to_string(),
    );
    assert_eq!(reversed.err(), Some(LayoutError::InvalidInterval));
}

#[test]
fn create_block_refuses_an_event_outside_the_window() {
    let canvas =
        Canvas::new(TimeOfDay::new(8, 0), TimeOfDay::new(10, 0), (12, 24), (0, 0)).unwrap();
    let early = canvas.create_block(
        TimeOfDay::new(7, 0),
        TimeOfDay::new(9, 0),
        "a".to_string(),
        "b".to_string(),
    );
    assert_eq!(early.err(), Some(LayoutError::OutOfWindow));
    let late = canvas.create_block(
        TimeOfDay::new(9, 0),
        TimeOfDay::new(11, 0),
        "a".to_string(),
        "b".to_string(),
    );
    assert_eq!(late.err(), Some(LayoutError::OutOfWindow));
    let reversed_outside = canvas.create_block(
        TimeOfDay::new(12, 0),
        TimeOfDay::new(11, 0),
        "a".to_string(),
        "b".to_string(),
    );
    assert_eq!(reversed_outside.err(), Some(LayoutError::InvalidInterval));
}
