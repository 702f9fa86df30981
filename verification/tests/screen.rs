use arto::screen::{checked_flip_y, find_display_index, flip_y, primary_display_index, Display};

#[test]
fn test_primary_display_index() {
    let displays = [
        Display {
            x: 0,
            y: 0,
            width: 100,
            height: 100,
            is_primary: false,
        },
        Display {
            x: 100,
            y: 0,
            width: 100,
            height: 100,
            is_primary: true,
        },
    ];
    assert_eq!(primary_display_index(&displays), Some(1));

    let displays = [Display {
        x: 0,
        y: 0,
        width: 100,
        height: 100,
        is_primary: false,
    }];
    assert_eq!(primary_display_index(&displays), Some(0));
    assert_eq!(primary_display_index(&[]), None);
}

#[test]
fn test_find_display_index() {
    let displays = [
        Display {
            x: 0,
            y: 0,
            width: 100,
            height: 100,
            is_primary: true,
        },
        Display {
            x: 100,
            y: 0,
            width: 100,
            height: 100,
            is_primary: false,
        },
    ];
    assert_eq!(find_display_index(10, 10, &displays), Some(0));
    assert_eq!(find_display_index(150, 50, &displays), Some(1));
    assert_eq!(find_display_index(250, 50, &displays), None);
}

#[test]
fn test_flip_y() {
    let display = Display {
        x: 0,
        y: 10,
        width: 100,
        height: 120,
        is_primary: true,
    };
    assert_eq!(flip_y(15, &display), 115);
}

#[test]
fn display_edges_are_half_open() {
    let displays = [Display {
        x: -50,
        y: 20,
        width: 100,
        height: 30,
        is_primary: true,
    }];
    assert_eq!(find_display_index(-50, 20, &displays), Some(0));
    assert_eq!(find_display_index(49, 49, &displays), Some(0));
    assert_eq!(find_display_index(50, 20, &displays), None);
    assert_eq!(find_display_index(-50, 50, &displays), None);
    assert_eq!(find_display_index(-51, 20, &displays), None);
    assert_eq!(find_display_index(0, 19, &displays), None);
}

#[test]
fn first_of_overlapping_displays_wins() {
    let displays = [
        Display { x: 0, y: 0, width: 10, height: 10, is_primary: false },
        Display { x: 0, y: 0, width: 100, height: 100, is_primary: false },
        Display { x: 5, y: 5, width: 100, height: 100, is_primary: true },
    ];
    assert_eq!(find_display_index(5, 5, &displays), Some(0));
    assert_eq!(find_display_index(50, 50, &displays), Some(1));
    assert_eq!(find_display_index(104, 104, &displays), Some(2));
    assert_eq!(primary_display_index(&displays), Some(2));
}

#[test]
fn huge_display_does_not_overflow() {
    let displays = [Display {
        x: i32::MAX - 1,
        y: i32::MAX - 1,
        width: u32::MAX,
        height: u32::MAX,
        is_primary: false,
    }];
    assert_eq!(find_display_index(i32::MAX, i32::MAX, &displays), Some(0));
    assert_eq!(find_display_index(i32::MAX - 2, i32::MAX, &displays), None);
}

#[test]
fn first_primary_of_several_wins() {
    let displays = [
        Display { x: 0, y: 0, width: 1, height: 1, is_primary: false },
        Display { x: 0, y: 0, width: 1, height: 1, is_primary: true },
        Display { x: 0, y: 0, width: 1, height: 1, is_primary: true },
    ];
    assert_eq!(primary_display_index(&displays), Some(1));
}

#[test]
fn checked_flip_y_refuses_what_does_not_fit() {
    let display = Display { x: 0, y: 10, width: 100, height: 120, is_primary: true };
    assert_eq!(checked_flip_y(15, &display), Some(115));
    assert_eq!(checked_flip_y(i32::MIN, &display), None);
    let tall = Display { x: 0, y: i32::MAX, width: 1, height: u32::MAX, is_primary: true };
    assert_eq!(checked_flip_y(0, &tall), None);
    assert_eq!(checked_flip_y(i32::MAX, &tall), None);
}

#[test]
fn flip_y_twice_gives_the_coordinate_back() {
    let display = Display { x: 0, y: -40, width: 100, height: 900, is_primary: true };
    let once = flip_y(123, &display);
    assert_eq!(once, 737);
    assert_eq!(flip_y(once, &display), 123);
}
