use todo_tui::widget_list::{UIEvent, WidgetList};

fn testing_widget(len: usize) -> WidgetList {
    let mut widget = WidgetList::new(4);
    widget.set_size(10);
    widget.len = len;
    widget
}

fn n_times(times: usize, func: fn(&mut WidgetList), s: &mut WidgetList) {
    for _ in 0..times {
        func(s)
    }
}

#[test]
fn movement_in_short_list() {
    let mut widget = testing_widget(5);

    assert_eq!(widget.index(), 0);
    assert_eq!(widget.act(), 0);
    assert_eq!(widget.first, 0);

    widget.down();
    assert_eq!(widget.index(), 1);
    assert_eq!(widget.act(), 1);
    assert_eq!(widget.first, 0);
}

#[test]
fn movement_basic() {
    let mut widget = testing_widget(50);

    // Starting position
    assert_eq!(widget.index(), 0);
    assert_eq!(widget.act(), 0);
    assert_eq!(widget.first, 0);

    // First down
    widget.down();
    assert_eq!(widget.index(), 1);
    assert_eq!(widget.act(), 1);
    assert_eq!(widget.first, 0);

    // Second down
    widget.down();
    assert_eq!(widget.index(), 2);
    assert_eq!(widget.act(), 2);
    assert_eq!(widget.first, 0);

    // First up
    widget.up();
    assert_eq!(widget.index(), 1);
    assert_eq!(widget.act(), 1);
    assert_eq!(widget.first, 0);

    // Third down
    widget.down();
    assert_eq!(widget.index(), 2);
    assert_eq!(widget.act(), 2);
    assert_eq!(widget.first, 0);
}

#[test]
fn movement_full_list() {
    let mut widget = testing_widget(50);

    // Before first full list move
    n_times(5, WidgetList::down, &mut widget);

    assert_eq!(widget.index(), 5);
    assert_eq!(widget.act(), 5);
    assert_eq!(widget.first, 0);

    // First full list move
    widget.down();

    assert_eq!(widget.index(), 6);
    assert_eq!(widget.act(), 5);
    assert_eq!(widget.first, 1);

    // Second full list move
    widget.down();

    assert_eq!(widget.index(), 7);
    assert_eq!(widget.act(), 5);
    assert_eq!(widget.first, 2);

    // Move to last item
    n_times(50, WidgetList::down, &mut widget);
    assert_eq!(widget.index(), 49);
    assert_eq!(widget.act(), 9);
    assert_eq!(widget.first, 40);

    // Move up
    widget.up();
    assert_eq!(widget.index(), 48);
    assert_eq!(widget.act(), 8);
    assert_eq!(widget.first, 40);

    // Before first full list move up
    n_times(4, WidgetList::up, &mut widget);
    assert_eq!(widget.index(), 44);
    assert_eq!(widget.act(), 4);
    assert_eq!(widget.first, 40);

    // First full list move up
    widget.up();
    assert_eq!(widget.index(), 43);
    assert_eq!(widget.act(), 4);
    assert_eq!(widget.first, 39);

    // Go to start of the list where full list stop moving
    n_times(39, WidgetList::up, &mut widget);
    assert_eq!(widget.index(), 4);
    assert_eq!(widget.act(), 4);
    assert_eq!(widget.first, 0);

    widget.up();
    assert_eq!(widget.index(), 3);
    assert_eq!(widget.act(), 3);
    assert_eq!(widget.first, 0);

    // Go to first index
    n_times(3, WidgetList::up, &mut widget);
    assert_eq!(widget.index(), 0);
    assert_eq!(widget.act(), 0);
    assert_eq!(widget.first, 0);
}

#[test]
fn move_task() {
    let mut widget = testing_widget(50);
    assert_eq!(widget.next(), Some((0, 1)));
    assert_eq!(widget.next(), Some((1, 2)));
    assert_eq!(widget.next(), Some((2, 3)));
    assert_eq!(widget.next(), Some((3, 4)));
    assert_eq!(widget.next(), Some((4, 5)));

    assert_eq!(widget.prev(), Some((5, 4)));
    assert_eq!(widget.prev(), Some((4, 3)));
    assert_eq!(widget.prev(), Some((3, 2)));
    assert_eq!(widget.prev(), Some((2, 1)));
    assert_eq!(widget.prev(), Some((1, 0)));

    widget.down();
    assert_eq!(widget.next(), Some((1, 2)));

    widget.up();
    assert_eq!(widget.next(), Some((1, 2)));

    widget.up();
    assert_eq!(widget.next(), Some((1, 2)));
}

#[test]
fn move_task_borders() {
    let mut widget = testing_widget(50);
    assert_eq!(widget.prev(), None);

    widget.down();
    assert_eq!(widget.prev(), Some((1, 0)));

    n_times(50, WidgetList::down, &mut widget);
    assert_eq!(widget.next(), None);

    widget.up();
    assert_eq!(widget.next(), Some((48, 49)));
}

#[test]
fn first_and_last_item() {
    // Long list
    let mut widget = testing_widget(50);
    widget.last();
    assert_eq!(widget.index(), 49);
    assert_eq!(widget.act(), 9);
    assert_eq!(widget.first, 40);

    widget.first();
    assert_eq!(widget.index(), 0);
    assert_eq!(widget.act(), 0);
    assert_eq!(widget.first, 0);

    // Short list
    let mut widget = testing_widget(5);
    widget.last();
    assert_eq!(widget.index(), 4);
    assert_eq!(widget.act(), 4);
    assert_eq!(widget.first, 0);

    widget.first();
    assert_eq!(widget.index(), 0);
    assert_eq!(widget.act(), 0);
    assert_eq!(widget.first, 0);
}

#[test]
fn range() {
    let widget = testing_widget(50);
    assert_eq!(widget.range(), (0, 10));
}

#[test]
fn handle_event() {
    let mut widget = testing_widget(50);
    assert!(widget.handle_event(UIEvent::ListDown));
    assert_eq!(widget.index(), 1);
    assert_eq!(widget.act(), 1);
    assert_eq!(widget.first, 0);

    assert!(widget.handle_event(UIEvent::ListUp));
    assert_eq!(widget.index(), 0);
    assert_eq!(widget.act(), 0);
    assert_eq!(widget.first, 0);

    assert!(widget.handle_event(UIEvent::ListLast));
    assert_eq!(widget.index(), 49);
    assert_eq!(widget.act(), 9);
    assert_eq!(widget.first, 40);

    assert!(widget.handle_event(UIEvent::ListFirst));
    assert_eq!(widget.index(), 0);
    assert_eq!(widget.act(), 0);
    assert_eq!(widget.first, 0);

    assert!(!widget.handle_event(UIEvent::Nothing));
}

// With a viewport of ten rows over fifty items and the default lookahead,
// five steps down keep the window still; the sixth starts scrolling with
// the cursor parked on the sixth row, until the window reaches the tail
// and the cursor walks to the true last row.
#[test]
fn soft_scroll_scenario() {
    let mut widget = testing_widget(50);

    n_times(5, WidgetList::down, &mut widget);
    assert_eq!(widget.index(), 5);
    assert_eq!(widget.first, 0);

    widget.down();
    assert_eq!(widget.index(), 6);
    assert_eq!(widget.first, 1);
    assert_eq!(widget.act(), 5);

    n_times(100, WidgetList::down, &mut widget);
    assert_eq!(widget.index(), 49);
    assert_eq!(widget.first, 40);
    assert_eq!(widget.act(), 9);
}

// Starting from the top, `k` steps down select absolute index `k`.
#[test]
fn down_reaches_each_index() {
    for k in 0..50 {
        let mut widget = testing_widget(50);
        n_times(k, WidgetList::down, &mut widget);
        assert_eq!(widget.index(), k);
    }
}

// `first()` and `last()` are idempotent.
#[test]
fn first_last_idempotent() {
    let mut widget = testing_widget(50);
    widget.last();
    let after_one = (widget.act(), widget.first);
    widget.last();
    assert_eq!((widget.act(), widget.first), after_one);

    widget.first();
    let after_first = (widget.act(), widget.first);
    widget.first();
    assert_eq!((widget.act(), widget.first), after_first);
}

// With an empty list the cursor stays parked on the first row.
#[test]
fn empty_list_is_inert() {
    let mut widget = testing_widget(0);
    widget.down();
    assert_eq!(widget.index(), 0);
    assert_eq!(widget.first, 0);
    widget.up();
    assert_eq!(widget.index(), 0);
    assert_eq!(widget.first, 0);
    assert_eq!(widget.next(), None);
    assert_eq!(widget.prev(), None);
}
