use game_server::observer::{ComponentChangeObserver, ComponentEvent};

#[test]
fn new_observer_marks_nothing() {
    let o = ComponentChangeObserver::new();
    for id in [0u32, 1, 63, 64, 4_095, 1_000_000] {
        assert!(!o.is_dirty(id));
    }
}

#[test]
fn inserted_and_modified_components_are_marked() {
    let mut o = ComponentChangeObserver::new();
    let events = vec![
        ComponentEvent::Inserted(3),
        ComponentEvent::Modified(70),
        ComponentEvent::Removed(5),
        ComponentEvent::Modified(3),
        ComponentEvent::Inserted(5_000),
    ];
    assert!(ComponentChangeObserver::has_room_for(&events));
    o.run(&events);
    for id in [3u32, 70, 5_000] {
        assert!(o.is_dirty(id));
        assert!(o.dirty.contains(id));
    }
    for id in [0u32, 4, 5, 69, 71, 4_999, 5_001] {
        assert!(!o.is_dirty(id));
    }
}

#[test]
fn each_run_starts_from_nothing() {
    let mut o = ComponentChangeObserver::new();
    o.run(&vec![ComponentEvent::Inserted(1), ComponentEvent::Inserted(2)]);
    assert!(o.is_dirty(1));
    assert!(o.is_dirty(2));
    o.run(&vec![ComponentEvent::Modified(2), ComponentEvent::Removed(1)]);
    assert!(!o.is_dirty(1));
    assert!(o.is_dirty(2));
    o.run(&vec![]);
    assert!(!o.is_dirty(2));
}

#[test]
fn ids_past_the_limit_have_no_room() {
    let limit: u32 = if usize::BITS == 64 { 1 << 24 } else { 1 << 20 };
    assert!(ComponentChangeObserver::has_room_for(&vec![]));
    assert!(ComponentChangeObserver::has_room_for(&vec![ComponentEvent::Inserted(limit - 1)]));
    assert!(!ComponentChangeObserver::has_room_for(&vec![ComponentEvent::Inserted(limit)]));
    assert!(!ComponentChangeObserver::has_room_for(&vec![
        ComponentEvent::Inserted(1),
        ComponentEvent::Modified(u32::MAX),
    ]));
    assert!(ComponentChangeObserver::has_room_for(&vec![ComponentEvent::Removed(u32::MAX)]));
    let mut o = ComponentChangeObserver::new();
    o.run(&vec![ComponentEvent::Inserted(limit - 1)]);
    assert!(o.is_dirty(limit - 1));
    assert!(!o.is_dirty(limit - 2));
}
