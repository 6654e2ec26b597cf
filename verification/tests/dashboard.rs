use eventline::batch::{EventMap, Events};
use eventline::event::{Event, TextEvent};
use eventline::line::EventLine;
use eventline::order::{ASC, DESC};
use eventline::ui::{process_keypress, validate_terminal_size, KeyInput};

fn text_event(pres: &str, time_millis: i64, id: &str) -> TextEvent {
    TextEvent::new(pres.to_string(), time_millis, id.to_string())
}

fn batch(entries: &[(&str, &str, i64)], counter: i32, last_update: &str) -> Events<TextEvent> {
    let mut map: EventMap<TextEvent> = EventMap::new();
    for (key, pres, time) in entries {
        map.insert(key.to_string(), text_event(pres, *time, key));
    }
    Events { global_counter: counter, last_update: last_update.to_string(), events_map: map }
}

#[test]
fn key_order_scenario() {
    let b = batch(&[("a", "presentation(a)", 100), ("b", "presentation(b)", 50)], 2, "b");
    let (list, idx) = EventLine::<TextEvent>::sort_map_by_key(&b, "b".to_string());
    assert_eq!(list, vec!["presentation(a)".to_string(), "presentation(b)".to_string()]);
    assert_eq!(idx, 1);
}

#[test]
fn time_order_scenario() {
    let b = batch(&[("a", "presentation(a)", 100), ("b", "presentation(b)", 50)], 2, "b");
    let (list, idx) = EventLine::<TextEvent>::sort_map_by_time(&b, ASC, "b".to_string());
    assert_eq!(list, vec!["presentation(b)".to_string(), "presentation(a)".to_string()]);
    assert_eq!(idx, 0);
}

#[test]
fn key_order_unsorted_input() {
    let b = batch(&[("beta", "B", 1), ("alpha", "A", 2), ("gamma", "C", 3)], 3, "gamma");
    let (list, idx) = EventLine::<TextEvent>::sort_map_by_key(&b, "gamma".to_string());
    assert_eq!(list, vec!["A".to_string(), "B".to_string(), "C".to_string()]);
    assert_eq!(idx, 2);
}

#[test]
fn key_order_empty_batch() {
    let b = batch(&[], 0, "missing");
    let (list, idx) = EventLine::<TextEvent>::sort_map_by_key(&b, "missing".to_string());
    assert!(list.is_empty());
    assert_eq!(idx, 0);
}

#[test]
fn key_order_no_match_falls_back_to_zero() {
    let b = batch(&[("x", "X", 1), ("y", "Y", 2)], 2, "zz");
    let (list, idx) = EventLine::<TextEvent>::sort_map_by_key(&b, "zz".to_string());
    assert_eq!(list, vec!["X".to_string(), "Y".to_string()]);
    assert_eq!(idx, 0);
}

#[test]
fn keyed_insert_overwrites() {
    let mut map: EventMap<TextEvent> = EventMap::new();
    map.insert("k".to_string(), text_event("first", 1, "k"));
    map.insert("k".to_string(), text_event("second", 2, "k"));
    assert_eq!(map.len(), 1);
    let b = Events { global_counter: 2, last_update: "k".to_string(), events_map: map };
    let (list, idx) = EventLine::<TextEvent>::sort_map_by_key(&b, "k".to_string());
    assert_eq!(list, vec!["second".to_string()]);
    assert_eq!(idx, 0);
}

#[test]
fn time_order_ascending_strictly_increases() {
    let b = batch(&[("c", "C", 300), ("a", "A", 100), ("b", "B", 200)], 3, "a");
    let (list, idx) = EventLine::<TextEvent>::sort_map_by_time(&b, ASC, "a".to_string());
    assert_eq!(list, vec!["A".to_string(), "B".to_string(), "C".to_string()]);
    assert_eq!(idx, 0);
}

#[test]
fn time_order_descending() {
    let b = batch(&[("c", "C", 300), ("a", "A", 100), ("b", "B", 200)], 3, "b");
    let (list, idx) = EventLine::<TextEvent>::sort_map_by_time(&b, DESC, "b".to_string());
    assert_eq!(list, vec!["C".to_string(), "B".to_string(), "A".to_string()]);
    assert_eq!(idx, 1);
}

#[test]
fn time_order_duplicate_timestamps_stay_adjacent() {
    let b = batch(&[("a", "A", 100), ("b", "B", 50), ("c", "C", 100)], 3, "b");
    let (list, idx) = EventLine::<TextEvent>::sort_map_by_time(&b, ASC, "b".to_string());
    // The two 100ms events are adjacent; under the ascending `<` scan the
    // earlier-arrived one stays first.
    assert_eq!(list, vec!["B".to_string(), "A".to_string(), "C".to_string()]);
    assert_eq!(idx, 0);
}

#[test]
fn time_order_empty_batch() {
    let b = batch(&[], 0, "x");
    let (list, idx) = EventLine::<TextEvent>::sort_map_by_time(&b, ASC, "x".to_string());
    assert!(list.is_empty());
    assert_eq!(idx, 0);
}

#[test]
fn time_order_singleton_batch() {
    let b = batch(&[("only", "O", 7)], 1, "only");
    let (list, idx) = EventLine::<TextEvent>::sort_map_by_time(&b, ASC, "only".to_string());
    assert_eq!(list, vec!["O".to_string()]);
    assert_eq!(idx, 0);
    let (list2, idx2) = EventLine::<TextEvent>::sort_map_by_time(&b, DESC, "elsewhere".to_string());
    assert_eq!(list2, vec!["O".to_string()]);
    assert_eq!(idx2, 0);
}

#[test]
fn adoption_is_idempotent() {
    let b = batch(&[("b", "B", 2), ("a", "A", 1)], 2, "a");
    let copy = b.clone_events();
    let mut line: EventLine<TextEvent> = EventLine::new("t".to_string());
    line.adopt_batch(b);
    let first: Vec<String> = line.data_list().clone();
    line.adopt_batch(copy);
    let second: Vec<String> = line.data_list().clone();
    assert_eq!(first, second);
    assert_eq!(first, vec!["A".to_string(), "B".to_string()]);
}

#[test]
fn clone_events_preserves_observations() {
    let b = batch(&[("k1", "P1", 10), ("k2", "P2", 20)], 5, "k2");
    let c = b.clone_events();
    assert_eq!(c.global_counter, 5);
    assert_eq!(c.last_update, "k2".to_string());
    assert_eq!(c.events_map.len(), 2);
    let (list, idx) = EventLine::<TextEvent>::sort_map_by_key(&c, "k2".to_string());
    assert_eq!(list, vec!["P1".to_string(), "P2".to_string()]);
    assert_eq!(idx, 1);
}

#[test]
fn apply_style_keeps_map_order() {
    let b = batch(&[("z", "Z", 1), ("a", "A", 2)], 2, "a");
    let list = EventLine::<TextEvent>::apply_style(&b);
    assert_eq!(list, vec!["Z".to_string(), "A".to_string()]);
}

#[test]
fn channel_delivers_batches_in_fifo_order() {
    let mut line: EventLine<TextEvent> = EventLine::new("t".to_string());
    let tx = line.create_event_channel();
    let b1 = batch(&[("a", "A", 1)], 1, "a");
    let b2 = batch(&[("b", "B", 2)], 2, "b");
    tx.send(b1).unwrap();
    tx.send(b2).unwrap();
    line.poll_events();
    assert_eq!(line.global_counter(), 1);
    assert_eq!(line.last_update(), "a".to_string());
    line.poll_events();
    assert_eq!(line.global_counter(), 2);
    assert_eq!(line.last_update(), "b".to_string());
    // Nothing pending and producer still alive: state is unchanged.
    line.poll_events();
    assert_eq!(line.global_counter(), 2);
}

#[test]
fn closed_channel_is_idle_not_termination() {
    let mut line: EventLine<TextEvent> = EventLine::new("t".to_string());
    let tx = line.create_event_channel();
    drop(tx);
    line.poll_events();
    assert_eq!(line.global_counter(), 0);
    assert_eq!(line.events_map_size(), 0);
}

#[test]
fn quit_key_notifies_shutdown_exactly_once() {
    let (tx, mut rx) = tokio::sync::oneshot::channel::<bool>();
    let mut line: EventLine<TextEvent> = EventLine::new("t".to_string());
    line.with_shutdown(tx);
    let quit = line.tick(Some(KeyInput::Char('q')));
    assert!(quit);
    assert_eq!(rx.try_recv().unwrap(), true);
    // The sender was consumed: no second notification is possible.
    assert!(!line.notify_shutdown());
    let quit_again = line.tick(Some(KeyInput::Esc));
    assert!(quit_again);
    assert!(rx.try_recv().is_err());
}

#[test]
fn non_quit_keys_are_ignored() {
    assert!(process_keypress(Some(KeyInput::Char('q'))));
    assert!(process_keypress(Some(KeyInput::Esc)));
    assert!(!process_keypress(Some(KeyInput::Char('x'))));
    assert!(!process_keypress(Some(KeyInput::Other)));
    assert!(!process_keypress(None));
}

#[test]
fn tick_without_quit_adopts_pending_batch() {
    let mut line: EventLine<TextEvent> = EventLine::new("t".to_string());
    let tx = line.create_event_channel();
    tx.send(batch(&[("a", "A", 1)], 1, "a")).unwrap();
    let quit = line.tick(Some(KeyInput::Char('x')));
    assert!(!quit);
    assert_eq!(line.data_list().clone(), vec!["A".to_string()]);
}

#[test]
fn accessors_default_before_any_batch() {
    let line: EventLine<TextEvent> = EventLine::new("my title".to_string());
    assert_eq!(line.title(), "my title");
    assert_eq!(line.global_counter(), 0);
    assert_eq!(line.last_update(), String::new());
    assert_eq!(line.events_map_size(), 0);
    assert!(line.data_list().is_empty());
}

#[test]
fn terminal_size_validation() {
    assert_eq!(validate_terminal_size(80, 15), Ok((80, 15)));
    assert_eq!(validate_terminal_size(120, 40), Ok((120, 40)));
    assert_eq!(validate_terminal_size(79, 15), Err("terminal too small".to_string()));
    assert_eq!(validate_terminal_size(80, 14), Err("terminal too small".to_string()));
}

#[test]
fn events_map_size_reflects_adopted_batch() {
    let mut line: EventLine<TextEvent> = EventLine::new("t".to_string());
    line.adopt_batch(batch(&[("a", "A", 1), ("b", "B", 2)], 2, "b"));
    assert_eq!(line.events_map_size(), 2);
    assert_eq!(line.global_counter(), 2);
    assert_eq!(line.last_update(), "b".to_string());
}

#[test]
fn event_capability_observations() {
    let e = text_event("hello", 42, "id-1");
    assert_eq!(e.get_event_presentation(), "hello".to_string());
    assert_eq!(e.get_event_time(), 42);
    assert_eq!(e.get_event_id(), "id-1".to_string());
    let c = e.clone_dyn();
    assert_eq!(c.get_event_presentation(), "hello".to_string());
    assert_eq!(c.get_event_time(), 42);
    assert_eq!(c.get_event_id(), "id-1".to_string());
}
