use ffp::events::{Event, EventHandleResult, KeyCode, KeyMods, Size};
use ffp::fileinfo::{diff_path, FilePath};
use ffp::filter::FileterResultEnum;
use ffp::finder::{Finder, FinderIn, FinderMove};

fn chars(s: &str) -> Vec<char> {
    s.chars().collect()
}

fn store(names: &[&str]) -> Vec<FilePath> {
    let root = chars("/");
    names.iter().map(|n| FilePath::new(chars(n), &root)).collect()
}

fn finder_with(names: &[&str]) -> Finder {
    let mut f = Finder::new();
    let (_, _) = f.handle_msg(FinderIn::ContentsExtend(store(names)));
    let n = names.len();
    f.update_filter(&Vec::new(), FileterResultEnum::All(n));
    f
}

#[test]
fn selection_stays_inside_bounds() {
    let mut f = finder_with(&["a.txt", "b.txt", "c.txt"]);
    assert_eq!(f.selection, 0);
    f.move_selection(FinderMove::Next);
    f.move_selection(FinderMove::Next);
    assert_eq!(f.selection, 2);
    f.move_selection(FinderMove::Next);
    assert_eq!(f.selection, 2);
    f.move_selection(FinderMove::Prev);
    assert_eq!(f.selection, 1);
    f.move_selection(FinderMove::Prev);
    f.move_selection(FinderMove::Prev);
    assert_eq!(f.selection, 0);
}

#[test]
fn empty_list_pins_selection_and_selects_nothing() {
    let mut f = Finder::new();
    f.update_filter(&Vec::new(), FileterResultEnum::Empty);
    f.move_selection(FinderMove::Next);
    assert_eq!(f.selection, 0);
    f.move_selection(FinderMove::Prev);
    assert_eq!(f.selection, 0);
    assert!(f.resolve_selected().is_none());
}

#[test]
fn selection_resolves_to_the_entry() {
    let mut f = finder_with(&["a.txt", "b.txt", "c.txt"]);
    f.move_selection(FinderMove::Next);
    let sel = f.resolve_selected().expect("an entry is selected");
    let path: String = sel.pathbuf.iter().collect();
    assert_eq!(path, "b.txt");
}

#[test]
fn new_filter_result_resets_selection_to_top() {
    let mut f = finder_with(&["a.txt", "b.txt", "c.txt"]);
    f.move_selection(FinderMove::Next);
    f.move_selection(FinderMove::Next);
    assert_eq!(f.selection, 2);
    f.update_filter(&Vec::new(), FileterResultEnum::Subset(vec![1]));
    assert_eq!(f.selection, 0);
    let sel = f.resolve_selected().expect("an entry is selected");
    let path: String = sel.pathbuf.iter().collect();
    assert_eq!(path, "b.txt");
}

#[test]
fn stale_filter_result_is_ignored() {
    let mut f = finder_with(&["a.txt", "b.txt", "c.txt"]);
    // the live query is empty; a result computed for "zz" must not land
    f.update_filter(&chars("zz"), FileterResultEnum::Empty);
    assert_eq!(f.filtered_len(), 3);
}

#[test]
fn viewport_keeps_selection_visible() {
    let mut f = finder_with(&["a", "b", "c", "d", "e", "f", "g", "h"]);
    for _ in 0..7 {
        f.move_selection(FinderMove::Next);
    }
    assert_eq!(f.selection, 7);
    f.update_viewport(3);
    assert!(f.show_start <= f.selection);
    assert!(f.selection < f.show_start + 3);
}

#[test]
fn viewport_resets_at_the_top() {
    let mut f = finder_with(&["a", "b", "c", "d"]);
    f.show_start = 2;
    f.update_viewport(2);
    assert_eq!(f.show_start, 0);
    assert_eq!(f.selection, 0);
}

#[test]
fn viewport_snaps_after_a_jump() {
    let mut f = finder_with(&["a", "b", "c", "d", "e", "f", "g", "h", "i", "j"]);
    for _ in 0..9 {
        f.move_selection(FinderMove::Next);
    }
    f.update_viewport(4);
    // selection 9 visible in a window of 4 rows
    assert!(f.show_start <= 9 && 9 < f.show_start + 4);
}

#[test]
fn up_key_moves_towards_higher_rows() {
    // the list is rendered bottom-up, so Up is a Next step
    let mut f = finder_with(&["a", "b", "c"]);
    let r = f.handle_event(&Event::Key(KeyCode::Up, KeyMods::none()));
    assert!(r.redraw && r.consumed);
    assert_eq!(f.selection, 1);
    let r2 = f.handle_event(&Event::Key(KeyCode::Down, KeyMods::none()));
    assert!(r2.redraw && r2.consumed);
    assert_eq!(f.selection, 0);
}

#[test]
fn modified_keys_pass_through_the_finder() {
    let mut f = finder_with(&["a", "b"]);
    let mods = KeyMods { shift: false, control: true, alt: false };
    let r = f.handle_event(&Event::Key(KeyCode::Up, mods));
    assert!(!r.redraw && !r.consumed);
    assert_eq!(f.selection, 0);
}

#[test]
fn selection_announced_once_per_change() {
    let mut f = finder_with(&["a.txt", "b.txt"]);
    let first = f.announce_selected();
    assert!(first.is_some());
    // same selection: nothing new to announce
    assert!(f.announce_selected().is_none());
    f.move_selection(FinderMove::Next);
    let third = f.announce_selected();
    assert!(third.is_some());
}

#[test]
fn visible_page_windows_the_subset() {
    let mut f = finder_with(&["a", "b", "c", "d", "e"]);
    f.update_filter(&Vec::new(), FileterResultEnum::Subset(vec![4, 2, 0]));
    let page = f.visible_page(2);
    assert_eq!(page, vec![(0, 4), (1, 2)]);
}

#[test]
fn clear_empties_the_store() {
    let mut f = finder_with(&["a", "b"]);
    let (total, job) = f.handle_msg(FinderIn::Clear);
    assert!(total.is_none() && job.is_none());
    assert_eq!(f.contents.len(), 0);
    assert_eq!(f.filtered_len(), 0);
}

#[test]
fn extend_reports_total_and_spawns_a_job() {
    let mut f = Finder::new();
    let (total, job) = f.handle_msg(FinderIn::ContentsExtend(store(&["a", "b", "c"])));
    assert_eq!(total, Some(3));
    let job = job.expect("a scoring job is spawned");
    assert_eq!(job.ticket, f.filter_worker.filter_task_handler);
}

#[test]
fn successive_jobs_supersede_by_ticket() {
    let mut f = Finder::new();
    let (_, j1) = f.handle_msg(FinderIn::Query(chars("a")));
    let (_, j2) = f.handle_msg(FinderIn::Query(chars("ab")));
    let t1 = j1.unwrap().ticket;
    let t2 = j2.unwrap().ticket;
    assert_ne!(t1, t2);
    // only the newest ticket passes the cancellation check
    assert!(!f.filter_worker.is_current(t1));
    assert!(f.filter_worker.is_current(t2));
}

#[test]
fn diff_path_cases() {
    assert_eq!(diff_path(&chars("/"), &chars("/etc/hosts")), 0);
    assert_eq!(diff_path(&chars("/home/u"), &chars("/home/u/notes.txt")), 8);
    assert_eq!(diff_path(&chars("/home/u/"), &chars("/home/u/notes.txt")), 8);
    assert_eq!(diff_path(&chars("/srv"), &chars("/var/log")), 0);
    assert_eq!(diff_path(&chars("/srv"), &chars("/srv")), 4);
}

#[test]
fn file_path_line_is_the_display_tail() {
    let p = FilePath::new(chars("/home/u/notes.txt"), &chars("/home/u"));
    let line: String = p.line().iter().collect();
    assert_eq!(line, "notes.txt");
    let full: String = p.path().iter().collect();
    assert_eq!(full, "/home/u/notes.txt");
}

#[test]
fn file_paths_compare_by_path() {
    let root = chars("/");
    let a = FilePath::new(chars("/x/y"), &root);
    let b = FilePath::new(chars("/x/y"), &root);
    let c = FilePath::new(chars("/x/z"), &root);
    assert!(a == b);
    assert!(a != c);
}

#[test]
fn event_results_and_size() {
    assert_eq!(EventHandleResult::all(), EventHandleResult { redraw: true, consumed: true });
    assert_eq!(EventHandleResult::empty(), EventHandleResult { redraw: false, consumed: false });
    assert_eq!(EventHandleResult::redraw(), EventHandleResult { redraw: true, consumed: false });
    assert_eq!(EventHandleResult::consume(), EventHandleResult { redraw: false, consumed: true });
    let s = Size::new(80, 24);
    assert_eq!((s.width, s.height), (80, 24));
}

#[test]
fn viewport_snap_lands_exactly() {
    // the selection left the window by more than the window height: the top
    // row snaps to selection - height + 1
    let mut f = Finder::new();
    f.update_filter(&Vec::new(), FileterResultEnum::All(100));
    f.selection = 50;
    f.show_start = 0;
    f.last_move = None;
    f.update_viewport(10);
    assert_eq!(f.show_start, 41);
}

#[test]
fn viewport_hysteresis_steps_one_row() {
    // an upward step within the margin of the top edge scrolls up one row
    let mut f = Finder::new();
    f.update_filter(&Vec::new(), FileterResultEnum::All(100));
    f.selection = 4;
    f.show_start = 3;
    f.last_move = Some(FinderMove::Prev);
    f.update_viewport(10);
    assert_eq!(f.show_start, 2);
    // a downward step within the margin of the bottom edge scrolls down one
    let mut g = Finder::new();
    g.update_filter(&Vec::new(), FileterResultEnum::All(100));
    g.selection = 8;
    g.show_start = 0;
    g.last_move = Some(FinderMove::Next);
    g.update_viewport(10);
    assert_eq!(g.show_start, 1);
    assert!(g.last_move.is_none());
}
