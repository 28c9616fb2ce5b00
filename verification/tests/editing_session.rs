use ffp::events::{Event, KeyCode, KeyMods};
use ffp::fileinfo::FilePath;
use ffp::filter::{run_filter, FileterResultEnum};
use ffp::finder::{FinderIn, FinderOut};
use ffp::input::{Input, InputOut};
use ffp::preview::{unsupported_view, FileInfo};
use ffp::session::{LoopIn, Session};
use ffp::status::{Status, StatusIn};

fn chars(s: &str) -> Vec<char> {
    s.chars().collect()
}

fn text(v: &Vec<char>) -> String {
    v.iter().collect()
}

fn store(names: &[&str]) -> Vec<FilePath> {
    let root = chars("/");
    names.iter().map(|n| FilePath::new(chars(n), &root)).collect()
}

fn press(s: &mut Session, code: KeyCode) -> ffp::session::StepEffects {
    s.step(LoopIn::Term(Event::Key(code, KeyMods::none())))
}

#[test]
fn typing_edits_and_announces() {
    let mut input = Input::new();
    input.handle_event(&Event::Key(KeyCode::Char('a'), KeyMods::none()));
    input.handle_event(&Event::Key(KeyCode::Char('b'), KeyMods::none()));
    assert_eq!(text(input.line()), "ab");
    assert_eq!(input.cursor_position, 2);
    match input.poll_out() {
        Some(InputOut::Input(q)) => assert_eq!(text(&q), "ab"),
        None => panic!("edits announce the new query"),
    }
    assert!(input.poll_out().is_none());
}

#[test]
fn backspace_removes_before_the_cursor() {
    let mut input = Input::new();
    for c in "abc".chars() {
        input.enter_char(c);
    }
    input.move_cursor_left();
    input.delete_char();
    assert_eq!(text(input.line()), "ac");
    assert_eq!(input.cursor_position, 1);
}

#[test]
fn backspace_at_the_start_is_a_no_op() {
    let mut input = Input::new();
    input.enter_char('x');
    input.move_start();
    input.delete_char();
    assert_eq!(text(input.line()), "x");
    assert_eq!(input.cursor_position, 0);
}

#[test]
fn cursor_clamps_at_both_ends() {
    let mut input = Input::new();
    input.move_cursor_left();
    assert_eq!(input.cursor_position, 0);
    input.enter_char('x');
    input.move_cursor_right();
    input.move_cursor_right();
    assert_eq!(input.cursor_position, 1);
}

#[test]
fn view_follows_the_cursor() {
    let mut input = Input::new();
    for c in "abcdefghij".chars() {
        input.enter_char(c);
    }
    let x = input.recompute_view(4);
    assert!(x < 4);
    assert!(input.show_start <= input.cursor_position);
    assert!(input.cursor_position - input.show_start < 4);
}

#[test]
fn control_chords_pass_through_the_input() {
    let mut input = Input::new();
    let mods = KeyMods { shift: false, control: true, alt: false };
    let r = input.handle_event(&Event::Key(KeyCode::Char('x'), mods));
    assert!(!r.redraw && !r.consumed);
    assert_eq!(text(input.line()), "");
}

#[test]
fn escape_quits_the_session() {
    let mut s = Session::new(&chars("/tmp"));
    let fx = press(&mut s, KeyCode::Esc);
    assert!(fx.quit);
}

#[test]
fn control_c_quits_the_session() {
    let mut s = Session::new(&chars("/tmp"));
    let mods = KeyMods { shift: false, control: true, alt: false };
    let fx = s.step(LoopIn::Term(Event::Key(KeyCode::Char('c'), mods)));
    assert!(fx.quit);
    // a plain 'c' types instead
    let fx2 = press(&mut s, KeyCode::Char('c'));
    assert!(!fx2.quit);
}

#[test]
fn typing_spawns_a_filter_job() {
    let mut s = Session::new(&chars("/tmp"));
    s.step(LoopIn::FinderMsg(FinderIn::ContentsExtend(store(&["apple.txt", "pear.txt"]))));
    let fx = press(&mut s, KeyCode::Char('a'));
    let job = fx.filter_job.expect("an edited query starts a scoring job");
    assert_eq!(text(&job.query), "a");
    assert_eq!(text(&s.finder.query.clone()), "a");
}

#[test]
fn walked_batches_update_the_total() {
    let mut s = Session::new(&chars("/tmp"));
    let fx = s.step(LoopIn::FinderMsg(FinderIn::ContentsExtend(store(&["a", "b", "c"]))));
    assert_eq!(s.status.total, 3);
    assert!(fx.filter_job.is_some());
    assert!(fx.redraw.status);
}

#[test]
fn completed_results_update_count_and_view() {
    let mut s = Session::new(&chars("/tmp"));
    s.step(LoopIn::FinderMsg(FinderIn::ContentsExtend(store(&["a", "b", "c"]))));
    let fx = s.step(LoopIn::FinderResult(FinderOut::FilterResult(
        Vec::new(),
        FileterResultEnum::All(3),
    )));
    assert_eq!(s.status.filter_size, 3);
    assert_eq!(s.finder.filtered_len(), 3);
    assert!(fx.redraw.finder && fx.redraw.status);
}

#[test]
fn only_the_live_query_s_result_lands() {
    let mut s = Session::new(&chars("/tmp"));
    s.step(LoopIn::FinderMsg(FinderIn::ContentsExtend(store(&["a", "b", "c"]))));
    s.step(LoopIn::FinderMsg(FinderIn::Query(chars("b"))));
    // a result computed for the superseded query "a" arrives late
    s.step(LoopIn::FinderResult(FinderOut::FilterResult(
        chars("a"),
        FileterResultEnum::Subset(vec![0]),
    )));
    assert_eq!(s.finder.filtered_len(), 0);
    // the result for the live query lands
    s.step(LoopIn::FinderResult(FinderOut::FilterResult(
        chars("b"),
        FileterResultEnum::Subset(vec![1]),
    )));
    assert_eq!(s.finder.filtered_len(), 1);
}

#[test]
fn selection_change_spawns_a_preview() {
    let mut s = Session::new(&chars("/tmp"));
    let p = FilePath::new(chars("/tmp/a.txt"), &chars("/tmp"));
    let fx = s.step(LoopIn::FinderResult(FinderOut::Selected(Some(p))));
    let (path, ticket) = fx.preview_spawn.expect("a new selection spawns a preview");
    assert_eq!(text(&path.pathbuf), "/tmp/a.txt");
    assert!(s.viewer.is_current(ticket));
    // the same selection again spawns nothing
    let p2 = FilePath::new(chars("/tmp/a.txt"), &chars("/tmp"));
    let fx2 = s.step(LoopIn::FinderResult(FinderOut::Selected(Some(p2))));
    assert!(fx2.preview_spawn.is_none());
}

#[test]
fn stale_preview_is_dropped_at_the_session_door() {
    let mut s = Session::new(&chars("/tmp"));
    let a = FilePath::new(chars("/tmp/a"), &chars("/tmp"));
    let b = FilePath::new(chars("/tmp/b"), &chars("/tmp"));
    s.step(LoopIn::FinderResult(FinderOut::Selected(Some(a))));
    s.step(LoopIn::FinderResult(FinderOut::Selected(Some(b))));
    // a's payload arrives after the selection moved to b
    let stale = unsupported_view(FileInfo {
        path: FilePath::new(chars("/tmp/a"), &chars("/tmp")),
        desc: None,
        metadata: Err(chars("late")),
    });
    s.step(LoopIn::PreviewDone(stale));
    assert!(s.viewer.file.is_none());
}

#[test]
fn frame_keeps_both_viewports_honest() {
    let mut s = Session::new(&chars("/tmp"));
    s.step(LoopIn::FinderMsg(FinderIn::ContentsExtend(store(&["a", "b", "c", "d", "e"]))));
    s.step(LoopIn::FinderResult(FinderOut::FilterResult(
        Vec::new(),
        FileterResultEnum::All(5),
    )));
    for c in "abc".chars() {
        press(&mut s, KeyCode::Char(c));
    }
    let (cursor_x, _) = s.frame(3, 2);
    assert!(cursor_x < 2);
    assert!(s.finder.show_start <= s.finder.selection);
    assert!(s.finder.selection < s.finder.show_start + 3);
}

#[test]
fn frame_announces_each_selection_once() {
    let mut s = Session::new(&chars("/tmp"));
    s.step(LoopIn::FinderMsg(FinderIn::ContentsExtend(store(&["x.txt", "y.txt"]))));
    s.step(LoopIn::FinderResult(FinderOut::FilterResult(
        Vec::new(),
        FileterResultEnum::All(2),
    )));
    let (_, spawn1) = s.frame(4, 4);
    assert!(spawn1.is_some(), "the first frame announces the selection");
    let (_, spawn2) = s.frame(4, 4);
    assert!(spawn2.is_none(), "an unchanged selection stays quiet");
}

#[test]
fn status_routes_every_message() {
    let mut st = Status::new(&chars("/home"));
    st.handle_msg(StatusIn::Total(42));
    st.handle_msg(StatusIn::FilterSize(7));
    assert_eq!((st.total, st.filter_size), (42, 7));
    st.set_total(50);
    st.set_filter_count(9);
    assert_eq!((st.total, st.filter_size), (50, 9));
    st.handle_msg(StatusIn::CWD(chars("/etc")));
    assert_eq!(text(&st.cwd), "/etc");
    st.handle_msg(StatusIn::ShowHide(true));
    assert!(st.show_hide);
}

#[test]
fn filter_results_flow_end_to_end() {
    // the full path: walked entries, a typed query, a job run, its result
    // applied — as the event loop would drive it
    let mut s = Session::new(&chars("/"));
    s.step(LoopIn::FinderMsg(FinderIn::ContentsExtend(store(&[
        "apple.txt",
        "banana.txt",
        "grape.txt",
    ]))));
    let fx = press(&mut s, KeyCode::Char('b'));
    let job = fx.filter_job.expect("typing starts a job");
    // the background worker would now run the job against a snapshot
    let result = run_filter(&s.finder.contents, &job.query, &job.prev);
    assert!(s.finder.filter_worker.is_current(job.ticket));
    s.step(LoopIn::FinderResult(FinderOut::FilterResult(job.query, result)));
    assert_eq!(s.finder.filtered_len(), 1);
    assert_eq!(s.status.filter_size, 1);
    let sel = s.finder.resolve_selected().expect("the match is selected");
    assert_eq!(text(&sel.pathbuf), "banana.txt");
}
