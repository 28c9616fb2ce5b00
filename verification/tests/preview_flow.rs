use ffp::events::{Event, KeyCode, KeyMods};
use ffp::fileinfo::FilePath;
use ffp::preview::{
    classify, translate_plain, unsupported_view, DirViewer, FileInfo, FileKind, FileMeta,
    FileViewer, HandleFileAction, PreviewKind, TextViewer, ViewType,
};

fn chars(s: &str) -> Vec<char> {
    s.chars().collect()
}

fn path(s: &str) -> FilePath {
    FilePath::new(chars(s), &chars("/"))
}

fn meta(kind: FileKind) -> FileMeta {
    FileMeta { kind, size: 1234, mtime: 1700000000 }
}

fn info(p: &str, kind: FileKind) -> FileInfo {
    FileInfo { path: path(p), desc: Some(chars("plain text")), metadata: Ok(meta(kind)) }
}

#[test]
fn classify_dispatches_on_kind() {
    assert_eq!(classify(&Ok(meta(FileKind::Directory))), PreviewKind::Directory);
    assert_eq!(classify(&Ok(meta(FileKind::Regular))), PreviewKind::Text);
    assert_eq!(classify(&Ok(meta(FileKind::Other))), PreviewKind::Unsupported);
    assert_eq!(classify(&Err(chars("gone"))), PreviewKind::Unsupported);
}

#[test]
fn deleted_file_still_yields_a_payload() {
    // metadata fetch failed mid-read: the payload is unsupported and carries
    // the error in its attribute block, and nothing panics
    let fi = FileInfo { path: path("/tmp/gone.txt"), desc: None, metadata: Err(chars("vanished")) };
    let msg = unsupported_view(fi);
    assert!(matches!(msg.body, ViewType::Unknown));
    let attr = msg.attr.expect("an attribute block is always built");
    let err: String = attr.error.expect("the error is kept").iter().collect();
    assert_eq!(err, "vanished");
    assert!(attr.size.is_none() && attr.mtime.is_none());
}

#[test]
fn text_preview_carries_plain_lines_and_attrs() {
    let viewer = TextViewer::new();
    let fi = info("/tmp/a.rs", FileKind::Regular);
    let msg = viewer
        .handle_fileinfo(fi, Ok(chars("one\ttab\nline two")), false)
        .expect("an uncancelled read yields a payload");
    match msg.body {
        ViewType::Text(lines) => {
            let texts: Vec<String> = lines.iter().map(|l| l.iter().collect()).collect();
            assert_eq!(texts, vec!["one  tab".to_string(), "line two".to_string()]);
        }
        _ => panic!("a regular file previews as text"),
    }
    let attr = msg.attr.expect("metadata was there");
    assert_eq!(attr.size, Some(1234));
    assert_eq!(attr.mtime, Some(1700000000));
}

#[test]
fn cancelled_text_job_publishes_nothing() {
    let viewer = TextViewer::new();
    let fi = info("/tmp/a.rs", FileKind::Regular);
    assert!(viewer.handle_fileinfo(fi, Ok(chars("body")), true).is_err());
}

#[test]
fn failed_read_becomes_a_read_error() {
    let viewer = TextViewer::new();
    let fi = info("/tmp/a.rs", FileKind::Regular);
    assert!(viewer.handle_fileinfo(fi, Err(chars("permission denied")), false).is_err());
}

#[test]
fn dir_preview_lists_children_and_count() {
    let viewer = DirViewer::new();
    let fi = info("/tmp", FileKind::Directory);
    let names = vec![chars("a.txt"), chars("sub")];
    let msg = viewer.handle_fileinfo(fi, Ok((names, 2)), false).expect("not cancelled");
    match msg.body {
        ViewType::Directory(names) => assert_eq!(names.len(), 2),
        _ => panic!("a directory previews as a listing"),
    }
    let attr = msg.attr.expect("directories always carry attributes");
    assert_eq!(attr.count, Some(2));
    assert!(attr.error.is_none());
}

#[test]
fn dir_read_error_lands_in_the_attributes() {
    let viewer = DirViewer::new();
    let fi = info("/tmp", FileKind::Directory);
    let msg = viewer.handle_fileinfo(fi, Err(chars("denied")), false).expect("not cancelled");
    let attr = msg.attr.expect("attributes are always built");
    assert!(attr.count.is_none());
    let err: String = attr.error.expect("the error is kept").iter().collect();
    assert_eq!(err, "denied");
}

#[test]
fn translate_plain_splits_and_widens() {
    let lines = translate_plain(&chars("a\tb\nc\n"));
    let texts: Vec<String> = lines.iter().map(|l| l.iter().collect()).collect();
    assert_eq!(texts, vec!["a  b".to_string(), "c".to_string(), "".to_string()]);
    let single = translate_plain(&chars("no newline"));
    assert_eq!(single.len(), 1);
    let empty = translate_plain(&Vec::new());
    assert_eq!(empty.len(), 1);
    assert!(empty[0].is_empty());
}

#[test]
fn stale_preview_payload_is_discarded() {
    // the selection moves on before the payload lands: the payload must
    // disappear without a trace
    let mut viewer = FileViewer::new();
    let first = path("/tmp/slow.txt");
    let act = viewer.handle_file(Some(&first));
    assert!(matches!(act, HandleFileAction::Spawn(_)));
    // selection changes before the slow job delivers
    let second = path("/tmp/fast.txt");
    let act2 = viewer.handle_file(Some(&second));
    assert!(matches!(act2, HandleFileAction::Spawn(_)));
    // the slow job's payload arrives late
    let stale = unsupported_view(FileInfo {
        path: path("/tmp/slow.txt"),
        desc: None,
        metadata: Err(chars("slow")),
    });
    viewer.set_view(stale);
    assert!(viewer.file.is_none());
    // the fresh payload is accepted
    let fresh = unsupported_view(FileInfo {
        path: path("/tmp/fast.txt"),
        desc: None,
        metadata: Err(chars("fast")),
    });
    viewer.set_view(fresh);
    assert!(viewer.file.is_some());
}

#[test]
fn unchanged_selection_keeps_the_running_job() {
    let mut viewer = FileViewer::new();
    let p = path("/tmp/a.txt");
    let act = viewer.handle_file(Some(&p));
    let ticket = match act {
        HandleFileAction::Spawn(t) => t,
        _ => panic!("a new selection spawns a job"),
    };
    // the same selection again: no new job, the old ticket stays live
    let again = path("/tmp/a.txt");
    assert!(matches!(viewer.handle_file(Some(&again)), HandleFileAction::NoChange));
    assert!(viewer.is_current(ticket));
}

#[test]
fn superseded_ticket_fails_the_check() {
    let mut viewer = FileViewer::new();
    let t1 = match viewer.handle_file(Some(&path("/a"))) {
        HandleFileAction::Spawn(t) => t,
        _ => panic!(),
    };
    let t2 = match viewer.handle_file(Some(&path("/b"))) {
        HandleFileAction::Spawn(t) => t,
        _ => panic!(),
    };
    assert!(!viewer.is_current(t1));
    assert!(viewer.is_current(t2));
}

#[test]
fn clearing_the_selection_clears_the_preview() {
    let mut viewer = FileViewer::new();
    viewer.handle_file(Some(&path("/a")));
    let msg = unsupported_view(FileInfo {
        path: path("/a"),
        desc: None,
        metadata: Err(Vec::new()),
    });
    viewer.set_view(msg);
    assert!(viewer.file.is_some());
    assert!(matches!(viewer.handle_file(None), HandleFileAction::Cleared));
    assert!(viewer.file.is_none());
}

#[test]
fn preview_scroll_moves_with_alt_arrows() {
    let mut viewer = FileViewer::new();
    viewer.handle_file(Some(&path("/a")));
    let msg = unsupported_view(FileInfo {
        path: path("/a"),
        desc: None,
        metadata: Err(Vec::new()),
    });
    viewer.set_view(msg);
    let alt = KeyMods { shift: false, control: false, alt: true };
    viewer.handle_event(&Event::Key(KeyCode::Down, alt));
    viewer.handle_event(&Event::Key(KeyCode::Down, alt));
    assert_eq!(viewer.file.as_ref().unwrap().1, 2);
    viewer.handle_event(&Event::Key(KeyCode::Up, alt));
    assert_eq!(viewer.file.as_ref().unwrap().1, 1);
    // scrolling up from the top saturates
    viewer.handle_event(&Event::Key(KeyCode::Up, alt));
    viewer.handle_event(&Event::Key(KeyCode::Up, alt));
    assert_eq!(viewer.file.as_ref().unwrap().1, 0);
}

#[test]
fn bare_fileinfo_has_no_attributes_or_desc() {
    let fi = FileInfo::from_path(path("/x"));
    assert!(fi.desc.is_none());
    assert!(fi.metadata.is_err());
}
