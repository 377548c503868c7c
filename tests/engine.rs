use tailers::detector::{classify_notification, compare_sizes, NotifyKind, PollWatch, Signal};
use tailers::line_reader::LineReader;
use tailers::sink::{color_for, trim_trailing_whitespace, Rgb, Sink};
use tailers::tailer::{
    register_sources, Action, LineEvent, RegistrationError, SourceTailer, StopReason,
    TailerEvent, TailerState,
};

fn armed_pair() -> (SourceTailer, SourceTailer) {
    let mut ts = register_sources(vec![("a.log".to_string(), 0), ("b.log".to_string(), 0)])
        .unwrap();
    let mut b = ts.pop().unwrap();
    let mut a = ts.pop().unwrap();
    assert_eq!(a.on_event(TailerEvent::Armed), Action::Wait);
    assert_eq!(b.on_event(TailerEvent::Armed), Action::Wait);
    (a, b)
}

/// Wakes the tailer, hands it `bytes`, then the empty read that ends the
/// drain; returns the events as (index, text).
fn deliver(t: &mut SourceTailer, bytes: &[u8]) -> Vec<(usize, String)> {
    let at = t.read_pos();
    assert_eq!(t.on_event(TailerEvent::Changed(Signal::NewData)), Action::Read(at));
    let mut out: Vec<(usize, String)> = t
        .on_data(bytes)
        .into_iter()
        .map(|e| (e.source_index, String::from_utf8(e.text).unwrap()))
        .collect();
    assert!(t.on_data(b"").is_empty());
    assert_eq!(t.state(), TailerState::Idle);
    out.shrink_to_fit();
    out
}

#[test]
fn two_files_scenario() {
    let (mut a, mut b) = armed_pair();
    assert_eq!(deliver(&mut a, b"hello\n"), vec![(0, "hello".to_string())]);
    assert_eq!(deliver(&mut b, b"x"), vec![]);
    assert_eq!(deliver(&mut b, b"y\n"), vec![(1, "xy".to_string())]);
}

#[test]
fn one_write_of_three_lines() {
    let (mut a, _b) = armed_pair();
    let got = deliver(&mut a, b"l1\nl2\nl3\n");
    assert_eq!(
        got,
        vec![(0, "l1".to_string()), (0, "l2".to_string()), (0, "l3".to_string())]
    );
}

#[test]
fn batching_does_not_change_lines() {
    let (mut a, mut b) = armed_pair();
    let one = deliver(&mut a, b"l1\nl2\nl3\n");
    let mut three = Vec::new();
    for w in [&b"l1\n"[..], b"l2\n", b"l3\n"] {
        three.extend(deliver(&mut b, w).into_iter().map(|(_, t)| t));
    }
    let one_texts: Vec<String> = one.into_iter().map(|(_, t)| t).collect();
    assert_eq!(one_texts, three);
    // a split in the middle of a line
    let mut c = LineReader::new(0);
    let mut got = c.pull(b"l1\nl");
    got.extend(c.pull(b"2\nl3"));
    got.extend(c.pull(b"\n"));
    assert_eq!(got, vec![b"l1".to_vec(), b"l2".to_vec(), b"l3".to_vec()]);
}

#[test]
fn unterminated_line_waits_for_terminator() {
    let mut r = LineReader::new(0);
    assert!(r.pull(b"par").is_empty());
    assert!(r.pull(b"tial").is_empty());
    assert_eq!(r.pending_len(), 7);
    assert_eq!(r.cursor(), 0);
    assert_eq!(r.pull(b" line\n"), vec![b"partial line".to_vec()]);
    assert_eq!(r.pending_len(), 0);
    assert_eq!(r.cursor(), 13);
}

#[test]
fn reader_cursor_counts_delivered_bytes_only() {
    let mut r = LineReader::new(100);
    assert_eq!(r.pull(b"ab\ncd"), vec![b"ab".to_vec()]);
    assert_eq!(r.cursor(), 103);
    assert_eq!(r.read_pos(), 105);
    assert_eq!(r.pull(b""), Vec::<Vec<u8>>::new());
    assert_eq!(r.read_pos(), 105);
    assert_eq!(r.pull(b"\n\n"), vec![b"cd".to_vec(), Vec::new()]);
    assert_eq!(r.cursor(), 107);
    r.reset(0);
    assert_eq!(r.cursor(), 0);
    assert_eq!(r.pending_len(), 0);
}

#[test]
fn zero_files_rejected() {
    assert_eq!(register_sources(Vec::new()).err(), Some(RegistrationError::NoSources));
}

#[test]
fn registration_assigns_indices_and_cursors() {
    let ts = register_sources(vec![("x".to_string(), 7), ("y".to_string(), 9)]).unwrap();
    assert_eq!(ts.len(), 2);
    assert_eq!(ts[0].index(), 0);
    assert_eq!(ts[1].index(), 1);
    assert_eq!(ts[0].path(), "x");
    assert_eq!(ts[1].read_pos(), 9);
    assert_eq!(ts[0].state(), TailerState::Registered);
}

#[test]
fn interleaved_sources_keep_their_order() {
    let (mut a, mut b) = armed_pair();
    let mut sink = Sink::new(2);
    let mut seen_a = Vec::new();
    let mut seen_b = Vec::new();
    let writes: [(bool, &[u8]); 5] =
        [(true, b"a1\n"), (false, b"b1\nb"), (true, b"a2\na3\n"), (false, b"2\n"), (true, b"a4\n")];
    for (to_a, bytes) in writes {
        let t = if to_a { &mut a } else { &mut b };
        let at = t.read_pos();
        assert_eq!(t.on_event(TailerEvent::Changed(Signal::NewData)), Action::Read(at));
        for e in t.on_data(bytes) {
            let idx = e.source_index;
            let r = sink.accept(e);
            let text = String::from_utf8(r.text).unwrap();
            if idx == 0 {
                seen_a.push(text)
            } else {
                seen_b.push(text)
            }
        }
        t.on_data(b"");
    }
    assert_eq!(seen_a, vec!["a1", "a2", "a3", "a4"]);
    assert_eq!(seen_b, vec!["b1", "b2"]);
}

#[test]
fn removing_one_file_stops_only_its_tailer() {
    let (mut a, mut b) = armed_pair();
    let mut sink = Sink::new(2);
    assert_eq!(
        a.on_event(TailerEvent::Changed(Signal::Removed)),
        Action::Stop(StopReason::Removed)
    );
    assert_eq!(a.state(), TailerState::Terminated(StopReason::Removed));
    sink.producer_done(0);
    assert!(!sink.is_closed());
    assert_eq!(deliver(&mut b, b"still here\n"), vec![(1, "still here".to_string())]);
    // a terminated tailer stays terminated and delivers nothing
    assert_eq!(
        a.on_event(TailerEvent::Changed(Signal::NewData)),
        Action::Stop(StopReason::Removed)
    );
    assert!(a.on_data(b"late\n").is_empty());
    sink.producer_done(1);
    assert!(sink.is_closed());
}

#[test]
fn lifecycle_transitions() {
    let mut t = SourceTailer::new("f".to_string(), 3, 10);
    assert_eq!(t.on_event(TailerEvent::Changed(Signal::NewData)), Action::Wait);
    assert_eq!(t.state(), TailerState::Registered);
    assert_eq!(t.on_event(TailerEvent::Armed), Action::Wait);
    assert_eq!(t.on_event(TailerEvent::Changed(Signal::NoNewData)), Action::Wait);
    assert_eq!(t.state(), TailerState::Idle);
    assert_eq!(t.on_event(TailerEvent::Changed(Signal::NewData)), Action::Read(10));
    assert!(t.on_data(b"abc").is_empty());
    assert_eq!(t.state(), TailerState::Draining);
    assert_eq!(t.on_event(TailerEvent::Changed(Signal::Rotated)), Action::Reopen);
    assert_eq!(t.read_pos(), 0);
    let ev: Vec<LineEvent> = t.on_data(b"new\n");
    assert_eq!(ev.len(), 1);
    assert_eq!(ev[0].source_index, 3);
    assert_eq!(ev[0].path, "f");
    assert_eq!(ev[0].text, b"new".to_vec());
    assert_eq!(t.on_event(TailerEvent::ReadFailed), Action::Stop(StopReason::ReadFailed));
    let mut w = SourceTailer::new("g".to_string(), 0, 0);
    assert_eq!(w.on_event(TailerEvent::WatchFailed), Action::Stop(StopReason::WatchFailed));
    let mut c = SourceTailer::new("h".to_string(), 0, 0);
    c.on_event(TailerEvent::Armed);
    assert_eq!(c.on_event(TailerEvent::ChannelClosed), Action::Stop(StopReason::ChannelClosed));
    let mut s = SourceTailer::new("i".to_string(), 0, 0);
    assert_eq!(s.on_event(TailerEvent::Shutdown), Action::Stop(StopReason::Shutdown));
}

#[test]
fn size_comparison() {
    assert_eq!(compare_sizes(10, 11), Signal::NewData);
    assert_eq!(compare_sizes(10, 10), Signal::NoNewData);
    assert_eq!(compare_sizes(10, 3), Signal::Rotated);
    let mut w = PollWatch::new(5);
    assert_eq!(w.observe(5), Signal::NoNewData);
    assert_eq!(w.observe(8), Signal::NewData);
    assert_eq!(w.last_len(), 8);
    assert_eq!(w.observe(8), Signal::NoNewData);
    assert_eq!(w.observe(2), Signal::Rotated);
    assert_eq!(w.observe(4), Signal::NewData);
}

#[test]
fn notification_classes() {
    assert_eq!(classify_notification(NotifyKind::Write, true), Signal::NewData);
    assert_eq!(classify_notification(NotifyKind::Write, false), Signal::NoNewData);
    assert_eq!(classify_notification(NotifyKind::Create, true), Signal::Rotated);
    assert_eq!(classify_notification(NotifyKind::Remove, true), Signal::Removed);
    assert_eq!(classify_notification(NotifyKind::Rename, true), Signal::Removed);
    assert_eq!(classify_notification(NotifyKind::Other, true), Signal::NoNewData);
}

#[test]
fn display_trims_and_colors() {
    assert_eq!(trim_trailing_whitespace(b"  x y \t\r\n"), b"  x y".to_vec());
    assert_eq!(trim_trailing_whitespace(b" \n"), Vec::<u8>::new());
    assert_eq!(trim_trailing_whitespace(b""), Vec::<u8>::new());
    assert_eq!(color_for(0), Rgb { r: 230, g: 57, b: 57 });
    assert_eq!(color_for(8), color_for(0));
    assert_eq!(color_for(5), Rgb { r: 57, g: 111, b: 230 });
    assert_ne!(color_for(1), color_for(2));
    let mut sink = Sink::new(1);
    let r = sink.accept(LineEvent { source_index: 1, path: "p".to_string(), text: b"t  ".to_vec() });
    assert_eq!(r.color, color_for(1));
    assert_eq!(r.path, "p");
    assert_eq!(r.text, b"t".to_vec());
}

