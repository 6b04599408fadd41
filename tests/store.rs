use ins_viewer::codec::{decode, encode, format_of_path, FileFormat};
use ins_viewer::errors::{LoadError, SaveError};
use ins_viewer::instruction::{Instruction, TaskMessage, TaskState};
use ins_viewer::instructions::{
    Command, Dataset, Delegate, Handled, Instructions, LoadOutcome, SaveRequest, PAGE_SIZE,
};

fn rec(a: &str, b: &str, c: &str) -> Instruction {
    Instruction::new(a.to_string(), b.to_string(), c.to_string())
}

fn fields(r: &Instruction) -> (String, String, String) {
    (r.instruction.clone(), r.input.clone(), r.output.clone())
}

fn jsonl_of(n: usize) -> String {
    let mut s = String::new();
    for i in 0..n {
        s.push_str(&format!(
            "{{\"instruction\":\"i{}\",\"input\":\"in{}\",\"output\":\"o{}\"}}\n",
            i, i, i
        ));
    }
    s
}

fn loaded(n: usize) -> Dataset {
    let mut d = Dataset::new();
    let text = jsonl_of(n);
    assert_eq!(d.load("data.jsonl", Some(&text)), LoadOutcome::Loaded);
    d
}

#[test]
fn round_trip_jsonl_with_unicode_and_empty_fields() {
    let records = vec![
        rec("", "", ""),
        rec("héllo 世界 🎉", "line\nbreak\r\n\ttab", "quote \" backslash \\ ctl \u{1}\u{7f}"),
        rec("{\"not\":\"json\"}", "[1,2]", "plain"),
    ];
    let text = encode(&records, FileFormat::Jsonl).unwrap();
    let back = decode(&text, FileFormat::Jsonl).unwrap();
    assert_eq!(back.len(), records.len());
    for (a, b) in back.iter().zip(records.iter()) {
        assert_eq!(fields(a), fields(b));
        assert_eq!(a.state, TaskState::Idle);
    }
}

#[test]
fn round_trip_json_array() {
    let records = vec![rec("a", "b", "c"), rec("ü", "", "\u{0}")];
    let text = encode(&records, FileFormat::Json).unwrap();
    let back = decode(&text, FileFormat::Json).unwrap();
    assert_eq!(back.len(), 2);
    assert_eq!(fields(&back[1]), fields(&records[1]));
}

#[test]
fn round_trip_resets_editing_state() {
    let mut r = rec("x", "y", "z");
    r.update(TaskMessage::Completed(true));
    let text = encode(&vec![r], FileFormat::Jsonl).unwrap();
    let back = decode(&text, FileFormat::Jsonl).unwrap();
    assert_eq!(back[0].state, TaskState::Idle);
}

#[test]
fn encode_jsonl_exact_text() {
    let text = encode(&vec![rec("a", "b", "c"), rec("d", "e", "f")], FileFormat::Jsonl).unwrap();
    assert_eq!(
        text,
        "{\"instruction\":\"a\",\"input\":\"b\",\"output\":\"c\"}\n{\"instruction\":\"d\",\"input\":\"e\",\"output\":\"f\"}\n"
    );
}

#[test]
fn encode_json_exact_text() {
    let text = encode(&vec![rec("a", "b", "c"), rec("d", "e", "f")], FileFormat::Json).unwrap();
    assert_eq!(
        text,
        "[{\"instruction\":\"a\",\"input\":\"b\",\"output\":\"c\"},{\"instruction\":\"d\",\"input\":\"e\",\"output\":\"f\"}]"
    );
    assert_eq!(encode(&vec![], FileFormat::Json).unwrap(), "[]");
    assert_eq!(encode(&vec![], FileFormat::Jsonl).unwrap(), "");
}

#[test]
fn encode_escapes_strings() {
    let text = encode(&vec![rec("q\"b\\", "n\nt\tr\r", "\u{1}\u{1f}é")], FileFormat::Jsonl).unwrap();
    assert_eq!(
        text,
        "{\"instruction\":\"q\\\"b\\\\\",\"input\":\"n\\nt\\tr\\r\",\"output\":\"\\u0001\\u001fé\"}\n"
    );
}

#[test]
fn decode_jsonl_reads_escapes_and_tolerates_extra_fields() {
    let text = "{\"output\":\"o\",\"id\":7,\"input\":\"a\\u0041\",\"instruction\":\"x\\ny\",\"tags\":[1,{}]}";
    let v = decode(text, FileFormat::Jsonl).unwrap();
    assert_eq!(v.len(), 1);
    assert_eq!(fields(&v[0]), ("x\ny".to_string(), "aA".to_string(), "o".to_string()));
}

#[test]
fn decode_jsonl_handles_crlf_and_missing_final_newline() {
    let text = "{\"instruction\":\"a\",\"input\":\"b\",\"output\":\"c\"}\r\n{\"instruction\":\"d\",\"input\":\"e\",\"output\":\"f\"}";
    let v = decode(text, FileFormat::Jsonl).unwrap();
    assert_eq!(v.len(), 2);
    assert_eq!(fields(&v[1]), ("d".to_string(), "e".to_string(), "f".to_string()));
    assert_eq!(decode("", FileFormat::Jsonl).unwrap().len(), 0);
}

#[test]
fn decode_missing_field_is_format_error() {
    let text = "{\"instruction\":\"a\",\"input\":\"b\"}\n";
    assert_eq!(decode(text, FileFormat::Jsonl).err(), Some(LoadError::Format));
    let text = "[{\"instruction\":\"a\",\"output\":\"b\"}]";
    assert_eq!(decode(text, FileFormat::Json).err(), Some(LoadError::Format));
}

#[test]
fn decode_non_string_field_is_format_error() {
    let text = "{\"instruction\":\"a\",\"input\":3,\"output\":\"c\"}\n";
    assert_eq!(decode(text, FileFormat::Jsonl).err(), Some(LoadError::Format));
}

#[test]
fn decode_malformed_json_array_is_format_error() {
    assert_eq!(decode("[{\"instruction\":", FileFormat::Json).err(), Some(LoadError::Format));
    assert_eq!(decode("{\"instruction\":\"a\",\"input\":\"b\",\"output\":\"c\"}", FileFormat::Json).err(), Some(LoadError::Format));
    assert_eq!(decode("[]", FileFormat::Json).unwrap().len(), 0);
}

#[test]
fn decode_blank_line_is_format_error() {
    let text = "{\"instruction\":\"a\",\"input\":\"b\",\"output\":\"c\"}\n\n{\"instruction\":\"a\",\"input\":\"b\",\"output\":\"c\"}\n";
    assert_eq!(decode(text, FileFormat::Jsonl).err(), Some(LoadError::Format));
}

#[test]
fn jsonl_fails_fast_and_keeps_previous_dataset() {
    let mut d = loaded(2);
    d.update_task(0, TaskMessage::InputChanged("kept".to_string()));
    let good = "{\"instruction\":\"a\",\"input\":\"b\",\"output\":\"c\"}";
    let text = format!("{}\n{}\nnot json\n{}\n{}\n", good, good, good, good);
    assert_eq!(d.load("more.jsonl", Some(&text)), LoadOutcome::Failed(LoadError::Format));
    assert_eq!(d.len(), 2);
    assert_eq!(d.get(0).input, "kept");
    assert!(d.is_dirty());
    assert_eq!(Instructions::load_jsonl(Some(&text)).err(), Some(LoadError::Format));
}

#[test]
fn failed_first_load_gives_empty_ready_store() {
    let mut d = Dataset::new();
    assert!(!d.is_ready());
    assert_eq!(d.load("x.jsonl", Some("oops")), LoadOutcome::Failed(LoadError::Format));
    assert!(d.is_ready());
    assert_eq!(d.len(), 0);
    assert!(d.visible_slice().is_empty());
}

#[test]
fn missing_file_is_file_error_for_both_formats() {
    assert_eq!(Instructions::load_jsonl(None).err(), Some(LoadError::File));
    assert_eq!(Instructions::load_json(None).err(), Some(LoadError::File));
    assert_eq!(Instructions::load_in(None, FileFormat::Jsonl).err(), Some(LoadError::File));
    let mut d = Dataset::new();
    assert_eq!(d.load("/nonexistent/path.jsonl", None), LoadOutcome::Failed(LoadError::File));
    assert_eq!(d.load("/nonexistent/path.json", None), LoadOutcome::Failed(LoadError::File));
}

#[test]
fn dirty_tracking() {
    let mut d = loaded(3);
    assert!(!d.is_dirty());
    d.update_task(1, TaskMessage::Edit);
    assert!(!d.is_dirty());
    d.update_task(1, TaskMessage::InstructionChanged("new".to_string()));
    assert!(d.is_dirty());
    assert_eq!(d.get(1).instruction, "new");
    assert!(matches!(d.save(FileFormat::Jsonl), SaveRequest::Write(_)));
    d.save_finished(Err(SaveError::Write));
    assert!(d.is_dirty());
    assert!(!d.is_saving());
    assert!(matches!(d.save(FileFormat::Jsonl), SaveRequest::Write(_)));
    d.save_finished(Ok(()));
    assert!(!d.is_dirty());
    d.update_task(0, TaskMessage::Delete);
    assert!(d.is_dirty());
    assert_eq!(d.len(), 2);
}

#[test]
fn pagination_boundaries() {
    assert_eq!(PAGE_SIZE, 50);
    let mut d = loaded(120);
    assert_eq!(d.current_page(), 0);
    d.page_back();
    assert_eq!(d.current_page(), 0);
    d.page_forward();
    assert_eq!(d.current_page(), 1);
    let idx: Vec<usize> = d.visible_slice().iter().map(|(i, _)| *i).collect();
    assert_eq!(idx, (50..100).collect::<Vec<usize>>());
    assert_eq!(d.visible_slice()[0].1.instruction, "i50");
    d.page_forward();
    assert_eq!(d.current_page(), 2);
    assert_eq!(d.visible_slice().len(), 20);
    d.page_forward();
    assert_eq!(d.current_page(), 2);
    assert!(!d.is_dirty());
}

#[test]
fn deleting_last_record_of_last_page_moves_back() {
    let mut d = loaded(51);
    d.page_forward();
    assert_eq!(d.current_page(), 1);
    d.update_task(50, TaskMessage::Delete);
    assert_eq!(d.current_page(), 0);
    assert_eq!(d.visible_slice().len(), 50);
}

#[test]
fn second_save_is_rejected_while_first_in_flight() {
    let mut d = loaded(2);
    let first = d.save(FileFormat::Jsonl);
    assert_eq!(first, SaveRequest::Write(jsonl_of(2)));
    assert!(d.is_saving());
    assert_eq!(d.save(FileFormat::Jsonl), SaveRequest::Rejected);
    assert!(d.is_saving());
    d.save_finished(Ok(()));
    assert!(matches!(d.save(FileFormat::Json), SaveRequest::Write(_)));
}

#[test]
fn format_detection() {
    assert_eq!(format_of_path("x.json"), Some(FileFormat::Json));
    assert_eq!(format_of_path("x.jsonl"), Some(FileFormat::Jsonl));
    assert_eq!(format_of_path("x.txt"), None);
    assert_eq!(format_of_path("/a.b/x"), None);
    assert_eq!(format_of_path("dir/.json"), None);
    assert_eq!(format_of_path("dir.d/x.JSON"), None);
    let mut d = Dataset::new();
    let arr = "[{\"instruction\":\"a\",\"input\":\"b\",\"output\":\"c\"}]";
    assert_eq!(d.load("x.json", Some(arr)), LoadOutcome::Loaded);
    assert_eq!(d.len(), 1);
    assert_eq!(d.load("x.jsonl", Some(arr)), LoadOutcome::Failed(LoadError::Format));
    assert_eq!(d.load("x.txt", Some("garbage")), LoadOutcome::InvalidFileType);
    assert_eq!(d.len(), 1);
}

#[test]
fn editing_state_machine() {
    let mut r = rec("a", "b", "c");
    assert_eq!(r.state, TaskState::Idle);
    assert_eq!(TaskState::default(), TaskState::Idle);
    r.update(TaskMessage::FinishEdition);
    assert_eq!(r.state, TaskState::Idle);
    r.update(TaskMessage::Edit);
    assert_eq!(r.state, TaskState::Editing);
    r.update(TaskMessage::InputChanged("".to_string()));
    assert_eq!(r.state, TaskState::Editing);
    assert_eq!(r.input, "");
    r.update(TaskMessage::FinishEdition);
    assert_eq!(r.state, TaskState::Idle);
    r.update(TaskMessage::Edit);
    r.update(TaskMessage::Completed(true));
    assert_eq!(r.state, TaskState::Done);
    r.update(TaskMessage::Edit);
    assert_eq!(r.state, TaskState::Done);
    r.update(TaskMessage::Completed(false));
    assert_eq!(r.state, TaskState::Idle);
    r.update(TaskMessage::Delete);
    assert_eq!(fields(&r), ("a".to_string(), "".to_string(), "c".to_string()));
}

#[test]
fn delegate_opens_and_saves() {
    let mut del = Delegate;
    let mut d = Dataset::new();
    let text = jsonl_of(3);
    let h = del.command(Command::OpenFile { path: "f.jsonl".to_string(), contents: Some(text.clone()) }, &mut d);
    assert!(matches!(h, Handled::Opened(LoadOutcome::Loaded)));
    assert_eq!(d.len(), 3);
    let h = del.command(Command::OpenFile { path: "f.csv".to_string(), contents: None }, &mut d);
    assert!(matches!(h, Handled::Opened(LoadOutcome::InvalidFileType)));
    let h = del.command(Command::SaveFileAs { path: "out.dat".to_string() }, &mut d);
    match h {
        Handled::Saving(SaveRequest::Write(t)) => assert_eq!(t, text),
        _ => panic!("expected a write"),
    }
    let h = del.command(Command::SaveFileAs { path: "out.jsonl".to_string() }, &mut d);
    assert!(matches!(h, Handled::Saving(SaveRequest::Rejected)));
}

#[test]
fn delegate_saves_json_path_in_array_form() {
    let mut del = Delegate;
    let mut d = loaded(1);
    match del.command(Command::SaveFileAs { path: "out.json".to_string() }, &mut d) {
        Handled::Saving(SaveRequest::Write(t)) => {
            assert_eq!(t, "[{\"instruction\":\"i0\",\"input\":\"in0\",\"output\":\"o0\"}]")
        }
        _ => panic!("expected a write"),
    }
}

#[test]
fn instructions_save_and_load_round_trip() {
    let d = Instructions { tasks: vec![rec("α", "β", "γ")] };
    let t = d.save(FileFormat::Json).unwrap();
    let back = Instructions::load_json(Some(&t)).unwrap();
    assert_eq!(fields(&back.tasks[0]), fields(&d.tasks[0]));
}

#[test]
fn edit_during_save_keeps_store_dirty() {
    let mut d = loaded(2);
    d.update_task(0, TaskMessage::InputChanged("a".to_string()));
    let first = d.save(FileFormat::Jsonl);
    assert!(matches!(first, SaveRequest::Write(_)));
    d.update_task(1, TaskMessage::InputChanged("b".to_string()));
    d.save_finished(Ok(()));
    assert!(d.is_dirty());
    assert!(!d.is_saving());
    assert!(matches!(d.save(FileFormat::Jsonl), SaveRequest::Write(_)));
    d.save_finished(Ok(()));
    assert!(!d.is_dirty());
}

#[test]
fn load_jsonl_unicode_line() {
    let text = "{\"instruction\":\"翻译\",\"input\":\"\",\"output\":\"héllo 🙂\"}\n";
    let i = Instructions::load_jsonl(Some(text)).unwrap();
    assert_eq!(i.tasks.len(), 1);
    assert_eq!(fields(&i.tasks[0]), ("翻译".to_string(), "".to_string(), "héllo 🙂".to_string()));
    assert_eq!(i.tasks[0].state, TaskState::Idle);
}

#[test]
fn load_json_two_record_array() {
    let text = "[{\"instruction\":\"a\",\"input\":\"\",\"output\":\"c\"},{\"instruction\":\"d\",\"input\":\"e\",\"output\":\"\"}]";
    let i = Instructions::load_json(Some(text)).unwrap();
    assert_eq!(i.tasks.len(), 2);
    assert_eq!(fields(&i.tasks[0]), ("a".to_string(), "".to_string(), "c".to_string()));
    assert_eq!(fields(&i.tasks[1]), ("d".to_string(), "e".to_string(), "".to_string()));
}
