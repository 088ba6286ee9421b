//! The file components: lines, fixed width, delimited, JSON Lines and JSON
//! arrays.

use oxide_batch::item_components::delimited::{
    classify_csv_error, delimited_reader, delimited_writer, DelimitedDialect, DelimitedPositionSchema,
    DelimitedReader, DelimitedRecord, DelimitedTerminator, ParsedRecord, StoredPosition,
};
use oxide_batch::item_components::file_output::{CommittedOutput, OutputTarget, Reconciliation};
use oxide_batch::item_components::fixed_width::{
    fixed_width_reader, fixed_width_writer, FixedWidthField, FixedWidthLayout, FixedWidthReader,
    FixedWidthRecord, FixedWidthTerminator,
};
use oxide_batch::item_components::json_array::{
    json_array_reader, ArrayAction, JsonArrayFormat, JsonArrayReader,
};
use oxide_batch::item_components::json_array_output::{
    json_array_writer, ArrayOpenPlan, ArrayPositionSchema, JsonArrayWriter, WriterPosition,
};
use oxide_batch::item_components::jsonl::{
    jsonl_reader, jsonl_writer, JsonLinesFormat, JsonLinesReader, JsonLinesTerminator,
};
use oxide_batch::item_components::lines::{BoundedLine, LineReader};
use oxide_batch::item_components::position::{ReaderPositionSchema, WriterPositionSchema};
use oxide_batch::item_stream::{StreamOpenOutcome, StreamRuntimeOutcome};
use oxide_batch::runtime::{
    FailureCategory, ReadOutcome, ReaderError, StopToken, WriteOutcome,
};
use serde_json::Value;

const GO: StopToken = StopToken { requested: false };
const STOP: StopToken = StopToken { requested: true };

fn json(text: &str) -> Value {
    serde_json::from_str(text).unwrap()
}

fn skippable() -> ReaderError {
    ReaderError::new().with_checkpoint_advanced()
}

/// A source that hands its bytes out in chunks.
struct Source<'a> {
    bytes: &'a [u8],
    at: usize,
    chunk: usize,
}

impl<'a> Source<'a> {
    fn new(bytes: &'a [u8], chunk: usize) -> Self {
        Source { bytes, at: 0, chunk }
    }

    fn available(&self) -> &'a [u8] {
        let end = (self.at + self.chunk).min(self.bytes.len());
        &self.bytes[self.at..end]
    }

    fn line(&mut self, mut reader: LineReader) -> BoundedLine {
        loop {
            let (used, line) = reader.feed(self.available());
            self.at += used;
            if let Some(line) = line {
                return line;
            }
        }
    }
}

#[test]
fn lines_do_not_depend_on_how_the_source_is_cut() {
    let text = b"ab\r\nc\rd\n\nlonger than five\nend";
    for chunk in 1..text.len() + 1 {
        let mut source = Source::new(text, chunk);
        let mut lines = Vec::new();
        loop {
            match source.line(LineReader::new(5)) {
                BoundedLine::Eof => break,
                line => lines.push(line),
            }
        }
        let line = |bytes: &[u8], consumed| BoundedLine::Line { bytes: bytes.to_vec(), consumed };
        assert_eq!(
            lines,
            [
                line(b"ab", 4),
                line(b"c\rd", 4),
                line(b"", 1),
                BoundedLine::TooLong { consumed: 17 },
                line(b"end", 3),
            ]
        );
    }
}

fn next_json_line(
    reader: &mut JsonLinesReader,
    source: &mut Source<'_>,
) -> Result<ReadOutcome<Value>, ReaderError> {
    if let Some(target) = reader.seek_target() {
        source.at = target as usize;
        reader.sought(true)?;
    }
    let line = source.line(reader.next_line());
    reader.line_read(line)
}

#[test]
fn json_lines_read_skip_and_resume() {
    let text = b"{\"a\":1}\r\nnot json\n[2]\n\"too long a line to accept\"\n3";
    let format = JsonLinesFormat::new().with_max_record_bytes(10);
    let mut source = Source::new(text, 4);
    let mut reader = jsonl_reader(format);
    assert_eq!(reader.open(None), Ok(StreamOpenOutcome::Initial));
    assert_eq!(
        next_json_line(&mut reader, &mut source),
        Ok(ReadOutcome::Item(json("{\"a\":1}")))
    );
    assert_eq!(next_json_line(&mut reader, &mut source), Err(skippable()));
    assert_eq!(next_json_line(&mut reader, &mut source), Ok(ReadOutcome::Item(json("[2]"))));
    let committed = reader.update().unwrap();
    assert_eq!(next_json_line(&mut reader, &mut source), Err(skippable()));
    assert_eq!(next_json_line(&mut reader, &mut source), Ok(ReadOutcome::Item(json("3"))));
    assert_eq!(next_json_line(&mut reader, &mut source), Ok(ReadOutcome::EndOfInput));

    let mut restarted = jsonl_reader(format);
    assert_eq!(restarted.open(Some(&committed)), Ok(StreamOpenOutcome::Restored));
    let mut source = Source::new(text, 100);
    assert_eq!(next_json_line(&mut restarted, &mut source), Err(skippable()));
    assert_eq!(
        next_json_line(&mut restarted, &mut source),
        Ok(ReadOutcome::Item(json("3")))
    );
    assert_eq!(
        restarted.open(Some(b"{\"byte\":-1}")).unwrap_err().category,
        FailureCategory::UserComponent
    );
}

#[test]
fn a_failed_json_lines_source_is_read_again_from_the_checkpoint() {
    let mut reader = jsonl_reader(JsonLinesFormat::default());
    assert_eq!(reader.seek_target(), Some(0));
    assert!(reader.sought(false).is_err());
    assert_eq!(reader.seek_target(), Some(0));
    reader.sought(true).unwrap();
    assert_eq!(reader.seek_target(), None);
    let error = reader.read_failed();
    assert_eq!(error.category, FailureCategory::TransientInfrastructure);
    assert!(!error.checkpoint_advanced);
    assert_eq!(reader.seek_target(), Some(0));
}

#[test]
fn a_written_json_line_reads_back() {
    for terminator in [JsonLinesTerminator::Lf, JsonLinesTerminator::CrLf] {
        let writer = jsonl_writer(JsonLinesFormat::new().with_terminator(terminator));
        let value = json("{\"text\":\"line\\nbreak\",\"n\":-5}");
        let line = writer.encode_line(&value).unwrap();
        assert_eq!(line.iter().filter(|byte| **byte == b'\n').count(), 1);
        let mut reader = jsonl_reader(JsonLinesFormat::new());
        let mut source = Source::new(&line, 3);
        assert_eq!(next_json_line(&mut reader, &mut source), Ok(ReadOutcome::Item(value)));
        assert_eq!(next_json_line(&mut reader, &mut source), Ok(ReadOutcome::EndOfInput));
    }
}

fn layout() -> FixedWidthLayout {
    FixedWidthLayout::new(vec![FixedWidthField::named("id", 2), FixedWidthField::new(3)])
}

fn next_record(
    reader: &mut FixedWidthReader,
    source: &mut Source<'_>,
) -> Result<ReadOutcome<FixedWidthRecord>, ReaderError> {
    if let Some(target) = reader.seek_target() {
        source.at = target as usize;
    }
    let line = source.line(reader.next_line());
    reader.line_read(line)
}

#[test]
fn fixed_width_records_are_decoded_by_bytes() {
    let text = "01abc\n02\u{e9}x\r\n03toolong\n0\u{e9}ab\n04xyz".as_bytes();
    let mut source = Source::new(text, 5);
    let mut reader = fixed_width_reader(layout());
    assert_eq!(reader.open(None), Ok(StreamOpenOutcome::Initial));
    let record = match next_record(&mut reader, &mut source).unwrap() {
        ReadOutcome::Item(record) => record,
        other => panic!("{other:?}"),
    };
    assert_eq!(record.fields(), ["01", "abc"]);
    assert_eq!(record.field("id"), Some("01"));
    assert_eq!(record.field("none"), None);
    assert_eq!((record.get(1), record.get(2), record.len()), (Some("abc"), None, 2));
    let ReadOutcome::Item(record) = next_record(&mut reader, &mut source).unwrap() else {
        panic!("no record")
    };
    assert_eq!(record.into_fields(), ["02", "\u{e9}x"]);
    let committed = reader.update().unwrap();
    // A line of another width, and a field boundary inside a character.
    assert_eq!(next_record(&mut reader, &mut source), Err(skippable()));
    assert_eq!(next_record(&mut reader, &mut source), Err(skippable()));
    let ReadOutcome::Item(record) = next_record(&mut reader, &mut source).unwrap() else {
        panic!("no record")
    };
    assert_eq!(record.fields(), ["04", "xyz"]);
    assert_eq!(next_record(&mut reader, &mut source), Ok(ReadOutcome::EndOfInput));

    let mut restarted = fixed_width_reader(layout());
    assert_eq!(restarted.open(Some(&committed)), Ok(StreamOpenOutcome::Restored));
    assert_eq!(next_record(&mut restarted, &mut Source::new(text, 2)), Err(skippable()));
    assert_eq!(restarted.seek_failed().category, FailureCategory::UserComponent);
    assert_eq!(
        restarted.read_failed().category,
        FailureCategory::TransientInfrastructure
    );
}

#[test]
fn fixed_width_bounds_do_not_count_the_terminator() {
    let bounded = || FixedWidthLayout::new(vec![FixedWidthField::new(3)]).with_max_record_bytes(3);
    for text in ["abc\n", "abc\r\n"] {
        let mut reader = fixed_width_reader(bounded());
        let mut source = Source::new(text.as_bytes(), 2);
        let ReadOutcome::Item(record) = next_record(&mut reader, &mut source).unwrap() else {
            panic!("no record")
        };
        assert_eq!(record.fields(), ["abc"]);
    }
    let mut reader = fixed_width_reader(bounded());
    assert_eq!(next_record(&mut reader, &mut Source::new(b"abcd\n", 9)), Err(skippable()));
}

#[test]
fn fixed_width_writing_never_pads_or_cuts() {
    let writer = fixed_width_writer(layout().with_terminator(FixedWidthTerminator::CrLf));
    let fitting = FixedWidthRecord::new(vec!["01".to_owned(), "abc".to_owned()]);
    assert_eq!(fitting.clone(), fitting);
    let bytes = writer.encode_batch(&[fitting]).unwrap();
    assert_eq!(bytes, b"01abc\r\n");
    let ReadOutcome::Item(record) =
        next_record(&mut fixed_width_reader(layout()), &mut Source::new(&bytes, 1)).unwrap()
    else {
        panic!("no record")
    };
    assert_eq!(record.fields(), ["01", "abc"]);
    for fields in [vec!["1", "abc"], vec!["01", "abcd"], vec!["01"]] {
        let fields: Vec<String> = fields.into_iter().map(str::to_owned).collect();
        let record = FixedWidthRecord::from(fields);
        assert!(!record.is_empty());
        assert!(writer.encode_batch(&[record]).is_err());
    }
    assert_eq!(layout().record_width(), 5);
    assert_eq!(layout().fields()[0].name(), Some("id"));
    assert_eq!(layout().fields()[1].width(), 3);
}

fn at(byte: u64) -> StoredPosition {
    StoredPosition { byte, line: 1, record: 0 }
}

fn parsed(fields: &[&str], headers: Option<&[&str]>) -> ParsedRecord {
    let owned = |texts: &[&str]| texts.iter().map(|text| text.to_string()).collect();
    ParsedRecord::Record { start: None, fields: owned(fields), headers: headers.map(owned) }
}

#[test]
fn delimited_failures_advance_only_past_consumed_bytes() {
    let dialect = DelimitedDialect::csv().with_max_record_bytes(4);
    let mut reader = delimited_reader(dialect);
    let read = |reader: &mut DelimitedReader, from, to, record| {
        reader.record_read(at(from), at(to), record)
    };
    assert_eq!(reader.seek_target(), None);
    let lost = ParsedRecord::Failed(FailureCategory::TransientInfrastructure);
    let error = read(&mut reader, 0, 0, lost).unwrap_err();
    assert_eq!(error, ReaderError::with_category(FailureCategory::TransientInfrastructure));
    assert_eq!(
        read(&mut reader, 0, 3, ParsedRecord::Failed(FailureCategory::UserComponent)).unwrap_err(),
        skippable()
    );
    let committed = reader.update().unwrap();
    assert_eq!(DelimitedPositionSchema.decode(&committed), Ok(at(3)));
    assert_eq!(
        read(&mut reader, 3, 8, parsed(&["abcd"], None)).unwrap_err(),
        skippable()
    );
    let ReadOutcome::Item(record) =
        read(&mut reader, 8, 12, parsed(&["a", "b"], Some(&["x", "y"]))).unwrap()
    else {
        panic!("no record")
    };
    assert_eq!((record.field("y"), record.get(0)), (Some("b"), Some("a")));
    assert_eq!(
        read(&mut reader, 12, 12, ParsedRecord::End),
        Ok(ReadOutcome::EndOfInput)
    );

    let after_headers = ParsedRecord::Record {
        start: Some(at(20)),
        fields: vec!["ab".to_owned()],
        headers: None,
    };
    assert!(matches!(read(&mut reader, 12, 24, after_headers), Ok(ReadOutcome::Item(_))));

    let mut restarted = delimited_reader(dialect);
    assert_eq!(restarted.open(Some(&committed)), Ok(StreamOpenOutcome::Restored));
    assert_eq!(restarted.seek_target(), Some(at(3)));
    assert_eq!(restarted.seek_target(), None);
    assert_eq!(restarted.seek_failed(), ReaderError::new());
    assert!(restarted.open(Some(b"{}")).is_err());
}

fn csv_fields(bytes: &[u8], delimiter: u8) -> Vec<Vec<String>> {
    let mut reader =
        csv::ReaderBuilder::new().has_headers(false).delimiter(delimiter).from_reader(bytes);
    reader
        .records()
        .map(|record| record.unwrap().iter().map(str::to_owned).collect())
        .collect()
}

fn delimited(fields: &[&str]) -> DelimitedRecord {
    DelimitedRecord::new(fields.iter().map(|field| field.to_string()).collect())
}

#[test]
fn a_delimited_batch_parses_back_in_its_dialect() {
    let records = [delimited(&["a", "b;c"]), delimited(&["say \"hi\"", "line\nbreak"])];
    let writer = delimited_writer(DelimitedDialect::csv().with_delimiter(b';'));
    let bytes = writer.encode_batch(&records).unwrap();
    assert_eq!(
        String::from_utf8(bytes.clone()).unwrap(),
        "a;\"b;c\"\n\"say \"\"hi\"\"\";\"line\nbreak\"\n"
    );
    assert_eq!(
        csv_fields(&bytes, b';'),
        [vec!["a", "b;c"], vec!["say \"hi\"", "line\nbreak"]]
    );
    let crlf = delimited_writer(
        DelimitedDialect::csv().with_terminator(DelimitedTerminator::CrLf),
    );
    assert_eq!(crlf.encode_batch(&[delimited(&["a", "b"])]).unwrap(), b"a,b\r\n");
    let uneven = [delimited(&["a", "b"]), delimited(&["c"])];
    assert!(crlf.encode_batch(&uneven).is_err());
    let flexible = delimited_writer(DelimitedDialect::csv().with_flexible(true));
    assert_eq!(flexible.encode_batch(&uneven).unwrap(), b"a,b\nc\n");
    let escaping = delimited_writer(
        DelimitedDialect::csv()
            .with_quote(b'\'')
            .with_escape(Some(b'\\'))
            .with_double_quote(false)
            .with_headers(false),
    );
    assert_eq!(escaping.encode_batch(&[delimited(&["it's", "x"])]).unwrap(), b"'it\\'s',x\n");
    assert_eq!(flexible.encode_batch(&[]).unwrap(), b"");
}

#[test]
fn csv_errors_of_the_source_are_transient() {
    let lost = csv::Error::from(std::io::Error::other("the source failed"));
    assert_eq!(classify_csv_error(&lost), FailureCategory::TransientInfrastructure);
    let mut reader = csv::Reader::from_reader(&b"a,b\n1\n"[..]);
    let malformed = reader.records().next().unwrap().unwrap_err();
    assert_eq!(classify_csv_error(&malformed), FailureCategory::UserComponent);
}

#[test]
fn delimited_records_and_positions() {
    let record = DelimitedRecord::from(vec!["x".to_owned()]);
    assert_eq!(record.clone(), record);
    assert_eq!((record.len(), record.is_empty(), record.field("x")), (1, false, None));
    assert_eq!(record.fields(), ["x"]);
    assert_eq!(record.into_fields(), ["x"]);
    let position = StoredPosition { byte: 10, line: 3, record: 2 };
    let bytes = DelimitedPositionSchema.encode(&position).unwrap();
    assert_eq!(DelimitedPositionSchema.decode(&bytes), Ok(position));
    assert!(DelimitedPositionSchema.decode(b"{\"byte\":1}").is_err());
    assert_eq!(DelimitedDialect::default(), DelimitedDialect::csv());
    assert_eq!(StoredPosition::start().byte, 0);
}

fn next_element(
    reader: &mut JsonArrayReader,
    source: &mut Source<'_>,
) -> Result<ReadOutcome<Value>, ReaderError> {
    let mut action = reader.read();
    loop {
        action = match action {
            ArrayAction::Return(result) => return result,
            ArrayAction::Seek(offset) => {
                source.at = offset as usize;
                reader.sought(true)
            }
            ArrayAction::Fill => {
                let (used, next) = reader.filled(source.available());
                source.at += used;
                next
            }
        };
    }
}

fn elements(text: &str, format: JsonArrayFormat, chunk: usize) -> Result<Vec<Value>, ReaderError> {
    let mut reader = json_array_reader(format);
    let mut source = Source::new(text.as_bytes(), chunk);
    let mut found = Vec::new();
    loop {
        match next_element(&mut reader, &mut source)? {
            ReadOutcome::Item(value) => found.push(value),
            _ => return Ok(found),
        }
    }
}

#[test]
fn array_elements_do_not_depend_on_how_the_source_is_cut() {
    let text = " [ 1 , {\"a\":[2,\"]\"]} ,12.5,null, \"x,y\" ] \n";
    let expected = vec![
        json("1"),
        json("{\"a\":[2,\"]\"]}"),
        json("12.5"),
        json("null"),
        json("\"x,y\""),
    ];
    for chunk in 1..=text.len() {
        assert_eq!(elements(text, JsonArrayFormat::new(), chunk), Ok(expected.clone()));
    }
    assert_eq!(elements("[]", JsonArrayFormat::default(), 1), Ok(vec![]));
}

#[test]
fn malformed_arrays_are_refused() {
    for text in ["", "1", "[1 2]", "[1,]", "[,1]", "[1", "[1]x", "[1}", "[tru]"] {
        for chunk in [1, 100] {
            assert!(elements(text, JsonArrayFormat::new(), chunk).is_err(), "{text}");
        }
    }
    let bounded = JsonArrayFormat::new().with_max_value_bytes(4);
    assert_eq!(elements("[1234,\"ab\"]", bounded, 3), Ok(vec![json("1234"), json("\"ab\"")]));
    assert!(elements("[12345]", bounded, 3).is_err());
}

#[test]
fn a_malformed_element_fails_alike_on_every_retry() {
    for (text, before) in
        [("[1, x]", 1), ("[1,,2]", 1), ("[1,", 1), ("[1] 2", 1), ("[1 2]", 0), ("[1", 0), ("1]", 0)]
    {
        let mut reader = json_array_reader(JsonArrayFormat::new());
        let mut source = Source::new(text.as_bytes(), 2);
        for _ in 0..before {
            let first = next_element(&mut reader, &mut source);
            assert_eq!(first, Ok(ReadOutcome::Item(json("1"))), "{text}");
        }
        let committed = reader.update().unwrap();
        for _ in 0..3 {
            assert_eq!(next_element(&mut reader, &mut source), Err(ReaderError::new()), "{text}");
            assert_eq!(reader.update().unwrap(), committed);
        }
    }
}

#[test]
fn an_array_restart_reads_on_after_the_committed_element() {
    let text = "[1, 22, 333, 4444]";
    for committed_after in 0..=4usize {
        let mut reader = json_array_reader(JsonArrayFormat::new());
        let mut source = Source::new(text.as_bytes(), 3);
        let mut found = Vec::new();
        for _ in 0..committed_after {
            if let ReadOutcome::Item(value) = next_element(&mut reader, &mut source).unwrap() {
                found.push(value);
            }
        }
        let committed = reader.update().unwrap();
        let mut restarted = json_array_reader(JsonArrayFormat::new());
        assert_eq!(restarted.open(Some(&committed)), Ok(StreamOpenOutcome::Restored));
        let mut source = Source::new(text.as_bytes(), 5);
        while let ReadOutcome::Item(value) = next_element(&mut restarted, &mut source).unwrap() {
            found.push(value);
        }
        assert_eq!(found, [json("1"), json("22"), json("333"), json("4444")]);
    }
}

#[test]
fn a_failed_array_source_keeps_the_checkpoint() {
    let text = "[1, 2]";
    let mut reader = json_array_reader(JsonArrayFormat::new());
    assert_eq!(reader.open(None), Ok(StreamOpenOutcome::Initial));
    let mut source = Source::new(text.as_bytes(), 2);
    next_element(&mut reader, &mut source).unwrap();
    let before = reader.update().unwrap();
    let mut action = reader.read();
    while let ArrayAction::Seek(offset) = action {
        source.at = offset as usize;
        action = reader.sought(true);
    }
    assert!(matches!(action, ArrayAction::Fill));
    // The source goes back to the last proven boundary before the failure is
    // reported.
    let ArrayAction::Seek(boundary) = reader.fill_failed() else { panic!("no restoration") };
    source.at = boundary as usize;
    let ArrayAction::Return(Err(error)) = reader.sought(true) else { panic!("no failure") };
    assert_eq!(error, ReaderError::with_category(FailureCategory::TransientInfrastructure));
    assert_eq!(reader.update().unwrap(), before);
    assert_eq!(next_element(&mut reader, &mut source), Ok(ReadOutcome::Item(json("2"))));
}

/// Writes a batch to a file held in memory, and commits it.
fn write_array(writer: &mut JsonArrayWriter, file: &mut Vec<u8>, items: &[Value]) {
    assert_eq!(writer.begins(&GO, items.len()), None);
    for (index, item) in items.iter().enumerate() {
        file.extend(writer.encode_item(index, item).unwrap());
    }
    let length = file.len() as u64;
    assert_eq!(writer.written(Some(length), items.len()), Ok(WriteOutcome::Written));
}

#[test]
fn a_written_array_reads_back_across_a_restart() {
    let mut file = Vec::new();
    let mut writer = json_array_writer();
    let plan = writer.open(None).unwrap();
    assert_eq!(plan, ArrayOpenPlan::Start);
    file.push(b'[');
    assert_eq!(writer.opened(plan, true), Ok(StreamOpenOutcome::Initial));
    write_array(&mut writer, &mut file, &[json("1"), json("[2]")]);
    let committed = writer.update().unwrap();
    // Bytes that were never committed.
    file.extend(writer.encode_item(0, &json("99")).unwrap());

    let mut restarted = json_array_writer();
    let plan = restarted.open(Some(&committed)).unwrap();
    let ArrayOpenPlan::Resume(position) = plan else { panic!("no restart") };
    assert_eq!(position, WriterPosition { committed_bytes: 6, committed_items: 2 });
    assert_eq!(
        restarted.reconcile(position, Some(file.len() as u64)),
        Ok(Reconciliation::Truncate)
    );
    assert_eq!(restarted.reconcile(position, Some(6)), Ok(Reconciliation::Keep));
    assert_eq!(
        restarted.reconcile(position, Some(5)).unwrap_err().category,
        FailureCategory::Invariant
    );
    assert!(restarted.reconcile(position, None).is_err());
    file.truncate(position.committed_bytes as usize);
    assert_eq!(restarted.opened(plan, true), Ok(StreamOpenOutcome::Restored));
    write_array(&mut restarted, &mut file, &[json("{\"c\":3}")]);
    assert_eq!(restarted.close(StreamRuntimeOutcome::Failed), None);
    let end = restarted.close(StreamRuntimeOutcome::Committed).unwrap();
    assert_eq!(end, file.len() as u64);
    file.push(b']');
    assert_eq!(String::from_utf8(file.clone()).unwrap(), "[1,[2],{\"c\":3}]");
    let text = String::from_utf8(file).unwrap();
    assert_eq!(
        elements(&text, JsonArrayFormat::new(), 2),
        Ok(vec![json("1"), json("[2]"), json("{\"c\":3}")])
    );
}

#[test]
fn array_writes_stop_skip_empty_batches_and_fail() {
    let mut writer = json_array_writer();
    assert_eq!(writer.begins(&STOP, 2), Some(WriteOutcome::Stopped));
    assert_eq!(writer.begins(&GO, 0), Some(WriteOutcome::Written));
    assert!(writer.written(None, 1).is_err());
    assert!(writer.open(Some(b"[]")).is_err());
    assert!(writer.opened(ArrayOpenPlan::Start, false).is_err());
    let position = WriterPosition { committed_bytes: 7, committed_items: 2 };
    let bytes = ArrayPositionSchema.encode(&position).unwrap();
    assert_eq!(ArrayPositionSchema.decode(&bytes), Ok(position));
}

#[test]
fn committed_outputs_are_reconciled_before_they_grow() {
    let mut output = CommittedOutput::new();
    assert_eq!(output.stops(&STOP), Some(WriteOutcome::Stopped));
    assert_eq!(output.stops(&GO), None);
    let target = output.open(None).unwrap();
    assert_eq!(target, OutputTarget { length: 0, restored: false });
    assert_eq!(output.reconcile(target, Some(9)), Ok(Reconciliation::Truncate));
    assert_eq!(output.opened(target, true), Ok(StreamOpenOutcome::Initial));
    assert_eq!(output.written_to(Some(8)), Ok(WriteOutcome::Written));
    assert!(output.written_to(None).is_err());
    let committed = output.update().unwrap();
    assert_eq!(WriterPositionSchema.decode(&committed), Ok(8));

    let mut restarted = CommittedOutput::default();
    let target = restarted.open(Some(&committed)).unwrap();
    assert_eq!(target, OutputTarget { length: 8, restored: true });
    assert_eq!(restarted.reconcile(target, Some(8)), Ok(Reconciliation::Keep));
    assert_eq!(
        restarted.reconcile(target, Some(7)).unwrap_err().category,
        FailureCategory::Invariant
    );
    assert!(restarted.reconcile(target, None).is_err());
    assert!(restarted.opened(target, false).is_err());
    assert_eq!(restarted.opened(target, true), Ok(StreamOpenOutcome::Restored));
    assert!(restarted.open(Some(b"?")).is_err());
}

#[test]
fn byte_positions_round_trip() {
    let bytes = ReaderPositionSchema.encode(u64::MAX).unwrap();
    assert_eq!(String::from_utf8(bytes.clone()).unwrap(), "{\"byte\":18446744073709551615}");
    assert_eq!(ReaderPositionSchema.decode(&bytes), Ok(u64::MAX));
    assert!(ReaderPositionSchema.decode(b"{\"byte\":1.5}").is_err());
    let bytes = WriterPositionSchema.encode(7).unwrap();
    assert_eq!(String::from_utf8(bytes).unwrap(), "{\"committed_bytes\":7}");
}
