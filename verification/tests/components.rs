//! The basic, composite and decorating components.

use oxide_batch::item_components::aggregate::{AggregateAction, AggregatingReader};
use oxide_batch::item_components::basic::{IdentityProcessor, IterReader, NoopWriter};
use oxide_batch::item_components::classify::{
    ClassifiedCall, ClassifiedWrite, Classifier, ClassifyingProcessor, ClassifyingWriter,
};
use oxide_batch::item_components::composite::{
    ChainAction, ChainProcessor, CompositeAction, CompositeReader, FanOutAction, FanOutWriter,
};
use oxide_batch::item_components::filter::{FilterProcessor, ItemFilter};
use oxide_batch::item_components::peek::{PeekOutcome, PeekReader};
use oxide_batch::item_components::validate::{ItemValidator, ValidatingProcessor};
use oxide_batch::plan::node::ChunkSize;
use oxide_batch::runtime::{
    FailureCategory, ProcessOutcome, ProcessorError, ReadOutcome, ReaderError, StopToken,
    WriteOutcome, WriterError,
};
use std::collections::HashMap;

const GO: StopToken = StopToken { requested: false };
const STOP: StopToken = StopToken { requested: true };

fn read_failure() -> ReaderError {
    ReaderError::with_category(FailureCategory::TransientInfrastructure)
}

#[test]
fn an_iterator_is_read_in_its_own_order() {
    let mut reader = IterReader::new(vec![1, 2].into_iter());
    assert_eq!(reader.read(), Ok(ReadOutcome::Item(1)));
    assert_eq!(reader.read(), Ok(ReadOutcome::Item(2)));
    assert_eq!(reader.read(), Ok(ReadOutcome::EndOfInput));
    assert_eq!(reader.read(), Ok(ReadOutcome::EndOfInput));
}

#[test]
fn identity_and_noop_only_observe_the_stop() {
    let item = "x".to_owned();
    assert_eq!(
        IdentityProcessor.process(&item, &GO),
        Ok(ProcessOutcome::Item("x".to_owned()))
    );
    assert_eq!(IdentityProcessor.process(&item, &STOP), Ok(ProcessOutcome::Stopped));
    assert_eq!(NoopWriter.write(&[1, 2], &GO), Ok(WriteOutcome::Written));
    assert_eq!(NoopWriter.write(&[1, 2], &STOP), Ok(WriteOutcome::Stopped));
}

#[test]
fn filtering_keeps_or_drops_and_asks_nothing_when_stopping() {
    let even = FilterProcessor::new(|item: &u32| item % 2 == 0);
    assert_eq!(even.process(&4, &GO), Ok(ProcessOutcome::Item(4)));
    assert_eq!(even.process(&5, &GO), Ok(ProcessOutcome::Filtered));
    assert_eq!(even.process(&4, &STOP), Ok(ProcessOutcome::Stopped));
    assert!(even.predicate.keep(&2));
}

#[test]
fn an_invalid_item_fails_with_the_validators_own_error() {
    let small = ValidatingProcessor::new(|item: &u32| {
        if *item < 10 {
            Ok(())
        } else {
            Err(ProcessorError::with_category(FailureCategory::Invariant))
        }
    });
    assert_eq!(small.process(&9, &GO), Ok(ProcessOutcome::Item(9)));
    assert_eq!(
        small.process(&10, &GO),
        Err(ProcessorError::with_category(FailureCategory::Invariant))
    );
    assert_eq!(small.process(&10, &STOP), Ok(ProcessOutcome::Stopped));
    assert!(small.validator.validate(&3).is_ok());
}

#[test]
fn peeking_shows_what_is_read_next_and_never_keeps_a_failure() {
    let mut reader: PeekReader<u32, ()> = PeekReader::new(());
    assert!(reader.peek().is_none());
    assert!(reader.read().is_none());
    assert_eq!(reader.looked_ahead(Err(read_failure())), Err(read_failure()));
    assert!(reader.peek().is_none());
    reader.looked_ahead(Ok(ReadOutcome::Item(7))).unwrap();
    assert_eq!(reader.peek(), Some(PeekOutcome::Item(&7)));
    assert_eq!(reader.peek(), Some(PeekOutcome::Item(&7)));
    assert_eq!(reader.read(), Some(ReadOutcome::Item(7)));
    assert!(reader.read().is_none());
    reader.looked_ahead(Ok(ReadOutcome::Stopped)).unwrap();
    assert_eq!(reader.peek(), Some(PeekOutcome::Stopped));
    assert_eq!(reader.read(), Some(ReadOutcome::Stopped));
    reader.looked_ahead(Ok(ReadOutcome::EndOfInput)).unwrap();
    assert_eq!(reader.peek(), Some(PeekOutcome::EndOfInput));
}

/// Reads one group from what the delegate answers.
fn group<R, F>(
    reader: &mut AggregatingReader<u32, R, F>,
    answers: &mut dyn Iterator<Item = Result<ReadOutcome<u32>, ReaderError>>,
) -> Result<ReadOutcome<Vec<u32>>, ReaderError> {
    let mut action = reader.read();
    loop {
        match action {
            AggregateAction::Return(result) => return result,
            AggregateAction::ReadDelegate => {
                action = reader.delegate_read(answers.next().unwrap());
            }
        }
    }
}

#[test]
fn aggregation_groups_by_the_bound_and_emits_the_rest_once() {
    let mut reader = AggregatingReader::new((), ChunkSize::new(2).unwrap(), ());
    let mut answers = (1..=5)
        .map(|item| Ok(ReadOutcome::Item(item)))
        .chain(std::iter::once(Ok(ReadOutcome::EndOfInput)));
    assert_eq!(group(&mut reader, &mut answers), Ok(ReadOutcome::Item(vec![1, 2])));
    assert_eq!(group(&mut reader, &mut answers), Ok(ReadOutcome::Item(vec![3, 4])));
    assert_eq!(group(&mut reader, &mut answers), Ok(ReadOutcome::Item(vec![5])));
    assert_eq!(group(&mut reader, &mut answers), Ok(ReadOutcome::EndOfInput));
    assert_eq!(group(&mut reader, &mut answers), Ok(ReadOutcome::EndOfInput));
}

#[test]
fn aggregate_retry_after_failure_resumes_the_preserved_buffer() {
    let mut reader = AggregatingReader::new((), ChunkSize::new(3).unwrap(), ());
    let mut answers = vec![
        Ok(ReadOutcome::Item(1)),
        Err(read_failure()),
        Ok(ReadOutcome::Item(2)),
        Ok(ReadOutcome::Item(3)),
    ]
    .into_iter();
    assert_eq!(group(&mut reader, &mut answers), Err(read_failure()));
    assert_eq!(reader.buffer, [1]);
    assert_eq!(group(&mut reader, &mut answers), Ok(ReadOutcome::Item(vec![1, 2, 3])));
}

#[test]
fn a_stop_discards_the_group_in_the_making() {
    let mut reader = AggregatingReader::new((), ChunkSize::new(3).unwrap(), ());
    let mut answers = vec![Ok(ReadOutcome::Item(1)), Ok(ReadOutcome::Stopped)].into_iter();
    assert_eq!(group(&mut reader, &mut answers), Ok(ReadOutcome::Stopped));
    assert!(reader.buffer.is_empty());
    let mut answers = vec![Ok(ReadOutcome::EndOfInput)].into_iter();
    assert_eq!(group(&mut reader, &mut answers), Ok(ReadOutcome::EndOfInput));
}

/// Reads one outcome of a composite over scripted delegates.
fn composite_read(
    reader: &mut CompositeReader<Vec<Result<ReadOutcome<u32>, ReaderError>>>,
) -> Result<ReadOutcome<u32>, ReaderError> {
    let mut action = reader.read();
    loop {
        match action {
            CompositeAction::Return(result) => return result,
            CompositeAction::ReadDelegate => {
                let answer = reader.delegates[reader.current].remove(0);
                action = reader.delegate_read(answer);
            }
        }
    }
}

#[test]
fn composite_reader_retry_after_failure_resumes_the_same_delegate() {
    let mut reader = CompositeReader::new(vec![
        vec![Ok(ReadOutcome::Item(1)), Ok(ReadOutcome::EndOfInput)],
        vec![
            Err(read_failure()),
            Ok(ReadOutcome::Item(2)),
            Ok(ReadOutcome::Stopped),
            Ok(ReadOutcome::EndOfInput),
        ],
    ]);
    assert_eq!(composite_read(&mut reader), Ok(ReadOutcome::Item(1)));
    assert_eq!(composite_read(&mut reader), Err(read_failure()));
    assert_eq!(reader.current, 1);
    assert_eq!(composite_read(&mut reader), Ok(ReadOutcome::Item(2)));
    assert_eq!(composite_read(&mut reader), Ok(ReadOutcome::Stopped));
    assert_eq!(composite_read(&mut reader), Ok(ReadOutcome::EndOfInput));
    assert_eq!(composite_read(&mut reader), Ok(ReadOutcome::EndOfInput));
}

#[test]
fn a_chain_hands_only_items_to_its_second_stage() {
    let chain = ChainProcessor::new((), ());
    let action: ChainAction<u32, u32> = chain.first_processed(Ok(ProcessOutcome::Item(3)));
    assert!(matches!(action, ChainAction::Second(3)));
    let action: ChainAction<u32, u32> = chain.first_processed(Ok(ProcessOutcome::Filtered));
    assert!(matches!(action, ChainAction::Return(Ok(ProcessOutcome::Filtered))));
    let action: ChainAction<u32, u32> = chain.first_processed(Ok(ProcessOutcome::Stopped));
    assert!(matches!(action, ChainAction::Return(Ok(ProcessOutcome::Stopped))));
    let error = ProcessorError::with_category(FailureCategory::Timeout);
    let action: ChainAction<u32, u32> = chain.first_processed(Err(error));
    assert!(matches!(action, ChainAction::Return(Err(found)) if found == error));
}

#[test]
fn fan_out_calls_its_delegates_in_order_until_one_does_not_write() {
    let writer = FanOutWriter::new(vec![(), (), ()]);
    assert_eq!(writer.write(&STOP), FanOutAction::Return(Ok(WriteOutcome::Stopped)));
    assert_eq!(writer.write(&GO), FanOutAction::Write(0));
    assert_eq!(writer.delegate_wrote(0, Ok(WriteOutcome::Written)), FanOutAction::Write(1));
    assert_eq!(
        writer.delegate_wrote(1, Ok(WriteOutcome::Stopped)),
        FanOutAction::Return(Ok(WriteOutcome::Stopped))
    );
    let error = WriterError::with_category(FailureCategory::Timeout);
    assert_eq!(writer.delegate_wrote(1, Err(error)), FanOutAction::Return(Err(error)));
    assert_eq!(
        writer.delegate_wrote(2, Ok(WriteOutcome::Written)),
        FanOutAction::Return(Ok(WriteOutcome::Written))
    );
    let empty: FanOutWriter<()> = FanOutWriter::new(vec![]);
    assert_eq!(empty.write(&GO), FanOutAction::Return(Ok(WriteOutcome::Written)));
}

fn by_parity() -> HashMap<u64, &'static str> {
    HashMap::from([(0, "even"), (1, "odd")])
}

#[test]
fn classified_items_go_to_the_delegate_of_their_key() {
    let processor = ClassifyingProcessor::new(by_parity(), |item: &u64| item % 3);
    let call: ClassifiedCall<'_, &str, u64> = processor.process(&4, &GO);
    assert!(matches!(call, ClassifiedCall::Delegate(&"odd")));
    let call: ClassifiedCall<'_, &str, u64> = processor.process(&5, &GO);
    assert!(matches!(call, ClassifiedCall::Return(Err(error)) if error == ProcessorError::new()));
    let call: ClassifiedCall<'_, &str, u64> = processor.process(&5, &STOP);
    assert!(matches!(call, ClassifiedCall::Return(Ok(ProcessOutcome::Stopped))));
    assert_eq!(processor.classifier.classify(&7), 1);
}

#[test]
fn classified_writes_keep_the_batch_order() {
    let writer = ClassifyingWriter::new(by_parity(), |item: &u64| item % 3);
    let items = [4, 3, 5];
    let mut routed = Vec::new();
    let mut step = writer.write(&items, &GO);
    let result = loop {
        match step {
            ClassifiedWrite::Return(result) => break result,
            ClassifiedWrite::Write { index, delegate } => {
                routed.push((index, *delegate));
                step = writer.delegate_wrote(&items, index, Ok(WriteOutcome::Written));
            }
        }
    };
    assert_eq!(routed, [(0, "odd"), (1, "even")]);
    assert_eq!(result, Err(WriterError::new()));
    let stopped = writer.write(&items, &STOP);
    assert!(matches!(stopped, ClassifiedWrite::Return(Ok(WriteOutcome::Stopped))));
    let halted = writer.delegate_wrote(&items, 0, Ok(WriteOutcome::Stopped));
    assert!(matches!(halted, ClassifiedWrite::Return(Ok(WriteOutcome::Stopped))));
    let done = writer.delegate_wrote(&items, 2, Ok(WriteOutcome::Written));
    assert!(matches!(done, ClassifiedWrite::Return(Ok(WriteOutcome::Written))));
}
