//! Multi-resource input and output, over delegates in memory and over objects of
//! a store.

use oxide_batch::component_state::{ComponentStateEnvelope, StatePayload};
use oxide_batch::item_components::multi_resource::error::{
    MultiResourceOpenError, WriterConfigError,
};
use oxide_batch::item_components::multi_resource::identity::{
    MultiResourceConfigError, ResourceIdentity, ResourceSet, ResourceSetRevision,
    MAX_RESOURCE_IDENTITY_BYTES,
};
use oxide_batch::item_components::multi_resource::reader::{
    close_result, multi_resource_reader, EnterFailure, MultiResourceReader, OpenAction, ReadAction,
    ResumeAction,
};
use oxide_batch::item_components::multi_resource::state::{
    DelegateEnvelopeColumns, MultiResourcePositionSchema, MultiResourceState,
};
use oxide_batch::item_components::multi_resource::writer::{
    multi_resource_writer, BatchCountRollover, MultiResourceWriter, NoRollover, RolloverPolicy,
    WriteAction,
};
use oxide_batch::item_components::object_store::identity::{
    ObjectIdentity, ObjectMetadata, ObjectStoreConfigError, ObjectStoreError, ObjectVersionToken,
    MAX_OBJECT_KEY_BYTES,
};
use oxide_batch::item_components::object_store::memory::{InMemoryObjectStore, ObjectListPage};
use oxide_batch::item_components::object_store::position::{
    ObjectReadPosition, ObjectReadPositionSchema, ObjectWritePositionSchema, OBJECT_READ_CODEC,
    OBJECT_READ_SCHEMA, OBJECT_WRITE_CODEC, OBJECT_WRITE_SCHEMA,
};
use oxide_batch::item_components::object_store::reader::{
    ObjectItemReader, ObjectItemReaderStream, ObjectStoreReaderOpener,
};
use oxide_batch::item_components::object_store::writer::{
    ObjectItemWriter, ObjectItemWriterStream, ObjectOpenAction, ObjectStoreWriterOpener,
    ObjectWriteAction, WriteAccumulator,
};
use oxide_batch::item_components::peek::{PeekOutcome, PeekReader};
use oxide_batch::item_stream::{
    StreamCloseError, StreamOpenError, StreamOpenOutcome, StreamRuntimeOutcome, StreamUpdateError,
};
use oxide_batch::runtime::{
    FailureCategory, ReadOutcome, ReaderError, StateCodecError, StopToken, WriteOutcome,
    WriterError,
};
use oxide_batch::tokens::ComponentStreamIdentity;
use std::cell::{Cell, RefCell};
use std::collections::{BTreeMap, HashMap, HashSet};
use std::rc::Rc;
use std::sync::Mutex;

const GO: StopToken = StopToken { requested: false };
const STOP: StopToken = StopToken { requested: true };

fn identity(name: &str) -> ComponentStreamIdentity {
    ComponentStreamIdentity::new(&format!("oxide-batch.multi-resource-unit-test.{name}"))
}

fn resource_set(names: &[&str]) -> ResourceSet {
    ResourceSet::new(names.iter().map(|name| ResourceIdentity::new(name).unwrap()).collect())
}

/// The delegates of a multi-resource input.
trait ReadWorld {
    type Reader;
    type Stream;
    type Item;

    fn open(
        &self,
        resource: &ResourceIdentity,
        ordinal: u32,
        identity: &ComponentStreamIdentity,
    ) -> Result<(Self::Reader, Self::Stream), MultiResourceOpenError>;

    fn open_stream(
        &self,
        stream: &Self::Stream,
        inherited: Option<&ComponentStateEnvelope>,
    ) -> Result<StreamOpenOutcome, StreamOpenError>;

    fn read(&self, reader: &mut Self::Reader) -> Result<ReadOutcome<Self::Item>, ReaderError>;

    fn update(&self, stream: &Self::Stream) -> Result<ComponentStateEnvelope, StreamUpdateError>;

    fn close(
        &self,
        stream: &Self::Stream,
        outcome: StreamRuntimeOutcome,
    ) -> Result<(), StreamCloseError>;
}

/// A multi-resource input driven over its delegates.
struct Input<W: ReadWorld> {
    machine: MultiResourceReader<W::Reader, W::Stream>,
    world: W,
}

impl<W: ReadWorld> Input<W> {
    fn new(resources: ResourceSet, world: W, identity: ComponentStreamIdentity) -> Self {
        Input { machine: multi_resource_reader(resources, identity), world }
    }

    fn open(&mut self, inherited: Option<&[u8]>) -> Result<StreamOpenOutcome, StreamOpenError> {
        let point = match self.machine.open(inherited) {
            OpenAction::Return(result) => return result,
            OpenAction::OpenResource(point) => point,
        };
        let resource = self.machine.resource(point.index).unwrap().clone();
        let opened = self.world.open(&resource, point.index, self.machine.identity());
        let checked = match &opened {
            Ok(_) => Ok(()),
            Err(error) => Err(*error),
        };
        match self.machine.resumed_resource_opened(&point, checked) {
            ResumeAction::Return(result) => result,
            ResumeAction::OpenStream(envelope) => {
                let (reader, stream) = opened.unwrap();
                let result = self.world.open_stream(&stream, envelope.as_ref());
                self.machine.resumed(&point, result.map(|_| (reader, stream)))
            }
        }
    }

    fn read(&mut self) -> Result<ReadOutcome<W::Item>, ReaderError> {
        let mut action = self.machine.read();
        loop {
            action = match action {
                ReadAction::Return(result) => return result,
                ReadAction::ReadDelegate => {
                    let result = self.world.read(self.machine.delegate_reader().unwrap());
                    self.machine.delegate_read(result)
                }
                ReadAction::CloseDelegate(outcome) => {
                    let stream = self.machine.delegate_stream().unwrap();
                    let result = self.world.close(stream, outcome);
                    self.machine.delegate_closed(result)
                }
                ReadAction::OpenResource(index) => {
                    let resource = self.machine.resource(index).unwrap().clone();
                    let opened = self.world.open(&resource, index, self.machine.identity());
                    let entered = match opened {
                        Err(error) => Err(EnterFailure::Resource(error)),
                        Ok((reader, stream)) => match self.world.open_stream(&stream, None) {
                            Ok(_) => Ok((reader, stream)),
                            Err(error) => Err(EnterFailure::Stream(error)),
                        },
                    };
                    self.machine.resource_opened(entered)
                }
            };
        }
    }

    fn update(&self) -> Result<Vec<u8>, StreamUpdateError> {
        let delegate = self.machine.delegate_stream().map(|stream| self.world.update(stream));
        self.machine.update(delegate)
    }

    fn close(&self, outcome: StreamRuntimeOutcome) -> Result<(), StreamCloseError> {
        match self.machine.close() {
            None => Ok(()),
            Some(stream) => close_result(self.world.close(stream, outcome)),
        }
    }

    fn drain(&mut self) -> Vec<W::Item> {
        let mut collected = Vec::new();
        loop {
            match self.read().unwrap() {
                ReadOutcome::Item(item) => collected.push(item),
                ReadOutcome::EndOfInput => return collected,
                ReadOutcome::Stopped => panic!("unexpected stop"),
            }
        }
    }
}

/// The delegates of a multi-resource output.
trait WriteWorld {
    type Writer;
    type Stream;
    type Item;

    fn open(
        &self,
        resource: &ResourceIdentity,
        ordinal: u32,
        identity: &ComponentStreamIdentity,
    ) -> Result<(Self::Writer, Self::Stream), MultiResourceOpenError>;

    fn open_stream(
        &self,
        stream: &Self::Stream,
        inherited: Option<&ComponentStateEnvelope>,
    ) -> Result<StreamOpenOutcome, StreamOpenError>;

    fn write(
        &self,
        writer: &Self::Writer,
        items: &[Self::Item],
        stop: &StopToken,
    ) -> Result<WriteOutcome, WriterError>;

    fn update(&self, stream: &Self::Stream) -> Result<ComponentStateEnvelope, StreamUpdateError>;

    fn close(
        &self,
        stream: &Self::Stream,
        outcome: StreamRuntimeOutcome,
    ) -> Result<(), StreamCloseError>;
}

/// A multi-resource output driven over its delegates.
struct Output<W: WriteWorld, P: RolloverPolicy> {
    machine: MultiResourceWriter<W::Writer, W::Stream, P>,
    world: W,
}

impl<W: WriteWorld, P: RolloverPolicy> Output<W, P> {
    fn new(
        resources: ResourceSet,
        world: W,
        identity: ComponentStreamIdentity,
        rollover: P,
    ) -> Result<Self, WriterConfigError> {
        let machine = multi_resource_writer(resources, identity, rollover)?;
        Ok(Output { machine, world })
    }

    fn open(&mut self, inherited: Option<&[u8]>) -> Result<StreamOpenOutcome, StreamOpenError> {
        let point = match self.machine.open(inherited) {
            OpenAction::Return(result) => return result,
            OpenAction::OpenResource(point) => point,
        };
        let resource = self.machine.resource(point.index).unwrap().clone();
        let opened = self.world.open(&resource, point.index, self.machine.identity());
        let checked = match &opened {
            Ok(_) => Ok(()),
            Err(error) => Err(*error),
        };
        match self.machine.resumed_resource_opened(&point, checked) {
            ResumeAction::Return(result) => result,
            ResumeAction::OpenStream(envelope) => {
                let (writer, stream) = opened.unwrap();
                let result = self.world.open_stream(&stream, envelope.as_ref());
                self.machine.resumed(&point, result.map(|_| (writer, stream)))
            }
        }
    }

    fn write_with(
        &mut self,
        items: &[W::Item],
        stop: &StopToken,
    ) -> Result<WriteOutcome, WriterError> {
        let mut action = self.machine.write(stop);
        loop {
            action = match action {
                WriteAction::Return(result) => return result,
                WriteAction::CloseDelegate(outcome) => {
                    let stream = &self.machine.active().unwrap().stream;
                    let result = self.world.close(stream, outcome);
                    self.machine.delegate_closed(result)
                }
                WriteAction::OpenResource(index) => {
                    let resource = self.machine.resource(index).unwrap().clone();
                    let opened = self.world.open(&resource, index, self.machine.identity());
                    let entered = match opened {
                        Err(error) => Err(EnterFailure::Resource(error)),
                        Ok((writer, stream)) => match self.world.open_stream(&stream, None) {
                            Ok(_) => Ok((writer, stream)),
                            Err(error) => Err(EnterFailure::Stream(error)),
                        },
                    };
                    self.machine.resource_opened(entered)
                }
                WriteAction::WriteDelegate => {
                    let writer = &self.machine.active().unwrap().writer;
                    let result = self.world.write(writer, items, stop);
                    return self.machine.delegate_wrote(result);
                }
            };
        }
    }

    fn write(&mut self, items: &[W::Item]) -> Result<WriteOutcome, WriterError> {
        self.write_with(items, &GO)
    }

    fn update(&self) -> Result<Vec<u8>, StreamUpdateError> {
        let delegate = self.machine.active().map(|active| self.world.update(&active.stream));
        self.machine.update(delegate)
    }

    fn close(&self, outcome: StreamRuntimeOutcome) -> Result<(), StreamCloseError> {
        match self.machine.close() {
            None => Ok(()),
            Some(stream) => close_result(self.world.close(stream, outcome)),
        }
    }
}

fn envelope(namespace: &ComponentStreamIdentity, payload: String) -> ComponentStateEnvelope {
    ComponentStateEnvelope {
        namespace: namespace.clone(),
        schema_id: "oxide-batch.multi-resource-unit-test.vec-read-position".to_owned(),
        schema_version: 1,
        codec_id: "oxide-batch.multi-resource-unit-test.vec-read-position-codec".to_owned(),
        codec_version: 1,
        checksum_algorithm: 1,
        checksum_algorithm_version: 1,
        checksum: [7; 32],
        payload: StatePayload::Inline(payload.into_bytes()),
    }
}

fn ordinal_of(envelope: &ComponentStateEnvelope) -> u64 {
    let StatePayload::Inline(bytes) = &envelope.payload else { panic!("inline payload") };
    let value: serde_json::Value = serde_json::from_slice(bytes).unwrap();
    value.get("ordinal").unwrap().as_u64().unwrap()
}

fn ordinal_payload(ordinal: u64) -> String {
    format!("{{\"ordinal\":{ordinal}}}")
}

#[derive(Debug, Clone, PartialEq, Eq)]
enum LifecycleEvent {
    Open(String),
    Update(String),
    Close(String, StreamRuntimeOutcome),
}

type Log = Rc<RefCell<Vec<LifecycleEvent>>>;

/// Delegates in memory that record their lifecycle and can be made to fail.
#[derive(Default)]
struct Memory {
    data: HashMap<String, Vec<u64>>,
    sink: Rc<RefCell<HashMap<String, Vec<u64>>>>,
    log: Log,
    fail_open: HashSet<String>,
    fail_close_once: RefCell<HashSet<String>>,
    reported_namespace: Option<ComponentStreamIdentity>,
}

struct VecReader {
    items: Vec<u64>,
    ordinal: Rc<Cell<u64>>,
}

struct VecWriter {
    resource: String,
    committed: Rc<Cell<u64>>,
}

struct VecStream {
    resource: String,
    position: Rc<Cell<u64>>,
    namespace: ComponentStreamIdentity,
}

impl Memory {
    fn with_data(entries: &[(&str, &[u64])]) -> Self {
        let data = entries.iter().map(|(name, items)| (name.to_string(), items.to_vec())).collect();
        Memory { data, ..Memory::default() }
    }

    fn stream(
        &self,
        resource: &ResourceIdentity,
        position: &Rc<Cell<u64>>,
        identity: &ComponentStreamIdentity,
    ) -> VecStream {
        VecStream {
            resource: resource.as_str().to_owned(),
            position: Rc::clone(position),
            namespace: identity.clone(),
        }
    }

    fn stream_open(
        &self,
        stream: &VecStream,
        inherited: Option<&ComponentStateEnvelope>,
    ) -> Result<StreamOpenOutcome, StreamOpenError> {
        self.log.borrow_mut().push(LifecycleEvent::Open(stream.resource.clone()));
        match inherited {
            Some(envelope) => {
                stream.position.set(ordinal_of(envelope));
                Ok(StreamOpenOutcome::Restored)
            }
            None => {
                stream.position.set(0);
                Ok(StreamOpenOutcome::Initial)
            }
        }
    }

    fn stream_update(
        &self,
        stream: &VecStream,
    ) -> Result<ComponentStateEnvelope, StreamUpdateError> {
        self.log.borrow_mut().push(LifecycleEvent::Update(stream.resource.clone()));
        let namespace = self.reported_namespace.as_ref().unwrap_or(&stream.namespace);
        Ok(envelope(namespace, ordinal_payload(stream.position.get())))
    }

    fn stream_close(
        &self,
        stream: &VecStream,
        outcome: StreamRuntimeOutcome,
    ) -> Result<(), StreamCloseError> {
        self.log.borrow_mut().push(LifecycleEvent::Close(stream.resource.clone(), outcome));
        if self.fail_close_once.borrow_mut().remove(&stream.resource) {
            return Err(StreamCloseError::new());
        }
        Ok(())
    }
}

impl ReadWorld for Memory {
    type Reader = VecReader;
    type Stream = VecStream;
    type Item = u64;

    fn open(
        &self,
        resource: &ResourceIdentity,
        ordinal: u32,
        identity: &ComponentStreamIdentity,
    ) -> Result<(VecReader, VecStream), MultiResourceOpenError> {
        if self.fail_open.contains(resource.as_str()) {
            return Err(MultiResourceOpenError::new(ordinal));
        }
        let items = self.data.get(resource.as_str()).cloned().unwrap_or_default();
        let position = Rc::new(Cell::new(0));
        let stream = self.stream(resource, &position, identity);
        Ok((VecReader { items, ordinal: position }, stream))
    }

    fn open_stream(
        &self,
        stream: &VecStream,
        inherited: Option<&ComponentStateEnvelope>,
    ) -> Result<StreamOpenOutcome, StreamOpenError> {
        self.stream_open(stream, inherited)
    }

    fn read(&self, reader: &mut VecReader) -> Result<ReadOutcome<u64>, ReaderError> {
        match reader.items.get(reader.ordinal.get() as usize) {
            Some(item) => {
                reader.ordinal.set(reader.ordinal.get() + 1);
                Ok(ReadOutcome::Item(*item))
            }
            None => Ok(ReadOutcome::EndOfInput),
        }
    }

    fn update(&self, stream: &VecStream) -> Result<ComponentStateEnvelope, StreamUpdateError> {
        self.stream_update(stream)
    }

    fn close(
        &self,
        stream: &VecStream,
        outcome: StreamRuntimeOutcome,
    ) -> Result<(), StreamCloseError> {
        self.stream_close(stream, outcome)
    }
}

impl WriteWorld for Memory {
    type Writer = VecWriter;
    type Stream = VecStream;
    type Item = u64;

    fn open(
        &self,
        resource: &ResourceIdentity,
        ordinal: u32,
        identity: &ComponentStreamIdentity,
    ) -> Result<(VecWriter, VecStream), MultiResourceOpenError> {
        if self.fail_open.contains(resource.as_str()) {
            return Err(MultiResourceOpenError::new(ordinal));
        }
        let position = Rc::new(Cell::new(0));
        let stream = self.stream(resource, &position, identity);
        Ok((VecWriter { resource: resource.as_str().to_owned(), committed: position }, stream))
    }

    fn open_stream(
        &self,
        stream: &VecStream,
        inherited: Option<&ComponentStateEnvelope>,
    ) -> Result<StreamOpenOutcome, StreamOpenError> {
        self.stream_open(stream, inherited)
    }

    fn write(
        &self,
        writer: &VecWriter,
        items: &[u64],
        stop: &StopToken,
    ) -> Result<WriteOutcome, WriterError> {
        if stop.is_stop_requested() {
            return Ok(WriteOutcome::Stopped);
        }
        let mut sink = self.sink.borrow_mut();
        sink.entry(writer.resource.clone()).or_default().extend_from_slice(items);
        writer.committed.set(writer.committed.get() + items.len() as u64);
        Ok(WriteOutcome::Written)
    }

    fn update(&self, stream: &VecStream) -> Result<ComponentStateEnvelope, StreamUpdateError> {
        self.stream_update(stream)
    }

    fn close(
        &self,
        stream: &VecStream,
        outcome: StreamRuntimeOutcome,
    ) -> Result<(), StreamCloseError> {
        self.stream_close(stream, outcome)
    }
}

fn opened(name: &str) -> LifecycleEvent {
    LifecycleEvent::Open(name.to_owned())
}

fn updated(name: &str) -> LifecycleEvent {
    LifecycleEvent::Update(name.to_owned())
}

fn boundary(name: &str) -> LifecycleEvent {
    LifecycleEvent::Close(name.to_owned(), StreamRuntimeOutcome::ResourceBoundary)
}

fn state_of(bytes: &[u8]) -> MultiResourceState {
    MultiResourcePositionSchema.decode(bytes).unwrap()
}

#[test]
fn resource_identity_rejects_one_byte_past_its_ceiling() {
    assert!(ResourceIdentity::new(&"x".repeat(MAX_RESOURCE_IDENTITY_BYTES)).is_ok());
    let error = ResourceIdentity::new(&"x".repeat(MAX_RESOURCE_IDENTITY_BYTES + 1))
        .expect_err("one byte past the ceiling must be refused, not silently truncated");
    assert_eq!(
        error,
        MultiResourceConfigError::ResourceIdentityTooLong {
            max_bytes: MAX_RESOURCE_IDENTITY_BYTES
        }
    );
}

#[test]
fn resource_identity_rejects_empty_and_control_characters() {
    assert_eq!(
        ResourceIdentity::new(""),
        Err(MultiResourceConfigError::EmptyResourceIdentity)
    );
    assert_eq!(
        ResourceIdentity::new("a\nb"),
        Err(MultiResourceConfigError::MalformedResourceIdentity)
    );
}

#[test]
fn ordered_traversal_across_resources_reads_in_declared_order() {
    let world = Memory::with_data(&[("a", &[1, 2]), ("b", &[3]), ("c", &[4, 5])]);
    let mut input = Input::new(resource_set(&["a", "b", "c"]), world, identity("ordered"));
    input.open(None).unwrap();
    let mut collected = Vec::new();
    loop {
        match input.read().unwrap() {
            ReadOutcome::Item(item) => collected.push(item),
            ReadOutcome::EndOfInput => break,
            ReadOutcome::Stopped => panic!("unexpected stop"),
        }
    }
    assert_eq!(collected, vec![1, 2, 3, 4, 5]);
    assert_eq!(input.read(), Ok(ReadOutcome::EndOfInput));
}

#[test]
fn empty_resource_set_reader_returns_end_of_input_immediately() {
    let mut input = Input::new(resource_set(&[]), Memory::default(), identity("empty"));
    input.open(None).unwrap();
    assert_eq!(input.read().unwrap(), ReadOutcome::EndOfInput);
}

#[test]
fn restart_mid_resource_resumes_at_committed_position_not_resource_start() {
    let world = || Memory::with_data(&[("a", &[1, 2]), ("b", &[10, 20, 30])]);
    let resources = resource_set(&["a", "b"]);

    let mut first = Input::new(resources.clone(), world(), identity("restart"));
    first.open(None).unwrap();
    assert_eq!(first.read().unwrap(), ReadOutcome::Item(1));
    assert_eq!(first.read().unwrap(), ReadOutcome::Item(2));
    assert_eq!(first.read().unwrap(), ReadOutcome::Item(10));
    let committed = first.update().unwrap();

    let mut second = Input::new(resources, world(), identity("restart"));
    assert_eq!(second.open(Some(&committed)).unwrap(), StreamOpenOutcome::Restored);
    assert_eq!(second.read().unwrap(), ReadOutcome::Item(20));
    assert_eq!(second.read().unwrap(), ReadOutcome::Item(30));
    assert_eq!(second.read().unwrap(), ReadOutcome::EndOfInput);
}

#[test]
fn resource_set_revision_mismatch_on_restart_is_rejected() {
    let world = || Memory::with_data(&[("a", &[1]), ("b", &[2])]);
    let mut first = Input::new(resource_set(&["a", "b"]), world(), identity("revision"));
    first.open(None).unwrap();
    first.read().unwrap();
    let committed = first.update().unwrap();

    let mut second = Input::new(resource_set(&["z", "a", "b"]), world(), identity("revision"));
    let result = second.open(Some(&committed));
    assert!(result.is_err(), "changed resource set must be rejected, not silently resumed");
    assert_eq!(result.unwrap_err().category, FailureCategory::UnsupportedCapability);
}

#[test]
fn resource_open_failure_does_not_advance_past_the_failure_point() {
    let mut world = Memory::with_data(&[("a", &[1]), ("c", &[3])]);
    world.fail_open.insert("b".to_owned());
    let mut input = Input::new(resource_set(&["a", "b", "c"]), world, identity("open-failure"));
    input.open(None).unwrap();
    assert_eq!(input.read().unwrap(), ReadOutcome::Item(1));
    let result = input.read();
    assert!(result.is_err(), "resource b's open failure must surface, not be swallowed");
    let retried = input.read();
    assert!(
        retried.is_err(),
        "a retry must fail at the same resource again, never skip to c"
    );
}

#[test]
fn reader_closes_each_delegate_exactly_once_with_resource_boundary_outcome_in_order() {
    let world = Memory::with_data(&[("a", &[1, 2]), ("b", &[3])]);
    let log = Rc::clone(&world.log);
    let mut input = Input::new(resource_set(&["a", "b"]), world, identity("lifecycle-order"));
    input.open(None).unwrap();
    loop {
        match input.read().unwrap() {
            ReadOutcome::Item(_) => {}
            ReadOutcome::EndOfInput => break,
            ReadOutcome::Stopped => panic!("unexpected stop"),
        }
    }
    assert_eq!(
        *log.borrow(),
        vec![opened("a"), boundary("a"), opened("b"), boundary("b")]
    );
}

#[test]
fn reader_resource_boundary_close_failure_is_propagated_without_advancing_or_double_closing() {
    let world = Memory::with_data(&[("a", &[1]), ("b", &[2])]);
    let log = Rc::clone(&world.log);
    world.fail_close_once.borrow_mut().insert("a".to_owned());
    let mut input =
        Input::new(resource_set(&["a", "b"]), world, identity("boundary-close-failure"));
    input.open(None).unwrap();
    assert_eq!(input.read().unwrap(), ReadOutcome::Item(1));
    let result = input.read();
    assert!(result.is_err(), "a boundary close failure must surface");
    let state = state_of(&input.update().unwrap());
    assert_eq!(
        state.resource_index, 0,
        "checkpoint advancement must not silently occur after a failed boundary close"
    );
    assert_eq!(input.read().unwrap(), ReadOutcome::Item(2));
    assert_eq!(
        *log.borrow(),
        vec![opened("a"), boundary("a"), updated("a"), boundary("a"), opened("b")]
    );
}

#[test]
fn outer_terminal_close_does_not_double_close_a_reader_delegate_already_retired_at_a_boundary() {
    let mut world = Memory::with_data(&[("a", &[1])]);
    world.fail_open.insert("b".to_owned());
    let log = Rc::clone(&world.log);
    let mut input = Input::new(resource_set(&["a", "b"]), world, identity("no-double-close"));
    input.open(None).unwrap();
    assert_eq!(input.read().unwrap(), ReadOutcome::Item(1));
    let result = input.read();
    assert!(result.is_err());
    input.close(StreamRuntimeOutcome::Failed).unwrap();
    assert_eq!(*log.borrow(), vec![opened("a"), boundary("a")]);
}

#[test]
fn reader_update_fails_closed_when_delegate_reports_the_wrong_namespace() {
    let mut world = Memory::with_data(&[("a", &[1])]);
    world.reported_namespace = Some(identity("attacker-namespace"));
    let mut input = Input::new(resource_set(&["a"]), world, identity("expected-namespace"));
    input.open(None).unwrap();
    input.read().unwrap();
    let result = input.update();
    assert!(
        result.is_err(),
        "a nested delegate reporting the wrong namespace must fail the outer update closed"
    );
    assert_eq!(result.unwrap_err().category, FailureCategory::Invariant);
}

#[test]
fn reader_open_fails_closed_on_a_hand_crafted_mismatched_namespace_record() {
    let expected_identity = identity("restore-namespace-check");
    let wrong_identity = identity("restore-namespace-check-wrong");
    let delegate = envelope(&wrong_identity, ordinal_payload(0));
    let resources = resource_set(&["a"]);
    let state = MultiResourceState {
        resource_set_revision: resources.revision(),
        resource_index: 0,
        delegate: Some(DelegateEnvelopeColumns::from_envelope(&delegate)),
        resource_batches_written: 0,
    };
    let outer = MultiResourcePositionSchema.encode(&state).unwrap();

    let world = Memory::with_data(&[("a", &[1])]);
    let mut input = Input::new(resources, world, expected_identity);
    let result = input.open(Some(&outer));
    assert!(
        result.is_err(),
        "a stored delegate envelope under the wrong namespace must fail closed on restore"
    );
}

#[test]
fn rollover_writes_batches_to_successive_resources_in_order() {
    let world = Memory::default();
    let sink = Rc::clone(&world.sink);
    let mut output = Output::new(
        resource_set(&["a", "b", "c"]),
        world,
        identity("rollover"),
        BatchCountRollover::new(1),
    )
    .unwrap();
    output.open(None).unwrap();
    output.write(&[1, 2]).unwrap();
    output.write(&[3]).unwrap();
    output.write(&[4, 5]).unwrap();
    let sink = sink.borrow();
    assert_eq!(sink.get("a"), Some(&vec![1, 2]));
    assert_eq!(sink.get("b"), Some(&vec![3]));
    assert_eq!(sink.get("c"), Some(&vec![4, 5]));
}

#[test]
fn writer_restart_mid_resource_resumes_committed_position() {
    let sink = Rc::new(RefCell::new(HashMap::new()));
    let world = || Memory { sink: Rc::clone(&sink), ..Memory::default() };
    let resources = resource_set(&["a", "b"]);

    let mut first =
        Output::new(resources.clone(), world(), identity("writer-restart"), NoRollover).unwrap();
    first.open(None).unwrap();
    first.write(&[1, 2]).unwrap();
    let committed = first.update().unwrap();

    let mut second =
        Output::new(resources, world(), identity("writer-restart"), NoRollover).unwrap();
    second.open(Some(&committed)).unwrap();
    second.write(&[3]).unwrap();
    let state = state_of(&second.update().unwrap());
    assert_eq!(state.resource_index, 0, "must still be resource \"a\", index 0");
    let delegate = state.delegate.expect("a written resource always has delegate state");
    let inner = delegate
        .to_envelope(identity("writer-restart"))
        .expect("embedded delegate envelope must decode");
    assert_eq!(
        ordinal_of(&inner),
        3,
        "committed length must resume from 2 and advance by this attempt's batch, not restart from 0"
    );
    assert_eq!(sink.borrow().get("a"), Some(&vec![1, 2, 3]));
}

#[test]
fn rollover_counter_survives_restart_and_still_caps_batches_per_resource() {
    let sink = Rc::new(RefCell::new(HashMap::new()));
    let world = || Memory { sink: Rc::clone(&sink), ..Memory::default() };
    let output = || {
        Output::new(
            resource_set(&["a", "b"]),
            world(),
            identity("rollover-restart"),
            BatchCountRollover::new(2),
        )
        .unwrap()
    };
    let mut first = output();
    first.open(None).unwrap();
    first.write(&[1]).unwrap();
    let committed = first.update().unwrap();

    let mut second = output();
    second.open(Some(&committed)).unwrap();
    second.write(&[2]).unwrap();
    second.write(&[3]).unwrap();
    let sink = sink.borrow();
    assert_eq!(
        sink.get("a"),
        Some(&vec![1, 2]),
        "resource \"a\" must never exceed its 2-batch cap across the restart"
    );
    assert_eq!(
        sink.get("b"),
        Some(&vec![3]),
        "the third batch must have rolled over into resource \"b\""
    );
}

#[test]
fn stale_resource_set_revision_is_rejected_on_writer_restart() {
    let mut first = Output::new(
        resource_set(&["a", "b"]),
        Memory::default(),
        identity("writer-revision"),
        NoRollover,
    )
    .unwrap();
    first.open(None).unwrap();
    first.write(&[1]).unwrap();
    let committed = first.update().unwrap();

    let mut second = Output::new(
        resource_set(&["a", "b", "c"]),
        Memory::default(),
        identity("writer-revision"),
        NoRollover,
    )
    .unwrap();
    let result = second.open(Some(&committed));
    assert!(
        result.is_err(),
        "changed resource set must be rejected on writer restart too"
    );
}

#[test]
fn writer_rollover_closes_outgoing_delegate_exactly_once_with_resource_boundary_outcome() {
    let world = Memory::default();
    let log = Rc::clone(&world.log);
    let mut output = Output::new(
        resource_set(&["a", "b"]),
        world,
        identity("writer-lifecycle-order"),
        BatchCountRollover::new(1),
    )
    .unwrap();
    output.open(None).unwrap();
    output.write(&[1]).unwrap();
    output.write(&[2]).unwrap();
    assert_eq!(*log.borrow(), vec![opened("a"), boundary("a"), opened("b")]);
}

#[test]
fn writer_resource_boundary_close_failure_is_propagated_without_rolling_over() {
    let world = Memory::default();
    let sink = Rc::clone(&world.sink);
    let log = Rc::clone(&world.log);
    world.fail_close_once.borrow_mut().insert("a".to_owned());
    let mut output = Output::new(
        resource_set(&["a", "b"]),
        world,
        identity("writer-boundary-close-failure"),
        BatchCountRollover::new(1),
    )
    .unwrap();
    output.open(None).unwrap();
    output.write(&[1]).unwrap();
    let result = output.write(&[2]);
    assert!(result.is_err(), "a boundary close failure must surface");
    let state = state_of(&output.update().unwrap());
    assert_eq!(
        state.resource_index, 0,
        "checkpoint advancement must not silently occur after a failed boundary close"
    );
    output.write(&[2]).unwrap();
    assert_eq!(
        *log.borrow(),
        vec![opened("a"), boundary("a"), updated("a"), boundary("a"), opened("b")]
    );
    let sink = sink.borrow();
    assert_eq!(sink.get("a"), Some(&vec![1]));
    assert_eq!(sink.get("b"), Some(&vec![2]));
}

#[test]
fn outer_terminal_close_does_not_double_close_a_writer_delegate_already_retired_at_a_boundary() {
    let mut world = Memory::default();
    world.fail_open.insert("b".to_owned());
    let log = Rc::clone(&world.log);
    let mut output = Output::new(
        resource_set(&["a", "b"]),
        world,
        identity("writer-no-double-close"),
        BatchCountRollover::new(1),
    )
    .unwrap();
    output.open(None).unwrap();
    output.write(&[1]).unwrap();
    let result = output.write(&[2]);
    assert!(result.is_err());
    output.close(StreamRuntimeOutcome::Failed).unwrap();
    assert_eq!(*log.borrow(), vec![opened("a"), boundary("a")]);
}

#[test]
fn writer_update_fails_closed_when_delegate_reports_the_wrong_namespace() {
    let world = Memory {
        reported_namespace: Some(identity("attacker-namespace-writer")),
        ..Memory::default()
    };
    let mut output = Output::new(
        resource_set(&["a"]),
        world,
        identity("expected-namespace-writer"),
        NoRollover,
    )
    .unwrap();
    output.open(None).unwrap();
    output.write(&[1]).unwrap();
    let result = output.update();
    assert!(
        result.is_err(),
        "a nested delegate reporting the wrong namespace must fail the outer update closed"
    );
}

#[test]
fn peek_reader_over_multi_resource_reader_crosses_resource_boundary_without_corrupting_order() {
    let world = Memory::with_data(&[("a", &[1, 2]), ("b", &[3, 4])]);
    let mut input = Input::new(resource_set(&["a", "b"]), world, identity("peek-composition"));
    input.open(None).unwrap();
    let mut peeking = PeekReader::new(input);
    let mut collected = Vec::new();
    loop {
        if peeking.peek().is_none() {
            let outcome = peeking.inner.read();
            peeking.looked_ahead(outcome).unwrap();
        }
        match peeking.peek().unwrap() {
            PeekOutcome::Item(_) => {}
            PeekOutcome::EndOfInput => break,
            _ => panic!("unexpected stop"),
        }
        match peeking.read().unwrap() {
            ReadOutcome::Item(item) => collected.push(item),
            ReadOutcome::EndOfInput => break,
            ReadOutcome::Stopped => panic!("unexpected stop"),
        }
    }
    assert_eq!(collected, vec![1, 2, 3, 4]);
}

#[test]
fn synchronized_writer_over_multi_resource_writer_preserves_rollover_order() {
    let world = Memory::default();
    let sink = Rc::clone(&world.sink);
    let mut output = Output::new(
        resource_set(&["a", "b"]),
        world,
        identity("sync-composition"),
        BatchCountRollover::new(1),
    )
    .unwrap();
    output.open(None).unwrap();
    let synchronized = Mutex::new(output);
    synchronized.lock().unwrap().write(&[1]).unwrap();
    synchronized.lock().unwrap().write(&[2]).unwrap();
    let sink = sink.borrow();
    assert_eq!(sink.get("a"), Some(&vec![1]));
    assert_eq!(sink.get("b"), Some(&vec![2]));
}

#[test]
fn an_exhausted_input_restarts_exhausted() {
    let world = || Memory::with_data(&[("a", &[1])]);
    let mut first = Input::new(resource_set(&["a"]), world(), identity("exhausted"));
    first.open(None).unwrap();
    assert_eq!(first.drain(), [1]);
    let committed = first.update().unwrap();
    assert_eq!(state_of(&committed).resource_index, 1);
    let mut second = Input::new(resource_set(&["a"]), world(), identity("exhausted"));
    assert_eq!(second.open(Some(&committed)).unwrap(), StreamOpenOutcome::Restored);
    assert_eq!(second.read(), Ok(ReadOutcome::EndOfInput));
}

#[test]
fn malformed_committed_positions_are_refused() {
    let mut input =
        Input::new(resource_set(&["a"]), Memory::default(), identity("malformed-position"));
    assert_eq!(
        input.open(Some(b"{}")).unwrap_err().category,
        FailureCategory::UserComponent
    );
    let past_the_end = MultiResourceState {
        resource_set_revision: resource_set(&["a"]).revision(),
        resource_index: 2,
        delegate: None,
        resource_batches_written: 0,
    };
    let bytes = MultiResourcePositionSchema.encode(&past_the_end).unwrap();
    assert_eq!(
        input.open(Some(&bytes)).unwrap_err().category,
        FailureCategory::Invariant
    );
    for payload in ["", "[]", "{\"resource_set_revision\":\"00\"}"] {
        assert!(matches!(
            MultiResourcePositionSchema.decode(payload.as_bytes()),
            Err(StateCodecError::InvalidPayload)
        ));
    }
}

#[test]
fn positions_and_envelopes_round_trip() {
    let namespace = identity("round-trip");
    for payload in [
        StatePayload::Inline(b"{\"ordinal\":5}".to_vec()),
        StatePayload::External { content_id: [9; 32], encoded_len: 123 },
    ] {
        let original = ComponentStateEnvelope { payload, ..envelope(&namespace, String::new()) };
        let columns = DelegateEnvelopeColumns::from_envelope(&original);
        assert!(columns.namespace_matches(&namespace));
        assert!(!columns.namespace_matches(&identity("other")));
        let state = MultiResourceState {
            resource_set_revision: resource_set(&["a", "b"]).revision(),
            resource_index: 1,
            delegate: Some(columns),
            resource_batches_written: 4,
        };
        let decoded = state_of(&MultiResourcePositionSchema.encode(&state).unwrap());
        assert_eq!(decoded.resource_index, 1);
        assert_eq!(decoded.resource_batches_written, 4);
        assert!(decoded.resource_set_revision.same(&state.resource_set_revision));
        let restored = decoded.delegate.unwrap().to_envelope(namespace.clone()).unwrap();
        assert_eq!(restored, original);
    }
}

#[test]
fn a_stopped_write_reaches_no_delegate() {
    let world = Memory::default();
    let sink = Rc::clone(&world.sink);
    let mut output =
        Output::new(resource_set(&["a"]), world, identity("stopped"), NoRollover).unwrap();
    output.open(None).unwrap();
    assert_eq!(output.write_with(&[1], &STOP), Ok(WriteOutcome::Stopped));
    assert!(sink.borrow().is_empty());
}

#[test]
fn a_write_before_open_is_an_invariant_failure() {
    let mut output =
        Output::new(resource_set(&["a"]), Memory::default(), identity("unopened"), NoRollover)
            .unwrap();
    assert_eq!(output.write(&[1]).unwrap_err().category, FailureCategory::Invariant);
}

#[test]
fn the_last_resource_takes_every_further_batch() {
    let world = Memory::default();
    let sink = Rc::clone(&world.sink);
    let mut output = Output::new(
        resource_set(&["a", "b"]),
        world,
        identity("last-resource"),
        BatchCountRollover::new(1),
    )
    .unwrap();
    output.open(None).unwrap();
    for item in 1..=3 {
        let _ = output.write(&[item]);
    }
    assert_eq!(sink.borrow().get("a"), Some(&vec![1]));
    assert_eq!(sink.borrow().get("b").map(|items| items[0]), Some(2));
}

#[test]
fn an_output_needs_a_resource() {
    let result =
        Output::new(resource_set(&[]), Memory::default(), identity("empty-output"), NoRollover);
    assert!(matches!(result, Err(WriterConfigError::EmptyResourceSet)));
    assert_eq!(
        WriterConfigError::EmptyResourceSet.to_text(),
        "multi-resource writer requires a nonempty resource set"
    );
}

#[test]
fn revisions_fingerprint_the_exact_sequence() {
    let revision = resource_set(&["a", "b"]).revision();
    assert!(revision.same(&resource_set(&["a", "b"]).revision()));
    assert!(!revision.same(&resource_set(&["b", "a"]).revision()));
    assert!(!revision.same(&resource_set(&["ab"]).revision()));
    let hex = revision.to_hex();
    assert_eq!(hex.len(), 64);
    assert_ne!(hex, "0".repeat(64));
    assert!(ResourceSetRevision::from_hex(&hex).unwrap().same(&revision));
    assert!(ResourceSetRevision::from_hex("xyz").is_none());
}

#[test]
fn open_failures_name_the_resource_and_a_category() {
    let error = MultiResourceOpenError::with_category(3, FailureCategory::Timeout);
    assert_eq!(error.resource_ordinal(), 3);
    assert_eq!(error.category(), FailureCategory::Timeout);
    assert_eq!(error.to_text(), "multi-resource open failed at resource ordinal 3");
    assert_eq!(MultiResourceOpenError::new(1).category(), FailureCategory::UserComponent);
}

#[test]
fn a_failed_terminal_close_is_a_user_component_failure() {
    assert_eq!(close_result(Ok(())), Ok(()));
    let failed = close_result(Err(StreamCloseError::with_category(FailureCategory::Timeout)));
    assert_eq!(failed.unwrap_err().category, FailureCategory::UserComponent);
}

// Objects of a store as resources.

fn id(key: &str) -> ObjectIdentity {
    ObjectIdentity::new(key).unwrap()
}

#[test]
fn object_identity_rejects_one_byte_past_its_ceiling() {
    assert!(ObjectIdentity::new(&"x".repeat(MAX_OBJECT_KEY_BYTES)).is_ok());
    let error = ObjectIdentity::new(&"x".repeat(MAX_OBJECT_KEY_BYTES + 1))
        .expect_err("one byte past the ceiling must be refused, not silently truncated");
    assert_eq!(error, ObjectStoreConfigError::KeyTooLong { max_bytes: MAX_OBJECT_KEY_BYTES });
    assert_eq!(error.to_text(), "object key exceeds 1024 UTF-8 bytes");
}

#[test]
fn object_identity_rejects_empty_and_control_characters() {
    assert_eq!(ObjectIdentity::new(""), Err(ObjectStoreConfigError::EmptyKey));
    assert_eq!(ObjectIdentity::new("a\nb"), Err(ObjectStoreConfigError::MalformedKey));
    assert_eq!(ObjectStoreConfigError::EmptyKey.to_text(), "object key must not be empty");
    assert_eq!(
        ObjectStoreConfigError::MalformedKey.to_text(),
        "object key contains a control character"
    );
}

fn keys(page: &ObjectListPage) -> Vec<String> {
    page.entries().iter().map(|(key, _)| key.as_str().to_owned()).collect()
}

#[test]
fn list_pagination_is_deterministic_and_orders_by_key() {
    let mut store = InMemoryObjectStore::new(1024);
    for key in ["b", "a", "c", "d"] {
        store.put(&id(key), key.as_bytes()).unwrap();
    }
    let page1 = store.list("", 2, None).unwrap();
    assert_eq!(
        keys(&page1),
        vec!["a", "b"],
        "listing must be key-ordered, not insertion-ordered"
    );
    let continuation = page1.continuation().expect("more entries remain");
    let page2 = store.list("", 2, Some(continuation)).unwrap();
    assert_eq!(keys(&page2), vec!["c", "d"]);
    assert!(page2.continuation().is_none(), "final page must not continue");
}

#[test]
fn listing_follows_prefixes_and_covers_every_key_once() {
    let mut store = InMemoryObjectStore::new(1024);
    for key in ["p/2", "q", "p/1", "p/10", "o", "p/é", "p"] {
        store.put(&id(key), b"").unwrap();
    }
    for page_size in 1..6 {
        let mut found = Vec::new();
        let mut page = store.list("p/", page_size, None).unwrap();
        loop {
            assert!(page.entries().len() <= page_size);
            found.extend(keys(&page));
            match page.continuation().cloned() {
                None => break,
                Some(continuation) => {
                    page = store.list("p/", page_size, Some(&continuation)).unwrap();
                }
            }
        }
        assert_eq!(found, ["p/1", "p/10", "p/2", "p/é"]);
    }
    let empty = store.list("", 0, None).unwrap();
    assert!(empty.entries().is_empty() && empty.continuation().is_none());
}

#[test]
fn missing_object_get_and_stat_fail_with_unsupported_capability() {
    let store = InMemoryObjectStore::new(1024);
    let error = store.get(&id("missing"), 1024).unwrap_err();
    assert_eq!(error.category(), FailureCategory::UnsupportedCapability);
    let error = store.stat(&id("missing")).unwrap_err();
    assert_eq!(error.category(), FailureCategory::UnsupportedCapability);
}

#[test]
fn put_bounded_by_max_object_bytes() {
    let mut store = InMemoryObjectStore::new(4);
    let result = store.put(&id("x"), &[0u8; 5]);
    assert!(result.is_err(), "an oversized put must be rejected, not silently truncated");
    store.put(&id("x"), &[0u8; 4]).unwrap();
}

#[test]
fn get_bounded_by_caller_supplied_max_bytes_without_materializing_the_oversized_object() {
    let mut store = InMemoryObjectStore::new(1024);
    store.put(&id("x"), &[0u8; 100]).unwrap();
    let error = store.get(&id("x"), 99).unwrap_err();
    assert_eq!(error.category(), FailureCategory::Invariant);
    let (bytes, _metadata) = store.get(&id("x"), 100).unwrap();
    assert_eq!(bytes.len(), 100, "exactly-at-bound must still succeed");
}

#[test]
fn put_get_roundtrip_returns_incrementing_version_tokens() {
    let mut store = InMemoryObjectStore::new(1024);
    let first = store.put(&id("x"), b"one").unwrap();
    let second = store.put(&id("x"), b"two").unwrap();
    assert_ne!(
        first.version_token(),
        second.version_token(),
        "a replaced object must publish a different version token"
    );
    let (bytes, metadata) = store.get(&id("x"), 1024).unwrap();
    assert_eq!(bytes, b"two");
    assert_eq!(metadata.version_token(), second.version_token());
    assert_eq!(second.version_token().unwrap().as_str(), "v2");
    assert_eq!(store.stat(&id("x")).unwrap(), second);
    assert_eq!(second.size(), 3);
}

#[test]
fn every_put_publishes_a_token_that_its_key_has_not_had() {
    let mut store = InMemoryObjectStore::new(4);
    let mut seen: Vec<String> = Vec::new();
    for round in 1..=12 {
        store.put(&id("y"), b"").unwrap();
        let token = store.put(&id("x"), b"1234").unwrap().version_token().unwrap().as_str().to_owned();
        assert_eq!(token, format!("v{round}"));
        assert!(!seen.contains(&token));
        seen.push(token);
        let refused = store.put(&id("x"), b"12345").map_err(|error| error.category());
        assert_eq!(refused, Err(FailureCategory::Invariant));
    }
}

#[test]
fn store_failures_carry_a_category() {
    assert_eq!(ObjectStoreError::default().category(), FailureCategory::UserComponent);
    assert_eq!(ObjectStoreError::new().to_text(), "object store operation failed");
    let error = ObjectStoreError::with_category(FailureCategory::Timeout);
    assert_eq!(error.category(), FailureCategory::Timeout);
}

#[test]
fn object_positions_round_trip_and_reject_other_shapes() {
    for token in [None, Some(ObjectVersionToken::new("v7"))] {
        let position = ObjectReadPosition { item_ordinal: 3, version_token: token };
        let bytes = ObjectReadPositionSchema.encode(&position).unwrap();
        assert_eq!(ObjectReadPositionSchema.decode(&bytes), Ok(position));
    }
    let missing = ObjectReadPositionSchema.decode(b"{\"item_ordinal\":1}").unwrap();
    assert_eq!(missing.version_token, None);
    for payload in ["{}", "{\"item_ordinal\":1,\"version_token\":2}", "nonsense"] {
        assert!(ObjectReadPositionSchema.decode(payload.as_bytes()).is_err());
    }
    let written = b"{\"committed_item_count\":4,\"version_token\":null}";
    assert_eq!(ObjectWritePositionSchema.decode(written).unwrap().committed_item_count, 4);
    for payload in [
        "{\"committed_item_count\":4}",
        "{\"committed_item_count\":4,\"version_token\":false}",
        "{\"version_token\":null}",
    ] {
        assert!(ObjectWritePositionSchema.decode(payload.as_bytes()).is_err());
    }
}

/// Where objects are fetched from and put to.
trait Store {
    fn get(
        &self,
        id: &ObjectIdentity,
        max_bytes: usize,
    ) -> Result<(Vec<u8>, ObjectMetadata), ObjectStoreError>;

    fn put(&self, id: &ObjectIdentity, bytes: &[u8]) -> Result<ObjectMetadata, ObjectStoreError>;
}

/// A store in memory, with or without version tokens.
struct Shelf {
    inner: RefCell<InMemoryObjectStore>,
    versioned: bool,
}

impl Shelf {
    fn new(max_object_bytes: usize, versioned: bool) -> Rc<Self> {
        Rc::new(Shelf {
            inner: RefCell::new(InMemoryObjectStore::new(max_object_bytes)),
            versioned,
        })
    }

    fn strip(&self, metadata: ObjectMetadata) -> ObjectMetadata {
        if self.versioned {
            metadata
        } else {
            ObjectMetadata::new(metadata.size(), None)
        }
    }
}

impl Store for Shelf {
    fn get(
        &self,
        id: &ObjectIdentity,
        max_bytes: usize,
    ) -> Result<(Vec<u8>, ObjectMetadata), ObjectStoreError> {
        let (bytes, metadata) = self.inner.borrow().get(id, max_bytes)?;
        Ok((bytes, self.strip(metadata)))
    }

    fn put(&self, id: &ObjectIdentity, bytes: &[u8]) -> Result<ObjectMetadata, ObjectStoreError> {
        let metadata = self.inner.borrow_mut().put(id, bytes)?;
        Ok(self.strip(metadata))
    }
}

fn csv_parse(bytes: &[u8]) -> Result<Vec<u64>, ObjectStoreError> {
    Ok(std::str::from_utf8(bytes)
        .unwrap()
        .split(',')
        .map(|item| item.parse::<u64>().unwrap())
        .collect())
}

/// Objects read as resources.
struct ObjectInput<T> {
    opener: ObjectStoreReaderOpener<Rc<T>, fn(&[u8]) -> Result<Vec<u64>, ObjectStoreError>>,
}

impl<T: Store> ObjectInput<T> {
    fn new(store: &Rc<T>, max_object_bytes: usize) -> Self {
        ObjectInput {
            opener: ObjectStoreReaderOpener::new(Rc::clone(store), max_object_bytes, csv_parse),
        }
    }
}

type SharedReader = Rc<RefCell<ObjectItemReader<u64>>>;

impl<T: Store> ReadWorld for ObjectInput<T> {
    type Reader = SharedReader;
    type Stream = (ObjectItemReaderStream, SharedReader, ComponentStreamIdentity);
    type Item = u64;

    fn open(
        &self,
        resource: &ResourceIdentity,
        ordinal: u32,
        identity: &ComponentStreamIdentity,
    ) -> Result<(Self::Reader, Self::Stream), MultiResourceOpenError> {
        let id = self.opener.open(resource, ordinal)?;
        let fetched = self.opener.store.get(&id, self.opener.max_object_bytes);
        let (reader, stream) = self.opener.fetched(ordinal, fetched)?;
        let reader = Rc::new(RefCell::new(reader));
        Ok((Rc::clone(&reader), (stream, reader, identity.clone())))
    }

    fn open_stream(
        &self,
        stream: &Self::Stream,
        inherited: Option<&ComponentStateEnvelope>,
    ) -> Result<StreamOpenOutcome, StreamOpenError> {
        let payload = inherited.map(|envelope| match &envelope.payload {
            StatePayload::Inline(bytes) => bytes.as_slice(),
            StatePayload::External { .. } => panic!("inline payload"),
        });
        stream.0.open(payload, &mut stream.1.borrow_mut().ordinal)
    }

    fn read(&self, reader: &mut SharedReader) -> Result<ReadOutcome<u64>, ReaderError> {
        reader.borrow_mut().read()
    }

    fn update(&self, stream: &Self::Stream) -> Result<ComponentStateEnvelope, StreamUpdateError> {
        let payload = stream.0.update(stream.1.borrow().ordinal)?;
        Ok(ComponentStateEnvelope {
            schema_id: OBJECT_READ_SCHEMA.to_owned(),
            codec_id: OBJECT_READ_CODEC.to_owned(),
            payload: StatePayload::Inline(payload),
            ..envelope(&stream.2, String::new())
        })
    }

    fn close(
        &self,
        stream: &Self::Stream,
        _outcome: StreamRuntimeOutcome,
    ) -> Result<(), StreamCloseError> {
        stream.0.close().map(|_| ())
    }
}

/// Objects written as resources.
struct ObjectOutput<T, F> {
    opener: ObjectStoreWriterOpener<Rc<T>, F>,
}

type SharedAccumulator = Rc<RefCell<WriteAccumulator>>;

impl<T: Store, I, F: Fn(&I) -> Vec<u8>> WriteWorld for (ObjectOutput<T, F>, Vec<I>) {
    type Writer = (ObjectItemWriter, SharedAccumulator);
    type Stream = (ObjectItemWriterStream, SharedAccumulator, ComponentStreamIdentity);
    type Item = I;

    fn open(
        &self,
        resource: &ResourceIdentity,
        ordinal: u32,
        identity: &ComponentStreamIdentity,
    ) -> Result<(Self::Writer, Self::Stream), MultiResourceOpenError> {
        let (writer, stream, accumulator) = self.0.opener.open(resource, ordinal)?;
        let accumulator = Rc::new(RefCell::new(accumulator));
        Ok(((writer, Rc::clone(&accumulator)), (stream, accumulator, identity.clone())))
    }

    fn open_stream(
        &self,
        stream: &Self::Stream,
        inherited: Option<&ComponentStateEnvelope>,
    ) -> Result<StreamOpenOutcome, StreamOpenError> {
        let payload = inherited.map(|envelope| match &envelope.payload {
            StatePayload::Inline(bytes) => bytes.as_slice(),
            StatePayload::External { .. } => panic!("inline payload"),
        });
        let mut accumulator = stream.1.borrow_mut();
        match stream.0.open(&mut accumulator, payload) {
            ObjectOpenAction::Return(result) => result,
            ObjectOpenAction::Get(position) => {
                let fetched = self.0.opener.store.get(&stream.0.id, stream.0.max_object_bytes);
                stream.0.fetched(&mut accumulator, position, fetched)
            }
        }
    }

    fn write(
        &self,
        writer: &Self::Writer,
        items: &[I],
        stop: &StopToken,
    ) -> Result<WriteOutcome, WriterError> {
        let mut accumulator = writer.1.borrow_mut();
        let serialize = |item: &I| (self.0.opener.serialize)(item);
        match writer.0.write(&mut accumulator, items, stop, serialize) {
            ObjectWriteAction::Return(result) => result,
            ObjectWriteAction::Put(pending) => {
                let result = self.0.opener.store.put(&writer.0.id, &accumulator.bytes);
                writer.0.put_finished(&mut accumulator, pending, result)
            }
        }
    }

    fn update(&self, stream: &Self::Stream) -> Result<ComponentStateEnvelope, StreamUpdateError> {
        let payload = stream.0.update(&stream.1.borrow())?;
        Ok(ComponentStateEnvelope {
            schema_id: OBJECT_WRITE_SCHEMA.to_owned(),
            codec_id: OBJECT_WRITE_CODEC.to_owned(),
            payload: StatePayload::Inline(payload),
            ..envelope(&stream.2, String::new())
        })
    }

    fn close(
        &self,
        stream: &Self::Stream,
        _outcome: StreamRuntimeOutcome,
    ) -> Result<(), StreamCloseError> {
        stream.0.close().map(|_| ())
    }
}

fn object_output<I, F: Fn(&I) -> Vec<u8>>(
    store: &Rc<Shelf>,
    serialize: F,
    max_object_bytes: usize,
    key: &str,
    name: &str,
) -> Output<(ObjectOutput<Shelf, F>, Vec<I>), NoRollover> {
    let opener = ObjectStoreWriterOpener::new(Rc::clone(store), serialize, max_object_bytes);
    Output::new(
        resource_set(&[key]),
        (ObjectOutput { opener }, Vec::new()),
        ComponentStreamIdentity::new(name),
        NoRollover,
    )
    .unwrap()
}

#[test]
fn reader_restart_resumes_ordinal_when_object_version_unchanged() {
    let store = Shelf::new(1024, true);
    store.put(&id("obj"), b"1,2,3").unwrap();
    let name = ComponentStreamIdentity::new("oxide-batch.object-store-unit-test.reader");
    let mut first =
        Input::new(resource_set(&["obj"]), ObjectInput::new(&store, 1024), name.clone());
    first.open(None).unwrap();
    assert_eq!(first.read().unwrap(), ReadOutcome::Item(1));
    let committed = first.update().unwrap();

    let mut second = Input::new(resource_set(&["obj"]), ObjectInput::new(&store, 1024), name);
    second.open(Some(&committed)).unwrap();
    assert_eq!(
        second.read().unwrap(),
        ReadOutcome::Item(2),
        "must resume at ordinal 1 (item `2`), not replay item `1`"
    );
}

#[test]
fn reader_restart_rejects_replaced_object() {
    let store = Shelf::new(1024, true);
    store.put(&id("obj"), b"1,2,3").unwrap();
    let name = ComponentStreamIdentity::new("oxide-batch.object-store-unit-test.replaced");
    let mut first =
        Input::new(resource_set(&["obj"]), ObjectInput::new(&store, 1024), name.clone());
    first.open(None).unwrap();
    first.read().unwrap();
    let committed = first.update().unwrap();

    store.put(&id("obj"), b"9,9,9").unwrap();
    let mut second = Input::new(resource_set(&["obj"]), ObjectInput::new(&store, 1024), name);
    let result = second.open(Some(&committed));
    assert!(result.is_err(), "a replaced object must fail closed on restart");
}

#[test]
fn reader_restart_over_a_no_version_backend_fails_closed_rather_than_matching_none_to_none() {
    let store = Shelf::new(1024, false);
    store.put(&id("obj"), b"1,2,3").unwrap();
    let name = ComponentStreamIdentity::new("oxide-batch.object-store-unit-test.no-version-reader");
    let mut first =
        Input::new(resource_set(&["obj"]), ObjectInput::new(&store, 1024), name.clone());
    first.open(None).unwrap();
    first.read().unwrap();
    let committed = first.update().unwrap();

    let mut second = Input::new(resource_set(&["obj"]), ObjectInput::new(&store, 1024), name);
    let result = second.open(Some(&committed));
    assert!(
        result.is_err(),
        "a restart over a backend with no version identity must fail closed"
    );
}

#[test]
fn writer_restart_over_a_no_version_backend_fails_closed_rather_than_matching_none_to_none() {
    let store = Shelf::new(1024, false);
    let name = "oxide-batch.object-store-unit-test.no-version-writer";
    let serialize = |item: &u64| format!("{item},").into_bytes();
    let mut first = object_output(&store, serialize, 1024, "obj", name);
    first.open(None).unwrap();
    first.write(&[1]).unwrap();
    let committed = first.update().unwrap();

    let mut second = object_output(&store, serialize, 1024, "obj", name);
    let result = second.open(Some(&committed));
    assert!(
        result.is_err(),
        "a writer restart over a backend with no version identity must fail closed"
    );
}

#[test]
fn writer_roundtrip_through_multi_resource_writer_accumulates_and_puts() {
    let store = Shelf::new(1024, true);
    let serialize = |item: &u64| format!("{item},").into_bytes();
    let mut output = object_output(
        &store,
        serialize,
        1024,
        "out",
        "oxide-batch.object-store-unit-test.writer",
    );
    output.open(None).unwrap();
    output.write(&[1, 2]).unwrap();
    output.write(&[3]).unwrap();
    let (bytes, _metadata) = store.get(&id("out"), 1024).unwrap();
    assert_eq!(bytes, b"1,2,3,".to_vec());
}

#[test]
fn writer_restart_goes_on_behind_the_committed_object() {
    let store = Shelf::new(1024, true);
    let name = "oxide-batch.object-store-unit-test.resumed-writer";
    let serialize = |item: &u64| format!("{item},").into_bytes();
    let mut first = object_output(&store, serialize, 1024, "out", name);
    first.open(None).unwrap();
    first.write(&[1, 2]).unwrap();
    let committed = first.update().unwrap();
    let mut second = object_output(&store, serialize, 1024, "out", name);
    assert_eq!(second.open(Some(&committed)), Ok(StreamOpenOutcome::Restored));
    second.write(&[3]).unwrap();
    assert_eq!(store.get(&id("out"), 1024).unwrap().0, b"1,2,3,");
    // A put whose version was never committed makes the next restart refuse.
    let mut third = object_output(&store, serialize, 1024, "out", name);
    assert!(third.open(Some(&committed)).is_err());
}

#[test]
fn a_refused_put_restores_the_object() {
    let store = Shelf::new(4, true);
    let serialize = |item: &u8| vec![*item; 4];
    let mut output = object_output(
        &store,
        serialize,
        1024,
        "out",
        "oxide-batch.object-store-unit-test.refused-put",
    );
    output.open(None).unwrap();
    output.write(&[1]).unwrap();
    let before = output.update().unwrap();
    let error = output.write(&[2]).unwrap_err();
    assert_eq!(error.category, FailureCategory::Invariant);
    assert_eq!(output.update().unwrap(), before);
    assert_eq!(output.machine.active().unwrap().writer.1.borrow().bytes, [1, 1, 1, 1]);
}

/// A store that knows only how long its objects are said to be.
struct DeclaredSizes {
    declared_len: RefCell<BTreeMap<String, usize>>,
    materialize_calls: Cell<usize>,
}

impl Store for DeclaredSizes {
    fn get(
        &self,
        id: &ObjectIdentity,
        max_bytes: usize,
    ) -> Result<(Vec<u8>, ObjectMetadata), ObjectStoreError> {
        let declared = self.declared_len.borrow();
        let Some(length) = declared.get(id.as_str()) else {
            return Err(ObjectStoreError::with_category(FailureCategory::UnsupportedCapability));
        };
        if *length > max_bytes {
            return Err(ObjectStoreError::with_category(FailureCategory::Invariant));
        }
        self.materialize_calls.set(self.materialize_calls.get() + 1);
        Ok((vec![0u8; *length], ObjectMetadata::new(*length as u64, None)))
    }

    fn put(&self, id: &ObjectIdentity, bytes: &[u8]) -> Result<ObjectMetadata, ObjectStoreError> {
        self.declared_len.borrow_mut().insert(id.as_str().to_owned(), bytes.len());
        Ok(ObjectMetadata::new(bytes.len() as u64, None))
    }
}

#[test]
fn reader_opener_rejects_an_oversized_object_without_ever_materializing_it() {
    let store = Rc::new(DeclaredSizes {
        declared_len: RefCell::new(BTreeMap::new()),
        materialize_calls: Cell::new(0),
    });
    store.declared_len.borrow_mut().insert("huge".to_owned(), 10_000_000_000);
    let resource = ResourceIdentity::new("huge").unwrap();
    let name = ComponentStreamIdentity::new("oxide-batch.object-store-unit-test.bounded-reader");
    let world = ObjectInput::new(&store, 1024);
    let result = world.open(&resource, 0, &name);
    assert!(
        result.is_err(),
        "an object declared larger than max_object_bytes must be rejected"
    );
    assert_eq!(store.materialize_calls.get(), 0);
}

#[test]
fn reader_opener_failures_name_the_resource() {
    let store = Shelf::new(1024, true);
    let name = identity("object-open-failures");
    let world = ObjectInput::new(&store, 1024);
    let missing = world.open(&ResourceIdentity::new("none").unwrap(), 5, &name);
    let error = missing.err().unwrap();
    assert_eq!(error.resource_ordinal(), 5);
    assert_eq!(error.category(), FailureCategory::UnsupportedCapability);
    let opener = ObjectStoreReaderOpener::new((), 1, |_: &[u8]| -> Result<Vec<u8>, _> {
        Err(ObjectStoreError::with_category(FailureCategory::Timeout))
    });
    let fetched = Ok((Vec::new(), ObjectMetadata::new(0, None)));
    let error = opener.fetched(2, fetched).err().unwrap();
    assert_eq!((error.resource_ordinal(), error.category()), (2, FailureCategory::Timeout));
}

#[test]
fn writer_rejects_growth_past_max_object_bytes_and_allows_the_exact_boundary() {
    let store = Shelf::new(1024, true);
    // Four bytes per item; a maximum of 8 bytes allows exactly two items.
    let serialize = |item: &u8| vec![*item; 4];
    let mut output = object_output(
        &store,
        serialize,
        8,
        "out",
        "oxide-batch.object-store-unit-test.bounded-writer",
    );
    output.open(None).unwrap();
    output.write(&[1]).unwrap();
    output.write(&[2]).unwrap();
    let result = output.write(&[3]);
    assert!(result.is_err(), "growth past the bound must be rejected");
    let (bytes, _metadata) = store.get(&id("out"), 1024).unwrap();
    assert_eq!(bytes, vec![1, 1, 1, 1, 2, 2, 2, 2]);
}

#[test]
fn writer_stops_serializing_further_items_once_one_write_call_exceeds_the_bound() {
    let store = Shelf::new(1024, true);
    let calls = Rc::new(Cell::new(0));
    let counted_serialize = {
        let calls = Rc::clone(&calls);
        move |item: &u8| {
            calls.set(calls.get() + 1);
            vec![*item; 3]
        }
    };
    let mut output = object_output(
        &store,
        counted_serialize,
        7,
        "out",
        "oxide-batch.object-store-unit-test.bounded-writer-stops-early",
    );
    output.open(None).unwrap();
    let result = output.write(&[1, 2, 3, 4, 5]);
    assert!(result.is_err(), "the batch must be rejected");
    assert_eq!(calls.get(), 3);
}

#[test]
fn a_stopped_object_write_puts_nothing() {
    let store = Shelf::new(1024, true);
    let serialize = |item: &u8| vec![*item];
    let mut output = object_output(&store, serialize, 8, "out", "object-stop");
    output.open(None).unwrap();
    assert_eq!(output.write_with(&[1], &STOP), Ok(WriteOutcome::Stopped));
    assert!(store.get(&id("out"), 8).is_err());
}
