//! What is kept of the output of a step's processes.

use vstd::prelude::*;
use vstd::utf8::encode_utf8;

use crate::bytes::{append_bytes, copy_bytes};
use crate::json_text::{json_quoted, quote_json};
use crate::runtime::ActionId;
use crate::text::{decimal_text, push_decimal_text, push_text, text_equal};

verus! {

/// How much of a stream was not kept.
#[derive(Clone, Copy, Debug, PartialEq, Eq, Structural)]
pub struct DiagnosticTruncation {
    discarded_bytes: u64,
}

impl DiagnosticTruncation {
    /// The number of bytes that were not kept.
    pub closed spec fn discarded(self) -> u64 {
        self.discarded_bytes
    }

    /// The number of bytes that were not kept.
    pub fn discarded_bytes(self) -> (discarded: u64)
        ensures
            discarded == self.discarded(),
    {
        self.discarded_bytes
    }
}

/// What is kept of a stream: the bytes, how many more there were, and whether the
/// stream was read to its end.
pub struct StreamModel {
    pub bytes: Seq<u8>,
    pub discarded: Option<u64>,
    pub fully_drained: bool,
}

/// What is kept of a stream.
#[derive(Clone, Debug, PartialEq, Eq)]
pub struct CapturedDiagnosticStream {
    bytes: Vec<u8>,
    truncation: Option<DiagnosticTruncation>,
    fully_drained: bool,
}

/// How many bytes a truncation tells of, if there is one.
pub open spec fn truncated(truncation: Option<DiagnosticTruncation>) -> Option<u64> {
    match truncation {
        Some(truncation) => Some(truncation.discarded()),
        None => None,
    }
}

/// Bytes that were not kept are told of only where there are any.
pub open spec fn reported(discarded: u64) -> Option<u64> {
    if discarded != 0 {
        Some(discarded)
    } else {
        None
    }
}

impl View for CapturedDiagnosticStream {
    type V = StreamModel;

    closed spec fn view(&self) -> StreamModel {
        StreamModel {
            bytes: self.bytes@,
            discarded: truncated(self.truncation),
            fully_drained: self.fully_drained,
        }
    }
}

impl CapturedDiagnosticStream {
    /// The bytes that were kept.
    pub fn bytes(&self) -> (bytes: &[u8])
        ensures
            bytes@ == self@.bytes,
    {
        self.bytes.as_slice()
    }

    /// How much was not kept, if not everything was.
    pub fn truncation(&self) -> (truncation: Option<DiagnosticTruncation>)
        ensures
            truncated(truncation) == self@.discarded,
    {
        self.truncation
    }

    /// Whether the stream was read to its end.
    pub fn fully_drained(&self) -> (drained: bool)
        ensures
            drained == self@.fully_drained,
    {
        self.fully_drained
    }

    /// What is kept of a stream whose reader was lost.
    pub fn reader_unavailable() -> (stream: Self)
        ensures
            stream@ == (StreamModel { bytes: Seq::empty(), discarded: None, fully_drained: false }),
    {
        CapturedDiagnosticStream { bytes: Vec::new(), truncation: None, fully_drained: false }
    }

    /// A stream of which these bytes were kept.
    pub fn from_parts(bytes: Vec<u8>, discarded_bytes: u64, fully_drained: bool) -> (stream: Self)
        ensures
            stream@ == (StreamModel {
                bytes: bytes@,
                discarded: reported(discarded_bytes),
                fully_drained,
            }),
    {
        CapturedDiagnosticStream {
            bytes,
            truncation: if discarded_bytes != 0 {
                Some(DiagnosticTruncation { discarded_bytes })
            } else {
                None
            },
            fully_drained,
        }
    }
}

/// What is kept of both streams of a step's process.
#[derive(Clone, Debug, PartialEq, Eq)]
pub struct StepDiagnostic {
    standard_output: CapturedDiagnosticStream,
    standard_error: CapturedDiagnosticStream,
}

impl StepDiagnostic {
    /// What was kept of the standard output.
    pub closed spec fn output(self) -> CapturedDiagnosticStream {
        self.standard_output
    }

    /// What was kept of the standard error.
    pub closed spec fn error(self) -> CapturedDiagnosticStream {
        self.standard_error
    }

    /// What is kept of two streams.
    pub fn from_streams(
        standard_output: CapturedDiagnosticStream,
        standard_error: CapturedDiagnosticStream,
    ) -> (diagnostic: Self)
        ensures
            diagnostic.output() == standard_output,
            diagnostic.error() == standard_error,
    {
        StepDiagnostic { standard_output, standard_error }
    }

    /// What was kept of the standard output.
    pub fn standard_output(&self) -> (stream: &CapturedDiagnosticStream)
        ensures
            *stream == self.output(),
    {
        &self.standard_output
    }

    /// What was kept of the standard error.
    pub fn standard_error(&self) -> (stream: &CapturedDiagnosticStream)
        ensures
            *stream == self.error(),
    {
        &self.standard_error
    }
}

/// A capture in progress: how much may be kept, what is kept, and how much was
/// not.
pub struct CaptureModel {
    pub maximum: nat,
    pub retained: Seq<u8>,
    pub discarded: nat,
}

/// A sum that stops at the largest number of 64 bits.
pub open spec fn saturating_sum(left: nat, right: nat) -> nat {
    if left + right > u64::MAX {
        u64::MAX as nat
    } else {
        left + right
    }
}

/// How many of `length` further bytes are kept.
pub open spec fn admitted(capture: CaptureModel, length: nat) -> nat {
    if capture.maximum <= capture.retained.len() {
        0
    } else if capture.maximum - capture.retained.len() < length {
        (capture.maximum - capture.retained.len()) as nat
    } else {
        length
    }
}

/// A capture after some further bytes: as many are kept as may be, the others are
/// counted.
pub open spec fn captured(capture: CaptureModel, bytes: Seq<u8>) -> CaptureModel {
    let count = admitted(capture, bytes.len());
    CaptureModel {
        maximum: capture.maximum,
        retained: capture.retained + bytes.take(count as int),
        discarded: saturating_sum(capture.discarded, (bytes.len() - count) as nat),
    }
}

/// A capture in progress.
pub struct DiagnosticStreamCapture {
    maximum_bytes: u64,
    retained: Vec<u8>,
    discarded_bytes: u64,
}

impl View for DiagnosticStreamCapture {
    type V = CaptureModel;

    closed spec fn view(&self) -> CaptureModel {
        CaptureModel {
            maximum: self.maximum_bytes as nat,
            retained: self.retained@,
            discarded: self.discarded_bytes as nat,
        }
    }
}

impl DiagnosticStreamCapture {
    /// Begins to keep up to `maximum_bytes` of a stream.
    pub fn new(maximum_bytes: u64) -> (capture: Self)
        ensures
            capture@ == (CaptureModel {
                maximum: maximum_bytes as nat,
                retained: Seq::empty(),
                discarded: 0,
            }),
    {
        DiagnosticStreamCapture { maximum_bytes, retained: Vec::new(), discarded_bytes: 0 }
    }

    /// Takes further bytes of the stream.
    pub fn capture(&mut self, bytes: &[u8])
        ensures
            final(self)@ == captured(old(self)@, bytes@),
    {
        let retained: u64 = self.retained.len() as u64;
        let length: u64 = bytes.len() as u64;
        let room: u64 = if self.maximum_bytes <= retained {
            0
        } else {
            self.maximum_bytes - retained
        };
        let count: u64 = if room < length {
            room
        } else {
            length
        };
        let kept: &[u8] = &bytes[0..count as usize];
        assert(kept@ =~= bytes@.take(count as int));
        append_bytes(&mut self.retained, kept);
        self.discarded_bytes = self.discarded_bytes.saturating_add(length - count);
    }

    /// Ends the capture.
    pub fn finish(self, fully_drained: bool) -> (stream: CapturedDiagnosticStream)
        ensures
            stream@ == (StreamModel {
                bytes: self@.retained,
                discarded: reported(self@.discarded as u64),
                fully_drained,
            }),
    {
        CapturedDiagnosticStream::from_parts(self.retained, self.discarded_bytes, fully_drained)
    }
}

/// It does not matter in which pieces a stream arrives, and never is more kept
/// than may be.
pub proof fn law_capture_is_chunk_invariant(
    capture: CaptureModel,
    front: Seq<u8>,
    back: Seq<u8>,
)
    requires
        capture.retained.len() <= capture.maximum,
    ensures
        captured(captured(capture, front), back) == captured(capture, front + back),
        captured(capture, front).retained.len() <= capture.maximum,
{
    let whole = captured(capture, front + back);
    let parts = captured(captured(capture, front), back);
    assert(parts.retained =~= whole.retained);
}

/// A capture keeps the beginning of its stream, up to its maximum, and counts
/// exactly the rest.
pub proof fn law_capture_keeps_the_beginning(maximum: nat, stream: Seq<u8>)
    ensures
        ({
            let begun = CaptureModel { maximum, retained: Seq::empty(), discarded: 0 };
            let done = captured(begun, stream);
            &&& done.retained.is_prefix_of(stream)
            &&& done.retained.len() == (if stream.len() <= maximum {
                stream.len()
            } else {
                maximum
            })
            &&& stream.len() - done.retained.len() <= u64::MAX ==> done.retained.len()
                + done.discarded == stream.len()
        }),
{
    let begun = CaptureModel { maximum, retained: Seq::empty(), discarded: 0 };
    let done = captured(begun, stream);
    assert(stream.take(done.retained.len() as int) =~= done.retained);
}

/// What a read of a stream came to.
pub enum StreamEvent<'a> {
    Read { bytes: &'a [u8] },
    Ended,
    Interrupted,
    Failed,
}

/// What the reader of a stream does next.
#[derive(Clone, Copy, Debug, PartialEq, Eq, Structural)]
pub enum StreamAction {
    /// Tells the observer of what was read, under this number, and reads on.
    Observe { sequence: u64 },
    /// Reads again.
    ReadAgain,
    /// Tells the observer that the stream is closed, under this number, and ends
    /// the capture.
    Close { sequence: u64, fully_drained: bool },
}

/// A stream that is being read: its capture, and the number of its next
/// observation.
pub struct StreamDrain {
    capture: DiagnosticStreamCapture,
    sequence: u64,
}

impl StreamDrain {
    /// What was captured so far.
    pub closed spec fn captured_so_far(&self) -> CaptureModel {
        self.capture@
    }

    /// The number of the next observation.
    pub closed spec fn next_sequence(&self) -> u64 {
        self.sequence
    }

    /// Begins to read a stream.
    pub fn begin(maximum_bytes: u64, first_sequence: u64) -> (drain: Self)
        ensures
            drain.captured_so_far() == (CaptureModel {
                maximum: maximum_bytes as nat,
                retained: Seq::empty(),
                discarded: 0,
            }),
            drain.next_sequence() == first_sequence,
    {
        StreamDrain {
            capture: DiagnosticStreamCapture::new(maximum_bytes),
            sequence: first_sequence,
        }
    }

    /// The number of the next observation.
    pub fn sequence(&self) -> (sequence: u64)
        ensures
            sequence == self.next_sequence(),
    {
        self.sequence
    }

    /// Takes up what a read came to. What is read is captured, and observed under
    /// the next number; the closing observation takes the number after the last.
    pub fn drain_stream(&mut self, event: StreamEvent<'_>) -> (action: StreamAction)
        requires
            old(self).next_sequence() < u64::MAX,
        ensures
            match event {
                StreamEvent::Read { bytes } => {
                    &&& action == (StreamAction::Observe { sequence: old(self).next_sequence() })
                    &&& final(self).captured_so_far() == captured(
                        old(self).captured_so_far(),
                        bytes@,
                    )
                    &&& final(self).next_sequence() == old(self).next_sequence() + 1
                },
                StreamEvent::Interrupted => action == StreamAction::ReadAgain && *final(self)
                    == *old(self),
                StreamEvent::Ended => action == (StreamAction::Close {
                    sequence: old(self).next_sequence(),
                    fully_drained: true,
                }) && *final(self) == *old(self),
                StreamEvent::Failed => action == (StreamAction::Close {
                    sequence: old(self).next_sequence(),
                    fully_drained: false,
                }) && *final(self) == *old(self),
            },
    {
        match event {
            StreamEvent::Read { bytes } => {
                self.capture.capture(bytes);
                let sequence: u64 = self.sequence;
                self.sequence = sequence + 1;
                StreamAction::Observe { sequence }
            },
            StreamEvent::Interrupted => StreamAction::ReadAgain,
            StreamEvent::Ended => StreamAction::Close {
                sequence: self.sequence,
                fully_drained: true,
            },
            StreamEvent::Failed => StreamAction::Close {
                sequence: self.sequence,
                fully_drained: false,
            },
        }
    }

    /// What is kept of the stream.
    pub fn finish(self, fully_drained: bool) -> (stream: CapturedDiagnosticStream)
        ensures
            stream@ == (StreamModel {
                bytes: self.captured_so_far().retained,
                discarded: reported(self.captured_so_far().discarded as u64),
                fully_drained,
            }),
    {
        self.capture.finish(fully_drained)
    }
}

/// A whole number, with a sign where it is negative.
pub open spec fn signed_text(value: int) -> Seq<char> {
    if value < 0 {
        "-"@ + decimal_text((-value) as nat)
    } else {
        decimal_text(value as nat)
    }
}

/// The JSON of an error number that may be missing.
pub open spec fn raw_error_text(raw_os_error: Option<i32>) -> Seq<char> {
    match raw_os_error {
        Some(value) => signed_text(value as int),
        None => "null"@,
    }
}

/// Appends the JSON of an error number that may be missing.
fn push_raw_error(text: &mut String, raw_os_error: Option<i32>)
    ensures
        final(text)@ == old(text)@ + raw_error_text(raw_os_error),
{
    match raw_os_error {
        Some(value) => {
            let wide: i64 = value as i64;
            if wide < 0 {
                push_text(text, "-");
                push_decimal_text(text, (-wide) as u64);
                assert(text@ =~= old(text)@ + signed_text(value as int));
            } else {
                push_decimal_text(text, wide as u64);
            }
        },
        None => push_text(text, "null"),
    }
}

/// The line that tells why a process could not be started, its texts already
/// quoted.
pub open spec fn spawn_line(
    quoted_category: Seq<char>,
    raw_os_error: Option<i32>,
    quoted_message: Seq<char>,
) -> Seq<char> {
    "{\"schemaVersion\":1,\"stage\":\"process_spawn\",\"errorCategory\":"@ + quoted_category
        + ",\"rawOsError\":"@ + raw_error_text(raw_os_error) + ",\"message\":"@ + quoted_message
        + "}\n"@
}

/// The line that tells why a process could not be started, its texts already
/// quoted.
pub fn assemble_spawn_line(
    quoted_category: &str,
    raw_os_error: Option<i32>,
    quoted_message: &str,
) -> (line: String)
    ensures
        line@ == spawn_line(quoted_category@, raw_os_error, quoted_message@),
{
    let mut line: String = String::new();
    push_text(&mut line, "{\"schemaVersion\":1,\"stage\":\"process_spawn\",\"errorCategory\":");
    push_text(&mut line, quoted_category);
    push_text(&mut line, ",\"rawOsError\":");
    push_raw_error(&mut line, raw_os_error);
    push_text(&mut line, ",\"message\":");
    push_text(&mut line, quoted_message);
    push_text(&mut line, "}\n");
    assert(line@ =~= spawn_line(quoted_category@, raw_os_error, quoted_message@));
    line
}

/// Why a process could not be started: what kind of error it was, its number in
/// the operating system, and what it says.
pub struct ProcessSpawnDiagnostic<'a> {
    pub error_category: &'a str,
    pub raw_os_error: Option<i32>,
    pub message: &'a str,
}

impl<'a> ProcessSpawnDiagnostic<'a> {
    /// What is told of an error, by its parts.
    pub fn from_error(
        error_category: &'a str,
        raw_os_error: Option<i32>,
        message: &'a str,
    ) -> (diagnostic: Self)
        ensures
            diagnostic == (ProcessSpawnDiagnostic { error_category, raw_os_error, message }),
    {
        ProcessSpawnDiagnostic { error_category, raw_os_error, message }
    }

    /// The line that is kept.
    pub open spec fn line(self) -> Seq<char> {
        spawn_line(
            json_quoted(self.error_category@),
            self.raw_os_error,
            json_quoted(self.message@),
        )
    }

    /// The bytes of the line that is kept.
    pub fn to_bytes(&self) -> (bytes: Vec<u8>)
        ensures
            bytes@ == encode_utf8(self.line()),
    {
        let category: String = quote_json(self.error_category);
        let message: String = quote_json(self.message);
        let line: String = assemble_spawn_line(
            category.as_str(),
            self.raw_os_error,
            message.as_str(),
        );
        copy_bytes(line.as_str().as_bytes())
    }
}

/// What is kept of one invocation of a step.
pub struct RecordedDiagnostic {
    pub step: String,
    pub invocation: ActionId,
    pub diagnostic: StepDiagnostic,
}

/// Names an invocation of a step.
pub type InvocationKey = (Seq<char>, ActionId);

/// Whether an entry is that of an invocation.
pub open spec fn keyed(entry: RecordedDiagnostic, key: InvocationKey) -> bool {
    entry.step@ == key.0 && entry.invocation == key.1
}

/// Whether the invocation has an entry.
pub open spec fn recorded(entries: Seq<RecordedDiagnostic>, key: InvocationKey) -> bool {
    exists|i: int| 0 <= i < entries.len() && #[trigger] keyed(entries[i], key)
}

/// Where the invocation's entry is.
pub open spec fn entry_index(entries: Seq<RecordedDiagnostic>, key: InvocationKey) -> int {
    choose|i: int| 0 <= i < entries.len() && #[trigger] keyed(entries[i], key)
}

/// No invocation has two entries, and later invocations stand behind earlier ones.
pub open spec fn in_order(entries: Seq<RecordedDiagnostic>) -> bool {
    &&& forall|i: int, j: int|
        #![trigger entries[i], entries[j]]
        0 <= i < j < entries.len() ==> entries[i].invocation.transition_sequence
            <= entries[j].invocation.transition_sequence
    &&& forall|i: int, j: int|
        #![trigger entries[i], entries[j]]
        0 <= i < j < entries.len() ==> !keyed(
            entries[i],
            (entries[j].step@, entries[j].invocation),
        )
}

/// What was kept, by invocation.
pub open spec fn by_invocation(entries: Seq<RecordedDiagnostic>) -> Map<
    InvocationKey,
    StepDiagnostic,
> {
    Map::new(
        |key: InvocationKey| recorded(entries, key),
        |key: InvocationKey| entries[entry_index(entries, key)].diagnostic,
    )
}

/// An invocation's entry is what was kept of it.
proof fn lemma_entry(entries: Seq<RecordedDiagnostic>, index: int)
    requires
        in_order(entries),
        0 <= index < entries.len(),
    ensures
        ({
            let key = (entries[index].step@, entries[index].invocation);
            &&& by_invocation(entries).dom().contains(key)
            &&& by_invocation(entries)[key] == entries[index].diagnostic
            &&& entry_index(entries, key) == index
        }),
{
    let key = (entries[index].step@, entries[index].invocation);
    assert(keyed(entries[index], key));
    let found = entry_index(entries, key);
    assert(keyed(entries[found], key));
    if found < index {
        assert(!keyed(entries[found], (entries[index].step@, entries[index].invocation)));
    }
    if index < found {
        assert(!keyed(entries[index], (entries[found].step@, entries[found].invocation)));
    }
}

/// Replacing an entry replaces what is kept of its invocation.
proof fn lemma_replaced(
    entries: Seq<RecordedDiagnostic>,
    index: int,
    entry: RecordedDiagnostic,
)
    requires
        in_order(entries),
        0 <= index < entries.len(),
        keyed(entries[index], (entry.step@, entry.invocation)),
    ensures
        in_order(entries.update(index, entry)),
        by_invocation(entries.update(index, entry)) == by_invocation(entries).insert(
            (entry.step@, entry.invocation),
            entry.diagnostic,
        ),
{
    let next = entries.update(index, entry);
    let key = (entry.step@, entry.invocation);
    assert(in_order(next));
    lemma_entry(next, index);
    assert forall|other: InvocationKey| recorded(next, other) == recorded(entries, other) by {
        if recorded(next, other) {
            let i = entry_index(next, other);
            assert(keyed(next[i], other));
            assert(keyed(entries[i], other));
        }
        if recorded(entries, other) {
            let i = entry_index(entries, other);
            assert(keyed(entries[i], other));
            assert(keyed(next[i], other));
        }
    }
    assert forall|other: InvocationKey| recorded(next, other) && other != key implies (
    #[trigger] by_invocation(next)[other]) == by_invocation(entries)[other] by {
        let i = entry_index(next, other);
        assert(keyed(next[i], other));
        lemma_entry(next, i);
        lemma_entry(entries, i);
    }
    assert(recorded(entries, key)) by {
        assert(keyed(entries[index], key));
    }
    assert(by_invocation(next) =~= by_invocation(entries).insert(key, entry.diagnostic));
}

/// Inserting an entry adds what is kept of its invocation.
proof fn lemma_inserted(
    entries: Seq<RecordedDiagnostic>,
    index: int,
    entry: RecordedDiagnostic,
)
    requires
        in_order(entries),
        0 <= index <= entries.len(),
        !recorded(entries, (entry.step@, entry.invocation)),
        forall|i: int|
            0 <= i < index ==> (#[trigger] entries[i]).invocation.transition_sequence
                <= entry.invocation.transition_sequence,
        forall|i: int|
            index <= i < entries.len() ==> entry.invocation.transition_sequence <= (
            #[trigger] entries[i]).invocation.transition_sequence,
    ensures
        in_order(entries.insert(index, entry)),
        by_invocation(entries.insert(index, entry)) == by_invocation(entries).insert(
            (entry.step@, entry.invocation),
            entry.diagnostic,
        ),
{
    let next = entries.insert(index, entry);
    let key = (entry.step@, entry.invocation);
    assert forall|i: int| 0 <= i < entries.len() implies !keyed(#[trigger] entries[i], key) by {}
    assert forall|i: int| 0 <= i < next.len() implies (#[trigger] next[i]) == (if i < index {
        entries[i]
    } else if i == index {
        entry
    } else {
        entries[i - 1]
    }) by {}
    assert(in_order(next)) by {
        assert forall|i: int, j: int|
            #![trigger next[i], next[j]]
            0 <= i < j < next.len() implies next[i].invocation.transition_sequence
            <= next[j].invocation.transition_sequence && !keyed(
            next[i],
            (next[j].step@, next[j].invocation),
        ) by {
            let before = if i < index {
                i
            } else {
                i - 1
            };
            let behind = if j < index {
                j
            } else {
                j - 1
            };
            if i != index && j != index {
                assert(next[i] == entries[before] && next[j] == entries[behind]);
            } else if i == index {
                assert(next[j] == entries[behind]);
                assert(!keyed(entries[behind], key));
            } else {
                assert(next[i] == entries[before]);
                assert(!keyed(entries[before], key));
            }
        }
    }
    lemma_entry(next, index);
    assert forall|other: InvocationKey| other != key implies recorded(next, other) == recorded(
        entries,
        other,
    ) by {
        if recorded(next, other) {
            let i = entry_index(next, other);
            assert(keyed(next[i], other));
            if i < index {
                assert(keyed(entries[i], other));
            } else {
                assert(i != index);
                assert(keyed(entries[i - 1], other));
            }
        }
        if recorded(entries, other) {
            let i = entry_index(entries, other);
            assert(keyed(entries[i], other));
            if i < index {
                assert(keyed(next[i], other));
            } else {
                assert(keyed(next[i + 1], other));
            }
        }
    }
    assert forall|other: InvocationKey| recorded(next, other) && other != key implies (
    #[trigger] by_invocation(next)[other]) == by_invocation(entries)[other] by {
        let i = entry_index(next, other);
        assert(keyed(next[i], other));
        lemma_entry(next, i);
        if i < index {
            lemma_entry(entries, i);
        } else {
            lemma_entry(entries, i - 1);
        }
    }
    assert(by_invocation(next) =~= by_invocation(entries).insert(key, entry.diagnostic));
}

/// What is kept of the steps of a run, and which invocations handled a recovery.
pub struct StepDiagnosticLog {
    entries: Vec<RecordedDiagnostic>,
    recovery_handlers: Vec<(String, ActionId)>,
}

impl Default for StepDiagnosticLog {
    fn default() -> (log: Self)
        ensures
            log.diagnostics() == Map::<InvocationKey, StepDiagnostic>::empty(),
            forall|key: InvocationKey| !(#[trigger] log.handled_recovery(key)),
    {
        let log = StepDiagnosticLog { entries: Vec::new(), recovery_handlers: Vec::new() };
        assert(log.diagnostics() =~= Map::<InvocationKey, StepDiagnostic>::empty());
        log
    }
}

impl StepDiagnosticLog {
    /// The entries are in order.
    #[verifier::type_invariant]
    spec fn ordered(&self) -> bool {
        in_order(self.entries@)
    }

    /// What is kept, by invocation.
    pub closed spec fn diagnostics(&self) -> Map<InvocationKey, StepDiagnostic> {
        by_invocation(self.entries@)
    }

    /// Whether an invocation was marked as one that handled a recovery.
    pub closed spec fn handled_recovery(&self, key: InvocationKey) -> bool {
        exists|i: int|
            0 <= i < self.recovery_handlers@.len() && (#[trigger] self.recovery_handlers@[i]).0@
                == key.0 && self.recovery_handlers@[i].1 == key.1
    }

    /// Whether an invocation's entry is one that `get` may return.
    pub open spec fn ordinary(&self, key: InvocationKey) -> bool {
        self.diagnostics().dom().contains(key) && !self.handled_recovery(key)
    }

    /// What is kept of the step's latest invocation that handled no recovery.
    pub fn get(&self, step: &str) -> (found: Option<&StepDiagnostic>)
        ensures
            match found {
                Some(diagnostic) => exists|invocation: ActionId|
                    {
                        &&& #[trigger] self.ordinary((step@, invocation))
                        &&& self.diagnostics()[(step@, invocation)] == *diagnostic
                        &&& forall|other: ActionId| #[trigger]
                            self.ordinary((step@, other)) ==> other.transition_sequence
                                <= invocation.transition_sequence
                    },
                None => forall|invocation: ActionId| !(#[trigger] self.ordinary(
                    (step@, invocation),
                )),
            },
    {
        proof {
            use_type_invariant(self);
        }
        let mut index: usize = self.entries.len();
        while index > 0
            invariant
                index <= self.entries@.len(),
                in_order(self.entries@),
                forall|i: int|
                    index <= i < self.entries@.len() ==> !((#[trigger] self.entries@[i]).step@
                        == step@ && !self.handled_recovery((step@, self.entries@[i].invocation))),
            decreases index,
        {
            index = index - 1;
            let entry: &RecordedDiagnostic = &self.entries[index];
            if text_equal(entry.step.as_str(), step) {
                if !self.is_recovery_handler(step, entry.invocation) {
                    proof {
                        lemma_entry(self.entries@, index as int);
                        let invocation = entry.invocation;
                        assert(self.ordinary((step@, invocation)));
                        assert forall|other: ActionId| #[trigger]
                            self.ordinary((step@, other)) implies other.transition_sequence
                            <= invocation.transition_sequence by {
                            let i = entry_index(self.entries@, (step@, other));
                            assert(keyed(self.entries@[i], (step@, other)));
                        }
                    }
                    return Some(&entry.diagnostic);
                }
            }
        }
        assert forall|invocation: ActionId| !(#[trigger] self.ordinary((step@, invocation))) by {
            if self.ordinary((step@, invocation)) {
                let i = entry_index(self.entries@, (step@, invocation));
                assert(keyed(self.entries@[i], (step@, invocation)));
            }
        }
        None
    }

    /// Marks an invocation as one that handled a recovery.
    pub fn mark_recovery_handler(&mut self, step: &str, invocation: ActionId)
        ensures
            final(self).diagnostics() == old(self).diagnostics(),
            forall|key: InvocationKey| #[trigger]
                final(self).handled_recovery(key) <==> old(self).handled_recovery(key) || key == (
                step@,
                invocation,
            ),
    {
        if self.is_recovery_handler(step, invocation) {
            return ;
        }
        let mut name: String = String::new();
        push_text(&mut name, step);
        assert(name@ =~= step@);
        let ghost before = self.recovery_handlers@;
        let mut log = StepDiagnosticLog::default();
        std::mem::swap(self, &mut log);
        proof {
            use_type_invariant(&log);
        }
        let StepDiagnosticLog { entries, mut recovery_handlers } = log;
        recovery_handlers.push((name, invocation));
        *self = StepDiagnosticLog { entries, recovery_handlers };
        assert forall|key: InvocationKey| #[trigger]
            self.handled_recovery(key) <==> old(self).handled_recovery(key) || key == (
            step@,
            invocation,
        ) by {
            let after = self.recovery_handlers@;
            if old(self).handled_recovery(key) {
                let i = choose|i: int|
                    0 <= i < before.len() && (#[trigger] before[i]).0@ == key.0 && before[i].1
                        == key.1;
                assert(after[i].0@ == key.0 && after[i].1 == key.1);
            }
            if key == (step@, invocation) {
                assert(after[before.len() as int].0@ == key.0);
            }
            if self.handled_recovery(key) {
                let i = choose|i: int|
                    0 <= i < after.len() && (#[trigger] after[i]).0@ == key.0 && after[i].1
                        == key.1;
                if i < before.len() {
                    assert(before[i].0@ == key.0 && before[i].1 == key.1);
                }
            }
        }
    }

    /// Whether an invocation was marked as one that handled a recovery.
    pub fn is_recovery_handler(&self, step: &str, invocation: ActionId) -> (handles: bool)
        ensures
            handles == self.handled_recovery((step@, invocation)),
    {
        let mut index: usize = 0;
        while index < self.recovery_handlers.len()
            invariant
                index <= self.recovery_handlers@.len(),
                forall|i: int|
                    0 <= i < index ==> !((#[trigger] self.recovery_handlers@[i]).0@ == step@
                        && self.recovery_handlers@[i].1 == invocation),
            decreases self.recovery_handlers@.len() - index,
        {
            let handler: &(String, ActionId) = &self.recovery_handlers[index];
            if text_equal(handler.0.as_str(), step) && handler.1 == invocation {
                return true;
            }
            index = index + 1;
        }
        false
    }

    /// Where the invocation's entry is, if it has one.
    fn position(&self, step: &str, invocation: ActionId) -> (position: Option<usize>)
        ensures
            match position {
                Some(index) => index < self.entries@.len() && keyed(
                    self.entries@[index as int],
                    (step@, invocation),
                ),
                None => !recorded(self.entries@, (step@, invocation)),
            },
    {
        let mut index: usize = 0;
        while index < self.entries.len()
            invariant
                index <= self.entries@.len(),
                forall|i: int|
                    0 <= i < index ==> !keyed(#[trigger] self.entries@[i], (step@, invocation)),
            decreases self.entries@.len() - index,
        {
            let entry: &RecordedDiagnostic = &self.entries[index];
            if text_equal(entry.step.as_str(), step) && entry.invocation == invocation {
                return Some(index);
            }
            index = index + 1;
        }
        None
    }

    /// What is kept of an invocation.
    pub fn get_invocation(&self, step: &str, invocation: ActionId) -> (found: Option<
        &StepDiagnostic,
    >)
        ensures
            match found {
                Some(diagnostic) => self.diagnostics().dom().contains((step@, invocation))
                    && self.diagnostics()[(step@, invocation)] == *diagnostic,
                None => !self.diagnostics().dom().contains((step@, invocation)),
            },
    {
        match self.position(step, invocation) {
            Some(index) => {
                proof {
                    use_type_invariant(self);
                    lemma_entry(self.entries@, index as int);
                }
                Some(&self.entries[index].diagnostic)
            },
            None => None,
        }
    }

    /// The invocations of a step of which something is kept, from the first to the
    /// last.
    pub fn invocation_ids(&self, step: &str) -> (ids: Vec<ActionId>)
        ensures
            forall|i: int, j: int|
                #![trigger ids@[i], ids@[j]]
                0 <= i < j < ids@.len() ==> ids@[i].transition_sequence
                    < ids@[j].transition_sequence,
            forall|invocation: ActionId| #[trigger]
                ids@.contains(invocation) <==> self.diagnostics().dom().contains(
                    (step@, invocation),
                ),
    {
        proof {
            use_type_invariant(self);
        }
        let mut ids: Vec<ActionId> = Vec::new();
        let mut index: usize = 0;
        while index < self.entries.len()
            invariant
                index <= self.entries@.len(),
                in_order(self.entries@),
                forall|i: int, j: int|
                    #![trigger ids@[i], ids@[j]]
                    0 <= i < j < ids@.len() ==> ids@[i].transition_sequence
                        < ids@[j].transition_sequence,
                forall|i: int|
                    0 <= i < ids@.len() ==> exists|k: int|
                        0 <= k < index && keyed(
                            #[trigger] self.entries@[k],
                            (step@, #[trigger] ids@[i]),
                        ),
                forall|k: int|
                    0 <= k < index && (#[trigger] self.entries@[k]).step@ == step@
                        ==> ids@.contains(self.entries@[k].invocation),
            decreases self.entries@.len() - index,
        {
            let entry: &RecordedDiagnostic = &self.entries[index];
            if text_equal(entry.step.as_str(), step) {
                let ghost before = ids@;
                ids.push(entry.invocation);
                assert(ids@ == before.push(entry.invocation));
                assert forall|i: int| 0 <= i < before.len() implies (
                #[trigger] before[i]).transition_sequence
                    < entry.invocation.transition_sequence by {
                    let k = choose|k: int|
                        0 <= k < index && keyed(
                            #[trigger] self.entries@[k],
                            (step@, #[trigger] before[i]),
                        );
                    assert(!keyed(
                        self.entries@[k],
                        (self.entries@[index as int].step@, self.entries@[index as int].invocation),
                    ));
                }
                assert forall|i: int| 0 <= i < ids@.len() implies exists|k: int|
                    0 <= k < index + 1 && keyed(
                        #[trigger] self.entries@[k],
                        (step@, #[trigger] ids@[i]),
                    ) by {
                    if i < before.len() {
                        assert(ids@[i] == before[i]);
                        let k = choose|k: int|
                            0 <= k < index && keyed(
                                #[trigger] self.entries@[k],
                                (step@, #[trigger] before[i]),
                            );
                        assert(keyed(self.entries@[k], (step@, ids@[i])));
                    } else {
                        assert(keyed(self.entries@[index as int], (step@, ids@[i])));
                    }
                }
                assert forall|k: int|
                    0 <= k < index + 1 && (#[trigger] self.entries@[k]).step@
                        == step@ implies ids@.contains(self.entries@[k].invocation) by {
                    if k < index {
                        let i = choose|i: int|
                            0 <= i < before.len() && before[i] == self.entries@[k].invocation;
                        assert(before.contains(self.entries@[k].invocation));
                        assert(ids@[i] == self.entries@[k].invocation);
                    } else {
                        assert(ids@[before.len() as int] == entry.invocation);
                    }
                }
            }
            index = index + 1;
        }
        assert forall|invocation: ActionId| #[trigger]
            ids@.contains(invocation) <==> self.diagnostics().dom().contains(
                (step@, invocation),
            ) by {
            if ids@.contains(invocation) {
                let i = choose|i: int| 0 <= i < ids@.len() && ids@[i] == invocation;
                let k = choose|k: int|
                    0 <= k < index && keyed(
                        #[trigger] self.entries@[k],
                        (step@, #[trigger] ids@[i]),
                    );
                assert(keyed(self.entries@[k], (step@, invocation)));
            }
            if recorded(self.entries@, (step@, invocation)) {
                let k = entry_index(self.entries@, (step@, invocation));
                assert(keyed(self.entries@[k], (step@, invocation)));
            }
        }
        ids
    }

    /// Keeps what a step's process that could not be started left to tell: a line
    /// on its standard error.
    pub fn record_process_spawn_failure(
        &mut self,
        step: String,
        invocation: ActionId,
        maximum_stream_bytes: u64,
        error: &ProcessSpawnDiagnostic<'_>,
    )
        ensures
            forall|key: InvocationKey|
                #![trigger final(self).handled_recovery(key)]
                final(self).handled_recovery(key) == old(self).handled_recovery(key),
            exists|diagnostic: StepDiagnostic|
                {
                    &&& final(self).diagnostics() == old(self).diagnostics().insert(
                        (step@, invocation),
                        diagnostic,
                    )
                    &&& #[trigger] spawn_failure_kept(
                        diagnostic,
                        maximum_stream_bytes,
                        encode_utf8(error.line()),
                    )
                },
    {
        let bytes: Vec<u8> = error.to_bytes();
        let standard_output: CapturedDiagnosticStream = DiagnosticStreamCapture::new(
            maximum_stream_bytes,
        ).finish(true);
        let mut standard_error: DiagnosticStreamCapture = DiagnosticStreamCapture::new(
            maximum_stream_bytes,
        );
        standard_error.capture(bytes.as_slice());
        let standard_error: CapturedDiagnosticStream = standard_error.finish(true);
        self.record(step, invocation, standard_output, standard_error);
        assert(exists|diagnostic: StepDiagnostic|
            {
                &&& self.diagnostics() == old(self).diagnostics().insert(
                    (step@, invocation),
                    diagnostic,
                )
                &&& #[trigger] spawn_failure_kept(
                    diagnostic,
                    maximum_stream_bytes,
                    encode_utf8(error.line()),
                )
            }) by {
            let diagnostic = choose|diagnostic: StepDiagnostic|
                {
                    &&& self.diagnostics() == old(self).diagnostics().insert(
                        (step@, invocation),
                        diagnostic,
                    )
                    &&& #[trigger] diagnostic.output() == standard_output
                    &&& diagnostic.error() == standard_error
                };
            assert(spawn_failure_kept(
                diagnostic,
                maximum_stream_bytes,
                encode_utf8(error.line()),
            ));
        }
    }

    /// Keeps the streams of an invocation, in place of what was kept of it before.
    pub fn record(
        &mut self,
        step: String,
        invocation: ActionId,
        standard_output: CapturedDiagnosticStream,
        standard_error: CapturedDiagnosticStream,
    )
        ensures
            exists|diagnostic: StepDiagnostic|
                {
                    &&& final(self).diagnostics() == old(self).diagnostics().insert(
                        (step@, invocation),
                        diagnostic,
                    )
                    &&& #[trigger] diagnostic.output() == standard_output
                    &&& diagnostic.error() == standard_error
                },
            forall|key: InvocationKey|
                #![trigger final(self).handled_recovery(key)]
                final(self).handled_recovery(key) == old(self).handled_recovery(key),
    {
        let known: Option<usize> = self.position(step.as_str(), invocation);
        let mut log = StepDiagnosticLog::default();
        std::mem::swap(self, &mut log);
        proof {
            use_type_invariant(&log);
        }
        let StepDiagnosticLog { mut entries, recovery_handlers } = log;
        let ghost before = entries@;
        let entry: RecordedDiagnostic = RecordedDiagnostic {
            step,
            invocation,
            diagnostic: StepDiagnostic { standard_output, standard_error },
        };
        match known {
            Some(index) => {
                proof {
                    lemma_replaced(before, index as int, entry);
                }
                entries.set(index, entry);
            },
            None => {
                let mut index: usize = entries.len();
                while index > 0 && invocation.transition_sequence
                    < entries[index - 1].invocation.transition_sequence
                    invariant
                        index <= entries@.len(),
                        in_order(entries@),
                        entries@ == before,
                        forall|i: int|
                            index <= i < entries@.len() ==> invocation.transition_sequence
                                <= (#[trigger] entries@[i]).invocation.transition_sequence,
                    decreases index,
                {
                    index = index - 1;
                }
                proof {
                    assert forall|i: int| 0 <= i < index implies (
                    #[trigger] before[i]).invocation.transition_sequence
                        <= invocation.transition_sequence by {
                        assert(before[index - 1].invocation.transition_sequence
                            <= invocation.transition_sequence);
                        assert(i < index - 1 ==> before[i].invocation.transition_sequence
                            <= before[index - 1].invocation.transition_sequence);
                    }
                    lemma_inserted(before, index as int, entry);
                }
                entries.insert(index, entry);
            },
        }
        *self = StepDiagnosticLog { entries, recovery_handlers };
        assert(self.recovery_handlers@ == old(self).recovery_handlers@);
        assert(entry.diagnostic.output() == standard_output);
    }
}

/// Whether a diagnostic tells of a process that could not be started: nothing on
/// its output, the line on its error.
pub open spec fn spawn_failure_kept(
    diagnostic: StepDiagnostic,
    maximum: u64,
    line: Seq<u8>,
) -> bool {
    let begun = CaptureModel { maximum: maximum as nat, retained: Seq::empty(), discarded: 0 };
    let done = captured(begun, line);
    &&& diagnostic.output()@ == (StreamModel {
        bytes: Seq::empty(),
        discarded: None,
        fully_drained: true,
    })
    &&& diagnostic.error()@ == (StreamModel {
        bytes: done.retained,
        discarded: reported(done.discarded as u64),
        fully_drained: true,
    })
}

} // verus!
