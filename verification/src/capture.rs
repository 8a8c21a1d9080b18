//! Line capture: the bytes of one output stream, cut into lines and stamped
//! with the time at which each line was complete.

use crate::text::opt_view;
use crate::tools::{log_entry, log_entry_text, stamp_text, to_string, Timestamp, TimestampView};
use vstd::prelude::*;
use vstd::utf8::{
    decode_utf8, decode_utf8_encode_utf8, encode_utf8, is_char_boundary_iff_not_is_continuation_byte,
    pop_first_scalar, valid_utf8, valid_utf8_split,
};

verus! {

/// Which of a process's two output streams a line came from.
#[derive(Clone, Copy, PartialEq, Eq, Debug, Structural)]
pub enum StreamTag {
    Stdout,
    Stderr,
}

/// The name of a stream in the log.
pub open spec fn stream_name(stream: StreamTag) -> Seq<char> {
    match stream {
        StreamTag::Stdout => "stdout"@,
        StreamTag::Stderr => "stderr"@,
    }
}

impl StreamTag {
    /// The name of this stream in the log.
    pub fn name(&self) -> (name: &'static str)
        ensures
            name@ == stream_name(*self),
    {
        match self {
            StreamTag::Stdout => "stdout",
            StreamTag::Stderr => "stderr",
        }
    }
}

/// One captured line: its stream, when its last byte was read, and its text
/// without the line terminator.
#[derive(Debug, PartialEq, Eq)]
pub struct TimestampedLine {
    pub stream: StreamTag,
    pub captured_at: Timestamp,
    pub text: String,
}

/// The mathematical content of a [`TimestampedLine`].
pub struct TimestampedLineView {
    pub stream: StreamTag,
    pub captured_at: TimestampView,
    pub text: Seq<char>,
}

impl View for TimestampedLine {
    type V = TimestampedLineView;

    open spec fn view(&self) -> TimestampedLineView {
        TimestampedLineView {
            stream: self.stream,
            captured_at: self.captured_at@,
            text: self.text@,
        }
    }
}

/// A captured line as the log shows it: stamped with the moment of its
/// capture, under the name of the actor whose command wrote it, in the
/// category of its stream. There is no such line where the moment has no
/// stamp.
pub open spec fn output_line_text(actor: Seq<char>, line: TimestampedLineView) -> Option<Seq<char>> {
    match stamp_text(line.captured_at) {
        Some(stamp) => Some(log_entry_text(stamp, actor, stream_name(line.stream), line.text)),
        None => None,
    }
}

impl TimestampedLine {
    /// Writes this line for the log of the given actor.
    pub fn log(&self, actor: &str) -> (entry: Option<String>)
        ensures
            opt_view(entry) == output_line_text(actor@, self@),
    {
        match to_string(&self.captured_at) {
            Some(stamp) => Some(
                log_entry(stamp.as_str(), actor, self.stream.name(), self.text.as_str()),
            ),
            None => None,
        }
    }
}

/// The content of a list of captured lines.
pub open spec fn lines_view(lines: Seq<TimestampedLine>) -> Seq<TimestampedLineView> {
    Seq::new(lines.len(), |i: int| lines[i]@)
}

/// The byte that ends a line.
pub open spec fn newline() -> u8 {
    10u8
}

/// The number of bytes before the first line terminator, or the length of
/// `bytes` where there is none.
pub open spec fn line_end(bytes: Seq<u8>) -> int
    decreases bytes.len(),
{
    if bytes.len() == 0 || bytes[0] == newline() {
        0
    } else {
        1 + line_end(bytes.drop_first())
    }
}

/// The terminated lines of a stream, in order, each without its terminator.
pub open spec fn complete_lines(bytes: Seq<u8>) -> Seq<Seq<u8>>
    decreases bytes.len(),
{
    let end = line_end(bytes);
    if 0 <= end < bytes.len() {
        seq![bytes.take(end)] + complete_lines(bytes.skip(end + 1))
    } else {
        Seq::empty()
    }
}

/// What follows the last line terminator of a stream: the beginning of a line
/// that has not ended yet.
pub open spec fn unfinished(bytes: Seq<u8>) -> Seq<u8>
    decreases bytes.len(),
{
    let end = line_end(bytes);
    if 0 <= end < bytes.len() {
        unfinished(bytes.skip(end + 1))
    } else {
        bytes
    }
}

/// The first line terminator stands where `line_end` says, and nowhere
/// before.
pub proof fn lemma_line_end(bytes: Seq<u8>)
    ensures
        0 <= line_end(bytes) <= bytes.len(),
        line_end(bytes) < bytes.len() ==> bytes[line_end(bytes)] == newline(),
        forall|j: int| 0 <= j < line_end(bytes) ==> bytes[j] != newline(),
    decreases bytes.len(),
{
    if bytes.len() != 0 && bytes[0] != newline() {
        let rest = bytes.drop_first();
        lemma_line_end(rest);
        assert forall|j: int| 0 <= j < line_end(bytes) implies bytes[j] != newline() by {
            if j > 0 {
                assert(bytes[j] == rest[j - 1]);
            }
        }
    }
}

/// What holds no terminator is one unfinished line.
pub proof fn lemma_unterminated(bytes: Seq<u8>)
    requires
        forall|j: int| 0 <= j < bytes.len() ==> bytes[j] != newline(),
    ensures
        complete_lines(bytes) == Seq::<Seq<u8>>::empty(),
        unfinished(bytes) == bytes,
{
    lemma_line_end(bytes);
}

/// No line holds a terminator, and neither does the unfinished rest.
pub proof fn lemma_lines_hold_no_terminator(bytes: Seq<u8>)
    ensures
        forall|k: int, j: int|
            0 <= k < complete_lines(bytes).len() && 0 <= j < complete_lines(bytes)[k].len()
                ==> #[trigger] complete_lines(bytes)[k][j] != newline(),
        forall|j: int| 0 <= j < unfinished(bytes).len() ==> #[trigger] unfinished(bytes)[j] != newline(),
    decreases bytes.len(),
{
    let end = line_end(bytes);
    lemma_line_end(bytes);
    if end < bytes.len() {
        let rest = bytes.skip(end + 1);
        lemma_lines_hold_no_terminator(rest);
        let lines = complete_lines(bytes);
        assert forall|k: int, j: int| 0 <= k < lines.len() && 0 <= j < lines[k].len() implies #[trigger] lines[k][j]
            != newline() by {
            if k > 0 {
                assert(lines[k] == complete_lines(rest)[k - 1]);
            }
        }
        assert(unfinished(bytes) == unfinished(rest));
    }
}

proof fn lemma_line_end_of_longer(first: Seq<u8>, then: Seq<u8>)
    requires
        line_end(first) < first.len(),
    ensures
        line_end(first + then) == line_end(first),
    decreases first.len(),
{
    lemma_line_end(first);
    if first[0] != newline() {
        assert((first + then).drop_first() =~= first.drop_first() + then);
        lemma_line_end_of_longer(first.drop_first(), then);
    }
}

/// The pieces do not matter: the lines of a stream that arrives in two
/// pieces are the lines of the first piece, followed by the lines of what
/// the first piece left unfinished together with the second.
pub proof fn lemma_split_compose(first: Seq<u8>, then: Seq<u8>)
    ensures
        complete_lines(first + then) == complete_lines(first) + complete_lines(
            unfinished(first) + then,
        ),
        unfinished(first + then) == unfinished(unfinished(first) + then),
    decreases first.len(),
{
    let end = line_end(first);
    lemma_line_end(first);
    if end < first.len() {
        let rest = first.skip(end + 1);
        lemma_line_end_of_longer(first, then);
        assert((first + then).take(end) =~= first.take(end));
        assert((first + then).skip(end + 1) =~= rest + then);
        lemma_split_compose(rest, then);
    }
}

/// Reading one more byte either ends the unfinished line or lengthens it.
pub proof fn lemma_scan_push(bytes: Seq<u8>, c: u8)
    ensures
        c == newline() ==> complete_lines(bytes.push(c)) == complete_lines(bytes).push(
            unfinished(bytes),
        ) && unfinished(bytes.push(c)) == Seq::<u8>::empty(),
        c != newline() ==> complete_lines(bytes.push(c)) == complete_lines(bytes) && unfinished(
            bytes.push(c),
        ) == unfinished(bytes).push(c),
{
    let open = unfinished(bytes);
    let more = open.push(c);
    assert(bytes.push(c) =~= bytes + seq![c]);
    assert(more =~= open + seq![c]);
    lemma_split_compose(bytes, seq![c]);
    lemma_lines_hold_no_terminator(bytes);
    if c == newline() {
        lemma_line_end(more);
        assert(more[open.len() as int] == newline());
        assert(more.take(open.len() as int) =~= open);
        assert(more.skip(open.len() as int + 1) =~= Seq::<u8>::empty());
        lemma_unterminated(Seq::<u8>::empty());
    } else {
        lemma_unterminated(more);
    }
}

/// Lines written out again, each followed by a terminator.
pub open spec fn joined(lines: Seq<Seq<u8>>) -> Seq<u8>
    decreases lines.len(),
{
    if lines.len() == 0 {
        Seq::empty()
    } else {
        lines[0] + seq![newline()] + joined(lines.drop_first())
    }
}

/// Cutting a stream into lines loses nothing: the terminated lines, written
/// out again with their terminators and followed by the unfinished rest, are
/// the stream.
pub proof fn lemma_split_round_trip(bytes: Seq<u8>)
    ensures
        joined(complete_lines(bytes)) + unfinished(bytes) == bytes,
    decreases bytes.len(),
{
    let end = line_end(bytes);
    lemma_line_end(bytes);
    if end < bytes.len() {
        let rest = bytes.skip(end + 1);
        lemma_split_round_trip(rest);
        let lines = complete_lines(bytes);
        assert(lines.drop_first() =~= complete_lines(rest));
        assert(joined(lines) + unfinished(bytes) =~= bytes.take(end) + seq![newline()] + (joined(
            complete_lines(rest),
        ) + unfinished(rest)));
    }
}

/// In well-formed UTF-8 a line terminator stands between characters: what
/// precedes it and what follows it are well-formed too.
proof fn lemma_valid_around_terminator(bytes: Seq<u8>, i: int)
    requires
        valid_utf8(bytes),
        0 <= i < bytes.len(),
        bytes[i] == newline(),
    ensures
        valid_utf8(bytes.take(i)),
        valid_utf8(bytes.skip(i + 1)),
{
    is_char_boundary_iff_not_is_continuation_byte(bytes, i);
    valid_utf8_split(bytes, i);
    let tail = bytes.subrange(i, bytes.len() as int);
    assert(pop_first_scalar(tail) =~= bytes.skip(i + 1));
}

/// The lines of well-formed UTF-8 are well-formed UTF-8, and so is the
/// unfinished rest.
pub proof fn lemma_lines_of_valid_text(bytes: Seq<u8>)
    requires
        valid_utf8(bytes),
    ensures
        forall|k: int| 0 <= k < complete_lines(bytes).len() ==> valid_utf8(#[trigger] complete_lines(bytes)[k]),
        valid_utf8(unfinished(bytes)),
    decreases bytes.len(),
{
    let end = line_end(bytes);
    lemma_line_end(bytes);
    if end < bytes.len() {
        let rest = bytes.skip(end + 1);
        lemma_valid_around_terminator(bytes, end);
        lemma_lines_of_valid_text(rest);
        let lines = complete_lines(bytes);
        assert forall|k: int| 0 <= k < lines.len() implies valid_utf8(#[trigger] lines[k]) by {
            if k > 0 {
                assert(lines[k] == complete_lines(rest)[k - 1]);
            }
        }
    }
}

/// The text that `String::from_utf8_lossy` reads from a sequence of bytes.
pub uninterp spec fn lossy_text(bytes: Seq<u8>) -> Seq<char>;

/// The text of a line: the characters that its bytes encode where they are
/// well-formed UTF-8, and otherwise what a lossy reading makes of them.
pub open spec fn text_of(bytes: Seq<u8>) -> Seq<char> {
    if valid_utf8(bytes) {
        decode_utf8(bytes)
    } else {
        lossy_text(bytes)
    }
}

/// Calls `String::from_utf8_lossy` and takes ownership of the text.
///
/// Believed, not proved: bytes that are well-formed UTF-8 are read as the
/// characters they encode, and what is made of other bytes depends on the
/// bytes alone.
#[verifier::external_body]
fn text_of_bytes(bytes: &Vec<u8>) -> (text: String)
    ensures
        text@ == if valid_utf8(bytes@) {
            decode_utf8(bytes@)
        } else {
            lossy_text(bytes@)
        },
{
    String::from_utf8_lossy(bytes).into_owned()
}

/// The stamps of a list of lines never go back.
pub open spec fn stamps_ordered(lines: Seq<TimestampedLineView>) -> bool {
    forall|i: int, j: int|
        0 <= i <= j < lines.len() ==> (#[trigger] lines[i]).captured_at.key() <= (
        #[trigger] lines[j]).captured_at.key()
}

/// `lines` are the terminated lines of `bytes`, read as text and tagged with
/// `stream`.
pub open spec fn lines_of(
    lines: Seq<TimestampedLineView>,
    stream: StreamTag,
    bytes: Seq<u8>,
) -> bool {
    &&& lines.len() == complete_lines(bytes).len()
    &&& forall|i: int|
        0 <= i < lines.len() ==> (#[trigger] lines[i]).stream == stream && lines[i].text
            == text_of(complete_lines(bytes)[i])
}

/// Captured lines written out again as bytes, each followed by a terminator.
pub open spec fn written(lines: Seq<TimestampedLineView>) -> Seq<u8>
    decreases lines.len(),
{
    if lines.len() == 0 {
        Seq::empty()
    } else {
        encode_utf8(lines[0].text) + seq![newline()] + written(lines.drop_first())
    }
}

proof fn lemma_written_is_joined(lines: Seq<TimestampedLineView>, raw: Seq<Seq<u8>>)
    requires
        lines.len() == raw.len(),
        forall|i: int| 0 <= i < lines.len() ==> valid_utf8(#[trigger] raw[i]) && lines[i].text == text_of(raw[i]),
    ensures
        written(lines) == joined(raw),
    decreases lines.len(),
{
    if lines.len() > 0 {
        decode_utf8_encode_utf8(raw[0]);
        lemma_written_is_joined(lines.drop_first(), raw.drop_first());
    }
}

/// Capture is faithful to text: where a stream is well-formed UTF-8, the
/// lines captured from it, written out again in order with their
/// terminators and followed by the unfinished rest, are the stream, byte for
/// byte.
pub proof fn lemma_capture_round_trip(
    lines: Seq<TimestampedLineView>,
    stream: StreamTag,
    bytes: Seq<u8>,
)
    requires
        lines_of(lines, stream, bytes),
        valid_utf8(bytes),
    ensures
        written(lines) + unfinished(bytes) == bytes,
{
    lemma_lines_of_valid_text(bytes);
    lemma_written_is_joined(lines, complete_lines(bytes));
    lemma_split_round_trip(bytes);
}

/// Every line of a stream that has ended: the terminated lines, and after
/// them what follows the last terminator, where anything does.
pub open spec fn all_lines(bytes: Seq<u8>) -> Seq<Seq<u8>> {
    if unfinished(bytes).len() > 0 {
        complete_lines(bytes).push(unfinished(bytes))
    } else {
        complete_lines(bytes)
    }
}

/// Lines read as text, tagged with `stream` and all stamped with `at`.
pub open spec fn stamped(raw: Seq<Seq<u8>>, stream: StreamTag, at: TimestampView) -> Seq<
    TimestampedLineView,
> {
    Seq::new(
        raw.len(),
        |i: int| TimestampedLineView { stream, captured_at: at, text: text_of(raw[i]) },
    )
}

proof fn lemma_joined_push(lines: Seq<Seq<u8>>, last: Seq<u8>)
    ensures
        joined(lines.push(last)) == joined(lines) + last + seq![newline()],
    decreases lines.len(),
{
    if lines.len() == 0 {
        assert(lines.push(last).drop_first() =~= Seq::<Seq<u8>>::empty());
        assert(joined(Seq::<Seq<u8>>::empty()) =~= Seq::<u8>::empty());
    } else {
        assert(lines.push(last).drop_first() =~= lines.drop_first().push(last));
        lemma_joined_push(lines.drop_first(), last);
    }
}

/// A finished capture is faithful to text: where a stream is well-formed
/// UTF-8, all the lines captured from it, written out again in order with
/// their terminators, are the stream, byte for byte, with a terminator added
/// where the stream ended within a line.
pub proof fn lemma_finished_capture_round_trip(lines: Seq<TimestampedLineView>, bytes: Seq<u8>)
    requires
        lines.len() == all_lines(bytes).len(),
        forall|i: int| 0 <= i < lines.len() ==> (#[trigger] lines[i]).text == text_of(all_lines(bytes)[i]),
        valid_utf8(bytes),
    ensures
        written(lines) == if unfinished(bytes).len() > 0 {
            bytes.push(newline())
        } else {
            bytes
        },
{
    lemma_lines_of_valid_text(bytes);
    lemma_written_is_joined(lines, all_lines(bytes));
    lemma_split_round_trip(bytes);
    if unfinished(bytes).len() > 0 {
        lemma_joined_push(complete_lines(bytes), unfinished(bytes));
    }
}

/// `now` is not before the stamp of the last of `lines`.
pub open spec fn not_before(lines: Seq<TimestampedLineView>, now: TimestampView) -> bool {
    lines.len() > 0 ==> lines.last().captured_at.key() <= now.key()
}

/// The reader of one output stream. It is fed the bytes as they arrive, in
/// pieces of any size, and holds the lines that have ended so far.
pub struct LineCapture {
    stream: StreamTag,
    lines: Vec<TimestampedLine>,
    pending: Vec<u8>,
    consumed: Ghost<Seq<u8>>,
}

/// The mathematical content of a [`LineCapture`]: its stream, every byte it
/// was fed, and the lines it holds.
pub struct LineCaptureView {
    pub stream: StreamTag,
    pub consumed: Seq<u8>,
    pub lines: Seq<TimestampedLineView>,
}

impl LineCaptureView {
    /// The lines held are the terminated lines of the bytes fed.
    pub open spec fn faithful(self) -> bool {
        lines_of(self.lines, self.stream, self.consumed)
    }

    /// The capture after it was fed `chunk` at `now`: the lines that end
    /// within the chunk are added, each stamped with `now`.
    pub open spec fn fed(self, chunk: Seq<u8>, now: TimestampView) -> LineCaptureView {
        LineCaptureView {
            stream: self.stream,
            consumed: self.consumed + chunk,
            lines: self.lines + stamped(
                complete_lines(unfinished(self.consumed) + chunk),
                self.stream,
                now,
            ),
        }
    }

    /// The lines that the capture hands out when it ends at `now`: the lines
    /// held, and one more, stamped with `now`, for what follows the last
    /// terminator, where anything does.
    pub open spec fn finished(self, now: TimestampView) -> Seq<TimestampedLineView> {
        if unfinished(self.consumed).len() > 0 {
            self.lines.push(
                TimestampedLineView {
                    stream: self.stream,
                    captured_at: now,
                    text: text_of(unfinished(self.consumed)),
                },
            )
        } else {
            self.lines
        }
    }
}

/// Feeding keeps a capture faithful, whatever the pieces are.
pub proof fn lemma_feed_keeps_faith(capture: LineCaptureView, chunk: Seq<u8>, now: TimestampView)
    requires
        capture.faithful(),
    ensures
        capture.fed(chunk, now).faithful(),
{
    lemma_split_compose(capture.consumed, chunk);
}

/// A faithful capture ends with every line of its stream.
pub proof fn lemma_finish_hands_out_all_lines(capture: LineCaptureView, now: TimestampView)
    requires
        capture.faithful(),
    ensures
        capture.finished(now).len() == all_lines(capture.consumed).len(),
        forall|i: int|
            0 <= i < capture.finished(now).len() ==> (#[trigger] capture.finished(now)[i]).stream
                == capture.stream && capture.finished(now)[i].text == text_of(
                all_lines(capture.consumed)[i],
            ),
{
}

/// Stamps follow the clock: where the stamps of a capture are in order and
/// the clock has not gone back behind the last of them, they are still in
/// order after the capture was fed, and the clock is not behind the last of
/// them.
pub proof fn lemma_feed_in_clock_order(capture: LineCaptureView, chunk: Seq<u8>, now: TimestampView)
    requires
        stamps_ordered(capture.lines),
        not_before(capture.lines, now),
    ensures
        stamps_ordered(capture.fed(chunk, now).lines),
        not_before(capture.fed(chunk, now).lines, now),
{
    let count = capture.lines.len() as int;
    let all = capture.fed(chunk, now).lines;
    assert forall|a: int, b: int| 0 <= a <= b < all.len() implies (#[trigger] all[a]).captured_at.key()
        <= (#[trigger] all[b]).captured_at.key() by {
        if a < count {
            assert(all[a] == capture.lines[a]);
        }
    }
}

/// Stamps follow the clock to the end: where the stamps of a capture are in
/// order and the clock has not gone back behind the last of them, the lines
/// that the capture hands out are in order.
pub proof fn lemma_finish_in_clock_order(capture: LineCaptureView, now: TimestampView)
    requires
        stamps_ordered(capture.lines),
        not_before(capture.lines, now),
    ensures
        stamps_ordered(capture.finished(now)),
{
    let count = capture.lines.len() as int;
    let all = capture.finished(now);
    assert forall|a: int, b: int| 0 <= a <= b < all.len() implies (#[trigger] all[a]).captured_at.key()
        <= (#[trigger] all[b]).captured_at.key() by {
        if a < count {
            assert(all[a] == capture.lines[a]);
        }
    }
}

impl View for LineCapture {
    type V = LineCaptureView;

    closed spec fn view(&self) -> LineCaptureView {
        LineCaptureView {
            stream: self.stream,
            consumed: self.consumed@,
            lines: lines_view(self.lines@),
        }
    }
}

impl LineCapture {
    #[verifier::type_invariant]
    spec fn well_formed(self) -> bool {
        &&& self@.faithful()
        &&& self.pending@ == unfinished(self.consumed@)
    }

    /// A reader that has read nothing yet.
    pub fn new(stream: StreamTag) -> (capture: LineCapture)
        ensures
            capture@ == (LineCaptureView {
                stream,
                consumed: Seq::empty(),
                lines: Seq::empty(),
            }),
    {
        let capture = LineCapture {
            stream,
            lines: Vec::new(),
            pending: Vec::new(),
            consumed: Ghost(Seq::empty()),
        };
        assert(capture@.lines =~= Seq::empty());
        capture
    }

    fn absorbed(self, chunk: &[u8], now: Timestamp) -> (fed: LineCapture)
        ensures
            fed@ == self@.fed(chunk@, now@),
    {
        proof {
            use_type_invariant(&self);
        }
        let ghost before = self@;
        let ghost start = unfinished(before.consumed);
        let stream = self.stream;
        let mut lines = self.lines;
        let mut pending = self.pending;
        proof {
            lemma_split_compose(start, Seq::<u8>::empty());
            lemma_lines_hold_no_terminator(before.consumed);
            lemma_unterminated(start);
        }
        let mut i: usize = 0;
        while i < chunk.len()
            invariant
                i <= chunk.len(),
                pending@ == unfinished(start + chunk@.take(i as int)),
                lines_view(lines@) == before.lines + stamped(
                    complete_lines(start + chunk@.take(i as int)),
                    stream,
                    now@,
                ),
            decreases chunk.len() - i,
        {
            let c = chunk[i];
            let ghost seen = start + chunk@.take(i as int);
            let ghost earlier = lines_view(lines@);
            proof {
                lemma_scan_push(seen, c);
                assert(seen.push(c) =~= start + chunk@.take(i + 1));
            }
            if c == 10u8 {
                let ghost raw = pending@;
                let text = text_of_bytes(&pending);
                lines.push(TimestampedLine { stream, captured_at: now, text });
                pending = Vec::new();
                proof {
                    let line = TimestampedLineView {
                        stream,
                        captured_at: now@,
                        text: text_of(raw),
                    };
                    assert(lines_view(lines@) =~= earlier.push(line));
                }
            } else {
                pending.push(c);
            }
            i += 1;
        }
        proof {
            assert(chunk@.take(chunk.len() as int) =~= chunk@);
            lemma_split_compose(before.consumed, chunk@);
            lemma_feed_keeps_faith(before, chunk@, now@);
        }
        LineCapture { stream, lines, pending, consumed: Ghost(before.consumed + chunk@) }
    }

    /// Reads the next piece of the stream, which arrived at `now`. Every line
    /// that ends within the piece is stamped with `now`.
    pub fn feed(&mut self, chunk: &[u8], now: Timestamp)
        ensures
            final(self)@ == old(self)@.fed(chunk@, now@),
            final(self)@.faithful(),
    {
        let mut taken = LineCapture::new(self.stream);
        core::mem::swap(self, &mut taken);
        *self = taken.absorbed(chunk, now);
        proof {
            use_type_invariant(&*self);
        }
    }

    /// Captures a whole stream at once: every line of `source`, stamped
    /// with `now`, or no line where the process had no such stream.
    pub fn collect(stream: StreamTag, source: Option<&[u8]>, now: Timestamp) -> (lines: Vec<
        TimestampedLine,
    >)
        ensures
            lines_view(lines@) == match source {
                Some(bytes) => stamped(all_lines(bytes@), stream, now@),
                None => Seq::empty(),
            },
    {
        let mut capture = LineCapture::new(stream);
        match source {
            None => {
                let lines = capture.finish(now);
                lines
            },
            Some(bytes) => {
                capture.feed(bytes, now);
                let ghost fed = capture@;
                let lines = capture.finish(now);
                proof {
                    lemma_finish_hands_out_all_lines(fed, now@);
                }
                lines
            },
        }
    }

    /// The stream that this reader reads.
    pub fn stream(&self) -> (stream: StreamTag)
        ensures
            stream == self@.stream,
    {
        self.stream
    }

    /// The lines that have ended so far.
    pub fn lines(&self) -> (lines: &Vec<TimestampedLine>)
        ensures
            lines_view(lines@) == self@.lines,
            self@.faithful(),
    {
        proof {
            use_type_invariant(self);
        }
        &self.lines
    }

    /// The bytes of the line that has not ended yet.
    pub fn pending(&self) -> (bytes: &Vec<u8>)
        ensures
            bytes@ == unfinished(self@.consumed),
    {
        proof {
            use_type_invariant(self);
        }
        &self.pending
    }

    /// Ends the capture at `now`, when the stream has ended or failed, and
    /// hands out every line. Bytes that follow the last terminator make one
    /// more line, stamped with `now`.
    pub fn finish(self, now: Timestamp) -> (lines: Vec<TimestampedLine>)
        ensures
            lines_view(lines@) == self@.finished(now@),
            self@.faithful(),
    {
        proof {
            use_type_invariant(&self);
        }
        let stream = self.stream;
        let mut lines = self.lines;
        let pending = self.pending;
        if pending.len() > 0 {
            let text = text_of_bytes(&pending);
            lines.push(TimestampedLine { stream, captured_at: now, text });
        }
        lines
    }
}

} // verus!
