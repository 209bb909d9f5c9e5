//! The frame decoder: from the byte fragments of a server-sent-event stream to
//! the ordered text chunks that its event lines carry.
//!
//! The contracts speak of the text received so far: its complete lines, each
//! of which carries a chunk or nothing, and the unterminated line that is
//! still pending. The executable decoder is fed one fragment at a time and is
//! proved to deliver exactly those chunks.

use crate::json::{document_string, parse_string_member, parsed_string_members};
use crate::text::{find_newline, is_whitespace_char, line_feed, strip_prefix, trim, trimmed};
use vstd::prelude::*;
use vstd::string::StringSliceAdditionalSpecFns;
use vstd::utf8::*;

verus! {

/// `core::str::Utf8Error`, the error of `core::str::from_utf8`. It is carried
/// through unread.
#[verifier::external_type_specification]
#[verifier::external_body]
pub struct ExUtf8Error(core::str::Utf8Error);

/// `core::str::from_utf8` is taken at its word: it succeeds exactly on valid
/// UTF-8, and the string it returns consists of the bytes it was given.
pub assume_specification<'a>[ core::str::from_utf8 ](bytes: &'a [u8]) -> (text: Result<
    &'a str,
    core::str::Utf8Error,
>)
    ensures
        match text {
            Ok(decoded) => valid_utf8(bytes@) && decoded.spec_bytes() == bytes@,
            Err(_) => !valid_utf8(bytes@),
        },
;

/// The prefix `data: ` that marks an event line.
pub open spec fn data_prefix() -> Seq<char> {
    seq!['d', 'a', 't', 'a', ':', ' ']
}

/// The name `chunk` of the member that carries the text of an event record.
pub open spec fn chunk_field() -> Seq<char> {
    seq!['c', 'h', 'u', 'n', 'k']
}

/// The payload of `line`: what follows the prefix `data: ` once the line is
/// trimmed. A line that does not start with the prefix has none.
pub open spec fn payload_of_line(line: Seq<char>) -> Option<Seq<char>> {
    let event = trimmed(line);
    if data_prefix().is_prefix_of(event) {
        Some(event.skip(data_prefix().len() as int))
    } else {
        None
    }
}

/// The text chunk that `line` carries: the string member `chunk` of its
/// payload, where the payload is a JSON document that has one.
pub open spec fn chunk_of_line(line: Seq<char>) -> Option<Seq<char>> {
    match payload_of_line(line) {
        Some(payload) => document_string(payload, chunk_field()),
        None => None,
    }
}

/// The lines of `text` that a line feed ends, in order and without the line
/// feed.
pub open spec fn complete_lines(text: Seq<char>) -> Seq<Seq<char>>
    decreases text.len(),
    via complete_lines_decreases
{
    match text.index_of_first(line_feed()) {
        Some(at) => seq![text.take(at)] + complete_lines(text.skip(at + 1)),
        None => Seq::empty(),
    }
}

#[via_fn]
proof fn complete_lines_decreases(text: Seq<char>) {
    text.index_of_first_ensures(line_feed());
}

/// What follows the last line feed of `text`: the line that is not complete
/// yet.
pub open spec fn pending_line(text: Seq<char>) -> Seq<char>
    decreases text.len(),
    via pending_line_decreases
{
    match text.index_of_first(line_feed()) {
        Some(at) => pending_line(text.skip(at + 1)),
        None => text,
    }
}

#[via_fn]
proof fn pending_line_decreases(text: Seq<char>) {
    text.index_of_first_ensures(line_feed());
}

/// The text chunks of `text`: those of its complete lines, in the order of
/// the lines.
pub open spec fn chunks_of_text(text: Seq<char>) -> Seq<Seq<char>> {
    complete_lines(text).filter_map(|line: Seq<char>| chunk_of_line(line))
}

/// Returns the payload of an event line, or `None` for any other line.
pub fn event_payload(line: &str) -> (payload: Option<&str>)
    ensures
        match payload {
            Some(found) => payload_of_line(line@) == Some(found@),
            None => payload_of_line(line@) is None,
        },
{
    proof {
        reveal_strlit("data: ");
        assert("data: "@ =~= data_prefix());
    }
    strip_prefix(trim(line), "data: ")
}

/// Returns the text chunk that a line carries, or `None` for a line that
/// carries none.
pub fn extract_chunk(line: &str) -> (chunk: Option<String>)
    ensures
        match chunk {
            Some(found) => chunk_of_line(line@) == Some(found@),
            None => chunk_of_line(line@) is None,
        },
{
    proof {
        reveal_strlit("chunk");
        assert("chunk"@ =~= chunk_field());
    }
    match event_payload(line) {
        Some(payload) => parse_string_member(payload, "chunk"),
        None => None,
    }
}

/// A line feed with none before it is the first line feed.
proof fn lemma_first_line_feed(text: Seq<char>, at: int)
    requires
        0 <= at < text.len(),
        text[at] == line_feed(),
        forall|j: int| 0 <= j < at ==> text[j] != line_feed(),
    ensures
        text.index_of_first(line_feed()) == Some(at),
{
    text.index_of_first_ensures(line_feed());
}

/// `filter_map` goes through a concatenation part by part.
proof fn lemma_filter_map_concat<A, B>(first: Seq<A>, second: Seq<A>, f: spec_fn(A) -> Option<B>)
    ensures
        (first + second).filter_map(f) == first.filter_map(f) + second.filter_map(f),
    decreases second.len(),
{
    if second.len() == 0 {
        assert(first + second =~= first);
    } else {
        assert((first + second).drop_last() =~= first + second.drop_last());
        lemma_filter_map_concat(first, second.drop_last(), f);
    }
}

/// Text that arrives later completes the pending line and leaves the
/// earlier lines as they were.
pub proof fn lemma_lines_append(head: Seq<char>, tail: Seq<char>)
    ensures
        complete_lines(head + tail) == complete_lines(head) + complete_lines(
            pending_line(head) + tail,
        ),
        pending_line(head + tail) == pending_line(pending_line(head) + tail),
    decreases head.len(),
{
    head.index_of_first_ensures(line_feed());
    match head.index_of_first(line_feed()) {
        Some(at) => {
            lemma_first_line_feed(head + tail, at);
            assert((head + tail).take(at) =~= head.take(at));
            assert((head + tail).skip(at + 1) =~= head.skip(at + 1) + tail);
            lemma_lines_append(head.skip(at + 1), tail);
        },
        None => {},
    }
}

/// The chunks of a text are those of what came first, followed by those
/// that the later text completes or brings.
pub proof fn lemma_chunks_append(head: Seq<char>, tail: Seq<char>)
    ensures
        chunks_of_text(head + tail) == chunks_of_text(head) + chunks_of_text(
            pending_line(head) + tail,
        ),
{
    lemma_lines_append(head, tail);
    lemma_filter_map_concat(
        complete_lines(head),
        complete_lines(pending_line(head) + tail),
        |line: Seq<char>| chunk_of_line(line),
    );
}

/// The chunks of a text that has a line feed: what its first line carries,
/// then the chunks of what follows that line.
proof fn lemma_chunks_first_line(text: Seq<char>, at: int)
    requires
        text.index_of_first(line_feed()) == Some(at),
    ensures
        chunks_of_text(text) == (match chunk_of_line(text.take(at)) {
            Some(chunk) => seq![chunk],
            None => Seq::empty(),
        }) + chunks_of_text(text.skip(at + 1)),
        pending_line(text) == pending_line(text.skip(at + 1)),
{
    let carried = |line: Seq<char>| chunk_of_line(line);
    lemma_filter_map_concat(seq![text.take(at)], complete_lines(text.skip(at + 1)), carried);
    Seq::lemma_filter_map_singleton(text.take(at), carried);
}

/// The pending line holds no line feed.
pub proof fn lemma_pending_line_is_partial(text: Seq<char>)
    ensures
        pending_line(text).index_of_first(line_feed()) is None,
    decreases text.len(),
{
    text.index_of_first_ensures(line_feed());
    match text.index_of_first(line_feed()) {
        Some(at) => {
            lemma_pending_line_is_partial(text.skip(at + 1));
        },
        None => {},
    }
}

/// Whether `line` consists of white space only.
pub open spec fn is_blank(line: Seq<char>) -> bool {
    forall|i: int| 0 <= i < line.len() ==> is_whitespace_char(#[trigger] line[i])
}

/// Whether `line` is protocol noise: blank, without the prefix `data: `,
/// with a payload that is no JSON document, or with a document that has no
/// string member `chunk`.
pub open spec fn is_noise(line: Seq<char>) -> bool {
    ||| is_blank(line)
    ||| !data_prefix().is_prefix_of(trimmed(line))
    ||| parsed_string_members(trimmed(line).skip(data_prefix().len() as int)) is None
    ||| !parsed_string_members(
        trimmed(line).skip(data_prefix().len() as int),
    ).unwrap().contains_key(chunk_field())
}

proof fn lemma_blank_trims_to_nothing(line: Seq<char>)
    requires
        is_blank(line),
    ensures
        trimmed(line).len() == 0,
    decreases line.len(),
{
    if line.len() > 0 {
        assert(is_whitespace_char(line[0]));
        assert forall|i: int| 0 <= i < line.drop_first().len() implies is_whitespace_char(
            #[trigger] line.drop_first()[i],
        ) by {
            assert(line.drop_first()[i] == line[i + 1]);
        }
        lemma_blank_trims_to_nothing(line.drop_first());
    }
}

/// Noise tolerance, line by line: a line of noise carries no chunk, and
/// every line that carries none is noise.
pub proof fn lemma_noise_carries_no_chunk(line: Seq<char>)
    ensures
        is_noise(line) <==> chunk_of_line(line) is None,
{
    if is_blank(line) {
        lemma_blank_trims_to_nothing(line);
    }
}

/// Noise tolerance, in a stream: a line of noise between two lines changes
/// neither the chunks of the text nor its pending line.
pub proof fn lemma_noise_line_is_silent(before: Seq<char>, line: Seq<char>, after: Seq<char>)
    requires
        is_noise(line),
        !line.contains(line_feed()),
        pending_line(before).len() == 0,
    ensures
        chunks_of_text(before + line + seq![line_feed()] + after) == chunks_of_text(
            before + after,
        ),
        pending_line(before + line + seq![line_feed()] + after) == pending_line(before + after),
{
    let rest = line + seq![line_feed()] + after;
    assert(before + line + seq![line_feed()] + after =~= before + rest);
    lemma_chunks_append(before, rest);
    lemma_lines_append(before, rest);
    lemma_chunks_append(before, after);
    lemma_lines_append(before, after);
    assert(pending_line(before) + rest =~= rest);
    assert(pending_line(before) + after =~= after);
    assert forall|j: int| 0 <= j < line.len() implies rest[j] != line_feed() by {
        assert(rest[j] == line[j]);
    }
    lemma_first_line_feed(rest, line.len() as int);
    lemma_chunks_first_line(rest, line.len() as int);
    lemma_noise_carries_no_chunk(line);
    assert(rest.take(line.len() as int) =~= line);
    assert(rest.skip(line.len() as int + 1) =~= after);
}

/// A trailing partial line is dropped: text without a line feed, added at
/// the end, adds no chunk.
pub proof fn lemma_partial_line_is_dropped(text: Seq<char>, partial: Seq<char>)
    requires
        !partial.contains(line_feed()),
    ensures
        chunks_of_text(text + partial) == chunks_of_text(text),
{
    let tail = pending_line(text) + partial;
    lemma_chunks_append(text, partial);
    lemma_pending_line_is_partial(text);
    pending_line(text).index_of_first_ensures(line_feed());
    assert forall|i: int| 0 <= i < tail.len() implies tail[i] != line_feed() by {
        if i < pending_line(text).len() {
            assert(pending_line(text).contains(pending_line(text)[i]));
        } else {
            assert(partial.contains(partial[i - pending_line(text).len()]));
        }
    }
    tail.index_of_first_ensures(line_feed());
    assert(chunks_of_text(tail) =~= Seq::<Seq<char>>::empty());
}

/// A fragment that is not valid UTF-8.
pub struct DecodeError {
    /// What `core::str::from_utf8` reported.
    pub cause: core::str::Utf8Error,
}

/// Why a decoding session ended before the end of its stream.
pub enum StreamError<E> {
    /// The transport failed to read a fragment; its error is handed on as it
    /// came.
    Transport(E),
    /// A fragment was not valid UTF-8.
    Decode(DecodeError),
}

/// What the caller that drives a session does after an event.
pub enum StreamAction<E> {
    /// Hand these chunks on, in order, and read the next event.
    Deliver(Vec<String>),
    /// The stream has ended: the session is complete.
    Finish,
    /// The session is over with this error.
    Abort(StreamError<E>),
}

/// The state of one decoding session: the line buffer.
pub struct FrameDecoder {
    buffer: String,
}

impl View for FrameDecoder {
    type V = Seq<char>;

    /// The text received so far that no line feed has completed.
    closed spec fn view(&self) -> Seq<char> {
        self.buffer@
    }
}

impl FrameDecoder {
    /// A decoder at the start of a session, with nothing pending.
    pub fn new() -> (decoder: Self)
        ensures
            decoder@ == Seq::<char>::empty(),
    {
        FrameDecoder { buffer: String::new() }
    }

    /// The pending line.
    pub fn pending(&self) -> (text: &str)
        ensures
            text@ == self@,
    {
        self.buffer.as_str()
    }

    /// Appends `text` to the pending line and takes out the lines that this
    /// completes, in order and without their line feeds. What follows the last
    /// line feed stays pending.
    pub fn take_lines(&mut self, text: &str) -> (lines: Vec<String>)
        ensures
            lines.deep_view() == complete_lines(old(self)@ + text@),
            final(self)@ == pending_line(old(self)@ + text@),
            !final(self)@.contains(line_feed()),
    {
        self.buffer.append(text);
        let ghost whole = self.buffer@;
        let mut lines: Vec<String> = Vec::new();
        assert(lines.deep_view() + complete_lines(whole) =~= complete_lines(whole));
        loop
            invariant
                whole == old(self)@ + text@,
                lines.deep_view() + complete_lines(self.buffer@) == complete_lines(whole),
                pending_line(self.buffer@) == pending_line(whole),
            decreases self.buffer@.len(),
        {
            let ghost before = self.buffer@;
            let ghost taken = lines.deep_view();
            proof {
                before.index_of_first_ensures(line_feed());
            }
            match find_newline(self.buffer.as_str()) {
                None => {
                    assert(taken + complete_lines(before) =~= taken);
                    return lines;
                },
                Some(at) => {
                    let n = self.buffer.as_str().unicode_len();
                    let line = self.buffer.as_str().substring_char(0, at).to_owned();
                    let rest = self.buffer.as_str().substring_char(at + 1, n).to_owned();
                    self.buffer = rest;
                    lines.push(line);
                    assert(self.buffer@ =~= before.skip(at + 1));
                    assert(lines.deep_view() =~= taken + seq![before.take(at as int)]);
                    assert(lines.deep_view() + complete_lines(self.buffer@) =~= taken
                        + complete_lines(before));
                },
            }
        }
    }

    /// Takes the next fragment. A fragment that is valid UTF-8 is appended to
    /// the pending line, and the chunks of the lines that this completes are
    /// returned in order; what follows the last line feed stays pending. Any
    /// other fragment is refused and changes nothing.
    pub fn feed(&mut self, fragment: &[u8]) -> (outcome: Result<Vec<String>, DecodeError>)
        ensures
            match outcome {
                Ok(chunks) => {
                    &&& valid_utf8(fragment@)
                    &&& chunks.deep_view() == chunks_of_text(old(self)@ + decode_utf8(fragment@))
                    &&& final(self)@ == pending_line(old(self)@ + decode_utf8(fragment@))
                    &&& !final(self)@.contains(line_feed())
                },
                Err(_) => !valid_utf8(fragment@) && final(self)@ == old(self)@,
            },
    {
        let text = match core::str::from_utf8(fragment) {
            Ok(text) => text,
            Err(cause) => {
                return Err(DecodeError { cause });
            },
        };
        proof {
            encode_utf8_decode_utf8(text@);
        }
        let lines = self.take_lines(text);
        let ghost carried = |line: Seq<char>| chunk_of_line(line);
        let mut chunks: Vec<String> = Vec::new();
        let mut i: usize = 0;
        assert(chunks.deep_view() =~= lines.deep_view().take(0).filter_map(carried));
        while i < lines.len()
            invariant
                i <= lines.len(),
                carried == |line: Seq<char>| chunk_of_line(line),
                chunks.deep_view() == lines.deep_view().take(i as int).filter_map(carried),
            decreases lines.len() - i,
        {
            let ghost found = chunks.deep_view();
            proof {
                lines.deep_view().lemma_filter_map_take_succ(carried, i as int);
            }
            match extract_chunk(lines[i].as_str()) {
                Some(chunk) => {
                    chunks.push(chunk);
                    assert(chunks.deep_view() =~= found + seq![chunk@]);
                },
                None => {
                    assert(found + Seq::<Seq<char>>::empty() =~= found);
                },
            }
            i = i + 1;
        }
        assert(lines.deep_view().take(i as int) =~= lines.deep_view());
        Ok(chunks)
    }

    /// Decides what follows an event of the transport. A fragment is fed to
    /// the decoder; a read failure ends the session with the transport's own
    /// error; at the end of the stream the pending line is dropped unread.
    pub fn step<E>(&mut self, event: Option<Result<Vec<u8>, E>>) -> (action: StreamAction<E>)
        ensures
            match event {
                Some(Ok(fragment)) => if valid_utf8(fragment@) {
                    &&& action matches StreamAction::Deliver(chunks)
                    &&& chunks.deep_view() == chunks_of_text(
                        old(self)@ + decode_utf8(fragment@),
                    )
                    &&& final(self)@ == pending_line(old(self)@ + decode_utf8(fragment@))
                } else {
                    &&& action matches StreamAction::Abort(StreamError::Decode(_))
                    &&& final(self)@ == old(self)@
                },
                Some(Err(failure)) => {
                    &&& action == StreamAction::Abort(StreamError::Transport(failure))
                    &&& final(self)@ == old(self)@
                },
                None => action is Finish && final(self)@ == Seq::<char>::empty(),
            },
    {
        match event {
            Some(Ok(fragment)) => match self.feed(fragment.as_slice()) {
                Ok(chunks) => StreamAction::Deliver(chunks),
                Err(error) => StreamAction::Abort(StreamError::Decode(error)),
            },
            Some(Err(failure)) => StreamAction::Abort(StreamError::Transport(failure)),
            None => {
                self.buffer = String::new();
                StreamAction::Finish
            },
        }
    }
}

} // verus!
