//! Whole decoding sessions: a stream drained from its first fragment to its
//! end or to its failure, and the laws that make the decoder independent of
//! how the transport cuts the stream into fragments.

use crate::decoder::{
    chunk_of_line, chunks_of_text, complete_lines, lemma_chunks_append, lemma_lines_append,
    pending_line, FrameDecoder, StreamError,
};
use vstd::prelude::*;
use vstd::utf8::*;

verus! {

/// The bytes of each fragment.
pub open spec fn bytes_of(fragments: Seq<Vec<u8>>) -> Seq<Seq<u8>> {
    fragments.map_values(|fragment: Vec<u8>| fragment@)
}

/// Whether every fragment is valid UTF-8 by itself.
pub open spec fn all_valid(fragments: Seq<Seq<u8>>) -> bool {
    forall|i: int| 0 <= i < fragments.len() ==> valid_utf8(#[trigger] fragments[i])
}

/// The number of fragments that a session takes: those before the first one
/// that is not valid UTF-8.
pub open spec fn accepted(fragments: Seq<Seq<u8>>) -> nat
    decreases fragments.len(),
{
    if fragments.len() > 0 && valid_utf8(fragments.first()) {
        1 + accepted(fragments.drop_first())
    } else {
        0
    }
}

/// The pending line of a decoder that started with nothing pending and was
/// fed `fragments` one after the other.
pub open spec fn fed_pending(fragments: Seq<Seq<u8>>) -> Seq<char>
    decreases fragments.len(),
{
    if fragments.len() == 0 {
        Seq::empty()
    } else {
        pending_line(fed_pending(fragments.drop_last()) + decode_utf8(fragments.last()))
    }
}

/// The chunks that such a decoder has delivered, fragment after fragment.
pub open spec fn fed_chunks(fragments: Seq<Seq<u8>>) -> Seq<Seq<char>>
    decreases fragments.len(),
{
    if fragments.len() == 0 {
        Seq::empty()
    } else {
        fed_chunks(fragments.drop_last()) + chunks_of_text(
            fed_pending(fragments.drop_last()) + decode_utf8(fragments.last()),
        )
    }
}

/// What a drained stream gave: the chunks delivered, and the error that
/// ended it early, if one did.
pub struct Transcript<E> {
    /// The chunks, in the order of their lines. They stay delivered whatever
    /// ended the stream.
    pub chunks: Vec<String>,
    /// `None` where the stream was read to its end.
    pub error: Option<StreamError<E>>,
}

proof fn lemma_accepted(fragments: Seq<Seq<u8>>, count: int)
    requires
        0 <= count <= fragments.len(),
        all_valid(fragments.take(count)),
        count < fragments.len() ==> !valid_utf8(fragments[count]),
    ensures
        accepted(fragments) == count,
    decreases fragments.len(),
{
    if count > 0 {
        assert(fragments.take(count)[0] == fragments[0]);
        assert forall|i: int| 0 <= i < count - 1 implies valid_utf8(
            #[trigger] fragments.drop_first().take(count - 1)[i],
        ) by {
            assert(fragments.take(count)[i + 1] == fragments[i + 1]);
        }
        lemma_accepted(fragments.drop_first(), count - 1);
    }
}

/// Drains a stream that the transport has already read: `fragments` in
/// their order of arrival, then `failure` where reading ended with an error
/// of the transport and not with the end of the stream.
///
/// The fragments are fed to a fresh decoder up to the first one that is not
/// valid UTF-8. That one ends the session with a decode error; where there
/// is none, the failure of the transport, if any, is the error.
pub fn decode_stream<E>(fragments: &Vec<Vec<u8>>, failure: Option<E>) -> (outcome: Transcript<E>)
    ensures
        outcome.chunks.deep_view() == fed_chunks(
            bytes_of(fragments@).take(accepted(bytes_of(fragments@)) as int),
        ),
        accepted(bytes_of(fragments@)) < fragments.len() ==> outcome.error matches Some(
            StreamError::Decode(_),
        ),
        accepted(bytes_of(fragments@)) == fragments.len() ==> outcome.error == (match failure {
            Some(cause) => Some(StreamError::Transport(cause)),
            None => None,
        }),
        all_valid(bytes_of(fragments@)) ==> outcome.chunks.deep_view() == chunks_of_text(
            decode_utf8(bytes_of(fragments@).flatten()),
        ),
{
    let ghost all = bytes_of(fragments@);
    let mut decoder = FrameDecoder::new();
    let mut chunks: Vec<String> = Vec::new();
    let mut i: usize = 0;
    assert(chunks.deep_view() =~= fed_chunks(all.take(0)));
    while i < fragments.len()
        invariant
            all == bytes_of(fragments@),
            i <= fragments.len(),
            all_valid(all.take(i as int)),
            chunks.deep_view() == fed_chunks(all.take(i as int)),
            decoder@ == fed_pending(all.take(i as int)),
        decreases fragments.len() - i,
    {
        let ghost before = chunks.deep_view();
        assert(all.take(i + 1).drop_last() =~= all.take(i as int));
        assert(all.take(i + 1).last() == fragments@[i as int]@);
        match decoder.feed(fragments[i].as_slice()) {
            Ok(mut fresh) => {
                let ghost brought = fresh.deep_view();
                chunks.append(&mut fresh);
                assert(chunks.deep_view() =~= before + brought);
            },
            Err(error) => {
                proof {
                    lemma_accepted(all, i as int);
                    assert(!valid_utf8(all[i as int]));
                }
                return Transcript { chunks, error: Some(StreamError::Decode(error)) };
            },
        }
        assert forall|j: int| 0 <= j < i + 1 implies valid_utf8(#[trigger] all.take(i + 1)[j]) by {
            if j < i {
                assert(all.take(i as int)[j] == all[j]);
            }
        }
        i = i + 1;
    }
    proof {
        lemma_accepted(all, i as int);
        assert(all.take(i as int) =~= all);
        lemma_session_of_whole_text(all);
    }
    let error = match failure {
        Some(cause) => Some(StreamError::Transport(cause)),
        None => None,
    };
    Transcript { chunks, error }
}

proof fn lemma_encode_concat(first: Seq<char>, second: Seq<char>)
    ensures
        encode_utf8(first + second) == encode_utf8(first) + encode_utf8(second),
    decreases first.len(),
{
    if first.len() == 0 {
        assert(first + second =~= second);
    } else {
        assert((first + second).drop_first() =~= first.drop_first() + second);
        lemma_encode_concat(first.drop_first(), second);
    }
    assert(encode_utf8(first + second) =~= encode_utf8(first) + encode_utf8(second));
}

/// Two valid UTF-8 byte sequences decode, joined, to their two texts joined.
pub proof fn lemma_decode_concat(first: Seq<u8>, second: Seq<u8>)
    requires
        valid_utf8(first),
        valid_utf8(second),
    ensures
        valid_utf8(first + second),
        decode_utf8(first + second) == decode_utf8(first) + decode_utf8(second),
{
    valid_utf8_concat(first, second);
    lemma_encode_concat(decode_utf8(first), decode_utf8(second));
    decode_utf8_encode_utf8(first);
    decode_utf8_encode_utf8(second);
    encode_utf8_decode_utf8(decode_utf8(first) + decode_utf8(second));
}

/// A session over fragments that are each valid UTF-8 delivers the chunks of
/// the whole text, and keeps the pending line of the whole text.
pub proof fn lemma_session_of_whole_text(fragments: Seq<Seq<u8>>)
    requires
        all_valid(fragments),
    ensures
        valid_utf8(fragments.flatten()),
        fed_chunks(fragments) == chunks_of_text(decode_utf8(fragments.flatten())),
        fed_pending(fragments) == pending_line(decode_utf8(fragments.flatten())),
    decreases fragments.len(),
{
    if fragments.len() == 0 {
        assert(decode_utf8(fragments.flatten()) =~= Seq::<char>::empty());
        Seq::<char>::empty().index_of_first_ensures(crate::text::line_feed());
        assert(chunks_of_text(Seq::<char>::empty()) =~= Seq::<Seq<char>>::empty());
    } else {
        let earlier = fragments.drop_last();
        let last = fragments.last();
        assert(all_valid(earlier)) by {
            assert forall|i: int| 0 <= i < earlier.len() implies valid_utf8(
                #[trigger] earlier[i],
            ) by {
                assert(earlier[i] == fragments[i]);
            }
        }
        lemma_session_of_whole_text(earlier);
        assert(fragments =~= earlier.push(last));
        earlier.lemma_flatten_push(last);
        lemma_decode_concat(earlier.flatten(), last);
        lemma_chunks_append(decode_utf8(earlier.flatten()), decode_utf8(last));
        lemma_lines_append(decode_utf8(earlier.flatten()), decode_utf8(last));
    }
}

/// Boundary independence: however a byte stream is cut into fragments that
/// are each valid UTF-8, a session delivers the same chunks, and keeps the
/// same line pending, as for the whole stream in one fragment.
pub proof fn lemma_boundary_independence(fragments: Seq<Seq<u8>>)
    requires
        all_valid(fragments),
    ensures
        fed_chunks(fragments) == fed_chunks(seq![fragments.flatten()]),
        fed_pending(fragments) == fed_pending(seq![fragments.flatten()]),
{
    let whole = seq![fragments.flatten()];
    lemma_session_of_whole_text(fragments);
    assert(all_valid(whole));
    whole.lemma_flatten_singleton();
    lemma_session_of_whole_text(whole);
}

/// Two ways of cutting the same byte stream into fragments that are each
/// valid UTF-8 give the same chunks in the same order.
pub proof fn lemma_same_stream_same_chunks(one: Seq<Seq<u8>>, other: Seq<Seq<u8>>)
    requires
        all_valid(one),
        all_valid(other),
        one.flatten() == other.flatten(),
    ensures
        fed_chunks(one) == fed_chunks(other),
        fed_pending(one) == fed_pending(other),
{
    lemma_session_of_whole_text(one);
    lemma_session_of_whole_text(other);
}

/// Reconstruction: the chunks that a session delivers spell, joined, what
/// the complete lines of the stream carry, joined in the order of the lines.
pub proof fn lemma_transcript_reconstruction(fragments: Seq<Seq<u8>>)
    requires
        all_valid(fragments),
    ensures
        fed_chunks(fragments).flatten() == complete_lines(
            decode_utf8(fragments.flatten()),
        ).filter_map(|line: Seq<char>| chunk_of_line(line)).flatten(),
{
    lemma_session_of_whole_text(fragments);
}

/// Joins the chunks of a session into the text that they spell.
pub fn transcript(chunks: &Vec<String>) -> (text: String)
    ensures
        text@ == chunks.deep_view().flatten(),
{
    let mut text = String::new();
    let mut i: usize = 0;
    assert(chunks.deep_view().take(0) =~= Seq::<Seq<char>>::empty());
    while i < chunks.len()
        invariant
            i <= chunks.len(),
            text@ == chunks.deep_view().take(i as int).flatten(),
        decreases chunks.len() - i,
    {
        proof {
            let views = chunks.deep_view();
            assert(views.take(i + 1) =~= views.take(i as int).push(views[i as int]));
            views.take(i as int).lemma_flatten_push(views[i as int]);
        }
        text.append(chunks[i].as_str());
        i = i + 1;
    }
    assert(chunks.deep_view().take(i as int) =~= chunks.deep_view());
    text
}

} // verus!
