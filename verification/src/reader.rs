//! Reading messages off the adapter's socket: the bytes that have arrived and belong
//! to no complete message yet.

use vstd::prelude::*;

use crate::buffer;

verus! {

/// What a parser made of the pending bytes.
pub enum ParseOutcome<M> {
    /// A message, and the bytes behind it.
    Done { left: Vec<u8>, message: M },
    /// The beginning of a message.
    Incomplete,
    /// No message.
    Error,
}

/// The bytes pending after `chunk` arrived.
pub open spec fn pending_after_read(pending: Seq<u8>, chunk: Seq<u8>) -> Seq<u8> {
    pending + chunk
}

/// The bytes pending after the parser's verdict on `pending`: those behind a message;
/// all of an incomplete message; none after an error.
pub open spec fn pending_after_parse<M>(pending: Seq<u8>, outcome: ParseOutcome<M>) -> Seq<u8> {
    match outcome {
        ParseOutcome::Done { left, .. } => left@,
        ParseOutcome::Incomplete => pending,
        ParseOutcome::Error => Seq::empty(),
    }
}

/// The message that the parser found.
pub open spec fn message_of<M>(outcome: ParseOutcome<M>) -> Option<M> {
    match outcome {
        ParseOutcome::Done { message, .. } => Some(message),
        _ => None,
    }
}

/// The reader of a socket, between two reads.
pub struct SocketReader {
    cur: Vec<u8>,
}

impl View for SocketReader {
    type V = Seq<u8>;

    closed spec fn view(&self) -> Seq<u8> {
        self.cur@
    }
}

impl SocketReader {
    /// A reader that nothing has arrived at.
    pub fn new() -> (reader: SocketReader)
        ensures
            reader@ == Seq::<u8>::empty(),
    {
        SocketReader { cur: Vec::new() }
    }

    /// The bytes to parse.
    pub fn pending(&self) -> (bytes: &[u8])
        ensures
            bytes@ == self@,
    {
        self.cur.as_slice()
    }

    /// Whether `more` bytes can be taken in besides those pending.
    pub fn has_room(&self, more: usize) -> (ok: bool)
        ensures
            ok <==> self@.len() + more <= buffer::vec_limit(),
    {
        let limit: usize = usize::MAX / 4 - 64;
        self.cur.len() <= limit && more <= limit - self.cur.len()
    }

    /// Takes in the result of a read into `buf`: the number of bytes read, or an error.
    /// Tells whether bytes arrived, so that there is something to parse.
    pub fn accept<E>(&mut self, buf: &[u8], read: Result<i32, E>) -> (arrived: bool)
        requires
            read matches Ok(len) ==> 0 <= len <= buf@.len(),
            read matches Ok(len) ==> old(self)@.len() + len <= buffer::vec_limit(),
        ensures
            final(self)@ == (match read {
                Ok(len) => pending_after_read(old(self)@, buf@.take(len as int)),
                Err(_) => old(self)@,
            }),
            read matches Ok(len) ==> final(self)@ == old(self)@ + buf@.take(len as int),
            arrived <==> (read matches Ok(len) && len != 0),
    {
        let len: usize = match read {
            Ok(len) => len as usize,
            Err(_) => 0,
        };
        if len == 0 {
            assert(buf@.take(0) =~= Seq::<u8>::empty());
            assert(self@ + Seq::<u8>::empty() =~= self@);
            return false;
        }
        buffer::put_slice(&mut self.cur, vstd::slice::slice_subrange(buf, 0, len));
        assert(buf@.subrange(0, len as int) =~= buf@.take(len as int));
        true
    }

    /// Takes in the parser's verdict on the pending bytes. Returns the message to
    /// handle, if there is one.
    pub fn settle<M>(&mut self, outcome: ParseOutcome<M>) -> (message: Option<M>)
        ensures
            final(self)@ == pending_after_parse(old(self)@, outcome),
            message == message_of(outcome),
            outcome matches ParseOutcome::Done { left, message: found } ==> final(self)@ == left@
                && message == Some(found),
            outcome is Incomplete ==> final(self)@ == old(self)@ && message is None,
            outcome is Error ==> final(self)@.len() == 0 && message is None,
    {
        match outcome {
            ParseOutcome::Done { left, message } => {
                self.cur = left;
                Some(message)
            },
            ParseOutcome::Incomplete => None,
            ParseOutcome::Error => {
                self.cur = Vec::new();
                None
            },
        }
    }
}

/// Of every read: a message is handled once, and what is behind it stays; an
/// incomplete message stays whole, and nothing is handled; after an error nothing stays,
/// and nothing is handled.
pub proof fn law_read_then_parse<M>(pending: Seq<u8>, chunk: Seq<u8>, outcome: ParseOutcome<M>)
    ensures
        ({
            let next = pending_after_parse(pending_after_read(pending, chunk), outcome);
            match outcome {
                ParseOutcome::Done { left, message } => {
                    &&& message_of(outcome) == Some(message)
                    &&& next == left@
                },
                ParseOutcome::Incomplete => {
                    &&& message_of(outcome) is None
                    &&& next == pending + chunk
                },
                ParseOutcome::Error => {
                    &&& message_of(outcome) is None
                    &&& next == Seq::<u8>::empty()
                },
            }
        }),
{
}

/// What arrives is put behind what is pending: every byte of both is there, in its
/// place, and none besides.
pub proof fn law_read_appends(pending: Seq<u8>, chunk: Seq<u8>)
    ensures
        ({
            let all = pending_after_read(pending, chunk);
            &&& all.len() == pending.len() + chunk.len()
            &&& all.take(pending.len() as int) == pending
            &&& all.skip(pending.len() as int) == chunk
        }),
{
}

/// A message leaves what is behind it, an incomplete message all that was pending, an
/// error nothing; and there is a message to handle just where the parser found one.
pub proof fn law_verdict_decides<M>(pending: Seq<u8>, outcome: ParseOutcome<M>)
    ensures
        outcome is Incomplete ==> pending_after_parse(pending, outcome) == pending,
        outcome is Error ==> pending_after_parse(pending, outcome).len() == 0,
        outcome matches ParseOutcome::Done { left, .. } ==> pending_after_parse(pending, outcome)
            == left@,
        message_of(outcome) is Some <==> outcome is Done,
        forall|m: M| message_of(outcome) == Some(m) ==> outcome is Done && m == outcome->message,
{
}

/// The bytes pending after reads that brought `chunks`, each followed by a verdict.
pub open spec fn pending_after_all<M>(
    pending: Seq<u8>,
    chunks: Seq<Seq<u8>>,
    outcomes: Seq<ParseOutcome<M>>,
) -> Seq<u8>
    decreases chunks.len(),
{
    if chunks.len() == 0 {
        pending
    } else {
        pending_after_parse(
            pending_after_read(
                pending_after_all(pending, chunks.drop_last(), outcomes.drop_last()),
                chunks.last(),
            ),
            outcomes.last(),
        )
    }
}

/// The bytes that messages took up during these reads.
pub open spec fn taken_by_all<M>(
    pending: Seq<u8>,
    chunks: Seq<Seq<u8>>,
    outcomes: Seq<ParseOutcome<M>>,
) -> Seq<u8>
    decreases chunks.len(),
{
    if chunks.len() == 0 {
        Seq::empty()
    } else {
        let seen = pending_after_read(
            pending_after_all(pending, chunks.drop_last(), outcomes.drop_last()),
            chunks.last(),
        );
        let rest = pending_after_parse(seen, outcomes.last());
        taken_by_all(pending, chunks.drop_last(), outcomes.drop_last()) + seen.take(
            seen.len() - rest.len(),
        )
    }
}

/// No verdict was an error, and each message left a tail of the bytes it was parsed
/// from.
pub open spec fn tails_left<M>(
    pending: Seq<u8>,
    chunks: Seq<Seq<u8>>,
    outcomes: Seq<ParseOutcome<M>>,
) -> bool
    decreases chunks.len(),
{
    chunks.len() == 0 || {
        let seen = pending_after_read(
            pending_after_all(pending, chunks.drop_last(), outcomes.drop_last()),
            chunks.last(),
        );
        &&& tails_left(pending, chunks.drop_last(), outcomes.drop_last())
        &&& match outcomes.last() {
            ParseOutcome::Done { left, .. } => left@.is_suffix_of(seen),
            ParseOutcome::Incomplete => true,
            ParseOutcome::Error => false,
        }
    }
}

/// As long as no parse fails, no byte is lost, repeated or moved: what the messages
/// took up, followed by what is pending, is what was pending at first, followed by
/// what arrived.
pub proof fn law_stream_is_kept<M>(
    pending: Seq<u8>,
    chunks: Seq<Seq<u8>>,
    outcomes: Seq<ParseOutcome<M>>,
)
    requires
        chunks.len() == outcomes.len(),
        tails_left(pending, chunks, outcomes),
    ensures
        taken_by_all(pending, chunks, outcomes) + pending_after_all(pending, chunks, outcomes)
            == pending + chunks.flatten(),
    decreases chunks.len(),
{
    if chunks.len() == 0 {
        assert(chunks.flatten() =~= Seq::<u8>::empty());
        assert(Seq::<u8>::empty() + pending =~= pending + Seq::<u8>::empty());
    } else {
        law_stream_is_kept(pending, chunks.drop_last(), outcomes.drop_last());
        let before = pending_after_all(pending, chunks.drop_last(), outcomes.drop_last());
        let taken = taken_by_all(pending, chunks.drop_last(), outcomes.drop_last());
        let seen = before + chunks.last();
        let rest = pending_after_parse(seen, outcomes.last());
        assert(rest.is_suffix_of(seen));
        assert(seen =~= seen.take(seen.len() - rest.len()) + rest);
        assert(taken + seen.take(seen.len() - rest.len()) + rest =~= taken + seen);
        assert(taken + seen =~= (taken + before) + chunks.last());
        lemma_flatten_last(chunks);
        assert(pending + chunks.flatten() =~= (pending + chunks.drop_last().flatten())
            + chunks.last());
    }
}

/// A message that arrives in pieces is put together: while every parse finds its
/// message incomplete, all that has arrived is pending.
pub proof fn law_pieces_are_joined<M>(
    pending: Seq<u8>,
    chunks: Seq<Seq<u8>>,
    outcomes: Seq<ParseOutcome<M>>,
)
    requires
        chunks.len() == outcomes.len(),
        forall|i: int| 0 <= i < outcomes.len() ==> #[trigger] outcomes[i] is Incomplete,
    ensures
        pending_after_all(pending, chunks, outcomes) == pending + chunks.flatten(),
    decreases chunks.len(),
{
    if chunks.len() == 0 {
        assert(chunks.flatten() =~= Seq::<u8>::empty());
        assert(pending =~= pending + Seq::<u8>::empty());
    } else {
        law_pieces_are_joined(pending, chunks.drop_last(), outcomes.drop_last());
        assert(outcomes.last() is Incomplete);
        lemma_flatten_last(chunks);
        assert(pending + chunks.flatten() =~= (pending + chunks.drop_last().flatten())
            + chunks.last());
    }
}

/// After a failed parse the reader starts afresh, whatever arrived before.
pub proof fn law_error_forgets<M>(
    pending: Seq<u8>,
    chunks: Seq<Seq<u8>>,
    outcomes: Seq<ParseOutcome<M>>,
)
    requires
        chunks.len() == outcomes.len(),
        chunks.len() > 0,
        outcomes.last() is Error,
    ensures
        pending_after_all(pending, chunks, outcomes) == Seq::<u8>::empty(),
{
}

proof fn lemma_flatten_last(chunks: Seq<Seq<u8>>)
    requires
        chunks.len() > 0,
    ensures
        chunks.flatten() == chunks.drop_last().flatten() + chunks.last(),
{
    chunks.lemma_flatten_and_flatten_alt_are_equivalent();
    chunks.drop_last().lemma_flatten_and_flatten_alt_are_equivalent();
}

} // verus!
