//! The buffer that takes the rendered text of one event.
//!
//! A formatter writes the text of the event in hand into the buffer, in as
//! many pieces as it likes. Reporting the event drains the buffer: it takes
//! the text out and leaves the buffer empty for the next event.

use vstd::prelude::*;

verus! {

/// The bytes written for the event in hand.
#[derive(Debug)]
pub struct FormatBuffer {
    data: Vec<u8>,
}

impl View for FormatBuffer {
    type V = Seq<u8>;

    closed spec fn view(&self) -> Seq<u8> {
        self.data@
    }
}

/// What a buffer holds after the pieces `chunks` were written to it in
/// their order, each `write` adding its piece to what the buffer held.
pub open spec fn written(buffer: Seq<u8>, chunks: Seq<Seq<u8>>) -> Seq<u8>
    decreases chunks.len(),
{
    if chunks.len() == 0 {
        buffer
    } else {
        written(buffer, chunks.drop_last()) + chunks.last()
    }
}

/// The text that the pieces `chunks` make together: the first piece, then
/// what the others make.
pub open spec fn joined(chunks: Seq<Seq<u8>>) -> Seq<u8>
    decreases chunks.len(),
{
    if chunks.len() == 0 {
        Seq::empty()
    } else {
        chunks.first() + joined(chunks.drop_first())
    }
}

impl FormatBuffer {
    /// An empty buffer with room for a line of text.
    pub fn new() -> (buffer: FormatBuffer)
        ensures
            buffer@ == Seq::<u8>::empty(),
    {
        FormatBuffer { data: Vec::with_capacity(256) }
    }

    /// How many bytes the buffer holds.
    pub fn len(&self) -> (n: usize)
        ensures
            n == self@.len(),
    {
        self.data.len()
    }

    /// Whether the buffer holds nothing.
    pub fn is_empty(&self) -> (empty: bool)
        ensures
            empty == (self@.len() == 0),
    {
        self.data.len() == 0
    }

    /// Appends `buf` to the buffer and says how many bytes were taken: all
    /// of them.
    pub fn write(&mut self, buf: &[u8]) -> (taken: usize)
        ensures
            final(self)@ == old(self)@ + buf@,
            taken == buf@.len(),
    {
        self.data.extend_from_slice(buf);
        assert(self.data@ =~= old(self).data@ + buf@);
        buf.len()
    }

    /// Does nothing: what was written is in the buffer already.
    pub fn flush(&mut self)
        ensures
            final(self)@ == old(self)@,
    {
    }

    /// Takes out all that the buffer holds and leaves it empty.
    pub fn drain(&mut self) -> (text: Vec<u8>)
        ensures
            text@ == old(self)@,
            final(self)@ == Seq::<u8>::empty(),
    {
        let mut text: Vec<u8> = Vec::new();
        core::mem::swap(&mut self.data, &mut text);
        text
    }
}

/// One piece more adds its bytes to the end of a text.
pub proof fn lemma_joined_push(chunks: Seq<Seq<u8>>, chunk: Seq<u8>)
    ensures
        joined(chunks.push(chunk)) == joined(chunks) + chunk,
    decreases chunks.len(),
{
    let all = chunks.push(chunk);
    if chunks.len() == 0 {
        assert(all.drop_first() =~= Seq::<Seq<u8>>::empty());
        assert(joined(all.drop_first()) =~= Seq::<u8>::empty());
        assert(joined(all) =~= joined(chunks) + chunk);
    } else {
        lemma_joined_push(chunks.drop_first(), chunk);
        assert(all.drop_first() =~= chunks.drop_first().push(chunk));
        assert(joined(all) =~= joined(chunks) + chunk);
    }
}

/// A buffer to which pieces were written holds what it held before and,
/// after that, the text that the pieces make together.
pub proof fn lemma_written(buffer: Seq<u8>, chunks: Seq<Seq<u8>>)
    ensures
        written(buffer, chunks) == buffer + joined(chunks),
    decreases chunks.len(),
{
    if chunks.len() == 0 {
        assert(buffer + joined(chunks) =~= buffer);
    } else {
        lemma_written(buffer, chunks.drop_last());
        lemma_joined_push(chunks.drop_last(), chunks.last());
        assert(chunks.drop_last().push(chunks.last()) =~= chunks);
        assert(written(buffer, chunks) =~= buffer + joined(chunks));
    }
}

/// Draining yields the text of one event whole and once.
///
/// Let the pieces `chunks` of one event be written to an empty buffer, one
/// `write` for each, and let the buffer then be drained twice. `write`
/// ensures that the buffer holds `filled` after the pieces. `drain` ensures
/// that the first draining hands out all of it, as `first`, and leaves the
/// empty `rest`, and that the second hands out all of that, as `second`.
/// Then `first` is the text of the event, and `second` is empty.
pub proof fn lemma_drain_once(
    chunks: Seq<Seq<u8>>,
    filled: Seq<u8>,
    first: Seq<u8>,
    rest: Seq<u8>,
    second: Seq<u8>,
)
    requires
        filled == written(Seq::empty(), chunks),
        first == filled,
        rest == Seq::<u8>::empty(),
        second == rest,
    ensures
        first == joined(chunks),
        second == Seq::<u8>::empty(),
{
    lemma_written(Seq::empty(), chunks);
    assert(Seq::<u8>::empty() + joined(chunks) =~= joined(chunks));
}

/// An event gets its own text and nothing of what came before.
///
/// Let a buffer hold anything, `before`, and be drained, and let the pieces
/// `chunks` of the next event then be written to it and the buffer be
/// drained again. `drain` ensures that the first draining leaves the empty
/// `rest`, `write` that the buffer then comes to hold `filled`, and `drain`
/// that the second draining hands out all of it, as `text`. Then `text` is
/// the text of the next event, whatever `before` was.
pub proof fn lemma_no_cross_talk(
    before: Seq<u8>,
    rest: Seq<u8>,
    chunks: Seq<Seq<u8>>,
    filled: Seq<u8>,
    text: Seq<u8>,
)
    requires
        rest == Seq::<u8>::empty(),
        filled == written(rest, chunks),
        text == filled,
    ensures
        text == joined(chunks),
{
    lemma_written(rest, chunks);
    assert(rest + joined(chunks) =~= joined(chunks));
}

} // verus!
