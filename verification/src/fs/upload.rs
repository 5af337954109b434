//! What goes over the wire when a file is uploaded.
use crate::fs::UPLOAD_CHUNK;
use crate::sparse_cache::fill::concat;
use std::ops::Range;
use vstd::prelude::*;

verus! {

/// A spool file on its way to the device, in pieces of at most [`UPLOAD_CHUNK`], each to be read
/// only when it is asked for. That's what keeps an upload's memory flat: a file costs one piece of
/// memory, however long it is.
#[derive(Debug)]
pub struct FileStream {
    at: u64,
    size: u64,
}

/// What of a spool file has not been handed out: the bytes from `at` up to `size`.
#[verifier::ext_equal]
pub struct StreamView {
    pub at: int,
    pub size: int,
}

impl View for FileStream {
    type V = StreamView;

    closed spec fn view(&self) -> StreamView {
        StreamView { at: self.at as int, size: self.size as int }
    }
}

impl StreamView {
    /// Whether nothing is left.
    pub open spec fn is_over(self) -> bool {
        self.at >= self.size
    }

    /// Where the next piece ends.
    pub open spec fn piece_end(self) -> int {
        if self.at + UPLOAD_CHUNK < self.size {
            self.at + UPLOAD_CHUNK
        } else {
            self.size
        }
    }

    /// What is left of `data`, in pieces.
    pub open spec fn pieces(self, data: Seq<u8>) -> Seq<Seq<u8>>
        decreases self.size - self.at,
    {
        if self.is_over() {
            Seq::empty()
        } else {
            seq![data.subrange(self.at, self.piece_end())] + StreamView {
                at: self.piece_end(),
                ..self
            }.pieces(data)
        }
    }
}

/// Streams a spool file of `size` bytes in pieces.
pub fn file_stream(size: u64) -> (stream: FileStream)
    ensures
        stream@ == (StreamView { at: 0, size: size as int }),
{
    FileStream { at: 0, size }
}

impl FileStream {
    /// The part of the spool file to read next, until there is nothing left.
    pub fn next(&mut self) -> (piece: Option<Range<u64>>)
        ensures
            match piece {
                Some(p) => {
                    &&& !old(self)@.is_over()
                    &&& p.start == old(self)@.at
                    &&& p.end == old(self)@.piece_end()
                    &&& final(self)@ == (StreamView { at: old(self)@.piece_end(), ..old(self)@ })
                },
                None => old(self)@.is_over() && final(self)@ == old(self)@,
            },
    {
        if self.at >= self.size {
            return None;
        }
        let start: u64 = self.at;
        let end: u64 = if self.size - start > UPLOAD_CHUNK as u64 {
            start + UPLOAD_CHUNK as u64
        } else {
            self.size
        };
        self.at = end;
        Some(start..end)
    }

    /// Ends the stream, because a piece could not be read: the failure is reported once, rather
    /// than over and over.
    pub fn fail(&mut self)
        ensures
            final(self)@ == (StreamView { at: old(self)@.size, ..old(self)@ }),
    {
        self.at = self.size;
    }
}

proof fn lemma_concat_first(piece: Seq<u8>, rest: Seq<Seq<u8>>)
    ensures
        concat(seq![piece] + rest) == piece + concat(rest),
    decreases rest.len(),
{
    let all = seq![piece] + rest;
    if rest.len() == 0 {
        assert(all.drop_last() =~= Seq::empty());
        assert(concat(all.drop_last()) =~= Seq::empty());
        assert(concat(all) =~= piece + concat(rest));
    } else {
        assert(all.drop_last() =~= seq![piece] + rest.drop_last());
        lemma_concat_first(piece, rest.drop_last());
        assert(concat(all) =~= piece + concat(rest));
    }
}

/// The pieces of a file, put together, are what was left of it, and none is longer than
/// [`UPLOAD_CHUNK`].
pub proof fn pieces_make_up_the_file(stream: StreamView, data: Seq<u8>)
    requires
        0 <= stream.at <= stream.size,
        stream.size == data.len(),
    ensures
        concat(stream.pieces(data)) == data.skip(stream.at),
        forall|i: int|
            0 <= i < stream.pieces(data).len() ==> 0 < (#[trigger] stream.pieces(data)[i]).len()
                <= UPLOAD_CHUNK,
    decreases stream.size - stream.at,
{
    if stream.is_over() {
        assert(concat(stream.pieces(data)) =~= data.skip(stream.at));
    } else {
        let first = data.subrange(stream.at, stream.piece_end());
        let rest = StreamView { at: stream.piece_end(), ..stream };
        pieces_make_up_the_file(rest, data);
        lemma_concat_first(first, rest.pieces(data));
        assert(first + data.skip(rest.at) =~= data.skip(stream.at));
        assert forall|i: int| 0 <= i < stream.pieces(data).len() implies 0
            < (#[trigger] stream.pieces(data)[i]).len() <= UPLOAD_CHUNK by {
            if i > 0 {
                assert(stream.pieces(data)[i] == rest.pieces(data)[i - 1]);
            }
        }
    }
}

/// Every piece but the last is a full chunk of 64 KiB, and pieces follow one another without a gap.
pub proof fn pieces_are_full_but_for_the_last(stream: StreamView)
    requires
        0 <= stream.at < stream.size,
    ensures
        !stream.is_over(),
        stream.at < stream.piece_end() <= stream.size,
        stream.piece_end() == stream.size || stream.piece_end() == stream.at + 65536,
        stream.size - stream.at <= 65536 ==> stream.piece_end() == stream.size,
{
}

} // verus!
