use vstd::prelude::*;
use vstd::string::*;
use vstd::utf8::*;

verus! {

/// The text that lossy UTF-8 decoding gives for a byte string.
pub uninterp spec fn lossy_of(b: Seq<u8>) -> Seq<char>;

/// Relies on `String::from_utf8_lossy`: valid UTF-8 decodes unchanged;
/// invalid sequences become U+FFFD.
#[verifier::external_body]
fn decode_lossy(b: &[u8]) -> (r: String)
    ensures
        r@ == lossy_of(b@),
        valid_utf8(b@) ==> r@ == decode_utf8(b@),
{
    String::from_utf8_lossy(b).into_owned()
}

/// Relies on `String::reserve`: it changes the capacity, never the text.
#[verifier::external_body]
fn reserve_text(s: &mut String, additional: usize)
    ensures
        final(s)@ == old(s)@,
{
    s.reserve(additional)
}

/// A snapshot of a document's text, rebuilt from the document in chunks.
///
/// A rebuild starts with `refresh`, which empties the snapshot; the caller
/// then reads the document forward from `read_offset()` and hands each chunk
/// to `push_chunk` until that returns `false` (the document returned an
/// empty chunk). The snapshot holds no resource of the document.
pub struct Text {
    pub content: String,
    pub read_offset: usize,
}

impl Text {
    /// An empty snapshot, ready to receive the document's first chunk.
    pub fn new() -> (r: Text)
        ensures
            r.content@ == Seq::<char>::empty(),
            r.read_offset == 0,
    {
        Text { content: String::new(), read_offset: 0 }
    }

    /// Starts a rebuild: the text is emptied, room is reserved for
    /// `total_len` bytes, and reading starts again at offset 0.
    pub fn refresh(&mut self, total_len: usize)
        ensures
            final(self).content@ == Seq::<char>::empty(),
            final(self).read_offset == 0,
    {
        self.content = String::new();
        reserve_text(&mut self.content, total_len);
        self.read_offset = 0;
    }

    /// Where the next chunk of the document is to be read from.
    pub fn read_offset(&self) -> (r: usize)
        ensures
            r == self.read_offset,
    {
        self.read_offset
    }

    /// Takes the chunk that the document returned at `read_offset()`. An
    /// empty chunk ends the rebuild and changes nothing; any other chunk is
    /// appended after lossy UTF-8 decoding and moves the read offset past it.
    /// Returns whether more chunks are wanted.
    pub fn push_chunk(&mut self, chunk: &[u8]) -> (more: bool)
        requires
            old(self).read_offset + chunk@.len() <= usize::MAX,
        ensures
            more == (chunk@.len() > 0),
            more ==> final(self).content@ == old(self).content@ + lossy_of(chunk@),
            more ==> final(self).read_offset == old(self).read_offset + chunk@.len(),
            !more ==> *final(self) == *old(self),
    {
        if chunk.len() == 0 {
            return false;
        }
        let piece = decode_lossy(chunk);
        self.content.append(piece.as_str());
        self.read_offset = self.read_offset + chunk.len();
        true
    }
}

} // verus!
