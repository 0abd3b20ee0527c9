//! Framing of a server-sent event stream: raw chunks go in, complete records
//! come out. A record ends at a blank line, that is at two line feeds in a
//! row; what follows the last blank line waits for the next chunk.

use crate::text::{
    contains, find, first_occurrence, occurs_at, lemma_first_occurrence,
    lemma_first_occurrence_exists, sub_vec, text_of, texts_of,
};
use vstd::prelude::*;
use vstd::utf8::*;

verus! {

/// The two line feeds that end a record.
pub open spec fn record_break() -> Seq<char> {
    seq!['\n', '\n']
}

/// The records that `s` holds in full, in the order in which they end. Each
/// is the text before the next blank line, which is consumed with it.
#[verifier::opaque]
pub open spec fn complete_records(s: Seq<char>) -> Seq<Seq<char>>
    decreases s.len(),
{
    let i = first_occurrence(s, record_break());
    if contains(s, record_break()) && 0 <= i && i + 2 <= s.len() {
        seq![s.take(i)] + complete_records(s.skip(i + 2))
    } else {
        Seq::empty()
    }
}

/// What is left of `s` behind its last complete record: the start of a
/// record whose blank line has not arrived.
#[verifier::opaque]
pub open spec fn pending(s: Seq<char>) -> Seq<char>
    decreases s.len(),
{
    let i = first_occurrence(s, record_break());
    if contains(s, record_break()) && 0 <= i && i + 2 <= s.len() {
        pending(s.skip(i + 2))
    } else {
        s
    }
}

/// The text that a chunk contributes: its decoding where it is valid UTF-8
/// as a whole, nothing where it is not.
pub open spec fn chunk_text(bytes: Seq<u8>) -> Seq<char> {
    if valid_utf8(bytes) {
        decode_utf8(bytes)
    } else {
        Seq::empty()
    }
}

/// A blank line found in `a` is still the first one when more text follows.
pub proof fn lemma_first_break_extends(a: Seq<char>, b: Seq<char>)
    requires
        contains(a, record_break()),
    ensures
        contains(a + b, record_break()),
        first_occurrence(a + b, record_break()) == first_occurrence(a, record_break()),
        0 <= first_occurrence(a, record_break()),
        first_occurrence(a, record_break()) + 2 <= a.len(),
{
    let p = record_break();
    assert(p.len() == 2);
    lemma_first_occurrence_exists(a, p);
    let i = first_occurrence(a, p);
    assert((a + b).subrange(i, i + 2) =~= a.subrange(i, i + 2));
    assert forall|j: int| 0 <= j < i implies !occurs_at(a + b, p, j) by {
        assert(!occurs_at(a, p, j));
        assert((a + b).subrange(j, j + 2) =~= a.subrange(j, j + 2));
    }
    lemma_first_occurrence(a + b, p, i);
}

/// Text with a blank line splits into its first record and what follows
/// the blank line.
pub proof fn lemma_records_split(s: Seq<char>)
    requires
        contains(s, record_break()),
    ensures
        0 <= first_occurrence(s, record_break()),
        first_occurrence(s, record_break()) + 2 <= s.len(),
        complete_records(s) == seq![s.take(first_occurrence(s, record_break()))]
            + complete_records(s.skip(first_occurrence(s, record_break()) + 2)),
        pending(s) == pending(s.skip(first_occurrence(s, record_break()) + 2)),
{
    reveal(complete_records);
    reveal(pending);
    assert(record_break().len() == 2);
    lemma_first_occurrence_exists(s, record_break());
}

/// Text without a blank line holds no complete record and is pending as a
/// whole.
pub proof fn lemma_records_none(s: Seq<char>)
    requires
        !contains(s, record_break()),
    ensures
        complete_records(s) == Seq::<Seq<char>>::empty(),
        pending(s) == s,
{
    reveal(complete_records);
    reveal(pending);
}

/// What is held back holds no blank line: at most the start of one record.
pub proof fn lemma_pending_is_partial(s: Seq<char>)
    ensures
        !contains(pending(s), record_break()),
    decreases s.len(),
{
    if contains(s, record_break()) {
        lemma_records_split(s);
        lemma_pending_is_partial(s.skip(first_occurrence(s, record_break()) + 2));
    } else {
        lemma_records_none(s);
    }
}

/// Feeding `a` and then `b` gives the records of `a` followed by those that
/// the rest of `a` completes together with `b`, and leaves the same rest as
/// feeding both at once.
pub proof fn lemma_records_append(a: Seq<char>, b: Seq<char>)
    ensures
        complete_records(a + b) == complete_records(a) + complete_records(pending(a) + b),
        pending(a + b) == pending(pending(a) + b),
    decreases a.len(),
{
    let p = record_break();
    if contains(a, p) {
        lemma_first_break_extends(a, b);
        lemma_records_split(a);
        lemma_records_split(a + b);
        let i = first_occurrence(a, p);
        let rest = a.skip(i + 2);
        assert((a + b).skip(i + 2) =~= rest + b);
        assert((a + b).take(i) =~= a.take(i));
        lemma_records_append(rest, b);
        let head = seq![a.take(i)];
        let r = complete_records(pending(rest) + b);
        assert(head + (complete_records(rest) + r) =~= (head + complete_records(rest)) + r);
    } else {
        lemma_records_none(a);
        assert(Seq::<Seq<char>>::empty() + complete_records(a + b) =~= complete_records(a + b));
    }
}

/// The text that a run of chunks contributes: what each contributes, joined
/// in order.
pub open spec fn joined_text(chunks: Seq<Seq<u8>>) -> Seq<char>
    decreases chunks.len(),
{
    if chunks.len() == 0 {
        Seq::empty()
    } else {
        joined_text(chunks.drop_last()) + chunk_text(chunks.last())
    }
}

/// What an assembler that started empty holds back after `chunks` have been
/// pushed one at a time.
pub open spec fn pending_after(chunks: Seq<Seq<u8>>) -> Seq<char>
    decreases chunks.len(),
{
    if chunks.len() == 0 {
        Seq::empty()
    } else {
        pending(pending_after(chunks.drop_last()) + chunk_text(chunks.last()))
    }
}

/// The records that an assembler that started empty has handed out after
/// `chunks` have been pushed one at a time.
pub open spec fn records_after(chunks: Seq<Seq<u8>>) -> Seq<Seq<char>>
    decreases chunks.len(),
{
    if chunks.len() == 0 {
        Seq::empty()
    } else {
        records_after(chunks.drop_last()) + complete_records(
            pending_after(chunks.drop_last()) + chunk_text(chunks.last()),
        )
    }
}

/// All of `chunks` as one chunk.
pub open spec fn concat_bytes(chunks: Seq<Seq<u8>>) -> Seq<u8>
    decreases chunks.len(),
{
    if chunks.len() == 0 {
        Seq::empty()
    } else {
        concat_bytes(chunks.drop_last()) + chunks.last()
    }
}

/// Pushing chunks one at a time hands out the records of their joined text,
/// and holds back what that text leaves pending: where the chunk boundaries
/// fall makes no difference.
pub proof fn lemma_chunking_is_invisible(chunks: Seq<Seq<u8>>)
    ensures
        records_after(chunks) == complete_records(joined_text(chunks)),
        pending_after(chunks) == pending(joined_text(chunks)),
    decreases chunks.len(),
{
    if chunks.len() == 0 {
        lemma_no_break_in_short_text(Seq::empty());
        lemma_records_none(Seq::empty());
    } else {
        let before = chunks.drop_last();
        lemma_chunking_is_invisible(before);
        lemma_records_append(joined_text(before), chunk_text(chunks.last()));
    }
}

/// Text of fewer than two characters holds no blank line.
pub proof fn lemma_no_break_in_short_text(s: Seq<char>)
    requires
        s.len() < 2,
    ensures
        !contains(s, record_break()),
{
    reveal(contains);
    assert(record_break().len() == 2);
}

/// Valid chunks decode, joined, to what they decode to one by one.
pub proof fn lemma_decode_concat(a: Seq<u8>, b: Seq<u8>)
    requires
        valid_utf8(a),
        valid_utf8(b),
    ensures
        valid_utf8(a + b),
        decode_utf8(a + b) == decode_utf8(a) + decode_utf8(b),
    decreases a.len(),
{
    valid_utf8_concat(a, b);
    if a.len() == 0 {
        assert(a + b =~= b);
        assert(decode_utf8(a) + decode_utf8(b) =~= decode_utf8(b));
    } else {
        let rest = pop_first_scalar(a);
        decode_utf8_first_scalar(a);
        assert(pop_first_scalar(a + b) =~= rest + b);
        lemma_decode_concat(rest, b);
        assert(decode_first_scalar(a + b) == decode_first_scalar(a));
        assert(decode_utf8(a + b) =~= decode_utf8(a) + decode_utf8(b));
    }
}

/// Chunks that are each valid UTF-8 contribute, joined, what they would
/// contribute as a single chunk.
pub proof fn lemma_joined_text_of_valid_chunks(chunks: Seq<Seq<u8>>)
    requires
        forall|i: int| 0 <= i < chunks.len() ==> valid_utf8(#[trigger] chunks[i]),
    ensures
        valid_utf8(concat_bytes(chunks)),
        joined_text(chunks) == chunk_text(concat_bytes(chunks)),
    decreases chunks.len(),
{
    if chunks.len() > 0 {
        let before = chunks.drop_last();
        assert forall|i: int| 0 <= i < before.len() implies valid_utf8(#[trigger] before[i]) by {
            assert(before[i] == chunks[i]);
        }
        lemma_joined_text_of_valid_chunks(before);
        lemma_decode_concat(concat_bytes(before), chunks.last());
    }
}

/// Chunk-boundary invariance: however an input is cut into chunks that are
/// each valid UTF-8, pushing the chunks one at a time hands out the same
/// records, and holds back the same rest, as pushing the whole input as one
/// chunk.
pub proof fn lemma_chunk_boundary_invariance(chunks: Seq<Seq<u8>>)
    requires
        forall|i: int| 0 <= i < chunks.len() ==> valid_utf8(#[trigger] chunks[i]),
    ensures
        records_after(chunks) == records_after(seq![concat_bytes(chunks)]),
        pending_after(chunks) == pending_after(seq![concat_bytes(chunks)]),
{
    let whole = seq![concat_bytes(chunks)];
    lemma_chunking_is_invisible(chunks);
    lemma_chunking_is_invisible(whole);
    lemma_joined_text_of_valid_chunks(chunks);
    assert(whole.drop_last() =~= Seq::<Seq<u8>>::empty());
    assert(joined_text(whole.drop_last()) =~= Seq::<char>::empty());
    assert(joined_text(whole) =~= chunk_text(concat_bytes(chunks)));
}

/// The whole of `bytes` as text, if it is valid UTF-8.
///
/// Trusted: calls `std::str::from_utf8`, which accepts exactly the valid
/// UTF-8 byte strings and then returns the text that they encode.
#[verifier::external_body]
fn utf8_text(bytes: &[u8]) -> (r: Option<&str>)
    ensures
        r is Some <==> valid_utf8(bytes@),
        r matches Some(s) ==> s@ == decode_utf8(bytes@),
{
    match std::str::from_utf8(bytes) {
        Ok(s) => Some(s),
        Err(_) => None,
    }
}

/// The state of one stream's framing: the text received behind the last
/// complete record.
pub struct FrameAssembler {
    buffer: Vec<char>,
}

impl View for FrameAssembler {
    type V = Seq<char>;

    /// The text that is held back.
    closed spec fn view(&self) -> Seq<char> {
        self.buffer@
    }
}

impl FrameAssembler {
    /// An assembler that holds nothing back.
    pub fn new() -> (a: Self)
        ensures
            a@ == Seq::<char>::empty(),
            !contains(a@, record_break()),
    {
        proof {
            lemma_no_break_in_short_text(Seq::empty());
        }
        FrameAssembler { buffer: Vec::new() }
    }

    /// The text that is held back.
    pub fn pending_text(&self) -> (out: String)
        ensures
            out@ == self@,
    {
        let out = text_of(&self.buffer, 0, self.buffer.len());
        proof {
            assert(self.buffer@.subrange(0, self.buffer@.len() as int) =~= self.buffer@);
        }
        out
    }

    /// Appends `text` to what is held back and hands out every record that
    /// is now complete, oldest first.
    pub fn push_text(&mut self, text: &str) -> (records: Vec<String>)
        ensures
            texts_of(records@) == complete_records(old(self)@ + text@),
            final(self)@ == pending(old(self)@ + text@),
            !contains(final(self)@, record_break()),
    {
        let ghost whole = self.buffer@ + text@;
        proof {
            lemma_pending_is_partial(whole);
        }
        for c in it: text.chars()
            invariant
                it.seq() == text@,
                self.buffer@ == old(self).buffer@ + text@.take(it.index() as int),
        {
            proof {
                assert(text@.take(it.index() + 1) =~= text@.take(it.index() as int).push(c));
            }
            self.buffer.push(c);
        }
        assert(self.buffer@ =~= whole) by {
            assert(text@.take(text@.len() as int) =~= text@);
        }
        let mut blank: Vec<char> = Vec::new();
        blank.push('\n');
        blank.push('\n');
        assert(blank@ =~= record_break());
        let mut records: Vec<String> = Vec::new();
        proof {
            assert(texts_of(records@) =~= Seq::<Seq<char>>::empty());
            assert(Seq::<Seq<char>>::empty() + complete_records(whole) =~= complete_records(whole));
        }
        loop
            invariant
                blank@ == record_break(),
                texts_of(records@) + complete_records(self.buffer@) == complete_records(whole),
                pending(self.buffer@) == pending(whole),
            ensures
                texts_of(records@) == complete_records(whole),
                self.buffer@ == pending(whole),
            decreases self.buffer.len(),
        {
            match find(&self.buffer, &blank) {
                Some(i) => {
                    proof {
                        lemma_first_occurrence(self.buffer@, blank@, i as int);
                        lemma_records_split(self.buffer@);
                    }
                    let record = text_of(&self.buffer, 0, i);
                    let rest = sub_vec(&self.buffer, i + 2, self.buffer.len());
                    proof {
                        let done = texts_of(records@);
                        let tail = complete_records(rest@);
                        assert(self.buffer@.take(i as int) =~= record@);
                        assert(self.buffer@.skip(i + 2) =~= rest@);
                        assert(texts_of(records@.push(record)) =~= done.push(record@));
                        assert(done.push(record@) + tail =~= done + (seq![record@] + tail));
                    }
                    records.push(record);
                    self.buffer = rest;
                },
                None => {
                    proof {
                        lemma_records_none(self.buffer@);
                        assert(texts_of(records@) + Seq::<Seq<char>>::empty() =~= texts_of(
                            records@,
                        ));
                    }
                    break ;
                },
            }
        }
        records
    }

    /// Takes in one chunk as the transport delivered it. A chunk that is
    /// valid UTF-8 as a whole is appended as text; any other chunk is
    /// dropped and changes nothing.
    pub fn push_chunk(&mut self, chunk: &[u8]) -> (records: Vec<String>)
        ensures
            texts_of(records@) == complete_records(old(self)@ + chunk_text(chunk@)),
            final(self)@ == pending(old(self)@ + chunk_text(chunk@)),
            !contains(final(self)@, record_break()),
    {
        proof {
            reveal_strlit("");
        }
        match utf8_text(chunk) {
            Some(text) => self.push_text(text),
            None => {
                assert(""@ =~= Seq::<char>::empty());
                self.push_text("")
            },
        }
    }
}

/// The bytes of each chunk of `chunks`, in order.
pub open spec fn bytes_of(chunks: Seq<Vec<u8>>) -> Seq<Seq<u8>> {
    chunks.map_values(|c: Vec<u8>| c@)
}

/// Pushes `chunks` one at a time into an assembler that holds nothing back:
/// the records handed out, oldest first, and the text held back at the end.
pub fn assemble(chunks: &Vec<Vec<u8>>) -> (r: (Vec<String>, String))
    ensures
        texts_of(r.0@) == records_after(bytes_of(chunks@)),
        r.1@ == pending_after(bytes_of(chunks@)),
{
    let ghost all = bytes_of(chunks@);
    let mut assembler = FrameAssembler::new();
    let mut records: Vec<String> = Vec::new();
    let mut i: usize = 0;
    proof {
        assert(texts_of(records@) =~= records_after(all.take(0)));
    }
    while i < chunks.len()
        invariant
            i <= chunks.len(),
            all == bytes_of(chunks@),
            texts_of(records@) == records_after(all.take(i as int)),
            assembler@ == pending_after(all.take(i as int)),
        decreases chunks.len() - i,
    {
        let ghost before = texts_of(records@);
        let mut completed = assembler.push_chunk(chunks[i].as_slice());
        let ghost added = texts_of(completed@);
        proof {
            let next = all.take(i + 1);
            assert(next.drop_last() =~= all.take(i as int));
            assert(next.last() == chunks@[i as int]@);
            assert(texts_of(records@ + completed@) =~= before + added);
        }
        records.append(&mut completed);
        i += 1;
    }
    proof {
        assert(all.take(chunks.len() as int) =~= all);
    }
    (records, assembler.pending_text())
}

} // verus!
