//! Reassembly of complete NMEA sentences from a stream of input lines.

use crate::strutil::contains_seq;
use crate::strutil::contains_sub;
use vstd::prelude::*;
use vstd::string::StringExecFns;

verus! {

/// Collects input lines into complete `$`-to-`*` sentences.
///
/// A line starting with `$` flushes whatever is being accumulated and starts
/// a new sentence; any other line extends the current sentence, if one is
/// being accumulated. The accumulation flushes as soon as it contains the
/// checksum marker `*`. Empty lines, and lines arriving while nothing is
/// accumulated, are dropped, as is an unterminated trailing fragment when
/// the stream ends.
pub struct SentenceAssembler {
    buffer: String,
}

impl View for SentenceAssembler {
    type V = Seq<char>;

    closed spec fn view(&self) -> Seq<char> {
        self.buffer@
    }
}

/// One assembler step on `buf` for input `line`: the buffer afterwards, and
/// the sentences emitted, in order.
pub open spec fn spec_feed(buf: Seq<char>, line: Seq<char>) -> (Seq<char>, Seq<Seq<char>>) {
    if line.len() == 0 {
        (buf, Seq::<Seq<char>>::empty())
    } else if line[0] == '$' {
        let flushed: Seq<Seq<char>> = if buf.len() > 0 {
            seq![buf]
        } else {
            Seq::<Seq<char>>::empty()
        };
        if contains_seq(line, "*"@) {
            (Seq::<char>::empty(), flushed.push(line))
        } else {
            (line, flushed)
        }
    } else if buf.len() > 0 {
        let grown = buf + line;
        if contains_seq(grown, "*"@) {
            (Seq::<char>::empty(), seq![grown])
        } else {
            (grown, Seq::<Seq<char>>::empty())
        }
    } else {
        (buf, Seq::<Seq<char>>::empty())
    }
}

impl SentenceAssembler {
    /// An assembler with nothing accumulated.
    pub fn new() -> (r: Self)
        ensures
            r@ == Seq::<char>::empty(),
    {
        SentenceAssembler { buffer: String::new() }
    }

    /// Feeds one input line, already stripped of its terminators, and
    /// returns the complete sentences it released, in order.
    pub fn feed(&mut self, line: &str) -> (emitted: Vec<String>)
        ensures
            final(self)@ == spec_feed(old(self)@, line@).0,
            emitted.deep_view() == spec_feed(old(self)@, line@).1,
    {
        let mut emitted: Vec<String> = Vec::new();
        if line.is_empty() {
            assert(emitted.deep_view() =~= spec_feed(old(self)@, line@).1);
            return emitted;
        }
        if line.get_char(0) == '$' {
            if !self.buffer.as_str().is_empty() {
                emitted.push(self.buffer.clone());
            }
            self.buffer = String::from_str(line);
            if contains_sub(self.buffer.as_str(), "*") {
                emitted.push(self.buffer.clone());
                self.buffer = String::new();
            }
            assert(emitted.deep_view() =~= spec_feed(old(self)@, line@).1);
            emitted
        } else if !self.buffer.as_str().is_empty() {
            self.buffer.append(line);
            if contains_sub(self.buffer.as_str(), "*") {
                emitted.push(self.buffer.clone());
                self.buffer = String::new();
            }
            assert(emitted.deep_view() =~= spec_feed(old(self)@, line@).1);
            emitted
        } else {
            assert(emitted.deep_view() =~= spec_feed(old(self)@, line@).1);
            emitted
        }
    }
}

/// A sentence may arrive split across reads: a `$`-led line without the
/// checksum marker followed by a continuation line carrying it emits, from
/// an empty assembler, no sentence on the first line and exactly one on the
/// second — the concatenation of the two lines.
pub proof fn lemma_two_line_reassembly(first: Seq<char>, second: Seq<char>)
    requires
        first.len() > 0,
        first[0] == '$',
        !contains_seq(first, "*"@),
        second.len() > 0,
        second[0] != '$',
        contains_seq(second, "*"@),
    ensures
        spec_feed(Seq::<char>::empty(), first).1 == Seq::<Seq<char>>::empty(),
        spec_feed(Seq::<char>::empty(), first).0 == first,
        spec_feed(first, second).1 == seq![first + second],
        spec_feed(first, second).0 == Seq::<char>::empty(),
{
    let i = choose|i: int|
        0 <= i && i + "*"@.len() <= second.len() && #[trigger] second.subrange(i, i + "*"@.len())
            == "*"@;
    assert((first + second).subrange(first.len() + i, first.len() + i + "*"@.len() as int) =~= second
        .subrange(i, i + "*"@.len() as int));
    assert(contains_seq(first + second, "*"@));
}

} // verus!
