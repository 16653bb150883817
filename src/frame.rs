//! Framing of a streamed body: chunks of bytes are cut into lines at line
//! feeds, and each line is a keep-alive, one record, or a malformed record.
use vstd::prelude::*;

verus! {

pub const LINE_FEED: u8 = 10;

/// Lines joined back into bytes, each followed by a line feed.
pub open spec fn join_lines(lines: Seq<Seq<u8>>) -> Seq<u8>
    decreases lines.len(),
{
    if lines.len() == 0 {
        Seq::empty()
    } else {
        join_lines(lines.drop_last()) + lines.last() + seq![LINE_FEED]
    }
}

pub open spec fn no_line_feed(s: Seq<u8>) -> bool {
    forall|i: int| 0 <= i < s.len() ==> s[i] != LINE_FEED
}

/// The byte sequences of a list of lines.
pub open spec fn line_views(v: Seq<Vec<u8>>) -> Seq<Seq<u8>> {
    v.map_values(|l: Vec<u8>| l@)
}

/// An empty line is a keep-alive.
pub open spec fn is_blank_line(line: Seq<u8>) -> bool {
    line.len() == 0
}

/// What one line of a stream amounts to.
#[derive(Clone, Debug)]
pub enum FrameOutcome<T> {
    /// A blank line: no record and no error.
    KeepAlive,
    /// Exactly one decoded record.
    Event(T),
    /// A line that does not decode: the stream ends.
    Malformed,
}

/// Holds the bytes of a line whose line feed has not arrived yet.
pub struct LineFramer {
    pending: Vec<u8>,
}

impl LineFramer {
    pub closed spec fn pending_spec(&self) -> Seq<u8> {
        self.pending@
    }

    pub open spec fn wf(&self) -> bool {
        no_line_feed(self.pending_spec())
    }

    pub fn new() -> (r: Self)
        ensures
            r.pending_spec() == Seq::<u8>::empty(),
            r.wf(),
    {
        LineFramer { pending: Vec::new() }
    }

    /// The bytes after the last line feed so far.
    pub fn pending(&self) -> (r: &Vec<u8>)
        ensures
            r@ == self.pending_spec(),
    {
        &self.pending
    }

    /// Takes the next chunk and returns the lines it completes, in order,
    /// without their line feeds. Nothing is lost or reordered: the lines
    /// joined with line feeds, then what is still pending, are what was
    /// pending before followed by the chunk.
    pub fn push_chunk(&mut self, chunk: &[u8]) -> (lines: Vec<Vec<u8>>)
        requires
            old(self).wf(),
        ensures
            final(self).wf(),
            join_lines(line_views(lines@)) + final(self).pending_spec() == old(
                self,
            ).pending_spec() + chunk@,
            forall|k: int| 0 <= k < lines@.len() ==> no_line_feed(#[trigger] lines@[k]@),
    {
        let mut cur: Vec<u8> = Vec::new();
        std::mem::swap(&mut cur, &mut self.pending);
        let mut lines: Vec<Vec<u8>> = Vec::new();
        let mut i: usize = 0;
        proof {
            assert(chunk@.subrange(0, 0) =~= Seq::<u8>::empty());
            assert(line_views(lines@) =~= Seq::<Seq<u8>>::empty());
            assert(join_lines(line_views(lines@)) + cur@ =~= old(self).pending_spec() + chunk@.subrange(0, 0));
        }
        while i < chunk.len()
            invariant
                i <= chunk@.len(),
                no_line_feed(cur@),
                forall|k: int| 0 <= k < lines@.len() ==> no_line_feed(#[trigger] lines@[k]@),
                join_lines(line_views(lines@)) + cur@ == old(self).pending_spec() + chunk@.subrange(
                    0,
                    i as int,
                ),
            decreases chunk@.len() - i,
        {
            let b = chunk[i];
            let ghost before = old(self).pending_spec() + chunk@.subrange(0, i as int);
            proof {
                assert(old(self).pending_spec() + chunk@.subrange(0, i + 1) =~= before.push(b));
            }
            if b == LINE_FEED {
                let mut line: Vec<u8> = Vec::new();
                std::mem::swap(&mut line, &mut cur);
                let ghost prev = lines@;
                lines.push(line);
                proof {
                    assert(line_views(lines@).drop_last() =~= line_views(prev));
                    assert(line_views(lines@).last() == line@);
                    assert(join_lines(line_views(lines@)) + cur@ =~= before.push(b));
                }
            } else {
                let ghost prev = cur@;
                cur.push(b);
                proof {
                    assert(join_lines(line_views(lines@)) + cur@ =~= (join_lines(
                        line_views(lines@),
                    ) + prev).push(b));
                }
            }
            i += 1;
        }
        proof {
            assert(chunk@.subrange(0, chunk@.len() as int) =~= chunk@);
        }
        self.pending = cur;
        lines
    }
}

/// Framing is indifferent to where chunks break: the lines that successive
/// chunks complete, joined in arrival order, are the joins of each chunk's
/// lines one after the other. With `push_chunk`'s contract this gives, for
/// any chunk sequence, the lines of the concatenated body in order.
pub proof fn lemma_join_lines_append(a: Seq<Seq<u8>>, b: Seq<Seq<u8>>)
    ensures
        join_lines(a + b) == join_lines(a) + join_lines(b),
    decreases b.len(),
{
    if b.len() == 0 {
        assert(a + b =~= a);
        assert(join_lines(a) + join_lines(b) =~= join_lines(a));
    } else {
        assert((a + b).drop_last() =~= a + b.drop_last());
        assert((a + b).last() == b.last());
        lemma_join_lines_append(a, b.drop_last());
        assert(join_lines(a + b) =~= join_lines(a) + join_lines(b));
    }
}

/// Framing a first chunk and then a second leaves pending exactly what
/// framing their concatenation would, and completes the same lines: the
/// lines of both calls, joined in order, then the pending tail, are the
/// bytes pending before followed by both chunks.
pub proof fn lemma_two_chunks(
    p0: Seq<u8>,
    c1: Seq<u8>,
    l1: Seq<Seq<u8>>,
    p1: Seq<u8>,
    c2: Seq<u8>,
    l2: Seq<Seq<u8>>,
    p2: Seq<u8>,
)
    requires
        join_lines(l1) + p1 == p0 + c1,
        join_lines(l2) + p2 == p1 + c2,
    ensures
        join_lines(l1 + l2) + p2 == p0 + (c1 + c2),
{
    lemma_join_lines_append(l1, l2);
    assert(join_lines(l1 + l2) + p2 =~= join_lines(l1) + (join_lines(l2) + p2));
    assert(join_lines(l1) + (p1 + c2) =~= (join_lines(l1) + p1) + c2);
    assert(p0 + (c1 + c2) =~= (p0 + c1) + c2);
}

/// Whether a line is a keep-alive.
pub fn is_blank(line: &[u8]) -> (r: bool)
    ensures
        r == is_blank_line(line@),
{
    line.len() == 0
}

/// What a line amounts to, given what the record decoder made of it
/// (`None` when it could not decode it). An empty line is a keep-alive
/// whatever the decoder said; it need not be decoded at all.
pub fn frame_outcome<T>(line: &[u8], decoded: Option<T>) -> (r: FrameOutcome<T>)
    ensures
        is_blank_line(line@) ==> r is KeepAlive,
        !is_blank_line(line@) ==> match decoded {
            Some(e) => r == FrameOutcome::Event(e),
            None => r is Malformed,
        },
{
    if is_blank(line) {
        FrameOutcome::KeepAlive
    } else {
        match decoded {
            Some(e) => FrameOutcome::Event(e),
            None => FrameOutcome::Malformed,
        }
    }
}

} // verus!
