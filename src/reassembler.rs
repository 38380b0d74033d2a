use vstd::prelude::*;

verus! {

/// The byte that ends a line on the wire.
pub const NEWLINE: u8 = 10;

pub open spec fn has_no_newline(s: Seq<u8>) -> bool {
    forall|i: int| 0 <= i < s.len() ==> s[i] != NEWLINE
}

/// Splits a byte stream into its newline-terminated lines (terminators
/// stripped) and the unterminated bytes after the last newline.
pub open spec fn split_lines(s: Seq<u8>) -> (Seq<Seq<u8>>, Seq<u8>)
    decreases s.len(),
{
    if s.len() == 0 {
        (seq![], seq![])
    } else {
        let (lines, rest) = split_lines(s.drop_last());
        if s.last() == NEWLINE {
            (lines.push(rest), seq![])
        } else {
            (lines, rest.push(s.last()))
        }
    }
}

/// What a sequence of `feed` calls emits in total, starting from an empty
/// pending line, together with the pending line left at the end.
pub open spec fn feed_all(chunks: Seq<Seq<u8>>) -> (Seq<Seq<u8>>, Seq<u8>)
    decreases chunks.len(),
{
    if chunks.len() == 0 {
        (seq![], seq![])
    } else {
        let (lines, pending) = feed_all(chunks.drop_last());
        let (more, rest) = split_lines(pending + chunks.last());
        (lines + more, rest)
    }
}

/// Each line followed by its terminator, all in order.
pub open spec fn terminated(segments: Seq<Seq<u8>>) -> Seq<Seq<u8>> {
    segments.map_values(|s: Seq<u8>| s.push(NEWLINE))
}

pub open spec fn views_of(lines: Seq<Vec<u8>>) -> Seq<Seq<u8>> {
    lines.map_values(|l: Vec<u8>| l@)
}

/// Turns chunks of bytes, cut anywhere, into complete lines.
pub struct Reassembler {
    pending: Vec<u8>,
}

impl View for Reassembler {
    type V = Seq<u8>;

    /// The bytes received since the last newline.
    closed spec fn view(&self) -> Seq<u8> {
        self.pending@
    }
}

impl Reassembler {
    pub open spec fn wf(&self) -> bool {
        has_no_newline(self@)
    }

    pub fn new() -> (r: Reassembler)
        ensures
            r.wf(),
            r@ == Seq::<u8>::empty(),
    {
        Reassembler { pending: Vec::new() }
    }

    /// Appends `chunk` to the pending line and returns every line that it
    /// completes, in order, without terminators; the bytes after the last
    /// newline become the new pending line.
    pub fn feed(&mut self, chunk: &[u8]) -> (lines: Vec<Vec<u8>>)
        requires
            old(self).wf(),
        ensures
            final(self).wf(),
            (views_of(lines@), final(self)@) == split_lines(old(self)@ + chunk@),
    {
        let mut lines: Vec<Vec<u8>> = Vec::new();
        let mut cur: Vec<u8> = Vec::new();
        let ghost start = self@;
        proof {
            lemma_split_no_newline(start);
        }
        std::mem::swap(&mut cur, &mut self.pending);
        let mut i: usize = 0;
        while i < chunk.len()
            invariant
                i <= chunk@.len(),
                has_no_newline(cur@),
                (views_of(lines@), cur@) == split_lines(start + chunk@.subrange(0, i as int)),
            decreases chunk@.len() - i,
        {
            let b = chunk[i];
            let ghost prev = start + chunk@.subrange(0, i as int);
            let ghost next = start + chunk@.subrange(0, i + 1);
            assert(next.drop_last() =~= prev);
            assert(next.last() == b);
            if b == NEWLINE {
                let mut line: Vec<u8> = Vec::new();
                std::mem::swap(&mut line, &mut cur);
                lines.push(line);
                assert(views_of(lines@) =~= split_lines(next).0);
            } else {
                cur.push(b);
                assert(has_no_newline(cur@));
            }
            i = i + 1;
        }
        assert(chunk@.subrange(0, i as int) =~= chunk@);
        self.pending = cur;
        lines
    }

    /// Ends the stream: hands out the pending line if it holds any bytes.
    pub fn flush(&mut self) -> (r: Option<Vec<u8>>)
        requires
            old(self).wf(),
        ensures
            final(self).wf(),
            final(self)@ == Seq::<u8>::empty(),
            old(self)@.len() == 0 ==> r is None,
            old(self)@.len() > 0 ==> (r matches Some(l) && l@ == old(self)@),
    {
        let mut line: Vec<u8> = Vec::new();
        std::mem::swap(&mut line, &mut self.pending);
        if line.len() == 0 {
            None
        } else {
            Some(line)
        }
    }
}

pub proof fn lemma_split_no_newline(s: Seq<u8>)
    requires
        has_no_newline(s),
    ensures
        split_lines(s) == (Seq::<Seq<u8>>::empty(), s),
    decreases s.len(),
{
    if s.len() > 0 {
        lemma_split_no_newline(s.drop_last());
        assert(s.drop_last().push(s.last()) =~= s);
    }
}

pub proof fn lemma_split_rest_has_no_newline(s: Seq<u8>)
    ensures
        has_no_newline(split_lines(s).1),
    decreases s.len(),
{
    if s.len() > 0 {
        lemma_split_rest_has_no_newline(s.drop_last());
    }
}

/// Splitting `a + b` splits `a`, then splits what `a` left pending followed
/// by `b`.
pub proof fn lemma_split_append(a: Seq<u8>, b: Seq<u8>)
    ensures
        split_lines(a + b) == (
            split_lines(a).0 + split_lines(split_lines(a).1 + b).0,
            split_lines(split_lines(a).1 + b).1,
        ),
    decreases b.len(),
{
    let p = split_lines(a).1;
    lemma_split_rest_has_no_newline(a);
    if b.len() == 0 {
        assert(a + b =~= a);
        assert(p + b =~= p);
        lemma_split_no_newline(p);
        assert(split_lines(a).0 + Seq::<Seq<u8>>::empty() =~= split_lines(a).0);
    } else {
        lemma_split_append(a, b.drop_last());
        assert((a + b).drop_last() =~= a + b.drop_last());
        assert((p + b).drop_last() =~= p + b.drop_last());
        assert((a + b).last() == b.last());
        assert((p + b).last() == b.last());
        let ls = split_lines(a).0;
        let inner = split_lines(p + b.drop_last()).0;
        assert((ls + inner).push(split_lines(p + b.drop_last()).1) =~= ls + inner.push(
            split_lines(p + b.drop_last()).1,
        ));
    }
}

/// Feeding the chunks one after another emits the same lines, and leaves the
/// same pending bytes, as splitting their concatenation at once: where the
/// chunks are cut does not matter.
pub proof fn law_feed_ignores_chunk_boundaries(chunks: Seq<Seq<u8>>)
    ensures
        feed_all(chunks) == split_lines(chunks.flatten()),
    decreases chunks.len(),
{
    chunks.lemma_flatten_and_flatten_alt_are_equivalent();
    if chunks.len() > 0 {
        let init = chunks.drop_last();
        law_feed_ignores_chunk_boundaries(init);
        init.lemma_flatten_and_flatten_alt_are_equivalent();
        lemma_split_append(init.flatten(), chunks.last());
    }
}

/// Bytes with no newline anywhere, however they are cut into chunks, give no
/// line while they are fed, and stay pending in full until the end of the
/// stream.
pub proof fn law_no_newline_gives_no_line(chunks: Seq<Seq<u8>>)
    requires
        has_no_newline(chunks.flatten()),
    ensures
        feed_all(chunks).0 == Seq::<Seq<u8>>::empty(),
        feed_all(chunks).1 == chunks.flatten(),
{
    law_feed_ignores_chunk_boundaries(chunks);
    lemma_split_no_newline(chunks.flatten());
}

pub proof fn lemma_split_terminated(segments: Seq<Seq<u8>>)
    requires
        forall|k: int| 0 <= k < segments.len() ==> has_no_newline(#[trigger] segments[k]),
    ensures
        split_lines(terminated(segments).flatten_alt()) == (segments, Seq::<u8>::empty()),
    decreases segments.len(),
{
    if segments.len() > 0 {
        let init = segments.drop_last();
        let last = segments.last();
        assert(terminated(segments).drop_last() =~= terminated(init));
        assert(has_no_newline(last));
        lemma_split_terminated(init);
        lemma_split_append(terminated(init).flatten_alt(), last.push(NEWLINE));
        assert(Seq::<u8>::empty() + last.push(NEWLINE) =~= last.push(NEWLINE));
        assert(last.push(NEWLINE).drop_last() =~= last);
        lemma_split_no_newline(last);
        assert(init.push(last) =~= segments);
    }
}

/// `n` newline-terminated segments, cut into chunks anywhere (one byte per
/// chunk included), come out as exactly `n` lines, each the segment without
/// its terminator, in order, with nothing left pending.
pub proof fn law_terminated_segments_come_out_whole(
    segments: Seq<Seq<u8>>,
    chunks: Seq<Seq<u8>>,
)
    requires
        forall|k: int| 0 <= k < segments.len() ==> has_no_newline(#[trigger] segments[k]),
        chunks.flatten() == terminated(segments).flatten(),
    ensures
        feed_all(chunks).0 == segments,
        feed_all(chunks).0.len() == segments.len(),
        feed_all(chunks).1 == Seq::<u8>::empty(),
{
    law_feed_ignores_chunk_boundaries(chunks);
    terminated(segments).lemma_flatten_and_flatten_alt_are_equivalent();
    lemma_split_terminated(segments);
}

} // verus!
