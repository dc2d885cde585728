use vstd::prelude::*;
use crate::snapshot::NEWLINE;

verus! {

/// Number of consecutive failed wakes after which a watch gives up.
pub const MAX_FAILED_WAKES: u32 = 5;

/// Splits the bytes `cur + s`, where `cur` holds no line feed, into the
/// complete lines it contains (without their line feeds) and the unterminated
/// rest.
pub open spec fn split_from(cur: Seq<u8>, s: Seq<u8>) -> (Seq<Seq<u8>>, Seq<u8>)
    decreases s.len(),
{
    if s.len() == 0 {
        (Seq::empty(), cur)
    } else if s[0] == NEWLINE {
        let r = split_from(Seq::empty(), s.drop_first());
        (seq![cur] + r.0, r.1)
    } else {
        split_from(cur.push(s[0]), s.drop_first())
    }
}

pub open spec fn no_newline(s: Seq<u8>) -> bool {
    forall|i: int| 0 <= i < s.len() ==> s[i] != NEWLINE
}

/// The lines joined back, each one followed by a line feed.
pub open spec fn joined(lines: Seq<Seq<u8>>) -> Seq<u8>
    decreases lines.len(),
{
    if lines.len() == 0 {
        Seq::empty()
    } else {
        lines[0].push(NEWLINE) + joined(lines.drop_first())
    }
}

/// Splitting bytes that arrive in two pieces gives the lines of the first
/// piece followed by those that the second completes, and the same rest as
/// splitting them at once: how the bytes are grouped into wakes changes
/// nothing.
pub proof fn lemma_split_concat(p: Seq<u8>, a: Seq<u8>, b: Seq<u8>)
    ensures
        ({
            let first = split_from(p, a);
            let second = split_from(first.1, b);
            split_from(p, a + b) == (first.0 + second.0, second.1)
        }),
    decreases a.len(),
{
    let first = split_from(p, a);
    let second = split_from(first.1, b);
    if a.len() == 0 {
        assert(a + b =~= b);
        assert(first.0 + second.0 =~= second.0);
    } else {
        assert((a + b).drop_first() =~= a.drop_first() + b);
        assert((a + b)[0] == a[0]);
        if a[0] == NEWLINE {
            lemma_split_concat(Seq::empty(), a.drop_first(), b);
            let r = split_from(Seq::empty(), a.drop_first());
            assert(seq![p] + r.0 + second.0 =~= seq![p] + (r.0 + second.0));
        } else {
            lemma_split_concat(p.push(a[0]), a.drop_first(), b);
        }
    }
}

/// Lines that hold no line feed, appended each with its line feed, are split
/// back into exactly those lines, in order, with nothing left over.
pub proof fn lemma_split_joined(lines: Seq<Seq<u8>>)
    requires
        forall|i: int| 0 <= i < lines.len() ==> no_newline(#[trigger] lines[i]),
    ensures
        split_from(Seq::empty(), joined(lines)) == (lines, Seq::<u8>::empty()),
    decreases lines.len(),
{
    if lines.len() > 0 {
        let l = lines[0];
        let rest = lines.drop_first();
        assert forall|i: int| 0 <= i < rest.len() implies no_newline(#[trigger] rest[i]) by {
            assert(rest[i] == lines[i + 1]);
        }
        lemma_split_joined(rest);
        assert(no_newline(lines[0]));
        let nl = seq![NEWLINE] + joined(rest);
        lemma_split_line(Seq::empty(), l, nl);
        assert(joined(lines) =~= l + nl);
        assert(Seq::<u8>::empty() + l =~= l);
        assert(nl.drop_first() =~= joined(rest));
        assert(nl[0] == NEWLINE);
        assert(split_from(l, nl) == (seq![l] + rest, Seq::<u8>::empty()));
        assert(seq![l] + rest =~= lines);
    } else {
        assert(lines =~= Seq::<Seq<u8>>::empty());
    }
}

/// Lines appended in order come out as exactly those lines, in that order,
/// however the appended bytes are cut into the pieces read on two wakes.
pub proof fn lemma_append_order(lines: Seq<Seq<u8>>, cut: int)
    requires
        forall|i: int| 0 <= i < lines.len() ==> no_newline(#[trigger] lines[i]),
        0 <= cut <= joined(lines).len(),
    ensures
        ({
            let first = split_from(Seq::empty(), joined(lines).take(cut));
            let second = split_from(first.1, joined(lines).skip(cut));
            first.0 + second.0 == lines && second.1 == Seq::<u8>::empty()
        }),
{
    let all = joined(lines);
    lemma_split_concat(Seq::empty(), all.take(cut), all.skip(cut));
    assert(all.take(cut) + all.skip(cut) =~= all);
    lemma_split_joined(lines);
}

/// The pieces read on successive wakes, one after the other.
pub open spec fn flat(chunks: Seq<Seq<u8>>) -> Seq<u8>
    decreases chunks.len(),
{
    if chunks.len() == 0 {
        Seq::empty()
    } else {
        chunks[0] + flat(chunks.drop_first())
    }
}

/// Lines and rest after taking the pieces `chunks` one wake at a time from
/// the pending line `p`, as repeated calls of `TailCursor::absorb` do.
pub open spec fn split_wakes(p: Seq<u8>, chunks: Seq<Seq<u8>>) -> (Seq<Seq<u8>>, Seq<u8>)
    decreases chunks.len(),
{
    if chunks.len() == 0 {
        (Seq::empty(), p)
    } else {
        let first = split_from(p, chunks[0]);
        let others = split_wakes(first.1, chunks.drop_first());
        (first.0 + others.0, others.1)
    }
}

/// Taking bytes over any number of wakes gives the same lines and rest as
/// taking them all at once.
pub proof fn lemma_split_wakes(p: Seq<u8>, chunks: Seq<Seq<u8>>)
    ensures
        split_wakes(p, chunks) == split_from(p, flat(chunks)),
    decreases chunks.len(),
{
    if chunks.len() == 0 {
        assert(split_from(p, Seq::empty()).0 =~= Seq::<Seq<u8>>::empty());
    } else {
        let first = split_from(p, chunks[0]);
        lemma_split_wakes(first.1, chunks.drop_first());
        lemma_split_concat(p, chunks[0], flat(chunks.drop_first()));
    }
}

/// Lines appended in order come out as exactly those lines, in that order,
/// with nothing left over, however the appended bytes are cut into the
/// pieces read on any number of wakes.
pub proof fn lemma_append_order_wakes(lines: Seq<Seq<u8>>, chunks: Seq<Seq<u8>>)
    requires
        forall|i: int| 0 <= i < lines.len() ==> no_newline(#[trigger] lines[i]),
        flat(chunks) == joined(lines),
    ensures
        split_wakes(Seq::empty(), chunks) == (lines, Seq::<u8>::empty()),
{
    lemma_split_wakes(Seq::empty(), chunks);
    lemma_split_joined(lines);
}

/// Bytes free of line feeds only extend the pending line.
proof fn lemma_split_line(cur: Seq<u8>, l: Seq<u8>, s: Seq<u8>)
    requires
        no_newline(l),
    ensures
        split_from(cur, l + s) == split_from(cur + l, s),
    decreases l.len(),
{
    if l.len() == 0 {
        assert(l + s =~= s);
        assert(cur + l =~= cur);
    } else {
        assert((l + s).drop_first() =~= l.drop_first() + s);
        assert((l + s)[0] == l[0]);
        lemma_split_line(cur.push(l[0]), l.drop_first(), s);
        assert(cur.push(l[0]) + l.drop_first() =~= cur + l);
    }
}

/// Read position and pending partial line of one watched file.
pub struct TailCursor {
    /// Identity of the file that `pos` refers to.
    pub identity: u64,
    /// Offset up to which the file has been read.
    pub pos: u64,
    /// Bytes read after the last line feed, awaiting the rest of their line.
    pub partial: Vec<u8>,
    /// Consecutive wakes that failed to read the file.
    pub failures: u32,
}

impl TailCursor {
    pub open spec fn wf(&self) -> bool {
        &&& no_newline(self.partial@)
        &&& self.failures < MAX_FAILED_WAKES
    }

    /// A cursor at the current end of a file: only bytes appended after this
    /// point are reported.
    pub fn new(identity: u64, len: u64) -> (r: TailCursor)
        ensures
            r.wf(),
            r.identity == identity,
            r.pos == len,
            r.partial@ == Seq::<u8>::empty(),
            r.failures == 0,
    {
        TailCursor { identity, pos: len, partial: Vec::new(), failures: 0 }
    }

    /// Whether a file observed with this identity and length is no longer the
    /// one read so far: it was replaced, or it shrank below the read position.
    pub open spec fn spec_is_resync(&self, identity: u64, len: u64) -> bool {
        identity != self.identity || len < self.pos
    }

    /// Offset from which to read on a wake that observed the file with
    /// `identity` and `len`. A replaced or truncated file is read again from
    /// its start, and the partial line of the old file is dropped.
    pub fn plan_read(&mut self, identity: u64, len: u64) -> (start: u64)
        requires
            old(self).wf(),
        ensures
            final(self).wf(),
            start == final(self).pos,
            start <= len,
            final(self).identity == identity,
            final(self).failures == old(self).failures,
            old(self).spec_is_resync(identity, len) ==> final(self).pos == 0
                && final(self).partial@ == Seq::<u8>::empty(),
            !old(self).spec_is_resync(identity, len) ==> final(self).pos == old(self).pos
                && final(self).partial@ == old(self).partial@,
    {
        if identity != self.identity || len < self.pos {
            self.identity = identity;
            self.pos = 0;
            self.partial = Vec::new();
        }
        self.pos
    }

    /// Takes the bytes read from the current position: returns the lines they
    /// complete, in file order, and keeps what follows the last line feed.
    pub fn absorb(&mut self, chunk: &[u8]) -> (lines: Vec<Vec<u8>>)
        requires
            old(self).wf(),
            old(self).pos + chunk@.len() <= u64::MAX,
        ensures
            final(self).wf(),
            final(self).identity == old(self).identity,
            final(self).pos == old(self).pos + chunk@.len(),
            final(self).failures == 0,
            lines@.map_values(|l: Vec<u8>| l@) == split_from(old(self).partial@, chunk@).0,
            final(self).partial@ == split_from(old(self).partial@, chunk@).1,
    {
        let ghost start = self.partial@;
        let mut out: Vec<Vec<u8>> = Vec::new();
        let mut cur: Vec<u8> = Vec::new();
        std::mem::swap(&mut cur, &mut self.partial);
        let mut i: usize = 0;
        assert(chunk@.skip(0) =~= chunk@);
        assert(out@.map_values(|l: Vec<u8>| l@) =~= Seq::<Seq<u8>>::empty());
        assert(Seq::<Seq<u8>>::empty() + split_from(start, chunk@).0 =~= split_from(start, chunk@).0);
        while i < chunk.len()
            invariant
                i <= chunk@.len(),
                no_newline(cur@),
                ({
                    let r = split_from(cur@, chunk@.skip(i as int));
                    split_from(start, chunk@) == (out@.map_values(|l: Vec<u8>| l@) + r.0, r.1)
                }),
            decreases chunk@.len() - i,
        {
            let ghost s = chunk@.skip(i as int);
            assert(s.drop_first() =~= chunk@.skip(i + 1));
            let b = chunk[i];
            if b == NEWLINE {
                let ghost prev = out@.map_values(|l: Vec<u8>| l@);
                let mut line: Vec<u8> = Vec::new();
                std::mem::swap(&mut line, &mut cur);
                out.push(line);
                assert(out@.map_values(|l: Vec<u8>| l@) =~= prev.push(line@));
                let ghost r = split_from(Seq::empty(), chunk@.skip(i + 1));
                assert(prev + (seq![line@] + r.0) =~= prev.push(line@) + r.0);
            } else {
                cur.push(b);
            }
            i = i + 1;
        }
        assert(chunk@.skip(i as int) =~= Seq::<u8>::empty());
        assert(out@.map_values(|l: Vec<u8>| l@) + Seq::empty() =~= out@.map_values(|l: Vec<u8>| l@));
        proof {
            lemma_split_rest_no_newline(start, chunk@);
        }
        self.partial = cur;
        self.pos = self.pos + chunk.len() as u64;
        self.failures = 0;
        out
    }

    /// Records a wake on which the file could not be read. Returns whether the
    /// watch must give up: after `MAX_FAILED_WAKES` such wakes in a row.
    pub fn note_failed_wake(&mut self) -> (fatal: bool)
        requires
            old(self).wf(),
        ensures
            final(self).wf(),
            fatal == (old(self).failures + 1 >= MAX_FAILED_WAKES),
            !fatal ==> final(self).failures == old(self).failures + 1,
            fatal ==> final(self).failures == 0,
            final(self).identity == old(self).identity,
            final(self).pos == old(self).pos,
            final(self).partial@ == old(self).partial@,
    {
        if self.failures + 1 >= MAX_FAILED_WAKES {
            self.failures = 0;
            true
        } else {
            self.failures = self.failures + 1;
            false
        }
    }
}

/// The rest left by a split holds no line feed.
pub proof fn lemma_split_rest_no_newline(cur: Seq<u8>, s: Seq<u8>)
    requires
        no_newline(cur),
    ensures
        no_newline(split_from(cur, s).1),
    decreases s.len(),
{
    if s.len() > 0 {
        if s[0] == NEWLINE {
            lemma_split_rest_no_newline(Seq::empty(), s.drop_first());
        } else {
            lemma_split_rest_no_newline(cur.push(s[0]), s.drop_first());
        }
    }
}

} // verus!
