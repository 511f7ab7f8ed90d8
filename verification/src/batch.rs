//! Batching of CSV lines.
//!
//! The first line of the input is the header. Data lines are gathered into a
//! chunk that starts with the header; once the chunk holds `size` data lines,
//! the next line hands the chunk over and a fresh chunk (header only) is
//! started. The line that triggers the hand-over is not kept. When the input
//! ends, the current chunk is handed over as the last one.
//!
//! The reading of lines is left to the caller: it feeds each line it reads
//! (or `None` at the end of input, or when the read fails) to
//! [`CsvBatcher::next`] and performs the [`BatchStep`] it gets back.
use vstd::prelude::*;

verus! {

/// What the caller is asked to do after a line has been fed to the batcher.
pub enum BatchStep {
    /// Read the next line and feed it.
    ReadNext,
    /// Process this chunk (the header comes first), then read the next line.
    Deliver(Vec<String>),
    /// The input is over: process this last chunk, if there is one, and stop.
    Finish(Option<Vec<String>>),
}

/// The mathematical form of a [`BatchStep`].
pub enum StepModel {
    ReadNext,
    Deliver(Seq<String>),
    Finish(Option<Seq<String>>),
}

impl View for BatchStep {
    type V = StepModel;

    open spec fn view(&self) -> StepModel {
        match self {
            BatchStep::ReadNext => StepModel::ReadNext,
            BatchStep::Deliver(c) => StepModel::Deliver(c@),
            BatchStep::Finish(last) => StepModel::Finish(
                match last {
                    Option::Some(c) => Option::Some(c@),
                    Option::None => Option::None,
                },
            ),
        }
    }
}

/// The abstract state of a batcher: the chunk limit, the header once it has
/// been read, the data lines of the current chunk, and whether the input has
/// ended.
pub struct BatchModel {
    pub size: nat,
    pub header: Option<String>,
    pub rows: Seq<String>,
    pub finished: bool,
}

/// The chunk made of `header` followed by `rows`.
pub open spec fn chunk_of(header: String, rows: Seq<String>) -> Seq<String> {
    seq![header] + rows
}

/// The state of a fresh batcher with chunk limit `size`.
pub open spec fn initial_model(size: nat) -> BatchModel {
    BatchModel { size, header: Option::None, rows: seq![], finished: false }
}

/// One transition: the state after `line` (`None` for the end of input) and
/// the step that the caller is asked to perform.
pub open spec fn next_model(s: BatchModel, line: Option<String>) -> (BatchModel, StepModel) {
    match line {
        Option::None => {
            let done = BatchModel { size: s.size, header: s.header, rows: seq![], finished: true };
            match s.header {
                Option::None => (done, StepModel::Finish(Option::None)),
                Option::Some(h) => (done, StepModel::Finish(Option::Some(chunk_of(h, s.rows)))),
            }
        },
        Option::Some(l) => match s.header {
            Option::None => (
                BatchModel { size: s.size, header: Option::Some(l), rows: seq![], finished: false },
                StepModel::ReadNext,
            ),
            Option::Some(h) => if s.rows.len() < s.size {
                (
                    BatchModel {
                        size: s.size,
                        header: s.header,
                        rows: s.rows.push(l),
                        finished: false,
                    },
                    StepModel::ReadNext,
                )
            } else {
                (
                    BatchModel { size: s.size, header: s.header, rows: seq![], finished: false },
                    StepModel::Deliver(chunk_of(h, s.rows)),
                )
            },
        },
    }
}

/// The chunks that a step hands over.
pub open spec fn handed_over(step: StepModel) -> Seq<Seq<String>> {
    match step {
        StepModel::Deliver(c) => seq![c],
        StepModel::Finish(Option::Some(c)) => seq![c],
        _ => seq![],
    }
}

/// The chunks handed over, in order, when the batcher in state `s` is fed
/// `lines` one by one and then the end of input.
pub open spec fn run(s: BatchModel, lines: Seq<String>) -> Seq<Seq<String>>
    decreases lines.len(),
{
    if lines.len() == 0 {
        handed_over(next_model(s, Option::None).1)
    } else {
        let (s2, step) = next_model(s, Option::Some(lines[0]));
        handed_over(step) + run(s2, lines.drop_first())
    }
}

/// The chunks for a header and its data rows: a block of `size` rows, then
/// one row that is skipped, and so on; the rows that remain form the last
/// chunk.
pub open spec fn batches_of(header: String, rows: Seq<String>, size: nat) -> Seq<Seq<String>>
    decreases rows.len(),
{
    if rows.len() <= size {
        seq![chunk_of(header, rows)]
    } else {
        seq![chunk_of(header, rows.take(size as int))] + batches_of(
            header,
            rows.skip((size + 1) as int),
            size,
        )
    }
}

/// The number of data rows (lines after the header) in a list of chunks.
pub open spec fn rows_in(chunks: Seq<Seq<String>>) -> int
    decreases chunks.len(),
{
    if chunks.len() == 0 {
        0
    } else {
        (chunks[0].len() - 1) + rows_in(chunks.drop_first())
    }
}

/// Splits a stream of CSV lines into header-prefixed chunks.
pub struct CsvBatcher {
    size: usize,
    header: Option<String>,
    chunk: Vec<String>,
    finished: bool,
}

impl View for CsvBatcher {
    type V = BatchModel;

    closed spec fn view(&self) -> BatchModel {
        BatchModel {
            size: self.size as nat,
            header: self.header,
            rows: if self.header is Some && !self.finished {
                self.chunk@.drop_first()
            } else {
                seq![]
            },
            finished: self.finished,
        }
    }
}

impl CsvBatcher {
    /// The internal invariant: before the end of input, the chunk is empty
    /// until the header is read, and afterwards starts with the header and
    /// holds at most `size` data lines.
    pub closed spec fn wf(&self) -> bool {
        !self.finished ==> match self.header {
            Option::None => self.chunk@.len() == 0,
            Option::Some(h) => {
                &&& self.chunk@.len() >= 1
                &&& self.chunk@[0] == h
                &&& self.chunk@.len() - 1 <= self.size
            },
        }
    }

    /// A batcher whose chunks hold at most `size` data lines.
    pub fn new(size: usize) -> (b: CsvBatcher)
        ensures
            b.wf(),
            b@ == initial_model(size as nat),
    {
        CsvBatcher { size, header: None, chunk: Vec::new(), finished: false }
    }

    /// Feeds the next line (`None` when the input is over or a read failed)
    /// and returns what the caller has to do.
    pub fn next(&mut self, line: Option<String>) -> (step: BatchStep)
        requires
            old(self).wf(),
            !old(self)@.finished,
        ensures
            final(self).wf(),
            final(self)@ == next_model(old(self)@, line).0,
            step@ == next_model(old(self)@, line).1,
    {
        match line {
            None => {
                self.finished = true;
                if self.header.is_some() {
                    let mut last: Vec<String> = Vec::new();
                    std::mem::swap(&mut last, &mut self.chunk);
                    assert(last@ =~= chunk_of(self.header->0, last@.drop_first()));
                    BatchStep::Finish(Some(last))
                } else {
                    BatchStep::Finish(None)
                }
            },
            Some(l) => {
                if self.header.is_none() {
                    self.header = Some(l.clone());
                    self.chunk.push(l);
                    assert(self.chunk@.drop_first() =~= seq![]);
                    BatchStep::ReadNext
                } else if self.chunk.len() <= self.size {
                    let ghost before = self.chunk@;
                    self.chunk.push(l);
                    assert(self.chunk@.drop_first() =~= before.drop_first().push(l));
                    BatchStep::ReadNext
                } else {
                    let header = self.header.clone().unwrap();
                    let mut fresh: Vec<String> = Vec::new();
                    fresh.push(header);
                    std::mem::swap(&mut fresh, &mut self.chunk);
                    assert(fresh@ =~= chunk_of(self.header->0, fresh@.drop_first()));
                    assert(self.chunk@.drop_first() =~= seq![]);
                    BatchStep::Deliver(fresh)
                }
            },
        }
    }
}

/// The contents of a list of chunks.
pub open spec fn chunk_views(chunks: Seq<Vec<String>>) -> Seq<Seq<String>> {
    chunks.map_values(|c: Vec<String>| c@)
}

/// Batches lines that are already in memory: feeds them one by one to a
/// fresh batcher with limit `size`, then the end of input, and collects the
/// chunks handed over.
pub fn batch_lines(size: usize, lines: Vec<String>) -> (chunks: Vec<Vec<String>>)
    ensures
        chunk_views(chunks@) == run(initial_model(size as nat), lines@),
        lines@.len() == 0 ==> chunks@.len() == 0,
        lines@.len() > 0 ==> chunk_views(chunks@) == batches_of(
            lines@[0],
            lines@.drop_first(),
            size as nat,
        ),
{
    proof {
        if lines@.len() > 0 {
            assert(seq![lines@[0]] + lines@.drop_first() =~= lines@);
            lemma_batching(size as nat, lines@[0], lines@.drop_first());
        } else {
            assert(lines@ =~= Seq::<String>::empty());
            lemma_batching(size as nat, vstd::pervasive::arbitrary(), Seq::<String>::empty());
        }
    }
    let mut b = CsvBatcher::new(size);
    let mut chunks: Vec<Vec<String>> = Vec::new();
    let mut i: usize = 0;
    assert(chunk_views(chunks@) =~= Seq::<Seq<String>>::empty());
    assert(lines@.skip(0) =~= lines@);
    assert(Seq::<Seq<String>>::empty() + run(b@, lines@) =~= run(b@, lines@));
    while i < lines.len()
        invariant
            i <= lines.len(),
            b.wf(),
            !b@.finished,
            chunk_views(chunks@) + run(b@, lines@.skip(i as int)) == run(
                initial_model(size as nat),
                lines@,
            ),
        decreases lines.len() - i,
    {
        let ghost before_chunks = chunk_views(chunks@);
        let ghost before = b@;
        let line = lines[i].clone();
        let step = b.next(Some(line));
        assert(lines@.skip(i as int)[0] == line);
        assert(lines@.skip(i as int).drop_first() =~= lines@.skip(i + 1));
        assert(run(before, lines@.skip(i as int)) == handed_over(step@) + run(
            b@,
            lines@.skip(i + 1),
        ));
        match step {
            BatchStep::Deliver(c) => {
                chunks.push(c);
                assert(chunk_views(chunks@) =~= before_chunks + seq![c@]);
            },
            BatchStep::ReadNext => {
                assert(handed_over(step@) =~= Seq::<Seq<String>>::empty());
            },
            BatchStep::Finish(_) => {
                assert(false);
            },
        }
        i = i + 1;
    }
    let ghost before_chunks = chunk_views(chunks@);
    assert(lines@.skip(i as int) =~= Seq::<String>::empty());
    let step = b.next(None);
    match step {
        BatchStep::Finish(Some(c)) => {
            chunks.push(c);
            assert(chunk_views(chunks@) =~= before_chunks + seq![c@]);
        },
        BatchStep::Finish(None) => {
            assert(handed_over(step@) =~= Seq::<Seq<String>>::empty());
        },
        _ => {
            assert(false);
        },
    }
    chunks
}

/// From any state that has read the header, the batcher hands over the
/// chunks of `batches_of` for the current rows followed by the lines still
/// to come.
proof fn lemma_run_from(s: BatchModel, lines: Seq<String>)
    requires
        s.header is Some,
        !s.finished,
        s.rows.len() <= s.size,
    ensures
        run(s, lines) == batches_of(s.header->0, s.rows + lines, s.size),
    decreases lines.len(),
{
    let h = s.header->0;
    if lines.len() == 0 {
        assert(s.rows + lines =~= s.rows);
        assert(run(s, lines) =~= seq![chunk_of(h, s.rows)]);
    } else {
        let x = lines[0];
        let (s2, step) = next_model(s, Option::Some(x));
        lemma_run_from(s2, lines.drop_first());
        if s.rows.len() < s.size {
            assert(s.rows.push(x) + lines.drop_first() =~= s.rows + lines);
            assert(handed_over(step) =~= seq![]);
            assert(run(s, lines) =~= run(s2, lines.drop_first()));
        } else {
            let all = s.rows + lines;
            assert(all.take(s.size as int) =~= s.rows);
            assert(all.skip((s.size + 1) as int) =~= lines.drop_first());
            assert(seq![] + lines.drop_first() =~= lines.drop_first());
        }
    }
}

/// The whole batching: a stream made of a header and data rows is handed
/// over as the chunks of `batches_of`, and an empty stream hands over
/// nothing.
pub proof fn lemma_batching(size: nat, header: String, rows: Seq<String>)
    ensures
        run(initial_model(size), seq![header] + rows) == batches_of(header, rows, size),
        run(initial_model(size), seq![]) == Seq::<Seq<String>>::empty(),
{
    let lines = seq![header] + rows;
    let (s1, step) = next_model(initial_model(size), Option::Some(header));
    assert(lines.drop_first() =~= rows);
    lemma_run_from(s1, rows);
    assert(seq![] + rows =~= rows);
    assert(handed_over(step) =~= seq![]);
    assert(run(initial_model(size), lines) =~= run(s1, rows));
    assert(run(initial_model(size), seq![]) =~= Seq::<Seq<String>>::empty());
}

/// Every chunk starts with the header and holds at most `size` data rows.
pub proof fn lemma_chunk_shape(header: String, rows: Seq<String>, size: nat)
    ensures
        forall|i: int|
            0 <= i < batches_of(header, rows, size).len() ==> {
                &&& #[trigger] batches_of(header, rows, size)[i].len() >= 1
                &&& batches_of(header, rows, size)[i][0] == header
                &&& batches_of(header, rows, size)[i].len() <= size + 1
            },
    decreases rows.len(),
{
    if rows.len() > size {
        lemma_chunk_shape(header, rows.skip((size + 1) as int), size);
        let rest = batches_of(header, rows.skip((size + 1) as int), size);
        assert forall|i: int| 0 <= i < batches_of(header, rows, size).len() implies {
            &&& #[trigger] batches_of(header, rows, size)[i].len() >= 1
            &&& batches_of(header, rows, size)[i][0] == header
            &&& batches_of(header, rows, size)[i].len() <= size + 1
        } by {
            if i > 0 {
                assert(batches_of(header, rows, size)[i] == rest[i - 1]);
            }
        }
    }
}

/// Chunk `k` holds, after the header, the data rows that start at position
/// `k * (size + 1)`: the `j`-th line of chunk `k` (`j >= 1`) is row
/// `k * (size + 1) + j - 1`.
pub proof fn lemma_chunk_positions(header: String, rows: Seq<String>, size: nat, k: int, j: int)
    requires
        0 <= k < batches_of(header, rows, size).len(),
        1 <= j < batches_of(header, rows, size)[k].len(),
    ensures
        0 <= k * (size + 1) + j - 1 < rows.len(),
        batches_of(header, rows, size)[k][j] == rows[k * (size + 1) + j - 1],
    decreases rows.len(),
{
    let c: int = (size + 1) as int;
    let bs = batches_of(header, rows, size);
    if rows.len() <= size {
        assert(k == 0);
        assert(k * c == 0) by (nonlinear_arith)
            requires
                k == 0,
        ;
        assert(bs[0] == chunk_of(header, rows));
    } else if k == 0 {
        assert(k * c == 0) by (nonlinear_arith)
            requires
                k == 0,
        ;
        assert(bs[0] == chunk_of(header, rows.take(size as int)));
    } else {
        let rest = rows.skip(c);
        assert(bs[k] == batches_of(header, rest, size)[k - 1]);
        lemma_chunk_positions(header, rest, size, k - 1, j);
        assert((k - 1) * c + c == k * c) by (nonlinear_arith);
        assert(rest.len() == rows.len() - c);
        assert(rest[(k - 1) * c + j - 1] == rows[k * c + j - 1]);
    }
}

/// With `n` data rows there are `n / (size + 1) + 1` chunks, which together
/// hold `n - n / (size + 1)` data rows: one row in every `size + 1` is
/// skipped.
pub proof fn lemma_chunk_counts(header: String, rows: Seq<String>, size: nat)
    ensures
        batches_of(header, rows, size).len() == rows.len() / (size + 1) + 1,
        rows_in(batches_of(header, rows, size)) == rows.len() - rows.len() / (size + 1),
    decreases rows.len(),
{
    let c: int = (size + 1) as int;
    let n: int = rows.len() as int;
    let bs = batches_of(header, rows, size);
    if rows.len() <= size {
        assert(n / c == 0) by (nonlinear_arith)
            requires
                0 <= n < c,
        ;
        assert(bs.drop_first() =~= Seq::<Seq<String>>::empty());
        assert(rows_in(bs.drop_first()) == 0);
        assert(bs[0].len() == n + 1);
    } else {
        let rest = rows.skip((size + 1) as int);
        lemma_chunk_counts(header, rest, size);
        assert(n / c == (n - c) / c + 1) by (nonlinear_arith)
            requires
                c > 0,
                n >= c,
        ;
        assert(bs.drop_first() =~= batches_of(header, rest, size));
        assert(bs[0] =~= chunk_of(header, rows.take(size as int)));
        assert(bs[0].len() == size + 1);
        assert(rows_in(bs) == size + rows_in(batches_of(header, rest, size)));
        assert(rest.len() == n - c);
    }
}

} // verus!
