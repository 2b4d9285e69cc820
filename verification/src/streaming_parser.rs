//! Statement-by-statement reading of a SQL script.
//!
//! The parser reads its input one line at a time, feeds the characters to
//! the splitter of `sql_split` and hands out each statement as soon as it is
//! complete. A script held in memory is read by the parser itself; a stream
//! (such as a file) is read by the caller, which passes each line in with
//! `push_line` whenever `poll` answers `NeedInput`.
use vstd::prelude::*;
use crate::models::DatabaseType;
use crate::sql_split::{
    faults, flush, initial_model, lemma_run_concat, lemma_run_push, model_wf, opt_seq, opt_view,
    reset, run, split_statements, splits_cleanly, step, step_faults, SplitModel, SplitState,
};
use crate::text::{
    char_utf8_len_exec, chars_of, lemma_utf8_len_is_encoding_len, lemma_utf8_len_push, utf8_len,
};

verus! {

/// What `poll` found.
pub enum ParseEvent {
    /// The next statement of the script.
    Statement(String),
    /// All input so far is consumed; more lines are needed.
    NeedInput,
    /// The next character is one that the byte-indexed dollar-quote check
    /// refuses (see `step_faults`); nothing was consumed.
    Fault,
    /// The input has ended and every statement was returned.
    Finished,
}

/// Streaming SQL statement reader.
pub struct StreamingSqlParser {
    db_type: DatabaseType,
    state: SplitState,
    input: Vec<char>,
    pos: usize,
    read_end: usize,
    closed: bool,
    eof: bool,
    bytes_read: u64,
    total_size: u64,
    fed: Ghost<Seq<char>>,
    consumed: Ghost<Seq<char>>,
    emitted: Ghost<Seq<Seq<char>>>,
}

impl StreamingSqlParser {
    /// Every character given to the parser so far.
    pub closed spec fn fed(&self) -> Seq<char> {
        self.fed@
    }

    /// Every statement handed out so far.
    pub closed spec fn emitted(&self) -> Seq<Seq<char>> {
        self.emitted@
    }

    /// No further input will arrive.
    pub closed spec fn is_closed(&self) -> bool {
        self.closed
    }

    /// The end of input has been reached and flushed.
    pub closed spec fn at_end(&self) -> bool {
        self.eof
    }

    pub closed spec fn spec_bytes_read(&self) -> nat {
        self.bytes_read as nat
    }

    pub closed spec fn spec_total_size(&self) -> nat {
        self.total_size as nat
    }

    /// Characters given to the parser but not processed yet.
    pub closed spec fn unprocessed(&self) -> Seq<char> {
        self.input@.subrange(self.pos as int, self.input@.len() as int)
    }

    /// Characters read as lines so far (processed or pending).
    pub closed spec fn read_len(&self) -> nat {
        (self.consumed@.len() + (self.read_end - self.pos)) as nat
    }

    /// The statements still to come from the input given so far.
    pub open spec fn remaining(&self) -> Seq<Seq<char>> {
        split_statements(self.fed()).skip(self.emitted().len() as int)
    }

    /// Processing the rest of the given input would reach a refused character.
    pub closed spec fn faults_ahead(&self) -> bool {
        !self.eof && faults(self.state@, self.unprocessed())
    }

    pub closed spec fn wf(&self) -> bool {
        &&& self.pos <= self.read_end <= self.input@.len()
        &&& self.fed@ == self.consumed@ + self.unprocessed()
        &&& model_wf(self.state@)
        &&& self.bytes_read == utf8_len(self.fed@.subrange(0, self.read_len() as int))
        &&& !self.closed ==> self.read_end == self.input@.len()
        &&& !self.eof ==> {
            &&& self.state@ == run(initial_model(), self.consumed@).0
            &&& self.emitted@ == run(initial_model(), self.consumed@).1
        }
        &&& self.eof ==> {
            &&& self.closed
            &&& self.consumed@ == self.fed@
            &&& self.pos == self.input@.len()
            &&& self.emitted@ == split_statements(self.fed@)
        }
    }

    /// A parser for a script held in memory.
    pub fn from_script(script: String, db_type: DatabaseType) -> (r: StreamingSqlParser)
        ensures
            r.wf(),
            r.fed() == script@,
            r.emitted() == Seq::<Seq<char>>::empty(),
            r.is_closed(),
            !r.at_end(),
            r.faults_ahead() == !splits_cleanly(script@),
            r.spec_bytes_read() == 0,
            r.spec_total_size() == utf8_len(script@),
    {
        let size = script.as_str().as_bytes().len();
        proof {
            lemma_utf8_len_is_encoding_len(script@);
            assert(size == utf8_len(script@));
        }
        let chars = chars_of(script.as_str());
        let r = StreamingSqlParser {
            db_type,
            state: SplitState::new(),
            input: chars,
            pos: 0,
            read_end: 0,
            closed: true,
            eof: false,
            bytes_read: 0,
            total_size: size as u64,
            fed: Ghost(script@),
            consumed: Ghost(Seq::empty()),
            emitted: Ghost(Seq::empty()),
        };
        proof {
            assert(r.input@.subrange(0, r.input@.len() as int) =~= script@);
            assert(r.consumed@ + r.unprocessed() =~= script@);
            assert(script@.subrange(0, 0) =~= Seq::<char>::empty());
        }
        r
    }

    /// A parser for a script source; the source is held in memory (input
    /// read from a file is passed in line by line, see `for_stream`).
    pub fn from_source(source: SqlSource, db_type: DatabaseType) -> (r: Option<StreamingSqlParser>)
        ensures
            r is Some,
            ({
                let p = r.unwrap();
                let SqlSource::Script(script) = source;
                &&& p.wf()
                &&& p.fed() == script@
                &&& p.emitted() == Seq::<Seq<char>>::empty()
                &&& p.is_closed()
                &&& !p.at_end()
                &&& p.faults_ahead() == !splits_cleanly(script@)
                &&& p.spec_bytes_read() == 0
                &&& p.spec_total_size() == utf8_len(script@)
            }),
    {
        match source {
            SqlSource::Script(script) => Some(Self::from_script(script, db_type)),
        }
    }

    /// A parser for input that the caller passes in line by line;
    /// `total_size` is the size in bytes that progress is measured against.
    pub fn for_stream(total_size: u64, db_type: DatabaseType) -> (r: StreamingSqlParser)
        ensures
            r.wf(),
            r.fed() == Seq::<char>::empty(),
            r.emitted() == Seq::<Seq<char>>::empty(),
            !r.is_closed(),
            !r.at_end(),
            r.spec_bytes_read() == 0,
            r.spec_total_size() == total_size,
    {
        let r = StreamingSqlParser {
            db_type,
            state: SplitState::new(),
            input: Vec::new(),
            pos: 0,
            read_end: 0,
            closed: false,
            eof: false,
            bytes_read: 0,
            total_size,
            fed: Ghost(Seq::empty()),
            consumed: Ghost(Seq::empty()),
            emitted: Ghost(Seq::empty()),
        };
        proof {
            assert(r.consumed@ + r.unprocessed() =~= Seq::<char>::empty());
            assert(Seq::<char>::empty().subrange(0, 0) =~= Seq::<char>::empty());
        }
        r
    }

    pub closed spec fn spec_db_type(&self) -> DatabaseType {
        self.db_type
    }

    /// The database dialect the parser was made for.
    pub fn db_type(&self) -> (r: DatabaseType)
        ensures
            r == self.spec_db_type(),
    {
        self.db_type
    }

    /// Bytes of input read so far.
    pub fn bytes_read(&self) -> (r: u64)
        ensures
            r == self.spec_bytes_read(),
    {
        self.bytes_read
    }

    /// Size in bytes of the whole input.
    pub fn total_size(&self) -> (r: u64)
        ensures
            r == self.spec_total_size(),
    {
        self.total_size
    }

    /// Passes in the next line of a stream (with its line terminator).
    #[verifier::loop_isolation(false)]
    pub fn push_line(&mut self, line: &str)
        requires
            old(self).wf(),
            !old(self).is_closed(),
            old(self).spec_bytes_read() + utf8_len(line@) <= u64::MAX,
        ensures
            final(self).wf(),
            final(self).fed() == old(self).fed() + line@,
            final(self).emitted() == old(self).emitted(),
            !final(self).is_closed(),
            final(self).at_end() == old(self).at_end(),
            final(self).unprocessed() == old(self).unprocessed() + line@,
            final(self).spec_bytes_read() == old(self).spec_bytes_read() + utf8_len(line@),
            final(self).spec_total_size() == old(self).spec_total_size(),
            !final(self).at_end(),
    {
        proof {
            assert(!self.eof);
        }
        if self.pos == self.input.len() {
            self.input = Vec::new();
            self.pos = 0;
            self.read_end = 0;
            proof {
                assert(self.unprocessed() =~= Seq::<char>::empty());
            }
        }
        let ghost before = self.unprocessed();
        let ghost read_before = self.read_len();
        assert(self.fed@ =~= self.consumed@ + before);
        assert(self.bytes_read == old(self).bytes_read);
        let chars = chars_of(line);
        let mut i: usize = 0;
        let mut added: u64 = 0;
        while i < chars.len()
            invariant
                i <= chars.len(),
                chars@ == line@,
                self.pos <= self.input@.len(),
                self.input@.subrange(self.pos as int, self.input@.len() as int) == before
                    + line@.subrange(0, i as int),
                added == utf8_len(line@.subrange(0, i as int)),
                added <= utf8_len(line@),
                self.bytes_read == old(self).bytes_read,
                self.fed@ == old(self).fed@,
                self.consumed@ == old(self).consumed@,
                self.state == old(self).state,
                self.eof == old(self).eof,
                self.closed == old(self).closed,
                self.total_size == old(self).total_size,
                self.emitted@ == old(self).emitted@,
            decreases chars.len() - i,
        {
            let ghost old_input = self.input@;
            self.input.push(chars[i]);
            proof {
                lemma_utf8_len_push(line@.subrange(0, i as int), line@[i as int]);
                assert(line@.subrange(0, i + 1) =~= line@.subrange(0, i as int).push(line@[i as int]));
                lemma_prefix_len_le(line@, i + 1);
                assert(self.input@.subrange(self.pos as int, self.input@.len() as int) =~= old_input.subrange(
                    self.pos as int,
                    old_input.len() as int,
                ).push(line@[i as int]));
                assert(before + line@.subrange(0, i + 1) =~= (before + line@.subrange(0, i as int)).push(
                    line@[i as int],
                ));
            }
            added = added + char_utf8_len_exec(chars[i]) as u64;
            i += 1;
        }
        proof {
            assert(line@.subrange(0, line@.len() as int) =~= line@);
            assert(added == utf8_len(line@));
            assert(self.unprocessed() =~= before + line@);
        }
        self.read_end = self.input.len();
        self.bytes_read = self.bytes_read + added;
        self.fed = Ghost(self.fed@ + line@);
        proof {
            assert(self.fed@ =~= self.consumed@ + self.unprocessed());
            assert(self.read_len() == self.fed@.len());
            assert(self.fed@.subrange(0, self.fed@.len() as int) =~= self.fed@);
            assert(old(self).fed@.subrange(0, read_before as int) =~= old(self).fed@);
            crate::text::lemma_utf8_len_concat(old(self).fed@, line@);
        }
    }

    /// Marks the end of a stream.
    pub fn end_of_input(&mut self)
        requires
            old(self).wf(),
        ensures
            final(self).wf(),
            final(self).is_closed(),
            final(self).fed() == old(self).fed(),
            final(self).emitted() == old(self).emitted(),
            final(self).at_end() == old(self).at_end(),
            final(self).unprocessed() == old(self).unprocessed(),
            final(self).faults_ahead() == old(self).faults_ahead(),
            final(self).spec_bytes_read() == old(self).spec_bytes_read(),
    {
        self.closed = true;
    }

    /// Reads the next line of an in-memory script into the pending region.
    fn read_line(&mut self)
        requires
            old(self).wf(),
            !old(self).eof,
            old(self).pos == old(self).read_end,
            old(self).read_end < old(self).input@.len(),
            old(self).spec_total_size() == utf8_len(old(self).fed()),
        ensures
            final(self).wf(),
            final(self).fed() == old(self).fed(),
            final(self).emitted() == old(self).emitted(),
            final(self).pos == old(self).pos,
            final(self).read_end > old(self).read_end,
            final(self).input@ == old(self).input@,
            final(self).consumed@ == old(self).consumed@,
            final(self).state@ == old(self).state@,
            final(self).closed == old(self).closed,
            final(self).eof == old(self).eof,
            final(self).total_size == old(self).total_size,
    {
        let start = self.read_end;
        let mut e = start;
        let mut added: u64 = 0;
        let ghost base = self.consumed@.len();
        proof {
            assert(self.unprocessed() == self.input@.subrange(start as int, self.input@.len() as int));
        }
        proof {
            assert(self.fed@.subrange(0, base as int) =~= self.consumed@);
        }
        while e < self.input.len() && (e == start || self.input[e - 1] != '\n')
            invariant
                start <= e <= self.input@.len(),
                start < self.input@.len(),
                self.wf(),
                self.read_end == start,
                self.pos == start,
                !self.eof,
                self.total_size == utf8_len(self.fed@),
                base == self.consumed@.len(),
                self.fed@ == self.fed@.subrange(0, base as int) + self.input@.subrange(
                    start as int,
                    self.input@.len() as int,
                ),
                added == utf8_len(self.input@.subrange(start as int, e as int)),
            decreases self.input@.len() - e,
        {
            let c = self.input[e];
            proof {
                lemma_utf8_len_push(self.input@.subrange(start as int, e as int), c);
                assert(self.input@.subrange(start as int, e + 1) =~= self.input@.subrange(
                    start as int,
                    e as int,
                ).push(c));
                lemma_read_bound(self.fed@, base as int, self.input@, start as int, e + 1);
                let fedp = self.fed@;
                let a = fedp.subrange(0, base as int);
                let b = fedp.subrange(base as int, (base + e + 1 - start) as int);
                assert(fedp.subrange(0, (base + e + 1 - start) as int) =~= a + b);
                crate::text::lemma_utf8_len_concat(a, b);
                assert(self.read_len() == base);
                assert(self.fed@.subrange(0, self.read_len() as int) =~= a);
            }
            added = added + char_utf8_len_exec(c) as u64;
            e = e + 1;
        }
        proof {
            lemma_read_bound(self.fed@, base as int, self.input@, start as int, e as int);
            let fedp = self.fed@;
            let a = fedp.subrange(0, base as int);
            let b = fedp.subrange(base as int, (base + e - start) as int);
            assert(fedp.subrange(0, (base + e - start) as int) =~= a + b);
            assert(b =~= self.input@.subrange(start as int, e as int));
            crate::text::lemma_utf8_len_concat(a, b);
        }
        self.read_end = e;
        self.bytes_read = self.bytes_read + added;
    }

    /// Processes the pending characters until a statement completes, a
    /// refused character is next, or the pending region is empty.
    #[verifier::loop_isolation(false)]
    fn drain_pending(&mut self) -> (r: ParseEvent)
        requires
            old(self).wf(),
            !old(self).eof,
        ensures
            final(self).wf(),
            !final(self).eof,
            final(self).fed() == old(self).fed(),
            final(self).read_end == old(self).read_end,
            final(self).input@ == old(self).input@,
            final(self).closed == old(self).closed,
            final(self).total_size == old(self).total_size,
            final(self).bytes_read == old(self).bytes_read,
            old(self).faults_ahead() == final(self).faults_ahead() || r is Statement,
            !old(self).faults_ahead() ==> !final(self).faults_ahead(),
            match r {
                ParseEvent::Statement(x) => final(self).emitted() == old(self).emitted().push(x@),
                ParseEvent::Fault => final(self).emitted() == old(self).emitted() && step_faults(
                    final(self).state@,
                    final(self).unprocessed()[0],
                ) && final(self).unprocessed().len() > 0 && old(self).faults_ahead(),
                _ => final(self).emitted() == old(self).emitted() && final(self).pos
                    == final(self).read_end,
            },
    {
        while self.pos < self.read_end
            invariant
                self.wf(),
                !self.eof,
                self.fed@ == old(self).fed@,
                self.read_end == old(self).read_end,
                self.input@ == old(self).input@,
                self.closed == old(self).closed,
                self.total_size == old(self).total_size,
                self.bytes_read == old(self).bytes_read,
                self.emitted@ == old(self).emitted@,
                old(self).faults_ahead() == self.faults_ahead(),
            decreases self.read_end - self.pos,
        {
            let c = self.input[self.pos];
            proof {
                let u = self.unprocessed();
                assert(u[0] == c);
                assert(u.drop_first() =~= self.input@.subrange(self.pos + 1, self.input@.len() as int));
            }
            if self.state.faults_on(c) {
                return ParseEvent::Fault;
            }
            let ghost m0 = self.state@;
            let ghost consumed0 = self.consumed@;
            let out = self.state.process_char(c);
            self.pos = self.pos + 1;
            proof {
                lemma_run_push(initial_model(), consumed0, c);
                self.consumed@ = consumed0.push(c);
                assert(self.fed@ =~= self.consumed@ + self.unprocessed());
            }
            match out {
                Some(s) => {
                    proof {
                        self.emitted@ = self.emitted@.push(s@);
                        assert(self.emitted@ =~= run(initial_model(), self.consumed@).1);
                    }
                    return ParseEvent::Statement(s);
                },
                None => {
                    proof {
                        assert(run(initial_model(), self.consumed@).1 =~= self.emitted@);
                    }
                },
            }
        }
        ParseEvent::NeedInput
    }

    /// The next event of the parser.
    pub fn poll(&mut self) -> (r: ParseEvent)
        requires
            old(self).wf(),
            old(self).is_closed() ==> old(self).spec_total_size() == utf8_len(old(self).fed()),
        ensures
            final(self).wf(),
            final(self).fed() == old(self).fed(),
            final(self).is_closed() == old(self).is_closed(),
            final(self).spec_total_size() == old(self).spec_total_size(),
            !old(self).faults_ahead() ==> !final(self).faults_ahead(),
            match r {
                ParseEvent::Statement(x) => final(self).emitted() == old(self).emitted().push(x@),
                ParseEvent::NeedInput => {
                    &&& !final(self).is_closed()
                    &&& final(self).emitted() == old(self).emitted()
                    &&& final(self).unprocessed().len() == 0
                },
                ParseEvent::Fault => {
                    &&& final(self).emitted() == old(self).emitted()
                    &&& old(self).faults_ahead()
                    &&& final(self).faults_ahead()
                },
                ParseEvent::Finished => {
                    &&& final(self).emitted() == old(self).emitted()
                    &&& final(self).at_end()
                },
            },
    {
        if self.eof {
            return ParseEvent::Finished;
        }
        loop
            invariant
                self.wf(),
                !self.eof,
                self.fed@ == old(self).fed@,
                self.closed == old(self).closed,
                self.total_size == old(self).total_size,
                self.closed ==> self.total_size == utf8_len(self.fed@),
                self.emitted@ == old(self).emitted@,
                old(self).faults_ahead() == self.faults_ahead(),
            decreases self.input@.len() - self.pos, self.input@.len() - self.read_end,
        {
            let ev = self.drain_pending();
            match ev {
                ParseEvent::Statement(s) => {
                    return ParseEvent::Statement(s);
                },
                ParseEvent::Fault => {
                    return ParseEvent::Fault;
                },
                _ => {},
            }
            if self.read_end < self.input.len() {
                self.read_line();
            } else if !self.closed {
                proof {
                    assert(self.unprocessed() =~= Seq::<char>::empty());
                }
                return ParseEvent::NeedInput;
            } else {
                return self.finish();
            }
        }
    }

    fn finish(&mut self) -> (r: ParseEvent)
        requires
            old(self).wf(),
            !old(self).eof,
            old(self).closed,
            old(self).pos == old(self).read_end,
            old(self).read_end == old(self).input@.len(),
        ensures
            final(self).wf(),
            final(self).eof,
            final(self).fed() == old(self).fed(),
            final(self).closed,
            final(self).total_size == old(self).total_size,
            !final(self).faults_ahead(),
            match r {
                ParseEvent::Statement(x) => final(self).emitted() == old(self).emitted().push(x@),
                ParseEvent::Finished => final(self).emitted() == old(self).emitted(),
                _ => false,
            },
    {
        proof {
            assert(self.unprocessed() =~= Seq::<char>::empty());
            assert(self.consumed@ =~= self.fed@);
        }
        let out = self.state.flush();
        self.eof = true;
        match out {
            Some(s) => {
                proof {
                    self.emitted@ = self.emitted@.push(s@);
                    assert(self.emitted@ =~= split_statements(self.fed@));
                }
                ParseEvent::Statement(s)
            },
            None => {
                proof {
                    assert(self.emitted@ =~= split_statements(self.fed@));
                }
                ParseEvent::Finished
            },
        }
    }

    /// The next statement of an in-memory script, or `None` once all were
    /// returned.
    pub fn next(&mut self) -> (r: Option<String>)
        requires
            old(self).wf(),
            old(self).is_closed(),
            old(self).spec_total_size() == utf8_len(old(self).fed()),
            !old(self).faults_ahead(),
        ensures
            final(self).wf(),
            final(self).is_closed(),
            final(self).fed() == old(self).fed(),
            final(self).spec_total_size() == old(self).spec_total_size(),
            !final(self).faults_ahead(),
            match r {
                Some(x) => {
                    &&& old(self).remaining().len() > 0
                    &&& x@ == old(self).remaining()[0]
                    &&& final(self).remaining() == old(self).remaining().drop_first()
                    &&& final(self).emitted() == old(self).emitted().push(x@)
                },
                None => {
                    &&& old(self).remaining().len() == 0
                    &&& final(self).remaining().len() == 0
                    &&& final(self).at_end()
                    &&& final(self).emitted() == old(self).emitted()
                    &&& final(self).spec_bytes_read() == final(self).spec_total_size()
                },
            },
    {
        proof {
            self.lemma_emitted_prefix();
        }
        let ev = self.poll();
        proof {
            self.lemma_emitted_prefix();
        }
        match ev {
            ParseEvent::Statement(s) => {
                proof {
                    let all = split_statements(self.fed@);
                    let k = old(self).emitted@.len();
                    assert(self.emitted@[k as int] == s@);
                    assert(all.subrange(0, self.emitted@.len() as int)[k as int] == all[k as int]);
                    assert(all[k as int] == s@);
                    assert(self.remaining() =~= old(self).remaining().drop_first());
                }
                Some(s)
            },
            _ => {
                proof {
                    assert(self.eof);
                    assert(self.remaining().len() == 0);
                    assert(self.read_len() == self.fed@.len());
                    assert(self.fed@.subrange(0, self.fed@.len() as int) =~= self.fed@);
                }
                None
            },
        }
    }

    /// What was handed out is the start of the statements of the input.
    /// However the input was cut into lines, once its end is reached the
    /// statements returned are exactly those of the whole input.
    pub proof fn law_statements_independent_of_lines(&self)
        requires
            self.wf(),
            self.at_end(),
        ensures
            self.emitted() == split_statements(self.fed()),
    {
    }

    /// Progress never passes the whole: of input whose size is the total,
    /// at most the total has been read.
    pub proof fn law_progress_bounded(&self)
        requires
            self.wf(),
            self.spec_total_size() == utf8_len(self.fed()),
        ensures
            self.spec_bytes_read() <= self.spec_total_size(),
    {
        assert(self.read_len() <= self.fed@.len());
        lemma_prefix_len_le(self.fed@, self.read_len() as int);
    }

    pub proof fn lemma_emitted_prefix(&self)
        requires
            self.wf(),
        ensures
            self.emitted().len() <= split_statements(self.fed()).len(),
            self.emitted() == split_statements(self.fed()).subrange(0, self.emitted().len() as int),
            self.at_end() ==> self.emitted() == split_statements(self.fed()),
    {
        if !self.eof {
            lemma_run_concat(initial_model(), self.consumed@, self.unprocessed());
            let m = run(initial_model(), self.consumed@).0;
            let rest = run(m, self.unprocessed());
            let all = split_statements(self.fed@);
            assert(all =~= self.emitted@ + (rest.1 + opt_seq(flush(rest.0))));
            assert(all.subrange(0, self.emitted@.len() as int) =~= self.emitted@);
        } else {
            assert(split_statements(self.fed@).subrange(0, self.emitted@.len() as int)
                =~= self.emitted@);
        }
    }
}

proof fn lemma_prefix_len_le(s: Seq<char>, k: int)
    requires
        0 <= k <= s.len(),
    ensures
        utf8_len(s.subrange(0, k)) <= utf8_len(s),
{
    crate::text::lemma_utf8_len_concat(s.subrange(0, k), s.subrange(k, s.len() as int));
    assert(s.subrange(0, k) + s.subrange(k, s.len() as int) =~= s);
}

proof fn lemma_read_bound(fed: Seq<char>, base: int, input: Seq<char>, start: int, e: int)
    requires
        0 <= start <= e <= input.len(),
        0 <= base,
        fed == fed.subrange(0, base) + input.subrange(start, input.len() as int),
        base <= fed.len(),
    ensures
        base + e - start <= fed.len(),
        fed.subrange(base, base + e - start) == input.subrange(start, e),
        utf8_len(fed.subrange(0, base + e - start)) <= utf8_len(fed),
{
    assert(fed.subrange(base, base + e - start) =~= input.subrange(start, e));
    lemma_prefix_len_le(fed, base + e - start);
}

/// Checks a whole script for characters that the splitter refuses.
pub fn script_splits_cleanly(script: &str) -> (r: bool)
    ensures
        r == splits_cleanly(script@),
{
    let chars = chars_of(script);
    let mut st = SplitState::new();
    let mut i: usize = 0;
    while i < chars.len()
        invariant
            i <= chars.len(),
            chars@ == script@,
            model_wf(st@),
            st@ == run(initial_model(), chars@.subrange(0, i as int)).0,
            !faults(initial_model(), chars@.subrange(0, i as int)),
        decreases chars.len() - i,
    {
        let c = chars[i];
        let ghost pre = chars@.subrange(0, i as int);
        proof {
            assert(chars@.subrange(0, i + 1) =~= pre.push(c));
            lemma_run_push(initial_model(), pre, c);
            lemma_run_concat(initial_model(), pre, seq![c]);
            assert(pre.push(c) =~= pre + seq![c]);
            assert(seq![c].drop_first() =~= Seq::<char>::empty());
            assert(seq![c][0] == c);
        }
        if st.faults_on(c) {
            proof {
                lemma_run_concat(initial_model(), pre, chars@.subrange(i as int, chars@.len() as int));
                assert(pre + chars@.subrange(i as int, chars@.len() as int) =~= chars@);
                let rest = chars@.subrange(i as int, chars@.len() as int);
                assert(rest[0] == c);
            }
            return false;
        }
        let ghost m_before = st@;
        let _ = st.process_char(c);
        proof {
            assert(seq![c].drop_first() =~= Seq::<char>::empty());
            assert(!faults(step(m_before, c).0, Seq::<char>::empty()));
            assert(!faults(m_before, seq![c]));
        }
        i += 1;
    }
    proof {
        assert(chars@.subrange(0, chars@.len() as int) =~= chars@);
    }
    true
}

/// Where a script comes from.
#[derive(Debug)]
pub enum SqlSource {
    /// A script held in memory.
    Script(String),
}

} // verus!
