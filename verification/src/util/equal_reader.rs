//! Reading exactly as many bytes from a reader as a body has.
use vstd::prelude::*;

verus! {

/// The most bytes that draining asks for in one read, however many are left.
pub const DRAIN_BUFFER: usize = 4096;

/// The smaller of two lengths.
pub open spec fn min(a: nat, b: nat) -> nat {
    if a < b {
        a
    } else {
        b
    }
}

/// What a read into `buf_len` bytes asks of the sub-reader while `size` bytes
/// may still be read: nothing at the limit, otherwise whatever fits both.
pub open spec fn read_request(size: nat, buf_len: nat) -> Option<nat> {
    if size == 0 {
        None
    } else {
        Some(min(buf_len, size))
    }
}

/// What a sub-reader answers to a read, whatever its errors are: a length, or
/// that it failed.
pub open spec fn answer<E>(result: Result<usize, E>) -> Result<nat, ()> {
    match result {
        Ok(len) => Ok(len as nat),
        Err(_) => Err(()),
    }
}

/// How many bytes an answer brings.
pub open spec fn len_of(answer: Result<nat, ()>) -> nat {
    match answer {
        Ok(len) => len,
        Err(_) => 0,
    }
}

/// How many bytes may still be read after this answer to a read.
pub open spec fn size_after(size: nat, answer: Result<nat, ()>) -> nat {
    (size - len_of(answer)) as nat
}

/// What has to be signalled as the last read of a draining, if this was it.
pub open spec fn last_read_signal<E>(result: Result<usize, E>) -> Option<Result<(), E>> {
    match result {
        Err(e) => Some(Err(e)),
        Ok(len) => if len == 0 {
            Some(Ok(()))
        } else {
            None
        },
    }
}

/// How far a draining has come: how many bytes are left to read, and whether
/// the sub-reader failed or ended.
pub ghost struct DrainState {
    pub remaining: nat,
    pub stopped: bool,
}

impl DrainState {
    /// What is to be asked of the sub-reader next; nothing when done.
    pub open spec fn request(self) -> Option<nat> {
        if self.stopped || self.remaining == 0 {
            None
        } else {
            Some(min(self.remaining, DRAIN_BUFFER as nat))
        }
    }

    /// The state after this answer: a failure or an empty read stops.
    pub open spec fn after(self, answer: Result<nat, ()>) -> DrainState {
        DrainState {
            remaining: (self.remaining - len_of(answer)) as nat,
            stopped: self.stopped || len_of(answer) == 0,
        }
    }
}

/// A reader that reads exactly the number of bytes from a sub-reader.
///
/// If the limit is reached, it returns EOF. If the limit is not reached when
/// the reader is given up, the remaining bytes are to be read and thrown away:
/// see [`EqualReader::drain`].
///
/// The sub-reader is only carried here; whoever owns the `EqualReader` does the
/// reading, between [`EqualReader::begin_read`] and [`EqualReader::end_read`].
#[derive(Debug)]
pub struct EqualReader<R> {
    reader: R,
    size: usize,
}

impl<R> EqualReader<R> {
    /// The sub-reader.
    pub closed spec fn reader(&self) -> R {
        self.reader
    }

    /// How many bytes may still be read.
    pub closed spec fn size(&self) -> usize {
        self.size
    }

    /// A reader of exactly `size` bytes of `reader`.
    pub fn new(reader: R, size: usize) -> (r: EqualReader<R>)
        ensures
            r.reader() == reader,
            r.size() == size,
    {
        EqualReader { reader, size }
    }

    /// How many bytes may still be read.
    pub fn size_left(&self) -> (r: usize)
        ensures
            r == self.size(),
    {
        self.size
    }

    /// How many bytes a read into a buffer of `buf_len` bytes is to ask of the
    /// sub-reader. `None` at the limit: the read is at EOF, it returns `Ok(0)`
    /// and leaves the sub-reader alone.
    pub fn begin_read(&self, buf_len: usize) -> (r: Option<usize>)
        ensures
            match r {
                Some(want) => read_request(self.size() as nat, buf_len as nat) == Some(want as nat),
                None => read_request(self.size() as nat, buf_len as nat) is None,
            },
    {
        if self.size == 0 {
            None
        } else if buf_len < self.size {
            Some(buf_len)
        } else {
            Some(self.size)
        }
    }

    /// The sub-reader, to be read from.
    pub fn reader_mut(&mut self) -> (r: &mut R)
        ensures
            *r == old(self).reader(),
            final(self).reader() == *final(r),
            final(self).size() == old(self).size(),
    {
        &mut self.reader
    }

    /// Takes note of what the sub-reader answered, and hands it on.
    pub fn end_read<E>(&mut self, result: Result<usize, E>) -> (r: Result<usize, E>)
        requires
            result matches Ok(len) ==> len <= old(self).size(),
        ensures
            r == result,
            final(self).reader() == old(self).reader(),
            final(self).size() == size_after(old(self).size() as nat, answer(result)),
    {
        if let Ok(len) = &result {
            self.size = self.size - *len;
        }
        result
    }

    /// Starts to throw away what the limit still lets through.
    pub fn drain(&self) -> (r: Drain)
        ensures
            r@ == drain_of(self.size() as nat),
    {
        Drain { remaining_to_read: self.size, stopped: false }
    }
}

/// The rest of a body on its way to being thrown away.
#[derive(Debug)]
pub struct Drain {
    remaining_to_read: usize,
    stopped: bool,
}

impl View for Drain {
    type V = DrainState;

    closed spec fn view(&self) -> DrainState {
        DrainState { remaining: self.remaining_to_read as nat, stopped: self.stopped }
    }
}

impl Drain {
    /// How many bytes are left to read.
    pub fn size_left(&self) -> (r: usize)
        ensures
            r == self@.remaining,
    {
        self.remaining_to_read
    }

    /// How many bytes to read, and throw away, next. `None` when done.
    pub fn next_read(&self) -> (r: Option<usize>)
        ensures
            match r {
                Some(want) => self@.request() == Some(want as nat),
                None => self@.request() is None,
            },
    {
        if self.stopped || self.remaining_to_read == 0 {
            None
        } else if self.remaining_to_read < DRAIN_BUFFER {
            Some(self.remaining_to_read)
        } else {
            Some(DRAIN_BUFFER)
        }
    }

    /// Takes note of what the sub-reader answered. Its error or its end stops
    /// the draining, and is what has to be signalled as the last read.
    pub fn drained<E>(&mut self, result: Result<usize, E>) -> (signal: Option<Result<(), E>>)
        requires
            old(self)@.request() is Some,
            result matches Ok(len) ==> len <= old(self)@.remaining,
        ensures
            final(self)@ == old(self)@.after(answer(result)),
            signal == last_read_signal(result),
            signal == match result {
                Err(e) => Some(Err::<(), E>(e)),
                Ok(len) => if len == 0 {
                    Some(Ok::<(), E>(()))
                } else {
                    None
                },
            },
    {
        match result {
            Err(e) => {
                self.stopped = true;
                Some(Err(e))
            },
            Ok(len) => {
                if len == 0 {
                    self.stopped = true;
                    Some(Ok(()))
                } else {
                    self.remaining_to_read = self.remaining_to_read - len;
                    None
                }
            },
        }
    }
}

/// A sub-reader with `avail` bytes left may answer a request for `want` bytes
/// like this: with an error, which takes no byte, or with no more bytes than
/// asked for, no more than there are, and none only at its end.
pub open spec fn serves(avail: nat, want: nat, answer: Result<nat, ()>) -> bool {
    answer matches Ok(len) ==> {
        &&& len <= want
        &&& len <= avail
        &&& want > 0 && avail > 0 ==> len > 0
    }
}

/// How many bytes a run of answers brings.
pub open spec fn total(answers: Seq<Result<nat, ()>>) -> nat
    decreases answers.len(),
{
    if answers.len() == 0 {
        0
    } else {
        len_of(answers.first()) + total(answers.drop_first())
    }
}

/// `answers` is what a run of reads returns, the i-th into a buffer of
/// `bufs[i]` bytes, through an `EqualReader` with `size` bytes to go over a
/// sub-reader with `avail` bytes left.
pub open spec fn reads_run(
    size: nat,
    avail: nat,
    bufs: Seq<nat>,
    answers: Seq<Result<nat, ()>>,
) -> bool
    decreases answers.len(),
{
    &&& bufs.len() == answers.len()
    &&& answers.len() > 0 ==> {
        &&& match read_request(size, bufs.first()) {
            None => answers.first() == Ok::<nat, ()>(0),
            Some(want) => serves(avail, want, answers.first()),
        }
        &&& reads_run(
            size_after(size, answers.first()),
            (avail - len_of(answers.first())) as nat,
            bufs.drop_first(),
            answers.drop_first(),
        )
    }
}

/// `answers` is what the sub-reader, with `avail` bytes left, answers to a
/// draining, from the state `drain` up to where it is done.
pub open spec fn drain_run(drain: DrainState, avail: nat, answers: Seq<Result<nat, ()>>) -> bool
    decreases answers.len(),
{
    match drain.request() {
        None => answers.len() == 0,
        Some(want) => {
            &&& answers.len() > 0
            &&& serves(avail, want, answers.first())
            &&& drain_run(
                drain.after(answers.first()),
                (avail - len_of(answers.first())) as nat,
                answers.drop_first(),
            )
        },
    }
}

/// A draining that has just started.
pub open spec fn drain_of(remaining: nat) -> DrainState {
    DrainState { remaining, stopped: false }
}

/// Whatever the buffers of the reads and the answers to them, no more than the
/// limit is ever read.
pub proof fn law_limit_is_kept(
    size: nat,
    avail: nat,
    bufs: Seq<nat>,
    answers: Seq<Result<nat, ()>>,
)
    requires
        reads_run(size, avail, bufs, answers),
    ensures
        total(answers) <= size,
        total(answers) <= avail,
    decreases answers.len(),
{
    if answers.len() > 0 {
        let len = len_of(answers.first());
        law_limit_is_kept(
            (size - len) as nat,
            (avail - len) as nat,
            bufs.drop_first(),
            answers.drop_first(),
        );
    }
}

/// A read into a buffer that can hold something returns nothing exactly when
/// the limit or the end of the sub-reader is reached: this is the EOF that the
/// reader reports. At the limit no read fails.
pub proof fn law_eof_at_the_limit(size: nat, avail: nat, buf_len: nat, answer: Result<nat, ()>)
    requires
        reads_run(size, avail, seq![buf_len], seq![answer]),
        buf_len > 0,
    ensures
        answer matches Ok(len) ==> (len == 0 <==> size == 0 || avail == 0),
        size == 0 ==> answer is Ok,
{
    assert(seq![buf_len].first() == buf_len);
    assert(seq![answer].first() == answer);
}

/// A draining that meets no error throws away exactly what is left of the
/// limit, or all that the sub-reader has, where it has less. One that meets an
/// error throws away no more than that.
pub proof fn law_drain_takes_the_rest(
    remaining: nat,
    avail: nat,
    answers: Seq<Result<nat, ()>>,
)
    requires
        drain_run(drain_of(remaining), avail, answers),
    ensures
        total(answers) <= min(remaining, avail),
        answers.len() == 0 || answers.last() is Ok ==> total(answers) == min(remaining, avail),
    decreases answers.len(),
{
    reveal_with_fuel(total, 2);
    reveal_with_fuel(drain_run, 2);
    if answers.len() > 0 && len_of(answers.first()) != 0 {
        let len = len_of(answers.first());
        law_drain_takes_the_rest(
            (remaining - len) as nat,
            (avail - len) as nat,
            answers.drop_first(),
        );
    }
}

/// Reads followed by a draining take no more than `size` bytes from the
/// sub-reader. Where the draining meets no error, they take exactly so many, or
/// all that there are, if there are fewer: however the bytes were split between
/// the two, the sub-reader is left right behind the body.
pub proof fn law_reads_exactly_the_size(
    size: nat,
    avail: nat,
    bufs: Seq<nat>,
    reads: Seq<Result<nat, ()>>,
    drained: Seq<Result<nat, ()>>,
)
    requires
        reads_run(size, avail, bufs, reads),
        drain_run(drain_of((size - total(reads)) as nat), (avail - total(reads)) as nat, drained),
    ensures
        total(reads) + total(drained) <= min(size, avail),
        drained.len() == 0 || drained.last() is Ok ==> total(reads) + total(drained) == min(
            size,
            avail,
        ),
{
    law_limit_is_kept(size, avail, bufs, reads);
    law_drain_takes_the_rest(
        (size - total(reads)) as nat,
        (avail - total(reads)) as nat,
        drained,
    );
}

/// A draining that meets no error ends on an empty read, and so signals the end
/// of the sub-reader, exactly when the sub-reader has less than what is left of
/// the limit.
pub proof fn law_early_end_is_signalled(
    remaining: nat,
    avail: nat,
    answers: Seq<Result<nat, ()>>,
)
    requires
        drain_run(drain_of(remaining), avail, answers),
        answers.len() == 0 || answers.last() is Ok,
    ensures
        answers.len() > 0 && answers.last() == Ok::<nat, ()>(0) <==> avail < remaining,
    decreases answers.len(),
{
    reveal_with_fuel(drain_run, 2);
    if answers.len() > 0 && len_of(answers.first()) != 0 {
        let len = len_of(answers.first());
        law_early_end_is_signalled(
            (remaining - len) as nat,
            (avail - len) as nat,
            answers.drop_first(),
        );
    }
}

/// No read of a draining asks for more than the fixed buffer, however much is
/// left to read.
pub proof fn law_drain_buffer_is_fixed(drain: DrainState)
    ensures
        drain.request() matches Some(want) ==> 0 < want <= DRAIN_BUFFER && want
            <= drain.remaining,
{
}

/// The bytes that an answer brings.
pub open spec fn bytes_of(answer: Result<Seq<u8>, ()>) -> Seq<u8> {
    match answer {
        Ok(bytes) => bytes,
        Err(_) => Seq::empty(),
    }
}

/// The answers, by how many bytes they bring.
pub open spec fn lengths(answers: Seq<Result<Seq<u8>, ()>>) -> Seq<Result<nat, ()>> {
    Seq::new(
        answers.len(),
        |i: int|
            match answers[i] {
                Ok(bytes) => Ok::<nat, ()>(bytes.len()),
                Err(_) => Err(()),
            },
    )
}

/// The bytes that a run of answers brings, joined in their order.
pub open spec fn joined(answers: Seq<Result<Seq<u8>, ()>>) -> Seq<u8>
    decreases answers.len(),
{
    if answers.len() == 0 {
        Seq::empty()
    } else {
        bytes_of(answers.first()) + joined(answers.drop_first())
    }
}

/// Each answer brings the bytes that come next in `content`.
pub open spec fn in_order(content: Seq<u8>, answers: Seq<Result<Seq<u8>, ()>>) -> bool
    decreases answers.len(),
{
    answers.len() == 0 || {
        let bytes = bytes_of(answers.first());
        &&& bytes.is_prefix_of(content)
        &&& in_order(content.skip(bytes.len() as int), answers.drop_first())
    }
}

/// `answers` is what a run of reads returns, the i-th into a buffer of
/// `bufs[i]` bytes, through an `EqualReader` with `size` bytes to go over a
/// sub-reader that still holds `content`.
pub open spec fn bytes_run(
    size: nat,
    content: Seq<u8>,
    bufs: Seq<nat>,
    answers: Seq<Result<Seq<u8>, ()>>,
) -> bool {
    &&& reads_run(size, content.len(), bufs, lengths(answers))
    &&& in_order(content, answers)
}

/// The first step of a run, and the run behind it.
proof fn lemma_bytes_run_step(
    size: nat,
    content: Seq<u8>,
    bufs: Seq<nat>,
    answers: Seq<Result<Seq<u8>, ()>>,
)
    requires
        bytes_run(size, content, bufs, answers),
        answers.len() > 0,
    ensures
        ({
            let len = bytes_of(answers.first()).len();
            &&& len <= size
            &&& len <= content.len()
            &&& bytes_of(answers.first()) == content.take(len as int)
            &&& bytes_run(
                (size - len) as nat,
                content.skip(len as int),
                bufs.drop_first(),
                answers.drop_first(),
            )
        }),
{
    let len = bytes_of(answers.first()).len();
    assert(lengths(answers).first() == lengths(answers)[0]);
    assert(len_of(lengths(answers).first()) == len);
    assert(lengths(answers).drop_first() =~= lengths(answers.drop_first()));
    assert(bytes_of(answers.first()) =~= content.take(len as int));
}

/// The bytes that reads return, joined in their order, are the bytes that the
/// sub-reader holds, from its first on, and no more of them than the limit.
pub proof fn law_bytes_are_those_of_the_reader(
    size: nat,
    content: Seq<u8>,
    bufs: Seq<nat>,
    answers: Seq<Result<Seq<u8>, ()>>,
)
    requires
        bytes_run(size, content, bufs, answers),
    ensures
        joined(answers).len() <= min(size, content.len()),
        joined(answers) == content.take(joined(answers).len() as int),
        joined(answers).len() == total(lengths(answers)),
    decreases answers.len(),
{
    if answers.len() == 0 {
        assert(joined(answers) =~= content.take(0));
    } else {
        lemma_bytes_run_step(size, content, bufs, answers);
        let len = bytes_of(answers.first()).len();
        let rest = content.skip(len as int);
        law_bytes_are_those_of_the_reader(
            (size - len) as nat,
            rest,
            bufs.drop_first(),
            answers.drop_first(),
        );
        assert(lengths(answers).first() == lengths(answers)[0]);
        assert(lengths(answers).drop_first() =~= lengths(answers.drop_first()));
        assert(joined(answers) =~= content.take(joined(answers).len() as int));
    }
}

/// A run of reads from one of its reads on is a run, with so much less to go.
proof fn lemma_bytes_run_splits(
    size: nat,
    content: Seq<u8>,
    bufs: Seq<nat>,
    answers: Seq<Result<Seq<u8>, ()>>,
    k: int,
)
    requires
        bytes_run(size, content, bufs, answers),
        0 <= k <= answers.len(),
    ensures
        ({
            let before = joined(answers.take(k)).len();
            &&& before <= size
            &&& before <= content.len()
            &&& bytes_run(
                (size - before) as nat,
                content.skip(before as int),
                bufs.skip(k),
                answers.skip(k),
            )
            &&& joined(answers) == joined(answers.take(k)) + joined(answers.skip(k))
        }),
    decreases k,
{
    if k == 0 {
        assert(answers.skip(0) =~= answers);
        assert(bufs.skip(0) =~= bufs);
        assert(content.skip(0) =~= content);
        assert(joined(answers.take(0)) =~= Seq::empty());
        assert(joined(answers) =~= joined(answers.take(0)) + joined(answers.skip(0)));
    } else {
        lemma_bytes_run_step(size, content, bufs, answers);
        let first = bytes_of(answers.first());
        let len = first.len();
        let rest = answers.drop_first();
        lemma_bytes_run_splits(
            (size - len) as nat,
            content.skip(len as int),
            bufs.drop_first(),
            rest,
            k - 1,
        );
        assert(answers.take(k).first() == answers.first());
        assert(answers.take(k).drop_first() =~= rest.take(k - 1));
        assert(answers.skip(k) =~= rest.skip(k - 1));
        assert(bufs.len() == lengths(answers).len());
        assert(bufs.skip(k) =~= bufs.drop_first().skip(k - 1));
        let before = joined(answers.take(k)).len();
        assert(before == len + joined(rest.take(k - 1)).len());
        assert(content.skip(before as int) =~= content.skip(len as int).skip(
            joined(rest.take(k - 1)).len() as int,
        ));
        assert(joined(answers) =~= joined(answers.take(k)) + joined(answers.skip(k)));
    }
}

/// Once as many bytes as the limit were returned, every later read returns
/// `Ok` with nothing, without a request to the sub-reader.
pub proof fn law_nothing_comes_after_the_limit(
    size: nat,
    content: Seq<u8>,
    bufs: Seq<nat>,
    answers: Seq<Result<Seq<u8>, ()>>,
    k: int,
    j: int,
)
    requires
        bytes_run(size, content, bufs, answers),
        0 <= k <= j < answers.len(),
        joined(answers.take(k)).len() == size,
    ensures
        answers[j] == Ok::<Seq<u8>, ()>(Seq::empty()),
        read_request((size - joined(answers.take(j)).len()) as nat, bufs[j]) is None,
{
    lemma_bytes_run_splits(size, content, bufs, answers, j);
    lemma_prefix_joins(answers, k, j);
    let rest = answers.skip(j);
    assert(rest.first() == answers[j]);
    assert(lengths(rest).first() == lengths(rest)[0]);
    assert(bufs.skip(j).first() == bufs[j]);
    assert(answers[j] matches Ok(bytes) && bytes =~= Seq::empty());
}

/// More answers bring no fewer bytes.
proof fn lemma_prefix_joins(answers: Seq<Result<Seq<u8>, ()>>, k: int, j: int)
    requires
        0 <= k <= j <= answers.len(),
    ensures
        joined(answers.take(k)).len() <= joined(answers.take(j)).len(),
    decreases k,
{
    if k > 0 {
        let rest = answers.drop_first();
        lemma_prefix_joins(rest, k - 1, j - 1);
        assert(answers.take(k).drop_first() =~= rest.take(k - 1));
        assert(answers.take(j).drop_first() =~= rest.take(j - 1));
        assert(answers.take(k).first() == answers.first());
        assert(answers.take(j).first() == answers.first());
    }
}

/// Reads that go on until one of them, into a buffer that can hold something,
/// returns nothing have returned the first `size` bytes that the sub-reader
/// holds, or all of them, where it holds fewer. Later reads that meet no error
/// return nothing either.
pub proof fn law_read_to_end_gives_the_body(
    size: nat,
    content: Seq<u8>,
    bufs: Seq<nat>,
    answers: Seq<Result<Seq<u8>, ()>>,
    k: int,
)
    requires
        bytes_run(size, content, bufs, answers),
        0 <= k < answers.len(),
        bufs[k] > 0,
        answers[k] matches Ok(bytes) && bytes.len() == 0,
    ensures
        joined(answers.take(k)) == content.take(min(size, content.len()) as int),
        joined(answers) == content.take(min(size, content.len()) as int),
        forall|j: int|
            k <= j < answers.len() && (#[trigger] answers[j]) is Ok ==> bytes_of(answers[j]).len()
                == 0,
{
    let most = min(size, content.len());
    lemma_bytes_run_splits(size, content, bufs, answers, k);
    law_bytes_are_those_of_the_reader(size, content, bufs, answers);
    let before = joined(answers.take(k));
    let rest = answers.skip(k);
    assert(rest.first() == answers[k]);
    assert(lengths(rest).first() == lengths(rest)[0]);
    assert(bufs.skip(k).first() == bufs[k]);
    assert(before.len() == most);
    assert(joined(answers).len() == most);
    assert(before =~= joined(answers).take(most as int));
    assert(before =~= content.take(most as int));
    assert forall|j: int| k <= j < answers.len() && (#[trigger] answers[j]) is Ok implies bytes_of(
        answers[j],
    ).len() == 0 by {
        lemma_prefix_joins(answers, k, j);
        lemma_bytes_run_splits(size, content, bufs, answers, j);
        lemma_bytes_run_step(
            (size - joined(answers.take(j)).len()) as nat,
            content.skip(joined(answers.take(j)).len() as int),
            bufs.skip(j),
            answers.skip(j),
        );
        assert(answers.skip(j).first() == answers[j]);
    }
}

/// After reads and a draining that meets no error, the sub-reader still holds
/// exactly the bytes behind the body, however much of the body was read.
pub proof fn law_reader_is_left_behind_the_body(
    size: nat,
    content: Seq<u8>,
    bufs: Seq<nat>,
    answers: Seq<Result<Seq<u8>, ()>>,
    drained: Seq<Result<nat, ()>>,
)
    requires
        bytes_run(size, content, bufs, answers),
        drain_run(
            drain_of((size - joined(answers).len()) as nat),
            (content.len() - joined(answers).len()) as nat,
            drained,
        ),
        drained.len() == 0 || drained.last() is Ok,
    ensures
        content.skip(joined(answers).len() as int).skip(total(drained) as int) == content.skip(
            min(size, content.len()) as int,
        ),
{
    law_bytes_are_those_of_the_reader(size, content, bufs, answers);
    law_reads_exactly_the_size(size, content.len(), bufs, lengths(answers), drained);
    assert(content.skip(joined(answers).len() as int).skip(total(drained) as int)
        =~= content.skip(min(size, content.len()) as int));
}

/// A read asks the sub-reader for something exactly where the limit is not yet
/// reached; and it asks for as much as it may: no more than the buffer holds, no
/// more than the limit lets through, and for all that one of the two allows.
pub proof fn law_reads_ask_for_all_they_may(size: nat, buf_len: nat)
    ensures
        read_request(size, buf_len) is None <==> size == 0,
        read_request(size, buf_len) matches Some(want) ==> {
            &&& want <= buf_len
            &&& want <= size
            &&& want == buf_len || want == size
        },
{
}

/// A read brings the limit down by what it returned; one that failed leaves the
/// limit as it was.
pub proof fn law_limit_goes_down_by_what_came<E>(size: usize, len: usize, error: E)
    requires
        len <= size,
    ensures
        size_after(size as nat, answer::<E>(Ok(len))) + len == size,
        size_after(size as nat, answer::<E>(Err(error))) == size,
{
}

/// A draining asks for something exactly as long as it was not stopped and there
/// is something to go; and it asks for all that there is to go, or for 4096
/// bytes, whichever is less.
pub proof fn law_drains_ask_for_all_they_may(drain: DrainState)
    ensures
        drain.request() is None <==> drain.stopped || drain.remaining == 0,
        drain.request() matches Some(want) ==> {
            &&& want <= drain.remaining
            &&& want <= 4096
            &&& want == drain.remaining || want == 4096
        },
{
}

/// A draining starts with all that the limit still lets through. It goes on
/// after bytes that came, with so many fewer to go, and stops at an empty read
/// or an error, with as many to go as before.
pub proof fn law_drain_goes_on_until_nothing_comes<E>(size: usize, len: usize, error: E)
    requires
        0 < len <= size,
    ensures
        drain_of(size as nat).remaining == size && !drain_of(size as nat).stopped,
        ({
            let next = drain_of(size as nat).after(answer::<E>(Ok(len)));
            next.remaining + len == size && !next.stopped
        }),
        ({
            let next = drain_of(size as nat).after(answer::<E>(Ok(0)));
            next.remaining == size && next.stopped
        }),
        ({
            let next = drain_of(size as nat).after(answer::<E>(Err(error)));
            next.remaining == size && next.stopped
        }),
{
}

/// Something is signalled exactly where a draining stops before its end: the
/// error where the sub-reader failed, and that all is well where it ended.
pub proof fn law_stops_are_signalled<E>(drain: DrainState, result: Result<usize, E>)
    requires
        !drain.stopped,
    ensures
        last_read_signal(result) is Some <==> drain.after(answer(result)).stopped,
        result matches Err(e) ==> last_read_signal(result) == Some(Err::<(), E>(e)),
        last_read_signal::<E>(Ok(0)) == Some(Ok::<(), E>(())),
        result matches Ok(len) ==> (last_read_signal(result) is None <==> len > 0),
{
}

} // verus!
