use std::collections::VecDeque;
use std::sync::Arc;
use once_cell::sync::OnceCell;
use rayon::iter::{IntoParallelRefIterator, ParallelIterator};
use vstd::prelude::*;
use crate::error::{PiperError, PiperResult};
use crate::model::{spoken_in_order, PiperModel, PiperWaveResult};
use crate::phonemes::sentence_views;
use crate::wave::{PiperWaveInfo, PiperWaveSamples};
use crate::wave_writer::{
    data_fits, format_supported, wave_file, write_wave_samples_to_buffer, WaveWriterError,
};

verus! {

/// Batch size of the batched strategy where the caller names none.
pub const SPEECH_STREAM_BATCH_SIZE: usize = 4;

/// `Arc::clone`: a second handle to the same value.
#[verifier::external_body]
fn share<T>(handle: &Arc<T>) -> (other: Arc<T>)
    ensures
        other == *handle,
{
    Arc::clone(handle)
}

/// A voice together with the text it is to speak.
pub struct SpeechSynthesisTaskProvider<M: PiperModel> {
    model: Arc<M>,
    text: String,
}

impl<M: PiperModel> SpeechSynthesisTaskProvider<M> {
    pub closed spec fn model(&self) -> M {
        *self.model
    }

    pub closed spec fn text(&self) -> Seq<char> {
        self.text@
    }

    fn get_phonemes(&self) -> (r: PiperResult<Vec<String>>)
        ensures
            match r {
                Ok(v) => self.model().phonemizes(self.text(), Ok(sentence_views(v@))),
                Err(e) => self.model().phonemizes(self.text(), Err(e)),
            },
    {
        match self.model.phonemize_text(self.text.as_str()) {
            Ok(p) => Ok(p.to_vec()),
            Err(e) => Err(e),
        }
    }

    fn process_one_sentence(&self, phonemes: String) -> (r: PiperWaveResult)
        ensures
            self.model().speaks(phonemes@, r),
    {
        self.model.speak_one_sentence(phonemes)
    }

    #[allow(dead_code)]
    fn process_batches(&self, phonemes: Vec<String>) -> (r: PiperResult<Vec<PiperWaveSamples>>)
        ensures
            self.model().speaks_batch(sentence_views(phonemes@), r),
    {
        self.model.speak_batch(phonemes)
    }
}

/// The sentences of `sentences` from `position` on.
pub open spec fn sentences_from(sentences: Seq<String>, position: int) -> Seq<Seq<char>> {
    if 0 <= position <= sentences.len() {
        sentence_views(sentences).skip(position)
    } else {
        Seq::empty()
    }
}

/// A stream that speaks each sentence when it is asked for.
pub struct PiperSpeechStreamLazy<M: PiperModel> {
    provider: SpeechSynthesisTaskProvider<M>,
    sentence_phonemes: Vec<String>,
    position: usize,
}

impl<M: PiperModel> PiperSpeechStreamLazy<M> {
    /// The voice that speaks.
    pub closed spec fn model(&self) -> M {
        self.provider.model()
    }

    /// The sentences not yet spoken, in reading order.
    pub closed spec fn remaining(&self) -> Seq<Seq<char>> {
        sentences_from(self.sentence_phonemes@, self.position as int)
    }

    fn new(provider: SpeechSynthesisTaskProvider<M>) -> (r: PiperResult<Self>)
        ensures
            match r {
                Ok(s) => s.model() == provider.model() && provider.model().phonemizes(
                    provider.text(),
                    Ok(s.remaining()),
                ),
                Err(e) => provider.model().phonemizes(provider.text(), Err(e)),
            },
    {
        match provider.get_phonemes() {
            Ok(sentence_phonemes) => {
                proof {
                    assert(sentence_views(sentence_phonemes@).skip(0) =~= sentence_views(
                        sentence_phonemes@,
                    ));
                }
                Ok(Self { provider, sentence_phonemes, position: 0 })
            },
            Err(e) => Err(e),
        }
    }

    /// Speaks the next sentence. There is an item exactly while sentences
    /// remain; it is an answer of the voice for the first of them, be it audio
    /// or an error, and the stream moves on to the sentence after it either way.
    pub fn next(&mut self) -> (item: Option<PiperWaveResult>)
        ensures
            final(self).model() == old(self).model(),
            old(self).remaining().len() == 0 ==> item is None && final(self).remaining()
                == old(self).remaining(),
            old(self).remaining().len() > 0 ==> item is Some && old(self).model().speaks(
                old(self).remaining()[0],
                item->Some_0,
            ) && final(self).remaining() == old(self).remaining().skip(1),
    {
        if self.position >= self.sentence_phonemes.len() {
            return None;
        }
        let phonemes = self.sentence_phonemes[self.position].clone();
        let result = self.provider.process_one_sentence(phonemes);
        proof {
            let views = sentence_views(self.sentence_phonemes@);
            assert(views.skip(self.position as int).skip(1) =~= views.skip(self.position + 1));
        }
        self.position = self.position + 1;
        Some(result)
    }
}

/// `rayon`'s `par_iter().map(..).collect()` into a `Vec`: the voice speaks
/// every sentence, on the pool's threads, and the answers stand in the order
/// of the sentences, one for each.
#[verifier::external_body]
fn speak_in_parallel<M: PiperModel + Sync + Send>(
    provider: &SpeechSynthesisTaskProvider<M>,
    sentences: &Vec<String>,
) -> (results: Vec<PiperWaveResult>)
    ensures
        spoken_in_order(&provider.model(), sentence_views(sentences@), results@),
{
    sentences.par_iter().map(|ph| provider.process_one_sentence(ph.to_string())).collect()
}

/// True where the voice can phonemize `text` into `sentences` and answer them,
/// in order, with `items`.
pub open spec fn speaks_text<M: PiperModel>(
    model: &M,
    text: Seq<char>,
    sentences: Seq<Seq<char>>,
    items: Seq<PiperWaveResult>,
) -> bool {
    model.phonemizes(text, Ok(sentences)) && spoken_in_order(model, sentences, items)
}

/// True where `items` are answers of the voice, in order, for some sentences
/// into which it can phonemize `text`.
pub open spec fn speaks_some_text<M: PiperModel>(
    model: &M,
    text: Seq<char>,
    items: Seq<PiperWaveResult>,
) -> bool {
    exists|sentences: Seq<Seq<char>>| #[trigger] speaks_text(model, text, sentences, items)
}

/// A stream whose sentences were all spoken, in parallel, before the first is
/// asked for.
#[must_use]
pub struct PiperSpeechStreamParallel {
    // Held last to first, so that the next item is the one `pop` gives.
    precalculated_results: Vec<PiperWaveResult>,
}

impl PiperSpeechStreamParallel {
    /// The items not yet handed out, in reading order.
    pub closed spec fn pending(&self) -> Seq<PiperWaveResult> {
        self.precalculated_results@.reverse()
    }

    fn new<M: PiperModel + Sync + Send>(provider: SpeechSynthesisTaskProvider<M>) -> (r:
        PiperResult<Self>)
        ensures
            match r {
                Ok(s) => speaks_some_text(&provider.model(), provider.text(), s.pending()),
                Err(e) => provider.model().phonemizes(provider.text(), Err(e)),
            },
    {
        match provider.get_phonemes() {
            Ok(phonemes) => {
                prepare_pool();
                let results = speak_in_parallel(&provider, &phonemes);
                let stream = Self::from_results(results);
                proof {
                    assert(speaks_text(
                        &provider.model(),
                        provider.text(),
                        sentence_views(phonemes@),
                        stream.pending(),
                    ));
                    assert(speaks_some_text(&provider.model(), provider.text(), stream.pending()));
                }
                Ok(stream)
            },
            Err(e) => Err(e),
        }
    }

    /// A stream that hands out `results` from the first to the last.
    pub fn from_results(results: Vec<PiperWaveResult>) -> (s: Self)
        ensures
            s.pending() == results@,
    {
        let ghost all = results@;
        let mut results = results;
        let mut reversed: Vec<PiperWaveResult> = Vec::new();
        while results.len() > 0
            invariant
                results@.len() + reversed@.len() == all.len(),
                results@ == all.take(results@.len() as int),
                forall|j: int|
                    0 <= j < reversed@.len() ==> reversed@[j] == all[all.len() - 1 - j],
            decreases results@.len(),
        {
            match results.pop() {
                Some(r) => {
                    reversed.push(r);
                },
                None => {},
            }
        }
        proof {
            assert(reversed@.reverse() =~= all);
        }
        Self { precalculated_results: reversed }
    }

    /// Hands out the next item: the first of those pending, while there is one.
    pub fn next(&mut self) -> (item: Option<PiperWaveResult>)
        ensures
            old(self).pending().len() == 0 ==> item is None && final(self).pending()
                == old(self).pending(),
            old(self).pending().len() > 0 ==> item == Some(old(self).pending()[0])
                && final(self).pending() == old(self).pending().skip(1),
    {
        let ghost before = self.precalculated_results@;
        let item = self.precalculated_results.pop();
        proof {
            if before.len() > 0 {
                assert(self.precalculated_results@.reverse() =~= before.reverse().skip(1));
            }
        }
        item
    }
}

/// The samples of all items one after the other, or the first error among them.
pub open spec fn gathered(items: Seq<PiperWaveResult>) -> Result<Seq<i16>, PiperError>
    decreases items.len(),
{
    if items.len() == 0 {
        Ok(Seq::empty())
    } else {
        match gathered(items.drop_last()) {
            Err(e) => Err(e),
            Ok(before) => match items.last() {
                Ok(ws) => Ok(before + ws.samples@),
                Err(e) => Err(e),
            },
        }
    }
}

/// Says which result the samples collected from `items` are: the first error
/// among the items; else, with no sample at all, an `OperationError`; else all
/// samples in order.
pub open spec fn samples_outcome(items: Seq<PiperWaveResult>, r: PiperResult<Vec<i16>>) -> bool {
    match gathered(items) {
        Err(e) => r == Err::<Vec<i16>, PiperError>(e),
        Ok(all) => if all.len() == 0 {
            r is Err && r->Err_0.is_operation_error("No speech data to write"@)
        } else {
            r is Ok && r->Ok_0@ == all
        },
    }
}

/// Drains `stream` and joins the samples of its items.
pub fn collect_samples(stream: PiperSpeechStreamParallel) -> (r: PiperResult<Vec<i16>>)
    ensures
        samples_outcome(stream.pending(), r),
{
    let ghost items = stream.pending();
    let mut rest = stream;
    let mut samples: Vec<i16> = Vec::new();
    let ghost mut taken: int = 0;
    let mut drained = false;
    proof {
        assert(items.skip(0) =~= items);
    }
    while !drained
        invariant
            0 <= taken <= items.len(),
            items == stream.pending(),
            rest.pending() == items.skip(taken),
            gathered(items.take(taken)) == Ok::<Seq<i16>, PiperError>(samples@),
            drained ==> taken == items.len(),
        decreases items.len() - taken + (if drained { 0int } else { 1int }),
    {
        match rest.next() {
            None => {
                drained = true;
            },
            Some(result) => {
                proof {
                    assert(items.take(taken + 1).drop_last() =~= items.take(taken));
                    assert(items.take(taken + 1).last() == result);
                    assert(items.skip(taken).skip(1) =~= items.skip(taken + 1));
                }
                match result {
                    Ok(ws) => {
                        let mut more = ws.to_vec();
                        samples.append(&mut more);
                        proof {
                            taken = taken + 1;
                        }
                    },
                    Err(e) => {
                        proof {
                            assert(gathered(items.take(taken + 1)) == Err::<Seq<i16>, PiperError>(
                                e,
                            ));
                            lemma_error_stays(items, taken + 1);
                        }
                        return Err(e);
                    },
                }
            },
        }
    }
    proof {
        assert(items.take(taken) =~= items);
    }
    if samples.is_empty() {
        return Err(PiperError::operation("No speech data to write"));
    }
    Ok(samples)
}

/// An error among the first `n` items is the outcome of gathering them all.
pub proof fn lemma_error_stays(items: Seq<PiperWaveResult>, n: int)
    requires
        0 <= n <= items.len(),
        gathered(items.take(n)) is Err,
    ensures
        gathered(items) == gathered(items.take(n)),
    decreases items.len() - n,
{
    if n == items.len() {
        assert(items.take(n) =~= items);
    } else {
        assert(items.take(n + 1).drop_last() =~= items.take(n));
        lemma_error_stays(items, n + 1);
    }
}


/// `once_cell`'s cell that is written once and read by those who wait for it.
#[verifier::external_type_specification]
#[verifier::external_body]
#[verifier::reject_recursive_types(T)]
pub struct ExOnceCell<T>(OnceCell<T>);

/// The answers that are ever written to the cell: a cell is written at most
/// once, so there is at most one.
pub uninterp spec fn written(cell: OnceCell<PiperWaveResult>) -> Set<PiperWaveResult>;

/// `num_cpus::get`: the number of processors available, at least one.
#[verifier::external_body]
fn cpu_count() -> (n: usize)
    ensures
        n >= 1,
{
    num_cpus::get()
}

/// `rayon`'s `ThreadPoolBuilder::build_global`: sets up the pool shared by the
/// whole process with `threads` named workers, unless it is set up already.
#[verifier::external_body]
fn install_pool(threads: usize) {
    let _ = rayon::ThreadPoolBuilder::new().thread_name(
        |i| format!("piper_synth_{}", i),
    ).num_threads(threads).build_global();
}

/// `OnceCell::set`: writes the cell unless it was written before.
#[verifier::external_body]
fn fill(slot: &OnceCell<PiperWaveResult>, value: PiperWaveResult) {
    let _ = slot.set(value);
}

/// `OnceCell::wait`: returns once the cell has been written.
#[verifier::external_body]
fn wait_filled(cell: &Arc<OnceCell<PiperWaveResult>>) {
    cell.wait();
}

/// `Arc::try_unwrap`: the value behind the handle where no other handle is
/// left, else the handle again.
#[verifier::external_body]
fn unshare(cell: Arc<OnceCell<PiperWaveResult>>) -> (r: Result<
    OnceCell<PiperWaveResult>,
    Arc<OnceCell<PiperWaveResult>>,
>)
    ensures
        match r {
            Ok(inner) => inner == *cell,
            Err(shared) => shared == cell,
        },
{
    Arc::try_unwrap(cell)
}

/// `OnceCell::get`, cloned: a copy of what was written to the cell, if
/// anything was.
#[verifier::external_body]
fn cell_copy(cell: &Arc<OnceCell<PiperWaveResult>>) -> (r: Option<PiperWaveResult>)
    ensures
        r matches Some(answer) ==> written(**cell).contains(answer),
{
    cell.get().cloned()
}

/// `OnceCell::into_inner`: what was written to the cell, if anything was.
#[verifier::external_body]
fn cell_value(cell: OnceCell<PiperWaveResult>) -> (r: Option<PiperWaveResult>)
    ensures
        r matches Some(answer) ==> written(cell).contains(answer),
{
    cell.into_inner()
}

/// `rayon::spawn_fifo` with a fresh `OnceCell`: queues `job` on the shared
/// pool and returns the cell that its answer goes to. The job is the cell's
/// only writer, so whatever is ever written to the cell is an answer that the
/// job can give.
#[verifier::external_body]
fn spawn_job<F: FnOnce() -> PiperWaveResult + Send + 'static>(job: F) -> (cell: Arc<
    OnceCell<PiperWaveResult>,
>)
    requires
        job.requires(()),
    ensures
        forall|answer: PiperWaveResult| #[trigger]
            written(*cell).contains(answer) ==> job.ensures((), answer),
{
    let cell = Arc::new(OnceCell::new());
    let slot = Arc::clone(&cell);
    rayon::spawn_fifo(move || run_job(job, &slot));
    cell
}

/// The work of one background job: get the answer, then publish it.
fn run_job<F: FnOnce() -> PiperWaveResult>(job: F, slot: &OnceCell<PiperWaveResult>)
    requires
        job.requires(()),
{
    let answer = job();
    fill(slot, answer);
}

/// Sets up the shared pool with one worker for each processor.
fn prepare_pool() {
    let threads = cpu_count();
    install_pool(threads);
}

/// What a finished task hands over: the answer that was taken out of its
/// cell, or an `OperationError` where none could be taken.
pub fn task_outcome(taken: Option<PiperWaveResult>) -> (r: PiperWaveResult)
    ensures
        match taken {
            Some(answer) => r == answer,
            None => r is Err && r->Err_0.is_operation_error("Failed to obtain results"@),
        },
{
    match taken {
        Some(answer) => answer,
        None => Err(PiperError::operation("Failed to obtain results")),
    }
}

/// One sentence handed to the pool, and the cell its answer arrives in.
pub struct SpeechSynthesisTask {
    cell: Arc<OnceCell<PiperWaveResult>>,
    sentence: Ghost<Seq<char>>,
}

impl SpeechSynthesisTask {
    /// The phonemes of the sentence that is spoken.
    pub closed spec fn sentence(&self) -> Seq<char> {
        self.sentence@
    }

    /// True of what the job of the task may hand over as its answer.
    pub closed spec fn answers(&self, answer: PiperWaveResult) -> bool {
        written(*self.cell).contains(answer)
    }

    fn new<M: PiperModel + Sync + Send + 'static>(
        provider: Arc<SpeechSynthesisTaskProvider<M>>,
        phonemes: String,
    ) -> (task: Self)
        ensures
            task.sentence() == phonemes@,
            forall|answer: PiperWaveResult| #[trigger]
                task.answers(answer) ==> provider.model().speaks(phonemes@, answer),
    {
        let ghost sentence = phonemes@;
        let job = move || -> (r: PiperWaveResult)
            ensures
                provider.model().speaks(phonemes@, r),
            { provider.process_one_sentence(phonemes) };
        let cell = spawn_job(job);
        Self { cell, sentence: Ghost(sentence) }
    }

    /// Waits for the job and takes its answer: what the job wrote to the
    /// cell of the task, or an `OperationError` where nothing could be taken.
    fn get_result(self) -> (r: PiperWaveResult)
        ensures
            self.answers(r) || (r is Err && r->Err_0.is_operation_error(
                "Failed to obtain results"@,
            )),
    {
        wait_filled(&self.cell);
        // The job may still hold its handle for a moment after it has written.
        let taken = match unshare(self.cell) {
            Ok(cell) => cell_value(cell),
            Err(shared) => cell_copy(&shared),
        };
        task_outcome(taken)
    }
}

/// The sentences that the tasks of a queue speak, in queue order.
pub open spec fn task_sentences(tasks: Seq<SpeechSynthesisTask>) -> Seq<Seq<char>> {
    Seq::new(tasks.len(), |i: int| tasks[i].sentence())
}

/// True of the one error that stands for an answer that could not be taken
/// from its task.
pub open spec fn failed_to_obtain(r: PiperWaveResult) -> bool {
    r is Err && r->Err_0.is_operation_error("Failed to obtain results"@)
}

/// True where each of `tasks` hands over nothing but an answer of the voice
/// for its own sentence.
pub open spec fn answer_for_voice<M: PiperModel>(
    model: &M,
    tasks: Seq<SpeechSynthesisTask>,
) -> bool {
    forall|i: int, answer: PiperWaveResult|
        0 <= i < tasks.len() && #[trigger] tasks[i].answers(answer) ==> model.speaks(
            tasks[i].sentence(),
            answer,
        )
}

/// The tasks in flight, first in first out.
pub struct SpeechSynthesisChannel {
    task_queue: VecDeque<SpeechSynthesisTask>,
}

impl SpeechSynthesisChannel {
    /// The tasks in flight, the oldest first.
    pub closed spec fn tasks(&self) -> Seq<SpeechSynthesisTask> {
        self.task_queue@
    }

    /// The sentences of the tasks in flight, the oldest first.
    pub closed spec fn sentences(&self) -> Seq<Seq<char>> {
        task_sentences(self.task_queue@)
    }

    fn new(batch_size: usize) -> (r: PiperResult<Self>)
        ensures
            r is Ok,
            r->Ok_0.tasks().len() == 0,
            r->Ok_0.sentences() == Seq::<Seq<char>>::empty(),
    {
        let task_queue: VecDeque<SpeechSynthesisTask> = if batch_size <= usize::MAX / 4 {
            VecDeque::with_capacity(batch_size * 4)
        } else {
            VecDeque::new()
        };
        proof {
            assert(task_sentences(task_queue@) =~= Seq::<Seq<char>>::empty());
        }
        Ok(Self { task_queue })
    }

    fn put<M: PiperModel + Sync + Send + 'static>(
        &mut self,
        provider: Arc<SpeechSynthesisTaskProvider<M>>,
        batch: Vec<String>,
    )
        ensures
            final(self).sentences() == old(self).sentences() + sentence_views(batch@),
            answer_for_voice(&provider.model(), old(self).tasks()) ==> answer_for_voice(
                &provider.model(),
                final(self).tasks(),
            ),
    {
        let ghost before = self.sentences();
        let ghost tasks_before = self.tasks();
        let mut i: usize = 0;
        proof {
            assert(before + sentence_views(batch@).take(0) =~= before);
        }
        while i < batch.len()
            invariant
                i <= batch.len(),
                self.sentences() == before + sentence_views(batch@).take(i as int),
                answer_for_voice(&provider.model(), tasks_before) ==> answer_for_voice(
                    &provider.model(),
                    self.tasks(),
                ),
            decreases batch.len() - i,
        {
            let phonemes = batch[i].clone();
            let task = SpeechSynthesisTask::new(share(&provider), phonemes);
            let ghost queue = self.task_queue@;
            let ghost added = task;
            self.task_queue.push_back(task);
            proof {
                let views = sentence_views(batch@);
                if answer_for_voice(&provider.model(), tasks_before) {
                    assert forall|j: int, answer: PiperWaveResult|
                        0 <= j < queue.push(added).len() && #[trigger] queue.push(
                            added,
                        )[j].answers(answer) implies provider.model().speaks(
                        queue.push(added)[j].sentence(),
                        answer,
                    ) by {
                        if j < queue.len() {
                            assert(queue[j].answers(answer));
                        }
                    }
                }
                assert(task_sentences(queue.push(added)) =~= task_sentences(queue).push(
                    added.sentence(),
                ));
                assert(views.take(i + 1) =~= views.take(i as int).push(batch@[i as int]@));
                assert(self.sentences() =~= before + views.take(i + 1));
            }
            i += 1;
        }
        proof {
            assert(sentence_views(batch@).take(batch.len() as int) =~= sentence_views(batch@));
        }
    }

    fn get(&mut self) -> (item: Option<PiperWaveResult>)
        ensures
            old(self).sentences().len() == old(self).tasks().len(),
            old(self).tasks().len() == 0 ==> item is None && final(self).tasks() == old(
                self).tasks() && final(self).sentences() == old(self).sentences(),
            old(self).tasks().len() > 0 ==> item is Some && final(self).tasks() == old(
                self).tasks().skip(1) && final(self).sentences() == old(self).sentences().skip(1),
            old(self).tasks().len() > 0 ==> old(self).tasks()[0].answers(item->Some_0)
                || failed_to_obtain(item->Some_0),
    {
        let ghost before = self.sentences();
        let ghost tasks_before = self.tasks();
        match self.task_queue.pop_front() {
            Some(task) => {
                proof {
                    assert(self.sentences() =~= before.skip(1));
                    assert(self.tasks() =~= tasks_before.skip(1));
                }
                Some(task.get_result())
            },
            None => None,
        }
    }
}

/// The batch size that a request stands for: the one asked for where it is
/// positive, else the default.
pub open spec fn effective_batch_size(batch_size: Option<usize>) -> usize {
    match batch_size {
        Some(n) => if n == 0 {
            SPEECH_STREAM_BATCH_SIZE
        } else {
            n
        },
        None => SPEECH_STREAM_BATCH_SIZE,
    }
}

/// The number of sentences that the next batch takes from `waiting` sentences.
pub open spec fn batch_len(batch_size: usize, waiting: int) -> int {
    if waiting < batch_size {
        waiting
    } else {
        batch_size as int
    }
}

/// A stream that keeps batches of sentences in flight on the shared pool and
/// hands their answers out in the order of the sentences.
#[must_use]
pub struct PiperSpeechStreamBatched<M: PiperModel> {
    provider: Arc<SpeechSynthesisTaskProvider<M>>,
    sentence_phonemes: Vec<String>,
    position: usize,
    channel: SpeechSynthesisChannel,
    batch_size: usize,
}

impl<M: PiperModel + Sync + Send + 'static> PiperSpeechStreamBatched<M> {
    /// The voice that speaks.
    pub closed spec fn model(&self) -> M {
        self.provider.model()
    }

    /// The number of sentences handed to the pool at a time.
    pub closed spec fn batch_size(&self) -> usize {
        self.batch_size
    }

    /// The sentences in flight, the oldest first.
    pub closed spec fn queued(&self) -> Seq<Seq<char>> {
        self.channel.sentences()
    }

    /// True of a stream in good order: its batches are not empty, and each
    /// task in flight hands over nothing but an answer of the voice for its
    /// own sentence. Every stream that `synthesize_batched` makes is so, and
    /// `next` keeps it so.
    pub closed spec fn wf(&self) -> bool {
        self.batch_size > 0 && answer_for_voice(&self.provider.model(), self.channel.tasks())
    }

    /// The sentences not yet handed to the pool.
    pub closed spec fn waiting(&self) -> Seq<Seq<char>> {
        sentences_from(self.sentence_phonemes@, self.position as int)
    }

    /// The sentences whose answers are still to come from the stream, in
    /// reading order: those in flight, then those waiting.
    pub open spec fn remaining(&self) -> Seq<Seq<char>> {
        self.queued() + self.waiting()
    }

    fn new(provider: SpeechSynthesisTaskProvider<M>, batch_size: usize) -> (r: PiperResult<Self>)
        requires
            batch_size > 0,
        ensures
            match r {
                Ok(s) => {
                    &&& s.wf()
                    &&& s.model() == provider.model()
                    &&& s.batch_size() == batch_size
                    &&& provider.model().phonemizes(provider.text(), Ok(s.remaining()))
                    &&& s.queued().len() == batch_len(batch_size, s.remaining().len() as int)
                },
                Err(e) => provider.model().phonemizes(provider.text(), Err(e)),
            },
    {
        match provider.get_phonemes() {
            Ok(sentence_phonemes) => {
                prepare_pool();
                let channel = match SpeechSynthesisChannel::new(batch_size) {
                    Ok(channel) => channel,
                    Err(e) => {
                        return Err(e);
                    },
                };
                let ghost all = sentence_views(sentence_phonemes@);
                let mut instance = Self {
                    provider: Arc::new(provider),
                    sentence_phonemes,
                    position: 0,
                    channel,
                    batch_size,
                };
                proof {
                    assert(all.skip(0) =~= all);
                    assert(instance.remaining() =~= all);
                }
                instance.send_batch();
                Ok(instance)
            },
            Err(e) => Err(e),
        }
    }

    /// Hands the next batch of waiting sentences to the pool.
    fn send_batch(&mut self)
        requires
            old(self).wf(),
        ensures
            final(self).wf(),
            final(self).model() == old(self).model(),
            final(self).batch_size() == old(self).batch_size(),
            final(self).remaining() == old(self).remaining(),
            final(self).queued() == old(self).queued() + old(self).waiting().take(
                batch_len(old(self).batch_size(), old(self).waiting().len() as int),
            ),
    {
        let total = self.sentence_phonemes.len();
        let start = self.position;
        if start >= total {
            proof {
                assert(self.waiting().take(0) =~= Seq::<Seq<char>>::empty());
                assert(self.queued() + Seq::<Seq<char>>::empty() =~= self.queued());
            }
            return ;
        }
        let ghost views = sentence_views(self.sentence_phonemes@);
        let mut next_batch: Vec<String> = Vec::new();
        let mut at: usize = start;
        while at < total && next_batch.len() < self.batch_size
            invariant
                start <= at <= total,
                total == self.sentence_phonemes@.len(),
                views == sentence_views(self.sentence_phonemes@),
                next_batch@.len() == at - start,
                next_batch@.len() <= self.batch_size,
                sentence_views(next_batch@) == views.subrange(start as int, at as int),
            decreases total - at,
        {
            next_batch.push(self.sentence_phonemes[at].clone());
            proof {
                assert(sentence_views(next_batch@) =~= views.subrange(start as int, at + 1));
            }
            at += 1;
        }
        let ghost queued = self.queued();
        let ghost waiting = self.waiting();
        let handle = share(&self.provider);
        self.channel.put(handle, next_batch);
        self.position = at;
        proof {
            let taken = batch_len(self.batch_size, waiting.len() as int);
            assert(taken == at - start);
            assert(views.subrange(start as int, at as int) =~= waiting.take(taken));
            assert(self.waiting() =~= waiting.skip(taken));
            assert(self.remaining() =~= queued + waiting);
        }
    }

    /// Hands another batch to the pool while sentences wait, then gives the
    /// answer of the oldest sentence in flight, waiting for it if need be.
    /// There is an item exactly while sentences remain: an answer of the voice
    /// for the first of them, or the one error that says that the answer could
    /// not be taken from its task. The stream then moves on by one sentence,
    /// and no more sentences are in flight afterwards than were before plus
    /// one batch less one.
    pub fn next(&mut self) -> (item: Option<PiperWaveResult>)
        requires
            old(self).wf(),
        ensures
            final(self).wf(),
            old(self).remaining().len() > 0 ==> old(self).model().speaks(
                old(self).remaining()[0],
                item->Some_0,
            ) || failed_to_obtain(item->Some_0),
            final(self).model() == old(self).model(),
            final(self).batch_size() == old(self).batch_size(),
            old(self).remaining().len() == 0 ==> item is None && final(self).remaining() == old(
                self).remaining(),
            old(self).remaining().len() > 0 ==> item is Some && final(self).remaining() == old(
                self).remaining().skip(1),
            old(self).remaining().len() > 0 ==> final(self).queued().len() + 1 == old(
                self).queued().len() + batch_len(
                old(self).batch_size(),
                old(self).waiting().len() as int,
            ),
    {
        let ghost before = self.remaining();
        self.send_batch();
        let ghost queued = self.queued();
        let ghost waiting = self.waiting();
        let item = self.channel.get();
        proof {
            assert(queued + waiting == before);
            if before.len() > 0 {
                assert(queued.len() > 0);
                assert(queued.skip(1) + waiting =~= before.skip(1));
            } else {
                assert(queued.len() == 0);
            }
        }
        item
    }
}


/// Says which result synthesizing `text` to samples can have with this voice:
/// for empty text no samples and no error; else the error of phonemizing, or
/// what collecting gives from answers of the voice for the sentences of the
/// text, in order.
pub open spec fn synthesis_outcome<M: PiperModel>(
    model: &M,
    text: Seq<char>,
    r: PiperResult<Vec<i16>>,
) -> bool {
    if text.len() == 0 {
        r is Ok && r->Ok_0@.len() == 0
    } else {
        ||| r is Err && model.phonemizes(text, Err(r->Err_0))
        ||| exists|items: Seq<PiperWaveResult>|
            speaks_some_text(model, text, items) && #[trigger] samples_outcome(items, r)
    }
}

/// The three wave parameters of `info` as the container holds them, where each fits.
pub open spec fn wave_parameters(info: PiperWaveInfo) -> Option<(u32, u32, u32)> {
    if info.sample_rate <= u32::MAX && info.num_channels <= u32::MAX && info.sample_width
        <= u32::MAX {
        Some((info.sample_rate as u32, info.num_channels as u32, info.sample_width as u32))
    } else {
        None
    }
}

/// Says which result wrapping `samples` of format `info` in a wave container
/// has: an `OperationError` with the writer's message where the format is not
/// supported or the samples do not fit, else exactly the container.
pub open spec fn wave_buffer_outcome(
    samples: Seq<i16>,
    info: PiperWaveInfo,
    r: PiperResult<Vec<u8>>,
) -> bool {
    match wave_parameters(info) {
        None => r is Err && r->Err_0.is_operation_error(
            WaveWriterError::UnsupportedFormat.rendered(),
        ),
        Some((rate, channels, width)) => if !format_supported(rate, channels, width) {
            r is Err && r->Err_0.is_operation_error(WaveWriterError::UnsupportedFormat.rendered())
        } else if !data_fits(samples.len()) {
            r is Err && r->Err_0.is_operation_error(WaveWriterError::DataTooLong.rendered())
        } else {
            r is Ok && r->Ok_0@ == wave_file(samples, rate, channels)
        },
    }
}

/// Wraps `samples` of format `info` in a wave container.
pub fn wave_buffer_of(samples: &Vec<i16>, info: &PiperWaveInfo) -> (r: PiperResult<Vec<u8>>)
    ensures
        wave_buffer_outcome(samples@, *info, r),
{
    if info.sample_rate > 0xffff_ffff || info.num_channels > 0xffff_ffff || info.sample_width
        > 0xffff_ffff {
        return Err(PiperError::from(WaveWriterError::UnsupportedFormat));
    }
    match write_wave_samples_to_buffer(
        samples,
        info.sample_rate as u32,
        info.num_channels as u32,
        info.sample_width as u32,
    ) {
        Ok(buffer) => Ok(buffer),
        Err(e) => Err(PiperError::from(e)),
    }
}

/// Speech synthesis with one voice, by any of three strategies.
pub struct PiperSpeechSynthesizer<M: PiperModel>(Arc<M>);

impl<M: PiperModel + Sync + Send + 'static> PiperSpeechSynthesizer<M> {
    /// The voice that speaks.
    pub closed spec fn model(&self) -> M {
        *self.0
    }

    pub fn new(model: Arc<M>) -> (r: PiperResult<Self>)
        ensures
            r is Ok,
            r->Ok_0.model() == *model,
    {
        Ok(Self(model))
    }

    fn create_synthesis_task_provider(&self, text: String) -> (p: SpeechSynthesisTaskProvider<M>)
        ensures
            p.model() == self.model(),
            p.text() == text@,
    {
        SpeechSynthesisTaskProvider { model: share(&self.0), text }
    }

    /// A stream over the sentences of `text` that speaks each when asked, or
    /// the error of phonemizing.
    pub fn synthesize_lazy(&self, text: String) -> (r: PiperResult<PiperSpeechStreamLazy<M>>)
        ensures
            match r {
                Ok(s) => s.model() == self.model() && self.model().phonemizes(
                    text@,
                    Ok(s.remaining()),
                ),
                Err(e) => self.model().phonemizes(text@, Err(e)),
            },
    {
        PiperSpeechStreamLazy::new(self.create_synthesis_task_provider(text))
    }

    /// A stream over the answers of the voice for all sentences of `text`,
    /// spoken in parallel and held in the order of the sentences, or the
    /// error of phonemizing.
    pub fn synthesize_parallel(&self, text: String) -> (r: PiperResult<PiperSpeechStreamParallel>)
        ensures
            match r {
                Ok(s) => speaks_some_text(&self.model(), text@, s.pending()),
                Err(e) => self.model().phonemizes(text@, Err(e)),
            },
    {
        PiperSpeechStreamParallel::new(self.create_synthesis_task_provider(text))
    }

    /// A stream over the sentences of `text` with the first batch in flight,
    /// or the error of phonemizing.
    pub fn synthesize_batched(&self, text: String, batch_size: Option<usize>) -> (r: PiperResult<
        PiperSpeechStreamBatched<M>,
    >)
        ensures
            match r {
                Ok(s) => {
                    &&& s.wf()
                    &&& s.model() == self.model()
                    &&& s.batch_size() == effective_batch_size(batch_size)
                    &&& s.batch_size() > 0
                    &&& self.model().phonemizes(text@, Ok(s.remaining()))
                    &&& s.queued().len() == batch_len(s.batch_size(), s.remaining().len() as int)
                },
                Err(e) => self.model().phonemizes(text@, Err(e)),
            },
    {
        let size: usize = match batch_size {
            Some(n) => if n == 0 {
                SPEECH_STREAM_BATCH_SIZE
            } else {
                n
            },
            None => SPEECH_STREAM_BATCH_SIZE,
        };
        PiperSpeechStreamBatched::new(self.create_synthesis_task_provider(text), size)
    }

    /// All samples of `text`, sentence after sentence.
    pub fn synthesize_to_samples(&self, text: String) -> (r: PiperResult<Vec<i16>>)
        ensures
            synthesis_outcome(&self.model(), text@, r),
    {
        if text.as_str().is_empty() {
            return Ok(Vec::new());
        }
        match self.synthesize_parallel(text) {
            Ok(stream) => {
                let r = collect_samples(stream);
                proof {
                    assert(samples_outcome(stream.pending(), r));
                }
                r
            },
            Err(e) => Err(e),
        }
    }

    /// Says which result wrapping `samples` can have with this voice: the
    /// error of asking the voice for its format, or what the writer makes of
    /// the samples in a format that the voice can report.
    pub open spec fn wrapping_outcome(&self, samples: Seq<i16>, r: PiperResult<Vec<u8>>) -> bool {
        ||| r is Err && self.model().reports(Err(r->Err_0))
        ||| exists|info: PiperWaveInfo|
            self.model().reports(Ok(info)) && #[trigger] wave_buffer_outcome(samples, info, r)
    }

    /// Says which result `synthesize_to_wav_buffer` can have: an error of
    /// synthesizing `text` to samples, or what wrapping gives for samples that
    /// synthesizing `text` can give.
    pub open spec fn synthesized_buffer_outcome(
        &self,
        text: Seq<char>,
        r: PiperResult<Vec<u8>>,
    ) -> bool {
        ||| r is Err && synthesis_outcome(&self.model(), text, Err(r->Err_0))
        ||| exists|samples: Vec<i16>|
            #[trigger] synthesis_outcome(&self.model(), text, Ok(samples))
                && self.wrapping_outcome(samples@, r)
    }

    /// The samples of `text` in a wave container.
    pub fn synthesize_to_wav_buffer(&self, text: String) -> (r: PiperResult<Vec<u8>>)
        ensures
            self.synthesized_buffer_outcome(text@, r),
    {
        let samples = match self.synthesize_to_samples(text) {
            Ok(samples) => samples,
            Err(e) => {
                return Err(e);
            },
        };
        let info = match self.0.wave_info() {
            Ok(info) => info,
            Err(e) => {
                proof {
                    assert(self.wrapping_outcome(samples@, Err(e)));
                }
                return Err(e);
            },
        };
        let r = wave_buffer_of(&samples, &info);
        proof {
            assert(wave_buffer_outcome(samples@, info, r));
            assert(self.wrapping_outcome(samples@, r));
        }
        r
    }
}

} // verus!
