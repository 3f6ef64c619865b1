use vstd::prelude::*;
use crate::error::{PiperError, PiperResult};
use crate::phonemes::{sentence_views, Phonemes};
use crate::wave::{PiperWaveInfo, PiperWaveSamples};

verus! {

pub type PiperWaveResult = PiperResult<PiperWaveSamples>;

/// What phonemizing gave, with the sentences as plain character sequences.
pub open spec fn phonemes_outcome(r: PiperResult<Phonemes>) -> Result<Seq<Seq<char>>, PiperError> {
    match r {
        Ok(p) => Ok(p@),
        Err(e) => Err(e),
    }
}

/// A voice: it turns text into sentence phonemes and sentence phonemes into audio.
///
/// A voice may answer differently from call to call, so each operation comes
/// with a relation that says which answers it can give; the operation promises
/// an answer within its relation and nothing more.
pub trait PiperModel {
    /// The answers `phonemize_text` can give for `text`.
    spec fn phonemizes(&self, text: Seq<char>, outcome: Result<Seq<Seq<char>>, PiperError>) -> bool;

    /// The answers `speak_one_sentence` can give for the phonemes of one sentence.
    spec fn speaks(&self, phonemes: Seq<char>, outcome: PiperWaveResult) -> bool;

    /// The answers `speak_batch` can give for the phonemes of several sentences.
    spec fn speaks_batch(
        &self,
        batch: Seq<Seq<char>>,
        outcome: PiperResult<Vec<PiperWaveSamples>>,
    ) -> bool;

    /// The answers `wave_info` can give.
    spec fn reports(&self, outcome: PiperResult<PiperWaveInfo>) -> bool;

    fn phonemize_text(&self, text: &str) -> (r: PiperResult<Phonemes>)
        ensures
            self.phonemizes(text@, phonemes_outcome(r)),
    ;

    fn speak_batch(&self, phoneme_batches: Vec<String>) -> (r: PiperResult<Vec<PiperWaveSamples>>)
        ensures
            self.speaks_batch(sentence_views(phoneme_batches@), r),
    ;

    fn speak_one_sentence(&self, phonemes: String) -> (r: PiperWaveResult)
        ensures
            self.speaks(phonemes@, r),
    ;

    fn wave_info(&self) -> (r: PiperResult<PiperWaveInfo>)
        ensures
            self.reports(r),
    ;
}

/// True where `items` holds, position by position, an answer of the voice for
/// each of `sentences`.
pub open spec fn spoken_in_order<M: PiperModel>(
    model: &M,
    sentences: Seq<Seq<char>>,
    items: Seq<PiperWaveResult>,
) -> bool {
    &&& items.len() == sentences.len()
    &&& forall|i: int|
        0 <= i < items.len() ==> #[trigger] model.speaks(sentences[i], items[i])
}

/// True of a voice that has one answer only for each sentence.
pub open spec fn speaks_deterministically<M: PiperModel>(model: &M) -> bool {
    forall|p: Seq<char>, a: PiperWaveResult, b: PiperWaveResult|
        #![trigger model.speaks(p, a), model.speaks(p, b)]
        model.speaks(p, a) && model.speaks(p, b) ==> a == b
}

/// Two runs over the same sentences with a voice that answers
/// deterministically yield the same items in the same order, whichever
/// strategy produced them.
pub proof fn lemma_strategies_agree<M: PiperModel>(
    model: &M,
    sentences: Seq<Seq<char>>,
    first: Seq<PiperWaveResult>,
    second: Seq<PiperWaveResult>,
)
    requires
        speaks_deterministically(model),
        spoken_in_order(model, sentences, first),
        spoken_in_order(model, sentences, second),
    ensures
        first == second,
{
    assert forall|i: int| 0 <= i < first.len() implies first[i] == second[i] by {
        assert(model.speaks(sentences[i], first[i]));
        assert(model.speaks(sentences[i], second[i]));
    }
    assert(first =~= second);
}

} // verus!
