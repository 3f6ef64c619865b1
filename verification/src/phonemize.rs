use vstd::prelude::*;
use vstd::string::StringExecFns;
use crate::phonemes::{sentence_views, Phonemes};

verus! {

/// How the phonemizer says a run of phonemes ended.
#[derive(Debug, Clone, Copy, PartialEq, Eq, Structural)]
pub enum TerminatorKind {
    ClauseBreak,
    SentenceBreak,
    ParagraphBreak,
    EndOfInput,
}

/// What has been assembled so far: the finished sentences, and the phonemes
/// of the sentence that is still open.
pub struct Assembly {
    pub sentences: Seq<Seq<char>>,
    pub pending: Seq<char>,
}

/// The assembly after one more run of phonemes. A clause break keeps the
/// sentence open and adds a space; every other terminator closes the
/// sentence, which is kept unless it is empty.
pub open spec fn assembly_step(
    a: Assembly,
    fragment: Seq<char>,
    terminator: TerminatorKind,
) -> Assembly {
    let grown = a.pending + fragment;
    if terminator == TerminatorKind::ClauseBreak {
        Assembly { sentences: a.sentences, pending: grown + seq![' '] }
    } else if grown.len() == 0 {
        Assembly { sentences: a.sentences, pending: grown }
    } else {
        Assembly { sentences: a.sentences.push(grown), pending: Seq::empty() }
    }
}

/// True where no finished sentence is empty.
pub open spec fn no_empty_sentence(sentences: Seq<Seq<char>>) -> bool {
    forall|i: int| 0 <= i < sentences.len() ==> (#[trigger] sentences[i]).len() > 0
}

/// A step adds at most one sentence, keeps those that were finished before,
/// in their order, and never finishes an empty one.
pub proof fn lemma_step_keeps_order(a: Assembly, fragment: Seq<char>, terminator: TerminatorKind)
    requires
        no_empty_sentence(a.sentences),
    ensures
        no_empty_sentence(assembly_step(a, fragment, terminator).sentences),
        a.sentences.len() <= assembly_step(a, fragment, terminator).sentences.len()
            <= a.sentences.len() + 1,
        assembly_step(a, fragment, terminator).sentences.take(a.sentences.len() as int)
            == a.sentences,
{
    let next = assembly_step(a, fragment, terminator);
    assert(next.sentences.take(a.sentences.len() as int) =~= a.sentences);
}

/// Puts the runs of phonemes that the phonemizer hands out together into sentences.
pub struct SentenceAssembler {
    sentences: Vec<String>,
    current: String,
}

impl View for SentenceAssembler {
    type V = Assembly;

    closed spec fn view(&self) -> Assembly {
        Assembly { sentences: sentence_views(self.sentences@), pending: self.current@ }
    }
}

impl SentenceAssembler {
    /// An assembler that has seen nothing yet.
    pub fn new() -> (a: Self)
        ensures
            a@.sentences.len() == 0,
            a@.pending.len() == 0,
    {
        Self { sentences: Vec::new(), current: String::new() }
    }

    /// Takes in one run of phonemes and the way it ended.
    pub fn push(&mut self, fragment: &str, terminator: TerminatorKind)
        ensures
            final(self)@ == assembly_step(old(self)@, fragment@, terminator),
    {
        let ghost before = self@;
        self.current.append(fragment);
        match terminator {
            TerminatorKind::ClauseBreak => {
                proof {
                    reveal_strlit(" ");
                    assert(" "@ =~= seq![' ']);
                }
                self.current.append(" ");
            },
            _ => {
                if !self.current.as_str().is_empty() {
                    let mut finished = String::new();
                    std::mem::swap(&mut self.current, &mut finished);
                    self.sentences.push(finished);
                    proof {
                        assert(self@.sentences =~= before.sentences.push(
                            before.pending + fragment@,
                        ));
                        assert(self@.pending =~= Seq::<char>::empty());
                    }
                }
            },
        }
    }

    /// The sentences finished so far.
    pub fn into_phonemes(self) -> (p: Phonemes)
        ensures
            p@ == self@.sentences,
    {
        Phonemes(self.sentences)
    }
}

} // verus!
