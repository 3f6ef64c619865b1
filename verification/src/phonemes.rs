use vstd::prelude::*;
use vstd::string::StringExecFns;

verus! {

/// The phoneme strings of a sequence of sentences, as plain character sequences.
pub open spec fn sentence_views(sentences: Seq<String>) -> Seq<Seq<char>> {
    Seq::new(sentences.len(), |i: int| sentences[i]@)
}

/// The sentences written one after the other with a single space between neighbours.
pub open spec fn joined(sentences: Seq<Seq<char>>) -> Seq<char>
    decreases sentences.len(),
{
    if sentences.len() == 0 {
        Seq::empty()
    } else if sentences.len() == 1 {
        sentences[0]
    } else {
        joined(sentences.drop_last()) + seq![' '] + sentences.last()
    }
}

/// Sentence phonemes in reading order, one string per sentence.
pub struct Phonemes(pub Vec<String>);

impl View for Phonemes {
    type V = Seq<Seq<char>>;

    open spec fn view(&self) -> Seq<Seq<char>> {
        sentence_views(self.0@)
    }
}

impl Phonemes {
    pub fn sentences(&self) -> (v: &Vec<String>)
        ensures
            *v == self.0,
            sentence_views(v@) == self@,
    {
        &self.0
    }

    pub fn to_vec(self) -> (v: Vec<String>)
        ensures
            v == self.0,
            sentence_views(v@) == self@,
    {
        self.0
    }

    pub fn num_sentences(&self) -> (n: usize)
        ensures
            n == self@.len(),
    {
        self.0.len()
    }

    /// All sentences in order, separated by single spaces.
    pub fn to_string(&self) -> (s: String)
        ensures
            s@ == joined(self@),
    {
        let mut out = String::new();
        let mut i: usize = 0;
        while i < self.0.len()
            invariant
                i <= self.0.len(),
                out@ == joined(self@.take(i as int)),
            decreases self.0.len() - i,
        {
            proof {
                let next = self@.take(i + 1);
                assert(next.drop_last() =~= self@.take(i as int));
                assert(next.last() == self.0@[i as int]@);
                reveal_strlit(" ");
                assert(" "@ =~= seq![' ']);
                if i == 0 {
                    assert(joined(next) =~= next[0]);
                    assert(joined(self@.take(0)) =~= Seq::<char>::empty());
                }
            }
            if i > 0 {
                out.append(" ");
            }
            out.append(self.0[i].as_str());
            proof {
                if i == 0 {
                    assert(out@ =~= self.0@[0]@);
                }
            }
            i += 1;
        }
        proof {
            assert(self@.take(self.0.len() as int) =~= self@);
        }
        out
    }
}

impl vstd::std_specs::convert::FromSpecImpl<Vec<String>> for Phonemes {
    open spec fn obeys_from_spec() -> bool {
        true
    }

    open spec fn from_spec(v: Vec<String>) -> Phonemes {
        Phonemes(v)
    }
}

impl From<Vec<String>> for Phonemes {
    fn from(other: Vec<String>) -> (p: Phonemes)
        ensures
            p.0 == other,
    {
        Phonemes(other)
    }
}

} // verus!
