//! A document: questions keyed by number, one question per number.
use crate::question::{default_sections, Question};
use std::collections::BTreeMap;
use vstd::prelude::*;
use vstd::std_specs::cmp::OrdSpec;
use vstd::std_specs::iter::IteratorSpec;

verus! {

broadcast use vstd::std_specs::btree::group_btree_axioms, vstd::laws_cmp::group_laws_cmp;

/// Whether `s` is strictly increasing, so that no number appears twice.
pub open spec fn strictly_increasing(s: Seq<u32>) -> bool {
    forall|i: int, j: int| 0 <= i < j < s.len() ==> s[i] < s[j]
}

/// The questions of a document, keyed by their numbers.
pub struct Document {
    questions: BTreeMap<u32, Question>,
}

impl Document {
    /// Every question is well formed.
    pub closed spec fn wf(&self) -> bool {
        forall|n: u32| #[trigger] self.questions@.contains_key(n) ==> self.questions@[n].wf()
    }

    /// Each number with its question.
    pub closed spec fn question_map(&self) -> Map<u32, Question> {
        self.questions@
    }

    /// A document with no questions.
    pub fn new() -> (r: Document)
        ensures
            r.wf(),
            r.question_map() == Map::<u32, Question>::empty(),
    {
        Document { questions: BTreeMap::new() }
    }

    /// The question numbers in ascending order.
    pub fn questions(&self) -> (r: Vec<u32>)
        ensures
            strictly_increasing(r@),
            r@.to_set() == self.question_map().dom(),
    {
        let mut r: Vec<u32> = Vec::new();
        let ghost rem = vstd::std_specs::btree::spec_keys_iter(&self.questions).remaining();
        for k in it: self.questions.keys()
            invariant
                it.seq() == rem,
                r@ == rem.subrange(0, it.index() as int).map_values(|x: &u32| *x),
        {
            r.push(*k);
        }
        proof {
            assert(rem.subrange(0, rem.len() as int) =~= rem);
            assert(vstd::laws_cmp::obeys_cmp::<u32>());
            assert(vstd::laws_cmp::obeys_cmp::<&u32>());
            assert(vstd::std_specs::btree::increasing_seq(rem));
            assert(rem.len() == r@.len());
            assert(r@ =~= rem.unref());
            assert forall|i: int, j: int| 0 <= i < j < r@.len() implies r@[i] < r@[j] by {
                assert(<&u32 as OrdSpec>::cmp_spec(&rem[i], &rem[j]) is Less);
                assert(r@[i] == *rem[i]);
            }
        }
        r
    }

    /// The largest question number; `None` when there are no questions.
    pub fn highest(&self) -> (r: Option<u32>)
        ensures
            r is None <==> self.question_map().dom().is_empty(),
            r is Some ==> self.question_map().contains_key(r->0),
            r is Some ==> forall|n: u32| #[trigger]
                self.question_map().contains_key(n) ==> n <= r->0,
    {
        let nums = self.questions();
        if nums.len() == 0 {
            assert(nums@.to_set() =~= Set::<u32>::empty());
            None
        } else {
            let last = nums[nums.len() - 1];
            assert(nums@.to_set().contains(last));
            assert forall|n: u32| #[trigger] self.question_map().contains_key(n) implies n <= last by {
                assert(nums@.to_set().contains(n));
                let i = choose|i: int| 0 <= i < nums@.len() && nums@[i] == n;
                if i != nums@.len() - 1 {
                    assert(nums@[i] < nums@[nums@.len() - 1]);
                }
            }
            Some(last)
        }
    }

    /// The question numbered `number`; `None` when absent.
    pub fn get_question(&self, number: u32) -> (r: Option<&Question>)
        ensures
            r is None <==> !self.question_map().contains_key(number),
            r is Some ==> *r->0 == self.question_map()[number],
    {
        self.questions.get(&number)
    }

    /// Puts a default question under `number`, replacing any question
    /// already there.
    pub fn add_question(&mut self, number: u32)
        requires
            old(self).wf(),
        ensures
            final(self).wf(),
            final(self).question_map() == old(self).question_map().insert(
                number,
                final(self).question_map()[number],
            ),
            final(self).question_map()[number].group_map() == Map::<
                Seq<char>,
                Seq<Seq<char>>,
            >::empty(),
            final(self).question_map()[number].section_entries() == default_sections(),
    {
        self.questions.insert(number, Question::default());
    }

    /// Puts `question` under `number`, replacing any question already there.
    pub fn add_question_with(&mut self, number: u32, question: Question)
        requires
            old(self).wf(),
            question.wf(),
        ensures
            final(self).wf(),
            final(self).question_map() == old(self).question_map().insert(number, question),
    {
        self.questions.insert(number, question);
    }

    /// Drops the question numbered `number`; nothing happens when absent.
    pub fn remove_question(&mut self, number: u32)
        requires
            old(self).wf(),
        ensures
            final(self).wf(),
            final(self).question_map() == old(self).question_map().remove(number),
    {
        self.questions.remove(&number);
    }

    /// Takes the question numbered `number` out of the document.
    pub(crate) fn take_question(&mut self, number: u32) -> (r: Option<Question>)
        requires
            old(self).wf(),
        ensures
            final(self).wf(),
            final(self).question_map() == old(self).question_map().remove(number),
            r is None <==> !old(self).question_map().contains_key(number),
            r is Some ==> r->0 == old(self).question_map()[number] && r->0.wf(),
    {
        self.questions.remove(&number)
    }
}

} // verus!
