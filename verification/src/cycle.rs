use vstd::prelude::*;
use vstd::string::*;

verus! {

/// True when some entry of the vector holds exactly the text `s`.
pub open spec fn spec_contains_text(vs: Seq<String>, s: Seq<char>) -> bool {
    exists|k: int| 0 <= k < vs.len() && vs[k]@ == s
}

/// Whether one text equals some entry of a vector of texts.
pub fn contains_string(v: &Vec<String>, s: &String) -> (r: bool)
    ensures
        r == spec_contains_text(v@, s@),
{
    let mut i: usize = 0;
    while i < v.len()
        invariant
            i <= v@.len(),
            forall|k: int| 0 <= k < i ==> v@[k]@ != s@,
        decreases v@.len() - i,
    {
        if v[i].eq(s) {
            return true;
        }
        i += 1;
    }
    false
}

/// Bounded cycle detection over serialized count signatures. Until a
/// signature repeats, signatures are cached, and the cache is emptied
/// whenever it outgrows its limit (so a cycle can be missed and found again
/// later). From the first repeat on, every rendered sentence is recorded;
/// the detector reports completion when the current sentence was already
/// recorded, and the recorded sentences are then one full period of the
/// cycle.
pub struct CycleDetector {
    pub signatures: Vec<String>,
    pub recording: bool,
    pub recorded: Vec<String>,
    pub cache_limit: usize,
}

impl CycleDetector {
    pub fn new(cache_limit: usize) -> (r: CycleDetector)
        ensures
            r.signatures@.len() == 0,
            !r.recording,
            r.recorded@.len() == 0,
            r.cache_limit == cache_limit,
    {
        CycleDetector { signatures: Vec::new(), recording: false, recorded: Vec::new(), cache_limit }
    }

    /// One observation of the search: the signature of the counts reached
    /// by the latest step and the sentence rendered from them. Returns true
    /// exactly when the sentence closes a recorded cycle.
    pub fn observe(&mut self, sig: String, sentence: String) -> (complete: bool)
        ensures
            final(self).cache_limit == old(self).cache_limit,
            complete ==> old(self).recording && spec_contains_text(
                old(self).recorded@,
                sentence@,
            ) && *final(self) == *old(self),
            old(self).recording && spec_contains_text(old(self).recorded@, sentence@)
                ==> complete,
            old(self).recording && !spec_contains_text(old(self).recorded@, sentence@) ==> {
                &&& !complete
                &&& final(self).recording
                &&& final(self).recorded@ == old(self).recorded@.push(sentence)
                &&& final(self).signatures@ == old(self).signatures@
            },
            !old(self).recording && spec_contains_text(old(self).signatures@, sig@) ==> {
                &&& !complete
                &&& final(self).recording
                &&& final(self).recorded@.len() == 1
                &&& final(self).recorded@[0] == sentence
                &&& final(self).signatures@ == old(self).signatures@
            },
            !old(self).recording && !spec_contains_text(old(self).signatures@, sig@) ==> {
                &&& !complete
                &&& !final(self).recording
                &&& final(self).recorded@ == old(self).recorded@
                &&& final(self).signatures@ == (if old(self).signatures@.len() + 1 > old(
                    self,
                ).cache_limit {
                    Seq::<String>::empty()
                } else {
                    old(self).signatures@.push(sig)
                })
            },
    {
        if self.recording {
            if contains_string(&self.recorded, &sentence) {
                return true;
            }
            self.recorded.push(sentence);
            false
        } else {
            if contains_string(&self.signatures, &sig) {
                self.recording = true;
                self.recorded = Vec::new();
                self.recorded.push(sentence);
            } else {
                self.signatures.push(sig);
                if self.signatures.len() > self.cache_limit {
                    self.signatures = Vec::new();
                    proof {
                        assert(self.signatures@ =~= Seq::<String>::empty());
                    }
                }
            }
            false
        }
    }
}

} // verus!
