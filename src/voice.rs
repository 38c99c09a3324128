//! Voice profiles, one per user id.
use crate::text::{chars_of, same_chars, string_of};
use vstd::prelude::*;

verus! {

/// A user's voice profile.
pub struct VoiceProfile {
    pub user_id: String,
    pub name: String,
    pub created_at: u64,
}

/// Profile ids are pairwise distinct.
pub open spec fn user_ids_unique(ps: Seq<VoiceProfile>) -> bool {
    forall|a: int, b: int| 0 <= a < b < ps.len() ==> ps[a].user_id@ != ps[b].user_id@
}

/// Holds the voice profiles, at most one per user id, and where they are kept.
pub struct VoiceTrainingManager {
    profiles: Vec<VoiceProfile>,
    storage_path: String,
}

impl VoiceTrainingManager {
    pub closed spec fn profiles(&self) -> Seq<VoiceProfile> {
        self.profiles@
    }

    pub closed spec fn path(&self) -> Seq<char> {
        self.storage_path@
    }

    pub open spec fn wf(&self) -> bool {
        user_ids_unique(self.profiles())
    }

    /// No profiles, kept under `storage_path`.
    pub fn new(storage_path: &str) -> (r: VoiceTrainingManager)
        ensures
            r.wf(),
            r.profiles().len() == 0,
            r.path() == storage_path@,
    {
        VoiceTrainingManager { profiles: Vec::new(), storage_path: string_of(&chars_of(storage_path)) }
    }

    /// Where the profiles are kept.
    pub fn storage_path(&self) -> (r: &String)
        ensures
            r@ == self.path(),
    {
        &self.storage_path
    }

    fn position(&self, user_id: &str) -> (r: Option<usize>)
        ensures
            match r {
                Some(i) => i < self.profiles().len() && self.profiles()[i as int].user_id@ == user_id@,
                None => forall|i: int| 0 <= i < self.profiles().len() ==> self.profiles()[i].user_id@ != user_id@,
            },
    {
        let target = chars_of(user_id);
        let mut i: usize = 0;
        while i < self.profiles.len()
            invariant
                i <= self.profiles@.len(),
                target@ == user_id@,
                forall|q: int| 0 <= q < i ==> self.profiles@[q].user_id@ != user_id@,
            decreases self.profiles@.len() - i,
        {
            if same_chars(&chars_of(self.profiles[i].user_id.as_str()), &target) {
                return Some(i);
            }
            i = i + 1;
        }
        None
    }

    /// The profile of `user_id`, if there is one.
    pub fn get_profile(&self, user_id: &str) -> (r: Option<&VoiceProfile>)
        ensures
            match r {
                Some(p) => self.profiles().contains(*p) && p.user_id@ == user_id@,
                None => forall|i: int| 0 <= i < self.profiles().len() ==> self.profiles()[i].user_id@ != user_id@,
            },
    {
        match self.position(user_id) {
            Some(i) => Some(&self.profiles[i]),
            None => None,
        }
    }

    /// Records a profile for `user_id`, replacing the one it had.
    pub fn create_profile(&mut self, user_id: String, name: String, created_at: u64)
        requires
            old(self).wf(),
        ensures
            final(self).wf(),
            final(self).path() == old(self).path(),
            exists|i: int| 0 <= i < final(self).profiles().len() && #[trigger] final(self).profiles()[i].user_id@ == user_id@
                && final(self).profiles()[i].name@ == name@ && final(self).profiles()[i].created_at == created_at,
            forall|i: int| 0 <= i < old(self).profiles().len() && old(self).profiles()[i].user_id@ != user_id@
                ==> final(self).profiles().contains(#[trigger] old(self).profiles()[i]),
            forall|i: int| 0 <= i < final(self).profiles().len() && final(self).profiles()[i].user_id@ != user_id@
                ==> old(self).profiles().contains(#[trigger] final(self).profiles()[i]),
    {
        let ghost uid = user_id@;
        let ghost nm = name@;
        let ghost before = self.profiles@;
        let profile = VoiceProfile { user_id, name, created_at };
        match self.position(profile.user_id.as_str()) {
            Some(i) => {
                self.profiles.set(i, profile);
                proof {
                    let after = self.profiles@;
                    assert(after[i as int].user_id@ == uid);
                    assert forall|k: int| 0 <= k < before.len() && before[k].user_id@ != uid implies after.contains(#[trigger] before[k]) by {
                        assert(after[k] == before[k]);
                    }
                    assert forall|k: int| 0 <= k < after.len() && after[k].user_id@ != uid implies before.contains(#[trigger] after[k]) by {
                        assert(after[k] == before[k]);
                    }
                    assert forall|a: int, b: int| 0 <= a < b < after.len() implies after[a].user_id@ != after[b].user_id@ by {
                        assert(before[a].user_id@ != before[b].user_id@);
                    }
                }
            },
            None => {
                self.profiles.push(profile);
                proof {
                    let after = self.profiles@;
                    let n = before.len() as int;
                    assert(after[n].user_id@ == uid);
                    assert forall|k: int| 0 <= k < before.len() && before[k].user_id@ != uid implies after.contains(#[trigger] before[k]) by {
                        assert(after[k] == before[k]);
                    }
                    assert forall|k: int| 0 <= k < after.len() && after[k].user_id@ != uid implies before.contains(#[trigger] after[k]) by {
                        assert(after[k] == before[k]);
                    }
                    assert forall|a: int, b: int| 0 <= a < b < after.len() implies after[a].user_id@ != after[b].user_id@ by {
                        if b < n {
                            assert(before[a].user_id@ != before[b].user_id@);
                        }
                    }
                }
            },
        }
    }
}

} // verus!
