use vstd::prelude::*;

use crate::state::State;
use crate::types::{
    contains_string, remove_string_all, Invite, Note, NoteError, NoteMetadataModel,
};

verus! {

impl State {
    /// Record a pending invite for `node_id` to collaborate on the note,
    /// keyed by this node as the inviter, and return the materialized note.
    pub fn invite_collaborator(&mut self, note_id: &String, node_id: String, our_node: &String)
        -> (r: Result<Note, NoteError>)
        requires
            old(self).wf(),
        ensures
            final(self).wf(),
            final(self).drive == old(self).drive,
            final(self).folders == old(self).folders,
            final(self).notes == old(self).notes,
            final(self).root_items == old(self).root_items,
            final(self).contents == old(self).contents,
            if old(self).notes@.contains_key(note_id@) {
                match r {
                    Ok(n) => {
                        &&& n@ == old(self).spec_full_note(old(self).notes@[note_id@])
                        &&& final(self).collaboration_invites@ =~= old(
                            self,
                        ).collaboration_invites@.insert((note_id@, node_id@), our_node@)
                    },
                    Err(_) => false,
                }
            } else {
                r == Err::<Note, NoteError>(NoteError::NoteNotFound) && *final(self) == *old(self)
            },
    {
        let metadata = match self.notes.get(note_id) {
            Some(m) => m.clone(),
            None => {
                return Err(NoteError::NoteNotFound);
            },
        };
        self.collaboration_invites.insert(note_id.clone(), node_id, our_node.clone());
        Ok(self.get_full_note(&metadata))
    }

    /// Remove a node from a note's accepted collaborators and drop any
    /// pending invite addressed to it, and return the materialized note.
    pub fn remove_collaborator(&mut self, note_id: &String, node_id: &String) -> (r: Result<
        Note,
        NoteError,
    >)
        requires
            old(self).wf(),
        ensures
            final(self).wf(),
            final(self).drive == old(self).drive,
            final(self).folders == old(self).folders,
            final(self).root_items == old(self).root_items,
            final(self).contents == old(self).contents,
            if old(self).notes@.contains_key(note_id@) {
                match r {
                    Ok(n) => {
                        &&& n@ == old(self).spec_full_note(
                            NoteMetadataModel {
                                collaborators: old(self).notes@[note_id@].collaborators.filter(
                                    |c: Seq<char>| c != node_id@,
                                ),
                                ..old(self).notes@[note_id@]
                            },
                        )
                        &&& final(self).notes@ =~= old(self).notes@.insert(
                            note_id@,
                            NoteMetadataModel {
                                collaborators: old(self).notes@[note_id@].collaborators.filter(
                                    |c: Seq<char>| c != node_id@,
                                ),
                                ..old(self).notes@[note_id@]
                            },
                        )
                        &&& final(self).collaboration_invites@ =~= old(
                            self,
                        ).collaboration_invites@.remove((note_id@, node_id@))
                    },
                    Err(_) => false,
                }
            } else {
                r == Err::<Note, NoteError>(NoteError::NoteNotFound) && *final(self) == *old(self)
            },
    {
        match self.notes.get(note_id) {
            Some(found) => {
                let mut metadata = found.clone();
                metadata.collaborators = remove_string_all(&metadata.collaborators, node_id);
                self.notes.insert(note_id.clone(), metadata.clone());
                self.collaboration_invites.remove(note_id, node_id);
                Ok(self.get_full_note(&metadata))
            },
            None => Err(NoteError::NoteNotFound),
        }
    }

    /// Accept a pending invite addressed to this node: the node joins the
    /// note's collaborators (at most once) and the invite is cleared. The
    /// recorded inviter must match.
    pub fn accept_invite(&mut self, note_id: &String, inviter_node_id: &String, our_node: &String)
        -> (r: Result<Note, NoteError>)
        requires
            old(self).wf(),
        ensures
            final(self).wf(),
            final(self).drive == old(self).drive,
            final(self).folders == old(self).folders,
            final(self).root_items == old(self).root_items,
            final(self).contents == old(self).contents,
            if !old(self).collaboration_invites.spec_has_note(note_id@) {
                r == Err::<Note, NoteError>(NoteError::NoInvite) && *final(self) == *old(self)
            } else if !(old(self).collaboration_invites@.contains_key((note_id@, our_node@))
                && old(self).collaboration_invites@[(note_id@, our_node@)] == inviter_node_id@) {
                r == Err::<Note, NoteError>(NoteError::InvalidInviter) && *final(self) == *old(
                    self,
                )
            } else if !old(self).notes@.contains_key(note_id@) {
                r == Err::<Note, NoteError>(NoteError::NoteNotFound) && *final(self) == *old(self)
            } else {
                match r {
                    Ok(n) => {
                        &&& n@ == old(self).spec_full_note(
                            NoteMetadataModel {
                                collaborators: if old(
                                    self,
                                ).notes@[note_id@].collaborators.contains(our_node@) {
                                    old(self).notes@[note_id@].collaborators
                                } else {
                                    old(self).notes@[note_id@].collaborators.push(our_node@)
                                },
                                ..old(self).notes@[note_id@]
                            },
                        )
                        &&& final(self).notes@ =~= old(self).notes@.insert(note_id@, crate::types::meta_of_note(n@))
                        &&& final(self).collaboration_invites@ =~= old(
                            self,
                        ).collaboration_invites@.remove((note_id@, our_node@))
                    },
                    Err(_) => false,
                }
            },
    {
        if !self.collaboration_invites.has_note(note_id) {
            return Err(NoteError::NoInvite);
        }
        let matches_inviter = match self.collaboration_invites.get(note_id, our_node) {
            Some(inviter) => *inviter == *inviter_node_id,
            None => false,
        };
        if !matches_inviter {
            return Err(NoteError::InvalidInviter);
        }
        match self.notes.get(note_id) {
            Some(found) => {
                let mut metadata = found.clone();
                if !contains_string(&metadata.collaborators, our_node) {
                    let ghost before = metadata.collaborators@;
                    metadata.collaborators.push(our_node.clone());
                    proof {
                        assert(crate::types::strings_view(metadata.collaborators@)
                            =~= crate::types::strings_view(before).push(our_node@));
                    }
                }
                self.notes.insert(note_id.clone(), metadata.clone());
                self.collaboration_invites.remove(note_id, our_node);
                Ok(self.get_full_note(&metadata))
            },
            None => Err(NoteError::NoteNotFound),
        }
    }

    /// Reject a pending invite addressed to this node: the invite is
    /// cleared and the collaborator list is untouched. The recorded inviter
    /// must match.
    pub fn reject_invite(&mut self, note_id: &String, inviter_node_id: &String, our_node: &String)
        -> (r: Result<(), NoteError>)
        requires
            old(self).wf(),
        ensures
            final(self).wf(),
            final(self).drive == old(self).drive,
            final(self).folders == old(self).folders,
            final(self).notes == old(self).notes,
            final(self).root_items == old(self).root_items,
            final(self).contents == old(self).contents,
            if !old(self).collaboration_invites.spec_has_note(note_id@) {
                r == Err::<(), NoteError>(NoteError::NoInvite) && *final(self) == *old(self)
            } else if !(old(self).collaboration_invites@.contains_key((note_id@, our_node@))
                && old(self).collaboration_invites@[(note_id@, our_node@)] == inviter_node_id@) {
                r == Err::<(), NoteError>(NoteError::InvalidInviter) && *final(self) == *old(
                    self,
                )
            } else {
                r == Ok::<(), NoteError>(()) && final(self).collaboration_invites@ =~= old(
                    self,
                ).collaboration_invites@.remove((note_id@, our_node@))
            },
    {
        if !self.collaboration_invites.has_note(note_id) {
            return Err(NoteError::NoInvite);
        }
        let matches_inviter = match self.collaboration_invites.get(note_id, our_node) {
            Some(inviter) => *inviter == *inviter_node_id,
            None => false,
        };
        if !matches_inviter {
            return Err(NoteError::InvalidInviter);
        }
        self.collaboration_invites.remove(note_id, our_node);
        Ok(())
    }

    /// Every pending invite addressed to this node whose note still exists,
    /// carrying the note's name for display.
    #[verifier::rlimit(100)]
    pub fn get_invites(&self, our_node: &String) -> (r: Vec<Invite>)
        requires
            self.wf(),
        ensures
            forall|i: int|
                0 <= i < r@.len() ==> {
                    &&& self.collaboration_invites@.contains_key(
                        (#[trigger] r@[i]@.note_id, our_node@),
                    )
                    &&& self.collaboration_invites@[(r@[i]@.note_id, our_node@)]
                        == r@[i]@.inviter_node_id
                    &&& self.notes@.contains_key(r@[i]@.note_id)
                    &&& r@[i]@.note_name == self.notes@[r@[i]@.note_id].name
                },
            forall|k: (Seq<char>, Seq<char>)|
                #[trigger] self.collaboration_invites@.contains_key(k) && k.1 == our_node@
                    && self.notes@.contains_key(k.0) ==> exists|i: int|
                    0 <= i < r@.len() && r@[i]@.note_id == k.0,
            forall|i: int, j: int| 0 <= i < j < r@.len() ==> r@[i]@.note_id != r@[j]@.note_id,
    {
        let mut out: Vec<Invite> = Vec::new();
        let n = self.collaboration_invites.len();
        let ghost ems = self.collaboration_invites.entry_models();
        let mut i: usize = 0;
        while i < n
            invariant
                i <= n,
                self.wf(),
                n == ems.len(),
                ems == self.collaboration_invites.entry_models(),
                forall|p: int|
                    0 <= p < out@.len() ==> {
                        &&& self.collaboration_invites@.contains_key(
                            (#[trigger] out@[p]@.note_id, our_node@),
                        )
                        &&& self.collaboration_invites@[(out@[p]@.note_id, our_node@)]
                            == out@[p]@.inviter_node_id
                        &&& self.notes@.contains_key(out@[p]@.note_id)
                        &&& out@[p]@.note_name == self.notes@[out@[p]@.note_id].name
                    },
                forall|j: int|
                    0 <= j < i && (#[trigger] ems[j]).invitee_node_id == our_node@
                        && self.notes@.contains_key(ems[j].note_id) ==> exists|p: int|
                        0 <= p < out@.len() && out@[p]@.note_id == ems[j].note_id,
                forall|p: int|
                    #![trigger out@[p]]
                    0 <= p < out@.len() ==> exists|j: int|
                        0 <= j < i && (#[trigger] ems[j]).note_id == out@[p]@.note_id
                            && ems[j].invitee_node_id == our_node@,
                forall|p: int, q: int|
                    0 <= p < q < out@.len() ==> out@[p]@.note_id != out@[q]@.note_id,
            decreases n - i,
        {
            let entry = self.collaboration_invites.entry_at(i);
            if entry.invitee_node_id == *our_node {
                match self.notes.get(&entry.note_id) {
                    Some(metadata) => {
                        proof {
                            self.collaboration_invites.lemma_entries();
                            assert(crate::invites::invite_key(ems[i as int]) == (
                                entry@.note_id,
                                our_node@,
                            ));
                            assert forall|p: int| 0 <= p < out@.len() implies out@[p]@.note_id
                                != entry@.note_id by {
                                let j = choose|j: int|
                                    0 <= j < i && (#[trigger] ems[j]).note_id == out@[p]@.note_id
                                        && ems[j].invitee_node_id == our_node@;
                                if out@[p]@.note_id == entry@.note_id {
                                    assert(crate::invites::invite_key(ems[j])
                                        == crate::invites::invite_key(ems[i as int]));
                                }
                            }
                        }
                        let ghost out0 = out@;
                        out.push(Invite {
                            note_id: entry.note_id.clone(),
                            inviter_node_id: entry.inviter_node_id.clone(),
                            note_name: metadata.name.clone(),
                        });
                        proof {
                            assert forall|j: int|
                                0 <= j < i + 1 && (#[trigger] ems[j]).invitee_node_id == our_node@
                                    && self.notes@.contains_key(ems[j].note_id) implies exists|
                                p: int,
                            | 0 <= p < out@.len() && out@[p]@.note_id == ems[j].note_id by {
                                if j < i {
                                    let p = choose|p: int|
                                        0 <= p < out0.len() && out0[p]@.note_id == ems[j].note_id;
                                    assert(out@[p]@.note_id == ems[j].note_id);
                                } else {
                                    assert(out@[out@.len() - 1]@.note_id == ems[j].note_id);
                                }
                            }
                        }
                    },
                    None => {
                        proof {
                            assert(!self.notes@.contains_key(ems[i as int].note_id));
                        }
                    },
                }
            } else {
                proof {
                    assert(ems[i as int].invitee_node_id != our_node@);
                }
            }
            i = i + 1;
        }
        proof {
            self.collaboration_invites.lemma_entries();
            assert forall|k: (Seq<char>, Seq<char>)|
                #[trigger] self.collaboration_invites@.contains_key(k) && k.1 == our_node@
                    && self.notes@.contains_key(k.0) implies exists|p: int|
                0 <= p < out@.len() && out@[p]@.note_id == k.0 by {
                let j = choose|j: int|
                    0 <= j < ems.len() && crate::invites::invite_key(#[trigger] ems[j]) == k;
                assert(ems[j].invitee_node_id == our_node@);
                assert(ems[j].note_id == k.0);
            }
        }
        out
    }
}

/// Invite then accept: after an invite for node `b` on note `n` from
/// inviter `a`, and `b`'s acceptance naming exactly that inviter, `b`
/// stands in the note's collaborators and no invite for `(n, b)` is
/// pending. The premises are the two operations' success equations; the
/// acceptance's preconditions are shown to hold after the invite.
pub proof fn lemma_invite_then_accept(
    s0: State,
    s1: State,
    s2: State,
    n: Seq<char>,
    a: Seq<char>,
    b: Seq<char>,
)
    requires
        s0.wf(),
        s0.notes@.contains_key(n),
        s1.notes@ == s0.notes@,
        s1.collaboration_invites@ == s0.collaboration_invites@.insert((n, b), a),
        s2.notes@ == s1.notes@.insert(
            n,
            NoteMetadataModel {
                collaborators: if s1.notes@[n].collaborators.contains(b) {
                    s1.notes@[n].collaborators
                } else {
                    s1.notes@[n].collaborators.push(b)
                },
                ..s1.notes@[n]
            },
        ),
        s2.collaboration_invites@ == s1.collaboration_invites@.remove((n, b)),
    ensures
        s1.collaboration_invites.spec_has_note(n),
        s1.collaboration_invites@.contains_key((n, b)) && s1.collaboration_invites@[(n, b)] == a,
        s2.notes@.contains_key(n),
        s2.notes@[n].collaborators.contains(b),
        !s2.collaboration_invites@.contains_key((n, b)),
{
    assert(s1.collaboration_invites@.contains_key((n, b)));
    if !s1.notes@[n].collaborators.contains(b) {
        let cs = s1.notes@[n].collaborators.push(b);
        assert(cs[cs.len() - 1] == b);
    }
}

/// Invite then reject: after an invite for node `b` on note `n` from
/// inviter `a`, and `b`'s rejection naming exactly that inviter, the
/// note's collaborators are unchanged and no invite for `(n, b)` is
/// pending.
pub proof fn lemma_invite_then_reject(
    s0: State,
    s1: State,
    s2: State,
    n: Seq<char>,
    a: Seq<char>,
    b: Seq<char>,
)
    requires
        s0.wf(),
        s0.notes@.contains_key(n),
        s1.notes@ == s0.notes@,
        s1.collaboration_invites@ == s0.collaboration_invites@.insert((n, b), a),
        s2.notes@ == s1.notes@,
        s2.collaboration_invites@ == s1.collaboration_invites@.remove((n, b)),
    ensures
        s1.collaboration_invites.spec_has_note(n),
        s1.collaboration_invites@.contains_key((n, b)) && s1.collaboration_invites@[(n, b)] == a,
        s2.notes@[n].collaborators == s0.notes@[n].collaborators,
        !s2.collaboration_invites@.contains_key((n, b)),
{
    assert(s1.collaboration_invites@.contains_key((n, b)));
}

} // verus!
