use vstd::prelude::*;

verus! {

/// One pending collaboration invite: `inviter_node_id` has invited
/// `invitee_node_id` to collaborate on the note `note_id`. The entry exists
/// only while the invite is pending; accepting or rejecting removes it.
#[derive(Debug)]
pub struct InviteEntry {
    pub note_id: String,
    pub invitee_node_id: String,
    pub inviter_node_id: String,
}

/// The mathematical value of an `InviteEntry`.
pub struct InviteEntryModel {
    pub note_id: Seq<char>,
    pub invitee_node_id: Seq<char>,
    pub inviter_node_id: Seq<char>,
}

impl View for InviteEntry {
    type V = InviteEntryModel;

    open spec fn view(&self) -> InviteEntryModel {
        InviteEntryModel {
            note_id: self.note_id@,
            invitee_node_id: self.invitee_node_id@,
            inviter_node_id: self.inviter_node_id@,
        }
    }
}

impl Clone for InviteEntry {
    fn clone(&self) -> (r: Self)
        ensures
            r@ == self@,
    {
        InviteEntry {
            note_id: self.note_id.clone(),
            invitee_node_id: self.invitee_node_id.clone(),
            inviter_node_id: self.inviter_node_id.clone(),
        }
    }
}

/// The key under which an invite is stored: the note and the invitee.
pub open spec fn invite_key(e: InviteEntryModel) -> (Seq<char>, Seq<char>) {
    (e.note_id, e.invitee_node_id)
}

/// The map denoted by a sequence of invite entries: later entries win
/// (irrelevant under `wf`).
pub open spec fn invites_map_of(s: Seq<InviteEntryModel>) -> Map<
    (Seq<char>, Seq<char>),
    Seq<char>,
>
    decreases s.len(),
{
    if s.len() == 0 {
        Map::empty()
    } else {
        invites_map_of(s.drop_last()).insert(invite_key(s.last()), s.last().inviter_node_id)
    }
}

proof fn lemma_invites_dom(s: Seq<InviteEntryModel>, k: (Seq<char>, Seq<char>))
    ensures
        invites_map_of(s).contains_key(k) <==> exists|i: int|
            0 <= i < s.len() && invite_key(s[i]) == k,
    decreases s.len(),
{
    if s.len() > 0 {
        lemma_invites_dom(s.drop_last(), k);
        if invite_key(s.last()) != k && invites_map_of(s).contains_key(k) {
            let i = choose|i: int| 0 <= i < s.drop_last().len() && invite_key(s.drop_last()[i]) == k;
            assert(invite_key(s[i]) == k);
        }
        if exists|i: int| 0 <= i < s.len() && invite_key(s[i]) == k {
            let i = choose|i: int| 0 <= i < s.len() && invite_key(s[i]) == k;
            if i < s.len() - 1 {
                assert(invite_key(s.drop_last()[i]) == k);
            }
        }
    }
}

proof fn lemma_invites_index(s: Seq<InviteEntryModel>, i: int)
    requires
        0 <= i < s.len(),
        forall|p: int, q: int| 0 <= p < q < s.len() ==> invite_key(s[p]) != invite_key(s[q]),
    ensures
        invites_map_of(s).contains_key(invite_key(s[i])),
        invites_map_of(s)[invite_key(s[i])] == s[i].inviter_node_id,
    decreases s.len(),
{
    lemma_invites_dom(s, invite_key(s[i]));
    if i < s.len() - 1 {
        assert(s.drop_last()[i] == s[i]);
        lemma_invites_index(s.drop_last(), i);
        assert(invite_key(s.last()) != invite_key(s[i]));
    }
}

proof fn lemma_invites_remove(s: Seq<InviteEntryModel>, i: int)
    requires
        0 <= i < s.len(),
        forall|p: int, q: int| 0 <= p < q < s.len() ==> invite_key(s[p]) != invite_key(s[q]),
    ensures
        invites_map_of(s.remove(i)) =~= invites_map_of(s).remove(invite_key(s[i])),
    decreases s.len(),
{
    lemma_invites_dom(s, invite_key(s[i]));
    if i == s.len() - 1 {
        assert(s.remove(i) =~= s.drop_last());
        lemma_invites_dom(s.drop_last(), invite_key(s[i]));
        assert(!invites_map_of(s.drop_last()).contains_key(invite_key(s[i])));
        assert(invites_map_of(s.drop_last()).remove(invite_key(s[i])) =~= invites_map_of(
            s.drop_last(),
        ));
    } else {
        let t = s.remove(i);
        assert(t.last() == s.last());
        assert(t.drop_last() =~= s.drop_last().remove(i));
        lemma_invites_remove(s.drop_last(), i);
        assert(invite_key(s[i]) != invite_key(s.last()));
        assert(invites_map_of(s.drop_last()).remove(invite_key(s[i])).insert(
            invite_key(s.last()),
            s.last().inviter_node_id,
        ) =~= invites_map_of(s.drop_last()).insert(
            invite_key(s.last()),
            s.last().inviter_node_id,
        ).remove(invite_key(s[i])));
    }
}

proof fn lemma_invites_push(s: Seq<InviteEntryModel>, e: InviteEntryModel)
    ensures
        invites_map_of(s.push(e)) =~= invites_map_of(s).insert(invite_key(e), e.inviter_node_id),
{
    assert(s.push(e).drop_last() =~= s);
    assert(s.push(e).last() == e);
}

/// The pending-invite table: at most one pending invite per note and
/// invitee, recording the inviter. Abstracted as a map from the pair
/// (note id, invitee node) to the inviter node.
pub struct InviteTable {
    entries: Vec<InviteEntry>,
}

impl View for InviteTable {
    type V = Map<(Seq<char>, Seq<char>), Seq<char>>;

    closed spec fn view(&self) -> Map<(Seq<char>, Seq<char>), Seq<char>> {
        invites_map_of(self.entry_models())
    }
}

impl InviteTable {
    /// The stored entries, as mathematical values, in internal order.
    pub closed spec fn entry_models(self) -> Seq<InviteEntryModel> {
        self.entries@.map_values(|e: InviteEntry| e@)
    }

    pub closed spec fn wf(self) -> bool {
        forall|p: int, q: int|
            0 <= p < q < self.entries@.len() ==> invite_key(self.entries@[p]@) != invite_key(
                self.entries@[q]@,
            )
    }

    /// Some invite for this note is pending, whoever it is addressed to.
    pub open spec fn spec_has_note(self, note_id: Seq<char>) -> bool {
        exists|iv: Seq<char>| self@.contains_key((note_id, iv))
    }

    /// The abstraction of the table is exactly the map its entries denote.
    pub proof fn lemma_view_is_entries(self)
        ensures
            self@ == invites_map_of(self.entry_models()),
    {
    }

    pub proof fn lemma_entries(self)
        requires
            self.wf(),
        ensures
            forall|i: int|
                0 <= i < self.entry_models().len() ==> #[trigger] self@.contains_key(
                    invite_key(self.entry_models()[i]),
                ) && self@[invite_key(self.entry_models()[i])]
                    == self.entry_models()[i].inviter_node_id,
            forall|k: (Seq<char>, Seq<char>)|
                self@.contains_key(k) ==> exists|i: int|
                    0 <= i < self.entry_models().len() && invite_key(#[trigger] self.entry_models()[i])
                        == k,
            forall|p: int, q: int|
                0 <= p < q < self.entry_models().len() ==> invite_key(self.entry_models()[p])
                    != invite_key(self.entry_models()[q]),
    {
        assert forall|i: int| 0 <= i < self.entry_models().len() implies #[trigger] self@.contains_key(
            invite_key(self.entry_models()[i]),
        ) && self@[invite_key(self.entry_models()[i])]
            == self.entry_models()[i].inviter_node_id by {
            lemma_invites_index(self.entry_models(), i);
        }
        assert forall|k: (Seq<char>, Seq<char>)| self@.contains_key(k) implies exists|i: int|
            0 <= i < self.entry_models().len() && invite_key(#[trigger] self.entry_models()[i])
                == k by {
            lemma_invites_dom(self.entry_models(), k);
        }
    }

    pub fn new() -> (r: InviteTable)
        ensures
            r.wf(),
            r@ =~= Map::<(Seq<char>, Seq<char>), Seq<char>>::empty(),
    {
        InviteTable { entries: Vec::new() }
    }

    pub fn len(&self) -> (r: usize)
        ensures
            r == self.entry_models().len(),
    {
        self.entries.len()
    }

    pub fn entry_at(&self, i: usize) -> (r: &InviteEntry)
        requires
            i < self.entry_models().len(),
        ensures
            r@ == self.entry_models()[i as int],
    {
        &self.entries[i]
    }

    fn find(&self, note_id: &String, invitee: &String) -> (r: Option<usize>)
        ensures
            match r {
                Some(i) => i < self.entries@.len() && invite_key(self.entries@[i as int]@) == (
                    note_id@,
                    invitee@,
                ),
                None => forall|i: int|
                    0 <= i < self.entries@.len() ==> invite_key(self.entries@[i]@) != (
                        note_id@,
                        invitee@,
                    ),
            },
    {
        let n = self.entries.len();
        let mut i: usize = 0;
        while i < n
            invariant
                i <= n,
                n == self.entries@.len(),
                forall|j: int| 0 <= j < i ==> invite_key(self.entries@[j]@) != (note_id@, invitee@),
            decreases n - i,
        {
            if self.entries[i].note_id == *note_id && self.entries[i].invitee_node_id == *invitee {
                return Some(i);
            }
            i = i + 1;
        }
        None
    }

    pub fn get(&self, note_id: &String, invitee: &String) -> (r: Option<&String>)
        requires
            self.wf(),
        ensures
            match r {
                Some(v) => self@.contains_key((note_id@, invitee@)) && v@ == self@[(
                    note_id@,
                    invitee@,
                )],
                None => !self@.contains_key((note_id@, invitee@)),
            },
    {
        proof {
            lemma_invites_dom(self.entry_models(), (note_id@, invitee@));
        }
        match self.find(note_id, invitee) {
            Some(i) => {
                proof {
                    lemma_invites_index(self.entry_models(), i as int);
                }
                Some(&self.entries[i].inviter_node_id)
            },
            None => None,
        }
    }

    pub fn has_note(&self, note_id: &String) -> (r: bool)
        requires
            self.wf(),
        ensures
            r == self.spec_has_note(note_id@),
    {
        let n = self.entries.len();
        let mut i: usize = 0;
        while i < n
            invariant
                i <= n,
                n == self.entries@.len(),
                self.wf(),
                forall|j: int| 0 <= j < i ==> self.entries@[j]@.note_id != note_id@,
            decreases n - i,
        {
            if self.entries[i].note_id == *note_id {
                proof {
                    lemma_invites_index(self.entry_models(), i as int);
                    assert(self.entry_models()[i as int] == self.entries@[i as int]@);
                    assert(self@.contains_key(
                        (note_id@, self.entries@[i as int]@.invitee_node_id),
                    ));
                }
                return true;
            }
            i = i + 1;
        }
        proof {
            if self.spec_has_note(note_id@) {
                let iv = choose|iv: Seq<char>| self@.contains_key((note_id@, iv));
                lemma_invites_dom(self.entry_models(), (note_id@, iv));
            }
        }
        false
    }

    pub fn insert(&mut self, note_id: String, invitee: String, inviter: String)
        requires
            old(self).wf(),
        ensures
            final(self).wf(),
            final(self)@ =~= old(self)@.insert((note_id@, invitee@), inviter@),
    {
        let ghost s0 = self.entries@;
        let e = InviteEntry { note_id, invitee_node_id: invitee, inviter_node_id: inviter };
        match self.find(&e.note_id, &e.invitee_node_id) {
            Some(i) => {
                proof {
                    lemma_invites_remove(self.entry_models(), i as int);
                    assert(self.entries@.remove(i as int).map_values(|x: InviteEntry| x@)
                        =~= self.entry_models().remove(i as int));
                }
                self.entries.remove(i);
                proof {
                    lemma_invites_push(self.entry_models(), e@);
                    assert(self.entries@.push(e).map_values(|x: InviteEntry| x@)
                        =~= self.entry_models().push(e@));
                    assert forall|p: int, q: int|
                        0 <= p < q < self.entries@.push(e).len() implies invite_key(
                        self.entries@.push(e)[p]@,
                    ) != invite_key(self.entries@.push(e)[q]@) by {
                        if q < self.entries@.len() {
                        } else {
                            assert(self.entries@[p] == if p < i {
                                s0[p]
                            } else {
                                s0[p + 1]
                            });
                        }
                    }
                }
                self.entries.push(e);
            },
            None => {
                proof {
                    lemma_invites_push(self.entry_models(), e@);
                    assert(self.entries@.push(e).map_values(|x: InviteEntry| x@)
                        =~= self.entry_models().push(e@));
                }
                self.entries.push(e);
            },
        }
    }

    pub fn remove(&mut self, note_id: &String, invitee: &String)
        requires
            old(self).wf(),
        ensures
            final(self).wf(),
            final(self)@ =~= old(self)@.remove((note_id@, invitee@)),
    {
        proof {
            lemma_invites_dom(self.entry_models(), (note_id@, invitee@));
        }
        match self.find(note_id, invitee) {
            Some(i) => {
                proof {
                    lemma_invites_remove(self.entry_models(), i as int);
                    assert(self.entries@.remove(i as int).map_values(|x: InviteEntry| x@)
                        =~= self.entry_models().remove(i as int));
                }
                self.entries.remove(i);
            },
            None => {
                proof {
                    assert(old(self)@.remove((note_id@, invitee@)) =~= old(self)@);
                }
            },
        }
    }

    /// The stored entries, cloned, for export.
    pub fn to_entries(&self) -> (r: Vec<InviteEntry>)
        ensures
            r@.map_values(|e: InviteEntry| e@) =~= self.entry_models(),
    {
        let mut out: Vec<InviteEntry> = Vec::new();
        let n = self.entries.len();
        let mut i: usize = 0;
        while i < n
            invariant
                i <= n,
                n == self.entries@.len(),
                out@.len() == i,
                forall|j: int| 0 <= j < i ==> out@[j]@ == self.entries@[j]@,
            decreases n - i,
        {
            out.push(self.entries[i].clone());
            i = i + 1;
        }
        out
    }

    /// Rebuild a table from record entries; a later entry for the same note
    /// and invitee wins.
    pub fn from_entries(entries: &Vec<InviteEntry>) -> (r: InviteTable)
        ensures
            r.wf(),
            r@ =~= invites_map_of(entries@.map_values(|e: InviteEntry| e@)),
    {
        let ghost ms = entries@.map_values(|e: InviteEntry| e@);
        let mut t = InviteTable::new();
        let n = entries.len();
        let mut i: usize = 0;
        while i < n
            invariant
                i <= n,
                n == entries@.len(),
                ms == entries@.map_values(|e: InviteEntry| e@),
                ms.len() == n,
                t.wf(),
                t@ =~= invites_map_of(ms.subrange(0, i as int)),
            decreases n - i,
        {
            let e = entries[i].clone();
            proof {
                assert(ms.subrange(0, i as int + 1).drop_last() =~= ms.subrange(0, i as int));
                assert(ms.subrange(0, i as int + 1).last() == ms[i as int]);
                assert(ms[i as int] == entries@[i as int]@);
            }
            t.insert(e.note_id, e.invitee_node_id, e.inviter_node_id);
            i = i + 1;
        }
        proof {
            assert(ms.subrange(0, n as int) =~= ms);
        }
        t
    }
}

} // verus!
