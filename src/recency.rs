use vstd::prelude::*;

verus! {

/// The senders that triggered the bot's response since the last clear.
///
/// Identifiers are kept in the order they were recorded; an identifier that
/// is recorded twice appears twice, so `len` counts recordings, not senders.
pub struct RecencySet {
    ids: Vec<String>,
}

impl View for RecencySet {
    type V = Seq<Seq<char>>;

    closed spec fn view(&self) -> Seq<Seq<char>> {
        self.ids@.map_values(|s: String| s@)
    }
}

impl RecencySet {
    /// An empty set.
    pub fn new() -> (r: RecencySet)
        ensures
            r@ == Seq::<Seq<char>>::empty(),
    {
        let r = RecencySet { ids: Vec::new() };
        assert(r@ =~= Seq::<Seq<char>>::empty());
        r
    }

    /// Number of recordings since the last clear.
    pub fn len(&self) -> (r: usize)
        ensures
            r == self@.len(),
    {
        self.ids.len()
    }

    /// Whether nothing was recorded since the last clear.
    pub fn is_empty(&self) -> (r: bool)
        ensures
            r == (self@.len() == 0),
    {
        self.ids.len() == 0
    }

    /// Whether `id` was recorded since the last clear.
    pub fn contains(&self, id: &String) -> (r: bool)
        ensures
            r == self@.contains(id@),
    {
        let n = self.ids.len();
        let mut i: usize = 0;
        while i < n
            invariant
                n == self.ids@.len(),
                i <= n,
                forall|j: int| 0 <= j < i ==> self@[j] != id@,
            decreases n - i,
        {
            if self.ids[i] == *id {
                assert(self@[i as int] == id@);
                return true;
            }
            i = i + 1;
        }
        assert(!self@.contains(id@)) by {
            if self@.contains(id@) {
                let k = choose|k: int| 0 <= k < self@.len() && self@[k] == id@;
                assert(self@[k] != id@);
            }
        }
        false
    }

    /// Records `id`, whether or not it is already present.
    pub fn insert(&mut self, id: String)
        ensures
            final(self)@ == old(self)@.push(id@),
    {
        self.ids.push(id);
        assert(self@ =~= old(self)@.push(id@));
    }

    /// Forgets every recording and returns how many there were.
    pub fn clear(&mut self) -> (r: usize)
        ensures
            r == old(self)@.len(),
            final(self)@ == Seq::<Seq<char>>::empty(),
    {
        let n = self.ids.len();
        self.ids.clear();
        assert(self@ =~= Seq::<Seq<char>>::empty());
        n
    }
}

/// One operation on a recency set, as a caller serialised by the lock applies it.
pub enum SetOp {
    Insert(Seq<char>),
    Clear,
}

/// The contents after applying `ops` in order to a set holding `start`,
/// each step as `insert` and `clear` state it.
pub open spec fn replay(start: Seq<Seq<char>>, ops: Seq<SetOp>) -> Seq<Seq<char>>
    decreases ops.len(),
{
    if ops.len() == 0 {
        start
    } else {
        let prev = replay(start, ops.drop_last());
        match ops.last() {
            SetOp::Insert(id) => prev.push(id),
            SetOp::Clear => Seq::empty(),
        }
    }
}

/// `id` was inserted at some point of `ops` after which no clear came.
pub open spec fn inserted_since_last_clear(ops: Seq<SetOp>, id: Seq<char>) -> bool {
    exists|i: int|
        0 <= i < ops.len() && ops[i] == SetOp::Insert(id) && forall|j: int|
            i < j < ops.len() ==> ops[j] != SetOp::Clear
}

/// Starting from a new set, after any sequence of inserts and clears an
/// identifier is a member exactly when it was inserted after the last clear:
/// identifiers never inserted, or inserted only before that clear, are not.
pub proof fn lemma_membership_since_last_clear(ops: Seq<SetOp>, id: Seq<char>)
    ensures
        replay(Seq::empty(), ops).contains(id) <==> inserted_since_last_clear(ops, id),
    decreases ops.len(),
{
    if ops.len() > 0 {
        let prefix = ops.drop_last();
        let last = ops.len() - 1;
        lemma_membership_since_last_clear(prefix, id);
        let prev = replay(Seq::empty(), prefix);
        match ops.last() {
            SetOp::Insert(x) => {
                assert(replay(Seq::empty(), ops) == prev.push(x));
                assert(ops[last] == SetOp::Insert(x));
                if replay(Seq::empty(), ops).contains(id) {
                    let k = choose|k: int| 0 <= k < prev.push(x).len() && prev.push(x)[k] == id;
                    if k == prev.len() {
                        assert(x == id);
                    } else {
                        assert(prev.contains(id)) by {
                            assert(prev[k] == id);
                        }
                        let i = choose|i: int|
                            0 <= i < prefix.len() && prefix[i] == SetOp::Insert(id) && forall|j: int|
                                i < j < prefix.len() ==> prefix[j] != SetOp::Clear;
                        assert(ops[i] == SetOp::Insert(id));
                        assert forall|j: int| i < j < ops.len() implies ops[j] != SetOp::Clear by {
                            if j < prefix.len() {
                                assert(ops[j] == prefix[j]);
                            }
                        }
                    }
                }
                if inserted_since_last_clear(ops, id) {
                    let i = choose|i: int|
                        0 <= i < ops.len() && ops[i] == SetOp::Insert(id) && forall|j: int|
                            i < j < ops.len() ==> ops[j] != SetOp::Clear;
                    if i == last {
                        assert(prev.push(x)[prev.len() as int] == id);
                    } else {
                        assert(prefix[i] == SetOp::Insert(id));
                        assert forall|j: int| i < j < prefix.len() implies prefix[j] != SetOp::Clear by {
                            assert(ops[j] == prefix[j]);
                        }
                        assert(prev.contains(id));
                        let k = choose|k: int| 0 <= k < prev.len() && prev[k] == id;
                        assert(prev.push(x)[k] == id);
                    }
                }
            },
            SetOp::Clear => {
                if inserted_since_last_clear(ops, id) {
                    let i = choose|i: int|
                        0 <= i < ops.len() && ops[i] == SetOp::Insert(id) && forall|j: int|
                            i < j < ops.len() ==> ops[j] != SetOp::Clear;
                    assert(ops[last] == SetOp::Clear);
                }
            },
        }
    }
}

/// Clearing is idempotent: a second clear changes nothing, and a clear of
/// an empty set reports nothing removed.
pub proof fn lemma_clear_idempotent(start: Seq<Seq<char>>)
    ensures
        replay(start, seq![SetOp::Clear, SetOp::Clear]) == replay(start, seq![SetOp::Clear]),
        replay(start, seq![SetOp::Clear]).len() == 0,
{
    assert(seq![SetOp::Clear, SetOp::Clear].drop_last() =~= seq![SetOp::Clear]);
    assert(seq![SetOp::Clear].drop_last() =~= Seq::<SetOp>::empty());
}

/// The inserts of one window, in whatever order the lock admits them.
pub open spec fn inserts(ids: Seq<Seq<char>>) -> Seq<SetOp> {
    ids.map_values(|id: Seq<char>| SetOp::Insert(id))
}

/// Inserts serialised by the lock are never lost: whatever order they take,
/// each inserted identifier is a member afterwards, and so is every earlier
/// member.
pub proof fn lemma_serialised_inserts_kept(start: Seq<Seq<char>>, ids: Seq<Seq<char>>)
    ensures
        replay(start, inserts(ids)) == start + ids,
        forall|k: int| 0 <= k < ids.len() ==> replay(start, inserts(ids)).contains(#[trigger] ids[k]),
        forall|k: int| 0 <= k < start.len() ==> replay(start, inserts(ids)).contains(#[trigger] start[k]),
    decreases ids.len(),
{
    if ids.len() > 0 {
        lemma_serialised_inserts_kept(start, ids.drop_last());
        assert(inserts(ids).drop_last() =~= inserts(ids.drop_last()));
        assert(start + ids =~= (start + ids.drop_last()).push(ids.last()));
    } else {
        assert(start + ids =~= start);
    }
    let all = replay(start, inserts(ids));
    assert forall|k: int| 0 <= k < ids.len() implies all.contains(#[trigger] ids[k]) by {
        assert(all[start.len() + k] == ids[k]);
    }
    assert forall|k: int| 0 <= k < start.len() implies all.contains(#[trigger] start[k]) by {
        assert(all[k] == start[k]);
    }
}

} // verus!
