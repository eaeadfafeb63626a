use vstd::prelude::*;
use crate::conversations::MessageExport;
use crate::user::UNKNOWN_NAME;

verus! {

/// How authors are named in a transcript.
#[derive(Clone, Copy, Debug, PartialEq, Eq, Structural)]
pub enum NameOption {
    /// The raw user identifier.
    UserId,
    /// The user's resolved display name.
    DisplayName,
}

impl NameOption {
    /// Every option, in the order they are offered.
    pub fn all() -> (r: Vec<NameOption>)
        ensures
            r@ == seq![NameOption::UserId, NameOption::DisplayName],
    {
        vec![NameOption::UserId, NameOption::DisplayName]
    }

    /// The label under which the option is offered.
    pub fn friendly(&self) -> (r: String)
        ensures
            *self == NameOption::UserId ==> r@ == "User ID"@,
            *self == NameOption::DisplayName ==> r@ == "Display Name"@,
    {
        match self {
            NameOption::UserId => "User ID".to_owned(),
            NameOption::DisplayName => "Display Name".to_owned(),
        }
    }
}

/// Memoized user names of one export run: identifier to display name, at most
/// one entry per identifier, never replaced once stored.
pub struct NameCache {
    entries: Vec<(String, String)>,
    model: Ghost<Map<Seq<char>, Seq<char>>>,
}

impl View for NameCache {
    type V = Map<Seq<char>, Seq<char>>;

    closed spec fn view(&self) -> Map<Seq<char>, Seq<char>> {
        self.model@
    }
}

impl NameCache {
    /// The entries and the map they stand for agree.
    pub closed spec fn wf(&self) -> bool {
        &&& forall|i: int| 0 <= i < self.entries@.len() ==> {
            &&& self.model@.contains_key(#[trigger] self.entries@[i].0@)
            &&& self.model@[self.entries@[i].0@] == self.entries@[i].1@
        }
        &&& forall|k: Seq<char>| #[trigger] self.model@.contains_key(k) ==> exists|i: int|
            0 <= i < self.entries@.len() && #[trigger] self.entries@[i].0@ == k
    }

    /// An empty cache.
    pub fn new() -> (r: NameCache)
        ensures
            r.wf(),
            r@ == Map::<Seq<char>, Seq<char>>::empty(),
    {
        NameCache { entries: Vec::new(), model: Ghost(Map::empty()) }
    }

    fn position(&self, id: &String) -> (r: Option<usize>)
        requires
            self.wf(),
        ensures
            r is None <==> !self@.contains_key(id@),
            r matches Some(i) ==> i < self.entries@.len() && self.entries@[i as int].0@ == id@,
    {
        let mut i: usize = 0;
        while i < self.entries.len()
            invariant
                self.wf(),
                i <= self.entries@.len(),
                forall|k: int| 0 <= k < i ==> #[trigger] self.entries@[k].0@ != id@,
            decreases self.entries.len() - i,
        {
            if self.entries[i].0 == *id {
                return Some(i);
            }
            i = i + 1;
        }
        None
    }

    /// The name stored for `id`, if any.
    pub fn get(&self, id: &String) -> (r: Option<String>)
        requires
            self.wf(),
        ensures
            r is Some <==> self@.contains_key(id@),
            r matches Some(n) ==> n@ == self@[id@],
    {
        match self.position(id) {
            Some(i) => Some(self.entries[i].1.clone()),
            None => None,
        }
    }

    /// Stores `name` for `id`, unless a name for `id` is already stored.
    pub fn insert(&mut self, id: String, name: String)
        requires
            old(self).wf(),
        ensures
            final(self).wf(),
            old(self)@.contains_key(id@) ==> final(self)@ == old(self)@,
            !old(self)@.contains_key(id@) ==> final(self)@ == old(self)@.insert(id@, name@),
    {
        if self.position(&id).is_some() {
            return;
        }
        let ghost old_entries = self.entries@;
        let ghost old_model = self.model@;
        let ghost key = id@;
        let ghost value = name@;
        self.entries.push((id, name));
        self.model = Ghost(old_model.insert(key, value));
        proof {
            assert forall|k: Seq<char>| #[trigger] self.model@.contains_key(k) implies exists|i: int|
                0 <= i < self.entries@.len() && #[trigger] self.entries@[i].0@ == k by {
                if k == key {
                    assert(self.entries@[old_entries.len() as int].0@ == k);
                } else {
                    let i = choose|i: int| 0 <= i < old_entries.len() && #[trigger] old_entries[i].0@ == k;
                    assert(self.entries@[i] == old_entries[i]);
                }
            }
            assert forall|i: int| 0 <= i < self.entries@.len() implies {
                &&& self.model@.contains_key(#[trigger] self.entries@[i].0@)
                &&& self.model@[self.entries@[i].0@] == self.entries@[i].1@
            } by {
                if i < old_entries.len() {
                    assert(self.entries@[i] == old_entries[i]);
                    assert(old_entries[i].0@ != key);
                }
            }
        }
    }
}

/// How many user-info calls it takes to name the authors `ids` in turn when
/// the identifiers in `known` are already cached: a lookup that misses
/// ([`NameCache::get`] gives `None`) is fetched once and stored with
/// [`NameCache::insert`]; one that hits costs nothing.
pub open spec fn lookups_needed(known: Set<Seq<char>>, ids: Seq<Seq<char>>) -> nat
    decreases ids.len(),
{
    if ids.len() == 0 {
        0
    } else if known.contains(ids[0]) {
        lookups_needed(known, ids.drop_first())
    } else {
        1 + lookups_needed(known.insert(ids[0]), ids.drop_first())
    }
}

/// Naming the same author twice takes at most one user-info call.
pub proof fn lemma_same_id_at_most_one_call(names: Map<Seq<char>, Seq<char>>, id: Seq<char>)
    ensures
        lookups_needed(names.dom(), seq![id, id]) <= 1,
{
    reveal_with_fuel(lookups_needed, 3);
    let ids = seq![id, id];
    assert(ids.drop_first() =~= seq![id]);
    assert(ids.drop_first().drop_first() =~= Seq::<Seq<char>>::empty());
    assert(names.dom().insert(id).contains(id));
}

/// Naming two distinct authors that are not cached takes two user-info calls.
pub proof fn lemma_distinct_ids_two_calls(names: Map<Seq<char>, Seq<char>>, a: Seq<char>, b: Seq<char>)
    requires
        a != b,
        !names.contains_key(a),
        !names.contains_key(b),
    ensures
        lookups_needed(names.dom(), seq![a, b]) == 2,
{
    reveal_with_fuel(lookups_needed, 3);
    let ids = seq![a, b];
    assert(ids.drop_first() =~= seq![b]);
    assert(ids.drop_first().drop_first() =~= Seq::<Seq<char>>::empty());
    assert(!names.dom().insert(a).contains(b));
}

/// Whether the author `user` can be named under `mode` from `names` alone.
pub open spec fn resolved(mode: NameOption, user: Option<String>, names: Map<Seq<char>, Seq<char>>) -> bool {
    match user {
        Some(id) => mode == NameOption::UserId || names.contains_key(id@),
        None => true,
    }
}

/// Whether every author of `exports`, roots and replies, can be named.
pub open spec fn all_resolved(exports: Seq<MessageExport>, mode: NameOption, names: Map<Seq<char>, Seq<char>>) -> bool {
    forall|i: int| #![trigger exports[i]] 0 <= i < exports.len() ==> {
        &&& resolved(mode, exports[i].message.user, names)
        &&& forall|j: int| 0 <= j < exports[i].replies@.len() ==> resolved(mode, #[trigger] exports[i].replies@[j].user, names)
    }
}

/// The name shown for the author `user`.
pub open spec fn author_label(mode: NameOption, user: Option<String>, names: Map<Seq<char>, Seq<char>>) -> Seq<char> {
    match user {
        Some(id) => match mode {
            NameOption::UserId => id@,
            NameOption::DisplayName => names[id@],
        },
        None => UNKNOWN_NAME@,
    }
}

} // verus!
