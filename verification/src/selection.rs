//! From the changes that were chosen to the references to fetch: the topics
//! that the choice touches, and the set of title and reference that it
//! resolves to.

use crate::commit_info::{reference, repo_reference, title, views, CommitInfo, CommitView};
use crate::repo_info::RepoType;
use crate::text::{same_text, texts};
use vstd::prelude::*;

verus! {

/// A title and a reference.
pub type Pair = (Seq<char>, Seq<char>);

/// `set` with `pair` behind its members, unless it holds `pair` already.
pub open spec fn inserted(set: Seq<Pair>, pair: Pair) -> Seq<Pair> {
    if set.contains(pair) {
        set
    } else {
        set.push(pair)
    }
}

/// `set` after inserting the members of `pairs` one by one.
pub open spec fn inserted_all(set: Seq<Pair>, pairs: Seq<Pair>) -> Seq<Pair>
    decreases pairs.len(),
{
    if pairs.len() == 0 {
        set
    } else {
        inserted(inserted_all(set, pairs.drop_last()), pairs.last())
    }
}

/// What a chosen change is fetched by: its title, and its reference in the
/// form for the workspace.
pub open spec fn chosen_pair(c: CommitView, repo_type: RepoType) -> Pair {
    (title(c, repo_type), reference(c, repo_type))
}

/// What a change that came in through a topic is fetched by: its title,
/// and its reference in the form for the multi-repository tool, whatever
/// the kind of the workspace.
pub open spec fn expanded_pair(c: CommitView, repo_type: RepoType) -> Pair {
    (title(c, repo_type), repo_reference(c))
}

/// The set that a choice resolves to.
pub open spec fn resolved(chosen: Seq<CommitView>, repo_type: RepoType) -> Seq<Pair> {
    inserted_all(Seq::empty(), chosen.map_values(|c: CommitView| chosen_pair(c, repo_type)))
}

/// `set` after taking in the changes of a topic.
pub open spec fn merged(set: Seq<Pair>, found: Seq<CommitView>, repo_type: RepoType) -> Seq<Pair> {
    inserted_all(set, found.map_values(|c: CommitView| expanded_pair(c, repo_type)))
}

/// The topics of the changes in `chosen`: each one once, in the order in
/// which they first occur, and none that is empty.
pub open spec fn topics(chosen: Seq<CommitView>) -> Seq<Seq<char>>
    decreases chosen.len(),
{
    if chosen.len() == 0 {
        Seq::empty()
    } else {
        let before = topics(chosen.drop_last());
        match chosen.last().topic {
            Some(t) => if t.len() > 0 && !before.contains(t) {
                before.push(t)
            } else {
                before
            },
            None => before,
        }
    }
}

/// The query that finds the open changes of a topic.
pub open spec fn topic_query(topic: Seq<char>) -> Seq<char> {
    "status:open topic:"@ + topic
}

/// Inserting a pair keeps a set free of duplicates.
pub proof fn lemma_inserted_distinct(set: Seq<Pair>, pair: Pair)
    requires
        set.no_duplicates(),
    ensures
        inserted(set, pair).no_duplicates(),
        inserted(set, pair).contains(pair),
        forall|p: Pair| set.contains(p) ==> inserted(set, pair).contains(p),
{
    if !set.contains(pair) {
        let grown = set.push(pair);
        assert(grown[set.len() as int] == pair);
        assert forall|p: Pair| set.contains(p) implies grown.contains(p) by {
            let i = choose|i: int| 0 <= i < set.len() && set[i] == p;
            assert(grown[i] == p);
        }
    }
}

/// Inserting a pair a second time changes nothing: the set, and so its
/// size, stay as they are after the first time.
pub proof fn lemma_insert_idempotent(set: Seq<Pair>, pair: Pair)
    ensures
        inserted(inserted(set, pair), pair) == inserted(set, pair),
        inserted(inserted(set, pair), pair).len() == inserted(set, pair).len(),
{
    if !set.contains(pair) {
        assert(set.push(pair)[set.len() as int] == pair);
    }
}

/// Inserting many pairs keeps a set free of duplicates, and the result
/// holds what the set held and what was inserted, and nothing else.
pub proof fn lemma_inserted_all(set: Seq<Pair>, pairs: Seq<Pair>)
    requires
        set.no_duplicates(),
    ensures
        inserted_all(set, pairs).no_duplicates(),
        inserted_all(set, pairs).to_set() == set.to_set().union(pairs.to_set()),
    decreases pairs.len(),
{
    let all = inserted_all(set, pairs);
    if pairs.len() == 0 {
        assert(pairs.to_set() =~= Set::<Pair>::empty());
        assert(set.to_set().union(pairs.to_set()) =~= set.to_set());
    } else {
        let before = inserted_all(set, pairs.drop_last());
        lemma_inserted_all(set, pairs.drop_last());
        lemma_inserted_distinct(before, pairs.last());
        assert forall|p: Pair| all.to_set().contains(p) <==> set.to_set().union(
            pairs.to_set(),
        ).contains(p) by {
            if all.contains(p) {
                if before.contains(p) {
                    assert(before.to_set().contains(p));
                    if pairs.drop_last().to_set().contains(p) {
                        let i = choose|i: int|
                            0 <= i < pairs.drop_last().len() && pairs.drop_last()[i] == p;
                        assert(pairs[i] == p);
                    }
                } else {
                    let i = choose|i: int| 0 <= i < all.len() && all[i] == p;
                    assert(p == pairs.last());
                    assert(pairs[pairs.len() - 1] == p);
                }
            }
            if set.contains(p) {
                assert(before.to_set().contains(p));
            }
            if pairs.contains(p) {
                let i = choose|i: int| 0 <= i < pairs.len() && pairs[i] == p;
                if i < pairs.len() - 1 {
                    assert(pairs.drop_last()[i] == p);
                    assert(pairs.drop_last().to_set().contains(p));
                    assert(before.to_set().contains(p));
                }
            }
        }
        assert(all.to_set() =~= set.to_set().union(pairs.to_set()));
    }
}

/// Taking pairs into a set makes it larger by the number of distinct
/// pairs among them that it did not hold.
pub proof fn lemma_merge_size(set: Seq<Pair>, pairs: Seq<Pair>)
    requires
        set.no_duplicates(),
    ensures
        inserted_all(set, pairs).len() == set.len() + pairs.to_set().difference(set.to_set()).len(),
{
    let all = inserted_all(set, pairs);
    lemma_inserted_all(set, pairs);
    all.unique_seq_to_set();
    set.unique_seq_to_set();
    let old_members = set.to_set();
    let fresh = pairs.to_set().difference(old_members);
    vstd::seq_lib::seq_to_set_is_finite(set);
    vstd::seq_lib::seq_to_set_is_finite(pairs);
    assert(old_members.disjoint(fresh));
    assert(old_members.union(fresh) =~= old_members.union(pairs.to_set()));
    vstd::set_lib::lemma_set_disjoint_lens(old_members, fresh);
}

/// Taking the changes of a topic into a set makes it larger by the number
/// of distinct pairs among them that it did not hold: a change that was
/// chosen already, under the same title and reference, is not counted
/// twice.
pub proof fn lemma_merged_size(set: Seq<Pair>, found: Seq<CommitView>, repo_type: RepoType)
    requires
        set.no_duplicates(),
    ensures
        merged(set, found, repo_type).no_duplicates(),
        merged(set, found, repo_type).len() == set.len() + found.map_values(
            |c: CommitView| expanded_pair(c, repo_type),
        ).to_set().difference(set.to_set()).len(),
{
    let pairs = found.map_values(|c: CommitView| expanded_pair(c, repo_type));
    lemma_inserted_all(set, pairs);
    lemma_merge_size(set, pairs);
}

/// The unique pairs of title and reference to fetch, in the order in which
/// they came in.
pub struct RefSet {
    items: Vec<(String, String)>,
}

impl View for RefSet {
    type V = Seq<Pair>;

    closed spec fn view(&self) -> Seq<Pair> {
        self.items@.map_values(|p: (String, String)| (p.0@, p.1@))
    }
}

impl RefSet {
    /// Whether no pair occurs twice. A set that was made by `new` and filled
    /// by `insert` is well formed.
    pub open spec fn wf(&self) -> bool {
        self@.no_duplicates()
    }

    /// The set without members.
    pub fn new() -> (r: Self)
        ensures
            r@ == Seq::<Pair>::empty(),
            r.wf(),
    {
        let r = RefSet { items: Vec::new() };
        assert(r@ == Seq::<Pair>::empty());
        r
    }

    /// The number of pairs in the set.
    pub fn len(&self) -> (r: usize)
        ensures
            r == self@.len(),
    {
        self.items.len()
    }

    /// Whether the set holds the pair.
    pub fn contains(&self, title: &str, reference: &str) -> (r: bool)
        ensures
            r == self@.contains((title@, reference@)),
    {
        let mut i: usize = 0;
        while i < self.items.len()
            invariant
                i <= self.items.len(),
                forall|k: int| 0 <= k < i ==> self@[k] != (title@, reference@),
            decreases self.items.len() - i,
        {
            if same_text(self.items[i].0.as_str(), title) && same_text(
                self.items[i].1.as_str(),
                reference,
            ) {
                assert(self@[i as int] == (title@, reference@));
                return true;
            }
            i += 1;
        }
        false
    }

    /// Puts a pair into the set. A pair that the set holds already changes
    /// nothing. Returns whether the pair was new.
    pub fn insert(&mut self, title: String, reference: String) -> (r: bool)
        ensures
            final(self)@ == inserted(old(self)@, (title@, reference@)),
            old(self).wf() ==> final(self).wf(),
            r == !old(self)@.contains((title@, reference@)),
    {
        if self.contains(title.as_str(), reference.as_str()) {
            false
        } else {
            proof {
                if self.wf() {
                    lemma_inserted_distinct(self@, (title@, reference@));
                }
                assert(self.items@.push((title, reference)).map_values(
                    |p: (String, String)| (p.0@, p.1@),
                ) == self@.push((title@, reference@)));
            }
            self.items.push((title, reference));
            true
        }
    }

    /// The title of the pair at position `i`.
    pub fn title(&self, i: usize) -> (r: &str)
        requires
            i < self@.len(),
        ensures
            r@ == self@[i as int].0,
    {
        self.items[i].0.as_str()
    }

    /// The reference of the pair at position `i`.
    pub fn reference(&self, i: usize) -> (r: &str)
        requires
            i < self@.len(),
        ensures
            r@ == self@[i as int].1,
    {
        self.items[i].1.as_str()
    }
}

/// The topics of the chosen changes: each one once, in the order in which
/// they first occur, and none that is empty.
pub fn collect_topics(chosen: &Vec<CommitInfo>) -> (r: Vec<String>)
    ensures
        texts(r@) == topics(views(chosen@)),
{
    let ghost all = views(chosen@);
    let mut found: Vec<String> = Vec::new();
    let mut i: usize = 0;
    assert(all.take(0) == Seq::<CommitView>::empty());
    assert(texts(found@) == Seq::<Seq<char>>::empty());
    while i < chosen.len()
        invariant
            i <= chosen.len(),
            all == views(chosen@),
            texts(found@) == topics(all.take(i as int)),
        decreases chosen.len() - i,
    {
        proof {
            assert(all.take(i + 1).drop_last() == all.take(i as int));
            assert(all.take(i + 1).last() == chosen@[i as int]@);
        }
        match chosen[i].topic() {
            Some(t) => {
                if t.unicode_len() > 0 && !holds(&found, t) {
                    let owned = String::from_str(t);
                    assert(texts(found@.push(owned)) == texts(
                        found@,
                    ).push(owned@));
                    found.push(owned);
                }
            },
            None => {},
        }
        i += 1;
    }
    assert(all.take(chosen.len() as int) == all);
    found
}

/// Whether `list` holds `text`.
fn holds(list: &Vec<String>, text: &str) -> (r: bool)
    ensures
        r == texts(list@).contains(text@),
{
    let mut i: usize = 0;
    while i < list.len()
        invariant
            i <= list.len(),
            forall|k: int| 0 <= k < i ==> texts(list@)[k] != text@,
        decreases list.len() - i,
    {
        if same_text(list[i].as_str(), text) {
            assert(texts(list@)[i as int] == text@);
            return true;
        }
        i += 1;
    }
    false
}

/// The query that finds the open changes of `topic`.
pub fn topic_query_str(topic: &str) -> (r: String)
    ensures
        r@ == topic_query(topic@),
{
    let mut out = String::from_str("status:open topic:");
    out.append(topic);
    out
}

/// The set that the chosen changes resolve to in a workspace of the given
/// kind.
pub fn resolve(chosen: &Vec<CommitInfo>, repo_type: RepoType) -> (r: RefSet)
    ensures
        r@ == resolved(views(chosen@), repo_type),
        r.wf(),
{
    let ghost pairs = views(chosen@).map_values(|c: CommitView| chosen_pair(c, repo_type));
    let mut set = RefSet::new();
    let mut i: usize = 0;
    assert(pairs.take(0) == Seq::<Pair>::empty());
    while i < chosen.len()
        invariant
            i <= chosen.len(),
            pairs == views(chosen@).map_values(|c: CommitView| chosen_pair(c, repo_type)),
            set@ == inserted_all(Seq::empty(), pairs.take(i as int)),
            set.wf(),
        decreases chosen.len() - i,
    {
        proof {
            assert(pairs.take(i + 1).drop_last() == pairs.take(i as int));
            assert(pairs.take(i + 1).last() == chosen_pair(chosen@[i as int]@, repo_type));
        }
        let title = chosen[i].get_title(repo_type);
        let reference = chosen[i].get_reference(repo_type);
        set.insert(title, reference);
        i += 1;
    }
    assert(pairs.take(chosen.len() as int) == pairs);
    set
}

/// Takes the changes that a topic query found into the set. Each comes in
/// under its reference for the multi-repository tool, whatever the kind of
/// the workspace.
pub fn merge(set: &mut RefSet, found: &Vec<CommitInfo>, repo_type: RepoType)
    ensures
        final(set)@ == merged(old(set)@, views(found@), repo_type),
        old(set).wf() ==> final(set).wf(),
{
    let ghost pairs = views(found@).map_values(|c: CommitView| expanded_pair(c, repo_type));
    let mut i: usize = 0;
    assert(pairs.take(0) == Seq::<Pair>::empty());
    while i < found.len()
        invariant
            i <= found.len(),
            pairs == views(found@).map_values(|c: CommitView| expanded_pair(c, repo_type)),
            set@ == inserted_all(old(set)@, pairs.take(i as int)),
            old(set).wf() ==> set.wf(),
        decreases found.len() - i,
    {
        proof {
            assert(pairs.take(i + 1).drop_last() == pairs.take(i as int));
            assert(pairs.take(i + 1).last() == expanded_pair(found@[i as int]@, repo_type));
        }
        let title = found[i].get_title(repo_type);
        let reference = found[i].get_repo_reference();
        set.insert(title, reference);
        i += 1;
    }
    assert(pairs.take(found.len() as int) == pairs);
}

} // verus!
