//! Grouping of paths by content digest, and the groups that hold more than
//! one path: the duplicates.

use vstd::prelude::*;

verus! {

/// The paths that were recorded under one digest, in the order in which they
/// came.
pub struct Group {
    pub digest: String,
    pub paths: Vec<String>,
}

/// A group as plain text.
pub struct GroupView {
    pub digest: Seq<char>,
    pub paths: Seq<Seq<char>>,
}

/// The text of each string of a sequence.
pub open spec fn texts(strings: Seq<String>) -> Seq<Seq<char>> {
    Seq::new(strings.len(), |i: int| strings[i]@)
}

impl View for Group {
    type V = GroupView;

    open spec fn view(&self) -> GroupView {
        GroupView { digest: self.digest@, paths: texts(self.paths@) }
    }
}

/// The view of each group of a sequence.
pub open spec fn group_views(groups: Seq<Group>) -> Seq<GroupView> {
    Seq::new(groups.len(), |i: int| groups[i]@)
}

/// The place of the first group with this digest, or the number of groups if
/// there is none.
pub open spec fn position(groups: Seq<GroupView>, digest: Seq<char>) -> int
    decreases groups.len(),
{
    if groups.len() == 0 {
        0
    } else if position(groups.drop_last(), digest) < groups.len() - 1 {
        position(groups.drop_last(), digest)
    } else if groups.last().digest == digest {
        groups.len() - 1
    } else {
        groups.len() as int
    }
}

/// The groups after `path` was recorded under `digest`: the path goes to the
/// end of the digest's group, and a digest not seen before gets a new group
/// behind the others.
pub open spec fn recorded(groups: Seq<GroupView>, digest: Seq<char>, path: Seq<char>) -> Seq<
    GroupView,
> {
    let at = position(groups, digest);
    if at < groups.len() {
        groups.update(at, GroupView { digest, paths: groups[at].paths.push(path) })
    } else {
        groups.push(GroupView { digest, paths: seq![path] })
    }
}

/// The paths recorded under `digest`, none if the digest was never seen.
pub open spec fn paths_of(groups: Seq<GroupView>, digest: Seq<char>) -> Seq<Seq<char>> {
    let at = position(groups, digest);
    if at < groups.len() {
        groups[at].paths
    } else {
        Seq::empty()
    }
}

/// Whether a group holds duplicates: more than one path.
pub open spec fn is_duplicate(group: GroupView) -> bool {
    group.paths.len() > 1
}

/// No group is empty and no digest has two groups.
pub open spec fn well_grouped(groups: Seq<GroupView>) -> bool {
    &&& forall|i: int| 0 <= i < groups.len() ==> (#[trigger] groups[i]).paths.len() >= 1
    &&& forall|i: int, j: int|
        0 <= i < j < groups.len() ==> (#[trigger] groups[i]).digest != (#[trigger] groups[j]).digest
}

/// `position` finds the first group with the digest, and only that.
pub proof fn lemma_position(groups: Seq<GroupView>, digest: Seq<char>)
    ensures
        0 <= position(groups, digest) <= groups.len(),
        position(groups, digest) < groups.len() ==> groups[position(groups, digest)].digest
            == digest,
        forall|j: int| 0 <= j < position(groups, digest) ==> (#[trigger] groups[j]).digest != digest,
    decreases groups.len(),
{
    if groups.len() > 0 {
        lemma_position(groups.drop_last(), digest);
        let front = position(groups.drop_last(), digest);
        assert forall|j: int| 0 <= j < position(groups, digest) implies (#[trigger] groups[j]).digest
            != digest by {
            if j < groups.len() - 1 {
                assert(groups.drop_last()[j] == groups[j]);
            }
        }
        if front < groups.len() - 1 {
            assert(groups.drop_last()[front] == groups[front]);
        }
    }
}

/// A place that holds the digest, with no earlier one that does, is the
/// digest's position.
pub proof fn lemma_position_is(groups: Seq<GroupView>, digest: Seq<char>, at: int)
    requires
        0 <= at <= groups.len(),
        at < groups.len() ==> groups[at].digest == digest,
        forall|j: int| 0 <= j < at ==> (#[trigger] groups[j]).digest != digest,
    ensures
        position(groups, digest) == at,
{
    lemma_position(groups, digest);
    let p = position(groups, digest);
    if p < at {
        assert(groups[p].digest != digest);
    }
}

/// Recording keeps the groups in order: none is empty, and no digest gets a
/// second group.
pub proof fn law_recording_keeps_groups_apart(
    groups: Seq<GroupView>,
    digest: Seq<char>,
    path: Seq<char>,
)
    requires
        well_grouped(groups),
    ensures
        well_grouped(recorded(groups, digest, path)),
{
    lemma_position(groups, digest);
    let at = position(groups, digest);
    let after = recorded(groups, digest, path);
    assert forall|i: int, j: int| 0 <= i < j < after.len() implies (#[trigger] after[i]).digest != (
    #[trigger] after[j]).digest by {
        if at < groups.len() {
            assert(after[i].digest == groups[i].digest);
            assert(after[j].digest == groups[j].digest);
        } else if j == groups.len() {
            assert(after[i] == groups[i]);
        } else {
            assert(after[i] == groups[i]);
            assert(after[j] == groups[j]);
        }
    }
    assert forall|i: int| 0 <= i < after.len() implies (#[trigger] after[i]).paths.len() >= 1 by {
        if i < groups.len() && i != at {
            assert(after[i] == groups[i]);
        }
    }
}

/// Recording a path puts it behind the paths that share its digest, and
/// leaves the paths of every other digest as they were.
pub proof fn law_recording_adds_one_path(
    groups: Seq<GroupView>,
    digest: Seq<char>,
    path: Seq<char>,
    other: Seq<char>,
)
    requires
        well_grouped(groups),
    ensures
        paths_of(recorded(groups, digest, path), digest) == paths_of(groups, digest).push(path),
        other != digest ==> paths_of(recorded(groups, digest, path), other) == paths_of(
            groups,
            other,
        ),
{
    lemma_position(groups, digest);
    lemma_position(groups, other);
    let at = position(groups, digest);
    let after = recorded(groups, digest, path);
    assert(position(after, digest) == at) by {
        assert forall|j: int| 0 <= j < at implies (#[trigger] after[j]).digest != digest by {
            assert(after[j] == groups[j]);
        }
        lemma_position_is(after, digest, at);
    }
    assert(paths_of(after, digest) =~= paths_of(groups, digest).push(path));
    if other != digest {
        let there = position(groups, other);
        assert forall|j: int| 0 <= j < there implies (#[trigger] after[j]).digest != other by {
            assert(after[j].digest == groups[j].digest);
        }
        if there < groups.len() {
            assert(after[there] == groups[there]);
            lemma_position_is(after, other, there);
        } else {
            lemma_position_is(after, other, after.len() as int);
        }
    }
}

/// The grouping behind a scan for duplicates: each digest with the paths
/// that share it, digests in the order in which they were first seen.
pub struct DigestIndex {
    groups: Vec<Group>,
}

impl View for DigestIndex {
    type V = Seq<GroupView>;

    closed spec fn view(&self) -> Seq<GroupView> {
        group_views(self.groups@)
    }
}

impl DigestIndex {
    /// The index is in order.
    pub open spec fn wf(&self) -> bool {
        well_grouped(self@)
    }

    /// An index without groups.
    pub fn new() -> (index: Self)
        ensures
            index@ == Seq::<GroupView>::empty(),
            index.wf(),
    {
        let index = DigestIndex { groups: Vec::new() };
        assert(index@ =~= Seq::<GroupView>::empty());
        index
    }

    /// Records that the file at `path` has the content digest `digest`.
    pub fn record(&mut self, digest: String, path: String)
        requires
            old(self).wf(),
        ensures
            final(self).wf(),
            final(self)@ == recorded(old(self)@, digest@, path@),
    {
        let ghost before = self@;
        let mut i: usize = 0;
        while i < self.groups.len()
            invariant
                *self == *old(self),
                before == self@,
                well_grouped(before),
                i <= self.groups@.len(),
                forall|j: int| 0 <= j < i ==> (#[trigger] before[j]).digest != digest@,
            decreases self.groups@.len() - i,
        {
            if self.groups[i].digest == digest {
                let ghost held = self.groups@[i as int];
                self.groups[i].paths.push(path);
                proof {
                    lemma_position_is(before, digest@, i as int);
                    assert(texts(self.groups@[i as int].paths@) =~= texts(held.paths@).push(
                        path@,
                    ));
                    assert(self@ =~= recorded(before, digest@, path@));
                    law_recording_keeps_groups_apart(before, digest@, path@);
                }
                return ;
            }
            i += 1;
        }
        let mut paths: Vec<String> = Vec::new();
        paths.push(path);
        proof {
            lemma_position_is(before, digest@, before.len() as int);
            assert(texts(paths@) =~= seq![path@]);
        }
        self.groups.push(Group { digest, paths });
        proof {
            assert(self@ =~= recorded(before, digest@, path@));
            law_recording_keeps_groups_apart(before, digest@, path@);
        }
    }

    /// The number of groups, which is the number of distinct digests.
    pub fn len(&self) -> (n: usize)
        ensures
            n == self@.len(),
    {
        self.groups.len()
    }

    /// The groups, in the order in which their digests were first seen.
    pub fn groups(&self) -> (groups: &Vec<Group>)
        ensures
            group_views(groups@) == self@,
    {
        &self.groups
    }

    /// The groups that hold more than one path, in the order in which their
    /// digests were first seen.
    pub fn duplicates(&self) -> (found: Vec<Group>)
        ensures
            group_views(found@) == self@.filter(|g: GroupView| is_duplicate(g)),
    {
        let ghost wanted = |g: GroupView| is_duplicate(g);
        let mut found: Vec<Group> = Vec::new();
        let mut i: usize = 0;
        proof {
            reveal(Seq::filter);
            assert(self@.take(0) =~= Seq::<GroupView>::empty());
            assert(group_views(found@) =~= self@.take(0).filter(wanted));
        }
        while i < self.groups.len()
            invariant
                i <= self.groups@.len(),
                wanted == |g: GroupView| is_duplicate(g),
                group_views(found@) == self@.take(i as int).filter(wanted),
            decreases self.groups@.len() - i,
        {
            let ghost so_far = group_views(found@);
            if self.groups[i].paths.len() > 1 {
                found.push(copy_group(&self.groups[i]));
            }
            proof {
                reveal(Seq::filter);
                let next = self@.take(i as int + 1);
                assert(next.drop_last() =~= self@.take(i as int));
                assert(next.last() == self.groups@[i as int]@);
                if is_duplicate(next.last()) {
                    assert(group_views(found@) =~= so_far.push(next.last()));
                } else {
                    assert(group_views(found@) =~= so_far);
                }
            }
            i += 1;
        }
        proof {
            assert(self@.take(self.groups@.len() as int) =~= self@);
        }
        found
    }
}

/// A copy of a group.
fn copy_group(group: &Group) -> (copy: Group)
    ensures
        copy@ == group@,
{
    let mut paths: Vec<String> = Vec::new();
    let mut i: usize = 0;
    while i < group.paths.len()
        invariant
            i <= group.paths@.len(),
            paths@.len() == i,
            texts(paths@) == texts(group.paths@.take(i as int)),
        decreases group.paths@.len() - i,
    {
        let ghost copied = paths@;
        paths.push(group.paths[i].clone());
        proof {
            let next = group.paths@.take(i as int + 1);
            assert forall|k: int| 0 <= k < next.len() implies texts(paths@)[k] == texts(
                next,
            )[k] by {
                if k < i {
                    assert(texts(copied)[k] == texts(group.paths@.take(i as int))[k]);
                }
            }
            assert(texts(paths@) =~= texts(next));
        }
        i += 1;
    }
    proof {
        assert(group.paths@.take(group.paths@.len() as int) =~= group.paths@);
    }
    Group { digest: group.digest.clone(), paths }
}

} // verus!
