//! Clone groups: code that occurs in three or more places. Duplicates that
//! share a hash are gathered, their distinct locations collected in file
//! order, and the groups ordered by how many copies they have and by size.
//! Ties keep the order in which hashes and locations first appear.

use vstd::prelude::*;
use crate::order::{
    insert_by, lemma_insert_by_at, lemma_insert_by_sorted, lemma_insert_by_split, lemma_lex_irreflexive,
    lemma_lex_total, lemma_lex_transitive, lex_lt, sorted_by, text_lt, total_preorder,
};
use crate::report::{CloneType, DuplicateMatch};
use crate::text::str_eq;

verus! {

broadcast use vstd::string::group_string_axioms;

/// One copy of the code of a clone group.
pub struct Instance {
    pub file: String,
    pub start_line: usize,
    pub end_line: Option<usize>,
}

/// A location: file, first line and last line when known.
pub type Loc = (Seq<char>, usize, Option<usize>);

impl View for Instance {
    type V = Loc;

    open spec fn view(&self) -> Loc {
        (self.file@, self.start_line, self.end_line)
    }
}

/// The locations of a sequence of instances.
pub open spec fn loc_views(s: Seq<Instance>) -> Seq<Loc> {
    Seq::new(s.len(), |i: int| s[i]@)
}

/// Locations are ordered by file name.
pub open spec fn loc_le(a: Loc, b: Loc) -> bool {
    !lex_lt(b.0, a.0)
}

/// The order of locations, as a function value.
pub open spec fn loc_order() -> spec_fn(Loc, Loc) -> bool {
    |a: Loc, b: Loc| loc_le(a, b)
}

/// Some location of `locs` is in `file` and starts at `start`.
pub open spec fn has_location(locs: Seq<Loc>, file: Seq<char>, start: usize) -> bool {
    exists|k: int| 0 <= k < locs.len() && (#[trigger] locs[k]).0 == file && locs[k].1 == start
}

/// `locs` with the location `l` added in file order, unless a location in
/// the same file starting at the same line is already there.
pub open spec fn add_location(locs: Seq<Loc>, l: Loc) -> Seq<Loc> {
    if has_location(locs, l.0, l.1) {
        locs
    } else {
        insert_by(locs, l, loc_order())
    }
}

/// The distinct locations of the duplicates with hash `h`, in file order.
pub open spec fn group_locations(dups: Seq<DuplicateMatch>, h: u64) -> Seq<Loc>
    decreases dups.len(),
{
    if dups.len() == 0 {
        Seq::empty()
    } else {
        let locs = group_locations(dups.drop_last(), h);
        let d = dups.last();
        if d.hash == h {
            add_location(
                add_location(locs, (d.file1@, d.start_line1, d.end_line1)),
                (d.file2@, d.start_line2, d.end_line2),
            )
        } else {
            locs
        }
    }
}

/// The distinct hashes of the duplicates, in order of first appearance.
pub open spec fn hash_order(dups: Seq<DuplicateMatch>) -> Seq<u64>
    decreases dups.len(),
{
    if dups.len() == 0 {
        Seq::empty()
    } else {
        let hs = hash_order(dups.drop_last());
        if hs.contains(dups.last().hash) {
            hs
        } else {
            hs.push(dups.last().hash)
        }
    }
}

/// The first duplicate with hash `h`.
pub open spec fn first_match(dups: Seq<DuplicateMatch>, h: u64) -> Option<DuplicateMatch>
    decreases dups.len(),
{
    if dups.len() == 0 {
        None
    } else {
        match first_match(dups.drop_last(), h) {
            Some(d) => Some(d),
            None => if dups.last().hash == h {
                Some(dups.last())
            } else {
                None
            },
        }
    }
}

/// A multi-way clone group (same code in 3+ files)
pub struct MultiWayGroup {
    pub hash: u64,
    pub clone_type: CloneType,
    pub length: usize,
    /// All instances of this clone, in file order
    pub instances: Vec<Instance>,
    pub duplicate_id: Option<String>,
}

/// An optional text as characters.
pub open spec fn opt_text(o: Option<String>) -> Option<Seq<char>> {
    match o {
        Some(s) => Some(s@),
        None => None,
    }
}

/// A clone group as values: hash, clone type, length, locations and ID.
pub type GroupV = (u64, CloneType, usize, Seq<Loc>, Option<Seq<char>>);

impl View for MultiWayGroup {
    type V = GroupV;

    open spec fn view(&self) -> GroupV {
        (self.hash, self.clone_type, self.length, loc_views(self.instances@), opt_text(
            self.duplicate_id,
        ))
    }
}

/// The values of a sequence of groups.
pub open spec fn group_views(s: Seq<MultiWayGroup>) -> Seq<GroupV> {
    Seq::new(s.len(), |i: int| s[i]@)
}

/// Groups with more copies come first, and among those with as many the
/// longer ones.
pub open spec fn group_le(a: GroupV, b: GroupV) -> bool {
    a.3.len() > b.3.len() || (a.3.len() == b.3.len() && a.2 >= b.2)
}

/// The order of groups, as a function value.
pub open spec fn group_order() -> spec_fn(GroupV, GroupV) -> bool {
    |a: GroupV, b: GroupV| group_le(a, b)
}

/// The group of the duplicates with hash `h`: clone type, length and ID
/// come from the first of them.
pub open spec fn group_for(dups: Seq<DuplicateMatch>, h: u64) -> GroupV {
    let f = first_match(dups, h).unwrap();
    (h, f.clone_type, f.length, group_locations(dups, h), opt_text(f.duplicate_id))
}

/// The groups of the hashes `hs` that have three or more locations, inserted
/// one after another in group order.
pub open spec fn groups_from(dups: Seq<DuplicateMatch>, hs: Seq<u64>) -> Seq<GroupV>
    decreases hs.len(),
{
    if hs.len() == 0 {
        Seq::empty()
    } else {
        let acc = groups_from(dups, hs.drop_last());
        let h = hs.last();
        if group_locations(dups, h).len() >= 3 {
            insert_by(acc, group_for(dups, h), group_order())
        } else {
            acc
        }
    }
}

/// The clone groups of a sequence of duplicates.
pub open spec fn multi_way_groups(dups: Seq<DuplicateMatch>) -> Seq<GroupV> {
    groups_from(dups, hash_order(dups))
}

/// Adds a location to instances kept in file order, unless one in the same
/// file at the same start line is there already.
fn add_instance(locs: &mut Vec<Instance>, file: &String, start: usize, end: Option<usize>)
    ensures
        loc_views(final(locs)@) == add_location(loc_views(old(locs)@), (file@, start, end)),
{
    let ghost l: Loc = (file@, start, end);
    let ghost before = loc_views(locs@);
    let mut k: usize = 0;
    while k < locs.len()
        invariant
            k <= locs.len(),
            before == loc_views(locs@),
            l == (file@, start, end),
            forall|m: int| 0 <= m < k ==> !((#[trigger] before[m]).0 == file@ && before[m].1 == start),
        decreases locs.len() - k,
    {
        if locs[k].start_line == start && str_eq(locs[k].file.as_str(), file.as_str()) {
            assert(before[k as int].0 == l.0 && before[k as int].1 == l.1);
            assert(has_location(before, l.0, l.1));
            return;
        }
        k = k + 1;
    }
    assert(!has_location(before, l.0, l.1));
    let mut j: usize = locs.len();
    while j > 0 && text_lt(file.as_str(), locs[j - 1].file.as_str())
        invariant
            j <= locs.len(),
            before == loc_views(locs@),
            l == (file@, start, end),
            forall|m: int| j <= m < before.len() ==> !loc_le(#[trigger] before[m], l),
        decreases j,
    {
        j = j - 1;
    }
    proof {
        lemma_insert_by_at(before, l, loc_order(), j as int);
    }
    locs.insert(j, Instance { file: file.clone(), start_line: start, end_line: end });
    assert(loc_views(locs@) =~= before.take(j as int).push(l) + before.skip(j as int));
}

/// Adds a group to groups kept in group order.
fn insert_group(groups: &mut Vec<MultiWayGroup>, g: MultiWayGroup)
    ensures
        group_views(final(groups)@) == insert_by(group_views(old(groups)@), g@, group_order()),
{
    let ghost before = group_views(groups@);
    let ghost gv = g@;
    let mut j: usize = groups.len();
    while j > 0 && !(groups[j - 1].instances.len() > g.instances.len() || (groups[j - 1].instances.len()
        == g.instances.len() && groups[j - 1].length >= g.length))
        invariant
            j <= groups.len(),
            before == group_views(groups@),
            gv == g@,
            forall|m: int| j <= m < before.len() ==> !group_le(#[trigger] before[m], gv),
        decreases j,
    {
        j = j - 1;
    }
    proof {
        lemma_insert_by_at(before, gv, group_order(), j as int);
    }
    groups.insert(j, g);
    assert(group_views(groups@) =~= before.take(j as int).push(gv) + before.skip(j as int));
}

/// The distinct hashes of the duplicates, in order of first appearance.
fn distinct_hashes(dups: &Vec<DuplicateMatch>) -> (r: Vec<u64>)
    ensures
        r@ == hash_order(dups@),
{
    let mut r: Vec<u64> = Vec::new();
    let mut i: usize = 0;
    while i < dups.len()
        invariant
            i <= dups.len(),
            r@ == hash_order(dups@.take(i as int)),
        decreases dups.len() - i,
    {
        let h = dups[i].hash;
        let mut k: usize = 0;
        let mut seen = false;
        while k < r.len()
            invariant
                k <= r.len(),
                seen == (exists|m: int| 0 <= m < k && r@[m] == h),
            decreases r.len() - k,
        {
            if r[k] == h {
                seen = true;
            }
            k = k + 1;
        }
        assert(seen == r@.contains(h));
        assert(dups@.take(i + 1).drop_last() =~= dups@.take(i as int));
        if !seen {
            r.push(h);
        }
        i = i + 1;
    }
    assert(dups@.take(dups.len() as int) =~= dups@);
    r
}

/// The locations of the duplicates with hash `h` and the position of the
/// first of them.
fn collect_group(dups: &Vec<DuplicateMatch>, h: u64) -> (r: (Vec<Instance>, Option<usize>))
    ensures
        loc_views(r.0@) == group_locations(dups@, h),
        match r.1 {
            Some(k) => k < dups.len() && first_match(dups@, h) == Some(dups@[k as int]),
            None => first_match(dups@, h) is None && r.0.len() == 0,
        },
{
    let mut locs: Vec<Instance> = Vec::new();
    let mut first: Option<usize> = None;
    let mut i: usize = 0;
    while i < dups.len()
        invariant
            i <= dups.len(),
            loc_views(locs@) == group_locations(dups@.take(i as int), h),
            match first {
                Some(k) => k < i && first_match(dups@.take(i as int), h) == Some(dups@[k as int]),
                None => first_match(dups@.take(i as int), h) is None && locs.len() == 0,
            },
        decreases dups.len() - i,
    {
        assert(dups@.take(i + 1).drop_last() =~= dups@.take(i as int));
        assert(dups@.take(i + 1).last() == dups@[i as int]);
        let d = &dups[i];
        if d.hash == h {
            if first.is_none() {
                first = Some(i);
            }
            add_instance(&mut locs, &d.file1, d.start_line1, d.end_line1);
            add_instance(&mut locs, &d.file2, d.start_line2, d.end_line2);
        }
        i = i + 1;
    }
    assert(dups@.take(dups.len() as int) =~= dups@);
    (locs, first)
}

/// A copy of an optional text.
fn copy_opt(o: &Option<String>) -> (r: Option<String>)
    ensures
        opt_text(r) == opt_text(*o),
{
    match o {
        Some(s) => Some(s.clone()),
        None => None,
    }
}

/// Find multi-way clone groups (duplicates that appear in 3+ files)
pub fn find_multi_way_groups(duplicates: &Vec<DuplicateMatch>) -> (r: Vec<MultiWayGroup>)
    ensures
        group_views(r@) == multi_way_groups(duplicates@),
{
    let hashes = distinct_hashes(duplicates);
    let mut groups: Vec<MultiWayGroup> = Vec::new();
    let mut a: usize = 0;
    while a < hashes.len()
        invariant
            a <= hashes.len(),
            hashes@ == hash_order(duplicates@),
            group_views(groups@) == groups_from(duplicates@, hashes@.take(a as int)),
        decreases hashes.len() - a,
    {
        let h = hashes[a];
        let (locs, first) = collect_group(duplicates, h);
        assert(hashes@.take(a + 1).drop_last() =~= hashes@.take(a as int));
        assert(hashes@.take(a + 1).last() == h);
        if locs.len() >= 3 {
            let k = match first {
                Some(k) => k,
                None => 0,
            };
            let f = &duplicates[k];
            let g = MultiWayGroup {
                hash: h,
                clone_type: f.clone_type,
                length: f.length,
                instances: locs,
                duplicate_id: copy_opt(&f.duplicate_id),
            };
            assert(g@ == group_for(duplicates@, h));
            insert_group(&mut groups, g);
        }
        a = a + 1;
    }
    assert(hashes@.take(hashes.len() as int) =~= hashes@);
    groups
}

/// A group drawn from `dups`: it has at least three and at most twice as
/// many locations as there are duplicates, and its length and ID are those
/// of one of the duplicates.
pub open spec fn group_from(g: GroupV, dups: Seq<DuplicateMatch>) -> bool {
    &&& 3 <= g.3.len() <= 2 * dups.len()
    &&& exists|i: int|
        0 <= i < dups.len() && g.2 == (#[trigger] dups[i]).length && g.4 == opt_text(
            dups[i].duplicate_id,
        )
}

/// There are at most twice as many locations as duplicates.
proof fn lemma_group_locations_len(dups: Seq<DuplicateMatch>, h: u64)
    ensures
        group_locations(dups, h).len() <= 2 * dups.len(),
        group_locations(dups, h).len() > 0 ==> first_match(dups, h) is Some,
    decreases dups.len(),
{
    if dups.len() > 0 {
        let init = dups.drop_last();
        lemma_group_locations_len(init, h);
        let l = group_locations(init, h);
        let d = dups.last();
        if d.hash == h {
            let l1 = add_location(l, (d.file1@, d.start_line1, d.end_line1));
            if !has_location(l, d.file1@, d.start_line1) {
                crate::order::lemma_insert_by_len(l, (d.file1@, d.start_line1, d.end_line1), loc_order());
            }
            if !has_location(l1, d.file2@, d.start_line2) {
                crate::order::lemma_insert_by_len(l1, (d.file2@, d.start_line2, d.end_line2), loc_order());
            }
        }
    }
}

/// The first duplicate with a hash is one of the duplicates.
proof fn lemma_first_match_member(dups: Seq<DuplicateMatch>, h: u64)
    requires
        first_match(dups, h) is Some,
    ensures
        exists|i: int| 0 <= i < dups.len() && dups[i] == first_match(dups, h)->0,
    decreases dups.len(),
{
    let init = dups.drop_last();
    if first_match(init, h) is Some {
        lemma_first_match_member(init, h);
        let i = choose|i: int| 0 <= i < init.len() && init[i] == first_match(init, h)->0;
        assert(dups[i] == init[i]);
    } else {
        assert(dups[dups.len() - 1] == dups.last());
    }
}

/// Every group built from some hashes is drawn from the duplicates.
proof fn lemma_groups_from(dups: Seq<DuplicateMatch>, hs: Seq<u64>)
    ensures
        forall|k: int| 0 <= k < groups_from(dups, hs).len() ==> group_from(#[trigger] groups_from(dups, hs)[k], dups),
    decreases hs.len(),
{
    if hs.len() > 0 {
        let acc = groups_from(dups, hs.drop_last());
        lemma_groups_from(dups, hs.drop_last());
        let h = hs.last();
        if group_locations(dups, h).len() >= 3 {
            let g = group_for(dups, h);
            lemma_group_locations_len(dups, h);
            lemma_first_match_member(dups, h);
            let i = choose|i: int| 0 <= i < dups.len() && dups[i] == first_match(dups, h)->0;
            assert(g.2 == dups[i].length && g.4 == opt_text(dups[i].duplicate_id));
            assert(group_from(g, dups));
            crate::order::lemma_insert_by_len(acc, g, group_order());
            let r = groups_from(dups, hs);
            assert forall|k: int| 0 <= k < r.len() implies group_from(#[trigger] r[k], dups) by {
                if r[k] != g {
                    let m = choose|m: int| 0 <= m < acc.len() && acc[m] == r[k];
                    assert(group_from(acc[m], dups));
                }
            }
        }
    }
}

/// Every clone group is drawn from the duplicates.
pub proof fn lemma_multi_way_groups_from(dups: Seq<DuplicateMatch>)
    ensures
        forall|k: int|
            0 <= k < multi_way_groups(dups).len() ==> group_from(
                #[trigger] multi_way_groups(dups)[k],
                dups,
            ),
{
    lemma_groups_from(dups, hash_order(dups));
}

/// The hashes in order of first appearance are distinct, and they are the
/// hashes of the duplicates.
proof fn lemma_hash_order(dups: Seq<DuplicateMatch>)
    ensures
        hash_order(dups).no_duplicates(),
        forall|h: u64|
            hash_order(dups).contains(h) <==> exists|i: int| 0 <= i < dups.len() && (#[trigger] dups[i]).hash == h,
    decreases dups.len(),
{
    if dups.len() > 0 {
        let init = dups.drop_last();
        lemma_hash_order(init);
        let hs = hash_order(init);
        let d = dups.last();
        let r = hash_order(dups);
        assert forall|h: u64| r.contains(h) <==> exists|i: int| 0 <= i < dups.len() && (#[trigger] dups[i]).hash == h by {
            if r.contains(h) {
                if hs.contains(h) {
                    let i = choose|i: int| 0 <= i < init.len() && (#[trigger] init[i]).hash == h;
                    assert(dups[i] == init[i]);
                } else {
                    assert(h == d.hash);
                    assert(dups[dups.len() - 1] == d);
                }
            }
            if exists|i: int| 0 <= i < dups.len() && (#[trigger] dups[i]).hash == h {
                let i = choose|i: int| 0 <= i < dups.len() && (#[trigger] dups[i]).hash == h;
                if i < init.len() {
                    assert(init[i] == dups[i]);
                    assert(hs.contains(h));
                    if !hs.contains(d.hash) {
                        let k = choose|k: int| 0 <= k < hs.len() && hs[k] == h;
                        assert(r[k] == h);
                    }
                } else {
                    if !hs.contains(d.hash) {
                        assert(r[hs.len() as int] == h);
                    }
                }
            }
        }
    }
}

/// Two locations are the same place: the same file and the same first line.
pub open spec fn same_place(a: Loc, b: Loc) -> bool {
    a.0 == b.0 && a.1 == b.1
}

/// No two locations of the sequence are the same place.
pub open spec fn distinct_places(locs: Seq<Loc>) -> bool {
    forall|j: int, k: int| 0 <= j < k < locs.len() ==> !same_place(#[trigger] locs[j], #[trigger] locs[k])
}

/// A duplicate with hash `h` has one of its two copies in `file` starting at
/// line `start`.
pub open spec fn copy_at(dups: Seq<DuplicateMatch>, h: u64, file: Seq<char>, start: usize) -> bool {
    exists|i: int|
        0 <= i < dups.len() && (#[trigger] dups[i]).hash == h && ((dups[i].file1@ == file && dups[i].start_line1
            == start) || (dups[i].file2@ == file && dups[i].start_line2 == start))
}

/// File order is a total preorder.
proof fn lemma_loc_order_total()
    ensures
        total_preorder(loc_order()),
{
    assert forall|a: Loc, b: Loc| #[trigger] loc_order()(a, b) || loc_order()(b, a) by {
        assert(loc_order()(a, b) == loc_le(a, b));
        assert(loc_order()(b, a) == loc_le(b, a));
        lemma_lex_irreflexive(a.0);
        if lex_lt(a.0, b.0) && lex_lt(b.0, a.0) {
            lemma_lex_transitive(a.0, b.0, a.0);
        }
    }
    assert forall|a: Loc, b: Loc, c: Loc| #[trigger] loc_order()(a, b) && #[trigger] loc_order()(b, c)
        implies loc_order()(a, c) by {
        assert(loc_order()(a, b) == loc_le(a, b));
        assert(loc_order()(b, c) == loc_le(b, c));
        assert(loc_order()(a, c) == loc_le(a, c));
        lemma_lex_total(a.0, b.0);
        if lex_lt(c.0, a.0) && lex_lt(a.0, b.0) {
            lemma_lex_transitive(c.0, a.0, b.0);
        }
    }
}

/// Adding a location keeps the locations in file order and at distinct
/// places, and adds its place.
proof fn lemma_add_location(locs: Seq<Loc>, l: Loc)
    requires
        sorted_by(locs, loc_order()),
        distinct_places(locs),
    ensures
        sorted_by(add_location(locs, l), loc_order()),
        distinct_places(add_location(locs, l)),
        forall|file: Seq<char>, start: usize|
            #[trigger] has_location(add_location(locs, l), file, start) <==> has_location(locs, file, start) || (
            l.0 == file && l.1 == start),
{
    let r = add_location(locs, l);
    if has_location(locs, l.0, l.1) {
        assert forall|file: Seq<char>, start: usize| #[trigger] has_location(r, file, start) <==> has_location(locs, file, start) || (
            l.0 == file && l.1 == start) by {
        }
    } else {
        lemma_loc_order_total();
        lemma_insert_by_sorted(locs, l, loc_order());
        lemma_insert_by_split(locs, l, loc_order());
        let j = choose|j: int| 0 <= j <= locs.len() && insert_by(locs, l, loc_order()) == locs.take(j).push(l) + locs.skip(j);
        assert(r == locs.take(j).push(l) + locs.skip(j));
        assert(r.len() == locs.len() + 1);
        assert forall|k: int| 0 <= k < r.len() implies #[trigger] r[k] == (if k < j { locs[k] } else if k == j { l } else { locs[k - 1] }) by {
            if k < j {
                assert(r[k] == locs.take(j)[k]);
            } else if k > j {
                assert(r[k] == locs.skip(j)[k - j - 1]);
            }
        }
        assert forall|a: int, b: int| 0 <= a < b < r.len() implies !same_place(#[trigger] r[a], #[trigger] r[b]) by {
            if a == j {
                assert(!same_place(locs[b - 1], l));
            } else if b == j {
                assert(!same_place(locs[a], l));
            } else {
                let a2 = if a < j { a } else { a - 1 };
                let b2 = if b < j { b } else { b - 1 };
                assert(r[a] == locs[a2] && r[b] == locs[b2] && a2 < b2);
            }
        }
        assert forall|file: Seq<char>, start: usize| #[trigger] has_location(r, file, start) <==> has_location(locs, file, start) || (
            l.0 == file && l.1 == start) by {
            if has_location(r, file, start) {
                let k = choose|k: int| 0 <= k < r.len() && (#[trigger] r[k]).0 == file && r[k].1 == start;
                if k < j {
                    assert(locs[k] == r[k]);
                } else if k > j {
                    assert(locs[k - 1] == r[k]);
                }
            }
            if has_location(locs, file, start) {
                let k = choose|k: int| 0 <= k < locs.len() && (#[trigger] locs[k]).0 == file && locs[k].1 == start;
                if k < j {
                    assert(r[k] == locs[k]);
                } else {
                    assert(r[k + 1] == locs[k]);
                }
            }
            if l.0 == file && l.1 == start {
                assert(r[j] == l);
            }
        }
    }
}

/// The locations of a hash are in file order, at distinct places, and are
/// exactly the places of the copies of the duplicates with that hash.
pub proof fn lemma_group_locations(dups: Seq<DuplicateMatch>, h: u64)
    ensures
        sorted_by(group_locations(dups, h), loc_order()),
        distinct_places(group_locations(dups, h)),
        forall|file: Seq<char>, start: usize|
            #[trigger] has_location(group_locations(dups, h), file, start) <==> copy_at(dups, h, file, start),
    decreases dups.len(),
{
    if dups.len() > 0 {
        let init = dups.drop_last();
        lemma_group_locations(init, h);
        let locs = group_locations(init, h);
        let d = dups.last();
        let n = dups.len() - 1;
        assert(dups[n] == d);
        assert forall|i: int| 0 <= i < init.len() implies #[trigger] init[i] == dups[i] by {}
        if d.hash == h {
            let l1 = (d.file1@, d.start_line1, d.end_line1);
            let l2 = (d.file2@, d.start_line2, d.end_line2);
            lemma_add_location(locs, l1);
            lemma_add_location(add_location(locs, l1), l2);
            assert forall|file: Seq<char>, start: usize|
                #[trigger] has_location(group_locations(dups, h), file, start) <==> copy_at(dups, h, file, start) by {
                if copy_at(dups, h, file, start) {
                    let i = choose|i: int|
                        0 <= i < dups.len() && (#[trigger] dups[i]).hash == h && ((dups[i].file1@ == file
                            && dups[i].start_line1 == start) || (dups[i].file2@ == file && dups[i].start_line2 == start));
                    if i < n {
                        assert(init[i] == dups[i]);
                        assert(copy_at(init, h, file, start));
                    }
                }
                if copy_at(init, h, file, start) {
                    let i = choose|i: int|
                        0 <= i < init.len() && (#[trigger] init[i]).hash == h && ((init[i].file1@ == file
                            && init[i].start_line1 == start) || (init[i].file2@ == file && init[i].start_line2 == start));
                    assert(dups[i] == init[i]);
                }
            }
        } else {
            assert forall|file: Seq<char>, start: usize|
                #[trigger] has_location(group_locations(dups, h), file, start) <==> copy_at(dups, h, file, start) by {
                if copy_at(dups, h, file, start) {
                    let i = choose|i: int|
                        0 <= i < dups.len() && (#[trigger] dups[i]).hash == h && ((dups[i].file1@ == file
                            && dups[i].start_line1 == start) || (dups[i].file2@ == file && dups[i].start_line2 == start));
                    assert(i < n);
                    assert(init[i] == dups[i]);
                    assert(copy_at(init, h, file, start));
                }
                if copy_at(init, h, file, start) {
                    let i = choose|i: int|
                        0 <= i < init.len() && (#[trigger] init[i]).hash == h && ((init[i].file1@ == file
                            && init[i].start_line1 == start) || (init[i].file2@ == file && init[i].start_line2 == start));
                    assert(dups[i] == init[i]);
                }
            }
        }
    }
}

/// Group order is a total preorder.
proof fn lemma_group_order_total()
    ensures
        total_preorder(group_order()),
{
    assert forall|a: GroupV, b: GroupV| #[trigger] group_order()(a, b) || group_order()(b, a) by {
        assert(group_order()(a, b) == group_le(a, b));
        assert(group_order()(b, a) == group_le(b, a));
    }
    assert forall|a: GroupV, b: GroupV, c: GroupV| #[trigger] group_order()(a, b) && #[trigger] group_order()(b, c)
        implies group_order()(a, c) by {
        assert(group_order()(a, b) == group_le(a, b));
        assert(group_order()(b, c) == group_le(b, c));
        assert(group_order()(a, c) == group_le(a, c));
    }
}

/// The groups built from distinct hashes: one for each hash with three or
/// more locations, none other, in group order.
proof fn lemma_groups_from_exact(dups: Seq<DuplicateMatch>, hs: Seq<u64>)
    requires
        hs.no_duplicates(),
    ensures
        forall|k: int|
            0 <= k < groups_from(dups, hs).len() ==> hs.contains((#[trigger] groups_from(dups, hs)[k]).0)
                && groups_from(dups, hs)[k] == group_for(dups, groups_from(dups, hs)[k].0)
                && group_locations(dups, groups_from(dups, hs)[k].0).len() >= 3,
        forall|j: int, k: int|
            0 <= j < k < groups_from(dups, hs).len() ==> (#[trigger] groups_from(dups, hs)[j]).0 != (
            #[trigger] groups_from(dups, hs)[k]).0,
        forall|h: u64|
            hs.contains(h) && group_locations(dups, h).len() >= 3 ==> exists|k: int|
                0 <= k < groups_from(dups, hs).len() && (#[trigger] groups_from(dups, hs)[k]).0 == h,
        sorted_by(groups_from(dups, hs), group_order()),
    decreases hs.len(),
{
    if hs.len() > 0 {
        let init = hs.drop_last();
        let h = hs.last();
        assert(init.no_duplicates()) by {
            assert forall|a: int, b: int| 0 <= a < init.len() && 0 <= b < init.len() && a != b implies init[a] != init[b] by {
                assert(init[a] == hs[a] && init[b] == hs[b]);
            }
        }
        assert(!init.contains(h)) by {
            if init.contains(h) {
                let a = choose|a: int| 0 <= a < init.len() && init[a] == h;
                assert(hs[a] == hs[hs.len() - 1]);
            }
        }
        assert forall|x: u64| init.contains(x) implies hs.contains(x) by {
            let a = choose|a: int| 0 <= a < init.len() && init[a] == x;
            assert(hs[a] == x);
        }
        lemma_groups_from_exact(dups, init);
        let acc = groups_from(dups, init);
        let r = groups_from(dups, hs);
        if group_locations(dups, h).len() >= 3 {
            let g = group_for(dups, h);
            lemma_group_order_total();
            lemma_insert_by_sorted(acc, g, group_order());
            lemma_insert_by_split(acc, g, group_order());
            let j = choose|j: int| 0 <= j <= acc.len() && insert_by(acc, g, group_order()) == acc.take(j).push(g) + acc.skip(j);
            assert(r == acc.take(j).push(g) + acc.skip(j));
            assert(r.len() == acc.len() + 1);
            assert forall|k: int| 0 <= k < r.len() implies #[trigger] r[k] == (if k < j { acc[k] } else if k == j { g } else { acc[k - 1] }) by {
                if k < j {
                    assert(r[k] == acc.take(j)[k]);
                } else if k > j {
                    assert(r[k] == acc.skip(j)[k - j - 1]);
                }
            }
            assert(hs[hs.len() - 1] == h);
            assert forall|k: int| 0 <= k < r.len() implies hs.contains((#[trigger] r[k]).0) && r[k] == group_for(dups, r[k].0)
                && group_locations(dups, r[k].0).len() >= 3 by {
                if k < j {
                    assert(acc[k] == r[k]);
                } else if k > j {
                    assert(acc[k - 1] == r[k]);
                }
            }
            assert forall|a: int, b: int| 0 <= a < b < r.len() implies (#[trigger] r[a]).0 != (#[trigger] r[b]).0 by {
                if a == j {
                    assert(init.contains(acc[b - 1].0));
                } else if b == j {
                    assert(init.contains(acc[a].0));
                } else {
                    let a2 = if a < j { a } else { a - 1 };
                    let b2 = if b < j { b } else { b - 1 };
                    assert(r[a] == acc[a2] && r[b] == acc[b2] && a2 < b2);
                }
            }
            assert forall|x: u64| hs.contains(x) && group_locations(dups, x).len() >= 3 implies exists|k: int|
                0 <= k < r.len() && (#[trigger] r[k]).0 == x by {
                if x == h {
                    assert(r[j].0 == x);
                } else {
                    let a = choose|a: int| 0 <= a < hs.len() && hs[a] == x;
                    assert(init[a] == x);
                    assert(init.contains(x));
                    let k = choose|k: int| 0 <= k < acc.len() && (#[trigger] acc[k]).0 == x;
                    if k < j {
                        assert(r[k] == acc[k]);
                    } else {
                        assert(r[k + 1] == acc[k]);
                    }
                }
            }
        } else {
            assert forall|x: u64| hs.contains(x) && group_locations(dups, x).len() >= 3 implies exists|k: int|
                0 <= k < r.len() && (#[trigger] r[k]).0 == x by {
                let a = choose|a: int| 0 <= a < hs.len() && hs[a] == x;
                assert(a != hs.len() - 1);
                assert(init[a] == x);
                assert(init.contains(x));
            }
        }
    }
}

/// Clone groups are exactly the hashes whose duplicates have copies in three
/// or more distinct places: one group for each such hash and no other, each
/// with the clone type, length and ID of the first duplicate with that hash
/// and with the locations of its copies; groups with more copies come
/// first, and among those with as many the longer ones.
pub proof fn lemma_multi_way_groups(dups: Seq<DuplicateMatch>)
    ensures
        forall|k: int|
            0 <= k < multi_way_groups(dups).len() ==> (#[trigger] multi_way_groups(dups)[k]) == group_for(
                dups,
                multi_way_groups(dups)[k].0,
            ) && group_locations(dups, multi_way_groups(dups)[k].0).len() >= 3,
        forall|j: int, k: int|
            0 <= j < k < multi_way_groups(dups).len() ==> (#[trigger] multi_way_groups(dups)[j]).0 != (
            #[trigger] multi_way_groups(dups)[k]).0,
        forall|h: u64|
            group_locations(dups, h).len() >= 3 ==> exists|k: int|
                0 <= k < multi_way_groups(dups).len() && (#[trigger] multi_way_groups(dups)[k]).0 == h,
        sorted_by(multi_way_groups(dups), group_order()),
{
    lemma_hash_order(dups);
    lemma_groups_from_exact(dups, hash_order(dups));
    assert forall|h: u64| group_locations(dups, h).len() >= 3 implies exists|k: int|
        0 <= k < multi_way_groups(dups).len() && (#[trigger] multi_way_groups(dups)[k]).0 == h by {
        let gl = group_locations(dups, h);
        lemma_group_locations(dups, h);
        assert(has_location(gl, gl[0].0, gl[0].1));
        assert(copy_at(dups, h, gl[0].0, gl[0].1));
        let i = choose|i: int|
            0 <= i < dups.len() && (#[trigger] dups[i]).hash == h && ((dups[i].file1@ == gl[0].0
                && dups[i].start_line1 == gl[0].1) || (dups[i].file2@ == gl[0].0 && dups[i].start_line2 == gl[0].1));
        assert(hash_order(dups).contains(h));
        let gs = groups_from(dups, hash_order(dups));
        assert(multi_way_groups(dups) == gs);
        let k = choose|k: int| 0 <= k < gs.len() && (#[trigger] gs[k]).0 == h;
        assert(multi_way_groups(dups)[k].0 == h);
    }
}

} // verus!
