//! The table of virtual paths.
//!
//! A sandboxed plugin sees the host's directories under other names. The
//! table pairs each host prefix with the virtual prefix that stands for it.
//! It is built once, from two sources of which the later one wins, and is
//! only read afterwards.

use std::path::PathBuf;
use vstd::prelude::*;

verus! {

/// The pairs of a table as characters: host prefix, then virtual prefix.
pub open spec fn path_pairs(entries: Seq<(String, String)>) -> Seq<(Seq<char>, Seq<char>)> {
    entries.map_values(|entry: (String, String)| (entry.0@, entry.1@))
}

/// No host prefix stands in two pairs.
pub open spec fn distinct_hosts(pairs: Seq<(Seq<char>, Seq<char>)>) -> bool {
    forall|i: int, j: int| 0 <= i < j < pairs.len() ==> pairs[i].0 != pairs[j].0
}

/// The mapping that the pairs make when they are inserted one after the
/// other: of two pairs with one host prefix the later one stays.
pub open spec fn mapping_of(pairs: Seq<(Seq<char>, Seq<char>)>) -> Map<Seq<char>, Seq<char>>
    decreases pairs.len(),
{
    if pairs.len() == 0 {
        Map::empty()
    } else {
        mapping_of(pairs.drop_last()).insert(pairs.last().0, pairs.last().1)
    }
}

/// A host prefix is mapped exactly if it stands in some pair.
pub proof fn lemma_mapping_keys(pairs: Seq<(Seq<char>, Seq<char>)>, host: Seq<char>)
    ensures
        mapping_of(pairs).contains_key(host) <==> exists|i: int|
            0 <= i < pairs.len() && #[trigger] pairs[i].0 == host,
    decreases pairs.len(),
{
    if pairs.len() > 0 {
        let front = pairs.drop_last();
        lemma_mapping_keys(front, host);
        if mapping_of(pairs).contains_key(host) {
            if pairs.last().0 == host {
                assert(pairs[pairs.len() - 1].0 == host);
            } else {
                let i = choose|i: int| 0 <= i < front.len() && #[trigger] front[i].0 == host;
                assert(pairs[i].0 == host);
            }
        }
        if exists|i: int| 0 <= i < pairs.len() && #[trigger] pairs[i].0 == host {
            let i = choose|i: int| 0 <= i < pairs.len() && #[trigger] pairs[i].0 == host;
            if i < pairs.len() - 1 {
                assert(front[i].0 == host);
            }
        }
    }
}

/// Where no host prefix stands twice, each pair is what the mapping holds.
pub proof fn lemma_mapping_values(pairs: Seq<(Seq<char>, Seq<char>)>, i: int)
    requires
        distinct_hosts(pairs),
        0 <= i < pairs.len(),
    ensures
        mapping_of(pairs).contains_key(pairs[i].0),
        mapping_of(pairs)[pairs[i].0] == pairs[i].1,
    decreases pairs.len(),
{
    let front = pairs.drop_last();
    if i < pairs.len() - 1 {
        assert(distinct_hosts(front)) by {
            assert forall|a: int, b: int| 0 <= a < b < front.len() implies front[a].0
                != front[b].0 by {
                assert(pairs[a].0 != pairs[b].0);
            }
        }
        lemma_mapping_values(front, i);
        assert(front[i] == pairs[i]);
        assert(pairs[i].0 != pairs[pairs.len() - 1].0);
    }
}

/// Two tables without a repeated host prefix that hold the same pairs make
/// the same mapping, in whatever order the pairs stand.
pub proof fn lemma_mapping_of_same_pairs(
    left: Seq<(Seq<char>, Seq<char>)>,
    right: Seq<(Seq<char>, Seq<char>)>,
)
    requires
        distinct_hosts(left),
        distinct_hosts(right),
        forall|pair: (Seq<char>, Seq<char>)| left.contains(pair) <==> right.contains(pair),
    ensures
        mapping_of(left) == mapping_of(right),
{
    assert forall|host: Seq<char>| #[trigger]
        mapping_of(left).contains_key(host) implies mapping_of(right).contains_key(host)
        && mapping_of(right)[host] == mapping_of(left)[host] by {
        lemma_mapping_keys(left, host);
        let i = choose|i: int| 0 <= i < left.len() && #[trigger] left[i].0 == host;
        lemma_mapping_values(left, i);
        assert(left.contains(left[i]));
        assert(right.contains(left[i]));
        let j = choose|j: int| 0 <= j < right.len() && right[j] == left[i];
        lemma_mapping_values(right, j);
    }
    assert forall|host: Seq<char>| #[trigger]
        mapping_of(right).contains_key(host) implies mapping_of(left).contains_key(host) by {
        lemma_mapping_keys(right, host);
        let j = choose|j: int| 0 <= j < right.len() && #[trigger] right[j].0 == host;
        assert(right.contains(right[j]));
        assert(left.contains(right[j]));
        let i = choose|i: int| 0 <= i < left.len() && left[i] == right[j];
        lemma_mapping_values(left, i);
    }
    assert(mapping_of(left).dom() =~= mapping_of(right).dom());
    assert(mapping_of(left) =~= mapping_of(right));
}

/// A table that holds the pairs of one without a repeated host prefix, each
/// as often, has no repeated host prefix either.
pub proof fn lemma_reordered_keeps_distinct(
    before: Seq<(Seq<char>, Seq<char>)>,
    after: Seq<(Seq<char>, Seq<char>)>,
)
    requires
        distinct_hosts(before),
        before.to_multiset() == after.to_multiset(),
    ensures
        distinct_hosts(after),
        forall|pair: (Seq<char>, Seq<char>)| before.contains(pair) <==> after.contains(pair),
{
    before.to_multiset_ensures();
    after.to_multiset_ensures();
    assert(before.no_duplicates()) by {
        assert forall|i: int, j: int|
            0 <= i < before.len() && 0 <= j < before.len() && i != j implies before[i]
            != before[j] by {
            if i < j {
                assert(before[i].0 != before[j].0);
            } else {
                assert(before[j].0 != before[i].0);
            }
        }
    }
    before.lemma_multiset_has_no_duplicates();
    after.lemma_multiset_has_no_duplicates_conv();
    assert forall|pair: (Seq<char>, Seq<char>)| before.contains(pair) <==> after.contains(
        pair,
    ) by {
        assert(before.contains(pair) <==> before.to_multiset().count(pair) > 0);
        assert(after.contains(pair) <==> after.to_multiset().count(pair) > 0);
    }
    assert forall|i: int, j: int| 0 <= i < j < after.len() implies after[i].0 != after[j].0 by {
        assert(after[i] != after[j]);
        assert(after.contains(after[i]));
        assert(after.contains(after[j]));
        assert(after.to_multiset().count(after[i]) > 0);
        assert(after.to_multiset().count(after[j]) > 0);
        assert(before.to_multiset().count(after[i]) > 0);
        assert(before.to_multiset().count(after[j]) > 0);
        assert(before.contains(after[i]));
        assert(before.contains(after[j]));
        let a = choose|a: int| 0 <= a < before.len() && before[a] == after[i];
        let b = choose|b: int| 0 <= b < before.len() && before[b] == after[j];
        if a < b {
            assert(before[a].0 != before[b].0);
        } else if b < a {
            assert(before[b].0 != before[a].0);
        }
    }
}

/// Whether some pair has this host prefix.
pub open spec fn has_host(pairs: Seq<(Seq<char>, Seq<char>)>, host: Seq<char>) -> bool {
    exists|i: int| 0 <= i < pairs.len() && #[trigger] pairs[i].0 == host
}

/// Where a pair with this host prefix stands.
pub open spec fn host_position(pairs: Seq<(Seq<char>, Seq<char>)>, host: Seq<char>) -> int {
    choose|i: int| 0 <= i < pairs.len() && #[trigger] pairs[i].0 == host
}

/// The table with one more pair stored: in place of the pair with the same
/// host prefix where there is one, else at the end.
pub open spec fn with_pair(pairs: Seq<(Seq<char>, Seq<char>)>, pair: (Seq<char>, Seq<char>)) -> Seq<
    (Seq<char>, Seq<char>),
> {
    if has_host(pairs, pair.0) {
        pairs.update(host_position(pairs, pair.0), pair)
    } else {
        pairs.push(pair)
    }
}

/// The table that the pairs of the sources make when they are stored one
/// after the other.
pub open spec fn merged_pairs(sources: Seq<(Seq<char>, Seq<char>)>) -> Seq<(Seq<char>, Seq<char>)>
    decreases sources.len(),
{
    if sources.len() == 0 {
        Seq::empty()
    } else {
        with_pair(merged_pairs(sources.drop_last()), sources.last())
    }
}

/// Storing a pair keeps the host prefixes apart, and maps the pair's host
/// prefix to its virtual prefix, whatever it was mapped to before.
pub proof fn lemma_with_pair(pairs: Seq<(Seq<char>, Seq<char>)>, pair: (Seq<char>, Seq<char>))
    requires
        distinct_hosts(pairs),
    ensures
        distinct_hosts(with_pair(pairs, pair)),
        mapping_of(with_pair(pairs, pair)) == mapping_of(pairs).insert(pair.0, pair.1),
{
    let after = with_pair(pairs, pair);
    if has_host(pairs, pair.0) {
        let at = host_position(pairs, pair.0);
        assert(distinct_hosts(after)) by {
            assert forall|a: int, b: int| 0 <= a < b < after.len() implies after[a].0
                != after[b].0 by {
                assert(pairs[a].0 != pairs[b].0);
            }
        }
        assert forall|key: Seq<char>|
            mapping_of(after).contains_key(key) <==> mapping_of(pairs).insert(
                pair.0,
                pair.1,
            ).contains_key(key) by {
            lemma_mapping_keys(after, key);
            lemma_mapping_keys(pairs, key);
            if mapping_of(after).contains_key(key) {
                let a = choose|a: int| 0 <= a < after.len() && #[trigger] after[a].0 == key;
                assert(pairs[a].0 == key);
            }
            if mapping_of(pairs).contains_key(key) {
                let b = choose|b: int| 0 <= b < pairs.len() && #[trigger] pairs[b].0 == key;
                assert(after[b].0 == key);
            }
            if key == pair.0 {
                assert(after[at].0 == key);
            }
        }
        assert forall|key: Seq<char>| #[trigger]
            mapping_of(after).contains_key(key) implies mapping_of(after)[key] == mapping_of(
            pairs,
        ).insert(pair.0, pair.1)[key] by {
            lemma_mapping_keys(after, key);
            let a = choose|a: int| 0 <= a < after.len() && #[trigger] after[a].0 == key;
            lemma_mapping_values(after, a);
            if a != at {
                assert(after[a] == pairs[a]);
                lemma_mapping_values(pairs, a);
                if a < at {
                    assert(pairs[a].0 != pairs[at].0);
                } else {
                    assert(pairs[at].0 != pairs[a].0);
                }
            }
        }
        assert(mapping_of(after) =~= mapping_of(pairs).insert(pair.0, pair.1));
    } else {
        assert(after.drop_last() =~= pairs);
        assert forall|a: int, b: int| 0 <= a < b < after.len() implies after[a].0
            != after[b].0 by {
            if b == pairs.len() {
                assert(pairs[a].0 != pair.0);
            } else {
                assert(pairs[a].0 != pairs[b].0);
            }
        }
    }
}

/// The merged table has no repeated host prefix, and maps each host prefix
/// as the sources do when the later pair wins.
pub proof fn lemma_merged_pairs(sources: Seq<(Seq<char>, Seq<char>)>)
    ensures
        distinct_hosts(merged_pairs(sources)),
        mapping_of(merged_pairs(sources)) == mapping_of(sources),
    decreases sources.len(),
{
    if sources.len() > 0 {
        lemma_merged_pairs(sources.drop_last());
        lemma_with_pair(merged_pairs(sources.drop_last()), sources.last());
    }
}

/// Stores a pair in a table without a repeated host prefix.
fn put(entries: &mut Vec<(String, String)>, host: String, guest: String)
    requires
        distinct_hosts(path_pairs(old(entries)@)),
    ensures
        path_pairs(final(entries)@) == with_pair(path_pairs(old(entries)@), (host@, guest@)),
{
    let ghost before = path_pairs(entries@);
    let mut i: usize = 0;
    while i < entries.len()
        invariant
            i <= entries.len(),
            *entries == *old(entries),
            before == path_pairs(entries@),
            distinct_hosts(before),
            forall|j: int| 0 <= j < i ==> before[j].0 != host@,
        decreases entries.len() - i,
    {
        if entries[i].0 == host {
            proof {
                assert(before[i as int].0 == host@);
                let at = host_position(before, host@);
                if at < i {
                    assert(before[at].0 != before[i as int].0);
                } else if i < at {
                    assert(before[i as int].0 != before[at].0);
                }
            }
            entries.set(i, (host, guest));
            assert(path_pairs(entries@) =~= before.update(i as int, (host@, guest@)));
            return ;
        }
        i += 1;
    }
    entries.push((host, guest));
    assert(path_pairs(entries@) =~= before.push((host@, guest@)));
}

/// The pairs of two sources in one table without a repeated host prefix:
/// where both sources, or one source twice, name a host prefix, the pair
/// that comes last stays, in the place of the first.
pub fn merge_sources(first: &Vec<(String, String)>, second: &Vec<(String, String)>) -> (merged: Vec<
    (String, String),
>)
    ensures
        path_pairs(merged@) == merged_pairs(path_pairs(first@) + path_pairs(second@)),
        distinct_hosts(path_pairs(merged@)),
        mapping_of(path_pairs(merged@)) == mapping_of(path_pairs(first@) + path_pairs(second@)),
{
    let mut merged: Vec<(String, String)> = Vec::new();
    assert(path_pairs(merged@) =~= Seq::empty());
    assert(path_pairs(first@).take(0) =~= Seq::empty());
    let mut i: usize = 0;
    while i < first.len()
        invariant
            i <= first.len(),
            path_pairs(merged@) == merged_pairs(path_pairs(first@).take(i as int)),
        decreases first.len() - i,
    {
        let host = first[i].0.clone();
        let guest = first[i].1.clone();
        proof {
            lemma_merged_pairs(path_pairs(first@).take(i as int));
        }
        put(&mut merged, host, guest);
        proof {
            let seen = path_pairs(first@).take(i as int + 1);
            assert(seen.drop_last() =~= path_pairs(first@).take(i as int));
            assert(seen.last() == (first@[i as int].0@, first@[i as int].1@));
        }
        i += 1;
    }
    assert(path_pairs(first@).take(first.len() as int) =~= path_pairs(first@));
    assert(path_pairs(first@) + path_pairs(second@).take(0) =~= path_pairs(first@));
    let mut j: usize = 0;
    while j < second.len()
        invariant
            j <= second.len(),
            path_pairs(merged@) == merged_pairs(
                path_pairs(first@) + path_pairs(second@).take(j as int),
            ),
        decreases second.len() - j,
    {
        let host = second[j].0.clone();
        let guest = second[j].1.clone();
        proof {
            lemma_merged_pairs(path_pairs(first@) + path_pairs(second@).take(j as int));
        }
        put(&mut merged, host, guest);
        proof {
            let seen = path_pairs(first@) + path_pairs(second@).take(j as int + 1);
            assert(seen.drop_last() =~= path_pairs(first@) + path_pairs(second@).take(j as int));
            assert(seen.last() == (second@[j as int].0@, second@[j as int].1@));
        }
        j += 1;
    }
    assert(path_pairs(second@).take(second.len() as int) =~= path_pairs(second@));
    proof {
        lemma_merged_pairs(path_pairs(first@) + path_pairs(second@));
    }
    merged
}

/// The characters of a path that may be missing.
pub open spec fn text_of(path: Option<String>) -> Option<Seq<char>> {
    match path {
        Some(text) => Some(text@),
        None => None,
    }
}

/// What `warpgate_api::sort_paths_list` makes of a list of pairs: the same
/// pairs in the order in which the prefixes are tried.
pub uninterp spec fn specific_first(table: Seq<(Seq<char>, Seq<char>)>) -> Seq<
    (Seq<char>, Seq<char>),
>;

/// What `warpgate_api::convert_to_virtual_path` returns for a path and a
/// list of pairs.
pub uninterp spec fn virtual_form(path: Seq<char>, table: Seq<(Seq<char>, Seq<char>)>) -> Option<
    Seq<char>,
>;

/// What `warpgate_api::convert_to_real_native_path` returns for a path and
/// a list of pairs.
pub uninterp spec fn real_form(path: Seq<char>, table: Seq<(Seq<char>, Seq<char>)>) -> Seq<char>;

/// Calls `warpgate_api::sort_paths_list`, which sorts the list in place.
/// The contract names the order, and says that the sorted list holds the
/// pairs that were handed in, each as often.
#[verifier::external_body]
fn sort_entries(entries: Vec<(String, String)>) -> (sorted: Vec<(String, String)>)
    ensures
        path_pairs(sorted@) == specific_first(path_pairs(entries@)),
        path_pairs(sorted@).to_multiset() == path_pairs(entries@).to_multiset(),
{
    let mut list: Vec<(PathBuf, PathBuf)> =
        entries.into_iter().map(|(host, guest)| (PathBuf::from(host), PathBuf::from(guest))).collect();
    warpgate_api::sort_paths_list(&mut list);
    list.into_iter().map(
        |(host, guest)| (host.to_string_lossy().into_owned(), guest.to_string_lossy().into_owned()),
    ).collect()
}

/// Calls `warpgate_api::convert_to_virtual_path`, which tries the pairs in
/// their order and returns `None` where none of them fits. The contract
/// names the result, and says that an empty list fits no path.
#[verifier::external_body]
fn convert_to_virtual(path: &str, entries: &Vec<(String, String)>) -> (converted: Option<String>)
    ensures
        text_of(converted) == virtual_form(path@, path_pairs(entries@)),
        entries@.len() == 0 ==> converted is None,
{
    let list: Vec<(PathBuf, PathBuf)> =
        entries.iter().map(|(host, guest)| (PathBuf::from(host), PathBuf::from(guest))).collect();
    warpgate_api::convert_to_virtual_path(path, &list).map(|found| found.to_string_lossy().into_owned())
}

/// Calls `warpgate_api::convert_to_real_native_path`, which tries the pairs
/// in their order and returns the path itself where none of them fits. The
/// contract names the result, and says that an empty list leaves every
/// path as it is.
#[verifier::external_body]
fn convert_to_real(path: &str, entries: &Vec<(String, String)>) -> (converted: String)
    ensures
        converted@ == real_form(path@, path_pairs(entries@)),
        entries@.len() == 0 ==> converted@ == path@,
{
    let list: Vec<(PathBuf, PathBuf)> =
        entries.iter().map(|(host, guest)| (PathBuf::from(host), PathBuf::from(guest))).collect();
    warpgate_api::convert_to_real_native_path(path, &list).to_string_lossy().into_owned()
}

/// The virtual form of a path once the table has been asked: what the
/// table gave, or the path itself where no pair fits.
pub fn virtual_or_same(path: &str, converted: Option<String>) -> (r: String)
    ensures
        r@ == match converted {
            Some(found) => found@,
            None => path@,
        },
{
    match converted {
        Some(found) => found,
        None => path.to_owned(),
    }
}

/// The pairs of host prefix and virtual prefix, merged from two sources
/// and put in the order in which the prefixes are tried.
#[derive(Debug)]
pub struct VirtualPathTable {
    entries: Vec<(String, String)>,
}

impl VirtualPathTable {
    /// The pairs of the table, in their order.
    pub closed spec fn pairs(&self) -> Seq<(Seq<char>, Seq<char>)> {
        path_pairs(self.entries@)
    }

    /// The mapping from host prefix to virtual prefix.
    pub open spec fn mapping(&self) -> Map<Seq<char>, Seq<char>> {
        mapping_of(self.pairs())
    }

    /// No host prefix stands in two pairs.
    pub open spec fn wf(&self) -> bool {
        distinct_hosts(self.pairs())
    }

    /// The virtual form of a host path under this table.
    pub open spec fn to_virtual_spec(&self, path: Seq<char>) -> Seq<char> {
        match virtual_form(path, self.pairs()) {
            Some(found) => found,
            None => path,
        }
    }

    /// The host form of a virtual path under this table.
    pub open spec fn from_virtual_spec(&self, path: Seq<char>) -> Seq<char> {
        real_form(path, self.pairs())
    }

    /// Builds the table from two sources. Where both name a host prefix,
    /// the second source's pair stays.
    pub fn new(first: &Vec<(String, String)>, second: &Vec<(String, String)>) -> (table: Self)
        ensures
            table.wf(),
            table.pairs() == specific_first(
                merged_pairs(path_pairs(first@) + path_pairs(second@)),
            ),
            table.mapping() == mapping_of(path_pairs(first@) + path_pairs(second@)),
            first@.len() == 0 && second@.len() == 0 ==> table.pairs().len() == 0,
    {
        let merged = merge_sources(first, second);
        let ghost before = path_pairs(merged@);
        let entries = sort_entries(merged);
        proof {
            let after = path_pairs(entries@);
            lemma_reordered_keeps_distinct(before, after);
            lemma_mapping_of_same_pairs(before, after);
            before.to_multiset_ensures();
            after.to_multiset_ensures();
            if first@.len() == 0 && second@.len() == 0 {
                assert(path_pairs(first@) + path_pairs(second@) =~= Seq::empty());
            }
        }
        VirtualPathTable { entries }
    }

    /// The pairs of the table, in the order in which they are tried.
    pub fn entries(&self) -> (r: &Vec<(String, String)>)
        ensures
            path_pairs(r@) == self.pairs(),
    {
        &self.entries
    }

    /// How many pairs the table holds.
    pub fn len(&self) -> (r: usize)
        ensures
            r == self.pairs().len(),
    {
        self.entries.len()
    }

    /// Rewrites a host path to the path that the sandbox sees. A path
    /// that no pair fits is returned as it is.
    pub fn to_virtual_path(&self, path: &str) -> (r: String)
        ensures
            r@ == self.to_virtual_spec(path@),
            self.pairs().len() == 0 ==> r@ == path@,
    {
        let converted = convert_to_virtual(path, &self.entries);
        virtual_or_same(path, converted)
    }

    /// Rewrites a path that the sandbox sees to the host path. A path
    /// that no pair fits is returned as it is.
    pub fn from_virtual_path(&self, path: &str) -> (r: String)
        ensures
            r@ == self.from_virtual_spec(path@),
            self.pairs().len() == 0 ==> r@ == path@,
    {
        convert_to_real(path, &self.entries)
    }
}

} // verus!
