//! The entry model: one candidate directory with what was learnt of it when
//! the root was scanned, and the stable orderings the lists are kept in.

use vstd::prelude::*;

verus! {

/// One discovered directory.
///
/// Times are nanoseconds after the Unix epoch, negative before it. The
/// marker flags say which well-known project files the directory holds; they
/// are shown, and never take part in ranking or selection.
#[derive(Debug)]
pub struct TryEntry {
    pub name: String,
    pub modified: i128,
    pub created: i128,
    pub score: i64,
    pub is_git: bool,
    pub is_mise: bool,
    pub is_cargo: bool,
    pub is_maven: bool,
    pub is_flutter: bool,
    pub is_go: bool,
    pub is_python: bool,
}

impl Clone for TryEntry {
    fn clone(&self) -> (copy: Self)
        ensures
            copy == *self,
    {
        TryEntry {
            name: self.name.clone(),
            modified: self.modified,
            created: self.created,
            score: self.score,
            is_git: self.is_git,
            is_mise: self.is_mise,
            is_cargo: self.is_cargo,
            is_maven: self.is_maven,
            is_flutter: self.is_flutter,
            is_go: self.is_go,
            is_python: self.is_python,
        }
    }
}

/// A kind of project, known by a file that its directories hold.
#[derive(Clone, Copy, PartialEq, Eq, Structural, Debug)]
pub enum Marker {
    Git,
    Mise,
    Cargo,
    Maven,
    Flutter,
    Go,
    Python,
}

/// The files that show a directory to be a project of kind `marker`: any one
/// of them is enough.
pub open spec fn marker_file_names(marker: Marker) -> Seq<Seq<char>> {
    match marker {
        Marker::Git => seq![".git"@],
        Marker::Mise => seq!["mise.toml"@],
        Marker::Cargo => seq!["Cargo.toml"@],
        Marker::Maven => seq!["pom.xml"@],
        Marker::Flutter => seq!["pubspec.yaml"@],
        Marker::Go => seq!["go.mod"@],
        Marker::Python => seq!["pyproject.toml"@, "requirements.txt"@],
    }
}

/// The names of a list of strings.
pub open spec fn names_of(files: Seq<String>) -> Seq<Seq<char>> {
    files.map_values(|file: String| file@)
}

/// The files to look for in a directory to learn whether it is a project of
/// kind `marker`.
pub fn marker_files(marker: Marker) -> (files: Vec<String>)
    ensures
        names_of(files@) == marker_file_names(marker),
{
    let mut files: Vec<String> = Vec::new();
    match marker {
        Marker::Git => files.push(".git".to_owned()),
        Marker::Mise => files.push("mise.toml".to_owned()),
        Marker::Cargo => files.push("Cargo.toml".to_owned()),
        Marker::Maven => files.push("pom.xml".to_owned()),
        Marker::Flutter => files.push("pubspec.yaml".to_owned()),
        Marker::Go => files.push("go.mod".to_owned()),
        Marker::Python => {
            files.push("pyproject.toml".to_owned());
            files.push("requirements.txt".to_owned());
        },
    }
    assert(names_of(files@) =~= marker_file_names(marker));
    files
}

/// Every kind of project that is looked for.
pub fn all_markers() -> (markers: Vec<Marker>)
    ensures
        markers@ == seq![
            Marker::Git,
            Marker::Mise,
            Marker::Cargo,
            Marker::Maven,
            Marker::Flutter,
            Marker::Go,
            Marker::Python,
        ],
{
    let mut markers: Vec<Marker> = Vec::new();
    markers.push(Marker::Git);
    markers.push(Marker::Mise);
    markers.push(Marker::Cargo);
    markers.push(Marker::Maven);
    markers.push(Marker::Flutter);
    markers.push(Marker::Go);
    markers.push(Marker::Python);
    assert(markers@ =~= seq![
        Marker::Git,
        Marker::Mise,
        Marker::Cargo,
        Marker::Maven,
        Marker::Flutter,
        Marker::Go,
        Marker::Python,
    ]);
    markers
}

impl TryEntry {
    /// The entry with its rank score replaced.
    pub open spec fn with_score(self, score: i64) -> TryEntry {
        TryEntry { score, ..self }
    }

    /// The entry as a project of kind `marker`.
    pub open spec fn marked(self, marker: Marker) -> TryEntry {
        match marker {
            Marker::Git => TryEntry { is_git: true, ..self },
            Marker::Mise => TryEntry { is_mise: true, ..self },
            Marker::Cargo => TryEntry { is_cargo: true, ..self },
            Marker::Maven => TryEntry { is_maven: true, ..self },
            Marker::Flutter => TryEntry { is_flutter: true, ..self },
            Marker::Go => TryEntry { is_go: true, ..self },
            Marker::Python => TryEntry { is_python: true, ..self },
        }
    }

    /// Whether the entry is known as a project of kind `marker`.
    pub open spec fn has_marker(self, marker: Marker) -> bool {
        match marker {
            Marker::Git => self.is_git,
            Marker::Mise => self.is_mise,
            Marker::Cargo => self.is_cargo,
            Marker::Maven => self.is_maven,
            Marker::Flutter => self.is_flutter,
            Marker::Go => self.is_go,
            Marker::Python => self.is_python,
        }
    }

    /// A directory as it is found: no markers, no score yet.
    pub fn new(name: String, modified: i128, created: i128) -> (entry: TryEntry)
        ensures
            entry.name == name,
            entry.modified == modified,
            entry.created == created,
            entry.score == 0,
            forall|marker: Marker| !entry.has_marker(marker),
    {
        TryEntry {
            name,
            modified,
            created,
            score: 0,
            is_git: false,
            is_mise: false,
            is_cargo: false,
            is_maven: false,
            is_flutter: false,
            is_go: false,
            is_python: false,
        }
    }

    /// Notes that one of the files of `marker` was found in the directory.
    pub fn mark(&mut self, marker: Marker)
        ensures
            *final(self) == old(self).marked(marker),
    {
        match marker {
            Marker::Git => self.is_git = true,
            Marker::Mise => self.is_mise = true,
            Marker::Cargo => self.is_cargo = true,
            Marker::Maven => self.is_maven = true,
            Marker::Flutter => self.is_flutter = true,
            Marker::Go => self.is_go = true,
            Marker::Python => self.is_python = true,
        }
    }
}

/// The field a list of entries is ordered by.
#[derive(Clone, Copy, PartialEq, Eq, Structural, Debug)]
pub enum SortKey {
    /// Time of last modification: most recent first.
    Modified,
    /// Rank score of the current query: best match first.
    Score,
}

/// The value of `entry` under `key`.
pub open spec fn key_of(entry: TryEntry, key: SortKey) -> int {
    match key {
        SortKey::Modified => entry.modified as int,
        SortKey::Score => entry.score as int,
    }
}

/// `sorted` with `entry` put behind every element that does not rank below it.
pub open spec fn insert_descending(sorted: Seq<TryEntry>, entry: TryEntry, key: SortKey) -> Seq<
    TryEntry,
>
    decreases sorted.len(),
{
    if sorted.len() > 0 && key_of(sorted.last(), key) < key_of(entry, key) {
        insert_descending(sorted.drop_last(), entry, key).push(sorted.last())
    } else {
        sorted.push(entry)
    }
}

/// `entries` in descending order of `key`, equal keys in their given order.
pub open spec fn sorted_descending(entries: Seq<TryEntry>, key: SortKey) -> Seq<TryEntry>
    decreases entries.len(),
{
    if entries.len() == 0 {
        entries
    } else {
        insert_descending(sorted_descending(entries.drop_last(), key), entries.last(), key)
    }
}

/// Whether the keys of `entries` never rise from one element to the next.
pub open spec fn is_descending(entries: Seq<TryEntry>, key: SortKey) -> bool {
    forall|i: int, j: int|
        0 <= i <= j < entries.len() ==> key_of(#[trigger] entries[i], key) >= key_of(
            #[trigger] entries[j],
            key,
        )
}

/// The elements of `entries` whose key is `value`, in their order.
pub open spec fn with_key(entries: Seq<TryEntry>, key: SortKey, value: int) -> Seq<TryEntry> {
    entries.filter(|e: TryEntry| key_of(e, key) == value)
}

/// Inserting keeps every element and adds one.
pub proof fn lemma_insert_descending_len(sorted: Seq<TryEntry>, entry: TryEntry, key: SortKey)
    ensures
        insert_descending(sorted, entry, key).len() == sorted.len() + 1,
        insert_descending(sorted, entry, key).to_multiset() == sorted.to_multiset().insert(entry),
    decreases sorted.len(),
{
    broadcast use vstd::seq_lib::group_to_multiset_ensures;

    if sorted.len() > 0 && key_of(sorted.last(), key) < key_of(entry, key) {
        let rest = sorted.drop_last();
        lemma_insert_descending_len(rest, entry, key);
        assert(rest.push(sorted.last()) =~= sorted);
        assert(insert_descending(rest, entry, key).push(sorted.last()).to_multiset()
            =~= sorted.to_multiset().insert(entry));
    }
}

/// Inserting into a descending list gives a descending list.
pub proof fn lemma_insert_descending_ordered(sorted: Seq<TryEntry>, entry: TryEntry, key: SortKey)
    requires
        is_descending(sorted, key),
    ensures
        is_descending(insert_descending(sorted, entry, key), key),
        forall|i: int|
            0 <= i < insert_descending(sorted, entry, key).len() ==> {
                ||| #[trigger] insert_descending(sorted, entry, key)[i] == entry
                ||| sorted.contains(insert_descending(sorted, entry, key)[i])
            },
    decreases sorted.len(),
{
    let out = insert_descending(sorted, entry, key);
    if sorted.len() > 0 && key_of(sorted.last(), key) < key_of(entry, key) {
        let rest = sorted.drop_last();
        let last = sorted.last();
        assert forall|i: int, j: int| 0 <= i <= j < rest.len() implies key_of(
            #[trigger] rest[i],
            key,
        ) >= key_of(#[trigger] rest[j], key) by {
            assert(rest[i] == sorted[i] && rest[j] == sorted[j]);
        }
        lemma_insert_descending_ordered(rest, entry, key);
        let inner = insert_descending(rest, entry, key);
        assert forall|i: int| 0 <= i < out.len() implies (#[trigger] out[i] == entry
            || sorted.contains(out[i])) by {
            if i < inner.len() {
                assert(out[i] == inner[i]);
                if inner[i] != entry {
                    let k = choose|k: int| 0 <= k < rest.len() && rest[k] == inner[i];
                    assert(sorted[k] == inner[i]);
                }
            } else {
                assert(out[i] == sorted[sorted.len() - 1]);
            }
        }
        assert forall|i: int, j: int| 0 <= i <= j < out.len() implies key_of(#[trigger] out[i], key)
            >= key_of(#[trigger] out[j], key) by {
            if j < inner.len() {
                assert(out[i] == inner[i] && out[j] == inner[j]);
            } else if i < inner.len() {
                assert(out[i] == inner[i]);
                if inner[i] != entry {
                    let k = choose|k: int| 0 <= k < rest.len() && rest[k] == inner[i];
                    assert(sorted[k] == inner[i]);
                    assert(key_of(sorted[k], key) >= key_of(sorted[sorted.len() - 1], key));
                }
            }
        }
    } else {
        assert forall|i: int| 0 <= i < out.len() implies (#[trigger] out[i] == entry
            || sorted.contains(out[i])) by {
            if i < sorted.len() {
                assert(sorted[i] == out[i]);
            }
        }
        assert forall|i: int, j: int| 0 <= i <= j < out.len() implies key_of(#[trigger] out[i], key)
            >= key_of(#[trigger] out[j], key) by {
            if j < sorted.len() {
                assert(out[i] == sorted[i] && out[j] == sorted[j]);
            } else if i < sorted.len() {
                assert(out[i] == sorted[i]);
                assert(key_of(sorted[i], key) >= key_of(sorted[sorted.len() - 1], key));
            }
        }
    }
}

/// Among the elements of one key, the inserted entry comes last and the
/// others keep their order.
pub proof fn lemma_insert_descending_stable(
    sorted: Seq<TryEntry>,
    entry: TryEntry,
    key: SortKey,
    value: int,
)
    ensures
        with_key(insert_descending(sorted, entry, key), key, value) == if key_of(entry, key)
            == value {
            with_key(sorted, key, value).push(entry)
        } else {
            with_key(sorted, key, value)
        },
    decreases sorted.len(),
{
    reveal(Seq::filter);
    let pred = |e: TryEntry| key_of(e, key) == value;
    if sorted.len() > 0 && key_of(sorted.last(), key) < key_of(entry, key) {
        let rest = sorted.drop_last();
        lemma_insert_descending_stable(rest, entry, key, value);
        let inner = insert_descending(rest, entry, key);
        assert(inner.push(sorted.last()).drop_last() =~= inner);
    } else {
        assert(sorted.push(entry).drop_last() =~= sorted);
    }
}

/// Sorting keeps every entry, as often as it was given.
pub proof fn lemma_sorted_descending_permutes(entries: Seq<TryEntry>, key: SortKey)
    ensures
        sorted_descending(entries, key).len() == entries.len(),
        sorted_descending(entries, key).to_multiset() == entries.to_multiset(),
    decreases entries.len(),
{
    broadcast use vstd::seq_lib::group_to_multiset_ensures;

    if entries.len() > 0 {
        let rest = entries.drop_last();
        lemma_sorted_descending_permutes(rest, key);
        lemma_insert_descending_len(sorted_descending(rest, key), entries.last(), key);
        assert(rest.push(entries.last()) =~= entries);
    }
}

/// Sorting neither drops an entry nor brings one in.
pub proof fn lemma_sorted_descending_contains(entries: Seq<TryEntry>, key: SortKey, entry: TryEntry)
    ensures
        sorted_descending(entries, key).contains(entry) <==> entries.contains(entry),
{
    lemma_sorted_descending_permutes(entries, key);
    vstd::seq_lib::to_multiset_contains(sorted_descending(entries, key), entry);
    vstd::seq_lib::to_multiset_contains(entries, entry);
}

/// The sorted list is in descending order of the key.
pub proof fn lemma_sorted_descending_ordered(entries: Seq<TryEntry>, key: SortKey)
    ensures
        is_descending(sorted_descending(entries, key), key),
    decreases entries.len(),
{
    if entries.len() > 0 {
        lemma_sorted_descending_ordered(entries.drop_last(), key);
        lemma_insert_descending_ordered(
            sorted_descending(entries.drop_last(), key),
            entries.last(),
            key,
        );
    }
}

/// Sorting is stable: the entries of any one key come out in the order in
/// which they were given.
pub proof fn lemma_sorted_descending_stable(entries: Seq<TryEntry>, key: SortKey, value: int)
    ensures
        with_key(sorted_descending(entries, key), key, value) == with_key(entries, key, value),
    decreases entries.len(),
{
    reveal(Seq::filter);
    if entries.len() > 0 {
        let rest = entries.drop_last();
        lemma_sorted_descending_stable(rest, key, value);
        lemma_insert_descending_stable(sorted_descending(rest, key), entries.last(), key, value);
    }
}

/// A list that is already in descending order is left as it is.
pub proof fn lemma_sorted_descending_fixed(entries: Seq<TryEntry>, key: SortKey)
    requires
        is_descending(entries, key),
    ensures
        sorted_descending(entries, key) == entries,
    decreases entries.len(),
{
    if entries.len() > 0 {
        let rest = entries.drop_last();
        assert forall|i: int, j: int| 0 <= i <= j < rest.len() implies key_of(
            #[trigger] rest[i],
            key,
        ) >= key_of(#[trigger] rest[j], key) by {
            assert(rest[i] == entries[i] && rest[j] == entries[j]);
        }
        lemma_sorted_descending_fixed(rest, key);
        if rest.len() > 0 {
            assert(rest.last() == entries[rest.len() - 1]);
            assert(key_of(entries[rest.len() - 1], key) >= key_of(entries[entries.len() - 1], key));
        }
        assert(rest.push(entries.last()) =~= entries);
    }
}

/// Whether `a` orders strictly before `b` is decided by this comparison of keys.
fn ranks_below(a: &TryEntry, b: &TryEntry, key: SortKey) -> (below: bool)
    ensures
        below == (key_of(*a, key) < key_of(*b, key)),
{
    match key {
        SortKey::Modified => a.modified < b.modified,
        SortKey::Score => a.score < b.score,
    }
}

/// Sorts `entries` in place, in descending order of `key`; entries with equal
/// keys keep their order.
pub fn sort_descending(entries: &mut Vec<TryEntry>, key: SortKey)
    ensures
        final(entries)@ == sorted_descending(old(entries)@, key),
{
    let ghost given = entries@;
    let mut done: usize = 0;
    while done < entries.len()
        invariant
            done <= entries@.len() == given.len(),
            entries@ == sorted_descending(given.take(done as int), key) + given.skip(done as int),
        decreases entries@.len() - done,
    {
        let ghost head = sorted_descending(given.take(done as int), key);
        let entry = entries.remove(done);
        assert(entry == given[done as int]);
        assert(entries@ =~= head + given.skip(done + 1));
        let mut at: usize = done;
        assert(head.take(at as int) =~= head && head.skip(at as int) =~= Seq::<TryEntry>::empty());
        while at > 0 && ranks_below(&entries[at - 1], &entry, key)
            invariant
                at <= done < given.len(),
                head.len() == done,
                entries@ == head + given.skip(done + 1),
                insert_descending(head, entry, key) == insert_descending(
                    head.take(at as int),
                    entry,
                    key,
                ) + head.skip(at as int),
            decreases at,
        {
            let ghost front = head.take(at as int);
            assert(front.drop_last() =~= head.take(at - 1));
            assert(insert_descending(front.drop_last(), entry, key).push(front.last()) + head.skip(
                at as int,
            ) =~= insert_descending(front.drop_last(), entry, key) + head.skip(at - 1));
            at -= 1;
        }
        entries.insert(at, entry);
        proof {
            let front = head.take(at as int);
            assert(insert_descending(front, entry, key) == front.push(entry));
            assert(given.take(done + 1).drop_last() =~= given.take(done as int));
            assert(entries@ =~= insert_descending(head, entry, key) + given.skip(done + 1));
        }
        done += 1;
    }
    assert(given.take(done as int) =~= given);
}

} // verus!
