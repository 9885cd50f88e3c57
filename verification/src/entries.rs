//! Entry resolution: from the entry points as given to the map of output names
//! and input paths that the engine is started on.

use crate::config::{Declaration, EntrySpec};
use crate::keyed::{
    distinct_names, is_last_occurrence, last_given, last_wins, lemma_last_given,
    lemma_last_wins_distinct, lemma_last_wins_empty, lemma_last_wins_len, lemma_last_wins_push,
};
use crate::maps::{insert_entry, no_entries, resolved_paths, ResolvedEntryMap};
use crate::paths::{join_path, joined_path};
use vstd::prelude::*;

verus! {

/// The `(name, path)` pairs that `declared` resolves to under
/// `working_directory`, in the order declared.
pub open spec fn resolved_pairs(working_directory: Seq<char>, declared: Seq<Declaration>) -> Seq<
    (Seq<char>, Seq<char>),
> {
    Seq::new(
        declared.len(),
        |i: int| (declared[i].name, joined_path(working_directory, declared[i].path)),
    )
}

/// The resolved entry map: every declared output name, with the working
/// directory joined with the path of its last declaration.
pub open spec fn resolved_entries(working_directory: Seq<char>, declared: Seq<Declaration>) -> Map<
    Seq<char>,
    Seq<char>,
> {
    last_wins(resolved_pairs(working_directory, declared))
}

proof fn lemma_resolved_step(working_directory: Seq<char>, declared: Seq<Declaration>, n: int)
    requires
        0 <= n < declared.len(),
    ensures
        resolved_entries(working_directory, declared.take(n + 1)) == resolved_entries(
            working_directory,
            declared.take(n),
        ).insert(declared[n].name, joined_path(working_directory, declared[n].path)),
{
    let before = resolved_pairs(working_directory, declared.take(n));
    let after = resolved_pairs(working_directory, declared.take(n + 1));
    let name = declared[n].name;
    let path = joined_path(working_directory, declared[n].path);
    assert(after =~= before.push((name, path)));
    lemma_last_wins_push(before, name, path);
}

/// Resolves the entry points against the working directory. Nothing is
/// read from disk and nothing is rejected.
pub fn resolve(working_directory: &str, entry: &EntrySpec) -> (entries: ResolvedEntryMap)
    ensures
        resolved_paths(entries) == resolved_entries(working_directory@, entry@),
{
    let mut entries = no_entries();
    let ghost declared = entry@;
    proof {
        lemma_last_wins_empty::<Seq<char>>();
        assert(resolved_pairs(working_directory@, declared.take(0)) =~= Seq::empty());
    }
    match entry {
        EntrySpec::SingleFile(name) => {
            proof {
                lemma_resolved_step(working_directory@, declared, 0);
                assert(declared.take(1) =~= declared);
            }
            insert_entry(&mut entries, name.clone(), join_path(working_directory, name.as_str()));
        },
        EntrySpec::MultipleFiles(names) => {
            let mut i: usize = 0;
            while i < names.len()
                invariant
                    i <= names.len(),
                    declared == entry@,
                    declared.len() == names.len(),
                    *entry == EntrySpec::MultipleFiles(*names),
                    resolved_paths(entries) == resolved_entries(
                        working_directory@,
                        declared.take(i as int),
                    ),
                decreases names.len() - i,
            {
                proof {
                    lemma_resolved_step(working_directory@, declared, i as int);
                }
                let name = &names[i];
                insert_entry(&mut entries, name.clone(), join_path(working_directory, name.as_str()));
                i += 1;
            }
            assert(declared.take(i as int) =~= declared);
        },
        EntrySpec::NamedFiles(pairs) => {
            let mut i: usize = 0;
            while i < pairs.len()
                invariant
                    i <= pairs.len(),
                    declared == entry@,
                    declared.len() == pairs.len(),
                    *entry == EntrySpec::NamedFiles(*pairs),
                    resolved_paths(entries) == resolved_entries(
                        working_directory@,
                        declared.take(i as int),
                    ),
                decreases pairs.len() - i,
            {
                proof {
                    lemma_resolved_step(working_directory@, declared, i as int);
                }
                let pair = &pairs[i];
                insert_entry(&mut entries, pair.0.clone(), join_path(working_directory, pair.1.as_str()));
                i += 1;
            }
            assert(declared.take(i as int) =~= declared);
        },
    }
    entries
}

/// `i` is the position of the last declaration of `name`.
pub open spec fn is_last_declaration(declared: Seq<Declaration>, name: Seq<char>, i: int) -> bool {
    &&& 0 <= i < declared.len()
    &&& declared[i].name == name
    &&& forall|j: int| i < j < declared.len() ==> (#[trigger] declared[j]).name != name
}

/// No output name is declared twice.
pub open spec fn distinct_declarations(declared: Seq<Declaration>) -> bool {
    forall|i: int, j: int|
        0 <= i < j < declared.len() ==> (#[trigger] declared[i]).name != (#[trigger] declared[j]).name
}

/// Resolving `N` declarations gives at most `N` entries: one for each output
/// name that is declared and for no other name, and under each name the
/// working directory joined with the path of the name's last declaration.
pub proof fn lemma_resolved_entries(working_directory: Seq<char>, entry: EntrySpec)
    ensures
        resolved_entries(working_directory, entry@).dom().finite(),
        resolved_entries(working_directory, entry@).len() <= entry@.len(),
        forall|name: Seq<char>|
            #[trigger] resolved_entries(working_directory, entry@).contains_key(name) <==> exists|
                i: int,
            |
                0 <= i < entry@.len() && (#[trigger] entry@[i]).name == name,
        forall|name: Seq<char>|
            #[trigger] resolved_entries(working_directory, entry@).contains_key(name) ==> exists|
                i: int,
            |
                #[trigger] is_last_declaration(entry@, name, i) && resolved_entries(
                    working_directory,
                    entry@,
                )[name] == joined_path(working_directory, entry@[i].path),
{
    let declared = entry@;
    let pairs = resolved_pairs(working_directory, declared);
    let resolved = resolved_entries(working_directory, declared);
    lemma_last_wins_len(pairs);
    assert forall|name: Seq<char>| #[trigger] resolved.contains_key(name) <==> exists|i: int|
        0 <= i < declared.len() && (#[trigger] declared[i]).name == name by {
        lemma_last_given(pairs, name);
        if resolved.contains_key(name) {
            let i = choose|i: int| 0 <= i < pairs.len() && (#[trigger] pairs[i]).0 == name;
            assert(declared[i].name == name);
        }
        if exists|i: int| 0 <= i < declared.len() && (#[trigger] declared[i]).name == name {
            let i = choose|i: int| 0 <= i < declared.len() && (#[trigger] declared[i]).name == name;
            assert(pairs[i].0 == name);
        }
    }
    assert forall|name: Seq<char>| #[trigger] resolved.contains_key(name) implies exists|i: int|
        #[trigger] is_last_declaration(declared, name, i) && resolved[name] == joined_path(
            working_directory,
            declared[i].path,
        ) by {
        lemma_last_given(pairs, name);
        let i = choose|i: int|
            #[trigger] is_last_occurrence(pairs, name, i) && pairs[i].1 == last_given(pairs, name)->0;
        assert forall|j: int| i < j < declared.len() implies (#[trigger] declared[j]).name
            != name by {
            assert(pairs[j].0 == declared[j].name);
        }
        assert(is_last_declaration(declared, name, i));
    }
}

/// Where no output name is declared twice, `N` declarations resolve to exactly
/// `N` entries, and each declaration finds its own path under its name.
pub proof fn lemma_resolved_distinct(working_directory: Seq<char>, entry: EntrySpec)
    requires
        distinct_declarations(entry@),
    ensures
        resolved_entries(working_directory, entry@).len() == entry@.len(),
        forall|i: int|
            0 <= i < entry@.len() ==> resolved_entries(working_directory, entry@).contains_key(
                (#[trigger] entry@[i]).name,
            ) && resolved_entries(working_directory, entry@)[entry@[i].name] == joined_path(
                working_directory,
                entry@[i].path,
            ),
{
    let declared = entry@;
    let pairs = resolved_pairs(working_directory, declared);
    assert(distinct_names(pairs)) by {
        assert forall|i: int, j: int| 0 <= i < j < pairs.len() implies (#[trigger] pairs[i]).0 != (
        #[trigger] pairs[j]).0 by {
            assert(declared[i].name != declared[j].name);
        }
    }
    lemma_last_wins_distinct(pairs);
    assert forall|i: int| 0 <= i < declared.len() implies resolved_entries(
        working_directory,
        declared,
    ).contains_key((#[trigger] declared[i]).name) && resolved_entries(
        working_directory,
        declared,
    )[declared[i].name] == joined_path(working_directory, declared[i].path) by {
        assert(pairs[i].0 == declared[i].name);
    }
}

/// A single file resolves to one entry, named after the file.
pub proof fn lemma_resolved_single_file(working_directory: Seq<char>, entry: EntrySpec)
    requires
        entry is SingleFile,
    ensures
        resolved_entries(working_directory, entry@) == (Map::<Seq<char>, Seq<char>>::empty()).insert(
            entry->SingleFile_0@,
            joined_path(working_directory, entry->SingleFile_0@),
        ),
{
    let name = entry->SingleFile_0@;
    let path = joined_path(working_directory, name);
    lemma_last_wins_empty::<Seq<char>>();
    lemma_last_wins_push(Seq::empty(), name, path);
    assert(resolved_pairs(working_directory, entry@) =~= Seq::<(Seq<char>, Seq<char>)>::empty().push(
        (name, path),
    ));
}

/// A list of files resolves to one entry for each file name that occurs, however
/// often it occurs: a repeated name changes nothing.
pub proof fn lemma_resolved_multiple_files(working_directory: Seq<char>, entry: EntrySpec)
    requires
        entry is MultipleFiles,
    ensures
        resolved_entries(working_directory, entry@) == Map::new(
            |name: Seq<char>|
                exists|i: int|
                    0 <= i < entry->MultipleFiles_0@.len() && (
                    #[trigger] entry->MultipleFiles_0@[i])@ == name,
            |name: Seq<char>| joined_path(working_directory, name),
        ),
{
    let names = entry->MultipleFiles_0@;
    let declared = entry@;
    let resolved = resolved_entries(working_directory, declared);
    let expected = Map::new(
        |name: Seq<char>| exists|i: int| 0 <= i < names.len() && (#[trigger] names[i])@ == name,
        |name: Seq<char>| joined_path(working_directory, name),
    );
    lemma_resolved_entries(working_directory, entry);
    assert forall|name: Seq<char>| resolved.contains_key(name) <==> expected.contains_key(name) by {
        if resolved.contains_key(name) {
            let i = choose|i: int| 0 <= i < declared.len() && (#[trigger] declared[i]).name == name;
            assert(names[i]@ == name);
        }
        if expected.contains_key(name) {
            let i = choose|i: int| 0 <= i < names.len() && (#[trigger] names[i])@ == name;
            assert(declared[i].name == name);
        }
    }
    assert forall|name: Seq<char>| resolved.contains_key(name) implies resolved[name]
        == expected[name] by {
        let i = choose|i: int|
            #[trigger] is_last_declaration(declared, name, i) && resolved[name] == joined_path(
                working_directory,
                declared[i].path,
            );
        assert(declared[i].path == declared[i].name);
    }
    assert(resolved =~= expected);
}

/// The last declaration always wins: it puts its own path under its name,
/// whatever was declared under that name before, and leaves the entries of
/// the other names as they were.
pub proof fn lemma_last_declaration_wins(working_directory: Seq<char>, entry: EntrySpec)
    requires
        entry@.len() > 0,
    ensures
        resolved_entries(working_directory, entry@) == resolved_entries(
            working_directory,
            entry@.drop_last(),
        ).insert(entry@.last().name, joined_path(working_directory, entry@.last().path)),
{
    let declared = entry@;
    let n = declared.len() - 1;
    lemma_resolved_step(working_directory, declared, n);
    assert(declared.take(n + 1) =~= declared);
    assert(declared.take(n) =~= declared.drop_last());
}

} // verus!
