//! The contract registry: discovery planning, validation, and immutable
//! name-to-contract storage.
//!
//! Discovery proceeds in two steps.  First, [`plan_discovery`] filters a
//! directory listing down to the script files (the ones with the recognized
//! `.zen` extension) and derives each contract's name by stripping that
//! extension.  Second, [`Registry::build`] takes the named files with their
//! bytes, rejects embedded NUL bytes (the execution engine needs
//! C-string-compatible buffers) and duplicate names, and produces the
//! immutable registry.  Discovery failure is fatal to startup; the registry
//! is never mutated once built, so lookups need no synchronization.

use vstd::prelude::*;
use vstd::string::StrSliceExecFns;
use vstd::string::StringExecFns;

use crate::input::nul_free;

verus! {

/// One discovered contract: a name, the script bytes, and companion key
/// material (an empty sequence where no key file exists).
pub struct Contract {
    pub name: String,
    pub script: Vec<u8>,
    pub keys: Vec<u8>,
}

/// A discovered script file before validation: the derived contract name,
/// the script bytes, and the bytes of the companion key file where one
/// exists on disk.
pub struct ContractFile {
    pub name: String,
    pub script: Vec<u8>,
    pub keys: Option<Vec<u8>>,
}

/// Why discovery failed.  Any of these aborts startup: the service must not
/// come up with a partially built registry.
#[derive(Debug)]
pub enum DiscoveryError {
    /// The named contract's script or key bytes hold an embedded NUL byte,
    /// which the execution engine's string representation cannot carry.
    EmbeddedNul { name: String },
    /// Two discovered files derive the same contract name.
    DuplicateName { name: String },
}

/// The mathematical value of a discovered file: name, script bytes, and
/// optional key bytes.
pub type FileModel = (Seq<char>, Seq<u8>, Option<Seq<u8>>);

/// The mathematical value of a registry entry: name, script bytes, key bytes.
pub type EntryModel = (Seq<char>, Seq<u8>, Seq<u8>);

/// The model of one discovered file.
pub open spec fn file_model(f: ContractFile) -> FileModel {
    (f.name@, f.script@, match f.keys {
        Option::None => Option::None,
        Option::Some(k) => Option::Some(k@),
    })
}

/// The models of a sequence of discovered files.
pub open spec fn files_model(fs: Seq<ContractFile>) -> Seq<FileModel> {
    fs.map(|i: int, f: ContractFile| file_model(f))
}

/// Key material as stored: the key file's bytes, or empty where none exists.
pub open spec fn keys_or_empty(k: Option<Seq<u8>>) -> Seq<u8> {
    match k {
        Option::None => Seq::<u8>::empty(),
        Option::Some(s) => s,
    }
}

/// A file the engine can accept: script and key bytes free of embedded NUL.
pub open spec fn file_ok(m: FileModel) -> bool {
    nul_free(m.1) && nul_free(keys_or_empty(m.2))
}

/// Whether discovery must fail at file `i`: its bytes are unacceptable, or
/// an earlier file already claimed its name.
pub open spec fn bad_at(ms: Seq<FileModel>, i: int) -> bool {
    !file_ok(ms[i]) || exists|j: int| 0 <= j < i && ms[j].0 == ms[i].0
}

/// Whether a whole set of discovered files builds a registry.
pub open spec fn files_ok(ms: Seq<FileModel>) -> bool {
    forall|i: int| 0 <= i < ms.len() ==> !bad_at(ms, i)
}

/// File `i` is the first one discovery fails at.
pub open spec fn first_bad(ms: Seq<FileModel>, i: int) -> bool {
    0 <= i < ms.len() && bad_at(ms, i) && forall|j: int| 0 <= j < i ==> !bad_at(ms, j)
}

/// The error reported for a failure at file `i`: an embedded NUL is reported
/// as such; otherwise the failure is a duplicate name.  Either way the error
/// carries the offending contract's name.
pub open spec fn error_for(ms: Seq<FileModel>, i: int, e: DiscoveryError) -> bool {
    if !file_ok(ms[i]) {
        e matches DiscoveryError::EmbeddedNul { name } && name@ == ms[i].0
    } else {
        e matches DiscoveryError::DuplicateName { name } && name@ == ms[i].0
    }
}

/// The registry entries a set of valid files produces: one per file, in
/// order, keyed by the file's name, with absent key material defaulted to
/// the empty sequence.
pub open spec fn entries_of(ms: Seq<FileModel>) -> Seq<EntryModel> {
    ms.map(|i: int, m: FileModel| (m.0, m.1, keys_or_empty(m.2)))
}

/// The models of stored contracts.
pub open spec fn contracts_model(es: Seq<Contract>) -> Seq<EntryModel> {
    es.map(|i: int, c: Contract| (c.name@, c.script@, c.keys@))
}

/// No two entries share a name.
pub open spec fn distinct_names(es: Seq<EntryModel>) -> bool {
    forall|i: int, j: int| 0 <= i < j < es.len() ==> es[i].0 != es[j].0
}

/// What looking a name up in a sequence of entries yields: the script and
/// key bytes of the first entry with that name, or nothing.
pub open spec fn lookup(es: Seq<EntryModel>, name: Seq<char>) -> Option<(Seq<u8>, Seq<u8>)>
    decreases es.len(),
{
    if es.len() == 0 {
        Option::None
    } else if es[0].0 == name {
        Option::Some((es[0].1, es[0].2))
    } else {
        lookup(es.drop_first(), name)
    }
}

/// The immutable mapping from contract name to contract.  Built once at
/// startup by [`Registry::build`]; no method mutates it afterward, so any
/// number of concurrent readers see the one fully built value.
pub struct Registry {
    entries: Vec<Contract>,
}

impl View for Registry {
    type V = Seq<EntryModel>;

    closed spec fn view(&self) -> Seq<EntryModel> {
        contracts_model(self.entries@)
    }
}

impl Registry {
    /// A well-formed registry: names are unique and every stored byte
    /// sequence is NUL-free, ready for the engine.
    pub open spec fn wf(&self) -> bool {
        &&& distinct_names(self@)
        &&& forall|i: int| 0 <= i < self@.len() ==> nul_free(#[trigger] self@[i].1) && nul_free(
            self@[i].2,
        )
    }

    /// Validates discovered files and builds the registry: every file's
    /// bytes must be NUL-free and every name unique, else discovery fails
    /// with the first offending file's name.
    pub fn build(files: Vec<ContractFile>) -> (r: Result<Registry, DiscoveryError>)
        ensures
            r is Ok <==> files_ok(files_model(files@)),
            r matches Ok(reg) ==> reg@ == entries_of(files_model(files@)) && reg.wf(),
            r matches Err(e) ==> exists|i: int|
                #[trigger] first_bad(files_model(files@), i) && error_for(
                    files_model(files@),
                    i,
                    e,
                ),
    {
        let ghost ms = files_model(files@);
        let mut entries: Vec<Contract> = Vec::new();
        let mut idx: usize = 0;
        while idx < files.len()
            invariant
                0 <= idx <= files@.len(),
                ms == files_model(files@),
                forall|j: int| 0 <= j < idx ==> !bad_at(ms, j),
                contracts_model(entries@) == entries_of(ms.take(idx as int)),
            decreases files@.len() - idx,
        {
            let f = &files[idx];
            proof {
                assert(ms[idx as int] == file_model(files@[idx as int]));
            }
            if crate::input::has_nul(&f.script) {
                proof {
                    assert(!file_ok(ms[idx as int]));
                    assert(first_bad(ms, idx as int));
                }
                return Result::Err(DiscoveryError::EmbeddedNul { name: f.name.clone() });
            }
            let keys: Vec<u8>;
            match &f.keys {
                Option::None => {
                    keys = Vec::new();
                    proof {
                        assert(keys@ =~= keys_or_empty(ms[idx as int].2));
                        assert(file_ok(ms[idx as int]));
                    }
                },
                Option::Some(k) => {
                    if crate::input::has_nul(k) {
                        proof {
                            assert(!file_ok(ms[idx as int]));
                            assert(first_bad(ms, idx as int));
                        }
                        return Result::Err(
                            DiscoveryError::EmbeddedNul { name: f.name.clone() },
                        );
                    }
                    keys = crate::input::clone_bytes(k);
                    proof {
                        assert(keys@ == keys_or_empty(ms[idx as int].2));
                        assert(file_ok(ms[idx as int]));
                    }
                },
            };
            if contains_name(&entries, &f.name) {
                proof {
                    let j = choose|j: int|
                        0 <= j < entries@.len() && (#[trigger] entries@[j].name@) == f.name@;
                    assert(contracts_model(entries@).len() == entries@.len());
                    assert(entries_of(ms.take(idx as int)).len() == ms.take(idx as int).len());
                    assert(0 <= j < idx);
                    assert(contracts_model(entries@)[j] == entries_of(ms.take(idx as int))[j]);
                    assert(contracts_model(entries@)[j].0 == entries@[j].name@);
                    assert(entries_of(ms.take(idx as int))[j].0 == ms.take(idx as int)[j].0);
                    assert(ms.take(idx as int)[j] == ms[j]);
                    assert(ms[idx as int].0 == f.name@);
                    assert(ms[j].0 == ms[idx as int].0);
                    assert(bad_at(ms, idx as int));
                    assert(first_bad(ms, idx as int));
                }
                return Result::Err(DiscoveryError::DuplicateName { name: f.name.clone() });
            }
            proof {
                assert(contracts_model(entries@).len() == entries@.len());
                assert(entries_of(ms.take(idx as int)).len() == ms.take(idx as int).len());
                assert(entries@.len() == idx as int);
                assert forall|j: int| 0 <= j < idx implies ms[j].0 != ms[idx as int].0 by {
                    assert(entries@[j].name@ != f.name@);
                    assert(contracts_model(entries@)[j] == entries_of(ms.take(idx as int))[j]);
                    assert(contracts_model(entries@)[j].0 == entries@[j].name@);
                    assert(entries_of(ms.take(idx as int))[j].0 == ms.take(idx as int)[j].0);
                    assert(ms.take(idx as int)[j] == ms[j]);
                }
                assert(!bad_at(ms, idx as int));
            }
            let ghost pre = entries@;
            entries.push(
                Contract { name: f.name.clone(), script: crate::input::clone_bytes(&f.script), keys },
            );
            proof {
                assert forall|k: int| 0 <= k < idx as int + 1 implies contracts_model(entries@)[k]
                    == entries_of(ms.take(idx as int + 1))[k] by {
                    if k < idx as int {
                        assert(entries@[k] == pre[k]);
                        assert(contracts_model(pre)[k] == entries_of(ms.take(idx as int))[k]);
                        assert(ms.take(idx as int)[k] == ms[k]);
                        assert(ms.take(idx as int + 1)[k] == ms[k]);
                    } else {
                        assert(entries@[k] == entries@.last());
                        assert(ms.take(idx as int + 1)[k] == ms[idx as int]);
                    }
                }
                assert(contracts_model(entries@) =~= entries_of(ms.take(idx as int + 1)));
            }
            idx = idx + 1;
        }
        proof {
            assert(ms.take(idx as int) =~= ms);
            assert(files_ok(ms));
            let es = entries_of(ms);
            assert(contracts_model(entries@) == es);
            lemma_files_ok_distinct(ms);
            assert forall|i: int| 0 <= i < es.len() implies nul_free(#[trigger] es[i].1)
                && nul_free(es[i].2) by {
                assert(!bad_at(ms, i));
                assert(file_ok(ms[i]));
                assert(es[i].1 == ms[i].1);
                assert(es[i].2 == keys_or_empty(ms[i].2));
            }
        }
        Result::Ok(Registry { entries })
    }

    /// Looks a contract up by name.  Read-only: the registry is unchanged by
    /// any number of lookups, and the result is exactly what the built
    /// mapping holds for that name.
    pub fn get<'a>(&'a self, name: &String) -> (r: Option<&'a Contract>)
        ensures
            match r {
                Option::Some(c) => lookup(self@, name@) == Option::Some((c.script@, c.keys@))
                    && c.name@ == name@,
                Option::None => lookup(self@, name@) is None,
            },
    {
        let mut i: usize = 0;
        proof {
            assert(self@.skip(0) =~= self@);
        }
        while i < self.entries.len()
            invariant
                0 <= i <= self.entries@.len(),
                lookup(self@, name@) == lookup(self@.skip(i as int), name@),
            decreases self.entries@.len() - i,
        {
            if self.entries[i].name == *name {
                proof {
                    assert(self@.skip(i as int)[0] == self@[i as int]);
                }
                return Option::Some(&self.entries[i]);
            }
            proof {
                assert(self@.skip(i as int).drop_first() =~= self@.skip(i as int + 1));
            }
            i = i + 1;
        }
        proof {
            assert(self@.skip(i as int) =~= Seq::<EntryModel>::empty());
        }
        Option::None
    }

    /// How many contracts the registry holds.
    pub fn len(&self) -> (n: usize)
        ensures
            n == self@.len(),
    {
        self.entries.len()
    }
}

/// Whether any stored contract already carries this name.
fn contains_name(entries: &Vec<Contract>, name: &String) -> (r: bool)
    ensures
        r == exists|j: int| 0 <= j < entries@.len() && (#[trigger] entries@[j].name@) == name@,
{
    let mut i: usize = 0;
    while i < entries.len()
        invariant
            0 <= i <= entries@.len(),
            forall|j: int| 0 <= j < i ==> (#[trigger] entries@[j].name@) != name@,
        decreases entries@.len() - i,
    {
        if entries[i].name == *name {
            return true;
        }
        i = i + 1;
    }
    false
}

/// A file name with the recognized script extension: more than four
/// characters, the last four being `.zen`.  (A bare `.zen` names a hidden
/// file with no extension, not a script.)
pub open spec fn is_script_name(s: Seq<char>) -> bool {
    s.len() > 4 && s[s.len() - 4] == '.' && s[s.len() - 3] == 'z' && s[s.len() - 2] == 'e'
        && s[s.len() - 1] == 'n'
}

/// The contract name a script file derives: the file name with the
/// extension stripped.
pub open spec fn script_stem_of(s: Seq<char>) -> Seq<char> {
    s.take(s.len() - 4)
}

/// Derives a contract name from a directory entry's file name: the
/// extension-stripped stem for a script file, nothing for any other file.
pub fn script_stem(name: &str) -> (r: Option<String>)
    ensures
        match r {
            Option::Some(stem) => is_script_name(name@) && stem@ == script_stem_of(name@),
            Option::None => !is_script_name(name@),
        },
{
    let n = name.unicode_len();
    if n <= 4 {
        return Option::None;
    }
    if name.get_char(n - 4) == '.' && name.get_char(n - 3) == 'z' && name.get_char(n - 2) == 'e'
        && name.get_char(n - 1) == 'n' {
        let stem = name.substring_char(0, n - 4);
        proof {
            assert(stem@ =~= script_stem_of(name@));
        }
        Option::Some(String::from_str(stem))
    } else {
        Option::None
    }
}

/// The mathematical values of a vector of names.
pub open spec fn names_model(ns: Seq<String>) -> Seq<Seq<char>> {
    ns.map(|i: int, s: String| s@)
}

/// The contract names a directory listing plans: one per script-named file,
/// in order, each the extension-stripped stem.  A file without the script
/// extension contributes nothing.
pub open spec fn planned(names: Seq<Seq<char>>) -> Seq<Seq<char>>
    decreases names.len(),
{
    if names.len() == 0 {
        Seq::<Seq<char>>::empty()
    } else if is_script_name(names.last()) {
        planned(names.drop_last()).push(script_stem_of(names.last()))
    } else {
        planned(names.drop_last())
    }
}

/// Filters a directory listing down to the script files and derives their
/// contract names.
pub fn plan_discovery(names: &Vec<String>) -> (r: Vec<String>)
    ensures
        names_model(r@) == planned(names_model(names@)),
{
    let ghost ns = names_model(names@);
    let mut r: Vec<String> = Vec::new();
    let mut i: usize = 0;
    while i < names.len()
        invariant
            0 <= i <= names@.len(),
            ns == names_model(names@),
            names_model(r@) == planned(ns.take(i as int)),
        decreases names@.len() - i,
    {
        proof {
            assert(ns.take(i as int + 1).drop_last() =~= ns.take(i as int));
            assert(ns.take(i as int + 1).last() == ns[i as int]);
            assert(ns[i as int] == names@[i as int]@);
        }
        let ghost prev = r@;
        match script_stem(names[i].as_str()) {
            Option::Some(stem) => {
                let ghost stem_view = stem@;
                r.push(stem);
                proof {
                    assert(names_model(r@) =~= names_model(prev).push(stem_view));
                }
            },
            Option::None => {},
        }
        i = i + 1;
    }
    proof {
        assert(ns.take(names@.len() as int) =~= ns);
    }
    r
}

/// Law: a directory listing of script-named files plans exactly one contract
/// name per file, in order, each the extension-stripped stem.
pub proof fn lemma_plan_all_scripts(names: Seq<Seq<char>>)
    requires
        forall|i: int| 0 <= i < names.len() ==> is_script_name(#[trigger] names[i]),
    ensures
        planned(names).len() == names.len(),
        forall|i: int| 0 <= i < names.len() ==> #[trigger] planned(names)[i] == script_stem_of(
            names[i],
        ),
    decreases names.len(),
{
    if names.len() > 0 {
        let front = names.drop_last();
        assert forall|i: int| 0 <= i < front.len() implies is_script_name(
            #[trigger] front[i],
        ) by {
            assert(front[i] == names[i]);
        }
        lemma_plan_all_scripts(front);
        assert(is_script_name(names.last()));
        assert forall|i: int| 0 <= i < names.len() implies #[trigger] planned(names)[i]
            == script_stem_of(names[i]) by {
            if i < names.len() - 1 {
                assert(planned(names)[i] == planned(front)[i]);
                assert(front[i] == names[i]);
            } else {
                assert(planned(names)[i] == script_stem_of(names.last()));
            }
        }
    }
}

/// Law: a file without the script extension never produces a registry entry:
/// adding one to a directory listing leaves the planned names unchanged.
pub proof fn lemma_plan_ignores_non_script(names: Seq<Seq<char>>, other: Seq<char>)
    requires
        !is_script_name(other),
    ensures
        planned(names.push(other)) == planned(names),
{
    assert(names.push(other).drop_last() =~= names);
    assert(names.push(other).last() == other);
}

/// The script-named entries of a directory listing, in order, with every
/// other file left out.
pub open spec fn script_entries(names: Seq<Seq<char>>) -> Seq<Seq<char>>
    decreases names.len(),
{
    if names.len() == 0 {
        Seq::<Seq<char>>::empty()
    } else if is_script_name(names.last()) {
        script_entries(names.drop_last()).push(names.last())
    } else {
        script_entries(names.drop_last())
    }
}

/// Law: the planned contract names depend only on the script-named entries
/// of a listing — leaving every other file out first changes nothing.
pub proof fn lemma_plan_of_scripts_only(names: Seq<Seq<char>>)
    ensures
        planned(names) == planned(script_entries(names)),
    decreases names.len(),
{
    if names.len() > 0 {
        let front = names.drop_last();
        lemma_plan_of_scripts_only(front);
        if is_script_name(names.last()) {
            let se = script_entries(names);
            assert(se == script_entries(front).push(names.last()));
            assert(se.len() > 0);
            assert(se.drop_last() =~= script_entries(front));
            assert(se.last() == names.last());
            assert(planned(se) == planned(script_entries(front)).push(
                script_stem_of(names.last()),
            ));
        }
    }
}

/// Law: two directory listings with the same script-named entries — however
/// many non-script files either one holds, and wherever they stand — plan
/// the same contract names: a non-script file never produces an entry and
/// never changes any other entry.
pub proof fn lemma_non_scripts_never_matter(first: Seq<Seq<char>>, second: Seq<Seq<char>>)
    requires
        script_entries(first) == script_entries(second),
    ensures
        planned(first) == planned(second),
{
    lemma_plan_of_scripts_only(first);
    lemma_plan_of_scripts_only(second);
}

/// Law: the registry a set of valid files builds holds exactly one entry per
/// file, keyed by the file's name, carrying its script bytes and its key
/// bytes — the empty sequence where no key file exists on disk.
pub proof fn lemma_registry_entries(ms: Seq<FileModel>)
    ensures
        entries_of(ms).len() == ms.len(),
        forall|i: int| 0 <= i < ms.len() ==> #[trigger] entries_of(ms)[i] == (
            ms[i].0,
            ms[i].1,
            keys_or_empty(ms[i].2),
        ),
        forall|i: int| 0 <= i < ms.len() && ms[i].2 is None ==> (#[trigger] entries_of(
            ms,
        )[i]).2 == Seq::<u8>::empty(),
{
}

/// Law: files a registry accepts carry pairwise distinct names.
pub proof fn lemma_files_ok_distinct(ms: Seq<FileModel>)
    requires
        files_ok(ms),
    ensures
        distinct_names(entries_of(ms)),
{
    let es = entries_of(ms);
    assert forall|i: int, j: int| 0 <= i < j < es.len() implies es[i].0 != es[j].0 by {
        assert(!bad_at(ms, j));
        assert(es[i].0 == ms[i].0);
        assert(es[j].0 == ms[j].0);
        if ms[i].0 == ms[j].0 {
            assert(exists|k: int| 0 <= k < j && ms[k].0 == ms[j].0);
            assert(bad_at(ms, j));
        }
    }
}

/// Law: a directory listing of script files, one valid discovered file per
/// planned name, yields a registry with exactly one entry per listed file,
/// and looking up the extension-stripped stem of listing entry `i` finds
/// exactly file `i`'s script and key bytes.
pub proof fn lemma_discovery_registry(listing: Seq<Seq<char>>, ms: Seq<FileModel>)
    requires
        forall|i: int| 0 <= i < listing.len() ==> is_script_name(#[trigger] listing[i]),
        ms.len() == listing.len(),
        forall|i: int| 0 <= i < ms.len() ==> (#[trigger] ms[i]).0 == planned(listing)[i],
        files_ok(ms),
    ensures
        entries_of(ms).len() == listing.len(),
        forall|i: int| 0 <= i < listing.len() ==> #[trigger] entries_of(ms)[i].0
            == script_stem_of(listing[i]),
        forall|i: int| 0 <= i < listing.len() ==> lookup(
            entries_of(ms),
            script_stem_of(#[trigger] listing[i]),
        ) == Option::Some((ms[i].1, keys_or_empty(ms[i].2))),
{
    lemma_plan_all_scripts(listing);
    lemma_registry_entries(ms);
    lemma_files_ok_distinct(ms);
    let es = entries_of(ms);
    assert forall|i: int| 0 <= i < listing.len() implies lookup(
        es,
        script_stem_of(#[trigger] listing[i]),
    ) == Option::Some((ms[i].1, keys_or_empty(ms[i].2))) by {
        assert(es[i].0 == ms[i].0);
        assert(ms[i].0 == planned(listing)[i]);
        assert(planned(listing)[i] == script_stem_of(listing[i]));
        lemma_lookup_finds_each(es, i);
    }
}

/// Law: in a registry with distinct names — every built registry is one —
/// looking up the name of entry `i` finds exactly that entry's script and
/// key bytes.  Lookups read a fixed mapping: nothing else ever comes back.
pub proof fn lemma_lookup_finds_each(es: Seq<EntryModel>, i: int)
    requires
        distinct_names(es),
        0 <= i < es.len(),
    ensures
        lookup(es, es[i].0) == Option::Some((es[i].1, es[i].2)),
    decreases es.len(),
{
    if i > 0 {
        assert(es[0].0 != es[i].0);
        let rest = es.drop_first();
        assert forall|a: int, b: int| 0 <= a < b < rest.len() implies rest[a].0 != rest[b].0 by {
            assert(rest[a] == es[a + 1]);
            assert(rest[b] == es[b + 1]);
        }
        lemma_lookup_finds_each(rest, i - 1);
        assert(rest[i - 1] == es[i]);
    }
}

/// Law: a lookup succeeds exactly when some entry carries the name — an
/// unknown name finds nothing, whatever the registry holds.
pub proof fn lemma_lookup_some(es: Seq<EntryModel>, name: Seq<char>)
    ensures
        lookup(es, name) is Some <==> exists|i: int| 0 <= i < es.len() && (#[trigger] es[i]).0
            == name,
    decreases es.len(),
{
    if es.len() > 0 {
        let rest = es.drop_first();
        lemma_lookup_some(rest, name);
        if es[0].0 == name {
            assert(es[0].0 == name);
        } else {
            if exists|i: int| 0 <= i < rest.len() && (#[trigger] rest[i]).0 == name {
                let i = choose|i: int| 0 <= i < rest.len() && (#[trigger] rest[i]).0 == name;
                assert(es[i + 1] == rest[i]);
            }
            if exists|i: int| 0 <= i < es.len() && (#[trigger] es[i]).0 == name {
                let i = choose|i: int| 0 <= i < es.len() && (#[trigger] es[i]).0 == name;
                assert(i > 0);
                assert(rest[i - 1] == es[i]);
            }
        }
    }
}

} // verus!
