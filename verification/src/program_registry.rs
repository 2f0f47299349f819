//! The program database: platforms, programs with their ROM images, and the index
//! from ROM hashes to programs. Keyed tables are lists of `(key, value)` entries in
//! which a later entry for a key overrides an earlier one, as a later insertion does
//! in a map. The keys are strings: the specification that vstd gives `HashMap` speaks
//! of lookups only for key types whose hashing it models, and `String` is not one of
//! them, so a lookup in a `HashMap<String, _>` could not be related to its contents.
use vstd::prelude::*;

verus! {

/// A CHIP-8 platform (dialect) and its defaults.
pub struct Platform {
    pub id: String,
    pub name: String,
    pub description: String,
    pub release: Option<String>,
    pub authors: Option<Vec<String>>,
    pub urls: Option<Vec<String>>,
    pub copyright: Option<String>,
    pub license: Option<String>,
    pub display_resolutions: Vec<String>,
    pub default_tickrate: u32,
    pub quirks: Vec<(String, bool)>,
}

/// One ROM image of a program.
pub struct Rom {
    pub file: String,
    pub embedded_title: Option<String>,
    pub description: Option<String>,
    pub release: Option<String>,
    pub platforms: Vec<String>,
}

/// A program of the database, with its ROM images keyed by hash.
pub struct Program {
    pub title: String,
    pub description: Option<String>,
    pub release: Option<String>,
    pub authors: Option<Vec<String>>,
    pub roms: Vec<(String, Rom)>,
}

/// The program database.
pub struct ProgramRegistry {
    /// Platforms keyed by id.
    pub platforms: Vec<(String, Platform)>,
    /// All programs.
    pub programs: Vec<Program>,
    /// Index into `programs` of the program that a ROM hash belongs to.
    pub hashes: Vec<(String, usize)>,
}

/// Index of the last entry of `s` with key `key`, or -1 when there is none.
pub open spec fn last_index<V>(s: Seq<(String, V)>, key: Seq<char>) -> int
    decreases s.len(),
{
    if s.len() == 0 {
        -1
    } else if s.last().0@ == key {
        s.len() - 1
    } else {
        last_index(s.drop_last(), key)
    }
}

/// The value that the table `s` holds for `key`: that of its last entry for `key`.
pub open spec fn lookup<V>(s: Seq<(String, V)>, key: Seq<char>) -> Option<V> {
    let k = last_index(s, key);
    if k >= 0 {
        Some(s[k].1)
    } else {
        Option::None
    }
}

/// No key occurs twice in the table.
pub open spec fn distinct_keys<V>(s: Seq<(String, V)>) -> bool {
    forall|i: int, j: int| 0 <= i < j < s.len() ==> (#[trigger] s[i]).0@ != (#[trigger] s[j]).0@
}

/// The platforms keyed by their ids, in list order.
pub open spec fn keyed_by_id(list: Seq<Platform>) -> Seq<(String, Platform)> {
    list.map_values(|p: Platform| (p.id, p))
}

/// `last_index` is the position of the last entry with the key, or -1 when no entry has it.
pub proof fn lemma_last_index<V>(s: Seq<(String, V)>, key: Seq<char>)
    ensures
        -1 <= last_index(s, key) < s.len(),
        last_index(s, key) >= 0 ==> s[last_index(s, key)].0@ == key,
        forall|j: int| last_index(s, key) < j < s.len() ==> (#[trigger] s[j]).0@ != key,
    decreases s.len(),
{
    if s.len() > 0 {
        lemma_last_index(s.drop_last(), key);
        assert forall|j: int| last_index(s, key) < j < s.len() implies (#[trigger] s[j]).0@ != key by {
            if j < s.len() - 1 {
                assert(s[j] == s.drop_last()[j]);
            }
        }
    }
}

/// A position that holds the key and after which no entry holds it is `last_index`.
pub proof fn lemma_last_index_unique<V>(s: Seq<(String, V)>, key: Seq<char>, k: int)
    requires
        -1 <= k < s.len(),
        k >= 0 ==> s[k].0@ == key,
        forall|j: int| k < j < s.len() ==> (#[trigger] s[j]).0@ != key,
    ensures
        last_index(s, key) == k,
{
    lemma_last_index(s, key);
    let li = last_index(s, key);
    if li < k {
        assert(s[k].0@ == key);
    } else if li > k {
        assert(s[li].0@ == key);
    }
}

/// The index of the last entry of `entries` with key `key`.
fn find_last<V>(entries: &Vec<(String, V)>, key: &String) -> (res: Option<usize>)
    ensures
        match res {
            Some(k) => k == last_index(entries@, key@) && k < entries@.len(),
            Option::None => last_index(entries@, key@) == -1,
        },
{
    let mut found: Option<usize> = Option::None;
    let mut i: usize = 0;
    while i < entries.len()
        invariant
            i <= entries@.len(),
            match found {
                Some(k) => k == last_index(entries@.take(i as int), key@),
                Option::None => last_index(entries@.take(i as int), key@) == -1,
            },
        decreases entries@.len() - i,
    {
        assert(entries@.take(i + 1).drop_last() =~= entries@.take(i as int));
        if entries[i].0 == *key {
            found = Some(i);
        }
        i += 1;
    }
    assert(entries@.take(entries@.len() as int) =~= entries@);
    proof {
        lemma_last_index(entries@, key@);
    }
    found
}

/// Sets the value of `key` in a table without repeated keys: an existing entry for
/// the key is replaced, otherwise the entry is appended.
fn insert_entry<V>(entries: &mut Vec<(String, V)>, key: String, value: V)
    requires
        distinct_keys(old(entries)@),
    ensures
        distinct_keys(final(entries)@),
        forall|k: Seq<char>| #[trigger] lookup(final(entries)@, k)
            == if k == key@ { Some(value) } else { lookup(old(entries)@, k) },
{
    let ghost s = entries@;
    let ghost key_view = key@;
    proof {
        lemma_last_index(s, key_view);
    }
    match find_last(entries, &key) {
        Some(k) => {
            entries.set(k, (key, value));
            proof {
                let t = entries@;
                assert forall|i: int, j: int| 0 <= i < j < t.len() implies (#[trigger] t[i]).0@ != (#[trigger] t[j]).0@ by {
                    if i != k && j != k {
                        assert(s[i] == t[i] && s[j] == t[j]);
                    } else if i == k {
                        assert(s[j] == t[j]);
                        assert(s[i].0@ == key_view);
                    } else {
                        assert(s[i] == t[i]);
                        assert(s[j].0@ == key_view);
                    }
                }
                assert forall|kk: Seq<char>| #[trigger] lookup(t, kk)
                    == if kk == key_view { Some(value) } else { lookup(s, kk) } by {
                    lemma_last_index(s, kk);
                    if kk == key_view {
                        assert forall|j: int| k < j < t.len() implies (#[trigger] t[j]).0@ != kk by {
                            assert(t[j] == s[j]);
                        }
                        lemma_last_index_unique(t, kk, k as int);
                    } else {
                        let li = last_index(s, kk);
                        assert(li != k);
                        assert forall|j: int| li < j < t.len() implies (#[trigger] t[j]).0@ != kk by {
                            if j != k {
                                assert(t[j] == s[j]);
                            }
                        }
                        if li >= 0 {
                            assert(t[li] == s[li]);
                        }
                        lemma_last_index_unique(t, kk, li);
                    }
                }
            }
        },
        Option::None => {
            entries.push((key, value));
            proof {
                let t = entries@;
                assert(t.drop_last() =~= s);
                assert forall|i: int, j: int| 0 <= i < j < t.len() implies (#[trigger] t[i]).0@ != (#[trigger] t[j]).0@ by {
                    if j == t.len() - 1 {
                        assert(t[i] == s[i]);
                    } else {
                        assert(t[i] == s[i] && t[j] == s[j]);
                    }
                }
                assert forall|kk: Seq<char>| #[trigger] lookup(t, kk)
                    == if kk == key_view { Some(value) } else { lookup(s, kk) } by {
                    lemma_last_index(s, kk);
                    if last_index(s, kk) >= 0 {
                        assert(t[last_index(s, kk)] == s[last_index(s, kk)]);
                    }
                }
            }
        },
    }
}

impl ProgramRegistry {
    /// A registry of the given programs and hash index, with the platforms keyed by id
    /// (a later platform with the same id replaces an earlier one).
    pub fn new(platform_list: Vec<Platform>, programs: Vec<Program>, hashes: Vec<(String, usize)>) -> (reg: ProgramRegistry)
        ensures
            distinct_keys(reg.platforms@),
            forall|k: Seq<char>| #[trigger] lookup(reg.platforms@, k) == lookup(keyed_by_id(platform_list@), k),
            reg.programs@ == programs@,
            reg.hashes@ == hashes@,
    {
        ProgramRegistry { platforms: Self::build_platform_map(platform_list), programs, hashes }
    }

    /// Keys the platforms by id; a later platform with the same id replaces an earlier one.
    fn build_platform_map(platform_list: Vec<Platform>) -> (map: Vec<(String, Platform)>)
        ensures
            distinct_keys(map@),
            forall|k: Seq<char>| #[trigger] lookup(map@, k) == lookup(keyed_by_id(platform_list@), k),
    {
        let ghost all = platform_list@;
        let total = platform_list.len();
        let mut rest = platform_list;
        let mut platform_map: Vec<(String, Platform)> = Vec::new();
        let mut i: usize = 0;
        while rest.len() > 0
            invariant
                all.len() == total,
                i + rest@.len() == all.len(),
                rest@ == all.skip(i as int),
                distinct_keys(platform_map@),
                forall|k: Seq<char>| #[trigger] lookup(platform_map@, k) == lookup(keyed_by_id(all.take(i as int)), k),
            decreases rest@.len(),
        {
            let platform = rest.remove(0);
            let key = platform.id.clone();
            let ghost before = platform_map@;
            insert_entry(&mut platform_map, key, platform);
            proof {
                let pre = keyed_by_id(all.take(i as int));
                let post = keyed_by_id(all.take(i + 1));
                assert(post.drop_last() =~= pre);
                assert(post.last() == (all[i as int].id, all[i as int]));
                assert(platform == all[i as int]);
                assert forall|k: Seq<char>| #[trigger] lookup(platform_map@, k) == lookup(post, k) by {
                    assert(lookup(before, k) == lookup(pre, k));
                    lemma_last_index(pre, k);
                    let li = last_index(pre, k);
                    if li >= 0 && k != all[i as int].id@ {
                        assert(post[li] == pre[li]);
                    }
                }
            }
            i += 1;
            assert(rest@ =~= all.skip(i as int));
        }
        assert(all.take(i as int) =~= all);
        platform_map
    }

    /// The program that the ROM with hash `hash` belongs to, or `None` when the index
    /// points past the list of programs.
    fn get_program_from_hash(&self, hash: &str) -> (res: Option<&Program>)
        requires
            lookup(self.hashes@, hash@) is Some,
        ensures
            ({
                let idx = lookup(self.hashes@, hash@)->0;
                match res {
                    Some(p) => idx < self.programs@.len() && *p == self.programs@[idx as int],
                    Option::None => idx >= self.programs@.len(),
                }
            }),
    {
        let key = hash.to_owned();
        match find_last(&self.hashes, &key) {
            Some(k) => {
                let idx = self.hashes[k].1;
                if idx < self.programs.len() {
                    Some(&self.programs[idx])
                } else {
                    Option::None
                }
            },
            Option::None => Option::None,
        }
    }

    /// The ROM image with hash `hash`: the entry for `hash` among the ROMs of the program
    /// that the hash index names, or `None` when that program does not exist or has no
    /// ROM with this hash.
    pub fn get_rom_from_hash(&self, hash: &str) -> (res: Option<&Rom>)
        requires
            lookup(self.hashes@, hash@) is Some,
        ensures
            ({
                let idx = lookup(self.hashes@, hash@)->0;
                match res {
                    Some(r) => idx < self.programs@.len()
                        && lookup(self.programs@[idx as int].roms@, hash@) == Some(*r),
                    Option::None => idx >= self.programs@.len()
                        || lookup(self.programs@[idx as int].roms@, hash@) is None,
                }
            }),
    {
        let program = self.get_program_from_hash(hash);
        match program {
            Some(program) => {
                let key = hash.to_owned();
                match find_last(&program.roms, &key) {
                    Some(k) => Some(&program.roms[k].1),
                    Option::None => Option::None,
                }
            },
            Option::None => Option::None,
        }
    }
}

} // verus!
