//! Resolution of one module: every pattern of its catalog, scanned for in
//! order, gives its base offset and what is derived from it.

use crate::catalog::{DefinitionView, ModuleCatalog, ModuleView, PatternDefinition};
use crate::image::{scan_outcome, ModuleImage};
use crate::signature::atoms_of;
use crate::table::{lemma_rank, NameMap, Table};
use vstd::prelude::*;

verus! {

/// What resolving a module gives: the offsets found, the signature text of
/// every pattern, and the names of the patterns that matched nowhere.
pub struct ModuleReport {
    pub offsets: NameMap<u32>,
    pub signatures: NameMap<String>,
    pub stale: Vec<String>,
}

/// The content of a [`ModuleReport`].
pub struct Outcome {
    pub offsets: Table<u32>,
    pub signatures: Table<Seq<char>>,
    pub stale: Seq<Seq<char>>,
}

impl Outcome {
    pub open spec fn empty() -> Outcome {
        Outcome { offsets: Table::empty(), signatures: Table::empty(), stale: Seq::empty() }
    }

    pub open spec fn wf(self) -> bool {
        self.offsets.wf() && self.signatures.wf()
    }
}

impl View for ModuleReport {
    type V = Outcome;

    open spec fn view(&self) -> Outcome {
        Outcome {
            offsets: self.offsets@,
            signatures: self.signatures@,
            stale: self.stale@.map_values(|s: String| s@),
        }
    }
}

/// The base offset of a pattern in an image: the first marked capture of
/// the first match of its signature, or nothing where it matches nowhere.
pub open spec fn base_offset(image: Seq<u8>, definition: DefinitionView) -> Option<u32> {
    match scan_outcome(image, atoms_of(definition.text)) {
        Some(slots) => Some(slots[1]),
        None => None,
    }
}

/// The outcome after one more pattern. Its text is recorded whatever the
/// scan gives. A match enters the base offset under the pattern's name and
/// then runs the derivation; a miss adds the name to the stale ones and
/// leaves the offsets alone.
pub open spec fn resolve_one(image: Seq<u8>, definition: DefinitionView, before: Outcome) -> Outcome {
    let signatures = before.signatures.insert(definition.name, definition.text);
    match base_offset(image, definition) {
        Some(base) => Outcome {
            offsets: definition.derivation.extend(
                image,
                before.offsets.insert(definition.name, base),
                base,
            ),
            signatures,
            stale: before.stale,
        },
        None => Outcome {
            offsets: before.offsets,
            signatures,
            stale: before.stale.push(definition.name),
        },
    }
}

/// The outcome after the first `n` patterns, taken in order.
pub open spec fn resolve_prefix(image: Seq<u8>, patterns: Seq<DefinitionView>, n: nat) -> Outcome
    decreases n,
{
    if n == 0 {
        Outcome::empty()
    } else {
        resolve_one(image, patterns[n - 1], resolve_prefix(image, patterns, (n - 1) as nat))
    }
}

/// The outcome of resolving all patterns of a module against an image.
pub open spec fn resolve_outcome(image: Seq<u8>, patterns: Seq<DefinitionView>) -> Outcome {
    resolve_prefix(image, patterns, patterns.len())
}

impl ModuleReport {
    pub open spec fn wf(&self) -> bool {
        self@.wf()
    }

    pub fn new() -> (r: ModuleReport)
        ensures
            r.wf(),
            r@ == Outcome::empty(),
    {
        let r = ModuleReport { offsets: NameMap::new(), signatures: NameMap::new(), stale: Vec::new() };
        assert(r@.stale =~= Seq::empty());
        r
    }

    /// Resolves one pattern against the image and records what came of it.
    pub fn resolve_pattern(&mut self, image: &ModuleImage<'_>, definition: &PatternDefinition)
        requires
            old(self).wf(),
            image.wf(),
            definition.wf(),
        ensures
            final(self).wf(),
            final(self)@ == resolve_one(image.bytes(), definition@, old(self)@),
    {
        let signature = definition.signature();
        self.signatures.insert(definition.name().clone(), signature.as_str().to_owned());
        match image.scan(signature) {
            Some(slots) => {
                let base = slots[1];
                self.offsets.insert(definition.name().clone(), base);
                definition.derivation().apply(image, &mut self.offsets, base);
            },
            None => {
                self.stale.push(definition.name().clone());
                assert(self@.stale =~= old(self)@.stale.push(definition@.name));
            },
        }
    }
}

/// Resolves a module: scans its image for every pattern of its catalog, in
/// catalog order. A pattern that matches nowhere costs its own entry only.
pub fn resolve_module(image: &ModuleImage<'_>, catalog: &ModuleCatalog) -> (r: ModuleReport)
    requires
        image.wf(),
        catalog.wf(),
    ensures
        r.wf(),
        r@ == resolve_outcome(image.bytes(), catalog@.patterns),
{
    let mut report = ModuleReport::new();
    let mut i: usize = 0;
    while i < catalog.len()
        invariant
            image.wf(),
            catalog.wf(),
            report.wf(),
            i <= catalog@.patterns.len(),
            report@ == resolve_prefix(image.bytes(), catalog@.patterns, i as nat),
        decreases catalog@.patterns.len() - i,
    {
        report.resolve_pattern(image, catalog.pattern(i));
        i += 1;
    }
    report
}

/// What a pattern enters under `key`: the derived offset where the
/// derivation enters one under that name, else the base offset under the
/// pattern's own name, and nothing where the pattern matches nowhere.
pub open spec fn entered(image: Seq<u8>, definition: DefinitionView, key: Seq<char>) -> Option<u32> {
    match base_offset(image, definition) {
        None => None,
        Some(base) => match definition.derivation.entry(image, base) {
            Some((name, value)) => if key == name {
                Some(value)
            } else if key == definition.name {
                Some(base)
            } else {
                None
            },
            None => if key == definition.name {
                Some(base)
            } else {
                None
            },
        },
    }
}

/// Two patterns that enter offsets under a common name overlap.
pub proof fn lemma_common_claim(a: DefinitionView, b: DefinitionView, key: Seq<char>)
    requires
        a.claims(key),
        b.claims(key),
    ensures
        a.overlaps(b),
{
}

/// The signature text of every pattern is recorded, whether the pattern
/// matches or not: after the first `n` patterns of a module whose patterns
/// have distinct names, the texts recorded are as many as these patterns,
/// each under the name of its pattern, and their names ascend.
pub proof fn lemma_texts_recorded(image: Seq<u8>, module: ModuleView, n: nat)
    requires
        module.distinct_claims(),
        n <= module.patterns.len(),
    ensures
        resolve_prefix(image, module.patterns, n).signatures.wf(),
        resolve_prefix(image, module.patterns, n).signatures.len() == n,
        forall|i: int|
            0 <= i < n ==> resolve_prefix(image, module.patterns, n).signatures.lookup(
                (#[trigger] module.patterns[i]).name,
            ) == Some(module.patterns[i].text),
        forall|key: Seq<char>| #[trigger]
            resolve_prefix(image, module.patterns, n).signatures.contains(key) ==> exists|i: int|
                0 <= i < n && (#[trigger] module.patterns[i]).name == key,
    decreases n,
{
    let patterns = module.patterns;
    if n > 0 {
        let m = (n - 1) as nat;
        lemma_texts_recorded(image, module, m);
        let before = resolve_prefix(image, patterns, m).signatures;
        let after = resolve_prefix(image, patterns, n).signatures;
        let last = patterns[n - 1];
        assert(after == before.insert(last.name, last.text));
        if before.contains(last.name) {
            let j = choose|j: int| 0 <= j < m && (#[trigger] patterns[j]).name == last.name;
            assert(patterns[j].overlaps(patterns[n - 1]));
        }
        before.lemma_insert(last.name, last.text);
        lemma_rank(before.keys, last.name);
        assert forall|i: int| 0 <= i < n implies after.lookup((#[trigger] patterns[i]).name) == Some(
            patterns[i].text,
        ) by {
            if i < m {
                assert(before.lookup(patterns[i].name) == Some(patterns[i].text));
                assert(!patterns[i].overlaps(patterns[n - 1]));
            }
        }
        assert forall|key: Seq<char>| #[trigger] after.contains(key) implies exists|i: int|
            0 <= i < n && (#[trigger] patterns[i]).name == key by {
            if key == last.name {
                assert(patterns[n - 1].name == key);
            } else {
                assert(before.contains(key));
                let j = choose|j: int| 0 <= j < m && (#[trigger] patterns[j]).name == key;
                assert(0 <= j < n && patterns[j].name == key);
            }
        }
    }
}

/// A pattern that matches nowhere costs only its own entries, and no
/// pattern overwrites what another entered: after the first `n` patterns
/// of a module in which no two patterns enter offsets under a common name,
/// the offset under every name that a pattern enters offsets under is what
/// that pattern alone enters there, and there is no offset under any other
/// name.
pub proof fn lemma_offsets_entered(image: Seq<u8>, module: ModuleView, n: nat)
    requires
        module.distinct_claims(),
        n <= module.patterns.len(),
    ensures
        resolve_prefix(image, module.patterns, n).offsets.wf(),
        forall|i: int, key: Seq<char>|
            0 <= i < n && #[trigger] module.patterns[i].claims(key) ==> resolve_prefix(
                image,
                module.patterns,
                n,
            ).offsets.lookup(key) == entered(image, module.patterns[i], key),
        forall|key: Seq<char>|
            (forall|i: int| 0 <= i < n ==> !#[trigger] module.patterns[i].claims(key))
                ==> !(#[trigger] resolve_prefix(image, module.patterns, n).offsets.contains(key)),
    decreases n,
{
    let patterns = module.patterns;
    if n > 0 {
        let m = (n - 1) as nat;
        lemma_offsets_entered(image, module, m);
        let before = resolve_prefix(image, patterns, m).offsets;
        let after = resolve_prefix(image, patterns, n).offsets;
        let last = patterns[n - 1];
        assert forall|j: int, key: Seq<char>| 0 <= j < m && last.claims(key) implies !#[trigger] patterns[j].claims(
            key,
        ) by {
            if patterns[j].claims(key) {
                lemma_common_claim(patterns[j], last, key);
                assert(!patterns[j].overlaps(patterns[n - 1]));
            }
        }
        match base_offset(image, last) {
            None => {
                assert(after == before);
                assert forall|key: Seq<char>| last.claims(key) implies !before.contains(key) by {
                    assert(forall|j: int| 0 <= j < m ==> !#[trigger] patterns[j].claims(key));
                }
            },
            Some(base) => {
                let with_base = before.insert(last.name, base);
                before.lemma_insert(last.name, base);
                match last.derivation.entry(image, base) {
                    Some((name, value)) => {
                        with_base.lemma_insert(name, value);
                        assert(after == with_base.insert(name, value));
                        assert(last.claims(name));
                    },
                    None => {
                        assert(after == with_base);
                    },
                }
                assert forall|key: Seq<char>| !last.claims(key) implies after.lookup(key)
                    == before.lookup(key) by {}
                assert forall|key: Seq<char>| last.claims(key) implies after.lookup(key) == entered(
                    image,
                    last,
                    key,
                ) by {
                    assert(forall|j: int| 0 <= j < m ==> !#[trigger] patterns[j].claims(key));
                    assert(!before.contains(key));
                }
            },
        }
        assert forall|i: int, key: Seq<char>|
            0 <= i < n && #[trigger] patterns[i].claims(key) implies resolve_prefix(
            image,
            patterns,
            n,
        ).offsets.lookup(key) == entered(image, patterns[i], key) by {
            if i < m {
                assert(resolve_prefix(image, patterns, m).offsets.lookup(key) == entered(
                    image,
                    patterns[i],
                    key,
                ));
                if last.claims(key) {
                    assert(!patterns[i].claims(key));
                }
            }
        }
        assert forall|key: Seq<char>|
            (forall|i: int| 0 <= i < n ==> !#[trigger] patterns[i].claims(key)) implies !(
        #[trigger] resolve_prefix(image, patterns, n).offsets.contains(key)) by {
            assert(!patterns[n - 1].claims(key));
            assert(forall|i: int| 0 <= i < m ==> !#[trigger] patterns[i].claims(key));
            assert(!resolve_prefix(image, patterns, m).offsets.contains(key));
        }
    }
}

/// The stale patterns are those that match nowhere: after the first `n`
/// patterns, a name is among the stale ones if and only if it is the name
/// of one of these patterns and that pattern matches nowhere.
pub proof fn lemma_stale_are_misses(image: Seq<u8>, patterns: Seq<DefinitionView>, n: nat)
    requires
        n <= patterns.len(),
    ensures
        forall|name: Seq<char>| #[trigger]
            resolve_prefix(image, patterns, n).stale.contains(name) <==> exists|i: int|
                0 <= i < n && (#[trigger] patterns[i]).name == name && base_offset(
                    image,
                    patterns[i],
                ) is None,
    decreases n,
{
    if n > 0 {
        let m = (n - 1) as nat;
        lemma_stale_are_misses(image, patterns, m);
        let before = resolve_prefix(image, patterns, m).stale;
        let after = resolve_prefix(image, patterns, n).stale;
        let last = patterns[n - 1];
        assert forall|name: Seq<char>| #[trigger] after.contains(name) <==> exists|i: int|
            0 <= i < n && (#[trigger] patterns[i]).name == name && base_offset(
                image,
                patterns[i],
            ) is None by {
            if after.contains(name) {
                let j = choose|j: int| 0 <= j < after.len() && after[j] == name;
                if j < before.len() {
                    assert(before[j] == name);
                    assert(before.contains(name));
                    let i = choose|i: int|
                        0 <= i < m && (#[trigger] patterns[i]).name == name && base_offset(
                            image,
                            patterns[i],
                        ) is None;
                    assert(0 <= i < n && patterns[i].name == name);
                } else {
                    assert(patterns[n - 1].name == name && base_offset(image, patterns[n - 1]) is None);
                }
            }
            if exists|i: int|
                0 <= i < n && (#[trigger] patterns[i]).name == name && base_offset(
                    image,
                    patterns[i],
                ) is None {
                let i = choose|i: int|
                    0 <= i < n && (#[trigger] patterns[i]).name == name && base_offset(
                        image,
                        patterns[i],
                    ) is None;
                if i < m {
                    assert(before.contains(name));
                    let j = choose|j: int| 0 <= j < before.len() && before[j] == name;
                    assert(after[j] == name);
                } else {
                    assert(after[after.len() - 1] == name);
                }
            }
        }
    }
}

} // verus!
