//! The catalog: for each module, the named patterns to look for, in order.

use crate::image::{scan_outcome, ModuleImage};
use crate::signature::{atoms_of, compile_outcome, Signature, SignatureError};
use crate::table::{NameMap, Table};
use vstd::prelude::*;

verus! {

/// What a pattern derives from its base offset, beside the base offset
/// itself.
pub enum Derivation {
    /// Nothing.
    Absent,
    /// The base offset plus a fixed distance, as for a field of known place
    /// in a structure.
    FixedDelta { name: String, delta: u32 },
    /// `(base + base * 2) * element_size`, as code does that indexes an
    /// array of elements three words wide.
    ScaledIndex { name: String, element_size: u32 },
    /// The base offset plus the first capture of a second, independent scan.
    SecondaryScan { name: String, signature: Signature },
}

/// A derivation, with its names and texts as sequences of characters.
pub enum DerivationView {
    Absent,
    FixedDelta { name: Seq<char>, delta: u32 },
    ScaledIndex { name: Seq<char>, element_size: u32 },
    SecondaryScan { name: Seq<char>, text: Seq<char> },
}

impl DerivationView {
    /// The name under which the derived offset is entered, if there is one.
    pub open spec fn name(self) -> Option<Seq<char>> {
        match self {
            DerivationView::Absent => None,
            DerivationView::FixedDelta { name, .. } => Some(name),
            DerivationView::ScaledIndex { name, .. } => Some(name),
            DerivationView::SecondaryScan { name, .. } => Some(name),
        }
    }

    /// The derived offset for a base offset, as a mathematical integer, or
    /// nothing where the second scan finds no match.
    pub open spec fn value(self, image: Seq<u8>, base: u32) -> Option<int> {
        match self {
            DerivationView::Absent => None,
            DerivationView::FixedDelta { delta, .. } => Some(base + delta),
            DerivationView::ScaledIndex { element_size, .. } => Some(
                (base + base * 2) * element_size,
            ),
            DerivationView::SecondaryScan { text, .. } => match scan_outcome(
                image,
                atoms_of(text),
            ) {
                Some(slots) => Some(base + slots[1]),
                None => None,
            },
        }
    }

    /// The entry that the derivation adds: its name and the derived offset,
    /// where there is one and it fits an offset.
    pub open spec fn entry(self, image: Seq<u8>, base: u32) -> Option<(Seq<char>, u32)> {
        match (self.name(), self.value(image, base)) {
            (Some(name), Some(value)) => if value <= u32::MAX {
                Some((name, value as u32))
            } else {
                None
            },
            _ => None,
        }
    }

    /// The offsets of a module after the derivation has run on them.
    pub open spec fn extend(self, image: Seq<u8>, offsets: Table<u32>, base: u32) -> Table<u32> {
        match self.entry(image, base) {
            Some((name, value)) => offsets.insert(name, value),
            None => offsets,
        }
    }
}

impl View for Derivation {
    type V = DerivationView;

    open spec fn view(&self) -> DerivationView {
        match self {
            Derivation::Absent => DerivationView::Absent,
            Derivation::FixedDelta { name, delta } => DerivationView::FixedDelta {
                name: name@,
                delta: *delta,
            },
            Derivation::ScaledIndex { name, element_size } => DerivationView::ScaledIndex {
                name: name@,
                element_size: *element_size,
            },
            Derivation::SecondaryScan { name, signature } => DerivationView::SecondaryScan {
                name: name@,
                text: signature.text(),
            },
        }
    }
}

/// A derivation by a fixed distance enters `base + delta` under its name,
/// where that fits an offset, and leaves every other entry as it was.
pub proof fn lemma_fixed_delta(
    name: Seq<char>,
    delta: u32,
    image: Seq<u8>,
    offsets: Table<u32>,
    base: u32,
)
    requires
        offsets.wf(),
        base + delta <= u32::MAX,
    ensures
        (DerivationView::FixedDelta { name, delta }).extend(image, offsets, base).wf(),
        (DerivationView::FixedDelta { name, delta }).extend(image, offsets, base).lookup(name)
            == Some((base + delta) as u32),
        forall|key: Seq<char>|
            key != name ==> (#[trigger] (DerivationView::FixedDelta { name, delta }).extend(
                image,
                offsets,
                base,
            ).lookup(key)) == offsets.lookup(key),
{
    offsets.lemma_insert(name, (base + delta) as u32);
}

/// No derivation removes or changes an entry under another name than its
/// own: whatever it derives, every entry under another name stays.
pub proof fn lemma_derivation_keeps_other_entries(
    derivation: DerivationView,
    image: Seq<u8>,
    offsets: Table<u32>,
    base: u32,
)
    requires
        offsets.wf(),
    ensures
        derivation.extend(image, offsets, base).wf(),
        forall|key: Seq<char>|
            derivation.name() != Some(key) ==> (#[trigger] derivation.extend(
                image,
                offsets,
                base,
            ).lookup(key)) == offsets.lookup(key),
{
    match derivation.entry(image, base) {
        Some((name, value)) => {
            offsets.lemma_insert(name, value);
        },
        None => {},
    }
}

/// `(base + base * 2) * element_size`, where it fits an offset.
pub fn scaled_index(base: u32, element_size: u32) -> (r: Option<u32>)
    ensures
        r == if (base + base * 2) * element_size <= u32::MAX {
            Some(((base + base * 2) * element_size) as u32)
        } else {
            None::<u32>
        },
{
    let triple: u64 = base as u64 * 3;
    if element_size == 0 {
        assert((base + base * 2) * element_size == 0) by (nonlinear_arith)
            requires
                element_size == 0,
        ;
        Some(0)
    } else if triple > 0xffff_ffff {
        assert((base + base * 2) * element_size > u32::MAX) by (nonlinear_arith)
            requires
                base + base * 2 > u32::MAX,
                element_size >= 1,
        ;
        None
    } else {
        assert(triple * element_size <= 0xffff_ffff * 0xffff_ffff) by (nonlinear_arith)
            requires
                triple <= 0xffff_ffff,
                element_size <= 0xffff_ffff,
        ;
        let product: u64 = triple * (element_size as u64);
        if product > 0xffff_ffff {
            None
        } else {
            Some(product as u32)
        }
    }
}

impl Derivation {
    pub open spec fn wf(&self) -> bool {
        match self {
            Derivation::SecondaryScan { signature, .. } => signature.wf(),
            _ => true,
        }
    }

    /// A derivation by a second scan, its signature compiled here.
    pub fn secondary_scan(name: &str, text: &str) -> (r: Result<Derivation, SignatureError>)
        ensures
            match r {
                Ok(d) => d.wf() && d@ == (DerivationView::SecondaryScan { name: name@, text: text@ }),
                Err(e) => compile_outcome(text@) == Err::<Seq<pelite::pattern::Atom>, _>(e),
            },
    {
        match Signature::compile(text) {
            Ok(signature) => Ok(Derivation::SecondaryScan { name: name.to_owned(), signature }),
            Err(e) => Err(e),
        }
    }

    /// The derived offset for `base`, where there is one and it fits.
    pub fn compute(&self, image: &ModuleImage<'_>, base: u32) -> (r: Option<u32>)
        requires
            self.wf(),
            image.wf(),
        ensures
            r == match self@.entry(image.bytes(), base) {
                Some((_, value)) => Some(value),
                None => None::<u32>,
            },
    {
        match self {
            Derivation::Absent => None,
            Derivation::FixedDelta { delta, .. } => base.checked_add(*delta),
            Derivation::ScaledIndex { element_size, .. } => scaled_index(base, *element_size),
            Derivation::SecondaryScan { signature, .. } => match image.scan(signature) {
                Some(slots) => base.checked_add(slots[1]),
                None => None,
            },
        }
    }

    /// Runs the derivation: enters the derived offset under its name, and
    /// leaves the offsets as they are where there is none.
    pub fn apply(&self, image: &ModuleImage<'_>, offsets: &mut NameMap<u32>, base: u32)
        requires
            self.wf(),
            image.wf(),
            old(offsets).wf(),
        ensures
            final(offsets).wf(),
            final(offsets)@ == self@.extend(image.bytes(), old(offsets)@, base),
    {
        let value = self.compute(image, base);
        match (self, value) {
            (Derivation::FixedDelta { name, .. }, Some(v)) => offsets.insert(name.clone(), v),
            (Derivation::ScaledIndex { name, .. }, Some(v)) => offsets.insert(name.clone(), v),
            (Derivation::SecondaryScan { name, .. }, Some(v)) => offsets.insert(name.clone(), v),
            _ => {},
        }
    }

    /// The name under which the derived offset is entered, if there is one.
    pub fn derived_name(&self) -> (r: Option<&String>)
        ensures
            match r {
                Some(name) => self@.name() == Some(name@),
                None => self@.name() is None,
            },
    {
        match self {
            Derivation::Absent => None,
            Derivation::FixedDelta { name, .. } => Some(name),
            Derivation::ScaledIndex { name, .. } => Some(name),
            Derivation::SecondaryScan { name, .. } => Some(name),
        }
    }
}

/// Why a catalog cannot be built.
#[derive(Debug, Clone, Copy, PartialEq, Eq, Structural)]
pub enum CatalogError {
    /// A signature text is refused.
    Signature(SignatureError),
    /// A name that the pattern enters offsets under is already taken by
    /// another pattern of the module.
    DuplicateName,
    /// The module is already in the catalog.
    DuplicateModule,
}

/// A named pattern: its signature, and what is derived from a match.
pub struct PatternDefinition {
    name: String,
    signature: Signature,
    derivation: Derivation,
}

/// A pattern definition, with its names and texts as sequences of
/// characters. The compiled atoms are no part of it: they are a function of
/// the text.
pub struct DefinitionView {
    pub name: Seq<char>,
    pub text: Seq<char>,
    pub derivation: DerivationView,
}

impl DefinitionView {
    /// The pattern enters offsets under `key`.
    pub open spec fn claims(self, key: Seq<char>) -> bool {
        key == self.name || self.derivation.name() == Some(key)
    }

    /// Two patterns enter offsets under a common name.
    pub open spec fn overlaps(self, other: DefinitionView) -> bool {
        ||| self.name == other.name
        ||| other.derivation.name() == Some(self.name)
        ||| self.derivation.name() == Some(other.name)
        ||| (self.derivation.name() is Some && self.derivation.name() == other.derivation.name())
    }
}

impl View for PatternDefinition {
    type V = DefinitionView;

    closed spec fn view(&self) -> DefinitionView {
        DefinitionView {
            name: self.name@,
            text: self.signature.text(),
            derivation: self.derivation@,
        }
    }
}

impl PatternDefinition {
    /// The compiled signature goes with the text, also in the derivation.
    pub closed spec fn wf(&self) -> bool {
        self.signature.wf() && self.derivation.wf()
    }

    /// Defines a pattern, compiling its signature text once.
    pub fn new(name: &str, text: &str, derivation: Derivation) -> (r: Result<
        PatternDefinition,
        SignatureError,
    >)
        requires
            derivation.wf(),
        ensures
            match r {
                Ok(d) => d.wf() && d@ == (DefinitionView {
                    name: name@,
                    text: text@,
                    derivation: derivation@,
                }),
                Err(e) => compile_outcome(text@) == Err::<Seq<pelite::pattern::Atom>, _>(e),
            },
    {
        match Signature::compile(text) {
            Ok(signature) => Ok(PatternDefinition { name: name.to_owned(), signature, derivation }),
            Err(e) => Err(e),
        }
    }

    pub fn name(&self) -> (r: &String)
        ensures
            r@ == self@.name,
    {
        &self.name
    }

    pub fn signature(&self) -> (r: &Signature)
        requires
            self.wf(),
        ensures
            r.wf(),
            r.text() == self@.text,
    {
        &self.signature
    }

    pub fn derivation(&self) -> (r: &Derivation)
        requires
            self.wf(),
        ensures
            r.wf(),
            r@ == self@.derivation,
    {
        &self.derivation
    }

    /// Whether two patterns enter offsets under a common name.
    pub fn overlaps(&self, other: &PatternDefinition) -> (r: bool)
        ensures
            r == self@.overlaps(other@),
    {
        if self.name == other.name {
            return true;
        }
        let mine = self.derivation.derived_name();
        let theirs = other.derivation.derived_name();
        match (mine, theirs) {
            (Some(a), Some(b)) => *a == other.name || *b == self.name || *a == *b,
            (Some(a), None) => *a == other.name,
            (None, Some(b)) => *b == self.name,
            (None, None) => false,
        }
    }
}

/// The patterns of one module, in the order in which they are resolved.
pub struct ModuleCatalog {
    module: String,
    patterns: Vec<PatternDefinition>,
}

/// The catalog of one module: its name and its pattern definitions.
pub struct ModuleView {
    pub module: Seq<char>,
    pub patterns: Seq<DefinitionView>,
}

impl ModuleView {
    /// No two patterns enter offsets under a common name.
    pub open spec fn distinct_claims(self) -> bool {
        forall|i: int, j: int|
            0 <= i < self.patterns.len() && 0 <= j < self.patterns.len() && i != j ==> !(
            #[trigger] self.patterns[i]).overlaps(#[trigger] self.patterns[j])
    }

    /// Some pattern of the module enters offsets under a name that
    /// `definition` enters offsets under.
    pub open spec fn conflicts(self, definition: DefinitionView) -> bool {
        exists|i: int|
            0 <= i < self.patterns.len() && (#[trigger] self.patterns[i]).overlaps(definition)
    }

    pub open spec fn push(self, definition: DefinitionView) -> ModuleView {
        ModuleView { module: self.module, patterns: self.patterns.push(definition) }
    }

    /// The module with one more pattern, made from its parts: refused where
    /// the text does not compile, or where the pattern enters offsets under
    /// a name that is taken.
    pub open spec fn defined(
        self,
        name: Seq<char>,
        text: Seq<char>,
        derivation: DerivationView,
    ) -> Result<ModuleView, CatalogError> {
        let definition = DefinitionView { name, text, derivation };
        match compile_outcome(text) {
            Err(e) => Err(CatalogError::Signature(e)),
            Ok(_) => if self.conflicts(definition) {
                Err(CatalogError::DuplicateName)
            } else {
                Ok(self.push(definition))
            },
        }
    }
}

impl View for ModuleCatalog {
    type V = ModuleView;

    closed spec fn view(&self) -> ModuleView {
        ModuleView {
            module: self.module@,
            patterns: self.patterns@.map_values(|d: PatternDefinition| d@),
        }
    }
}

impl ModuleCatalog {
    pub closed spec fn definitions_wf(&self) -> bool {
        forall|i: int| 0 <= i < self.patterns.len() ==> (#[trigger] self.patterns[i]).wf()
    }

    /// Every definition is well-formed, and no two of them enter offsets
    /// under a common name.
    pub open spec fn wf(&self) -> bool {
        self.definitions_wf() && self@.distinct_claims()
    }

    /// The catalog of a module, without patterns yet.
    pub fn new(module: &str) -> (r: ModuleCatalog)
        ensures
            r.wf(),
            r@ == (ModuleView { module: module@, patterns: Seq::empty() }),
    {
        let r = ModuleCatalog { module: module.to_owned(), patterns: Vec::new() };
        assert(r@.patterns =~= Seq::empty());
        r
    }

    /// Adds a pattern at the end, unless it enters offsets under a name that
    /// a pattern of the module already enters offsets under.
    pub fn define(&mut self, definition: PatternDefinition) -> (r: Result<(), CatalogError>)
        requires
            old(self).wf(),
            definition.wf(),
        ensures
            final(self).wf(),
            match r {
                Ok(()) => !old(self)@.conflicts(definition@) && final(self)@ == old(self)@.push(
                    definition@,
                ),
                Err(e) => e == CatalogError::DuplicateName && old(self)@.conflicts(definition@)
                    && final(self)@ == old(self)@,
            },
    {
        let mut i: usize = 0;
        while i < self.patterns.len()
            invariant
                self.wf(),
                i <= self.patterns.len(),
                forall|j: int| 0 <= j < i ==> !(#[trigger] self@.patterns[j]).overlaps(definition@),
            decreases self.patterns.len() - i,
        {
            if self.patterns[i].overlaps(&definition) {
                assert(self@.patterns[i as int].overlaps(definition@));
                return Err(CatalogError::DuplicateName);
            }
            i += 1;
        }
        let ghost added = definition@;
        self.patterns.push(definition);
        assert(self@.patterns =~= old(self)@.patterns.push(added));
        assert forall|a: int, b: int|
            0 <= a < self@.patterns.len() && 0 <= b < self@.patterns.len() && a != b implies !(
        #[trigger] self@.patterns[a]).overlaps(#[trigger] self@.patterns[b]) by {
            if a < old(self)@.patterns.len() && b < old(self)@.patterns.len() {
                assert(!old(self)@.patterns[a].overlaps(old(self)@.patterns[b]));
            } else if a < old(self)@.patterns.len() {
                assert(!old(self)@.patterns[a].overlaps(added));
            } else {
                assert(!old(self)@.patterns[b].overlaps(added));
            }
        }
        Ok(())
    }

    /// Compiles a pattern and adds it at the end: the two steps of
    /// [`PatternDefinition::new`] and [`ModuleCatalog::define`] in one.
    pub fn define_pattern(&mut self, name: &str, text: &str, derivation: Derivation) -> (r: Result<
        (),
        CatalogError,
    >)
        requires
            old(self).wf(),
            derivation.wf(),
        ensures
            final(self).wf(),
            match r {
                Ok(()) => old(self)@.defined(name@, text@, derivation@) == Ok::<_, CatalogError>(
                    final(self)@,
                ),
                Err(e) => old(self)@.defined(name@, text@, derivation@) == Err::<ModuleView, _>(e)
                    && final(self)@ == old(self)@,
            },
    {
        match PatternDefinition::new(name, text, derivation) {
            Ok(definition) => self.define(definition),
            Err(e) => Err(CatalogError::Signature(e)),
        }
    }

    pub fn module(&self) -> (r: &String)
        ensures
            r@ == self@.module,
    {
        &self.module
    }

    pub fn len(&self) -> (n: usize)
        ensures
            n == self@.patterns.len(),
    {
        self.patterns.len()
    }

    pub fn pattern(&self, i: usize) -> (r: &PatternDefinition)
        requires
            self.wf(),
            i < self@.patterns.len(),
        ensures
            r.wf(),
            r@ == self@.patterns[i as int],
    {
        &self.patterns[i]
    }
}

/// The modules to resolve, in order, each with its patterns.
pub struct Catalog {
    modules: Vec<ModuleCatalog>,
}

impl View for Catalog {
    type V = Seq<ModuleView>;

    closed spec fn view(&self) -> Seq<ModuleView> {
        self.modules@.map_values(|m: ModuleCatalog| m@)
    }
}

/// No two modules have the same name.
pub open spec fn distinct_modules(modules: Seq<ModuleView>) -> bool {
    forall|i: int, j: int|
        0 <= i < modules.len() && 0 <= j < modules.len() && i != j ==> (#[trigger] modules[i]).module
            != (#[trigger] modules[j]).module
}

/// The modules with one more at the end, refused where its name is taken.
pub open spec fn added(modules: Seq<ModuleView>, module: ModuleView) -> Result<
    Seq<ModuleView>,
    CatalogError,
> {
    if has_module(modules, module.module) {
        Err(CatalogError::DuplicateModule)
    } else {
        Ok(modules.push(module))
    }
}

/// Some module of the sequence has this name.
pub open spec fn has_module(modules: Seq<ModuleView>, name: Seq<char>) -> bool {
    exists|i: int| 0 <= i < modules.len() && (#[trigger] modules[i]).module == name
}

impl Catalog {
    pub closed spec fn modules_wf(&self) -> bool {
        forall|i: int| 0 <= i < self.modules.len() ==> (#[trigger] self.modules[i]).wf()
    }

    /// Every module is well-formed, and no two have the same name.
    pub open spec fn wf(&self) -> bool {
        self.modules_wf() && distinct_modules(self@)
    }

    pub fn new() -> (r: Catalog)
        ensures
            r.wf(),
            r@ == Seq::<ModuleView>::empty(),
    {
        let r = Catalog { modules: Vec::new() };
        assert(r@ =~= Seq::empty());
        r
    }

    /// Adds a module at the end, unless one of its name is there already.
    pub fn add(&mut self, module: ModuleCatalog) -> (r: Result<(), CatalogError>)
        requires
            old(self).wf(),
            module.wf(),
        ensures
            final(self).wf(),
            match r {
                Ok(()) => !has_module(old(self)@, module@.module) && final(self)@ == old(self)@.push(
                    module@,
                ),
                Err(e) => e == CatalogError::DuplicateModule && has_module(
                    old(self)@,
                    module@.module,
                ) && final(self)@ == old(self)@,
            },
    {
        let mut i: usize = 0;
        while i < self.modules.len()
            invariant
                self.wf(),
                i <= self.modules.len(),
                forall|j: int| 0 <= j < i ==> (#[trigger] self@[j]).module != module@.module,
            decreases self.modules.len() - i,
        {
            if *self.modules[i].module() == *module.module() {
                assert(self@[i as int].module == module@.module);
                return Err(CatalogError::DuplicateModule);
            }
            i += 1;
        }
        let ghost added = module@;
        self.modules.push(module);
        assert(self@ =~= old(self)@.push(added));
        Ok(())
    }

    pub fn len(&self) -> (n: usize)
        ensures
            n == self@.len(),
    {
        self.modules.len()
    }

    pub fn module(&self, i: usize) -> (r: &ModuleCatalog)
        requires
            self.wf(),
            i < self@.len(),
        ensures
            r.wf(),
            r@ == self@[i as int],
    {
        &self.modules[i]
    }
}

} // verus!
