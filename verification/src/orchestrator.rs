//! Resolution of all modules of a catalog: all or nothing by module, best
//! effort by pattern.

use crate::catalog::{distinct_modules, Catalog, ModuleCatalog, ModuleView};
use crate::image::{scannable, ImageError, ModuleImage};
use crate::resolver::{resolve_module, resolve_outcome, ModuleReport};
use crate::table::{lemma_nested_insert, nested_wf, NameMap, Table};
use vstd::prelude::*;

verus! {

/// Module name, then offset name, to relative address.
pub type OffsetMap = NameMap<NameMap<u32>>;

/// Module name, then pattern name, to signature text.
pub type PatternMap = NameMap<NameMap<String>>;

/// What reading a module out of the process gave.
pub enum ModuleFetch {
    /// The bytes of its image.
    Loaded(Vec<u8>),
    /// No module of that name is loaded.
    NotFound,
    /// Its memory could not be read.
    ReadFailed,
}

/// A module as it stands before resolution: its decoded image, or why
/// there is none.
pub enum ModuleInput<'a> {
    Image(ModuleImage<'a>),
    NotFound,
    ReadFailed,
    Undecodable(ImageError),
}

/// A [`ModuleInput`], the image given by its bytes.
pub enum InputView {
    Image(Seq<u8>),
    NotFound,
    ReadFailed,
    Undecodable(ImageError),
}

impl<'a> View for ModuleInput<'a> {
    type V = InputView;

    open spec fn view(&self) -> InputView {
        match self {
            ModuleInput::Image(image) => InputView::Image(image.bytes()),
            ModuleInput::NotFound => InputView::NotFound,
            ModuleInput::ReadFailed => InputView::ReadFailed,
            ModuleInput::Undecodable(reason) => InputView::Undecodable(*reason),
        }
    }
}

impl<'a> ModuleInput<'a> {
    pub open spec fn wf(&self) -> bool {
        match self {
            ModuleInput::Image(image) => image.wf(),
            _ => true,
        }
    }

    /// Decodes what was read. Bytes that were read give an image of exactly
    /// these bytes, or the reason why the decoder has none; a failed read
    /// stays what it is.
    pub fn from_fetch(fetch: &'a ModuleFetch) -> (r: ModuleInput<'a>)
        ensures
            r.wf(),
            decoding_of(*fetch, r@),
    {
        match fetch {
            ModuleFetch::Loaded(bytes) => match ModuleImage::decode(bytes.as_slice()) {
                Ok(image) => ModuleInput::Image(image),
                Err(reason) => ModuleInput::Undecodable(reason),
            },
            ModuleFetch::NotFound => ModuleInput::NotFound,
            ModuleFetch::ReadFailed => ModuleInput::ReadFailed,
        }
    }
}

/// A failure that ends the resolution of all modules.
#[derive(Debug, PartialEq, Eq)]
pub enum ResolveError {
    /// The module is not loaded in the process.
    ModuleNotFound { module: String },
    /// The memory of the module could not be read.
    MemoryReadFailure { module: String },
    /// The bytes of the module are no image.
    ImageParseFailure { module: String, reason: ImageError },
}

/// A [`ResolveError`], the module given by the characters of its name.
pub enum ErrorView {
    ModuleNotFound { module: Seq<char> },
    MemoryReadFailure { module: Seq<char> },
    ImageParseFailure { module: Seq<char>, reason: ImageError },
}

impl View for ResolveError {
    type V = ErrorView;

    open spec fn view(&self) -> ErrorView {
        match self {
            ResolveError::ModuleNotFound { module } => ErrorView::ModuleNotFound { module: module@ },
            ResolveError::MemoryReadFailure { module } => ErrorView::MemoryReadFailure {
                module: module@,
            },
            ResolveError::ImageParseFailure { module, reason } => ErrorView::ImageParseFailure {
                module: module@,
                reason: *reason,
            },
        }
    }
}

/// A pattern that matched nowhere in its module.
#[derive(Debug, PartialEq, Eq)]
pub struct StalePattern {
    pub module: String,
    pub pattern: String,
}

/// What resolving all modules gives: offsets and signature texts, both by
/// module and then by name, and the patterns that matched nowhere.
pub struct Resolution {
    pub offsets: OffsetMap,
    pub signatures: PatternMap,
    pub stale: Vec<StalePattern>,
}

/// The content of a [`Resolution`].
pub struct Aggregate {
    pub offsets: Table<Table<u32>>,
    pub signatures: Table<Table<Seq<char>>>,
    pub stale: Seq<(Seq<char>, Seq<char>)>,
}

impl Aggregate {
    pub open spec fn empty() -> Aggregate {
        Aggregate { offsets: Table::empty(), signatures: Table::empty(), stale: Seq::empty() }
    }

    pub open spec fn wf(self) -> bool {
        nested_wf(self.offsets) && nested_wf(self.signatures)
    }

    /// The aggregate after one more module: its offsets and its signature
    /// texts are entered under its name, its stale patterns are added with
    /// its name beside them.
    pub open spec fn absorb(self, module: ModuleView, image: Seq<u8>) -> Aggregate {
        let outcome = resolve_outcome(image, module.patterns);
        Aggregate {
            offsets: self.offsets.insert(module.module, outcome.offsets),
            signatures: self.signatures.insert(module.module, outcome.signatures),
            stale: self.stale + outcome.stale.map_values(|p: Seq<char>| (module.module, p)),
        }
    }

    /// One step of the resolution: an image is absorbed, anything else ends
    /// the resolution with the error that names the module.
    pub open spec fn step(self, module: ModuleView, input: InputView) -> Result<Aggregate, ErrorView> {
        match input {
            InputView::Image(image) => Ok(self.absorb(module, image)),
            InputView::NotFound => Err(ErrorView::ModuleNotFound { module: module.module }),
            InputView::ReadFailed => Err(ErrorView::MemoryReadFailure { module: module.module }),
            InputView::Undecodable(reason) => Err(
                ErrorView::ImageParseFailure { module: module.module, reason },
            ),
        }
    }
}

/// The input for the module at `i`; a module for which none was handed in
/// counts as not found.
pub open spec fn input_at(inputs: Seq<InputView>, i: int) -> InputView {
    if 0 <= i < inputs.len() {
        inputs[i]
    } else {
        InputView::NotFound
    }
}

/// The resolution of the first `n` modules, in order: the aggregate of all
/// of them, or the error of the first that has no image.
pub open spec fn resolve_modules(modules: Seq<ModuleView>, inputs: Seq<InputView>, n: nat) -> Result<
    Aggregate,
    ErrorView,
>
    decreases n,
{
    if n == 0 {
        Ok(Aggregate::empty())
    } else {
        match resolve_modules(modules, inputs, (n - 1) as nat) {
            Ok(before) => before.step(modules[n - 1], input_at(inputs, n - 1)),
            Err(e) => Err(e),
        }
    }
}

impl View for Resolution {
    type V = Aggregate;

    open spec fn view(&self) -> Aggregate {
        Aggregate {
            offsets: self.offsets@,
            signatures: self.signatures@,
            stale: self.stale@.map_values(|s: StalePattern| (s.module@, s.pattern@)),
        }
    }
}

impl Resolution {
    pub open spec fn wf(&self) -> bool {
        self@.wf()
    }

    pub fn new() -> (r: Resolution)
        ensures
            r.wf(),
            r@ == Aggregate::empty(),
    {
        let r = Resolution { offsets: NameMap::new(), signatures: NameMap::new(), stale: Vec::new() };
        assert(r@.stale =~= Seq::empty());
        r
    }

    /// Resolves a module against its image and enters what came of it under
    /// the module's name.
    pub fn absorb_image(&mut self, module: &ModuleCatalog, image: &ModuleImage<'_>)
        requires
            old(self).wf(),
            module.wf(),
            image.wf(),
        ensures
            final(self).wf(),
            final(self)@ == old(self)@.absorb(module@, image.bytes()),
    {
        let report = resolve_module(image, module);
        let ghost outcome = report@;
        let ModuleReport { offsets, signatures, stale } = report;
        proof {
            lemma_nested_insert(self@.offsets, module@.module, outcome.offsets);
            lemma_nested_insert(self@.signatures, module@.module, outcome.signatures);
        }
        self.offsets.insert(module.module().clone(), offsets);
        self.signatures.insert(module.module().clone(), signatures);
        let mut i: usize = 0;
        while i < stale.len()
            invariant
                i <= stale.len(),
                stale@.map_values(|s: String| s@) == outcome.stale,
                self.offsets@ == old(self)@.offsets.insert(module@.module, outcome.offsets),
                self.signatures@ == old(self)@.signatures.insert(module@.module, outcome.signatures),
                self.wf(),
                self@.stale == old(self)@.stale + outcome.stale.take(i as int).map_values(
                    |p: Seq<char>| (module@.module, p),
                ),
            decreases stale.len() - i,
        {
            let ghost before = self@.stale;
            self.stale.push(StalePattern { module: module.module().clone(), pattern: stale[i].clone() });
            assert(self@.stale =~= before.push((module@.module, outcome.stale[i as int])));
            assert(outcome.stale.take(i + 1) =~= outcome.stale.take(i as int).push(
                outcome.stale[i as int],
            ));
            assert(self@.stale =~= old(self)@.stale + outcome.stale.take(i + 1).map_values(
                |p: Seq<char>| (module@.module, p),
            ));
            i += 1;
        }
        assert(outcome.stale.take(stale.len() as int) =~= outcome.stale);
    }

    /// One step of the resolution of all modules: absorbs the module where
    /// it has an image, and fails with the error that names it otherwise,
    /// leaving the resolution as it was.
    pub fn absorb(&mut self, module: &ModuleCatalog, input: &ModuleInput<'_>) -> (r: Result<
        (),
        ResolveError,
    >)
        requires
            old(self).wf(),
            module.wf(),
            input.wf(),
        ensures
            final(self).wf(),
            match r {
                Ok(()) => old(self)@.step(module@, input@) == Ok::<_, ErrorView>(final(self)@),
                Err(e) => old(self)@.step(module@, input@) == Err::<Aggregate, _>(e@) && final(self)@
                    == old(self)@,
            },
    {
        match input {
            ModuleInput::Image(image) => {
                self.absorb_image(module, image);
                Ok(())
            },
            ModuleInput::NotFound => Err(
                ResolveError::ModuleNotFound { module: module.module().clone() },
            ),
            ModuleInput::ReadFailed => Err(
                ResolveError::MemoryReadFailure { module: module.module().clone() },
            ),
            ModuleInput::Undecodable(reason) => Err(
                ResolveError::ImageParseFailure { module: module.module().clone(), reason: *reason },
            ),
        }
    }

    /// The two maps of the resolution: offsets, and signature texts.
    pub fn into_maps(self) -> (r: (OffsetMap, PatternMap))
        ensures
            r.0@ == self@.offsets,
            r.1@ == self@.signatures,
    {
        (self.offsets, self.signatures)
    }
}

/// The inputs of all modules, each by its view.
pub open spec fn input_views(inputs: Seq<ModuleInput<'_>>) -> Seq<InputView> {
    inputs.map_values(|input: ModuleInput<'_>| input@)
}

/// Resolves the modules of a catalog in order, each against its input. The
/// first module without an image ends the resolution with its error, and
/// nothing of the modules before it is handed out. A module for which no
/// input was handed in counts as not found.
pub fn resolve_inputs(catalog: &Catalog, inputs: &Vec<ModuleInput<'_>>) -> (r: Result<
    Resolution,
    ResolveError,
>)
    requires
        catalog.wf(),
        forall|i: int| 0 <= i < inputs.len() ==> (#[trigger] inputs[i]).wf(),
    ensures
        match r {
            Ok(resolution) => resolution.wf() && resolve_modules(
                catalog@,
                input_views(inputs@),
                catalog@.len(),
            ) == Ok::<_, ErrorView>(resolution@),
            Err(e) => resolve_modules(catalog@, input_views(inputs@), catalog@.len()) == Err::<
                Aggregate,
                _,
            >(e@),
        },
{
    let mut resolution = Resolution::new();
    let missing = ModuleInput::NotFound;
    let mut i: usize = 0;
    while i < catalog.len()
        invariant
            catalog.wf(),
            forall|j: int| 0 <= j < inputs.len() ==> (#[trigger] inputs[j]).wf(),
            missing@ == InputView::NotFound,
            resolution.wf(),
            i <= catalog@.len(),
            resolve_modules(catalog@, input_views(inputs@), i as nat) == Ok::<_, ErrorView>(
                resolution@,
            ),
        decreases catalog@.len() - i,
    {
        let input = if i < inputs.len() {
            &inputs[i]
        } else {
            &missing
        };
        assert(input@ == input_at(input_views(inputs@), i as int));
        match resolution.absorb(catalog.module(i), input) {
            Ok(()) => {},
            Err(e) => {
                proof {
                    lemma_failure_is_final(
                        catalog@,
                        input_views(inputs@),
                        (i + 1) as nat,
                        catalog@.len(),
                    );
                }
                return Err(e);
            },
        }
        i += 1;
    }
    Ok(resolution)
}

/// A module without an image is fatal: once the resolution of the first
/// `n` modules has failed, the resolution of any more modules fails with
/// the same error.
pub proof fn lemma_failure_is_final(
    modules: Seq<ModuleView>,
    inputs: Seq<InputView>,
    n: nat,
    m: nat,
)
    requires
        n <= m,
        resolve_modules(modules, inputs, n) is Err,
    ensures
        resolve_modules(modules, inputs, m) == resolve_modules(modules, inputs, n),
    decreases m,
{
    if n < m {
        lemma_failure_is_final(modules, inputs, n, (m - 1) as nat);
    }
}

/// Every input of the first `n` modules is an image.
pub open spec fn all_images(inputs: Seq<InputView>, n: nat) -> bool {
    forall|i: int| 0 <= i < n ==> #[trigger] input_at(inputs, i) is Image
}

/// A module that is absent, unreadable or undecodable is fatal for the
/// whole resolution, whatever came of the modules before it: where the
/// input of one of the first `n` modules is no image, the resolution of
/// these modules is an error, and no aggregate comes of it.
pub proof fn lemma_module_failure_is_fatal(
    modules: Seq<ModuleView>,
    inputs: Seq<InputView>,
    n: nat,
    i: int,
)
    requires
        0 <= i < n,
        !(input_at(inputs, i) is Image),
    ensures
        resolve_modules(modules, inputs, n) is Err,
    decreases n,
{
    if i < n - 1 {
        lemma_module_failure_is_fatal(modules, inputs, (n - 1) as nat, i);
    }
}

/// Names are kept apart by module: after the resolution of the first `n`
/// modules of a catalog whose modules have distinct names, each against an
/// image, the aggregate holds under the name of each module exactly what
/// resolving that module against its own image gives, whatever names the
/// patterns of the other modules have.
pub proof fn lemma_modules_are_kept_apart(
    modules: Seq<ModuleView>,
    inputs: Seq<InputView>,
    n: nat,
)
    requires
        distinct_modules(modules),
        n <= modules.len(),
        all_images(inputs, n),
    ensures
        resolve_modules(modules, inputs, n) is Ok,
        resolve_modules(modules, inputs, n)->Ok_0.offsets.wf(),
        resolve_modules(modules, inputs, n)->Ok_0.signatures.wf(),
        forall|i: int|
            0 <= i < n ==> resolve_modules(modules, inputs, n)->Ok_0.offsets.lookup(
                (#[trigger] modules[i]).module,
            ) == Some(resolve_outcome(input_at(inputs, i)->Image_0, modules[i].patterns).offsets),
        forall|i: int|
            0 <= i < n ==> resolve_modules(modules, inputs, n)->Ok_0.signatures.lookup(
                (#[trigger] modules[i]).module,
            ) == Some(
                resolve_outcome(input_at(inputs, i)->Image_0, modules[i].patterns).signatures,
            ),
        forall|name: Seq<char>|
            (forall|i: int| 0 <= i < n ==> (#[trigger] modules[i]).module != name) ==> !(
            #[trigger] resolve_modules(modules, inputs, n)->Ok_0.offsets.contains(name)),
        forall|name: Seq<char>|
            (forall|i: int| 0 <= i < n ==> (#[trigger] modules[i]).module != name) ==> !(
            #[trigger] resolve_modules(modules, inputs, n)->Ok_0.signatures.contains(name)),
    decreases n,
{
    if n > 0 {
        let m = (n - 1) as nat;
        lemma_modules_are_kept_apart(modules, inputs, m);
        let before = resolve_modules(modules, inputs, m)->Ok_0;
        let last = modules[n - 1];
        assert(input_at(inputs, n - 1) is Image);
        let image = input_at(inputs, n - 1)->Image_0;
        let outcome = resolve_outcome(image, last.patterns);
        let after = resolve_modules(modules, inputs, n)->Ok_0;
        assert(after == before.absorb(last, image));
        before.offsets.lemma_insert(last.module, outcome.offsets);
        before.signatures.lemma_insert(last.module, outcome.signatures);
        assert forall|i: int| 0 <= i < n implies after.offsets.lookup(
            (#[trigger] modules[i]).module,
        ) == Some(resolve_outcome(input_at(inputs, i)->Image_0, modules[i].patterns).offsets)
            && after.signatures.lookup(modules[i].module) == Some(
            resolve_outcome(input_at(inputs, i)->Image_0, modules[i].patterns).signatures,
        ) by {
            if i < m {
                assert(modules[i].module != modules[n - 1].module);
                assert(before.offsets.contains(modules[i].module));
                assert(before.signatures.contains(modules[i].module));
            }
        }
        assert forall|name: Seq<char>|
            (forall|i: int| 0 <= i < n ==> (#[trigger] modules[i]).module != name) implies !(
        #[trigger] after.offsets.contains(name)) by {
            assert(modules[n - 1].module != name);
            assert(forall|i: int| 0 <= i < m ==> (#[trigger] modules[i]).module != name);
            assert(!before.offsets.contains(name));
        }
        assert forall|name: Seq<char>|
            (forall|i: int| 0 <= i < n ==> (#[trigger] modules[i]).module != name) implies !(
        #[trigger] after.signatures.contains(name)) by {
            assert(modules[n - 1].module != name);
            assert(forall|i: int| 0 <= i < m ==> (#[trigger] modules[i]).module != name);
            assert(!before.signatures.contains(name));
        }
    }
}

/// What decoding may make of what was read: bytes that were read give an
/// image of exactly these bytes, with its code range inside them, or a
/// reason why there is none; a failed read stays what it is. Bytes longer
/// than 32-bit addresses reach give no image, for that reason and no other;
/// a code range outside the bytes is a reason only where it is so.
pub open spec fn decoding_of(fetch: ModuleFetch, input: InputView) -> bool {
    match fetch {
        ModuleFetch::Loaded(bytes) => match input {
            InputView::Image(image) => image == bytes@ && scannable(image),
            InputView::Undecodable(reason) => match reason {
                ImageError::TooLarge => bytes@.len() > u32::MAX,
                ImageError::Headers => bytes@.len() <= u32::MAX,
                ImageError::CodeRange => bytes@.len() <= u32::MAX && !scannable(bytes@),
            },
            _ => false,
        },
        ModuleFetch::NotFound => input == InputView::NotFound,
        ModuleFetch::ReadFailed => input == InputView::ReadFailed,
    }
}

/// Each input is what decoding may make of the fetch at its index.
pub open spec fn decodings_of(fetched: Seq<ModuleFetch>, inputs: Seq<InputView>) -> bool {
    &&& inputs.len() == fetched.len()
    &&& forall|i: int| 0 <= i < fetched.len() ==> decoding_of(#[trigger] fetched[i], inputs[i])
}

/// The result is what [`resolve_modules`] gives for these inputs.
pub open spec fn is_resolution_of(
    r: Result<Resolution, ResolveError>,
    modules: Seq<ModuleView>,
    inputs: Seq<InputView>,
) -> bool {
    match r {
        Ok(resolution) => resolve_modules(modules, inputs, modules.len()) == Ok::<_, ErrorView>(
            resolution@,
        ),
        Err(e) => resolve_modules(modules, inputs, modules.len()) == Err::<Aggregate, _>(e@),
    }
}

/// Resolves all modules of the catalog from what was read of each, the
/// fetch at index `i` being that of the module at index `i`: decodes what
/// was read, then resolves as [`resolve_inputs`] does. Whether bytes decode
/// is the decoder's to say, so the result is stated for the decodings that
/// it made.
pub fn offsets(catalog: &Catalog, fetched: &Vec<ModuleFetch>) -> (r: Result<Resolution, ResolveError>)
    requires
        catalog.wf(),
    ensures
        r matches Ok(resolution) ==> resolution.wf(),
        exists|inputs: Seq<InputView>|
            decodings_of(fetched@, inputs) && #[trigger] is_resolution_of(r, catalog@, inputs),
{
    let mut inputs: Vec<ModuleInput<'_>> = Vec::new();
    let mut i: usize = 0;
    while i < fetched.len()
        invariant
            i <= fetched.len(),
            inputs.len() == i,
            forall|j: int| 0 <= j < i ==> (#[trigger] inputs[j]).wf(),
            forall|j: int| 0 <= j < i ==> decoding_of(#[trigger] fetched[j], inputs[j]@),
        decreases fetched.len() - i,
    {
        inputs.push(ModuleInput::from_fetch(&fetched[i]));
        i += 1;
    }
    let r = resolve_inputs(catalog, &inputs);
    proof {
        let views = input_views(inputs@);
        assert(decodings_of(fetched@, views));
        assert(is_resolution_of(r, catalog@, views));
    }
    r
}

} // verus!
