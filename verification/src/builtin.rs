//! The built-in catalog: the modules of the target and their patterns.

use crate::catalog::{
    added, Catalog, CatalogError, Derivation, DerivationView, ModuleCatalog, ModuleView,
};
use crate::signature::{compile_outcome, SignatureError};
use vstd::prelude::*;

verus! {

pub const CLIENT_DLL: &'static str = "client.dll";

pub const ENGINE2_DLL: &'static str = "engine2.dll";

pub const INPUTSYSTEM_DLL: &'static str = "inputsystem.dll";

pub const MATCHMAKING_DLL: &'static str = "matchmaking.dll";

pub const SOUNDSYSTEM_DLL: &'static str = "soundsystem.dll";

/// The patterns of `client.dll`: name and signature text.
pub const CLIENT: [(&'static str, &'static str); 15] = [
    ("dwCSGOInput", "488905${'} 0f57c0 0f1105"),
    ("dwEntityList", "488935${'} 4885f6"),
    ("dwGameEntitySystem", "488b1d${'} 48891d"),
    (
        "dwGameEntitySystem_highestEntityIndex",
        "8b81u2?? 8902 488bc2 c3 cccccccc 48895c24? 48896c24",
    ),
    ("dwGameRules", "48891d${'} ff15${} 84c0"),
    ("dwGlobalVars", "488915${'} 488942"),
    ("dwGlowManager", "488b05${'} c3 cccccccccccccccc 8b41"),
    ("dwLocalPlayerController", "488905${'} 8b9e"),
    ("dwPlantedC4", "488b15${'} 41ffc0"),
    ("dwPrediction", "488d05${'} c3 cccccccccccccccc 4883ec? 8b0d"),
    ("dwSensitivity", "488d0d${[8]'} 440f28c1 0f28f3 0f28fa e8"),
    (
        "dwSensitivity_sensitivity",
        "ff50u1 4c8bc6 488d55? 488bcf e8${} 84c0 0f85${} 4c8d45? 8bd3 488bcf e8${} e9${} f30f1006",
    ),
    ("dwViewMatrix", "488d0d${'} 48c1e006"),
    ("dwViewRender", "488905${'} 488bc8 4885c0"),
    ("dwWeaponC4", "488b15${'} 488b5c24? ffc0 8905[4] 488bc7"),
];

/// The patterns of `engine2.dll`.
pub const ENGINE2: [(&'static str, &'static str); 11] = [
    ("dwBuildNumber", "8905${'} 488d0d${} ff15${} 488b0d"),
    ("dwNetworkGameClient", "48893d${'} 488d15"),
    (
        "dwNetworkGameClient_clientTickCount",
        "8b81u4 c3 cccccccccccccccccc 8b81${} c3 cccccccccccccccccc 83b9",
    ),
    ("dwNetworkGameClient_deltaTick", "89b3u4 8b45"),
    (
        "dwNetworkGameClient_isBackgroundMap",
        "0fb681u4 c3 cccccccccccccccc 0fb681${} c3 cccccccccccccccc 48895c24",
    ),
    ("dwNetworkGameClient_localPlayer", "4883c0u1 488d0440 8b0cc1"),
    ("dwNetworkGameClient_maxClients", "8b81u4 c3cccccccccccccccccc 8b81${} ffc0"),
    ("dwNetworkGameClient_serverTickCount", "8b81u4 c3 cccccccccccccccccc 83b9"),
    ("dwNetworkGameClient_signOnState", "448b81u4 488d0d"),
    ("dwWindowHeight", "8b05${'} 8903"),
    ("dwWindowWidth", "8b05${'} 8907"),
];

/// The patterns of `inputsystem.dll`.
pub const INPUTSYSTEM: [(&'static str, &'static str); 1] = [("dwInputSystem", "488905${'} 488d05")];

/// The patterns of `matchmaking.dll`.
pub const MATCHMAKING: [(&'static str, &'static str); 2] = [
    ("dwGameTypes", "488d0d${'} 33d2"),
    ("dwGameTypes_mapName", "488b81u4 4885c074? 4883c0"),
];

/// The patterns of `soundsystem.dll`.
pub const SOUNDSYSTEM: [(&'static str, &'static str); 2] = [
    ("dwSoundSystem", "488d05${'} c3 cccccccccccccccc 488915"),
    ("dwSoundSystem_engineViewData", "0f1147u1 0f104b"),
];

/// The pattern whose match leads to the view angles by a second scan.
pub const CSGO_INPUT: &'static str = "dwCSGOInput";

pub const VIEW_ANGLES: &'static str = "dwViewAngles";

pub const VIEW_ANGLES_SIGNATURE: &'static str = "f2410f108430u4";

/// The pattern from whose match the local player pawn lies a fixed
/// distance away.
pub const PREDICTION: &'static str = "dwPrediction";

pub const LOCAL_PLAYER_PAWN: &'static str = "dwLocalPlayerPawn";

pub const LOCAL_PLAYER_PAWN_DELTA: u32 = 0x180;

/// The pattern that captures the index of the local player in an array,
/// which the code scales to an offset.
pub const LOCAL_PLAYER: &'static str = "dwNetworkGameClient_localPlayer";

pub const LOCAL_PLAYER_ELEMENT_SIZE: u32 = 8;

/// What the built-in pattern of a name derives from its base offset.
pub open spec fn derivation_of(name: Seq<char>) -> DerivationView {
    if name == CSGO_INPUT@ {
        DerivationView::SecondaryScan { name: VIEW_ANGLES@, text: VIEW_ANGLES_SIGNATURE@ }
    } else if name == PREDICTION@ {
        DerivationView::FixedDelta { name: LOCAL_PLAYER_PAWN@, delta: LOCAL_PLAYER_PAWN_DELTA }
    } else if name == LOCAL_PLAYER@ {
        DerivationView::ScaledIndex { name: LOCAL_PLAYER@, element_size: LOCAL_PLAYER_ELEMENT_SIZE }
    } else {
        DerivationView::Absent
    }
}

/// The module with the pattern of one row added: refused where the text of
/// the second scan or the text of the row does not compile, or where a
/// name is taken.
pub open spec fn with_row(module: ModuleView, row: (&'static str, &'static str)) -> Result<
    ModuleView,
    CatalogError,
> {
    match derivation_of(row.0@) {
        DerivationView::SecondaryScan { text, .. } => match compile_outcome(text) {
            Err(e) => Err(CatalogError::Signature(e)),
            Ok(_) => module.defined(row.0@, row.1@, derivation_of(row.0@)),
        },
        _ => module.defined(row.0@, row.1@, derivation_of(row.0@)),
    }
}

/// The module with the patterns of the first `n` rows added, in order, or
/// the first refusal.
pub open spec fn with_rows(
    module: ModuleView,
    rows: Seq<(&'static str, &'static str)>,
    n: nat,
) -> Result<ModuleView, CatalogError>
    decreases n,
{
    if n == 0 {
        Ok(module)
    } else {
        match with_rows(module, rows, (n - 1) as nat) {
            Ok(before) => with_row(before, rows[n - 1]),
            Err(e) => Err(e),
        }
    }
}

/// The catalog of a module from its name and all of its rows.
pub open spec fn module_of(name: Seq<char>, rows: Seq<(&'static str, &'static str)>) -> Result<
    ModuleView,
    CatalogError,
> {
    with_rows(ModuleView { module: name, patterns: Seq::empty() }, rows, rows.len())
}

/// The modules with one more, built from its rows.
pub open spec fn with_module(
    modules: Result<Seq<ModuleView>, CatalogError>,
    name: Seq<char>,
    rows: Seq<(&'static str, &'static str)>,
) -> Result<Seq<ModuleView>, CatalogError> {
    match modules {
        Err(e) => Err(e),
        Ok(before) => match module_of(name, rows) {
            Err(e) => Err(e),
            Ok(module) => added(before, module),
        },
    }
}

/// The built-in catalog: the five modules in order, each from its rows; or
/// the first refusal met on the way.
pub open spec fn builtin_modules() -> Result<Seq<ModuleView>, CatalogError> {
    with_module(
        with_module(
            with_module(
                with_module(
                    with_module(Ok(Seq::empty()), CLIENT_DLL@, CLIENT@),
                    ENGINE2_DLL@,
                    ENGINE2@,
                ),
                INPUTSYSTEM_DLL@,
                INPUTSYSTEM@,
            ),
            MATCHMAKING_DLL@,
            MATCHMAKING@,
        ),
        SOUNDSYSTEM_DLL@,
        SOUNDSYSTEM@,
    )
}

/// The derivation that goes with a built-in pattern.
pub fn derive_for(name: &str) -> (r: Result<Derivation, SignatureError>)
    ensures
        match r {
            Ok(d) => d.wf() && d@ == derivation_of(name@) && (derivation_of(name@) matches DerivationView::SecondaryScan {
                text,
                ..
            } ==> compile_outcome(text) is Ok),
            Err(e) => derivation_of(name@) matches DerivationView::SecondaryScan { text, .. }
                && compile_outcome(text) == Err::<Seq<pelite::pattern::Atom>, _>(e),
        },
{
    let owned = name.to_owned();
    if owned == CSGO_INPUT.to_owned() {
        Derivation::secondary_scan(VIEW_ANGLES, VIEW_ANGLES_SIGNATURE)
    } else if owned == PREDICTION.to_owned() {
        Ok(
            Derivation::FixedDelta {
                name: LOCAL_PLAYER_PAWN.to_owned(),
                delta: LOCAL_PLAYER_PAWN_DELTA,
            },
        )
    } else if owned == LOCAL_PLAYER.to_owned() {
        Ok(
            Derivation::ScaledIndex {
                name: LOCAL_PLAYER.to_owned(),
                element_size: LOCAL_PLAYER_ELEMENT_SIZE,
            },
        )
    } else {
        Ok(Derivation::Absent)
    }
}

/// Builds the catalog of a module from its rows, in order.
pub fn module_from_rows(name: &str, rows: &[(&'static str, &'static str)]) -> (r: Result<
    ModuleCatalog,
    CatalogError,
>)
    ensures
        match r {
            Ok(m) => m.wf() && module_of(name@, rows@) == Ok::<_, CatalogError>(m@),
            Err(e) => module_of(name@, rows@) == Err::<ModuleView, _>(e),
        },
{
    let mut module = ModuleCatalog::new(name);
    let mut i: usize = 0;
    while i < rows.len()
        invariant
            i <= rows.len(),
            module.wf(),
            with_rows(
                ModuleView { module: name@, patterns: Seq::empty() },
                rows@,
                i as nat,
            ) == Ok::<_, CatalogError>(module@),
        decreases rows.len() - i,
    {
        let (pattern, text) = rows[i];
        let step = match derive_for(pattern) {
            Ok(derivation) => module.define_pattern(pattern, text, derivation),
            Err(e) => Err(CatalogError::Signature(e)),
        };
        if let Err(e) = step {
            proof {
                lemma_refusal_is_final(
                    ModuleView { module: name@, patterns: Seq::empty() },
                    rows@,
                    (i + 1) as nat,
                    rows@.len(),
                );
            }
            return Err(e);
        }
        i += 1;
    }
    Ok(module)
}

/// Once a row is refused, so is the whole module.
pub proof fn lemma_refusal_is_final(
    module: ModuleView,
    rows: Seq<(&'static str, &'static str)>,
    n: nat,
    m: nat,
)
    requires
        n <= m,
        with_rows(module, rows, n) is Err,
    ensures
        with_rows(module, rows, m) == with_rows(module, rows, n),
    decreases m,
{
    if n < m {
        lemma_refusal_is_final(module, rows, n, (m - 1) as nat);
    }
}

fn add_module(catalog: &mut Catalog, name: &str, rows: &[(&'static str, &'static str)]) -> (r: Result<
    (),
    CatalogError,
>)
    requires
        old(catalog).wf(),
    ensures
        final(catalog).wf(),
        match r {
            Ok(()) => with_module(Ok(old(catalog)@), name@, rows@) == Ok::<_, CatalogError>(
                final(catalog)@,
            ),
            Err(e) => with_module(Ok(old(catalog)@), name@, rows@) == Err::<Seq<ModuleView>, _>(e),
        },
{
    match module_from_rows(name, rows) {
        Ok(module) => catalog.add(module),
        Err(e) => Err(e),
    }
}

impl Catalog {
    /// The built-in catalog. It is built once, at the start; a refusal
    /// means that a pattern was written wrongly.
    pub fn builtin() -> (r: Result<Catalog, CatalogError>)
        ensures
            match r {
                Ok(catalog) => catalog.wf() && builtin_modules() == Ok::<_, CatalogError>(catalog@),
                Err(e) => builtin_modules() == Err::<Seq<ModuleView>, _>(e),
            },
    {
        let mut catalog = Catalog::new();
        if let Err(e) = add_module(&mut catalog, CLIENT_DLL, CLIENT.as_slice()) {
            return Err(e);
        }
        if let Err(e) = add_module(&mut catalog, ENGINE2_DLL, ENGINE2.as_slice()) {
            return Err(e);
        }
        if let Err(e) = add_module(&mut catalog, INPUTSYSTEM_DLL, INPUTSYSTEM.as_slice()) {
            return Err(e);
        }
        if let Err(e) = add_module(&mut catalog, MATCHMAKING_DLL, MATCHMAKING.as_slice()) {
            return Err(e);
        }
        if let Err(e) = add_module(&mut catalog, SOUNDSYSTEM_DLL, SOUNDSYSTEM.as_slice()) {
            return Err(e);
        }
        Ok(catalog)
    }
}

} // verus!
