use cs2_dumper::catalog::{
    Catalog, CatalogError, Derivation, ModuleCatalog, PatternDefinition,
};
use cs2_dumper::image::{ImageError, ModuleImage};
use cs2_dumper::orchestrator::{
    offsets, resolve_inputs, ModuleFetch, ModuleInput, Resolution, ResolveError,
};
use cs2_dumper::resolver::resolve_module;
use cs2_dumper::signature::{lint, Signature, SignatureError};

const CODE_START: usize = 0x200;

fn put_u16(image: &mut Vec<u8>, at: usize, value: u16) {
    image[at..at + 2].copy_from_slice(&value.to_le_bytes());
}

fn put_u32(image: &mut Vec<u8>, at: usize, value: u32) {
    image[at..at + 4].copy_from_slice(&value.to_le_bytes());
}

/// A 64-bit image as it lies in memory: headers, then `code` at `CODE_START`.
fn image_with_code_range(code: &[u8], base_of_code: u32, size_of_code: u32) -> Vec<u8> {
    let mut image = vec![0u8; CODE_START + code.len()];
    put_u16(&mut image, 0x00, 0x5a4d);
    put_u32(&mut image, 0x3c, 0x40);
    put_u32(&mut image, 0x40, 0x0000_4550);
    put_u16(&mut image, 0x44, 0x8664);
    put_u16(&mut image, 0x46, 0);
    put_u16(&mut image, 0x54, 112);
    put_u16(&mut image, 0x58, 0x020b);
    put_u32(&mut image, 0x5c, size_of_code);
    put_u32(&mut image, 0x6c, base_of_code);
    put_u32(&mut image, 0x58 + 56, (CODE_START + code.len()) as u32);
    put_u32(&mut image, 0x58 + 60, CODE_START as u32);
    put_u32(&mut image, 0x58 + 108, 0);
    image[CODE_START..].copy_from_slice(code);
    image
}

fn image_with_code(code: &[u8]) -> Vec<u8> {
    image_with_code_range(code, CODE_START as u32, code.len() as u32)
}

/// `len` bytes of filler, with `bytes` at `at`.
fn code_with(len: usize, at: usize, bytes: &[u8]) -> Vec<u8> {
    let mut code = vec![0x90u8; len];
    code[at..at + bytes.len()].copy_from_slice(bytes);
    code
}

fn name(s: &str) -> String {
    s.to_string()
}

fn module_of(module: &str, patterns: &[(&str, &str)]) -> ModuleCatalog {
    let mut catalog = ModuleCatalog::new(module);
    for (pattern, text) in patterns {
        catalog.define_pattern(pattern, text, Derivation::Absent).unwrap();
    }
    catalog
}

#[test]
fn compiling_twice_gives_the_same_signature() {
    let text = "488905${'} 0f57c0 0f1105";
    let first = Signature::compile(text).unwrap();
    let second = Signature::compile(text).unwrap();
    assert_eq!(first.as_str(), second.as_str());
    assert_eq!(first.slot_len(), second.slot_len());

    let code = code_with(0x80, 0x10, &[0x48, 0x89, 0x05, 0x20, 0, 0, 0, 0x0f, 0x57, 0xc0, 0x0f, 0x11, 0x05]);
    let bytes = image_with_code(&code);
    let image = ModuleImage::decode(&bytes).unwrap();
    assert_eq!(image.scan(&first), image.scan(&second));
}

#[test]
fn slot_count_follows_the_capture_markers() {
    assert_eq!(Signature::compile("48 ' 89").unwrap().slot_len(), 2);
    assert_eq!(Signature::compile("48 ' 89 ' 05").unwrap().slot_len(), 3);
    assert_eq!(Signature::compile("8b81u4 c3").unwrap().slot_len(), 2);
}

#[test]
fn scan_captures_the_marked_position() {
    let code = code_with(0x40, 0x10, &[0x48, 0x89, 0x05, 0x0f, 0x57, 0xc0]);
    let bytes = image_with_code(&code);
    let image = ModuleImage::decode(&bytes).unwrap();
    let signature = Signature::compile("488905 ' 0f57c0").unwrap();
    let slots = image.scan(&signature).unwrap();
    let x = (CODE_START + 0x10) as u32;
    assert_eq!(slots, vec![x, x + 3]);
}

#[test]
fn scan_skips_wildcards_and_gaps() {
    let code = code_with(0x40, 0x08, &[0x48, 0xaa, 0xbb, 0x89, 1, 2, 3, 4, 0x05, 0xcc]);
    let bytes = image_with_code(&code);
    let image = ModuleImage::decode(&bytes).unwrap();
    let signature = Signature::compile("48 ?? 89 [4] 05 ' cc").unwrap();
    let slots = image.scan(&signature).unwrap();
    let x = (CODE_START + 0x08) as u32;
    assert_eq!(slots, vec![x, x + 9]);
}

#[test]
fn scan_follows_a_relative_displacement() {
    let code = code_with(0x80, 0x10, &[0x48, 0x89, 0x05, 0x20, 0, 0, 0, 0x0f, 0x57, 0xc0]);
    let bytes = image_with_code(&code);
    let image = ModuleImage::decode(&bytes).unwrap();
    let signature = Signature::compile("488905${'} 0f57c0").unwrap();
    let slots = image.scan(&signature).unwrap();
    let x = (CODE_START + 0x10) as u32;
    assert_eq!(slots, vec![x, x + 3 + 4 + 0x20]);
}

#[test]
fn scan_captures_an_operand() {
    let code = code_with(0x40, 0x04, &[0x8b, 0x81, 0x78, 0x56, 0x34, 0x12, 0xc3]);
    let bytes = image_with_code(&code);
    let image = ModuleImage::decode(&bytes).unwrap();
    let signature = Signature::compile("8b81u4 c3").unwrap();
    let slots = image.scan(&signature).unwrap();
    assert_eq!(slots, vec![(CODE_START + 0x04) as u32, 0x1234_5678]);
}

#[test]
fn scan_takes_the_first_of_two_matches() {
    let mut code = code_with(0x80, 0x10, &[0x48, 0x89, 0x05, 0x0f]);
    code[0x40..0x44].copy_from_slice(&[0x48, 0x89, 0x05, 0x0f]);
    let bytes = image_with_code(&code);
    let image = ModuleImage::decode(&bytes).unwrap();
    let signature = Signature::compile("488905 ' 0f").unwrap();
    let slots = image.scan(&signature).unwrap();
    assert_eq!(slots[1], (CODE_START + 0x10 + 3) as u32);
}

#[test]
fn scan_reports_a_miss() {
    let code = code_with(0x40, 0x10, &[0x48, 0x89, 0x05]);
    let bytes = image_with_code(&code);
    let image = ModuleImage::decode(&bytes).unwrap();
    let signature = Signature::compile("488906 ' 0f").unwrap();
    assert_eq!(image.scan(&signature), None);
}

#[test]
fn scan_stays_inside_the_code_range() {
    let code = code_with(0x40, 0x30, &[0x48, 0x89, 0x05, 0x0f]);
    let bytes = image_with_code_range(&code, CODE_START as u32, 0x20);
    let image = ModuleImage::decode(&bytes).unwrap();
    let signature = Signature::compile("488905 ' 0f").unwrap();
    assert_eq!(image.scan(&signature), None);
}

#[test]
fn lint_accepts_what_signatures_are_written_with() {
    assert_eq!(lint("488905${'} 0f57c0 [8] ?? u4 i1 % AF"), Ok(()));
    assert_eq!(lint(""), Ok(()));
}

#[test]
fn unsupported_character_is_refused_with_its_position() {
    assert_eq!(lint("48 zz"), Err(SignatureError::UnsupportedCharacter { position: 3 }));
    assert_eq!(
        Signature::compile("48 ' 89 @4").err(),
        Some(SignatureError::UnsupportedCharacter { position: 8 })
    );
    assert_eq!(
        Signature::compile("48 (89|8b) '").err(),
        Some(SignatureError::UnsupportedCharacter { position: 3 })
    );
}

#[test]
fn too_many_braces_are_refused() {
    let deep = "${".repeat(256);
    assert_eq!(lint(&deep), Err(SignatureError::TooManyBraces));
    assert_eq!(Signature::compile(&deep).err(), Some(SignatureError::TooManyBraces));
    let shallow = "${}".repeat(255) + "'";
    assert!(Signature::compile(&shallow).is_ok());
}

#[test]
fn malformed_signature_is_refused() {
    assert_eq!(Signature::compile("123").err(), Some(SignatureError::Malformed));
    assert_eq!(Signature::compile("48 { ' }").err(), Some(SignatureError::Malformed));
    assert_eq!(Signature::compile("48 $ { '").err(), Some(SignatureError::Malformed));
    assert_eq!(Signature::compile("48 [ ' ]").err(), Some(SignatureError::Malformed));
}

#[test]
fn signature_without_capture_is_refused() {
    assert_eq!(Signature::compile("48 89 05").err(), Some(SignatureError::NoCapture));
    assert_eq!(Signature::compile("").err(), Some(SignatureError::NoCapture));
}

#[test]
fn undecodable_bytes_are_refused() {
    assert_eq!(ModuleImage::decode(&[]).err(), Some(ImageError::Headers));
    let garbage = vec![0x41u8; 0x400];
    assert_eq!(ModuleImage::decode(&garbage).err(), Some(ImageError::Headers));
}

#[test]
fn code_range_outside_the_image_is_refused() {
    let code = vec![0x90u8; 0x40];
    let beyond = image_with_code_range(&code, 0x1000, 0x40);
    assert_eq!(ModuleImage::decode(&beyond).err(), Some(ImageError::CodeRange));
    let wrapped = image_with_code_range(&code, 0x200, 0xffff_ff00);
    assert_eq!(ModuleImage::decode(&wrapped).err(), Some(ImageError::CodeRange));
}

#[test]
fn scaled_index_of_ten_by_eight() {
    assert_eq!(cs2_dumper::catalog::scaled_index(0x0a, 8), Some(0xf0));
    assert_eq!(cs2_dumper::catalog::scaled_index(0, 8), Some(0));
    assert_eq!(cs2_dumper::catalog::scaled_index(0x0a, 0), Some(0));
    assert_eq!(cs2_dumper::catalog::scaled_index(0x5555_5555, 1), Some(0xffff_ffff));
    assert_eq!(cs2_dumper::catalog::scaled_index(0x5555_5556, 1), None);
    assert_eq!(cs2_dumper::catalog::scaled_index(0xffff_ffff, 0), Some(0));
    assert_eq!(cs2_dumper::catalog::scaled_index(0x1000_0000, 8), None);
}

#[test]
fn scaled_index_replaces_the_captured_index() {
    let code = code_with(0x40, 0x10, &[0x48, 0x83, 0xc0, 0x0a, 0x48, 0x8d, 0x04, 0x40, 0x8b, 0x0c, 0xc1]);
    let bytes = image_with_code(&code);
    let image = ModuleImage::decode(&bytes).unwrap();
    let mut catalog = ModuleCatalog::new("engine2.dll");
    catalog
        .define_pattern(
            "dwNetworkGameClient_localPlayer",
            "4883c0u1 488d0440 8b0cc1",
            Derivation::ScaledIndex { name: name("dwNetworkGameClient_localPlayer"), element_size: 8 },
        )
        .unwrap();
    let report = resolve_module(&image, &catalog);
    assert_eq!(report.offsets.len(), 1);
    assert_eq!(report.offsets.get(&name("dwNetworkGameClient_localPlayer")), Some(&0xf0));
}

#[test]
fn fixed_delta_adds_a_named_entry() {
    let code = code_with(0x80, 0x10, &[0x48, 0x8d, 0x05, 0x20, 0, 0, 0, 0xc3]);
    let bytes = image_with_code(&code);
    let image = ModuleImage::decode(&bytes).unwrap();
    let mut catalog = ModuleCatalog::new("client.dll");
    catalog
        .define_pattern(
            "dwPrediction",
            "488d05${'} c3",
            Derivation::FixedDelta { name: name("dwLocalPlayerPawn"), delta: 0x180 },
        )
        .unwrap();
    let report = resolve_module(&image, &catalog);
    let base = (CODE_START + 0x10 + 7 + 0x20) as u32;
    assert_eq!(report.offsets.len(), 2);
    assert_eq!(report.offsets.get(&name("dwPrediction")), Some(&base));
    assert_eq!(report.offsets.get(&name("dwLocalPlayerPawn")), Some(&(base + 0x180)));
}

#[test]
fn derived_offset_that_does_not_fit_is_left_out() {
    let code = code_with(0x40, 0x10, &[0x8b, 0x81, 0xff, 0xff, 0xff, 0xff, 0xc3]);
    let bytes = image_with_code(&code);
    let image = ModuleImage::decode(&bytes).unwrap();
    let mut catalog = ModuleCatalog::new("client.dll");
    catalog
        .define_pattern(
            "dwField",
            "8b81u4 c3",
            Derivation::FixedDelta { name: name("dwBeyond"), delta: 1 },
        )
        .unwrap();
    let report = resolve_module(&image, &catalog);
    assert_eq!(report.offsets.len(), 1);
    assert_eq!(report.offsets.get(&name("dwField")), Some(&0xffff_ffff));
    assert_eq!(report.offsets.get(&name("dwBeyond")), None);
}

#[test]
fn secondary_scan_adds_its_capture_to_the_base() {
    let mut code = code_with(0x100, 0x10, &[0x48, 0x89, 0x05, 0x30, 0, 0, 0, 0x0f, 0x57, 0xc0]);
    code[0x80..0x8a].copy_from_slice(&[0xf2, 0x41, 0x0f, 0x10, 0x84, 0x30, 0x40, 0x1f, 0, 0]);
    let bytes = image_with_code(&code);
    let image = ModuleImage::decode(&bytes).unwrap();
    let mut catalog = ModuleCatalog::new("client.dll");
    catalog
        .define_pattern(
            "dwCSGOInput",
            "488905${'} 0f57c0",
            Derivation::secondary_scan("dwViewAngles", "f2410f108430u4").unwrap(),
        )
        .unwrap();
    let report = resolve_module(&image, &catalog);
    let base = (CODE_START + 0x10 + 7 + 0x30) as u32;
    assert_eq!(report.offsets.get(&name("dwCSGOInput")), Some(&base));
    assert_eq!(report.offsets.get(&name("dwViewAngles")), Some(&(base + 0x1f40)));
    assert!(report.stale.is_empty());
}

#[test]
fn failed_secondary_scan_keeps_the_base_offset() {
    let code = code_with(0x100, 0x10, &[0x48, 0x89, 0x05, 0x30, 0, 0, 0, 0x0f, 0x57, 0xc0]);
    let bytes = image_with_code(&code);
    let image = ModuleImage::decode(&bytes).unwrap();
    let mut catalog = ModuleCatalog::new("client.dll");
    catalog
        .define_pattern(
            "dwCSGOInput",
            "488905${'} 0f57c0",
            Derivation::secondary_scan("dwViewAngles", "f2410f108430u4").unwrap(),
        )
        .unwrap();
    let report = resolve_module(&image, &catalog);
    let base = (CODE_START + 0x10 + 7 + 0x30) as u32;
    assert_eq!(report.offsets.len(), 1);
    assert_eq!(report.offsets.get(&name("dwCSGOInput")), Some(&base));
    assert!(report.stale.is_empty());
}

#[test]
fn a_miss_costs_only_its_own_entry() {
    let mut code = code_with(0x80, 0x10, &[0x48, 0x89, 0x05, 0x0f]);
    code[0x40..0x44].copy_from_slice(&[0x8b, 0x05, 0x89, 0x07]);
    let bytes = image_with_code(&code);
    let image = ModuleImage::decode(&bytes).unwrap();
    let catalog = module_of(
        "client.dll",
        &[("dwFirst", "488905 ' 0f"), ("dwGone", "deadbeef '"), ("dwLast", "8b05 ' 8907")],
    );
    let report = resolve_module(&image, &catalog);
    assert_eq!(report.offsets.len(), 2);
    assert_eq!(report.offsets.get(&name("dwFirst")), Some(&((CODE_START + 0x13) as u32)));
    assert_eq!(report.offsets.get(&name("dwGone")), None);
    assert_eq!(report.offsets.get(&name("dwLast")), Some(&((CODE_START + 0x42) as u32)));
    assert_eq!(report.stale, vec![name("dwGone")]);
    assert_eq!(report.signatures.len(), 3);
    assert_eq!(report.signatures.get(&name("dwGone")), Some(&name("deadbeef '")));
    assert_eq!(report.signatures.key_at(0), "dwFirst");
    assert_eq!(report.signatures.key_at(2), "dwLast");
}

#[test]
fn duplicate_names_are_refused() {
    let mut catalog = ModuleCatalog::new("client.dll");
    catalog.define_pattern("dwFoo", "48 ' 89", Derivation::Absent).unwrap();
    assert_eq!(
        catalog.define_pattern("dwFoo", "49 ' 89", Derivation::Absent),
        Err(CatalogError::DuplicateName)
    );
    assert_eq!(
        catalog.define_pattern(
            "dwBar",
            "49 ' 89",
            Derivation::FixedDelta { name: name("dwFoo"), delta: 8 }
        ),
        Err(CatalogError::DuplicateName)
    );
    catalog
        .define_pattern("dwBar", "49 ' 89", Derivation::FixedDelta { name: name("dwBaz"), delta: 8 })
        .unwrap();
    assert_eq!(
        catalog.define_pattern("dwBaz", "4a ' 89", Derivation::Absent),
        Err(CatalogError::DuplicateName)
    );
    assert_eq!(
        catalog.define_pattern(
            "dwQux",
            "4a ' 89",
            Derivation::ScaledIndex { name: name("dwBaz"), element_size: 8 }
        ),
        Err(CatalogError::DuplicateName)
    );
    assert_eq!(catalog.len(), 2);
    catalog
        .define_pattern(
            "dwSelf",
            "4b ' 89",
            Derivation::ScaledIndex { name: name("dwSelf"), element_size: 8 },
        )
        .unwrap();
    assert_eq!(catalog.len(), 3);
}

#[test]
fn refused_signature_is_a_catalog_error() {
    let mut catalog = ModuleCatalog::new("client.dll");
    assert_eq!(
        catalog.define_pattern("dwFoo", "48 89", Derivation::Absent),
        Err(CatalogError::Signature(SignatureError::NoCapture))
    );
    assert_eq!(
        PatternDefinition::new("dwFoo", "4", Derivation::Absent).err(),
        Some(SignatureError::Malformed)
    );
    assert_eq!(catalog.len(), 0);
}

#[test]
fn duplicate_modules_are_refused() {
    let mut catalog = Catalog::new();
    catalog.add(module_of("client.dll", &[("dwFoo", "48 ' 89")])).unwrap();
    assert_eq!(
        catalog.add(module_of("client.dll", &[("dwBar", "49 ' 89")])),
        Err(CatalogError::DuplicateModule)
    );
    catalog.add(module_of("engine2.dll", &[("dwFoo", "48 ' 89")])).unwrap();
    assert_eq!(catalog.len(), 2);
}

#[test]
fn builtin_catalog_has_every_module_and_pattern() {
    let catalog = Catalog::builtin().unwrap();
    let expected = [
        ("client.dll", 15),
        ("engine2.dll", 11),
        ("inputsystem.dll", 1),
        ("matchmaking.dll", 2),
        ("soundsystem.dll", 2),
    ];
    assert_eq!(catalog.len(), expected.len());
    for (i, (module, patterns)) in expected.iter().enumerate() {
        assert_eq!(catalog.module(i).module(), module);
        assert_eq!(catalog.module(i).len(), *patterns);
    }
    let client = catalog.module(0);
    assert_eq!(client.pattern(0).name(), "dwCSGOInput");
    assert_eq!(client.pattern(0).signature().as_str(), "488905${'} 0f57c0 0f1105");
    assert!(matches!(client.pattern(0).derivation(), Derivation::SecondaryScan { .. }));
    assert!(matches!(client.pattern(1).derivation(), Derivation::Absent));
    match client.pattern(9).derivation() {
        Derivation::FixedDelta { name, delta } => {
            assert_eq!(name, "dwLocalPlayerPawn");
            assert_eq!(*delta, 0x180);
        }
        _ => panic!("dwPrediction derives the local player pawn"),
    }
    match catalog.module(1).pattern(5).derivation() {
        Derivation::ScaledIndex { name, element_size } => {
            assert_eq!(name, "dwNetworkGameClient_localPlayer");
            assert_eq!(*element_size, 8);
        }
        _ => panic!("the local player index is scaled"),
    }
}

#[test]
fn same_pattern_name_in_two_modules_stays_apart() {
    let mut catalog = Catalog::new();
    catalog.add(module_of("a.dll", &[("dwFoo", "488905 ' 0f")])).unwrap();
    catalog.add(module_of("b.dll", &[("dwFoo", "8b05 ' 8907")])).unwrap();
    let a = image_with_code(&code_with(0x40, 0x10, &[0x48, 0x89, 0x05, 0x0f]));
    let b = image_with_code(&code_with(0x40, 0x20, &[0x8b, 0x05, 0x89, 0x07]));
    let fetched = vec![ModuleFetch::Loaded(a), ModuleFetch::Loaded(b)];
    let resolution = offsets(&catalog, &fetched).unwrap();
    let in_a = resolution.offsets.get(&name("a.dll")).unwrap();
    let in_b = resolution.offsets.get(&name("b.dll")).unwrap();
    assert_eq!(in_a.get(&name("dwFoo")), Some(&((CODE_START + 0x13) as u32)));
    assert_eq!(in_b.get(&name("dwFoo")), Some(&((CODE_START + 0x22) as u32)));
    let text_a = resolution.signatures.get(&name("a.dll")).unwrap();
    let text_b = resolution.signatures.get(&name("b.dll")).unwrap();
    assert_eq!(text_a.get(&name("dwFoo")), Some(&name("488905 ' 0f")));
    assert_eq!(text_b.get(&name("dwFoo")), Some(&name("8b05 ' 8907")));
}

#[test]
fn missing_module_fails_the_whole_resolution() {
    let mut catalog = Catalog::new();
    catalog.add(module_of("client.dll", &[("dwFoo", "488905 ' 0f")])).unwrap();
    catalog.add(module_of("engine2.dll", &[("dwBar", "8b05 ' 8907")])).unwrap();
    catalog.add(module_of("inputsystem.dll", &[("dwBaz", "8b05 ' 8903")])).unwrap();
    let client = image_with_code(&code_with(0x40, 0x10, &[0x48, 0x89, 0x05, 0x0f]));
    let input = image_with_code(&code_with(0x40, 0x10, &[0x8b, 0x05, 0x89, 0x03]));
    let fetched =
        vec![ModuleFetch::Loaded(client), ModuleFetch::NotFound, ModuleFetch::Loaded(input)];
    assert_eq!(
        offsets(&catalog, &fetched).err(),
        Some(ResolveError::ModuleNotFound { module: name("engine2.dll") })
    );
}

#[test]
fn module_without_a_fetch_counts_as_not_found() {
    let mut catalog = Catalog::new();
    catalog.add(module_of("client.dll", &[("dwFoo", "488905 ' 0f")])).unwrap();
    catalog.add(module_of("engine2.dll", &[("dwBar", "8b05 ' 8907")])).unwrap();
    let client = image_with_code(&code_with(0x40, 0x10, &[0x48, 0x89, 0x05, 0x0f]));
    assert_eq!(
        offsets(&catalog, &vec![ModuleFetch::Loaded(client)]).err(),
        Some(ResolveError::ModuleNotFound { module: name("engine2.dll") })
    );
    assert_eq!(
        offsets(&catalog, &Vec::new()).err(),
        Some(ResolveError::ModuleNotFound { module: name("client.dll") })
    );
}

#[test]
fn failed_read_fails_the_whole_resolution() {
    let mut catalog = Catalog::new();
    catalog.add(module_of("client.dll", &[("dwFoo", "488905 ' 0f")])).unwrap();
    catalog.add(module_of("engine2.dll", &[("dwBar", "8b05 ' 8907")])).unwrap();
    let fetched = vec![ModuleFetch::ReadFailed, ModuleFetch::NotFound];
    assert_eq!(
        offsets(&catalog, &fetched).err(),
        Some(ResolveError::MemoryReadFailure { module: name("client.dll") })
    );
}

#[test]
fn undecodable_image_fails_the_whole_resolution() {
    let mut catalog = Catalog::new();
    catalog.add(module_of("client.dll", &[("dwFoo", "488905 ' 0f")])).unwrap();
    let fetched = vec![ModuleFetch::Loaded(vec![0u8; 0x400])];
    assert_eq!(
        offsets(&catalog, &fetched).err(),
        Some(ResolveError::ImageParseFailure {
            module: name("client.dll"),
            reason: ImageError::Headers
        })
    );
}

#[test]
fn first_failure_in_module_order_is_reported() {
    let mut catalog = Catalog::new();
    catalog.add(module_of("client.dll", &[("dwFoo", "488905 ' 0f")])).unwrap();
    catalog.add(module_of("engine2.dll", &[("dwBar", "8b05 ' 8907")])).unwrap();
    let inputs = vec![ModuleInput::Undecodable(ImageError::CodeRange), ModuleInput::NotFound];
    assert_eq!(
        resolve_inputs(&catalog, &inputs).err(),
        Some(ResolveError::ImageParseFailure {
            module: name("client.dll"),
            reason: ImageError::CodeRange
        })
    );
}

#[test]
fn absorb_leaves_the_resolution_alone_on_failure() {
    let mut resolution = Resolution::new();
    let module = module_of("client.dll", &[("dwFoo", "488905 ' 0f")]);
    assert_eq!(
        resolution.absorb(&module, &ModuleInput::ReadFailed),
        Err(ResolveError::MemoryReadFailure { module: name("client.dll") })
    );
    assert_eq!(resolution.offsets.len(), 0);
    assert_eq!(resolution.signatures.len(), 0);
    assert!(resolution.stale.is_empty());
}

#[test]
fn two_modules_end_to_end() {
    let mut catalog = Catalog::new();
    catalog.add(module_of("a.dll", &[("dwOne", "488905 ' 0f")])).unwrap();
    catalog
        .add(module_of("b.dll", &[("dwTwo", "8b05 ' 8907"), ("dwStale", "deadbeef '")]))
        .unwrap();
    let a = image_with_code(&code_with(0x40, 0x10, &[0x48, 0x89, 0x05, 0x0f]));
    let b = image_with_code(&code_with(0x40, 0x20, &[0x8b, 0x05, 0x89, 0x07]));
    let fetched = vec![ModuleFetch::Loaded(a), ModuleFetch::Loaded(b)];
    let resolution = offsets(&catalog, &fetched).unwrap();

    assert_eq!(resolution.offsets.len(), 2);
    let offsets_a = resolution.offsets.get(&name("a.dll")).unwrap();
    let offsets_b = resolution.offsets.get(&name("b.dll")).unwrap();
    assert_eq!(offsets_a.len(), 1);
    assert_eq!(offsets_b.len(), 1);
    assert_eq!(offsets_a.len() + offsets_b.len(), 2);

    let texts_a = resolution.signatures.get(&name("a.dll")).unwrap();
    let texts_b = resolution.signatures.get(&name("b.dll")).unwrap();
    assert_eq!(texts_a.len(), 1);
    assert_eq!(texts_b.len(), 2);
    assert_eq!(texts_a.len() + texts_b.len(), 3);

    assert_eq!(resolution.stale.len(), 1);
    assert_eq!(resolution.stale[0].module, "b.dll");
    assert_eq!(resolution.stale[0].pattern, "dwStale");

    let (offset_map, pattern_map) = resolution.into_maps();
    assert_eq!(offset_map.key_at(0), "a.dll");
    assert_eq!(offset_map.key_at(1), "b.dll");
    assert_eq!(pattern_map.len(), 2);
}

#[test]
fn image_of_the_decoders_answer() {
    let code = code_with(0x40, 0x10, &[0x48, 0x89, 0x05, 0x0f]);

    let good = image_with_code(&code);
    let image = ModuleImage::of_decoded(&good, pelite::pe64::PeView::from_bytes(&good)).unwrap();
    let signature = Signature::compile("488905 ' 0f").unwrap();
    assert_eq!(image.scan(&signature), Some(vec![0x210, 0x213]));

    let beyond = image_with_code_range(&code, 0x1000, 0x40);
    assert_eq!(
        ModuleImage::of_decoded(&beyond, pelite::pe64::PeView::from_bytes(&beyond)).err(),
        Some(ImageError::CodeRange)
    );

    assert_eq!(
        ModuleImage::of_decoded(&good, Err(pelite::Error::BadMagic)).err(),
        Some(ImageError::Headers)
    );
    let garbage = vec![0x41u8; 0x400];
    assert_eq!(
        ModuleImage::of_decoded(&garbage, pelite::pe64::PeView::from_bytes(&garbage)).err(),
        Some(ImageError::Headers)
    );
}

#[test]
fn offsets_of_a_module_come_out_in_ascending_order() {
    let mut code = code_with(0x80, 0x10, &[0x48, 0x89, 0x05, 0x0f]);
    code[0x40..0x44].copy_from_slice(&[0x8b, 0x05, 0x89, 0x07]);
    let bytes = image_with_code(&code);
    let image = ModuleImage::decode(&bytes).unwrap();
    let catalog = module_of("client.dll", &[("dwZulu", "488905 ' 0f"), ("dwAlpha", "8b05 ' 8907")]);
    let report = resolve_module(&image, &catalog);
    assert_eq!(report.offsets.key_at(0), "dwAlpha");
    assert_eq!(report.offsets.key_at(1), "dwZulu");
    assert_eq!(report.signatures.key_at(0), "dwAlpha");
    assert_eq!(report.signatures.key_at(1), "dwZulu");
}
