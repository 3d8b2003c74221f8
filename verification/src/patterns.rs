//! The signature texts of a resolution, written as constants of C#, C++
//! and Rust.

use crate::formatter::{Formatter, FormatterView};
use crate::identifier::{lowercase, sanitize_identifier, sanitized};
use crate::table::{nested_wf, NameMap, Table};
use vstd::prelude::*;
use vstd::string::StringExecFns;

verus! {

/// A language that constants are written in.
#[derive(Debug, Clone, Copy, PartialEq, Eq, Structural)]
pub enum Language {
    CSharp,
    Cpp,
    Rust,
}

/// The identifier of a module: as a constant of Rust would be written, in
/// lower case, where Rust names a module; as it is elsewhere.
pub open spec fn module_identifier(language: Language, module: Seq<char>) -> Seq<char> {
    match language {
        Language::Rust => lowercase(sanitized(module, true)),
        _ => sanitized(module, false),
    }
}

/// The heading of the block of a module.
pub open spec fn module_heading(language: Language, module: Seq<char>) -> Seq<char> {
    match language {
        Language::CSharp => "public static class "@ + module_identifier(language, module),
        Language::Cpp => "namespace "@ + module_identifier(language, module),
        Language::Rust => "pub mod "@ + module_identifier(language, module),
    }
}

/// The line that declares the constant of a pattern: its identifier, and
/// its signature text in a string that the language takes as it stands.
pub open spec fn constant_line(language: Language, name: Seq<char>, text: Seq<char>) -> Seq<char> {
    match language {
        Language::CSharp => "public const string "@ + sanitized(name, false) + " = @\""@ + text
            + "\";"@,
        Language::Cpp => "constexpr const char* "@ + sanitized(name, false) + " = R\"-("@ + text
            + ")-\";"@,
        Language::Rust => "pub const "@ + sanitized(name, true) + ": &str = r#\""@ + text
            + "\"#;"@,
    }
}

/// The formatter after the constants of the first `n` patterns, by the
/// order of the keys.
pub open spec fn constants(
    fmt: FormatterView,
    language: Language,
    patterns: Table<Seq<char>>,
    n: nat,
) -> FormatterView
    decreases n,
{
    if n == 0 {
        fmt
    } else {
        constants(fmt, language, patterns, (n - 1) as nat).line(
            constant_line(language, patterns.keys[n - 1], patterns.values[n - 1]),
        )
    }
}

/// The formatter after the block of a module: heading, constants, closing
/// brace.
pub open spec fn module_block(
    fmt: FormatterView,
    language: Language,
    module: Seq<char>,
    patterns: Table<Seq<char>>,
) -> FormatterView {
    constants(
        fmt.open_block(module_heading(language, module)),
        language,
        patterns,
        patterns.len(),
    ).close_block(false)
}

/// Whether an empty line follows the block of the module at `i` of `count`:
/// C# has one behind every module, the others between two modules.
pub open spec fn separated(language: Language, i: int, count: int) -> bool {
    language == Language::CSharp || i + 1 < count
}

/// The formatter after the blocks of the first `n` modules, by the order
/// of the keys.
pub open spec fn module_blocks(
    fmt: FormatterView,
    language: Language,
    modules: Table<Table<Seq<char>>>,
    n: nat,
) -> FormatterView
    decreases n,
{
    if n == 0 {
        fmt
    } else {
        let block = module_block(
            module_blocks(fmt, language, modules, (n - 1) as nat),
            language,
            modules.keys[n - 1],
            modules.values[n - 1],
        );
        if separated(language, n - 1, modules.len() as int) {
            block.empty_line()
        } else {
            block
        }
    }
}

/// The formatter after the C# file: the namespace, then one class that
/// holds a class for each module.
pub open spec fn cs_document(fmt: FormatterView, modules: Table<Table<Seq<char>>>) -> FormatterView {
    module_blocks(
        fmt.line("namespace CS2Dumper.Patterns;"@).empty_line().open_block(
            "public static class GlobalPatterns"@,
        ),
        Language::CSharp,
        modules,
        modules.len(),
    ).close_block(false)
}

/// The formatter after the C++ header: the include guard, then one
/// namespace that holds a namespace for each module.
pub open spec fn hpp_document(fmt: FormatterView, modules: Table<Table<Seq<char>>>) -> FormatterView {
    module_blocks(
        fmt.line("#pragma once"@).empty_line().open_block("namespace CS2Dumper::Patterns"@),
        Language::Cpp,
        modules,
        modules.len(),
    ).close_block(false)
}

/// The formatter after the Rust file: one module that holds a module for
/// each module of the resolution.
pub open spec fn rs_document(fmt: FormatterView, modules: Table<Table<Seq<char>>>) -> FormatterView {
    module_blocks(
        fmt.open_block("pub mod cs2_dumper_patterns"@),
        Language::Rust,
        modules,
        modules.len(),
    ).close_block(false)
}

/// The identifier of a module in a language.
pub fn module_name(language: Language, module: &str) -> (r: String)
    ensures
        r@ == module_identifier(language, module@),
{
    match language {
        Language::Rust => sanitize_identifier(module, true).as_str().to_lowercase(),
        _ => sanitize_identifier(module, false),
    }
}

/// The heading of the block of a module in a language.
pub fn heading_of(language: Language, module: &str) -> (r: String)
    ensures
        r@ == module_heading(language, module@),
{
    let keyword = match language {
        Language::CSharp => "public static class ",
        Language::Cpp => "namespace ",
        Language::Rust => "pub mod ",
    };
    keyword.to_owned().concat(module_name(language, module).as_str())
}

/// The line that declares the constant of a pattern in a language.
pub fn constant_of(language: Language, name: &str, text: &str) -> (r: String)
    ensures
        r@ == constant_line(language, name@, text@),
{
    let (opening, identifier, middle, closing) = match language {
        Language::CSharp => (
            "public const string ",
            sanitize_identifier(name, false),
            " = @\"",
            "\";",
        ),
        Language::Cpp => (
            "constexpr const char* ",
            sanitize_identifier(name, false),
            " = R\"-(",
            ")-\";",
        ),
        Language::Rust => ("pub const ", sanitize_identifier(name, true), ": &str = r#\"", "\"#;"),
    };
    let mut line = opening.to_owned();
    line.append(identifier.as_str());
    line.append(middle);
    line.append(text);
    line.append(closing);
    line
}

/// Writes the constants of the patterns of one module, in ascending order
/// of their names, which is the order of the keys of a well-formed table.
pub fn write_constants(patterns: &NameMap<String>, fmt: &mut Formatter, language: Language)
    requires
        patterns.wf(),
    ensures
        final(fmt)@ == constants(old(fmt)@, language, patterns@, patterns@.len()),
        final(fmt)@.indent_level == old(fmt)@.indent_level,
        final(fmt)@.indent_size == old(fmt)@.indent_size,
{
    let mut i: usize = 0;
    while i < patterns.len()
        invariant
            patterns.wf(),
            i <= patterns@.len(),
            fmt@ == constants(old(fmt)@, language, patterns@, i as nat),
            fmt@.indent_level == old(fmt)@.indent_level,
            fmt@.indent_size == old(fmt)@.indent_size,
        decreases patterns@.len() - i,
    {
        let line = constant_of(
            language,
            patterns.key_at(i).as_str(),
            patterns.value_at(i).as_str(),
        );
        fmt.line(line.as_str());
        i += 1;
    }
}

/// Writes the block of each module, in ascending order of the names of the
/// modules, with the empty lines that the language has between them.
pub fn write_modules(modules: &NameMap<NameMap<String>>, fmt: &mut Formatter, language: Language)
    requires
        nested_wf(modules@),
        old(fmt)@.indent_level < usize::MAX,
    ensures
        final(fmt)@ == module_blocks(old(fmt)@, language, modules@, modules@.len()),
        final(fmt)@.indent_level == old(fmt)@.indent_level,
        final(fmt)@.indent_size == old(fmt)@.indent_size,
{
    let count = modules.len();
    let mut i: usize = 0;
    while i < count
        invariant
            nested_wf(modules@),
            count == modules@.len(),
            i <= count,
            fmt@ == module_blocks(old(fmt)@, language, modules@, i as nat),
            fmt@.indent_level == old(fmt)@.indent_level,
            fmt@.indent_size == old(fmt)@.indent_size,
            old(fmt)@.indent_level < usize::MAX,
        decreases count - i,
    {
        let heading = heading_of(language, modules.key_at(i).as_str());
        fmt.open_block(heading.as_str());
        write_constants(modules.value_at(i), fmt, language);
        fmt.close_block(false);
        let after_every = match language {
            Language::CSharp => true,
            _ => false,
        };
        if after_every || i + 1 < count {
            fmt.empty_line();
        }
        i += 1;
    }
}

impl NameMap<NameMap<String>> {
    /// Writes the signature texts as string constants of C#.
    pub fn write_cs(&self, fmt: &mut Formatter)
        requires
            nested_wf(self@),
            old(fmt)@.indent_level + 1 < usize::MAX,
        ensures
            final(fmt)@ == cs_document(old(fmt)@, self@),
            final(fmt)@.indent_level == old(fmt)@.indent_level,
            final(fmt)@.indent_size == old(fmt)@.indent_size,
    {
        fmt.line("namespace CS2Dumper.Patterns;");
        fmt.empty_line();
        fmt.open_block("public static class GlobalPatterns");
        write_modules(self, fmt, Language::CSharp);
        fmt.close_block(false);
    }

    /// Writes the signature texts as string constants of a C++ header.
    pub fn write_hpp(&self, fmt: &mut Formatter)
        requires
            nested_wf(self@),
            old(fmt)@.indent_level + 1 < usize::MAX,
        ensures
            final(fmt)@ == hpp_document(old(fmt)@, self@),
            final(fmt)@.indent_level == old(fmt)@.indent_level,
            final(fmt)@.indent_size == old(fmt)@.indent_size,
    {
        fmt.line("#pragma once");
        fmt.empty_line();
        fmt.open_block("namespace CS2Dumper::Patterns");
        write_modules(self, fmt, Language::Cpp);
        fmt.close_block(false);
    }

    /// Writes the signature texts as string constants of Rust.
    pub fn write_rs(&self, fmt: &mut Formatter)
        requires
            nested_wf(self@),
            old(fmt)@.indent_level + 1 < usize::MAX,
        ensures
            final(fmt)@ == rs_document(old(fmt)@, self@),
            final(fmt)@.indent_level == old(fmt)@.indent_level,
            final(fmt)@.indent_size == old(fmt)@.indent_size,
    {
        fmt.open_block("pub mod cs2_dumper_patterns");
        write_modules(self, fmt, Language::Rust);
        fmt.close_block(false);
    }
}

} // verus!
