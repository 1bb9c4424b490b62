//! Translates the declarations of a C header into the source text of a
//! foreign-function binding.

pub mod ast;
pub mod coder;
pub mod names;
pub mod options;
pub mod resolver;
pub mod result;
pub mod text;
pub mod translator;
pub mod utils;

use crate::ast::Entity;
use crate::coder::{indentation, render_nodes};
use crate::options::Options;
use crate::translator::{initial, translation, Translator};
use crate::utils::texts;
use vstd::prelude::*;
use vstd::string::StringExecFns;

verus! {

/// The first line of every generated file: the tool's name and version.
pub open spec fn banner(program: Seq<char>, version: Seq<char>) -> Seq<char> {
    "/* This file was generated using "@ + program + " v"@ + version
        + " tool and should not be modified manually. */"@
}

/// The generated file: the banner line, the rendered declarations, and one
/// more line feed.
pub open spec fn generated(
    options: Options,
    entities: Seq<Entity>,
    program: Seq<char>,
    version: Seq<char>,
) -> Seq<char> {
    banner(program, version) + "\n"@ + render_nodes(
        translation(initial(options), entities).units,
        indentation(0),
    ) + "\n"@
}

/// Translation is deterministic: the same declarations under the same
/// configuration, for the same tool name and version, give the same file.
pub proof fn lemma_translation_is_deterministic(
    options: Options,
    other_options: Options,
    entities: Seq<Entity>,
    other_entities: Seq<Entity>,
    program: Seq<char>,
    version: Seq<char>,
)
    requires
        initial(options) == initial(other_options),
        entities == other_entities,
    ensures
        generated(options, entities, program, version) == generated(
            other_options,
            other_entities,
            program,
            version,
        ),
{
}

/// The arguments for the parser of the header: the language, each system
/// include directory where they are asked for, and each extra include
/// directory.
pub open spec fn arguments(options: Options, system_paths: Seq<Seq<char>>) -> Seq<Seq<char>> {
    seq!["-xc"@] + (if options.detect_isystem {
        system_paths.map_values(|path: Seq<char>| "-isystem"@ + path)
    } else {
        Seq::empty()
    }) + texts(options.include_paths@).map_values(|path: Seq<char>| "-I"@ + path)
}

/// The arguments for the parser of the header.
pub fn parser_arguments(options: &Options, system_paths: &Vec<String>) -> (args: Vec<String>)
    ensures
        texts(args@) == arguments(*options, texts(system_paths@)),
{
    let mut args: Vec<String> = Vec::new();
    args.push(String::from_str("-xc"));
    let ghost head = seq!["-xc"@];
    assert(texts(args@) =~= head);
    let ghost system = if options.detect_isystem {
        texts(system_paths@).map_values(|path: Seq<char>| "-isystem"@ + path)
    } else {
        Seq::empty()
    };
    if options.detect_isystem {
        let mut i: usize = 0;
        while i < system_paths.len()
            invariant
                i <= system_paths.len(),
                options.detect_isystem,
                system == texts(system_paths@).map_values(|path: Seq<char>| "-isystem"@ + path),
                texts(args@) == head + system.take(i as int),
            decreases system_paths.len() - i,
        {
            let mut arg = String::from_str("-isystem");
            arg.append(system_paths[i].as_str());
            let ghost before = args@;
            args.push(arg);
            assert(texts(args@) =~= texts(before).push(arg@));
            assert(head + system.take(i + 1) =~= (head + system.take(i as int)).push(
                system[i as int],
            ));
            i += 1;
        }
        assert(system.take(system_paths.len() as int) == system);
    } else {
        assert(head + system =~= head);
    }
    let ghost extra = texts(options.include_paths@).map_values(|path: Seq<char>| "-I"@ + path);
    let mut i: usize = 0;
    assert(head + system + extra.take(0) =~= head + system);
    while i < options.include_paths.len()
        invariant
            i <= options.include_paths.len(),
            extra == texts(options.include_paths@).map_values(|path: Seq<char>| "-I"@ + path),
            texts(args@) == head + system + extra.take(i as int),
        decreases options.include_paths.len() - i,
    {
        let mut arg = String::from_str("-I");
        arg.append(options.include_paths[i].as_str());
        let ghost before = args@;
        args.push(arg);
        assert(texts(args@) =~= texts(before).push(arg@));
        assert(head + system + extra.take(i + 1) =~= (head + system + extra.take(i as int)).push(
            extra[i as int],
        ));
        i += 1;
    }
    assert(extra.take(options.include_paths.len() as int) == extra);
    args
}

/// Translates the declarations `entities` of a header under `options`, and
/// appends the generated file to `output`.
pub fn translate(
    options: Options,
    entities: &Vec<Entity>,
    program: &str,
    version: &str,
    output: &mut String,
)
    ensures
        final(output)@ == old(output)@ + generated(options, entities@, program@, version@),
{
    let mut translator = Translator::new(options);
    translator.translate(entities);
    let mut text = String::from_str("/* This file was generated using ");
    text.append(program);
    text.append(" v");
    text.append(version);
    text.append(" tool and should not be modified manually. */");
    text.append("\n");
    translator.coder().format(&mut text, 0);
    text.append("\n");
    output.append(text.as_str());
}

} // verus!
