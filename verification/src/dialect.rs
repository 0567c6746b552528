//! The dialect: what the lines of a program mean.
//!
//! A program is shader source with directives. A line is a directive when its
//! first token begins with `#`; every other line is copied to the expanded
//! source as it stands. The directives are:
//!
//! | directive | effect |
//! |---|---|
//! | `#include "name"` | expands the library text `name` in place |
//! | `#include <name>` | expands the library text `std/name` in place |
//! | `#uniform name` | declares the next custom uniform of the uniform block |
//! | `#storage name bytes type` | declares a storage buffer in the next slot |
//! | `#texture name width height` | declares a storage texture in the next slot |
//! | `#dispatch name x y z [binding ...]` | declares the next pass with a literal dispatch size |
//! | `#dispatch name screen tx ty [binding ...]` | declares the next pass, one workgroup per tile of the screen |
//!
//! Numbers are literals as [`crate::utils::parse_u32`] reads them. The uniform
//! block always takes slot 0 and is declared before the expanded program; the
//! storage bindings take the slots from 1 in the order in which they are first
//! seen. [`expand`] gives the meaning of a whole program; it is what
//! [`crate::pp::preprocess`] computes.
use vstd::prelude::*;
use crate::bind::{binding_names, BindingKind, BindingSpec};
use crate::frame::block_bytes;
use crate::pp::ErrorKind;
use crate::render::{pass_names, DispatchSize, PassSpec};
use crate::utils::{decimal, lines, literal_error_message, literal_value, position, tokens};

verus! {

/// The mathematical content of a [`crate::pp::WGSLError`].
pub struct LocatedError {
    pub kind: ErrorKind,
    pub summary: Seq<char>,
    pub line: nat,
}

impl LocatedError {
    /// The error as one line of text: the line number, then the message.
    pub open spec fn text(self) -> Seq<char> {
        "line "@ + decimal(self.line) + ": "@ + self.summary
    }
}

/// The most custom uniforms that one program may declare.
pub const MAX_CUSTOM_UNIFORMS: usize = 32;

/// The number of slots of a bind group: every slot is below it.
pub const MAX_BINDINGS: usize = 1000;

/// The mathematical content of an [`crate::pp::IncludeFile`].
pub struct IncludeSpec {
    pub name: Seq<char>,
    pub text: Seq<char>,
}

/// The names of a library of includes, in order.
pub open spec fn library_names(library: Seq<IncludeSpec>) -> Seq<Seq<char>> {
    Seq::new(library.len(), |i: int| library[i].name)
}

/// What the preprocessor has gathered after some lines of a program.
pub struct Expansion {
    /// The shader source written so far, every line ended by a line feed.
    pub text: Seq<char>,
    /// For each line of `text`, the 1-based line of the program it came from.
    pub map: Seq<nat>,
    /// The names of the custom uniforms, in the order of their declaration.
    pub uniforms: Seq<Seq<char>>,
    /// The storage bindings, in the order of their declaration; the binding at
    /// index `i` has slot `i + 1`.
    pub storage: Seq<BindingSpec>,
    /// The passes, in the order of their declaration.
    pub passes: Seq<PassSpec>,
    /// The names of the library texts that were included, in the order in
    /// which their directives were reached.
    pub included: Seq<Seq<char>>,
}

impl Expansion {
    /// Nothing gathered yet.
    pub open spec fn empty() -> Expansion {
        Expansion {
            text: Seq::empty(),
            map: Seq::empty(),
            uniforms: Seq::empty(),
            storage: Seq::empty(),
            passes: Seq::empty(),
            included: Seq::empty(),
        }
    }

    /// One more library text that is included.
    pub open spec fn with_included(self, name: Seq<char>) -> Expansion {
        Expansion { included: self.included.push(name), ..self }
    }

    /// One more line of shader source that comes from line `n`.
    pub open spec fn emit(self, line: Seq<char>, n: nat) -> Expansion {
        Expansion { text: (self.text + line).push('\n'), map: self.map.push(n), ..self }
    }

    /// One more custom uniform.
    pub open spec fn with_uniform(self, name: Seq<char>) -> Expansion {
        Expansion { uniforms: self.uniforms.push(name), ..self }
    }

    /// One more storage binding, declared at line `n`.
    pub open spec fn with_binding(self, name: Seq<char>, kind: BindingKind, n: nat) -> Expansion {
        Expansion { storage: self.storage.push(BindingSpec { name, kind, line: n }), ..self }
    }

    /// One more pass.
    pub open spec fn with_pass(self, pass: PassSpec) -> Expansion {
        Expansion { passes: self.passes.push(pass), ..self }
    }
}

/// The failure of a compile attempt at line `n`.
pub open spec fn fail(kind: ErrorKind, summary: Seq<char>, n: nat) -> Result<
    Expansion,
    LocatedError,
> {
    Err(LocatedError { kind, summary, line: n })
}

/// Whether `c` may stand in a name: an ASCII letter, a digit or `_`.
pub open spec fn is_word_char(c: char) -> bool {
    ('a' <= c <= 'z') || ('A' <= c <= 'Z') || ('0' <= c <= '9') || c == '_'
}

/// Whether `s` is a name: word characters, the first of them no digit.
pub open spec fn is_identifier(s: Seq<char>) -> bool {
    &&& s.len() > 0
    &&& !('0' <= s[0] <= '9')
    &&& forall|i: int| 0 <= i < s.len() ==> is_word_char(#[trigger] s[i])
}

/// The name of the library text that the argument of an include directive
/// asks for: `"name"` asks for `name`, and `<name>` for `std/name`.
pub open spec fn include_target(t: Seq<char>) -> Option<Seq<char>> {
    if t.len() >= 3 && t[0] == '"' && t.last() == '"' {
        Some(t.subrange(1, t.len() - 1))
    } else if t.len() >= 3 && t[0] == '<' && t.last() == '>' {
        Some("std/"@ + t.subrange(1, t.len() - 1))
    } else {
        None
    }
}

/// The declaration that a storage directive writes into the shader source.
pub open spec fn storage_line(slot: nat, name: Seq<char>, ty: Seq<char>) -> Seq<char> {
    "@group(0) @binding("@ + decimal(slot) + ") var<storage,read_write> "@ + name + ": "@ + ty
        + ";"@
}

/// The declaration that a texture directive writes into the shader source.
pub open spec fn texture_line(slot: nat, name: Seq<char>) -> Seq<char> {
    "@group(0) @binding("@ + decimal(slot) + ") var "@ + name
        + ": texture_storage_2d<rgba32float,write>;"@
}

/// `#uniform NAME` declares a custom uniform.
pub open spec fn declare_uniform(st: Expansion, t: Seq<Seq<char>>, n: nat) -> Result<
    Expansion,
    LocatedError,
> {
    if t.len() != 2 || !is_identifier(t[1]) {
        fail(ErrorKind::Syntax, "Malformed uniform declaration"@, n)
    } else if position(st.uniforms, t[1]) is Some {
        fail(ErrorKind::Syntax, "Duplicate uniform"@, n)
    } else if st.uniforms.len() >= MAX_CUSTOM_UNIFORMS {
        fail(ErrorKind::ResourceLimit, "Too many custom uniforms"@, n)
    } else {
        Ok(st.with_uniform(t[1]))
    }
}

/// `#storage NAME BYTES TYPE` declares a storage buffer in the next slot.
pub open spec fn declare_storage(st: Expansion, t: Seq<Seq<char>>, n: nat) -> Result<
    Expansion,
    LocatedError,
> {
    if t.len() != 4 || !is_identifier(t[1]) {
        fail(ErrorKind::Syntax, "Malformed storage declaration"@, n)
    } else if literal_value(t[2]) is None {
        fail(ErrorKind::Syntax, literal_error_message(t[2]), n)
    } else if t[1] == "frame"@ || position(binding_names(st.storage), t[1]) is Some {
        fail(ErrorKind::Syntax, "Duplicate binding"@, n)
    } else if st.storage.len() + 1 >= MAX_BINDINGS {
        fail(ErrorKind::ResourceLimit, "Too many bindings"@, n)
    } else {
        let kind = BindingKind::StorageBuffer { bytes: literal_value(t[2])->0 };
        Ok(st.with_binding(t[1], kind, n).emit(storage_line(st.storage.len() + 1, t[1], t[3]), n))
    }
}

/// `#texture NAME WIDTH HEIGHT` declares a storage texture in the next slot.
pub open spec fn declare_texture(st: Expansion, t: Seq<Seq<char>>, n: nat) -> Result<
    Expansion,
    LocatedError,
> {
    if t.len() != 4 || !is_identifier(t[1]) {
        fail(ErrorKind::Syntax, "Malformed texture declaration"@, n)
    } else if literal_value(t[2]) is None {
        fail(ErrorKind::Syntax, literal_error_message(t[2]), n)
    } else if literal_value(t[3]) is None {
        fail(ErrorKind::Syntax, literal_error_message(t[3]), n)
    } else if t[1] == "frame"@ || position(binding_names(st.storage), t[1]) is Some {
        fail(ErrorKind::Syntax, "Duplicate binding"@, n)
    } else if st.storage.len() + 1 >= MAX_BINDINGS {
        fail(ErrorKind::ResourceLimit, "Too many bindings"@, n)
    } else {
        let kind = BindingKind::StorageTexture {
            width: literal_value(t[2])->0,
            height: literal_value(t[3])->0,
        };
        Ok(st.with_binding(t[1], kind, n).emit(texture_line(st.storage.len() + 1, t[1]), n))
    }
}

/// The dispatch size that three tokens of a dispatch directive denote, or the
/// message of the first fault in them: `screen TX TY` sizes the dispatch by
/// tiles of the screen, three literals give it as it is.
pub open spec fn dispatch_size(a: Seq<char>, b: Seq<char>, c: Seq<char>) -> Result<
    DispatchSize,
    Seq<char>,
> {
    if a == "screen"@ {
        if literal_value(b) is None {
            Err(literal_error_message(b))
        } else if literal_value(c) is None {
            Err(literal_error_message(c))
        } else if literal_value(b)->0 == 0 || literal_value(c)->0 == 0 {
            Err("Tile size must not be zero"@)
        } else {
            Ok(DispatchSize::Screen { tile_x: literal_value(b)->0, tile_y: literal_value(c)->0 })
        }
    } else if literal_value(a) is None {
        Err(literal_error_message(a))
    } else if literal_value(b) is None {
        Err(literal_error_message(b))
    } else if literal_value(c) is None {
        Err(literal_error_message(c))
    } else {
        Ok(
            DispatchSize::Fixed {
                x: literal_value(a)->0,
                y: literal_value(b)->0,
                z: literal_value(c)->0,
            },
        )
    }
}

/// The slots of the storage bindings with the given names, or the first name
/// that no storage binding has.
pub open spec fn slots_of(storage: Seq<BindingSpec>, names: Seq<Seq<char>>) -> Result<
    Seq<u32>,
    Seq<char>,
>
    decreases names.len(),
{
    if names.len() == 0 {
        Ok(Seq::empty())
    } else {
        match slots_of(storage, names.drop_last()) {
            Err(missing) => Err(missing),
            Ok(slots) => match position(binding_names(storage), names.last()) {
                None => Err(names.last()),
                Some(k) => Ok(slots.push((k + 1) as u32)),
            },
        }
    }
}

/// `#dispatch NAME X Y Z [BINDING ...]` and `#dispatch NAME screen TX TY
/// [BINDING ...]` declare the next pass and the bindings it uses.
pub open spec fn declare_pass(st: Expansion, t: Seq<Seq<char>>, n: nat) -> Result<
    Expansion,
    LocatedError,
> {
    if t.len() < 5 || !is_identifier(t[1]) {
        fail(ErrorKind::Syntax, "Malformed dispatch directive"@, n)
    } else if position(pass_names(st.passes), t[1]) is Some {
        fail(ErrorKind::Syntax, "Duplicate pass"@, n)
    } else {
        match dispatch_size(t[2], t[3], t[4]) {
            Err(message) => fail(ErrorKind::Syntax, message, n),
            Ok(dispatch) => match slots_of(st.storage, t.skip(5)) {
                Err(missing) => fail(ErrorKind::Syntax, "Unknown binding "@ + missing, n),
                Ok(uses) => Ok(st.with_pass(PassSpec { name: t[1], dispatch, uses, line: n })),
            },
        }
    }
}

/// Whether the tokens of a line begin a directive.
pub open spec fn is_directive(t: Seq<Seq<char>>) -> bool {
    t.len() > 0 && t[0].len() > 0 && t[0][0] == '#'
}

/// What one line of a program, or of an included text, adds. `n` is the line
/// of the program that the line stands on or was included from, and `depth`
/// is how many includes may still nest below it.
pub open spec fn after_line(
    st: Expansion,
    library: Seq<IncludeSpec>,
    line: Seq<char>,
    n: nat,
    depth: nat,
) -> Result<Expansion, LocatedError>
    decreases depth, 0nat,
{
    let t = tokens(line);
    if !is_directive(t) {
        Ok(st.emit(line, n))
    } else if t[0] == "#include"@ {
        if t.len() != 2 || include_target(t[1]) is None {
            fail(ErrorKind::Syntax, "Malformed include directive"@, n)
        } else {
            match position(library_names(library), include_target(t[1])->0) {
                None => fail(ErrorKind::Syntax, "Cannot find include "@ + t[1], n),
                Some(k) => if depth == 0 {
                    fail(ErrorKind::Syntax, "Includes nest too deeply"@, n)
                } else {
                    after_lines(
                        st.with_included(include_target(t[1])->0),
                        library,
                        lines(library[k as int].text),
                        n,
                        false,
                        (depth - 1) as nat,
                    )
                },
            }
        }
    } else if t[0] == "#uniform"@ {
        declare_uniform(st, t, n)
    } else if t[0] == "#storage"@ {
        declare_storage(st, t, n)
    } else if t[0] == "#texture"@ {
        declare_texture(st, t, n)
    } else if t[0] == "#dispatch"@ {
        declare_pass(st, t, n)
    } else {
        fail(ErrorKind::Syntax, "Unrecognised preprocessor directive"@, n)
    }
}

/// What a run of lines adds, up to the first line that fails. The first line
/// has number `n`; the numbers count up where `advance` holds, as for the
/// lines of a program, and stay at `n` for the lines of an included text.
pub open spec fn after_lines(
    st: Expansion,
    library: Seq<IncludeSpec>,
    ls: Seq<Seq<char>>,
    n: nat,
    advance: bool,
    depth: nat,
) -> Result<Expansion, LocatedError>
    decreases depth, ls.len() + 1,
{
    if ls.len() == 0 {
        Ok(st)
    } else {
        match after_line(st, library, ls[0], n, depth) {
            Err(e) => Err(e),
            Ok(next) => after_lines(
                next,
                library,
                ls.drop_first(),
                if advance {
                    n + 1
                } else {
                    n
                },
                advance,
                depth,
            ),
        }
    }
}

/// Once a prefix of the names fails to resolve, the first missing name of the
/// prefix is the first missing name of the whole.
pub proof fn lemma_slots_prefix(storage: Seq<BindingSpec>, names: Seq<Seq<char>>, k: int)
    requires
        0 <= k <= names.len(),
        slots_of(storage, names.take(k)) is Err,
    ensures
        slots_of(storage, names) == slots_of(storage, names.take(k)),
    decreases names.len() - k,
{
    if k == names.len() {
        assert(names.take(k) =~= names);
    } else {
        assert(names.take(k + 1).drop_last() =~= names.take(k));
        lemma_slots_prefix(storage, names, k + 1);
    }
}

/// The lines that declare the custom uniforms as fields of the uniform block,
/// as 32-bit floats or, in reduced precision, as 16-bit floats.
pub open spec fn uniform_fields(uniforms: Seq<Seq<char>>, full: bool) -> Seq<char>
    decreases uniforms.len(),
{
    if uniforms.len() == 0 {
        Seq::empty()
    } else {
        uniform_fields(uniforms.drop_last(), full) + "    "@ + uniforms.last() + if full {
            ": f32,\n"@
        } else {
            ": f16,\n"@
        }
    }
}

/// The declaration of the uniform block in slot 0, which stands before the
/// shader source of every program: the time, the pointer, then the custom
/// uniforms in the order of their declaration.
pub open spec fn prelude(uniforms: Seq<Seq<char>>, full: bool) -> Seq<char> {
    (if full {
        Seq::empty()
    } else {
        "enable f16;\n"@
    })
        + "struct FrameUniforms {\n    time: f32,\n    mouse_x: f32,\n    mouse_y: f32,\n    click: u32,\n"@
        + uniform_fields(uniforms, full)
        + "}\n@group(0) @binding(0) var<uniform> frame: FrameUniforms;\n"@
}

/// The number of lines of [`prelude`].
pub open spec fn prelude_lines(customs: nat, full: bool) -> nat {
    if full {
        customs + 7
    } else {
        customs + 8
    }
}

/// The mathematical content of an [`crate::pp::ExpandedSource`].
pub struct ProgramSpec {
    pub source: Seq<char>,
    pub map: Seq<nat>,
    pub uniforms: Seq<Seq<char>>,
    pub bindings: Seq<BindingSpec>,
    pub passes: Seq<PassSpec>,
    pub included: Seq<Seq<char>>,
    pub full_precision: bool,
}

/// The uniform block of a program with the given number of custom uniforms.
pub open spec fn frame_binding(customs: nat, full: bool) -> BindingSpec {
    BindingSpec {
        name: "frame"@,
        kind: BindingKind::UniformBlock { bytes: block_bytes(customs, full) as u32 },
        line: 0,
    }
}

/// The program that the gathered declarations make: the uniform block takes
/// slot 0 and stands first in the source, the storage bindings follow in the
/// order of their declaration.
pub open spec fn assemble(st: Expansion, full: bool) -> ProgramSpec {
    ProgramSpec {
        source: prelude(st.uniforms, full) + st.text,
        map: Seq::new(prelude_lines(st.uniforms.len(), full), |i: int| 0nat) + st.map,
        uniforms: st.uniforms,
        bindings: seq![frame_binding(st.uniforms.len(), full)] + st.storage,
        passes: st.passes,
        included: st.included,
        full_precision: full,
    }
}

/// The expansion of a program against a library of includes: its lines are
/// handled in order, numbered from 1, and the first line that fails gives the
/// error. An include may nest as deep as the library has texts; one that
/// nests deeper includes itself and is rejected.
pub open spec fn expand(source: Seq<char>, library: Seq<IncludeSpec>, full: bool) -> Result<
    ProgramSpec,
    LocatedError,
> {
    match after_lines(Expansion::empty(), library, lines(source), 1, true, library.len()) {
        Err(e) => Err(e),
        Ok(st) => Ok(assemble(st, full)),
    }
}

/// The library text that a line asks for, if the line is an include directive
/// with one well-formed argument.
pub open spec fn request_of(line: Seq<char>) -> Option<Seq<char>> {
    let t = tokens(line);
    if is_directive(t) && t[0] == "#include"@ && t.len() == 2 {
        include_target(t[1])
    } else {
        None
    }
}

/// The library texts that a run of lines asks for, in the order of the lines.
pub open spec fn requests(ls: Seq<Seq<char>>) -> Seq<Seq<char>>
    decreases ls.len(),
{
    if ls.len() == 0 {
        Seq::empty()
    } else {
        match request_of(ls.last()) {
            Some(name) => requests(ls.drop_last()).push(name),
            None => requests(ls.drop_last()),
        }
    }
}

} // verus!
