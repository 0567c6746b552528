//! The dialect preprocessor and the located error it reports. What the
//! preprocessor computes is specified in [`crate::dialect`].
use vstd::prelude::*;
use crate::bind::{binding_names, bindings_view, BindingDeclaration, BindingKind, BindingSpec};
use crate::dialect::{
    after_line, after_lines, assemble, declare_pass, declare_storage, declare_texture,
    declare_uniform, dispatch_size, expand, include_target, is_identifier, is_word_char,
    lemma_slots_prefix, library_names, requests, slots_of, storage_line, texture_line,
    uniform_fields, prelude, Expansion, IncludeSpec, LocatedError, ProgramSpec, MAX_BINDINGS,
    MAX_CUSTOM_UNIFORMS,
};
use crate::render::{pass_names, passes_view, DispatchSize, PassDescriptor, PassSpec};
use crate::utils::{
    chars_of, find_named, is_word, lines, names_of, parse_numeral, push_all, push_decimal,
    push_str, split_lines, split_tokens, string_of, views, Named,
};

verus! {

/// The class of a compile-time failure.
#[derive(Clone, Copy, Debug, PartialEq, Eq, Structural)]
pub enum ErrorKind {
    /// A malformed directive or an unparseable numeric literal.
    Syntax,
    /// A binding that exceeds what the device can provide.
    ResourceLimit,
    /// Expanded source that the shader compiler rejected.
    Compile,
    /// Metadata that asks for a feature the runtime does not have.
    ConfigurationMismatch,
}

/// A failure of the current compile attempt, located by a 1-based source line.
#[derive(Debug)]
pub struct WGSLError {
    pub kind: ErrorKind,
    pub summary: String,
    pub line: usize,
}

impl WGSLError {
    /// A syntax error with the given message at the given line.
    pub fn new(summary: String, line: usize) -> (e: WGSLError)
        ensures
            e.kind == ErrorKind::Syntax,
            e.summary == summary,
            e.line == line,
    {
        WGSLError { kind: ErrorKind::Syntax, summary, line }
    }

    /// An error of the given class with the given message at the given line.
    pub fn with_kind(kind: ErrorKind, summary: String, line: usize) -> (e: WGSLError)
        ensures
            e.kind == kind,
            e.summary == summary,
            e.line == line,
    {
        WGSLError { kind, summary, line }
    }
}

impl View for WGSLError {
    type V = LocatedError;

    open spec fn view(&self) -> LocatedError {
        LocatedError { kind: self.kind, summary: self.summary@, line: self.line as nat }
    }
}

impl WGSLError {
    /// The error as one line of text, for display.
    pub fn to_text(&self) -> (text: String)
        ensures
            text@ == self@.text(),
    {
        let mut out: Vec<char> = Vec::new();
        push_str(&mut out, "line ");
        push_decimal(&mut out, self.line);
        push_str(&mut out, ": ");
        push_str(&mut out, self.summary.as_str());
        assert(out@ =~= self@.text());
        string_of(&out)
    }
}

/// A text that programs can include by name.
#[derive(Debug)]
pub struct IncludeFile {
    pub name: String,
    pub text: String,
}

impl View for IncludeFile {
    type V = IncludeSpec;

    open spec fn view(&self) -> IncludeSpec {
        IncludeSpec { name: self.name@, text: self.text@ }
    }
}

/// The contents of a library of includes.
pub open spec fn library_view(v: Seq<IncludeFile>) -> Seq<IncludeSpec> {
    Seq::new(v.len(), |i: int| v[i]@)
}

impl Named for IncludeFile {
    open spec fn name_view(&self) -> Seq<char> {
        self.name@
    }

    fn name_ref(&self) -> (s: &String) {
        &self.name
    }
}

/// The contents of a vector of strings.
pub open spec fn strings_view(v: Seq<String>) -> Seq<Seq<char>> {
    Seq::new(v.len(), |i: int| v[i]@)
}

/// The contents of a vector of line numbers.
pub open spec fn numbers_view(v: Seq<usize>) -> Seq<nat> {
    Seq::new(v.len(), |i: int| v[i] as nat)
}

/// The state of the preprocessor between two lines.
struct Scan {
    text: Vec<char>,
    map: Vec<usize>,
    uniforms: Vec<String>,
    storage: Vec<BindingDeclaration>,
    passes: Vec<PassDescriptor>,
    included: Vec<String>,
}

impl View for Scan {
    type V = Expansion;

    closed spec fn view(&self) -> Expansion {
        Expansion {
            text: self.text@,
            map: numbers_view(self.map@),
            uniforms: strings_view(self.uniforms@),
            storage: bindings_view(self.storage@),
            passes: passes_view(self.passes@),
            included: strings_view(self.included@),
        }
    }
}

/// Whether the result of a step and the state it left agree with what the
/// specification of the step gives.
pub open spec fn agrees(
    r: Result<(), WGSLError>,
    after: Expansion,
    expected: Result<Expansion, LocatedError>,
) -> bool {
    match r {
        Ok(_) => expected == Ok::<Expansion, LocatedError>(after),
        Err(e) => expected == Err::<Expansion, LocatedError>(e@),
    }
}

/// An error of the given class with a fixed message.
fn error_at(kind: ErrorKind, message: &str, n: usize) -> (e: WGSLError)
    ensures
        e@ == (LocatedError { kind, summary: message@, line: n as nat }),
{
    WGSLError::with_kind(kind, String::from_str(message), n)
}

/// An error of the given class whose message is a fixed text and a token.
fn error_about(kind: ErrorKind, message: &str, token: &Vec<char>, n: usize) -> (e: WGSLError)
    ensures
        e@ == (LocatedError { kind, summary: message@ + token@, line: n as nat }),
{
    let mut summary: Vec<char> = Vec::new();
    push_str(&mut summary, message);
    push_all(&mut summary, token);
    assert(summary@ =~= message@ + token@);
    WGSLError::with_kind(kind, string_of(&summary), n)
}

/// Computes [`is_word_char`].
fn word_char(c: char) -> (b: bool)
    ensures
        b == is_word_char(c),
{
    ('a' <= c && c <= 'z') || ('A' <= c && c <= 'Z') || ('0' <= c && c <= '9') || c == '_'
}

/// Computes [`is_identifier`].
pub fn identifier(s: &Vec<char>) -> (b: bool)
    ensures
        b == is_identifier(s@),
{
    if s.len() == 0 || ('0' <= s[0] && s[0] <= '9') {
        return false;
    }
    let mut i: usize = 0;
    while i < s.len()
        invariant
            i <= s.len(),
            forall|j: int| 0 <= j < i ==> is_word_char(#[trigger] s@[j]),
        decreases s.len() - i,
    {
        if !word_char(s[i]) {
            return false;
        }
        i += 1;
    }
    true
}

impl Scan {
    /// The declarations stay within the limits of a program.
    spec fn wf(&self) -> bool {
        self.uniforms.len() <= MAX_CUSTOM_UNIFORMS && self.storage.len() < MAX_BINDINGS
    }

    /// A state with nothing gathered.
    fn new() -> (st: Scan)
        ensures
            st@ == Expansion::empty(),
            st.wf(),
    {
        let st = Scan {
            text: Vec::new(),
            map: Vec::new(),
            uniforms: Vec::new(),
            storage: Vec::new(),
            passes: Vec::new(),
            included: Vec::new(),
        };
        assert(st@.included =~= Seq::empty());
        assert(st@.map =~= Seq::empty());
        assert(st@.uniforms =~= Seq::empty());
        assert(st@.storage =~= Seq::empty());
        assert(st@.passes =~= Seq::empty());
        st
    }

    /// Writes one line of shader source that comes from line `n`.
    fn emit(&mut self, line: &Vec<char>, n: usize)
        ensures
            final(self)@ == old(self)@.emit(line@, n as nat),
            final(self).wf() == old(self).wf(),
    {
        push_all(&mut self.text, line);
        self.text.push('\n');
        self.map.push(n);
        assert(self@.map =~= old(self)@.map.push(n as nat));
    }

    /// Handles `#uniform`.
    fn uniform(&mut self, t: &Vec<Vec<char>>, n: usize) -> (r: Result<(), WGSLError>)
        requires
            t.len() > 0,
            old(self).wf(),
        ensures
            agrees(r, final(self)@, declare_uniform(old(self)@, views(t@), n as nat)),
            final(self).wf(),
    {
        if t.len() != 2 || !identifier(&t[1]) {
            return Err(error_at(ErrorKind::Syntax, "Malformed uniform declaration", n));
        }
        let name = string_of(&t[1]);
        assert(names_of(self.uniforms@) =~= self@.uniforms);
        if find_named(&self.uniforms, &name).is_some() {
            return Err(error_at(ErrorKind::Syntax, "Duplicate uniform", n));
        }
        if self.uniforms.len() >= MAX_CUSTOM_UNIFORMS {
            return Err(error_at(ErrorKind::ResourceLimit, "Too many custom uniforms", n));
        }
        self.uniforms.push(name);
        assert(self@.uniforms =~= old(self)@.uniforms.push(t@[1]@));
        Ok(())
    }

    /// Declares a storage binding in the next slot and writes its line.
    fn bind(&mut self, name: &Vec<char>, kind: BindingKind, line: &Vec<char>, n: usize)
        requires
            old(self).uniforms.len() <= MAX_CUSTOM_UNIFORMS,
            old(self).storage.len() < MAX_BINDINGS - 1,
        ensures
            final(self)@ == old(self)@.with_binding(name@, kind, n as nat).emit(line@, n as nat),
            final(self).wf(),
    {
        self.storage.push(BindingDeclaration { name: string_of(name), kind, line: n });
        assert(self@.storage =~= old(self)@.storage.push(
            BindingSpec { name: name@, kind, line: n as nat },
        ));
        self.emit(line, n);
    }

    /// Handles `#storage`.
    fn storage(&mut self, t: &Vec<Vec<char>>, n: usize) -> (r: Result<(), WGSLError>)
        requires
            t.len() > 0,
            old(self).wf(),
        ensures
            agrees(r, final(self)@, declare_storage(old(self)@, views(t@), n as nat)),
            final(self).wf(),
    {
        if t.len() != 4 || !identifier(&t[1]) {
            return Err(error_at(ErrorKind::Syntax, "Malformed storage declaration", n));
        }
        let bytes = match parse_numeral(&t[2], n) {
            Ok(bytes) => bytes,
            Err(e) => {
                return Err(e);
            },
        };
        let name = string_of(&t[1]);
        assert(names_of(self.storage@) =~= binding_names(self@.storage));
        if is_word(&t[1], "frame") || find_named(&self.storage, &name).is_some() {
            return Err(error_at(ErrorKind::Syntax, "Duplicate binding", n));
        }
        if self.storage.len() >= MAX_BINDINGS - 1 {
            return Err(error_at(ErrorKind::ResourceLimit, "Too many bindings", n));
        }
        let mut line: Vec<char> = Vec::new();
        push_str(&mut line, "@group(0) @binding(");
        push_decimal(&mut line, self.storage.len() + 1);
        push_str(&mut line, ") var<storage,read_write> ");
        push_all(&mut line, &t[1]);
        push_str(&mut line, ": ");
        push_all(&mut line, &t[3]);
        push_str(&mut line, ";");
        assert(line@ =~= storage_line(old(self)@.storage.len() + 1, t@[1]@, t@[3]@));
        self.bind(&t[1], BindingKind::StorageBuffer { bytes }, &line, n);
        Ok(())
    }

    /// Handles `#texture`.
    fn texture(&mut self, t: &Vec<Vec<char>>, n: usize) -> (r: Result<(), WGSLError>)
        requires
            t.len() > 0,
            old(self).wf(),
        ensures
            agrees(r, final(self)@, declare_texture(old(self)@, views(t@), n as nat)),
            final(self).wf(),
    {
        if t.len() != 4 || !identifier(&t[1]) {
            return Err(error_at(ErrorKind::Syntax, "Malformed texture declaration", n));
        }
        let width = match parse_numeral(&t[2], n) {
            Ok(width) => width,
            Err(e) => {
                return Err(e);
            },
        };
        let height = match parse_numeral(&t[3], n) {
            Ok(height) => height,
            Err(e) => {
                return Err(e);
            },
        };
        let name = string_of(&t[1]);
        assert(names_of(self.storage@) =~= binding_names(self@.storage));
        if is_word(&t[1], "frame") || find_named(&self.storage, &name).is_some() {
            return Err(error_at(ErrorKind::Syntax, "Duplicate binding", n));
        }
        if self.storage.len() >= MAX_BINDINGS - 1 {
            return Err(error_at(ErrorKind::ResourceLimit, "Too many bindings", n));
        }
        let mut line: Vec<char> = Vec::new();
        push_str(&mut line, "@group(0) @binding(");
        push_decimal(&mut line, self.storage.len() + 1);
        push_str(&mut line, ") var ");
        push_all(&mut line, &t[1]);
        push_str(&mut line, ": texture_storage_2d<rgba32float,write>;");
        assert(line@ =~= texture_line(old(self)@.storage.len() + 1, t@[1]@));
        self.bind(&t[1], BindingKind::StorageTexture { width, height }, &line, n);
        Ok(())
    }

    /// Finds the slots of the bindings that `t[5..]` names.
    fn slots(&self, t: &Vec<Vec<char>>) -> (r: Result<Vec<u32>, usize>)
        requires
            t.len() >= 5,
            self.storage.len() < MAX_BINDINGS,
        ensures
            match r {
                Ok(slots) => slots_of(self@.storage, views(t@).skip(5)) == Ok::<
                    Seq<u32>,
                    Seq<char>,
                >(slots@),
                Err(at) => at < t.len() && slots_of(self@.storage, views(t@).skip(5)) == Err::<
                    Seq<u32>,
                    Seq<char>,
                >(t@[at as int]@),
            },
    {
        let ghost names = views(t@).skip(5);
        let mut slots: Vec<u32> = Vec::new();
        let mut i: usize = 5;
        assert(names.take(0) =~= Seq::<Seq<char>>::empty());
        while i < t.len()
            invariant
                5 <= i <= t.len(),
                names == views(t@).skip(5),
                self.storage.len() < MAX_BINDINGS,
                slots_of(self@.storage, names.take(i - 5)) == Ok::<Seq<u32>, Seq<char>>(slots@),
            decreases t.len() - i,
        {
            let ghost k = i - 5;
            assert(names.take(k + 1).drop_last() =~= names.take(k));
            assert(names.take(k + 1).last() == t@[i as int]@);
            let name = string_of(&t[i]);
            assert(names_of(self.storage@) =~= binding_names(self@.storage));
            match find_named(&self.storage, &name) {
                None => {
                    proof {
                        lemma_slots_prefix(self@.storage, names, k + 1);
                    }
                    return Err(i);
                },
                Some(at) => {
                    proof {
                        crate::utils::lemma_position(binding_names(self@.storage), name@);
                    }
                    slots.push((at + 1) as u32);
                },
            }
            i += 1;
        }
        assert(names.take(t.len() - 5) =~= names);
        Ok(slots)
    }

    /// Handles `#dispatch`.
    fn pass(&mut self, t: &Vec<Vec<char>>, n: usize) -> (r: Result<(), WGSLError>)
        requires
            t.len() > 0,
            old(self).wf(),
        ensures
            agrees(r, final(self)@, declare_pass(old(self)@, views(t@), n as nat)),
            final(self).wf(),
    {
        if t.len() < 5 || !identifier(&t[1]) {
            return Err(error_at(ErrorKind::Syntax, "Malformed dispatch directive", n));
        }
        let name = string_of(&t[1]);
        assert(names_of(self.passes@) =~= pass_names(self@.passes));
        if find_named(&self.passes, &name).is_some() {
            return Err(error_at(ErrorKind::Syntax, "Duplicate pass", n));
        }
        let dispatch = match dispatch_of(&t[2], &t[3], &t[4], n) {
            Ok(dispatch) => dispatch,
            Err(e) => {
                return Err(e);
            },
        };
        let uses = match self.slots(t) {
            Ok(uses) => uses,
            Err(at) => {
                return Err(error_about(ErrorKind::Syntax, "Unknown binding ", &t[at], n));
            },
        };
        let ghost pass = PassSpec { name: name@, dispatch, uses: uses@, line: n as nat };
        self.passes.push(PassDescriptor { name, dispatch, uses, line: n });
        assert(self@.passes =~= old(self)@.passes.push(pass));
        Ok(())
    }
}

/// Computes [`dispatch_size`]; a fault becomes a syntax error at line `n`.
fn dispatch_of(a: &Vec<char>, b: &Vec<char>, c: &Vec<char>, n: usize) -> (r: Result<
    DispatchSize,
    WGSLError,
>)
    ensures
        match r {
            Ok(size) => dispatch_size(a@, b@, c@) == Ok::<DispatchSize, Seq<char>>(size),
            Err(e) => dispatch_size(a@, b@, c@) is Err && e@ == (LocatedError {
                kind: ErrorKind::Syntax,
                summary: dispatch_size(a@, b@, c@)->Err_0,
                line: n as nat,
            }),
        },
{
    if is_word(a, "screen") {
        let tile_x = match parse_numeral(b, n) {
            Ok(v) => v,
            Err(e) => {
                return Err(e);
            },
        };
        let tile_y = match parse_numeral(c, n) {
            Ok(v) => v,
            Err(e) => {
                return Err(e);
            },
        };
        if tile_x == 0 || tile_y == 0 {
            return Err(error_at(ErrorKind::Syntax, "Tile size must not be zero", n));
        }
        Ok(DispatchSize::Screen { tile_x, tile_y })
    } else {
        let x = match parse_numeral(a, n) {
            Ok(v) => v,
            Err(e) => {
                return Err(e);
            },
        };
        let y = match parse_numeral(b, n) {
            Ok(v) => v,
            Err(e) => {
                return Err(e);
            },
        };
        let z = match parse_numeral(c, n) {
            Ok(v) => v,
            Err(e) => {
                return Err(e);
            },
        };
        Ok(DispatchSize::Fixed { x, y, z })
    }
}

/// Computes [`include_target`].
fn target_of(t: &Vec<char>) -> (r: Option<Vec<char>>)
    ensures
        match r {
            Some(name) => include_target(t@) == Some(name@),
            None => include_target(t@) is None,
        },
{
    let n = t.len();
    if n < 3 {
        return None;
    }
    let mut name: Vec<char> = Vec::new();
    if t[0] == '"' && t[n - 1] == '"' {
    } else if t[0] == '<' && t[n - 1] == '>' {
        push_str(&mut name, "std/");
    } else {
        return None;
    }
    let ghost prefix = name@;
    let mut i: usize = 1;
    assert(name@ =~= prefix + t@.subrange(1, 1));
    while i < n - 1
        invariant
            1 <= i <= n - 1,
            n == t.len(),
            name@ == prefix + t@.subrange(1, i as int),
        decreases n - i,
    {
        name.push(t[i]);
        i += 1;
        assert(name@ =~= prefix + t@.subrange(1, i as int));
    }
    assert(Seq::<char>::empty() + t@.subrange(1, n - 1) =~= t@.subrange(1, n - 1));
    Some(name)
}

/// Handles one line of a program or of an included text.
fn process_line(
    st: &mut Scan,
    library: &Vec<IncludeFile>,
    line: &Vec<char>,
    n: usize,
    depth: usize,
) -> (r: Result<(), WGSLError>)
    requires
        old(st).wf(),
    ensures
        agrees(
            r,
            final(st)@,
            after_line(old(st)@, library_view(library@), line@, n as nat, depth as nat),
        ),
        final(st).wf(),
    decreases depth, 0nat,
{
    let t = split_tokens(line);
    if !(t.len() > 0 && t[0].len() > 0 && t[0][0] == '#') {
        st.emit(line, n);
        return Ok(());
    }
    if is_word(&t[0], "#include") {
        if t.len() != 2 {
            return Err(error_at(ErrorKind::Syntax, "Malformed include directive", n));
        }
        let target = match target_of(&t[1]) {
            Some(target) => target,
            None => {
                return Err(error_at(ErrorKind::Syntax, "Malformed include directive", n));
            },
        };
        let name = string_of(&target);
        assert(names_of(library@) =~= library_names(library_view(library@)));
        match find_named(library, &name) {
            None => Err(error_about(ErrorKind::Syntax, "Cannot find include ", &t[1], n)),
            Some(k) => {
                if depth == 0 {
                    return Err(error_at(ErrorKind::Syntax, "Includes nest too deeply", n));
                }
                let text = chars_of(library[k].text.as_str());
                let ls = split_lines(&text);
                st.included.push(name);
                assert(st@.included =~= old(st)@.included.push(target@));
                process_lines(st, library, &ls, n, false, depth - 1)
            },
        }
    } else if is_word(&t[0], "#uniform") {
        st.uniform(&t, n)
    } else if is_word(&t[0], "#storage") {
        st.storage(&t, n)
    } else if is_word(&t[0], "#texture") {
        st.texture(&t, n)
    } else if is_word(&t[0], "#dispatch") {
        st.pass(&t, n)
    } else {
        Err(error_at(ErrorKind::Syntax, "Unrecognised preprocessor directive", n))
    }
}

/// Handles a run of lines and stops at the first that fails.
fn process_lines(
    st: &mut Scan,
    library: &Vec<IncludeFile>,
    ls: &Vec<Vec<char>>,
    first: usize,
    advance: bool,
    depth: usize,
) -> (r: Result<(), WGSLError>)
    requires
        old(st).wf(),
        advance ==> first + ls.len() <= usize::MAX + 1,
    ensures
        agrees(
            r,
            final(st)@,
            after_lines(
                old(st)@,
                library_view(library@),
                views(ls@),
                first as nat,
                advance,
                depth as nat,
            ),
        ),
        final(st).wf(),
    decreases depth, ls.len() + 1,
{
    let ghost all = views(ls@);
    let ghost lib = library_view(library@);
    let mut i: usize = 0;
    assert(all.skip(0) =~= all);
    while i < ls.len()
        invariant
            i <= ls.len(),
            st.wf(),
            all == views(ls@),
            lib == library_view(library@),
            advance ==> first + ls.len() <= usize::MAX + 1,
            after_lines(old(st)@, lib, all, first as nat, advance, depth as nat) == after_lines(
                st@,
                lib,
                all.skip(i as int),
                if advance {
                    (first + i) as nat
                } else {
                    first as nat
                },
                advance,
                depth as nat,
            ),
        decreases ls.len() - i,
    {
        let n = if advance {
            first + i
        } else {
            first
        };
        assert(all.skip(i as int).drop_first() =~= all.skip(i as int + 1));
        assert(all.skip(i as int)[0] == ls@[i as int]@);
        match process_line(st, library, &ls[i], n, depth) {
            Err(e) => {
                return Err(e);
            },
            Ok(_) => {},
        }
        i += 1;
    }
    Ok(())
}

/// The result of preprocessing a program.
#[derive(Debug)]
pub struct ExpandedSource {
    /// The shader source: the declaration of the uniform block, then the
    /// expanded program.
    pub source: String,
    /// For each line of `source`, the 1-based line of the program that it
    /// came from; 0 for the lines of the uniform block.
    pub map: Vec<usize>,
    /// The names of the custom uniforms, in the order of their declaration.
    pub uniforms: Vec<String>,
    /// The binding table; the slot of a binding is its index.
    pub bindings: Vec<BindingDeclaration>,
    /// The passes, in the order in which they run.
    pub passes: Vec<PassDescriptor>,
    /// The names of the library texts that were included, in the order in
    /// which their directives were reached.
    pub included: Vec<String>,
    /// Whether custom uniforms are stored as 32-bit floats.
    pub full_precision: bool,
}

impl View for ExpandedSource {
    type V = ProgramSpec;

    open spec fn view(&self) -> ProgramSpec {
        ProgramSpec {
            source: self.source@,
            map: numbers_view(self.map@),
            uniforms: strings_view(self.uniforms@),
            bindings: bindings_view(self.bindings@),
            passes: passes_view(self.passes@),
            included: strings_view(self.included@),
            full_precision: self.full_precision,
        }
    }
}

/// What a run of the preprocessor returned, as mathematical content.
pub open spec fn outcome(r: Result<ExpandedSource, WGSLError>) -> Result<
    ProgramSpec,
    LocatedError,
> {
    match r {
        Ok(program) => Ok(program@),
        Err(e) => Err(e@),
    }
}

/// Writes [`prelude`].
fn write_prelude(uniforms: &Vec<String>, full: bool) -> (out: Vec<char>)
    ensures
        out@ == prelude(strings_view(uniforms@), full),
{
    let ghost names = strings_view(uniforms@);
    let mut out: Vec<char> = Vec::new();
    if !full {
        push_str(&mut out, "enable f16;\n");
    }
    push_str(
        &mut out,
        "struct FrameUniforms {\n    time: f32,\n    mouse_x: f32,\n    mouse_y: f32,\n    click: u32,\n",
    );
    let ghost head = out@;
    let mut i: usize = 0;
    assert(names.take(0) =~= Seq::<Seq<char>>::empty());
    assert(out@ =~= head + uniform_fields(names.take(0), full));
    while i < uniforms.len()
        invariant
            i <= uniforms.len(),
            names == strings_view(uniforms@),
            out@ == head + uniform_fields(names.take(i as int), full),
        decreases uniforms.len() - i,
    {
        assert(names.take(i as int + 1).drop_last() =~= names.take(i as int));
        assert(names.take(i as int + 1).last() == uniforms@[i as int]@);
        push_str(&mut out, "    ");
        push_str(&mut out, uniforms[i].as_str());
        if full {
            push_str(&mut out, ": f32,\n");
        } else {
            push_str(&mut out, ": f16,\n");
        }
        i += 1;
        assert(out@ =~= head + uniform_fields(names.take(i as int), full));
    }
    assert(names.take(uniforms.len() as int) =~= names);
    push_str(&mut out, "}\n@group(0) @binding(0) var<uniform> frame: FrameUniforms;\n");
    assert(out@ =~= prelude(names, full));
    out
}

/// Expands a program written in the dialect into shader source and gathers
/// what it declares. `library` holds the texts that the program may include
/// and `full_precision` chooses the layout of the custom uniforms. The first
/// line that cannot be handled gives the error, with its 1-based number.
pub fn preprocess(source: &str, library: &Vec<IncludeFile>, full_precision: bool) -> (r: Result<
    ExpandedSource,
    WGSLError,
>)
    ensures
        outcome(r) == expand(source@, library_view(library@), full_precision),
{
    let text = chars_of(source);
    let ls = split_lines(&text);
    let mut st = Scan::new();
    match process_lines(&mut st, library, &ls, 1, true, library.len()) {
        Err(e) => {
            return Err(e);
        },
        Ok(_) => {},
    }
    let ghost gathered = st@;
    let customs = st.uniforms.len();
    let mut out = write_prelude(&st.uniforms, full_precision);
    push_all(&mut out, &st.text);
    let mut map: Vec<usize> = Vec::new();
    let rows: usize = if full_precision {
        customs + 7
    } else {
        customs + 8
    };
    let mut i: usize = 0;
    while i < rows
        invariant
            i <= rows,
            map.len() == i,
            forall|j: int| 0 <= j < i ==> map@[j] == 0,
        decreases rows - i,
    {
        map.push(0);
        i += 1;
    }
    let mut k: usize = 0;
    while k < st.map.len()
        invariant
            k <= st.map.len(),
            map.len() == rows + k,
            forall|j: int| 0 <= j < rows ==> map@[j] == 0,
            forall|j: int| 0 <= j < k ==> map@[rows + j] == st.map@[j],
        decreases st.map.len() - k,
    {
        map.push(st.map[k]);
        k += 1;
    }
    let bytes = crate::frame::uniform_block_bytes(customs, full_precision);
    let mut bindings: Vec<BindingDeclaration> = Vec::new();
    bindings.push(
        BindingDeclaration {
            name: String::from_str("frame"),
            kind: BindingKind::UniformBlock { bytes },
            line: 0,
        },
    );
    let Scan { text: _, map: _, uniforms, mut storage, passes, included } = st;
    bindings.append(&mut storage);
    let program = ExpandedSource {
        source: string_of(&out),
        map,
        uniforms,
        bindings,
        passes,
        included,
        full_precision,
    };
    proof {
        let want = assemble(gathered, full_precision);
        assert(program@.map =~= want.map);
        assert(program@.bindings =~= want.bindings);
        assert(program@.uniforms =~= want.uniforms);
        assert(program@.passes =~= want.passes);
        assert(program@.included =~= want.included);
        assert(program@.source =~= want.source);
    }
    Ok(program)
}

/// Lists the names of the library texts that the include directives of a text
/// ask for, in the order of the directives.
pub fn include_requests(text: &str) -> (names: Vec<String>)
    ensures
        strings_view(names@) == requests(lines(text@)),
{
    let chars = chars_of(text);
    let ls = split_lines(&chars);
    let ghost all = views(ls@);
    let mut names: Vec<String> = Vec::new();
    let mut i: usize = 0;
    assert(all.take(0) =~= Seq::<Seq<char>>::empty());
    assert(strings_view(names@) =~= requests(all.take(0)));
    while i < ls.len()
        invariant
            i <= ls.len(),
            all == views(ls@),
            strings_view(names@) == requests(all.take(i as int)),
        decreases ls.len() - i,
    {
        assert(all.take(i as int + 1).drop_last() =~= all.take(i as int));
        assert(all.take(i as int + 1).last() == ls@[i as int]@);
        let t = split_tokens(&ls[i]);
        if t.len() == 2 && t[0].len() > 0 && t[0][0] == '#' && is_word(&t[0], "#include") {
            match target_of(&t[1]) {
                Some(target) => {
                    let ghost before = strings_view(names@);
                    names.push(string_of(&target));
                    assert(strings_view(names@) =~= before.push(target@));
                },
                None => {},
            }
        }
        i += 1;
    }
    assert(all.take(ls.len() as int) =~= all);
    names
}

} // verus!
