//! What holds of the preprocessor across lines and across runs.
use vstd::prelude::*;
use crate::bind::{binding_names, BindingSpec};
use crate::dialect::{
    after_line, after_lines, assemble, declare_pass, expand, frame_binding, include_target,
    is_directive, library_names, prelude, slots_of, Expansion, IncludeSpec, LocatedError,
    ProgramSpec, MAX_BINDINGS, MAX_CUSTOM_UNIFORMS,
};
use crate::pp::{outcome, ErrorKind, ExpandedSource, WGSLError};
use crate::rows::{
    lemma_after_lines_aligned, lemma_line_feeds_concat, lemma_lines_count,
    lemma_lines_feed_free, lemma_prelude_rows,
};
use crate::utils::{lemma_position, lines, lines_from, position, tokens};

verus! {

/// Whether everything that `a` has gathered stands unchanged at the start of
/// what `b` has gathered.
pub open spec fn extends(a: Expansion, b: Expansion) -> bool {
    &&& a.text.is_prefix_of(b.text)
    &&& a.map.is_prefix_of(b.map)
    &&& a.uniforms.is_prefix_of(b.uniforms)
    &&& a.storage.is_prefix_of(b.storage)
    &&& a.passes.is_prefix_of(b.passes)
    &&& a.included.is_prefix_of(b.included)
}

/// Whether the declarations are within the limits of a program and every pass
/// uses slots of declared storage bindings only.
pub open spec fn consistent(st: Expansion) -> bool {
    &&& st.uniforms.len() <= MAX_CUSTOM_UNIFORMS
    &&& st.storage.len() < MAX_BINDINGS
    &&& forall|p: int, j: int|
        0 <= p < st.passes.len() && 0 <= j < st.passes[p].uses.len() ==> 1 <= (
        #[trigger] st.passes[p].uses[j]) <= st.storage.len()
}

/// The slots that names resolve to are slots of the storage bindings.
pub proof fn lemma_slots_in_range(storage: Seq<BindingSpec>, names: Seq<Seq<char>>)
    requires
        storage.len() < MAX_BINDINGS,
        slots_of(storage, names) is Ok,
    ensures
        slots_of(storage, names)->Ok_0.len() == names.len(),
        forall|j: int|
            0 <= j < names.len() ==> 1 <= (#[trigger] slots_of(storage, names)->Ok_0[j])
                <= storage.len(),
    decreases names.len(),
{
    if names.len() > 0 {
        lemma_slots_in_range(storage, names.drop_last());
        lemma_position(binding_names(storage), names.last());
    }
}

/// One line keeps what was gathered and keeps it consistent; where it fails,
/// the error names the line.
pub proof fn lemma_after_line(
    st: Expansion,
    library: Seq<IncludeSpec>,
    line: Seq<char>,
    n: nat,
    depth: nat,
)
    requires
        consistent(st),
    ensures
        match after_line(st, library, line, n, depth) {
            Ok(next) => extends(st, next) && consistent(next),
            Err(e) => e.line == n,
        },
    decreases depth, 0nat,
{
    let t = tokens(line);
    if !is_directive(t) {
    } else if t[0] == "#include"@ {
        if t.len() == 2 && include_target(t[1]) is Some {
            match position(library_names(library), include_target(t[1])->0) {
                None => {},
                Some(k) => {
                    if depth > 0 {
                        lemma_after_lines(
                            st.with_included(include_target(t[1])->0),
                            library,
                            lines(library[k as int].text),
                            n,
                            false,
                            (depth - 1) as nat,
                        );
                    }
                },
            }
        }
    } else if t[0] == "#uniform"@ {
    } else if t[0] == "#storage"@ {
    } else if t[0] == "#texture"@ {
    } else if t[0] == "#dispatch"@ {
        if declare_pass(st, t, n) is Ok {
            lemma_slots_in_range(st.storage, t.skip(5));
        }
    } else {
    }
}

/// A run of lines keeps what was gathered and keeps it consistent; where it
/// fails, the error names one of its lines.
pub proof fn lemma_after_lines(
    st: Expansion,
    library: Seq<IncludeSpec>,
    ls: Seq<Seq<char>>,
    n: nat,
    advance: bool,
    depth: nat,
)
    requires
        consistent(st),
    ensures
        match after_lines(st, library, ls, n, advance, depth) {
            Ok(next) => extends(st, next) && consistent(next),
            Err(e) => if advance {
                n <= e.line < n + ls.len()
            } else {
                e.line == n
            },
        },
    decreases depth, ls.len() + 1,
{
    if ls.len() > 0 {
        lemma_after_line(st, library, ls[0], n, depth);
        match after_line(st, library, ls[0], n, depth) {
            Err(e) => {},
            Ok(next) => {
                lemma_after_lines(
                    next,
                    library,
                    ls.drop_first(),
                    if advance {
                        n + 1
                    } else {
                        n
                    },
                    advance,
                    depth,
                );
            },
        }
    }
}

/// The number of the line behind a run of `count` lines that starts at `n`.
pub open spec fn line_after(n: nat, count: nat, advance: bool) -> nat {
    if advance {
        n + count
    } else {
        n
    }
}

/// Handling two runs of lines one after the other is handling their
/// concatenation.
pub proof fn lemma_after_lines_concat(
    st: Expansion,
    library: Seq<IncludeSpec>,
    head: Seq<Seq<char>>,
    tail: Seq<Seq<char>>,
    n: nat,
    advance: bool,
    depth: nat,
)
    ensures
        after_lines(st, library, head + tail, n, advance, depth) == match after_lines(
            st,
            library,
            head,
            n,
            advance,
            depth,
        ) {
            Err(e) => Err(e),
            Ok(middle) => after_lines(
                middle,
                library,
                tail,
                line_after(n, head.len(), advance),
                advance,
                depth,
            ),
        },
    decreases head.len(),
{
    if head.len() == 0 {
        assert(head + tail =~= tail);
    } else {
        assert((head + tail).drop_first() =~= head.drop_first() + tail);
        assert((head + tail)[0] == head[0]);
        match after_line(st, library, head[0], n, depth) {
            Err(e) => {},
            Ok(next) => {
                lemma_after_lines_concat(
                    next,
                    library,
                    head.drop_first(),
                    tail,
                    line_after(n, 1, advance),
                    advance,
                    depth,
                );
            },
        }
    }
}

/// The lines of a text that ends with a line feed, followed by the lines of
/// another text, are the lines of the two texts joined.
pub proof fn lemma_lines_concat(head: Seq<char>, tail: Seq<char>)
    requires
        head.len() == 0 || head.last() == '\n',
    ensures
        lines(head + tail) == lines(head) + lines(tail),
{
    lemma_lines_from_concat(head, tail, Seq::empty());
}

/// [`lemma_lines_concat`] behind a line that has been read in part.
pub proof fn lemma_lines_from_concat(head: Seq<char>, tail: Seq<char>, cur: Seq<char>)
    requires
        head.len() == 0 || head.last() == '\n',
        head.len() == 0 ==> cur.len() == 0,
    ensures
        lines_from(head + tail, cur) == lines_from(head, cur) + lines_from(tail, Seq::empty()),
    decreases head.len(),
{
    if head.len() == 0 {
        assert(head + tail =~= tail);
        assert(cur =~= Seq::<char>::empty());
        assert(lines_from(head, cur) + lines_from(tail, Seq::empty()) =~= lines_from(
            tail,
            Seq::empty(),
        ));
    } else {
        let rest = head.drop_first();
        assert((head + tail).drop_first() =~= rest + tail);
        assert((head + tail)[0] == head[0]);
        if rest.len() > 0 {
            assert(rest.last() == head.last());
        }
        if head[0] == '\n' {
            lemma_lines_from_concat(rest, tail, Seq::empty());
            assert(lines_from(head + tail, cur) =~= lines_from(head, cur) + lines_from(
                tail,
                Seq::empty(),
            ));
        } else {
            assert(rest.len() > 0);
            lemma_lines_from_concat(rest, tail, cur.push(head[0]));
        }
    }
}

/// Appending lines to a program never moves what the program declared: where
/// both the program and its extension expand, every custom uniform keeps its
/// place in the uniform block, every binding keeps its slot and its name, every
/// storage binding keeps its kind and size, and every pass keeps its place.
pub proof fn slots_stable_under_append(
    program: Seq<char>,
    addition: Seq<char>,
    library: Seq<IncludeSpec>,
    full: bool,
)
    requires
        program.len() == 0 || program.last() == '\n',
        expand(program, library, full) is Ok,
        expand(program + addition, library, full) is Ok,
    ensures
        ({
            let before = expand(program, library, full)->Ok_0;
            let after = expand(program + addition, library, full)->Ok_0;
            &&& before.uniforms.is_prefix_of(after.uniforms)
            &&& before.passes.is_prefix_of(after.passes)
            &&& before.bindings.len() <= after.bindings.len()
            &&& forall|slot: int|
                0 <= slot < before.bindings.len() ==> (#[trigger] after.bindings[slot]).name
                    == before.bindings[slot].name
            &&& forall|slot: int|
                1 <= slot < before.bindings.len() ==> #[trigger] after.bindings[slot]
                    == before.bindings[slot]
        }),
{
    let start = Expansion::empty();
    let depth = library.len();
    lemma_lines_concat(program, addition);
    lemma_after_lines_concat(start, library, lines(program), lines(addition), 1, true, depth);
    let middle = after_lines(start, library, lines(program), 1, true, depth)->Ok_0;
    lemma_after_lines(start, library, lines(program), 1, true, depth);
    lemma_after_lines(
        middle,
        library,
        lines(addition),
        line_after(1, lines(program).len(), true),
        true,
        depth,
    );
}

/// An include directive that names a text the library does not have fails
/// the program with a syntax error whose line is the line of the directive in
/// the program as it was written, wherever the lines before it expand.
pub proof fn missing_include_is_located(
    source: Seq<char>,
    at: int,
    library: Seq<IncludeSpec>,
    full: bool,
)
    requires
        0 <= at < lines(source).len(),
        after_lines(
            Expansion::empty(),
            library,
            lines(source).take(at),
            1,
            true,
            library.len(),
        ) is Ok,
        tokens(lines(source)[at]).len() == 2,
        tokens(lines(source)[at])[0] == "#include"@,
        include_target(tokens(lines(source)[at])[1]) is Some,
        position(library_names(library), include_target(tokens(lines(source)[at])[1])->0) is None,
    ensures
        expand(source, library, full) == Err::<ProgramSpec, LocatedError>(
            LocatedError {
                kind: ErrorKind::Syntax,
                summary: "Cannot find include "@ + tokens(lines(source)[at])[1],
                line: (at + 1) as nat,
            },
        ),
{
    let start = Expansion::empty();
    let depth = library.len();
    let head = lines(source).take(at);
    let rest = lines(source).skip(at);
    let directive = lines(source)[at];
    assert(lines(source) =~= head + rest);
    lemma_after_lines_concat(start, library, head, rest, 1, true, depth);
    assert(rest[0] == directive);
    let middle = after_lines(start, library, head, 1, true, depth)->Ok_0;
    let n = line_after(1, head.len(), true);
    let t = tokens(directive);
    assert(is_directive(t)) by {
        reveal_strlit("#include");
    }
    assert(after_line(middle, library, directive, n, depth) == Err::<Expansion, LocatedError>(
        LocatedError {
            kind: ErrorKind::Syntax,
            summary: "Cannot find include "@ + t[1],
            line: n,
        },
    ));
    assert(after_lines(middle, library, rest, n, true, depth) is Err);
}

/// Every failure of the preprocessor is located: its line is a line of the
/// program, counted from 1.
pub proof fn errors_are_located(source: Seq<char>, library: Seq<IncludeSpec>, full: bool)
    requires
        expand(source, library, full) is Err,
    ensures
        1 <= expand(source, library, full)->Err_0.line <= lines(source).len(),
{
    lemma_after_lines(Expansion::empty(), library, lines(source), 1, true, library.len());
}

/// Every program that the preprocessor returns is well formed: the uniform
/// block holds slot 0, the table fits a bind group, and every pass uses slots
/// of storage bindings of the table only.
pub proof fn expansion_is_well_formed(source: Seq<char>, library: Seq<IncludeSpec>, full: bool)
    requires
        expand(source, library, full) is Ok,
    ensures
        ({
            let program = expand(source, library, full)->Ok_0;
            &&& program.uniforms.len() <= MAX_CUSTOM_UNIFORMS
            &&& 1 <= program.bindings.len() <= MAX_BINDINGS
            &&& program.bindings[0] == frame_binding(program.uniforms.len(), full)
            &&& forall|p: int, j: int|
                0 <= p < program.passes.len() && 0 <= j < program.passes[p].uses.len() ==> 1 <= (
                #[trigger] program.passes[p].uses[j]) < program.bindings.len()
        }),
{
    lemma_after_lines(Expansion::empty(), library, lines(source), 1, true, library.len());
}

/// The preprocessor is a function of its input: two runs on the same program
/// with the same library and precision return the same source, the same
/// binding table and the same passes, or the same error.
pub proof fn preprocess_is_deterministic(
    first: Result<ExpandedSource, WGSLError>,
    second: Result<ExpandedSource, WGSLError>,
    source: Seq<char>,
    library: Seq<IncludeSpec>,
    full: bool,
)
    requires
        outcome(first) == expand(source, library, full),
        outcome(second) == expand(source, library, full),
    ensures
        outcome(first) == outcome(second),
        first is Ok ==> second is Ok && first->Ok_0@.source == second->Ok_0@.source
            && first->Ok_0@.bindings == second->Ok_0@.bindings,
{
}

/// The precision of the custom uniforms changes the uniform block and
/// nothing else: a program fails in one precision where it fails in the
/// other, with the same error, and where it expands, the custom uniforms, the
/// passes, the storage bindings and the source behind the declaration of the
/// uniform block are the same.
pub proof fn precision_changes_the_block_only(source: Seq<char>, library: Seq<IncludeSpec>)
    ensures
        expand(source, library, true) is Err <==> expand(source, library, false) is Err,
        expand(source, library, true) is Err ==> expand(source, library, true)->Err_0 == expand(
            source,
            library,
            false,
        )->Err_0,
        expand(source, library, true) is Ok ==> ({
            let full = expand(source, library, true)->Ok_0;
            let reduced = expand(source, library, false)->Ok_0;
            &&& full.uniforms == reduced.uniforms
            &&& full.passes == reduced.passes
            &&& full.included == reduced.included
            &&& full.bindings.len() == reduced.bindings.len()
            &&& forall|slot: int|
                1 <= slot < full.bindings.len() ==> #[trigger] full.bindings[slot]
                    == reduced.bindings[slot]
            &&& full.source.skip(prelude(full.uniforms, true).len() as int) == reduced.source.skip(
                prelude(full.uniforms, false).len() as int,
            )
        }),
{
    let gathered = after_lines(Expansion::empty(), library, lines(source), 1, true, library.len());
    if gathered is Ok {
        let st = gathered->Ok_0;
        let full = assemble(st, true);
        let reduced = assemble(st, false);
        assert(full.source.skip(prelude(st.uniforms, true).len() as int) =~= st.text);
        assert(reduced.source.skip(prelude(st.uniforms, false).len() as int) =~= st.text);
    }
}

/// The map of a program has one entry for each line of its source.
pub proof fn map_has_an_entry_for_every_line(
    source: Seq<char>,
    library: Seq<IncludeSpec>,
    full: bool,
)
    requires
        expand(source, library, full) is Ok,
    ensures
        expand(source, library, full)->Ok_0.map.len() == lines(
            expand(source, library, full)->Ok_0.source,
        ).len(),
{
    let start = Expansion::empty();
    lemma_lines_feed_free(source, Seq::empty());
    lemma_after_lines_aligned(start, library, lines(source), 1, true, library.len());
    let st = after_lines(start, library, lines(source), 1, true, library.len())->Ok_0;
    let program = assemble(st, full);
    lemma_prelude_rows(st.uniforms, full);
    lemma_line_feeds_concat(prelude(st.uniforms, full), st.text);
    lemma_lines_count(program.source, Seq::empty());
}

} // verus!
