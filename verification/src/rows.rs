//! Counting lines: the source that the preprocessor writes has one line
//! for each entry of its map.
use vstd::prelude::*;
use crate::dialect::{
    after_line, after_lines, declare_storage, declare_texture, include_target, is_directive,
    is_identifier, is_word_char, library_names, prelude, prelude_lines, storage_line,
    texture_line, uniform_fields, Expansion, IncludeSpec,
};
use crate::proofs::line_after;
use crate::utils::{decimal, lines, lines_from, position, tokens, tokens_from};

verus! {

/// Whether a text has no line feed.
pub open spec fn feed_free(s: Seq<char>) -> bool {
    forall|i: int| 0 <= i < s.len() ==> s[i] != '\n'
}

/// The number of line feeds of a text.
pub open spec fn line_feeds(s: Seq<char>) -> nat
    decreases s.len(),
{
    if s.len() == 0 {
        0
    } else {
        line_feeds(s.drop_last()) + if s.last() == '\n' {
            1nat
        } else {
            0nat
        }
    }
}

/// The line feeds of two texts add up in their concatenation.
pub proof fn lemma_line_feeds_concat(a: Seq<char>, b: Seq<char>)
    ensures
        line_feeds(a + b) == line_feeds(a) + line_feeds(b),
    decreases b.len(),
{
    if b.len() == 0 {
        assert(a + b =~= a);
    } else {
        assert((a + b).drop_last() =~= a + b.drop_last());
        lemma_line_feeds_concat(a, b.drop_last());
    }
}

/// A text without line feeds counts none.
pub proof fn lemma_line_feeds_none(s: Seq<char>)
    requires
        feed_free(s),
    ensures
        line_feeds(s) == 0,
    decreases s.len(),
{
    if s.len() > 0 {
        lemma_line_feeds_none(s.drop_last());
    }
}

/// A line and the line feed that ends it count one line feed.
pub proof fn lemma_line_feeds_row(row: Seq<char>)
    requires
        feed_free(row),
    ensures
        line_feeds(row.push('\n')) == 1,
{
    assert(row.push('\n').drop_last() =~= row);
    lemma_line_feeds_none(row);
}

/// A text that is empty or ends with a line feed has as many lines as line
/// feeds.
pub proof fn lemma_lines_count(s: Seq<char>, cur: Seq<char>)
    requires
        s.len() > 0 ==> s.last() == '\n',
        s.len() == 0 ==> cur.len() == 0,
    ensures
        lines_from(s, cur).len() == line_feeds(s),
    decreases s.len(),
{
    if s.len() > 0 {
        let rest = s.drop_first();
        assert(s =~= seq![s[0]] + rest);
        lemma_line_feeds_concat(seq![s[0]], rest);
        let one = seq![s[0]];
        assert(one.drop_last() =~= Seq::<char>::empty());
        assert(one.last() == s[0]);
        assert(line_feeds(one.drop_last()) == 0);
        assert(line_feeds(one) == if s[0] == '\n' {
            1nat
        } else {
            0nat
        });
        if rest.len() > 0 {
            assert(rest.last() == s.last());
        }
        if s[0] == '\n' {
            lemma_lines_count(rest, Seq::empty());
        } else {
            lemma_lines_count(rest, cur.push(s[0]));
        }
    }
}

/// No line of a text has a line feed.
pub proof fn lemma_lines_feed_free(s: Seq<char>, cur: Seq<char>)
    requires
        feed_free(cur),
    ensures
        forall|i: int|
            0 <= i < lines_from(s, cur).len() ==> feed_free(#[trigger] lines_from(s, cur)[i]),
    decreases s.len(),
{
    let all = lines_from(s, cur);
    if s.len() > 0 {
        if s[0] == '\n' {
            let later = lines_from(s.drop_first(), Seq::empty());
            lemma_lines_feed_free(s.drop_first(), Seq::empty());
            assert(all == seq![cur] + later);
            assert forall|i: int| 0 <= i < all.len() implies feed_free(#[trigger] all[i]) by {
                if i > 0 {
                    assert(all[i] == later[i - 1]);
                } else {
                    assert(all[i] == cur);
                }
            }
        } else {
            assert(feed_free(cur.push(s[0])));
            lemma_lines_feed_free(s.drop_first(), cur.push(s[0]));
            assert(all == lines_from(s.drop_first(), cur.push(s[0])));
        }
    } else {
        assert forall|i: int| 0 <= i < all.len() implies feed_free(#[trigger] all[i]) by {
            assert(all[i] == cur);
        }
    }
}

/// No token of a line without line feeds has a line feed.
pub proof fn lemma_tokens_feed_free(s: Seq<char>, cur: Seq<char>)
    requires
        feed_free(s),
        feed_free(cur),
    ensures
        forall|i: int|
            0 <= i < tokens_from(s, cur).len() ==> feed_free(#[trigger] tokens_from(s, cur)[i]),
    decreases s.len(),
{
    let all = tokens_from(s, cur);
    let ended: Seq<Seq<char>> = if cur.len() > 0 {
        seq![cur]
    } else {
        Seq::empty()
    };
    if s.len() > 0 {
        let rest = s.drop_first();
        assert forall|i: int| 0 <= i < rest.len() implies rest[i] != '\n' by {
            assert(rest[i] == s[i + 1]);
        }
        if crate::utils::is_space(s[0]) {
            let later = tokens_from(rest, Seq::empty());
            lemma_tokens_feed_free(rest, Seq::empty());
            assert(all == ended + later);
            assert forall|i: int| 0 <= i < all.len() implies feed_free(#[trigger] all[i]) by {
                if i >= ended.len() {
                    assert(all[i] == later[i - ended.len()]);
                } else {
                    assert(all[i] == cur);
                }
            }
        } else {
            assert(feed_free(cur.push(s[0])));
            lemma_tokens_feed_free(rest, cur.push(s[0]));
            assert(all == tokens_from(rest, cur.push(s[0])));
        }
    } else {
        assert forall|i: int| 0 <= i < all.len() implies feed_free(#[trigger] all[i]) by {
            assert(all[i] == cur);
        }
    }
}

/// A decimal numeral has no line feed.
pub proof fn lemma_decimal_feed_free(n: nat)
    ensures
        feed_free(decimal(n)),
    decreases n,
{
    if n >= 10 {
        lemma_decimal_feed_free(n / 10);
    }
}

/// A name has no line feed.
pub proof fn lemma_identifier_feed_free(name: Seq<char>)
    requires
        is_identifier(name),
    ensures
        feed_free(name),
{
    assert forall|i: int| 0 <= i < name.len() implies name[i] != '\n' by {
        assert(is_word_char(name[i]));
    }
}

/// The declarations that directives write have no line feed.
pub proof fn lemma_declarations_feed_free(slot: nat, name: Seq<char>, ty: Seq<char>)
    requires
        feed_free(name),
        feed_free(ty),
    ensures
        feed_free(storage_line(slot, name, ty)),
        feed_free(texture_line(slot, name)),
{
    lemma_decimal_feed_free(slot);
    reveal_strlit("@group(0) @binding(");
    reveal_strlit(") var<storage,read_write> ");
    reveal_strlit(": ");
    reveal_strlit(";");
    reveal_strlit(") var ");
    reveal_strlit(": texture_storage_2d<rgba32float,write>;");
    let a = "@group(0) @binding("@ + decimal(slot);
    assert(feed_free(a));
    let b = a + ") var<storage,read_write> "@;
    assert(feed_free(b));
    let c = b + name;
    assert(feed_free(c));
    let d = c + ": "@;
    assert(feed_free(d));
    let e = d + ty;
    assert(feed_free(e));
    assert(feed_free(e + ";"@));
    let f = a + ") var "@;
    assert(feed_free(f));
    let g = f + name;
    assert(feed_free(g));
    assert(feed_free(g + ": texture_storage_2d<rgba32float,write>;"@));
}

/// Whether the source written so far ends its last line, has one entry of
/// the map for each of its lines, and every custom uniform is a name.
pub open spec fn aligned(st: Expansion) -> bool {
    &&& st.text.len() > 0 ==> st.text.last() == '\n'
    &&& line_feeds(st.text) == st.map.len()
    &&& forall|i: int| 0 <= i < st.uniforms.len() ==> is_identifier(#[trigger] st.uniforms[i])
}

/// Writing a line without line feeds keeps the source and the map aligned.
pub proof fn lemma_emit_aligned(st: Expansion, line: Seq<char>, n: nat)
    requires
        aligned(st),
        feed_free(line),
    ensures
        aligned(st.emit(line, n)),
{
    let row = line.push('\n');
    assert((st.text + line).push('\n') =~= st.text + row);
    lemma_line_feeds_concat(st.text, row);
    lemma_line_feeds_row(line);
}

/// One line without line feeds keeps the source and the map aligned.
pub proof fn lemma_after_line_aligned(
    st: Expansion,
    library: Seq<IncludeSpec>,
    line: Seq<char>,
    n: nat,
    depth: nat,
)
    requires
        aligned(st),
        feed_free(line),
    ensures
        after_line(st, library, line, n, depth) is Ok ==> aligned(
            after_line(st, library, line, n, depth)->Ok_0,
        ),
    decreases depth, 0nat,
{
    let t = tokens(line);
    lemma_tokens_feed_free(line, Seq::empty());
    if !is_directive(t) {
        lemma_emit_aligned(st, line, n);
    } else if t[0] == "#include"@ {
        if t.len() == 2 && include_target(t[1]) is Some {
            match position(library_names(library), include_target(t[1])->0) {
                None => {},
                Some(k) => {
                    if depth > 0 {
                        let text = library[k as int].text;
                        lemma_lines_feed_free(text, Seq::empty());
                        lemma_after_lines_aligned(
                            st.with_included(include_target(t[1])->0),
                            library,
                            lines(text),
                            n,
                            false,
                            (depth - 1) as nat,
                        );
                    }
                },
            }
        }
    } else if t[0] == "#uniform"@ {
    } else if t[0] == "#storage"@ {
        if declare_storage(st, t, n) is Ok {
            let slot = st.storage.len() + 1;
            lemma_identifier_feed_free(t[1]);
            lemma_declarations_feed_free(slot, t[1], t[3]);
            let kind = crate::bind::BindingKind::StorageBuffer {
                bytes: crate::utils::literal_value(t[2])->0,
            };
            lemma_emit_aligned(st.with_binding(t[1], kind, n), storage_line(slot, t[1], t[3]), n);
        }
    } else if t[0] == "#texture"@ {
        if declare_texture(st, t, n) is Ok {
            let slot = st.storage.len() + 1;
            lemma_identifier_feed_free(t[1]);
            lemma_declarations_feed_free(slot, t[1], t[1]);
            let kind = crate::bind::BindingKind::StorageTexture {
                width: crate::utils::literal_value(t[2])->0,
                height: crate::utils::literal_value(t[3])->0,
            };
            lemma_emit_aligned(st.with_binding(t[1], kind, n), texture_line(slot, t[1]), n);
        }
    } else if t[0] == "#dispatch"@ {
    } else {
    }
}

/// A run of lines without line feeds keeps the source and the map aligned.
pub proof fn lemma_after_lines_aligned(
    st: Expansion,
    library: Seq<IncludeSpec>,
    ls: Seq<Seq<char>>,
    n: nat,
    advance: bool,
    depth: nat,
)
    requires
        aligned(st),
        forall|i: int| 0 <= i < ls.len() ==> feed_free(#[trigger] ls[i]),
    ensures
        after_lines(st, library, ls, n, advance, depth) is Ok ==> aligned(
            after_lines(st, library, ls, n, advance, depth)->Ok_0,
        ),
    decreases depth, ls.len() + 1,
{
    if ls.len() > 0 {
        lemma_after_line_aligned(st, library, ls[0], n, depth);
        match after_line(st, library, ls[0], n, depth) {
            Err(e) => {},
            Ok(next) => {
                let rest = ls.drop_first();
                assert forall|i: int| 0 <= i < rest.len() implies feed_free(
                    #[trigger] rest[i],
                ) by {
                    assert(rest[i] == ls[i + 1]);
                }
                lemma_after_lines_aligned(
                    next,
                    library,
                    rest,
                    line_after(n, 1, advance),
                    advance,
                    depth,
                );
            },
        }
    }
}

/// The fields of the custom uniforms take one line each.
pub proof fn lemma_uniform_fields_rows(uniforms: Seq<Seq<char>>, full: bool)
    requires
        forall|i: int| 0 <= i < uniforms.len() ==> is_identifier(#[trigger] uniforms[i]),
    ensures
        line_feeds(uniform_fields(uniforms, full)) == uniforms.len(),
    decreases uniforms.len(),
{
    if uniforms.len() > 0 {
        let shorter = uniforms.drop_last();
        assert forall|i: int| 0 <= i < shorter.len() implies is_identifier(
            #[trigger] shorter[i],
        ) by {
            assert(shorter[i] == uniforms[i]);
        }
        lemma_uniform_fields_rows(shorter, full);
        let name = uniforms.last();
        lemma_identifier_feed_free(name);
        reveal_strlit("    ");
        reveal_strlit(": f32,\n");
        reveal_strlit(": f16,\n");
        reveal_strlit(": f32,");
        reveal_strlit(": f16,");
        let end = if full {
            ": f32,\n"@
        } else {
            ": f16,\n"@
        };
        let body = "    "@ + name + if full {
            ": f32,"@
        } else {
            ": f16,"@
        };
        assert(feed_free(body));
        assert("    "@ + name + end =~= body.push('\n'));
        lemma_line_feeds_row(body);
        assert(uniform_fields(uniforms, full) =~= uniform_fields(shorter, full) + body.push('\n'));
        lemma_line_feeds_concat(uniform_fields(shorter, full), body.push('\n'));
    }
}

/// The lines `rows`, each ended by a line feed, as one text.
pub open spec fn joined_rows(rows: Seq<Seq<char>>) -> Seq<char>
    decreases rows.len(),
{
    if rows.len() == 0 {
        Seq::empty()
    } else {
        joined_rows(rows.drop_last()) + rows.last().push('\n')
    }
}

/// Lines without line feeds, each ended by one, count one line feed each.
pub proof fn lemma_line_feeds_rows(rows: Seq<Seq<char>>) -> (joined: Seq<char>)
    requires
        forall|i: int| 0 <= i < rows.len() ==> feed_free(#[trigger] rows[i]),
    ensures
        joined == joined_rows(rows),
        line_feeds(joined) == rows.len(),
    decreases rows.len(),
{
    if rows.len() == 0 {
        Seq::empty()
    } else {
        let shorter = rows.drop_last();
        assert forall|i: int| 0 <= i < shorter.len() implies feed_free(#[trigger] shorter[i]) by {
            assert(shorter[i] == rows[i]);
        }
        let before = lemma_line_feeds_rows(shorter);
        lemma_line_feeds_row(rows.last());
        lemma_line_feeds_concat(before, rows.last().push('\n'));
        before + rows.last().push('\n')
    }
}

/// The declaration of the uniform block ends with a line feed and has
/// [`prelude_lines`] lines.
pub proof fn lemma_prelude_rows(uniforms: Seq<Seq<char>>, full: bool)
    requires
        forall|i: int| 0 <= i < uniforms.len() ==> is_identifier(#[trigger] uniforms[i]),
    ensures
        prelude(uniforms, full).len() > 0,
        prelude(uniforms, full).last() == '\n',
        line_feeds(prelude(uniforms, full)) == prelude_lines(uniforms.len(), full),
{
    let first = "enable f16;\n"@;
    let head =
        "struct FrameUniforms {\n    time: f32,\n    mouse_x: f32,\n    mouse_y: f32,\n    click: u32,\n"@;
    let tail = "}\n@group(0) @binding(0) var<uniform> frame: FrameUniforms;\n"@;
    reveal_strlit("enable f16;\n");
    reveal_strlit("enable f16;");
    reveal_strlit(
        "struct FrameUniforms {\n    time: f32,\n    mouse_x: f32,\n    mouse_y: f32,\n    click: u32,\n",
    );
    reveal_strlit("struct FrameUniforms {");
    reveal_strlit("    time: f32,");
    reveal_strlit("    mouse_x: f32,");
    reveal_strlit("    mouse_y: f32,");
    reveal_strlit("    click: u32,");
    reveal_strlit("}\n@group(0) @binding(0) var<uniform> frame: FrameUniforms;\n");
    reveal_strlit("}");
    reveal_strlit("@group(0) @binding(0) var<uniform> frame: FrameUniforms;");
    let first_rows = seq!["enable f16;"@];
    let head_rows = seq![
        "struct FrameUniforms {"@,
        "    time: f32,"@,
        "    mouse_x: f32,"@,
        "    mouse_y: f32,"@,
        "    click: u32,"@,
    ];
    let tail_rows = seq!["}"@, "@group(0) @binding(0) var<uniform> frame: FrameUniforms;"@];
    reveal_with_fuel(joined_rows, 6);
    let f = lemma_line_feeds_rows(first_rows);
    let h = lemma_line_feeds_rows(head_rows);
    let t = lemma_line_feeds_rows(tail_rows);
    assert(head_rows.drop_last() =~= seq![
        "struct FrameUniforms {"@,
        "    time: f32,"@,
        "    mouse_x: f32,"@,
        "    mouse_y: f32,"@,
    ]);
    assert(head_rows.drop_last().drop_last() =~= seq![
        "struct FrameUniforms {"@,
        "    time: f32,"@,
        "    mouse_x: f32,"@,
    ]);
    assert(head_rows.drop_last().drop_last().drop_last() =~= seq![
        "struct FrameUniforms {"@,
        "    time: f32,"@,
    ]);
    assert(head_rows.drop_last().drop_last().drop_last().drop_last() =~= seq![
        "struct FrameUniforms {"@,
    ]);
    assert(tail_rows.drop_last() =~= seq!["}"@]);
    assert(f =~= first);
    assert(h =~= head);
    assert(t =~= tail);
    lemma_uniform_fields_rows(uniforms, full);
    let lead = if full {
        Seq::<char>::empty()
    } else {
        first
    };
    lemma_line_feeds_concat(lead, head);
    lemma_line_feeds_concat(lead + head, uniform_fields(uniforms, full));
    lemma_line_feeds_concat(lead + head + uniform_fields(uniforms, full), tail);
}

} // verus!
