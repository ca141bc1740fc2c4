//! Chunks and line-window chunking.
//!
//! A source text is cut into lines at each `'\n'`; line `k` (1-based) is
//! the `k`-th piece. A chunk spanning lines `start..=end` holds exactly
//! those lines joined with `'\n'`.
use vstd::prelude::*;
use vstd::string::*;
use crate::extractor::ChunkKind;
use crate::text::{join_with, string_views, lacks, split_on};

verus! {

/// A unit of code handed to the embedder and the lexical index.
pub struct Chunk {
    pub path: String,
    pub start_line: usize,
    pub end_line: usize,
    pub kind: ChunkKind,
    pub content: String,
    pub signature: Option<String>,
    pub context: Vec<String>,
    pub string_literals: Vec<String>,
}

/// Cuts a source text into its lines.
pub fn split_lines(text: &str) -> (r: Vec<String>)
    ensures
        r@.len() >= 1,
        join_with(string_views(r@), '\n') == text@,
        forall|i: int| 0 <= i < r@.len() ==> lacks(#[trigger] r@[i]@, '\n'),
{
    split_on(text, '\n')
}

/// Joins lines `start..=end` (1-based) of `lines` with newlines.
pub fn line_slice(lines: &Vec<String>, start: usize, end: usize) -> (r: String)
    requires
        1 <= start <= end <= lines@.len(),
    ensures
        r@ == join_with(string_views(lines@).subrange(start - 1, end as int), '\n'),
{
    proof {
        reveal_strlit("\n");
    }
    let mut r = lines[start - 1].clone();
    let mut k: usize = start;
    proof {
        assert(string_views(lines@).subrange(start - 1, start as int).len() == 1);
    }
    while k < end
        invariant
            1 <= start <= k <= end <= lines@.len(),
            r@ == join_with(string_views(lines@).subrange(start - 1, k as int), '\n'),
        decreases end - k,
    {
        let ghost before = r@;
        r.append("\n");
        r.append(lines[k].as_str());
        proof {
            reveal_strlit("\n");
            assert("\n"@ =~= seq!['\n']);
            let t = string_views(lines@).subrange(start - 1, k + 1);
            assert(t.len() >= 2);
            assert(t.drop_last() =~= string_views(lines@).subrange(start - 1, k as int));
            assert(t.last() == lines@[k as int]@);
            assert(r@ =~= join_with(t, '\n'));
        }
        k = k + 1;
    }
    r
}

/// The characters of lines `a..=b` (1-based) joined with newlines.
pub open spec fn span_text(ls: Seq<Seq<char>>, a: int, b: int) -> Seq<char> {
    join_with(ls.subrange(a - 1, b), '\n')
}

/// The last line of a window that starts at `s`: `cap`, or fewer lines
/// until the text fits in `max_chars`; a single line is kept whatever its
/// length.
pub open spec fn fit_end(ls: Seq<Seq<char>>, s: int, cap: int, max_chars: int) -> int
    decreases cap - s,
{
    if cap <= s || span_text(ls, s, cap).len() <= max_chars {
        cap
    } else {
        fit_end(ls, s, cap - 1, max_chars)
    }
}

/// The windows `(start, end)` (1-based, inclusive) that split lines
/// `first..=last` of `ls`: each of at most `max_lines` lines and, but for a
/// single overlong line, at most `max_chars` characters; each next window
/// starts `overlap_lines` lines before the end of the one before (or one
/// line after its start, when the window is that short).
pub open spec fn windows(ls: Seq<Seq<char>>, first: int, last: int, max_lines: int, max_chars: int, overlap_lines: int) -> Seq<(int, int)>
    decreases last - first,
{
    if first > last || max_lines <= overlap_lines || overlap_lines < 0 {
        Seq::empty()
    } else {
        let cap = if last - first < max_lines { last } else { first + max_lines - 1 };
        let e = fit_end(ls, first, cap, max_chars);
        if e >= last || e < first {
            seq![(first, e)]
        } else {
            let next = if e - overlap_lines + 1 > first { e - overlap_lines + 1 } else { first + 1 };
            seq![(first, e)] + windows(ls, next, last, max_lines, max_chars, overlap_lines)
        }
    }
}

/// The windows whose text is not empty: a chunk never holds empty text.
pub open spec fn nonempty_windows(ls: Seq<Seq<char>>, ws: Seq<(int, int)>) -> Seq<(int, int)> {
    ws.filter(|w: (int, int)| span_text(ls, w.0, w.1).len() > 0)
}

/// The windows that become chunks when lines `first..=last` are split.
pub open spec fn chunk_windows(ls: Seq<Seq<char>>, first: int, last: int, max_lines: int, max_chars: int, overlap_lines: int) -> Seq<(int, int)> {
    nonempty_windows(ls, windows(ls, first, last, max_lines, max_chars, overlap_lines))
}

proof fn lemma_fit_end_bounds(ls: Seq<Seq<char>>, s: int, cap: int, max_chars: int)
    requires
        s <= cap,
    ensures
        s <= fit_end(ls, s, cap, max_chars) <= cap,
    decreases cap - s,
{
    if !(cap <= s || span_text(ls, s, cap).len() <= max_chars) {
        lemma_fit_end_bounds(ls, s, cap - 1, max_chars);
    }
}

/// The view of an optional signature.
pub open spec fn opt_string_view(s: Option<String>) -> Option<Seq<char>> {
    match s {
        Some(x) => Some(x@),
        None => None,
    }
}

/// Chunk `c` is the window `w` of `lines` in `path`, with the given kind,
/// signature and context; its text is not empty, and it carries no string
/// literals (the line windows know of none).
pub open spec fn is_window_chunk(
    c: Chunk,
    w: (int, int),
    path: Seq<char>,
    lines: Seq<String>,
    kind: ChunkKind,
    signature: Option<Seq<char>>,
    context: Seq<Seq<char>>,
) -> bool {
    &&& c.start_line == w.0
    &&& c.end_line == w.1
    &&& c.content@ == join_with(string_views(lines).subrange(w.0 - 1, w.1), '\n')
    &&& c.content@.len() > 0
    &&& c.path@ == path
    &&& c.kind == kind
    &&& opt_string_view(c.signature) == signature
    &&& string_views(c.context@) == context
    &&& c.string_literals@.len() == 0
}

/// Copies a list of strings.
fn copy_strings(v: &Vec<String>) -> (r: Vec<String>)
    ensures
        string_views(r@) == string_views(v@),
{
    let mut r: Vec<String> = Vec::new();
    let mut i: usize = 0;
    while i < v.len()
        invariant
            i <= v@.len(),
            string_views(r@) == string_views(v@).subrange(0, i as int),
        decreases v@.len() - i,
    {
        let ghost o = r@;
        r.push(v[i].clone());
        proof {
            assert(string_views(r@) =~= string_views(o).push(v@[i as int]@));
            assert(string_views(v@).subrange(0, i + 1) =~= string_views(v@).subrange(0, i as int).push(v@[i as int]@));
        }
        i = i + 1;
    }
    proof {
        assert(string_views(v@).subrange(0, v@.len() as int) =~= string_views(v@));
    }
    r
}

/// Appends to `out` the chunks that split lines `first..=last`.
fn push_windows(
    out: &mut Vec<Chunk>,
    path: &str,
    lines: &Vec<String>,
    first: usize,
    last: usize,
    max_lines: usize,
    max_chars: usize,
    overlap_lines: usize,
    kind: ChunkKind,
    signature: &Option<String>,
    context: &Vec<String>,
)
    requires
        overlap_lines < max_lines,
        1 <= first <= last <= lines@.len(),
        lines@.len() < usize::MAX,
    ensures
        ({
            let ws = chunk_windows(string_views(lines@), first as int, last as int, max_lines as int, max_chars as int, overlap_lines as int);
            &&& final(out)@.len() == old(out)@.len() + ws.len()
            &&& forall|i: int| 0 <= i < old(out)@.len() ==> final(out)@[i] == old(out)@[i]
            &&& forall|i: int| 0 <= i < ws.len() ==> is_window_chunk(
                #[trigger] final(out)@[old(out)@.len() + i],
                ws[i],
                path@,
                lines@,
                kind,
                opt_string_view(*signature),
                string_views(context@),
            )
        }),
{
    let ghost base = out@;
    let ghost ls = string_views(lines@);
    let ghost ws = windows(ls, first as int, last as int, max_lines as int, max_chars as int, overlap_lines as int);
    let mut start: usize = first;
    let ghost mut k: int = 0;
    loop
        invariant
            overlap_lines < max_lines,
            1 <= first <= start <= last <= lines@.len(),
            lines@.len() < usize::MAX,
            ls == string_views(lines@),
            ws == windows(ls, first as int, last as int, max_lines as int, max_chars as int, overlap_lines as int),
            base == old(out)@,
            0 <= k,
            windows(ls, start as int, last as int, max_lines as int, max_chars as int, overlap_lines as int) == ws.subrange(k, ws.len() as int),
            k <= ws.len(),
            out@.len() == base.len() + nonempty_windows(ls, ws.subrange(0, k)).len(),
            forall|i: int| 0 <= i < base.len() ==> out@[i] == base[i],
            forall|i: int| 0 <= i < nonempty_windows(ls, ws.subrange(0, k)).len() ==> is_window_chunk(
                #[trigger] out@[base.len() + i],
                nonempty_windows(ls, ws.subrange(0, k))[i],
                path@,
                lines@,
                kind,
                opt_string_view(*signature),
                string_views(context@),
            ),
        decreases last - start,
    {
        let cap: usize = if last - start < max_lines { last } else { start + max_lines - 1 };
        let mut end: usize = cap;
        let mut content = line_slice(lines, start, end);
        proof {
            lemma_fit_end_bounds(ls, start as int, cap as int, max_chars as int);
        }
        while end > start && content.as_str().unicode_len() > max_chars
            invariant
                1 <= start <= end <= cap <= last <= lines@.len(),
                ls == string_views(lines@),
                content@ == span_text(ls, start as int, end as int),
                fit_end(ls, start as int, cap as int, max_chars as int) == fit_end(ls, start as int, end as int, max_chars as int),
            decreases end,
        {
            end = end - 1;
            content = line_slice(lines, start, end);
        }
        proof {
            assert(fit_end(ls, start as int, end as int, max_chars as int) == end);
        }
        let ghost rest = windows(ls, start as int, last as int, max_lines as int, max_chars as int, overlap_lines as int);
        let ghost w = (start as int, end as int);
        let ghost pred = |x: (int, int)| span_text(ls, x.0, x.1).len() > 0;
        proof {
            assert(rest.len() > 0);
            assert(rest[0] == w);
            assert(ws[k] == rest[0]);
            assert(ws.subrange(0, k + 1) =~= ws.subrange(0, k).push(w));
            ws.subrange(0, k).lemma_filter_push(w, pred);
        }
        let ghost ne0 = nonempty_windows(ls, ws.subrange(0, k));
        let ghost o = out@;
        if content.as_str().unicode_len() > 0 {
            let sig = match signature {
                Some(x) => Some(x.clone()),
                None => None,
            };
            let c = Chunk {
                path: String::from_str(path),
                start_line: start,
                end_line: end,
                kind,
                content,
                signature: sig,
                context: copy_strings(context),
                string_literals: Vec::new(),
            };
            out.push(c);
            proof {
                assert(nonempty_windows(ls, ws.subrange(0, k + 1)) == ne0.push(w));
                assert(out@[(base.len() + ne0.len()) as int] == c);
                assert forall|i: int| 0 <= i < base.len() implies out@[i] == base[i] by {
                    assert(out@[i] == o[i]);
                }
                assert forall|i: int| 0 <= i < ne0.len() + 1 implies is_window_chunk(
                    #[trigger] out@[base.len() + i],
                    ne0.push(w)[i],
                    path@,
                    lines@,
                    kind,
                    opt_string_view(*signature),
                    string_views(context@),
                ) by {
                    if i < ne0.len() {
                        assert(out@[base.len() + i] == o[base.len() + i]);
                    }
                }
            }
        } else {
            proof {
                assert(nonempty_windows(ls, ws.subrange(0, k + 1)) == ne0);
            }
        }
        if end == last {
            proof {
                assert(rest.len() == 1);
                assert(k + 1 == ws.len());
                assert(ws.subrange(0, k + 1) =~= ws);
            }
            return;
        }
        let next: usize = if end - start + 1 > overlap_lines { end + 1 - overlap_lines } else { start + 1 };
        proof {
            let nx = windows(ls, next as int, last as int, max_lines as int, max_chars as int, overlap_lines as int);
            assert(rest == seq![(start as int, end as int)] + nx);
            assert(rest.subrange(1, rest.len() as int) =~= nx);
            assert(ws.subrange(k, ws.len() as int).subrange(1, rest.len() as int) =~= ws.subrange(k + 1, ws.len() as int));
            assert(nx =~= ws.subrange(k + 1, ws.len() as int));
            k = k + 1;
        }
        start = next;
    }
}

/// Line-window chunking of a whole file (the fallback when a file does
/// not parse): the windows of lines `1..=n`, as `Block` chunks.
pub fn line_window_chunks(path: &str, lines: &Vec<String>, max_lines: usize, max_chars: usize, overlap_lines: usize) -> (r: Vec<Chunk>)
    requires
        overlap_lines < max_lines,
        lines@.len() < usize::MAX,
    ensures
        r@.len() == chunk_windows(string_views(lines@), 1, lines@.len() as int, max_lines as int, max_chars as int, overlap_lines as int).len(),
        forall|i: int| 0 <= i < r@.len() ==> is_window_chunk(
            #[trigger] r@[i],
            chunk_windows(string_views(lines@), 1, lines@.len() as int, max_lines as int, max_chars as int, overlap_lines as int)[i],
            path@,
            lines@,
            ChunkKind::Block,
            None,
            Seq::empty(),
        ),
{
    let mut r: Vec<Chunk> = Vec::new();
    if lines.len() == 0 {
        return r;
    }
    let ctx: Vec<String> = Vec::new();
    push_windows(&mut r, path, lines, 1, lines.len(), max_lines, max_chars, overlap_lines, ChunkKind::Block, &None, &ctx);
    proof {
        assert(string_views(ctx@) =~= Seq::<Seq<char>>::empty());
        assert forall|i: int| 0 <= i < r@.len() implies is_window_chunk(
            #[trigger] r@[i],
            chunk_windows(string_views(lines@), 1, lines@.len() as int, max_lines as int, max_chars as int, overlap_lines as int)[i],
            path@,
            lines@,
            ChunkKind::Block,
            None,
            Seq::empty(),
        ) by {
            assert(r@[0 + i] == r@[i]);
        }
    }
    r
}

/// A definition found in a file: its line span, kind, signature and the
/// labels of the definitions around it.
pub struct Definition {
    pub start_line: usize,
    pub end_line: usize,
    pub kind: ChunkKind,
    pub signature: Option<String>,
    pub context: Vec<String>,
}

/// The chunk list the size policy gives for definitions `defs` of a file
/// of `n` lines: each definition split into windows, in order; a file
/// without definitions is one `Anchor` span.
pub open spec fn planned(defs: Seq<Definition>, ls: Seq<Seq<char>>, max_lines: int, max_chars: int, overlap_lines: int) -> Seq<(int, int, int)>
    decreases defs.len(),
{
    if defs.len() == 0 {
        Seq::empty()
    } else {
        let d = defs.last();
        planned(defs.drop_last(), ls, max_lines, max_chars, overlap_lines)
            + chunk_windows(ls, d.start_line as int, d.end_line as int, max_lines, max_chars, overlap_lines).map_values(
            |w: (int, int)| (w.0, w.1, defs.len() - 1),
        )
    }
}

/// Chunks of a file from its definitions: every definition becomes one
/// chunk, or several overlapping sub-chunks when it has more than
/// `max_lines` lines or `max_chars` characters, each with the
/// definition's kind, signature and
/// context; a file without definitions becomes `Anchor` chunks over all
/// its lines. Every chunk holds exactly its lines.
pub fn chunk_definitions(
    path: &str,
    lines: &Vec<String>,
    defs: &Vec<Definition>,
    max_lines: usize,
    max_chars: usize,
    overlap_lines: usize,
) -> (r: Vec<Chunk>)
    requires
        overlap_lines < max_lines,
        lines@.len() < usize::MAX,
        forall|i: int| 0 <= i < defs@.len() ==> 1 <= (#[trigger] defs@[i]).start_line <= defs@[i].end_line <= lines@.len(),
    ensures
        defs@.len() == 0 ==> r@.len() == chunk_windows(string_views(lines@), 1, lines@.len() as int, max_lines as int, max_chars as int, overlap_lines as int).len()
            && forall|i: int| 0 <= i < r@.len() ==> is_window_chunk(
                #[trigger] r@[i],
                chunk_windows(string_views(lines@), 1, lines@.len() as int, max_lines as int, max_chars as int, overlap_lines as int)[i],
                path@,
                lines@,
                ChunkKind::Anchor,
                None,
                Seq::empty(),
            ),
        defs@.len() > 0 ==> r@.len() == planned(defs@, string_views(lines@), max_lines as int, max_chars as int, overlap_lines as int).len()
            && forall|i: int| 0 <= i < r@.len() ==> ({
                let p = planned(defs@, string_views(lines@), max_lines as int, max_chars as int, overlap_lines as int)[i];
                let d = defs@[p.2];
                is_window_chunk(
                    #[trigger] r@[i],
                    (p.0, p.1),
                    path@,
                    lines@,
                    d.kind,
                    opt_string_view(d.signature),
                    string_views(d.context@),
                )
            }),
{
    let mut r: Vec<Chunk> = Vec::new();
    if defs.len() == 0 {
        if lines.len() > 0 {
            let ctx: Vec<String> = Vec::new();
            push_windows(&mut r, path, lines, 1, lines.len(), max_lines, max_chars, overlap_lines, ChunkKind::Anchor, &None, &ctx);
            proof {
                assert(string_views(ctx@) =~= Seq::<Seq<char>>::empty());
                assert forall|i: int| 0 <= i < r@.len() implies is_window_chunk(
                    #[trigger] r@[i],
                    chunk_windows(string_views(lines@), 1, lines@.len() as int, max_lines as int, max_chars as int, overlap_lines as int)[i],
                    path@,
                    lines@,
                    ChunkKind::Anchor,
                    None,
                    Seq::empty(),
                ) by {
                    assert(r@[0 + i] == r@[i]);
                }
            }
        }
        return r;
    }
    let ghost n = lines@.len() as int;
    let mut j: usize = 0;
    while j < defs.len()
        invariant
            overlap_lines < max_lines,
            lines@.len() < usize::MAX,
            n == lines@.len(),
            j <= defs@.len(),
            forall|i: int| 0 <= i < defs@.len() ==> 1 <= (#[trigger] defs@[i]).start_line <= defs@[i].end_line <= lines@.len(),
            r@.len() == planned(defs@.subrange(0, j as int), string_views(lines@), max_lines as int, max_chars as int, overlap_lines as int).len(),
            forall|i: int| 0 <= i < r@.len() ==> ({
                let p = planned(defs@.subrange(0, j as int), string_views(lines@), max_lines as int, max_chars as int, overlap_lines as int)[i];
                let d = defs@[p.2];
                is_window_chunk(
                    #[trigger] r@[i],
                    (p.0, p.1),
                    path@,
                    lines@,
                    d.kind,
                    opt_string_view(d.signature),
                    string_views(d.context@),
                )
            }),
        decreases defs@.len() - j,
    {
        let d = &defs[j];
        let ghost before = r@;
        let ghost pre = planned(defs@.subrange(0, j as int), string_views(lines@), max_lines as int, max_chars as int, overlap_lines as int);
        push_windows(&mut r, path, lines, d.start_line, d.end_line, max_lines, max_chars, overlap_lines, d.kind, &d.signature, &d.context);
        proof {
            let t = defs@.subrange(0, j + 1);
            assert(t.drop_last() =~= defs@.subrange(0, j as int));
            assert(t.last() == defs@[j as int]);
            let ws = chunk_windows(string_views(lines@), d.start_line as int, d.end_line as int, max_lines as int, max_chars as int, overlap_lines as int);
            let pl = planned(t, string_views(lines@), max_lines as int, max_chars as int, overlap_lines as int);
            assert(pl == pre + ws.map_values(|w: (int, int)| (w.0, w.1, t.len() - 1)));
            assert forall|i: int| 0 <= i < r@.len() implies ({
                let p = pl[i];
                let dd = defs@[p.2];
                is_window_chunk(
                    #[trigger] r@[i],
                    (p.0, p.1),
                    path@,
                    lines@,
                    dd.kind,
                    opt_string_view(dd.signature),
                    string_views(dd.context@),
                )
            }) by {
                if i < before.len() {
                    assert(r@[i] == before[i]);
                    assert(pl[i] == pre[i]);
                } else {
                    let q = i - before.len();
                    assert(r@[before.len() + q] == r@[i]);
                    assert(pl[i] == (ws[q].0, ws[q].1, j as int));
                }
            }
        }
        j = j + 1;
    }
    proof {
        assert(defs@.subrange(0, defs@.len() as int) =~= defs@);
    }
    r
}

} // verus!
