//! Writing a parsed document out and parsing the text again gives the same document.

use crate::block::{
    block_text, empty_block, has_key, keys_of, lemma_keys_of_push, line_texts, tags_text,
    with_comment, with_variable, BlockView,
};
use crate::document::{block_texts, document_text, has_block, names_of, valid_document};
use crate::error::ErrorView;
use crate::line::{line_text, LineView};
use crate::parser::{
    begins_comment, closes_block, initial_state, is_blank, line_number, opens_block, parsed, run,
    step, target, with_target, ParserView,
};
use crate::text::{
    after_first_line, first_line, index_of, is_space, join, lemma_index_of_bounds,
    lemma_index_of_is, lemma_trim_end_is, lemma_trim_start_is, lines_of, trim, trim_start,
};
use crate::validators::{
    is_block_name, is_variable_name, lemma_block_name_fault, lemma_variable_name_fault, rest_ok,
};
use crate::variable::VariableView;
use vstd::prelude::*;

verus! {

/// The text that holds these lines, each with a line feed after it.
pub open spec fn unlines(lines: Seq<Seq<char>>) -> Seq<char>
    decreases lines.len(),
{
    if lines.len() == 0 {
        Seq::<char>::empty()
    } else {
        lines[0] + seq!['\n'] + unlines(lines.drop_first())
    }
}

/// `s` holds no line feed.
pub open spec fn one_line(s: Seq<char>) -> bool {
    forall|i: int| 0 <= i < s.len() ==> s[i] != '\n'
}

/// `s` can be written as a line and read back: it holds no line feed and
/// does not end with a carriage return.
pub open spec fn clean(s: Seq<char>) -> bool {
    one_line(s) && (s.len() > 0 ==> s.last() != '\r')
}

/// Writing out two lists of lines one after the other is writing out both as one.
pub proof fn lemma_unlines_concat(xs: Seq<Seq<char>>, ys: Seq<Seq<char>>)
    ensures
        unlines(xs + ys) == unlines(xs) + unlines(ys),
    decreases xs.len(),
{
    if xs.len() == 0 {
        assert(xs + ys =~= ys);
        assert(unlines(xs) + unlines(ys) =~= unlines(ys));
    } else {
        assert((xs + ys).drop_first() =~= xs.drop_first() + ys);
        lemma_unlines_concat(xs.drop_first(), ys);
        assert(unlines(xs + ys) =~= unlines(xs) + unlines(ys));
    }
}

/// One line written out is the line and a line feed.
pub proof fn lemma_unlines_one(line: Seq<char>)
    ensures
        unlines(seq![line]) == line + seq!['\n'],
{
    assert(seq![line].drop_first() =~= Seq::<Seq<char>>::empty());
    assert(unlines(Seq::<Seq<char>>::empty()) =~= Seq::<char>::empty());
    assert(unlines(seq![line]) =~= line + seq!['\n']);
}

/// Clean lines that are written out one per line are read back as they were.
pub proof fn lemma_lines_of_unlines(lines: Seq<Seq<char>>)
    requires
        forall|i: int| 0 <= i < lines.len() ==> clean(#[trigger] lines[i]),
    ensures
        lines_of(unlines(lines)) == lines,
    decreases lines.len(),
{
    if lines.len() == 0 {
    } else {
        let head = lines[0];
        let rest = lines.drop_first();
        let text = unlines(lines);
        let k = head.len() as int;
        assert(clean(head));
        assert(text.len() > k);
        assert(text[k] == '\n');
        assert forall|j: int| 0 <= j < k implies text[j] != '\n' by {
            assert(text[j] == head[j]);
        }
        lemma_index_of_is(text, '\n', k);
        if k > 0 {
            assert(text[k - 1] == head.last());
        }
        assert(text.take(k) =~= head);
        assert(first_line(text) == head);
        assert(text.skip(k + 1) =~= unlines(rest));
        assert forall|i: int| 0 <= i < rest.len() implies clean(#[trigger] rest[i]) by {
            assert(rest[i] == lines[i + 1]);
        }
        lemma_lines_of_unlines(rest);
        assert(lines_of(text) =~= lines);
    }
}

/// Joining two non-empty lists is joining each and putting the separator between.
pub proof fn lemma_join_concat(xs: Seq<Seq<char>>, ys: Seq<Seq<char>>, sep: Seq<char>)
    requires
        xs.len() > 0,
        ys.len() > 0,
    ensures
        join(xs + ys, sep) == join(xs, sep) + sep + join(ys, sep),
    decreases ys.len(),
{
    let all = xs + ys;
    assert(all.last() == ys.last());
    if ys.len() == 1 {
        assert(all.drop_last() =~= xs);
        assert(join(ys, sep) == ys[0]);
    } else {
        assert(all.drop_last() =~= xs + ys.drop_last());
        lemma_join_concat(xs, ys.drop_last(), sep);
        assert(join(all, sep) =~= join(xs, sep) + sep + join(ys, sep));
    }
}

/// Joining non-empty lines with line feeds and ending with one is writing
/// each line with a line feed after it.
pub proof fn lemma_join_unlines(lines: Seq<Seq<char>>)
    requires
        lines.len() > 0,
    ensures
        join(lines, seq!['\n']) + seq!['\n'] == unlines(lines),
    decreases lines.len(),
{
    if lines.len() == 1 {
        assert(lines =~= seq![lines[0]]);
        lemma_unlines_one(lines[0]);
    } else {
        let front = lines.drop_last();
        lemma_join_unlines(front);
        lemma_unlines_one(lines.last());
        assert(lines =~= front + seq![lines.last()]);
        lemma_unlines_concat(front, seq![lines.last()]);
        assert(join(lines, seq!['\n']) + seq!['\n'] =~= unlines(front) + (lines.last() + seq![
            '\n',
        ]));
    }
}

/// The lines between the markers of a block: the texts of its lines, or
/// one empty line where it has none.
pub open spec fn body_lines(lines: Seq<LineView>) -> Seq<Seq<char>> {
    if lines.len() == 0 {
        seq![Seq::<char>::empty()]
    } else {
        line_texts(lines)
    }
}

/// The line that opens the block of this name.
pub open spec fn header(name: Seq<char>) -> Seq<char> {
    "#@"@ + " "@ + name
}

/// The lines of the text of a block without tags.
pub open spec fn block_lines(b: BlockView) -> Seq<Seq<char>> {
    if b.name == "default"@ {
        body_lines(b.lines)
    } else {
        seq![header(b.name)] + body_lines(b.lines) + seq!["##"@]
    }
}

/// The lines of the text of a document whose blocks have no tags: those of
/// its blocks with an empty line between each two blocks.
pub open spec fn doc_lines(d: Seq<BlockView>) -> Seq<Seq<char>>
    decreases d.len(),
{
    if d.len() == 0 {
        Seq::<Seq<char>>::empty()
    } else if d.len() == 1 {
        block_lines(d[0])
    } else {
        doc_lines(d.drop_last()) + seq![Seq::<char>::empty()] + block_lines(d.last())
    }
}

/// The texts of the separators, character by character.
proof fn lemma_line_feed()
    ensures
        "\n"@ == seq!['\n'],
        "\n\n"@ == seq!['\n'] + seq!['\n'],
{
    reveal_strlit("\n");
    reveal_strlit("\n\n");
    assert("\n"@ =~= seq!['\n']);
    assert("\n\n"@ =~= seq!['\n'] + seq!['\n']);
}

/// The text of a block without tags is its lines joined by line feeds.
pub proof fn lemma_block_text(b: BlockView)
    requires
        b.tags.len() == 0,
    ensures
        block_text(b) == join(block_lines(b), seq!['\n']),
        block_lines(b).len() > 0,
{
    lemma_line_feed();
    let nl = seq!['\n'];
    let body = body_lines(b.lines);
    assert(join(line_texts(b.lines), nl) == join(body, nl)) by {
        if b.lines.len() == 0 {
            assert(line_texts(b.lines).len() == 0);
            assert(join(body, nl) == body[0]);
        }
    }
    if b.name != "default"@ {
        let head = seq![header(b.name)];
        let foot = seq!["##"@];
        assert(join(head, nl) == header(b.name));
        assert(join(foot, nl) == "##"@);
        lemma_join_concat(head, body, nl);
        lemma_join_concat(head + body, foot, nl);
        assert(tags_text(b.tags) =~= Seq::<char>::empty());
        assert(block_text(b) =~= join(head + body + foot, nl));
    }
}

/// The text of a document whose blocks have no tags is its lines, each with
/// a line feed after it.
pub proof fn lemma_document_text(d: Seq<BlockView>)
    requires
        d.len() > 0,
        forall|i: int| 0 <= i < d.len() ==> (#[trigger] d[i]).tags.len() == 0,
    ensures
        document_text(d) == unlines(doc_lines(d)),
        doc_lines(d).len() > 0,
        join(block_texts(d), "\n\n"@) == join(doc_lines(d), seq!['\n']),
    decreases d.len(),
{
    lemma_line_feed();
    let nl = seq!['\n'];
    if d.len() == 1 {
        lemma_block_text(d[0]);
        assert(join(block_texts(d), "\n\n"@) == block_texts(d)[0]);
        lemma_join_unlines(block_lines(d[0]));
    } else {
        let front = d.drop_last();
        let last = d.last();
        lemma_document_text(front);
        lemma_block_text(last);
        assert(block_texts(d).drop_last() =~= block_texts(front));
        assert(block_texts(d).last() == block_text(last));
        let gap = seq![Seq::<char>::empty()];
        assert(join(gap, nl) == gap[0]);
        lemma_join_concat(doc_lines(front), gap, nl);
        lemma_join_concat(doc_lines(front) + gap, block_lines(last), nl);
        assert(join(block_texts(d), "\n\n"@) =~= join(doc_lines(d), nl));
        lemma_join_unlines(doc_lines(d));
    }
}

/// A line as the parser makes it: a comment holds no line feed and begins
/// with no white space; a variable has a well-formed key and a value without
/// a line feed.
pub open spec fn plain_line(l: LineView) -> bool {
    match l {
        LineView::Comment(t) => one_line(t) && (t.len() > 0 ==> !is_space(t[0])),
        LineView::Variable(v) => is_variable_name(v.key) && one_line(v.value),
    }
}

/// A block as the parser makes it: it has no tags, its lines are plain, and
/// no two of its variables have the same key.
pub open spec fn plain_block(b: BlockView) -> bool {
    &&& b.tags.len() == 0
    &&& forall|j: int| 0 <= j < b.lines.len() ==> plain_line(#[trigger] b.lines[j])
    &&& keys_of(b.lines).no_duplicates()
}

/// A document as the parser makes it: it is valid, its blocks are plain,
/// and the blocks after the first have well-formed names.
pub open spec fn plain_document(d: Seq<BlockView>) -> bool {
    &&& valid_document(d)
    &&& forall|i: int| 0 <= i < d.len() ==> plain_block(#[trigger] d[i])
    &&& forall|i: int| 1 <= i < d.len() ==> is_block_name((#[trigger] d[i]).name)
    &&& forall|i: int| 1 <= i < d.len() ==> (#[trigger] d[i]).name != "default"@
}

/// A character of a name is neither a marker nor white space.
proof fn lemma_name_chars(c: char, lower_only: bool)
    requires
        rest_ok(c, lower_only),
    ensures
        c != '\n',
        c != '\r',
        c != '=',
        c != '#',
        c != ' ',
        !is_space(c),
{
}

/// A comment line of the text is read as that comment.
pub proof fn lemma_step_comment(st: ParserView, t: Seq<char>, n: u16)
    requires
        t.len() > 0 ==> !is_space(t[0]),
    ensures
        step(st, line_text(LineView::Comment(t)), n) == Ok::<ParserView, ErrorView>(
            with_target(st, with_comment(target(st), t)),
        ),
{
    reveal_strlit("# ");
    let line = "# "@ + t;
    assert(line[0] == '#' && line[1] == ' ');
    let after = line.skip(1);
    assert(after[0] == ' ');
    if t.len() > 0 {
        assert(after[1] == t[0]);
    }
    lemma_trim_start_is(after, 1);
    assert(after.skip(1) =~= t);
}

/// A variable line of the text is read as that variable.
pub proof fn lemma_step_variable(st: ParserView, v: VariableView, n: u16)
    requires
        is_variable_name(v.key),
        !has_key(target(st).lines, v.key),
    ensures
        step(st, line_text(LineView::Variable(v)), n) == Ok::<ParserView, ErrorView>(
            with_target(st, with_variable(target(st), v)),
        ),
{
    reveal_strlit("=");
    let line = v.key + "="@ + v.value;
    let k = v.key.len() as int;
    assert(line[0] == v.key[0]);
    lemma_name_chars(v.key[0], false);
    lemma_trim_start_is(line, 0);
    assert(line.skip(0) =~= line);
    assert(line[k] == '=');
    assert forall|j: int| 0 <= j < k implies line[j] != '=' by {
        assert(line[j] == v.key[j]);
        lemma_name_chars(v.key[j], false);
    }
    lemma_index_of_is(line, '=', k);
    assert(line.take(k) =~= v.key);
    assert(line.skip(k + 1) =~= v.value);
    lemma_variable_name_fault(n, v.key);
}

/// The line that opens a block is read as opening it.
pub proof fn lemma_step_header(st: ParserView, name: Seq<char>, n: u16)
    requires
        st.current is None,
        is_block_name(name),
        name != "default"@,
    ensures
        step(st, header(name), n) == Ok::<ParserView, ErrorView>(
            ParserView { document: st.document, current: Some(empty_block(name)) },
        ),
{
    reveal_strlit("#@");
    reveal_strlit(" ");
    let line = header(name);
    assert(line[0] == '#' && line[1] == '@');
    assert(line.skip(2) =~= seq![' '] + name);
    lemma_trim_padded(name);
    lemma_block_name_fault(n, name);
}

/// A block name after a space is what trimming leaves of the two.
proof fn lemma_trim_padded(name: Seq<char>)
    requires
        is_block_name(name),
    ensures
        trim(seq![' '] + name) == name,
{
    let after = seq![' '] + name;
    assert(after[0] == ' ');
    assert(after[1] == name[0]);
    lemma_name_chars(name[0], true);
    lemma_trim_start_is(after, 1);
    assert(after.skip(1) =~= name);
    lemma_name_chars(name.last(), true);
    lemma_trim_end_is(name, name.len() as int);
    assert(name.take(name.len() as int) =~= name);
}

/// The line that closes a block is read as closing the open block.
pub proof fn lemma_step_footer(st: ParserView, n: u16)
    requires
        st.current is Some,
        !has_block(st.document, st.current->0.name),
    ensures
        step(st, "##"@, n) == Ok::<ParserView, ErrorView>(
            ParserView { document: st.document.push(st.current->0), current: None },
        ),
{
    reveal_strlit("##");
}

/// An empty line changes nothing.
pub proof fn lemma_step_gap(st: ParserView, n: u16)
    ensures
        step(st, Seq::<char>::empty(), n) == Ok::<ParserView, ErrorView>(st),
{
}

/// Reading two lists of lines one after the other is reading them as one.
pub proof fn lemma_run_concat(st: ParserView, xs: Seq<Seq<char>>, ys: Seq<Seq<char>>, i: nat)
    ensures
        run(st, xs + ys, i) == match run(st, xs, i) {
            Err(e) => Err::<ParserView, ErrorView>(e),
            Ok(mid) => run(mid, ys, i + xs.len()),
        },
    decreases xs.len(),
{
    if xs.len() == 0 {
        assert(xs + ys =~= ys);
    } else {
        assert((xs + ys)[0] == xs[0]);
        assert((xs + ys).drop_first() =~= xs.drop_first() + ys);
        match step(st, xs[0], line_number(i)) {
            Err(e) => {},
            Ok(next) => {
                lemma_run_concat(next, xs.drop_first(), ys, i + 1);
            },
        }
    }
}

/// Reading one line is taking one step.
pub proof fn lemma_run_one(st: ParserView, line: Seq<char>, i: nat)
    ensures
        run(st, seq![line], i) == step(st, line, line_number(i)),
{
    assert(seq![line].drop_first() =~= Seq::<Seq<char>>::empty());
    match step(st, line, line_number(i)) {
        Err(e) => {},
        Ok(next) => {
            assert(run(next, Seq::<Seq<char>>::empty(), i + 1) == Ok::<ParserView, ErrorView>(
                next,
            ));
        },
    }
}

/// The keys of two lists of lines are those of the first, then those of the second.
pub proof fn lemma_keys_concat(a: Seq<LineView>, b: Seq<LineView>)
    ensures
        keys_of(a + b) == keys_of(a) + keys_of(b),
    decreases b.len(),
{
    if b.len() == 0 {
        assert(a + b =~= a);
        assert(keys_of(a) + keys_of(b) =~= keys_of(a));
    } else {
        assert((a + b).drop_last() =~= a + b.drop_last());
        assert((a + b).last() == b.last());
        lemma_keys_concat(a, b.drop_last());
        assert(keys_of(a + b) =~= keys_of(a) + keys_of(b));
    }
}

/// `b` with `more` after its lines.
pub open spec fn with_lines(b: BlockView, more: Seq<LineView>) -> BlockView {
    BlockView { name: b.name, tags: b.tags, lines: b.lines + more }
}

/// Putting the target block back as it is changes nothing.
proof fn lemma_with_target_same(st: ParserView)
    requires
        st.current is None ==> st.document.len() > 0,
    ensures
        with_target(st, with_lines(target(st), Seq::<LineView>::empty())) == st,
{
    let b = target(st);
    assert(b.lines + Seq::<LineView>::empty() =~= b.lines);
    if st.current is None {
        assert(st.document.update(0, b) =~= st.document);
    }
}

/// The texts of plain lines whose keys the target block does not hold yet
/// are read as those lines, added to the target block.
pub proof fn lemma_run_lines(st: ParserView, more: Seq<LineView>, i: nat)
    requires
        st.current is None ==> st.document.len() > 0,
        forall|j: int| 0 <= j < more.len() ==> plain_line(#[trigger] more[j]),
        keys_of(target(st).lines + more).no_duplicates(),
    ensures
        run(st, line_texts(more), i) == Ok::<ParserView, ErrorView>(
            with_target(st, with_lines(target(st), more)),
        ),
    decreases more.len(),
{
    let b = target(st);
    if more.len() == 0 {
        lemma_with_target_same(st);
        assert(more =~= Seq::<LineView>::empty());
    } else {
        let first = more[0];
        let rest = more.drop_first();
        let n = line_number(i);
        assert(plain_line(first));
        assert(line_texts(more)[0] == line_text(first));
        assert(line_texts(more).drop_first() =~= line_texts(rest));
        assert(b.lines.push(first) + rest =~= b.lines + more);
        lemma_keys_concat(b.lines.push(first), rest);
        lemma_keys_of_push(b.lines, first);
        let grown = BlockView { name: b.name, tags: b.tags, lines: b.lines.push(first) };
        match first {
            LineView::Comment(t) => {
                lemma_step_comment(st, t, n);
            },
            LineView::Variable(v) => {
                let keys = keys_of(b.lines);
                let all = keys_of(b.lines + more);
                if keys.contains(v.key) {
                    let at = choose|at: int| 0 <= at < keys.len() && keys[at] == v.key;
                    assert(all[at] == v.key);
                    assert(all[keys.len() as int] == v.key);
                }
                lemma_step_variable(st, v, n);
            },
        }
        let next = with_target(st, grown);
        assert(step(st, line_text(first), n) == Ok::<ParserView, ErrorView>(next));
        assert(target(next) == grown);
        assert forall|j: int| 0 <= j < rest.len() implies plain_line(#[trigger] rest[j]) by {
            assert(rest[j] == more[j + 1]);
        }
        lemma_run_lines(next, rest, i + 1);
        assert(with_lines(grown, rest) == with_lines(b, more));
        if st.current is None {
            assert(st.document.update(0, grown).update(0, with_lines(b, more))
                =~= st.document.update(0, with_lines(b, more)));
        }
    }
}

/// The lines between the markers of a block are read as the block's lines.
pub proof fn lemma_run_body(st: ParserView, more: Seq<LineView>, i: nat)
    requires
        st.current is None ==> st.document.len() > 0,
        forall|j: int| 0 <= j < more.len() ==> plain_line(#[trigger] more[j]),
        keys_of(target(st).lines + more).no_duplicates(),
    ensures
        run(st, body_lines(more), i) == Ok::<ParserView, ErrorView>(
            with_target(st, with_lines(target(st), more)),
        ),
{
    if more.len() == 0 {
        lemma_run_one(st, Seq::<char>::empty(), i);
        lemma_step_gap(st, line_number(i));
        lemma_with_target_same(st);
        assert(more =~= Seq::<LineView>::empty());
    } else {
        lemma_run_lines(st, more, i);
    }
}

/// The lines of a plain named block, after an empty line, are read as that
/// block, added to the document.
pub proof fn lemma_run_block(st: ParserView, b: BlockView, i: nat)
    requires
        st.current is None,
        plain_block(b),
        is_block_name(b.name),
        b.name != "default"@,
        !has_block(st.document, b.name),
    ensures
        run(st, seq![Seq::<char>::empty()] + block_lines(b), i) == Ok::<ParserView, ErrorView>(
            ParserView { document: st.document.push(b), current: None },
        ),
{
    let gap = seq![Seq::<char>::empty()];
    let head = seq![header(b.name)];
    let body = body_lines(b.lines);
    let foot = seq!["##"@];
    let opened = ParserView { document: st.document, current: Some(empty_block(b.name)) };
    let filled = ParserView { document: st.document, current: Some(b) };
    lemma_run_one(st, Seq::<char>::empty(), i);
    lemma_step_gap(st, line_number(i));
    lemma_run_one(st, header(b.name), i + 1);
    lemma_step_header(st, b.name, line_number(i + 1));
    assert(empty_block(b.name).lines + b.lines =~= b.lines);
    lemma_run_body(opened, b.lines, i + 2);
    assert(b.tags =~= Seq::<Seq<char>>::empty());
    assert(with_lines(empty_block(b.name), b.lines) == b);
    assert(with_target(opened, b) == filled);
    lemma_run_one(filled, "##"@, i + 2 + body.len());
    lemma_step_footer(filled, line_number(i + 2 + body.len()));
    lemma_run_concat(opened, body, foot, i + 2);
    lemma_run_concat(st, head, body + foot, i + 1);
    lemma_run_concat(st, gap, head + (body + foot), i);
    assert(gap + block_lines(b) =~= gap + (head + (body + foot)));
}

/// The lines of a plain document are read as that document.
pub proof fn lemma_run_document(d: Seq<BlockView>)
    requires
        plain_document(d),
    ensures
        run(initial_state(), doc_lines(d), 0) == Ok::<ParserView, ErrorView>(
            ParserView { document: d, current: None },
        ),
    decreases d.len(),
{
    let start = initial_state();
    if d.len() == 1 {
        let b = d[0];
        assert(plain_block(b));
        assert(empty_block("default"@).lines + b.lines =~= b.lines);
        lemma_run_body(start, b.lines, 0);
        assert(b.tags =~= Seq::<Seq<char>>::empty());
        assert(with_lines(target(start), b.lines) == b);
        assert(start.document.update(0, b) =~= d);
    } else {
        let front = d.drop_last();
        let last = d.last();
        assert forall|i: int| 0 <= i < front.len() implies keys_of(
            #[trigger] front[i].lines,
        ).no_duplicates() by {
            assert(front[i] == d[i]);
        }
        assert forall|a: int, b: int|
            0 <= a < front.len() && 0 <= b < front.len() && a != b implies names_of(front)[a]
            != names_of(front)[b] by {
            assert(names_of(front)[a] == names_of(d)[a]);
            assert(names_of(front)[b] == names_of(d)[b]);
        }
        assert(front[0] == d[0]);
        assert forall|i: int| 0 <= i < front.len() implies plain_block(#[trigger] front[i]) by {
            assert(front[i] == d[i]);
        }
        assert forall|i: int| 1 <= i < front.len() implies is_block_name(
            (#[trigger] front[i]).name,
        ) by {
            assert(front[i] == d[i]);
        }
        assert forall|i: int| 1 <= i < front.len() implies (#[trigger] front[i]).name
            != "default"@ by {
            assert(front[i] == d[i]);
        }
        lemma_run_document(front);
        let mid = ParserView { document: front, current: None };
        if has_block(front, last.name) {
            let at = choose|at: int| 0 <= at < front.len() && names_of(front)[at] == last.name;
            assert(names_of(d)[at] == last.name);
            assert(names_of(d)[d.len() - 1] == last.name);
        }
        assert(plain_block(last));
        lemma_run_block(mid, last, doc_lines(front).len());
        lemma_run_concat(
            start,
            doc_lines(front),
            seq![Seq::<char>::empty()] + block_lines(last),
            0,
        );
        assert(doc_lines(d) =~= doc_lines(front) + (seq![Seq::<char>::empty()] + block_lines(
            last,
        )));
        assert(front.push(last) =~= d);
    }
}

/// The parser's state is as the parser makes it.
pub open spec fn plain_state(st: ParserView) -> bool {
    &&& plain_document(st.document)
    &&& match st.current {
        Some(b) => plain_block(b) && is_block_name(b.name) && b.name != "default"@,
        None => true,
    }
}

/// What is left of a text without its leading white space is the end of
/// the text, and begins with no white space.
pub proof fn lemma_trim_start_suffix(s: Seq<char>)
    ensures
        trim_start(s).len() <= s.len(),
        trim_start(s) == s.skip(s.len() - trim_start(s).len()),
        trim_start(s).len() > 0 ==> !is_space(trim_start(s)[0]),
    decreases s.len(),
{
    if s.len() > 0 && is_space(s[0]) {
        let t = s.drop_first();
        lemma_trim_start_suffix(t);
        assert(t.skip(t.len() - trim_start(t).len()) =~= s.skip(s.len() - trim_start(t).len()));
    } else {
        assert(s.skip(0) =~= s);
    }
}

/// The lines of a text hold no line feed.
pub proof fn lemma_lines_one_line(text: Seq<char>)
    ensures
        forall|j: int| 0 <= j < lines_of(text).len() ==> one_line(#[trigger] lines_of(text)[j]),
    decreases text.len(),
{
    if text.len() > 0 {
        lemma_index_of_bounds(text, '\n');
        let first = first_line(text);
        assert(one_line(first));
        let rest = lines_of(after_first_line(text));
        lemma_lines_one_line(after_first_line(text));
        assert forall|j: int| 0 <= j < lines_of(text).len() implies one_line(
            #[trigger] lines_of(text)[j],
        ) by {
            if j > 0 {
                assert(lines_of(text)[j] == rest[j - 1]);
            }
        }
    }
}

/// A plain block in place of the target block of the same name leaves the state plain.
proof fn lemma_target_plain(st: ParserView, b: BlockView)
    requires
        plain_state(st),
        plain_block(b),
        b.name == target(st).name,
    ensures
        plain_state(with_target(st, b)),
{
    if st.current is None {
        let d = st.document;
        let after = d.update(0, b);
        assert(names_of(after) =~= names_of(d));
        assert forall|i: int| 0 <= i < after.len() implies keys_of(
            #[trigger] after[i].lines,
        ).no_duplicates() by {
            if i > 0 {
                assert(after[i] == d[i]);
            }
        }
        assert forall|i: int| 0 <= i < after.len() implies plain_block(#[trigger] after[i]) by {
            if i > 0 {
                assert(after[i] == d[i]);
            }
        }
        assert forall|i: int| 1 <= i < after.len() implies is_block_name(
            (#[trigger] after[i]).name,
        ) by {
            assert(after[i] == d[i]);
        }
        assert forall|i: int| 1 <= i < after.len() implies (#[trigger] after[i]).name
            != "default"@ by {
            assert(after[i] == d[i]);
        }
    }
}

/// The target block of a plain state is plain.
proof fn lemma_target_is_plain(st: ParserView)
    requires
        plain_state(st),
    ensures
        plain_block(target(st)),
{
    if st.current is None {
        assert(plain_block(st.document[0]));
    }
}

/// A plain block stays plain with one more plain line whose key it does not hold.
proof fn lemma_pushed_plain(b: BlockView, l: LineView)
    requires
        plain_block(b),
        plain_line(l),
        l matches LineView::Variable(v) ==> !has_key(b.lines, v.key),
    ensures
        plain_block(BlockView { name: b.name, tags: b.tags, lines: b.lines.push(l) }),
{
    let lines = b.lines.push(l);
    lemma_keys_of_push(b.lines, l);
    assert forall|j: int| 0 <= j < lines.len() implies plain_line(#[trigger] lines[j]) by {
        if j < b.lines.len() {
            assert(lines[j] == b.lines[j]);
        }
    }
}

/// A plain document stays plain with one more plain block of a new, well-formed name.
proof fn lemma_closed_plain(d: Seq<BlockView>, b: BlockView)
    requires
        plain_document(d),
        plain_block(b),
        is_block_name(b.name),
        b.name != "default"@,
        !has_block(d, b.name),
    ensures
        plain_document(d.push(b)),
{
    let after = d.push(b);
    assert(names_of(after) =~= names_of(d).push(b.name));
    assert forall|i: int| 0 <= i < after.len() implies keys_of(
        #[trigger] after[i].lines,
    ).no_duplicates() by {
        if i < d.len() {
            assert(after[i] == d[i]);
        }
    }
    assert forall|i: int| 0 <= i < after.len() implies plain_block(#[trigger] after[i]) by {
        if i < d.len() {
            assert(after[i] == d[i]);
        }
    }
    assert forall|i: int| 1 <= i < after.len() implies is_block_name(
        (#[trigger] after[i]).name,
    ) by {
        if i < d.len() {
            assert(after[i] == d[i]);
        }
    }
    assert forall|i: int| 1 <= i < after.len() implies (#[trigger] after[i]).name
        != "default"@ by {
        if i < d.len() {
            assert(after[i] == d[i]);
        }
    }
}

/// A line that is taken leaves the state as the parser makes it.
pub proof fn lemma_step_plain(st: ParserView, line: Seq<char>, n: u16)
    requires
        plain_state(st),
        one_line(line),
        step(st, line, n) is Ok,
    ensures
        plain_state(step(st, line, n)->Ok_0),
{
    lemma_target_is_plain(st);
    let b = target(st);
    if opens_block(line) {
        let name = trim(line.skip(2));
        lemma_block_name_fault(n, name);
        assert(keys_of(empty_block(name).lines) =~= Seq::<Seq<char>>::empty());
    } else if closes_block(line) {
        lemma_closed_plain(st.document, st.current->0);
    } else if begins_comment(line) {
        let after = line.skip(1);
        let t = trim_start(after);
        lemma_trim_start_suffix(after);
        assert forall|i: int| 0 <= i < t.len() implies t[i] != '\n' by {
            assert(t[i] == line[i + 1 + (after.len() - t.len())]);
        }
        lemma_pushed_plain(b, LineView::Comment(t));
        lemma_target_plain(st, with_comment(b, t));
    } else if is_blank(line) {
    } else {
        let k = index_of(line, '=') as int;
        let v = VariableView { key: line.take(k), value: line.skip(k + 1) };
        lemma_variable_name_fault(n, v.key);
        assert forall|i: int| 0 <= i < v.value.len() implies v.value[i] != '\n' by {
            assert(v.value[i] == line[i + k + 1]);
        }
        lemma_pushed_plain(b, LineView::Variable(v));
        lemma_target_plain(st, with_variable(b, v));
    }
}

/// Lines that are taken leave the state as the parser makes it.
pub proof fn lemma_run_plain(st: ParserView, lines: Seq<Seq<char>>, i: nat)
    requires
        plain_state(st),
        forall|j: int| 0 <= j < lines.len() ==> one_line(#[trigger] lines[j]),
        run(st, lines, i) is Ok,
    ensures
        plain_state(run(st, lines, i)->Ok_0),
    decreases lines.len(),
{
    if lines.len() > 0 {
        let n = line_number(i);
        assert(one_line(lines[0]));
        lemma_step_plain(st, lines[0], n);
        let next = step(st, lines[0], n)->Ok_0;
        let rest = lines.drop_first();
        assert forall|j: int| 0 <= j < rest.len() implies one_line(#[trigger] rest[j]) by {
            assert(rest[j] == lines[j + 1]);
        }
        lemma_run_plain(next, rest, i + 1);
    }
}

/// What stands after a comment's marker, and a variable's value, does not
/// end with a carriage return.
pub open spec fn keeps_end(l: LineView) -> bool {
    match l {
        LineView::Comment(t) => t.len() > 0 ==> t.last() != '\r',
        LineView::Variable(v) => v.value.len() > 0 ==> v.value.last() != '\r',
    }
}

/// No line of the document ends with a carriage return.
pub open spec fn keeps_line_ends(d: Seq<BlockView>) -> bool {
    forall|i: int, j: int|
        0 <= i < d.len() && 0 <= j < d[i].lines.len() ==> keeps_end(#[trigger] d[i].lines[j])
}

/// The text of a plain line that keeps its end is clean.
proof fn lemma_line_clean(l: LineView)
    requires
        plain_line(l),
        keeps_end(l),
    ensures
        clean(line_text(l)),
{
    match l {
        LineView::Comment(t) => {
            reveal_strlit("# ");
            let text = "# "@ + t;
            assert forall|i: int| 0 <= i < text.len() implies text[i] != '\n' by {
                if i >= 2 {
                    assert(text[i] == t[i - 2]);
                }
            }
            if t.len() > 0 {
                assert(text.last() == t.last());
            } else {
                assert(text.last() == ' ');
            }
        },
        LineView::Variable(v) => {
            reveal_strlit("=");
            let text = v.key + "="@ + v.value;
            let k = v.key.len() as int;
            assert forall|i: int| 0 <= i < text.len() implies text[i] != '\n' by {
                if i < k {
                    assert(text[i] == v.key[i]);
                    lemma_name_chars(v.key[i], false);
                } else if i > k {
                    assert(text[i] == v.value[i - k - 1]);
                }
            }
            if v.value.len() > 0 {
                assert(text.last() == v.value.last());
            } else {
                assert(text.last() == '=');
            }
        },
    }
}

/// The lines of a plain block whose lines keep their ends are clean.
proof fn lemma_block_lines_clean(b: BlockView)
    requires
        plain_block(b),
        b.name != "default"@ ==> is_block_name(b.name),
        forall|j: int| 0 <= j < b.lines.len() ==> keeps_end(#[trigger] b.lines[j]),
    ensures
        forall|j: int| 0 <= j < block_lines(b).len() ==> clean(#[trigger] block_lines(b)[j]),
{
    let body = body_lines(b.lines);
    assert forall|j: int| 0 <= j < body.len() implies clean(#[trigger] body[j]) by {
        if b.lines.len() > 0 {
            assert(plain_line(b.lines[j]));
            assert(keeps_end(b.lines[j]));
            lemma_line_clean(b.lines[j]);
        }
    }
    if b.name != "default"@ {
        reveal_strlit("#@");
        reveal_strlit(" ");
        reveal_strlit("##");
        let head = header(b.name);
        assert forall|i: int| 0 <= i < head.len() implies head[i] != '\n' by {
            if i >= 3 {
                assert(head[i] == b.name[i - 3]);
                lemma_name_chars(b.name[i - 3], true);
            }
        }
        assert(head.last() == b.name.last());
        lemma_name_chars(b.name.last(), true);
        assert(clean(head));
        assert(clean("##"@));
        let all = block_lines(b);
        assert forall|j: int| 0 <= j < all.len() implies clean(#[trigger] all[j]) by {
            if 1 <= j && j < all.len() - 1 {
                assert(all[j] == body[j - 1]);
            }
        }
    }
}

/// The lines of a plain document whose lines keep their ends are clean.
proof fn lemma_doc_lines_clean(d: Seq<BlockView>)
    requires
        plain_document(d),
        keeps_line_ends(d),
    ensures
        forall|j: int| 0 <= j < doc_lines(d).len() ==> clean(#[trigger] doc_lines(d)[j]),
    decreases d.len(),
{
    let last = d.last();
    assert(plain_block(last));
    if d.len() > 1 {
        assert(is_block_name(last.name));
    }
    assert forall|j: int| 0 <= j < last.lines.len() implies keeps_end(#[trigger] last.lines[j]) by {
        assert(keeps_end(d[d.len() - 1].lines[j]));
    }
    lemma_block_lines_clean(last);
    if d.len() > 1 {
        let front = d.drop_last();
        assert forall|i: int| 0 <= i < front.len() implies #[trigger] front[i] == d[i] by {}
        assert(names_of(front) =~= names_of(d).drop_last());
        assert(plain_document(front));
        lemma_doc_lines_clean(front);
        let a = doc_lines(front);
        let all = doc_lines(d);
        assert forall|j: int| 0 <= j < all.len() implies clean(#[trigger] all[j]) by {
            if j < a.len() {
                assert(all[j] == a[j]);
            } else if j > a.len() {
                assert(all[j] == block_lines(last)[j - a.len() - 1]);
            }
        }
    }
}

/// A plain document whose lines do not end with a carriage return is
/// parsed from its own text.
pub proof fn law_plain_document_round_trips(d: Seq<BlockView>)
    requires
        plain_document(d),
        keeps_line_ends(d),
    ensures
        parsed(document_text(d)) == Ok::<Seq<BlockView>, ErrorView>(d),
{
    assert forall|i: int| 0 <= i < d.len() implies (#[trigger] d[i]).tags.len() == 0 by {
        assert(plain_block(d[i]));
    }
    lemma_document_text(d);
    lemma_doc_lines_clean(d);
    lemma_lines_of_unlines(doc_lines(d));
    lemma_run_document(d);
    assert(unlines(doc_lines(d)).len() > 0);
}

/// The initial state is as the parser makes it.
proof fn lemma_initial_plain()
    ensures
        plain_state(initial_state()),
{
    let d = initial_state().document;
    assert(keys_of(d[0].lines) =~= Seq::<Seq<char>>::empty());
}

/// Every document that is parsed from a text is plain.
pub proof fn law_parsed_is_plain(text: Seq<char>)
    requires
        parsed(text) is Ok,
    ensures
        plain_document(parsed(text)->Ok_0),
{
    lemma_initial_plain();
    lemma_lines_one_line(text);
    lemma_run_plain(initial_state(), lines_of(text), 0);
}

/// Parsing the text of a parsed document gives that document again: the
/// same blocks with the same lines in the same order. This holds of every
/// text that is parsed to a document none of whose comments and values ends
/// with a carriage return.
pub proof fn law_round_trip(text: Seq<char>)
    requires
        parsed(text) is Ok,
        keeps_line_ends(parsed(text)->Ok_0),
    ensures
        parsed(document_text(parsed(text)->Ok_0)) == parsed(text),
{
    law_parsed_is_plain(text);
    law_plain_document_round_trips(parsed(text)->Ok_0);
}

} // verus!
