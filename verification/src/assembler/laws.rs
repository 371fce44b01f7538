//! What holds of the assembler: where the words of a token lie in the image, and
//! what a label resolves to.

use vstd::prelude::*;
use super::assembly_steps::{
    spec_image, spec_join, spec_laid_out, spec_line, spec_lines, spec_next_offset,
    spec_remove_comments, spec_resolve_from, spec_resolve_labels, spec_resolve_slot,
    spec_place, spec_resolve_token, spec_strip, spec_symbols, spec_symbols_from,
    spec_tokenize, spec_tokenize_from, LexState,
};
use super::grammar::{
    lemma_find, lemma_skip_spaces, lemma_trim_end, spec_find, spec_skip_spaces, spec_trim_end,
    spec_words,
};
use super::line::{spec_parse_line, LineView};
use super::types::{ArgumentView, AssemblyErrorView, TokenView};

verus! {

/// A token has as many words as its size says.
pub proof fn lemma_words_have_size(t: TokenView)
    ensures
        t.spec_as_words().len() == t.spec_size(),
{
}

/// The image of tokens that are laid out is as long as the offset behind the last
/// token says, and so is the image of the tokens before any of them.
pub proof fn lemma_image_length(tokens: Seq<TokenView>)
    requires
        spec_laid_out(tokens),
    ensures
        spec_image(tokens).len() == spec_next_offset(tokens),
    decreases tokens.len(),
{
    if tokens.len() > 0 {
        let front = tokens.drop_last();
        lemma_front_is_laid_out(tokens, tokens.len() - 1);
        assert(tokens.take(tokens.len() - 1) =~= front);
        lemma_image_length(front);
        lemma_words_have_size(tokens.last());
    }
}

/// The tokens before any token of tokens that are laid out are laid out.
pub proof fn lemma_front_is_laid_out(tokens: Seq<TokenView>, n: int)
    requires
        spec_laid_out(tokens),
        0 <= n <= tokens.len(),
    ensures
        spec_laid_out(tokens.take(n)),
{
    let front = tokens.take(n);
    assert forall|k: int| 0 <= k < front.len() implies (#[trigger] front[k]).offset
        == spec_next_offset(front.take(k)) by {
        assert(front[k] == tokens[k]);
        assert(front.take(k) =~= tokens.take(k));
    }
}

/// Tokens are laid out so that the image holds the words of each token at the
/// offset of the token.
pub proof fn lemma_image_layout(tokens: Seq<TokenView>, k: int)
    requires
        spec_laid_out(tokens),
        0 <= k < tokens.len(),
    ensures
        tokens[k].offset + tokens[k].spec_size() <= spec_image(tokens).len(),
        spec_image(tokens).subrange(
            tokens[k].offset as int,
            (tokens[k].offset + tokens[k].spec_size()) as int,
        ) == tokens[k].spec_as_words(),
    decreases tokens.len(),
{
    let t = tokens[k];
    let front = tokens.drop_last();
    let head = spec_image(front);
    let tail = tokens.last().spec_as_words();
    let from = t.offset as int;
    let to = (t.offset + t.spec_size()) as int;
    assert(tokens.take(tokens.len() - 1) =~= front);
    lemma_front_is_laid_out(tokens, tokens.len() - 1);
    assert(spec_image(tokens) == head + tail);
    if k == tokens.len() - 1 {
        lemma_image_length(front);
        lemma_words_have_size(t);
        assert(head.len() == from);
        assert((head + tail).subrange(from, to) =~= tail);
    } else {
        assert(front[k] == t);
        lemma_image_layout(front, k);
        assert((head + tail).subrange(from, to) =~= head.subrange(from, to));
    }
}

/// The symbol table that is made of the tokens from token `k` on, added to
/// `table`, keeps what `table` has, and has for the label of each of these tokens
/// the offset of the token. No two of these tokens carry the same label, and none
/// carries a label of `table`.
pub proof fn lemma_symbols_from(
    tokens: Seq<TokenView>,
    k: int,
    table: Map<Seq<char>, nat>,
    j: int,
)
    requires
        0 <= k <= j < tokens.len(),
        spec_symbols_from(tokens, k, table) is Ok,
        tokens[j].label is Some,
    ensures
        ({
            let all = spec_symbols_from(tokens, k, table)->Ok_0;
            let label = tokens[j].label->0;
            &&& all.dom().contains(label)
            &&& all[label] == tokens[j].offset
            &&& !table.dom().contains(label)
            &&& forall|name: Seq<char>| #[trigger]
                table.dom().contains(name) ==> all.dom().contains(name) && all[name] == table[name]
            &&& forall|i: int| k <= i < j ==> (#[trigger] tokens[i]).label != Some(label)
        }),
    decreases tokens.len() - k,
{
    let next = match tokens[k].label {
        None => table,
        Some(label) => table.insert(label, tokens[k].offset),
    };
    let all = spec_symbols_from(tokens, k, table)->Ok_0;
    let label = tokens[j].label->0;
    assert(all == spec_symbols_from(tokens, k + 1, next)->Ok_0);
    lemma_symbols_keep(tokens, k + 1, next);
    if k < j {
        lemma_symbols_from(tokens, k + 1, next, j);
        if tokens[k].label == Some(label) {
            assert(next.dom().contains(label));
        }
        if table.dom().contains(label) {
            assert(next.dom().contains(label));
        }
        assert forall|i: int| k <= i < j implies (#[trigger] tokens[i]).label != Some(label) by {
            if i > k {
                assert(tokens[i].label != Some(label));
            }
        }
    } else {
        assert(next.dom().contains(label));
        assert(next[label] == tokens[j].offset);
    }
    assert forall|name: Seq<char>| #[trigger] table.dom().contains(name) implies all.dom().contains(
        name,
    ) && all[name] == table[name] by {
        assert(next.dom().contains(name));
    }
}

/// The symbol table that is made of the tokens from token `k` on, added to
/// `table`, keeps what `table` has.
pub proof fn lemma_symbols_keep(tokens: Seq<TokenView>, k: int, table: Map<Seq<char>, nat>)
    requires
        0 <= k <= tokens.len(),
        spec_symbols_from(tokens, k, table) is Ok,
    ensures
        forall|name: Seq<char>| #[trigger]
            table.dom().contains(name) ==> spec_symbols_from(
                tokens,
                k,
                table,
            )->Ok_0.dom().contains(name) && spec_symbols_from(tokens, k, table)->Ok_0[name]
                == table[name],
    decreases tokens.len() - k,
{
    if k < tokens.len() {
        let next = match tokens[k].label {
            None => table,
            Some(label) => table.insert(label, tokens[k].offset),
        };
        let all = spec_symbols_from(tokens, k, table)->Ok_0;
        assert(all == spec_symbols_from(tokens, k + 1, next)->Ok_0);
        lemma_symbols_keep(tokens, k + 1, next);
        assert forall|name: Seq<char>| #[trigger] table.dom().contains(name) implies all.dom().contains(
            name,
        ) && all[name] == table[name] by {
            assert(next.dom().contains(name));
        }
    }
}

/// In the symbol table of `tokens`, the label of each token stands for the offset
/// of the token, and no two tokens carry the same label.
pub proof fn lemma_symbols(tokens: Seq<TokenView>, j: int)
    requires
        spec_symbols(tokens) is Ok,
        0 <= j < tokens.len(),
        tokens[j].label is Some,
    ensures
        spec_symbols(tokens)->Ok_0.dom().contains(tokens[j].label->0),
        spec_symbols(tokens)->Ok_0[tokens[j].label->0] == tokens[j].offset,
        forall|i: int| 0 <= i < j ==> (#[trigger] tokens[i]).label != tokens[j].label,
{
    lemma_symbols_from(tokens, 0, Map::empty(), j);
}

/// The tokens that come out of the resolution from token `k` on, behind `done`:
/// first `done`, then each token with its operands resolved.
pub proof fn lemma_resolve_from(
    tokens: Seq<TokenView>,
    k: int,
    table: Map<Seq<char>, nat>,
    done: Seq<TokenView>,
)
    requires
        0 <= k <= tokens.len(),
        spec_resolve_from(tokens, k, table, done) is Ok,
    ensures
        ({
            let all = spec_resolve_from(tokens, k, table, done)->Ok_0;
            &&& all.len() == done.len() + tokens.len() - k
            &&& forall|i: int| 0 <= i < done.len() ==> all[i] == #[trigger] done[i]
            &&& forall|i: int|
                k <= i < tokens.len() ==> spec_resolve_token(#[trigger] tokens[i], table)
                    == Ok::<TokenView, AssemblyErrorView>(all[done.len() + i - k])
        }),
    decreases tokens.len() - k,
{
    if k < tokens.len() {
        let t = spec_resolve_token(tokens[k], table)->Ok_0;
        lemma_resolve_from(tokens, k + 1, table, done.push(t));
        let all = spec_resolve_from(tokens, k, table, done)->Ok_0;
        assert forall|i: int| 0 <= i < done.len() implies all[i] == #[trigger] done[i] by {
            assert(done.push(t)[i] == done[i]);
        }
        assert(done.push(t)[done.len() as int] == t);
    }
}

/// Resolution changes operands and nothing else: the tokens that come out are as
/// many as went in, and each is the token that went in with its operands resolved
/// by the symbol table of all tokens. So each has the kind, the label, the offset,
/// the opcode, the data and the size that it had.
pub proof fn lemma_resolved_token(tokens: Seq<TokenView>, k: int)
    requires
        spec_resolve_labels(tokens) is Ok,
        0 <= k < tokens.len(),
    ensures
        spec_symbols(tokens) is Ok,
        spec_resolve_labels(tokens)->Ok_0.len() == tokens.len(),
        spec_resolve_token(tokens[k], spec_symbols(tokens)->Ok_0) == Ok::<
            TokenView,
            AssemblyErrorView,
        >(spec_resolve_labels(tokens)->Ok_0[k]),
        spec_resolve_labels(tokens)->Ok_0[k] == (TokenView {
            args: spec_resolve_labels(tokens)->Ok_0[k].args,
            ..tokens[k]
        }),
        spec_resolve_labels(tokens)->Ok_0[k].spec_size() == tokens[k].spec_size(),
{
    lemma_resolve_from(tokens, 0, spec_symbols(tokens)->Ok_0, Seq::empty());
}

/// Resolution keeps the layout: tokens that are laid out are laid out when their
/// labels are resolved.
pub proof fn lemma_resolved_layout(tokens: Seq<TokenView>)
    requires
        spec_resolve_labels(tokens) is Ok,
        spec_laid_out(tokens),
    ensures
        spec_laid_out(spec_resolve_labels(tokens)->Ok_0),
{
    let resolved = spec_resolve_labels(tokens)->Ok_0;
    lemma_resolve_from(tokens, 0, spec_symbols(tokens)->Ok_0, Seq::empty());
    assert forall|k: int| 0 <= k < resolved.len() implies (#[trigger] resolved[k]).offset
        == spec_next_offset(resolved.take(k)) by {
        lemma_resolved_token(tokens, k);
        assert(tokens[k].offset == spec_next_offset(tokens.take(k)));
        if k > 0 {
            lemma_resolved_token(tokens, k - 1);
            assert(resolved.take(k).last() == resolved[k - 1]);
            assert(tokens.take(k).last() == tokens[k - 1]);
        }
    }
}

/// Each operand of a resolved token is the operand that it was, resolved.
pub proof fn lemma_resolved_slot(t: TokenView, table: Map<Seq<char>, nat>, slot: int)
    requires
        spec_resolve_token(t, table) is Ok,
        0 <= slot < 3,
    ensures
        spec_resolve_slot(t.args[slot], table) == Ok::<Option<ArgumentView>, AssemblyErrorView>(
            spec_resolve_token(t, table)->Ok_0.args[slot],
        ),
{
}

/// A label resolves to the address of the token that carries it. Where the
/// operand in slot `slot` of token `k` is a label that token `j` carries, the
/// resolved operand is the offset of token `j` as a number; and where the tokens
/// are laid out, the image of the resolved tokens holds the words of token `j` at
/// this offset.
pub proof fn lemma_label_resolves_to_offset(tokens: Seq<TokenView>, k: int, slot: int, j: int)
    requires
        spec_resolve_labels(tokens) is Ok,
        0 <= k < tokens.len(),
        0 <= j < tokens.len(),
        0 <= slot < 3,
        tokens[k].args.len() == 3,
        tokens[k].args[slot] is Some,
        tokens[k].args[slot]->0 is Label,
        tokens[j].label == Some(tokens[k].args[slot]->0->Label_0),
    ensures
        spec_resolve_labels(tokens)->Ok_0[k].args[slot] == Some(
            ArgumentView::Number(tokens[j].offset as u16),
        ),
        spec_laid_out(tokens) ==> ({
            let resolved = spec_resolve_labels(tokens)->Ok_0;
            &&& tokens[j].offset + tokens[j].spec_size() <= spec_image(resolved).len()
            &&& spec_image(resolved).subrange(
                tokens[j].offset as int,
                (tokens[j].offset + tokens[j].spec_size()) as int,
            ) == resolved[j].spec_as_words()
        }),
{
    lemma_resolved_token(tokens, k);
    lemma_resolved_token(tokens, j);
    lemma_symbols(tokens, j);
    lemma_resolved_slot(tokens[k], spec_symbols(tokens)->Ok_0, slot);
    if spec_laid_out(tokens) {
        lemma_resolved_layout(tokens);
        lemma_image_layout(spec_resolve_labels(tokens)->Ok_0, j);
    }
}

/// Whether `x` can stand as a line of its own: it holds no line feed and does not
/// end in a carriage return.
pub open spec fn spec_is_clean(x: Seq<char>) -> bool {
    &&& forall|k: int| 0 <= k < x.len() ==> #[trigger] x[k] != '\n'
    &&& x.len() > 0 ==> x[x.len() - 1] != '\r'
}

/// The lines `raw`, each stripped of its comment and trimmed.
pub open spec fn spec_stripped(raw: Seq<Seq<char>>) -> Seq<Seq<char>> {
    Seq::new(raw.len(), |k: int| spec_strip(raw[k]))
}

/// Searching behind a prefix is searching in what follows it.
pub proof fn lemma_find_shift(p: Seq<char>, w: Seq<char>, i: int, c: char)
    requires
        0 <= i <= w.len(),
    ensures
        spec_find(p + w, p.len() + i, c) == p.len() + spec_find(w, i, c),
    decreases w.len() - i,
{
    if i < w.len() {
        assert((p + w)[p.len() + i] == w[i]);
        if w[i] != c {
            lemma_find_shift(p, w, i + 1, c);
        }
    }
}

/// The lines behind a prefix are the lines of what follows it.
pub proof fn lemma_lines_shift(p: Seq<char>, w: Seq<char>, i: int)
    requires
        0 <= i <= w.len(),
    ensures
        spec_lines(p + w, p.len() + i) == spec_lines(w, i),
    decreases w.len() - i,
{
    let s = p + w;
    if i < w.len() {
        lemma_find_shift(p, w, i, '\n');
        lemma_find(w, i, '\n');
        let end = spec_find(w, i, '\n');
        if i < end {
            assert(s[p.len() + end - 1] == w[end - 1]);
        }
        assert(s.subrange(p.len() + i, p.len() + end) =~= w.subrange(i, end));
        if i < end {
            assert(s.subrange(p.len() + i, p.len() + end - 1) =~= w.subrange(i, end - 1));
        }
        assert(spec_line(s, p.len() + i, p.len() + end) == spec_line(w, i, end));
        if end < w.len() {
            lemma_lines_shift(p, w, end + 1);
        }
    }
}

/// A text that holds no line feed is one line, or none if it is empty.
pub proof fn lemma_only_line(x: Seq<char>)
    requires
        forall|k: int| 0 <= k < x.len() ==> #[trigger] x[k] != '\n',
    ensures
        spec_lines(x, 0) == if x.len() == 0 {
            Seq::<Seq<char>>::empty()
        } else {
            seq![x]
        },
{
    lemma_find(x, 0, '\n');
    if x.len() > 0 {
        assert(x.subrange(0, x.len() as int) =~= x);
    }
}

/// The first line of a text that starts with a clean line and a line feed is that
/// line, and the lines behind it are those of the rest.
pub proof fn lemma_first_line(x: Seq<char>, w: Seq<char>)
    requires
        spec_is_clean(x),
    ensures
        spec_lines(x + seq!['\n'] + w, 0) == seq![x] + spec_lines(w, 0),
{
    let p = x + seq!['\n'];
    let s = p + w;
    lemma_find(s, 0, '\n');
    let end = spec_find(s, 0, '\n');
    assert(s[x.len() as int] == '\n');
    if end < x.len() {
        assert(s[end] == x[end]);
    }
    assert(end == x.len());
    assert(s.subrange(0, end) =~= x);
    if x.len() > 0 {
        assert(s[end - 1] == x[x.len() - 1]);
    }
    assert(spec_line(s, 0, end) == x);
    lemma_lines_shift(p, w, 0);
}

/// The lines of clean lines that are joined, and followed by a line feed and a
/// rest, are those lines and the lines of the rest.
pub proof fn lemma_lines_of_joined(ys: Seq<Seq<char>>, w: Seq<char>)
    requires
        ys.len() >= 1,
        forall|k: int| 0 <= k < ys.len() ==> spec_is_clean(#[trigger] ys[k]),
    ensures
        spec_lines(spec_join(ys) + seq!['\n'] + w, 0) == ys + spec_lines(w, 0),
    decreases ys.len(),
{
    if ys.len() == 1 {
        lemma_first_line(ys[0], w);
        assert(seq![ys[0]] =~= ys);
    } else {
        let front = ys.drop_last();
        let last = ys.last();
        let rest = last + seq!['\n'] + w;
        assert forall|k: int| 0 <= k < front.len() implies spec_is_clean(#[trigger] front[k]) by {
            assert(front[k] == ys[k]);
        }
        lemma_lines_of_joined(front, rest);
        lemma_first_line(last, w);
        assert(spec_join(ys) + seq!['\n'] + w =~= spec_join(front) + seq!['\n'] + rest);
        assert(front + (seq![last] + spec_lines(w, 0)) =~= ys + spec_lines(w, 0));
    }
}

/// Clean lines that are joined and split again are the same lines, but for an
/// empty last line, which is lost.
pub proof fn lemma_lines_of_join(xs: Seq<Seq<char>>)
    requires
        forall|k: int| 0 <= k < xs.len() ==> spec_is_clean(#[trigger] xs[k]),
    ensures
        spec_lines(spec_join(xs), 0) == if xs.len() == 0 {
            xs
        } else if xs.last().len() == 0 {
            xs.drop_last()
        } else {
            xs
        },
{
    if xs.len() == 0 {
        assert(xs =~= Seq::empty());
    } else if xs.len() == 1 {
        lemma_only_line(xs[0]);
        if xs[0].len() == 0 {
            assert(xs.drop_last() =~= Seq::empty());
        } else {
            assert(seq![xs[0]] =~= xs);
        }
    } else {
        let front = xs.drop_last();
        let last = xs.last();
        assert forall|k: int| 0 <= k < front.len() implies spec_is_clean(#[trigger] front[k]) by {
            assert(front[k] == xs[k]);
        }
        lemma_lines_of_joined(front, last);
        lemma_only_line(last);
        if last.len() == 0 {
            assert(front + Seq::<Seq<char>>::empty() =~= front);
        } else {
            assert(front + seq![last] =~= xs);
        }
    }
}

/// No line of a text holds a line feed.
pub proof fn lemma_lines_hold_no_feed(s: Seq<char>, i: int, k: int)
    requires
        0 <= i <= s.len(),
        0 <= k < spec_lines(s, i).len(),
    ensures
        forall|j: int| 0 <= j < spec_lines(s, i)[k].len() ==> #[trigger] spec_lines(s, i)[k][j] != '\n',
    decreases s.len() - i,
{
    lemma_find(s, i, '\n');
    let end = spec_find(s, i, '\n');
    let line = spec_line(s, i, end);
    if i < s.len() {
        if k == 0 {
            assert(spec_lines(s, i)[0] == line);
            assert forall|j: int| 0 <= j < line.len() implies #[trigger] line[j] != '\n' by {
                assert(line[j] == s[i + j]);
            }
        } else {
            assert(end < s.len());
            assert(spec_lines(s, i)[k] == spec_lines(s, end + 1)[k - 1]);
            lemma_lines_hold_no_feed(s, end + 1, k - 1);
        }
    }
}

/// A line that holds no line feed is clean once it is stripped.
pub proof fn lemma_stripped_is_clean(line: Seq<char>)
    requires
        forall|j: int| 0 <= j < line.len() ==> #[trigger] line[j] != '\n',
    ensures
        spec_is_clean(spec_strip(line)),
{
    lemma_find(line, 0, ';');
    let code = line.take(spec_find(line, 0, ';'));
    lemma_skip_spaces(code, 0);
    lemma_trim_end(code, code.len() as int);
    let start = spec_skip_spaces(code, 0);
    let end = spec_trim_end(code, code.len() as int);
    let stripped = spec_strip(line);
    if start < end {
        assert forall|k: int| 0 <= k < stripped.len() implies #[trigger] stripped[k] != '\n' by {
            assert(stripped[k] == line[start + k]);
        }
        assert(stripped[stripped.len() - 1] == code[end - 1]);
    }
}

/// A blank line at the end of the lines makes no token and no error.
pub proof fn lemma_last_blank_line(lines: Seq<Seq<char>>, k: int, state: LexState)
    requires
        lines.len() >= 1,
        lines.last().len() == 0,
        0 <= k < lines.len(),
    ensures
        spec_tokenize_from(lines, k, state) == spec_tokenize_from(lines.drop_last(), k, state),
    decreases lines.len() - k,
{
    let front = lines.drop_last();
    let placed = spec_place(state, spec_parse_line(lines[k]), (k + 1) as nat);
    if k == lines.len() - 1 {
        assert(spec_words(lines[k], 0) =~= Seq::empty());
        assert(spec_parse_line(lines[k]) == LineView::Blank);
        assert(placed == Ok::<LexState, AssemblyErrorView>(state));
        assert(spec_tokenize_from(lines, k + 1, state) == Ok::<
            Seq<TokenView>,
            AssemblyErrorView,
        >(state.tokens));
        assert(spec_tokenize_from(front, k, state) == Ok::<Seq<TokenView>, AssemblyErrorView>(
            state.tokens,
        ));
    } else {
        assert(front[k] == lines[k]);
        match placed {
            Ok(next) => {
                lemma_last_blank_line(lines, k + 1, next);
            },
            Err(_) => {},
        }
    }
}

/// The lines keep their numbers when the comments are removed: the tokens of a
/// text without its comments, and the line that an error names, are those of the
/// lines of the text itself, each stripped of its comment and trimmed.
pub proof fn lemma_lines_keep_their_numbers(s: Seq<char>)
    ensures
        spec_tokenize(spec_lines(spec_remove_comments(s), 0)) == spec_tokenize(
            spec_stripped(spec_lines(s, 0)),
        ),
{
    let raw = spec_lines(s, 0);
    let stripped = spec_stripped(raw);
    assert forall|k: int| 0 <= k < stripped.len() implies spec_is_clean(#[trigger] stripped[k]) by {
        lemma_lines_hold_no_feed(s, 0, k);
        lemma_stripped_is_clean(raw[k]);
    }
    lemma_lines_of_join(stripped);
    if stripped.len() > 0 && stripped.last().len() == 0 {
        lemma_last_blank_line(stripped, 0, LexState { tokens: Seq::empty(), pending: None });
    }
}

} // verus!
