//! The steps of assembly: comments are removed, the text is split into lines, the
//! lines become tokens with offsets, labels are resolved, and the tokens are
//! written out as bytes.

use vstd::prelude::*;
use vstd::slice::slice_subrange;
use crate::synacor::memory::MEMORY_SIZE;
use crate::synacor::WORD;
use crate::text::{chars_of, string_of};
use super::grammar::{find, lemma_find, skip_spaces, spec_find, spec_trim, trim_end};
use super::symbols::SymbolTable;
use super::line::{lemma_parsed_line, parse_line, spec_name, spec_parse_line, Line, LineView};
use super::types::{
    spec_slot, Argument, ArgumentView, AssemblyError, AssemblyErrorView, Token, TokenType,
    TokenView,
};

verus! {

/// The line of `s` that starts at position `start` and ends in front of position
/// `end`, where the text ends or a line feed stands. A carriage return in front of
/// the line feed belongs to the line ending, not to the line.
pub open spec fn spec_line(s: Seq<char>, start: int, end: int) -> Seq<char> {
    if start < end < s.len() && s[end - 1] == '\r' {
        s.subrange(start, end - 1)
    } else {
        s.subrange(start, end)
    }
}

/// The lines of `s` from position `i` on. Each line feed ends a line; what follows
/// the last one is a line too, unless it is empty.
pub open spec fn spec_lines(s: Seq<char>, i: int) -> Seq<Seq<char>>
    decreases s.len() - i,
{
    let end = spec_find(s, i, '\n');
    if 0 <= i <= end < s.len() {
        seq![spec_line(s, i, end)] + spec_lines(s, end + 1)
    } else if 0 <= i < s.len() {
        seq![spec_line(s, i, end)]
    } else {
        Seq::empty()
    }
}

/// A line without its comment and without the white space around the rest: what
/// stands in front of the first semicolon, trimmed.
pub open spec fn spec_strip(line: Seq<char>) -> Seq<char> {
    spec_trim(line.take(spec_find(line, 0, ';')))
}

/// The lines `lines` as one text, with a line feed between each two.
pub open spec fn spec_join(lines: Seq<Seq<char>>) -> Seq<char>
    decreases lines.len(),
{
    if lines.len() == 0 {
        Seq::empty()
    } else if lines.len() == 1 {
        lines[0]
    } else {
        spec_join(lines.drop_last()) + seq!['\n'] + lines.last()
    }
}

/// The text `s` with each of its lines stripped of its comment and trimmed. There
/// are as many lines as before: a line that held only a comment is now empty.
pub open spec fn spec_remove_comments(s: Seq<char>) -> Seq<char> {
    let lines = spec_lines(s, 0);
    spec_join(Seq::new(lines.len(), |k: int| spec_strip(lines[k])))
}

/// The texts of the strings `v`.
pub open spec fn spec_texts(v: Seq<String>) -> Seq<Seq<char>> {
    Seq::new(v.len(), |k: int| v[k]@)
}

/// Where each line of `s` starts and ends.
fn line_ranges(s: &[char]) -> (ranges: Vec<(usize, usize)>)
    ensures
        ranges@.len() == spec_lines(s@, 0).len(),
        forall|k: int|
            0 <= k < ranges@.len() ==> {
                &&& (#[trigger] ranges@[k]).0 <= ranges@[k].1 <= s.len()
                &&& s@.subrange(ranges@[k].0 as int, ranges@[k].1 as int) == spec_lines(s@, 0)[k]
            },
{
    let mut ranges: Vec<(usize, usize)> = Vec::new();
    let ghost mut found: Seq<Seq<char>> = Seq::empty();
    let mut i: usize = 0;
    while i < s.len()
        invariant
            found + spec_lines(s@, i as int) == spec_lines(s@, 0),
            ranges@.len() == found.len(),
            forall|k: int|
                0 <= k < ranges@.len() ==> {
                    &&& (#[trigger] ranges@[k]).0 <= ranges@[k].1 <= s.len()
                    &&& s@.subrange(ranges@[k].0 as int, ranges@[k].1 as int) == found[k]
                },
        decreases s.len() - i,
    {
        let end = find(s, i, '\n');
        let stop = if i < end && end < s.len() && s[end - 1] == '\r' {
            end - 1
        } else {
            end
        };
        proof {
            lemma_find(s@, i as int, '\n');
            let line = spec_line(s@, i as int, end as int);
            assert(found + spec_lines(s@, i as int) =~= found.push(line) + spec_lines(
                s@,
                end + 1,
            ));
            found = found.push(line);
        }
        ranges.push((i, stop));
        if end == s.len() {
            i = end;
        } else {
            i = end + 1;
        }
    }
    assert(found + spec_lines(s@, i as int) =~= found);
    ranges
}

/// Removes the comments: each line loses what stands from its first semicolon on,
/// and the white space around the rest. The lines keep their numbers.
pub fn remove_comments(source: String) -> (stripped: String)
    ensures
        stripped@ == spec_remove_comments(source@),
{
    let chars = chars_of(source.as_str());
    let s = chars.as_slice();
    let ranges = line_ranges(s);
    let ghost lines = spec_lines(s@, 0);
    let ghost all = Seq::new(lines.len(), |k: int| spec_strip(lines[k]));
    let mut out: Vec<char> = Vec::new();
    let mut k: usize = 0;
    while k < ranges.len()
        invariant
            k <= ranges.len(),
            ranges@.len() == lines.len(),
            lines == spec_lines(s@, 0),
            all == Seq::new(lines.len(), |k: int| spec_strip(lines[k])),
            forall|j: int|
                0 <= j < ranges@.len() ==> {
                    &&& (#[trigger] ranges@[j]).0 <= ranges@[j].1 <= s.len()
                    &&& s@.subrange(ranges@[j].0 as int, ranges@[j].1 as int) == lines[j]
                },
            out@ == spec_join(all.take(k as int)),
        decreases ranges.len() - k,
    {
        let (start, end) = ranges[k];
        let line = slice_subrange(s, start, end);
        let cut = find(line, 0, ';');
        let code = slice_subrange(line, 0, cut);
        assert(code@ =~= line@.take(cut as int));
        let from = skip_spaces(code, 0);
        let end = trim_end(code, cut);
        let to = if from < end {
            end
        } else {
            from
        };
        if k > 0 {
            out.push('\n');
        }
        let mut j = from;
        let ghost before = out@;
        while j < to
            invariant
                from <= j <= to <= code.len(),
                out@ == before + code@.subrange(from as int, j as int),
            decreases to - j,
        {
            out.push(code[j]);
            j += 1;
        }
        proof {
            let stripped = spec_strip(lines[k as int]);
            assert(out@ =~= before + stripped);
            assert(all.take(k + 1).drop_last() =~= all.take(k as int));
            assert(all.take(k + 1).last() == stripped);
        }
        k += 1;
    }
    assert(all.take(k as int) =~= all);
    string_of(out.as_slice())
}

/// Splits a text into its lines.
pub fn split_to_lines(source: &String) -> (lines: Vec<String>)
    ensures
        spec_texts(lines@) == spec_lines(source@, 0),
{
    let chars = chars_of(source.as_str());
    let s = chars.as_slice();
    let ranges = line_ranges(s);
    let mut lines: Vec<String> = Vec::new();
    let mut k: usize = 0;
    while k < ranges.len()
        invariant
            k <= ranges.len(),
            ranges@.len() == spec_lines(s@, 0).len(),
            forall|j: int|
                0 <= j < ranges@.len() ==> {
                    &&& (#[trigger] ranges@[j]).0 <= ranges@[j].1 <= s.len()
                    &&& s@.subrange(ranges@[j].0 as int, ranges@[j].1 as int) == spec_lines(
                        s@,
                        0,
                    )[j]
                },
            lines@.len() == k,
            spec_texts(lines@) == spec_lines(s@, 0).take(k as int),
        decreases ranges.len() - k,
    {
        let (start, end) = ranges[k];
        let ghost before = lines@;
        lines.push(string_of(slice_subrange(s, start, end)));
        k += 1;
        assert forall|j: int| 0 <= j < k implies spec_texts(lines@)[j] == spec_lines(s@, 0)[j] by {
            if j < k - 1 {
                assert(spec_texts(before)[j] == before[j]@);
            }
        }
        assert(spec_texts(lines@) =~= spec_lines(s@, 0).take(k as int));
    }
    assert(spec_lines(s@, 0).take(k as int) =~= spec_lines(s@, 0));
    lines
}

/// The views of the tokens `v`.
pub open spec fn spec_tokens(v: Seq<Token>) -> Seq<TokenView> {
    Seq::new(v.len(), |k: int| v[k]@)
}

/// The view of a result of tokens.
pub open spec fn spec_tokens_result(r: Result<Vec<Token>, AssemblyError>) -> Result<
    Seq<TokenView>,
    AssemblyErrorView,
> {
    match r {
        Ok(tokens) => Ok(spec_tokens(tokens@)),
        Err(e) => Err(e@),
    }
}

/// The offset behind the last of `tokens`, where the next token starts: 0 if
/// there is none.
pub open spec fn spec_next_offset(tokens: Seq<TokenView>) -> nat {
    if tokens.len() == 0 {
        0
    } else {
        tokens.last().offset + tokens.last().spec_size()
    }
}

/// The offsets of `tokens` follow from their sizes: the first token starts at 0,
/// and each other token where the one before it ends.
pub open spec fn spec_laid_out(tokens: Seq<TokenView>) -> bool {
    forall|k: int|
        0 <= k < tokens.len() ==> (#[trigger] tokens[k]).offset == spec_next_offset(tokens.take(k))
}

/// Where the tokenizer stands between two lines: the tokens made so far, and the
/// label of a line of its own that waits for the next instruction.
pub struct LexState {
    pub tokens: Seq<TokenView>,
    pub pending: Option<Seq<char>>,
}

/// The token that an instruction or a data declaration becomes when it follows
/// `state`. An instruction takes the pending label if there is one, else its own.
pub open spec fn spec_token(state: LexState, line: LineView) -> TokenView {
    match line {
        LineView::Instruction { label, opcode, args } => TokenView {
            tok_type: TokenType::Instruction,
            label: if state.pending is Some {
                state.pending
            } else {
                label
            },
            offset: spec_next_offset(state.tokens),
            opcode: Some(opcode),
            args,
            data: Seq::empty(),
        },
        LineView::Declaration { name, data } => TokenView {
            tok_type: TokenType::DataDeclaration,
            label: Some(name),
            offset: spec_next_offset(state.tokens),
            opcode: None,
            args: seq![None, None, None],
            data,
        },
        _ => arbitrary(),
    }
}

/// What the line `line`, which has the number `number`, makes of `state`. A blank
/// line changes nothing. A label of its own becomes the pending label. An
/// instruction or a data declaration becomes the next token, unless it would end
/// beyond the address space. A data declaration does not take a pending label: it
/// is an error there, as is a line that cannot be parsed.
pub open spec fn spec_place(state: LexState, line: LineView, number: nat) -> Result<
    LexState,
    AssemblyErrorView,
> {
    match line {
        LineView::Blank => Ok(state),
        LineView::LabelOnly(label) => Ok(LexState { pending: Some(label), ..state }),
        LineView::Unparseable => Err(AssemblyErrorView::SyntaxError(number)),
        _ => {
            let token = spec_token(state, line);
            if line is Declaration && state.pending is Some {
                Err(AssemblyErrorView::SyntaxError(number))
            } else if token.offset + token.spec_size() > MEMORY_SIZE {
                Err(AssemblyErrorView::InvalidAddress(number))
            } else {
                Ok(LexState { tokens: state.tokens.push(token), pending: None })
            }
        },
    }
}

/// The tokens of the lines from line `k` on, after `state`. Line `k` has the
/// number `k + 1`. The first line that is an error ends it.
pub open spec fn spec_tokenize_from(lines: Seq<Seq<char>>, k: int, state: LexState) -> Result<
    Seq<TokenView>,
    AssemblyErrorView,
>
    decreases lines.len() - k,
{
    if k < 0 || k >= lines.len() {
        Ok(state.tokens)
    } else {
        match spec_place(state, spec_parse_line(lines[k]), (k + 1) as nat) {
            Err(e) => Err(e),
            Ok(next) => spec_tokenize_from(lines, k + 1, next),
        }
    }
}

/// The tokens of `lines`.
pub open spec fn spec_tokenize(lines: Seq<Seq<char>>) -> Result<
    Seq<TokenView>,
    AssemblyErrorView,
> {
    spec_tokenize_from(lines, 0, LexState { tokens: Seq::empty(), pending: None })
}

/// Turns the lines of a source into tokens and gives each its offset. Fails at the
/// first line that cannot be parsed, at the first data declaration behind a label
/// of its own, and at the first token that does not fit into the address space.
///
/// The tokens that come out are well formed, and laid out one behind the other
/// from offset 0 on.
pub fn tokenize(source_lines: Vec<String>) -> (r: Result<Vec<Token>, AssemblyError>)
    ensures
        spec_tokens_result(r) == spec_tokenize(spec_texts(source_lines@)),
        r matches Ok(tokens) ==> spec_laid_out(spec_tokens(tokens@)) && forall|k: int|
            0 <= k < tokens@.len() ==> (#[trigger] tokens@[k])@.wf(),
{
    let ghost lines = spec_texts(source_lines@);
    let mut tokens: Vec<Token> = Vec::new();
    let mut last_label: Option<String> = None;
    let mut next_offset: usize = 0;
    let mut idx: usize = 0;
    assert(spec_tokens(tokens@) =~= Seq::empty());
    while idx < source_lines.len()
        invariant
            idx <= source_lines.len(),
            lines == spec_texts(source_lines@),
            next_offset == spec_next_offset(spec_tokens(tokens@)),
            next_offset <= MEMORY_SIZE,
            spec_laid_out(spec_tokens(tokens@)),
            forall|k: int| 0 <= k < tokens@.len() ==> (#[trigger] tokens@[k])@.wf(),
            spec_tokenize(lines) == spec_tokenize_from(
                lines,
                idx as int,
                LexState { tokens: spec_tokens(tokens@), pending: spec_name(last_label) },
            ),
        decreases source_lines.len() - idx,
    {
        let ghost state = LexState { tokens: spec_tokens(tokens@), pending: spec_name(last_label) };
        let ghost before = tokens@;
        let chars = chars_of(source_lines[idx].as_str());
        let line = parse_line(chars.as_slice());
        assert(lines[idx as int] == source_lines@[idx as int]@);
        let token = match line {
            Line::Blank => {
                idx += 1;
                continue ;
            },
            Line::LabelOnly(label) => {
                last_label = Some(label);
                idx += 1;
                continue ;
            },
            Line::Unparseable => {
                return Err(AssemblyError::SyntaxError(idx + 1));
            },
            Line::Instruction { label, opcode, args } => {
                if 1 + opcode.argc() > MEMORY_SIZE - next_offset {
                    return Err(AssemblyError::InvalidAddress(idx + 1));
                }
                Token {
                    tok_type: TokenType::Instruction,
                    label: if last_label.is_some() {
                        last_label
                    } else {
                        label
                    },
                    offset: next_offset,
                    opcode: Some(opcode),
                    args,
                    data: Vec::new(),
                }
            },
            Line::Declaration { name, data } => {
                if last_label.is_some() {
                    return Err(AssemblyError::SyntaxError(idx + 1));
                }
                if data.len() > MEMORY_SIZE - next_offset {
                    return Err(AssemblyError::InvalidAddress(idx + 1));
                }
                Token {
                    tok_type: TokenType::DataDeclaration,
                    label: Some(name),
                    offset: next_offset,
                    opcode: None,
                    args: [None, None, None],
                    data,
                }
            },
        };
        proof {
            let expected = spec_token(state, line@);
            assert(token@.args =~= expected.args);
            assert(token@ == expected);
            lemma_parsed_token_wf(lines[idx as int], state);
        }
        next_offset = next_offset + token.size();
        tokens.push(token);
        last_label = None;
        idx += 1;
        proof {
            let views = spec_tokens(tokens@);
            assert(views =~= state.tokens.push(token@));
            assert forall|k: int| 0 <= k < views.len() implies (#[trigger] views[k]).offset
                == spec_next_offset(views.take(k)) by {
                if k < views.len() - 1 {
                    assert(views.take(k) =~= state.tokens.take(k));
                } else {
                    assert(views.take(k) =~= state.tokens);
                }
            }
        }
    }
    Ok(tokens)
}

/// The token of a line that parses as an instruction or a data declaration is well
/// formed if it lies within the address space.
proof fn lemma_parsed_token_wf(line: Seq<char>, state: LexState)
    requires
        spec_parse_line(line) is Instruction || spec_parse_line(line) is Declaration,
        spec_token(state, spec_parse_line(line)).offset + spec_token(
            state,
            spec_parse_line(line),
        ).spec_size() <= MEMORY_SIZE,
    ensures
        spec_token(state, spec_parse_line(line)).wf(),
{
    let token = spec_token(state, spec_parse_line(line));
    lemma_parsed_line(line);
}

/// The symbol table of the tokens from token `k` on, added to `table`: the label
/// of each token that has one stands for the offset of the token. The first label
/// that the table has already is an error.
pub open spec fn spec_symbols_from(
    tokens: Seq<TokenView>,
    k: int,
    table: Map<Seq<char>, nat>,
) -> Result<Map<Seq<char>, nat>, AssemblyErrorView>
    decreases tokens.len() - k,
{
    if k < 0 || k >= tokens.len() {
        Ok(table)
    } else {
        match tokens[k].label {
            None => spec_symbols_from(tokens, k + 1, table),
            Some(label) => if table.dom().contains(label) {
                Err(AssemblyErrorView::DuplicateLabel(label))
            } else {
                spec_symbols_from(tokens, k + 1, table.insert(label, tokens[k].offset))
            },
        }
    }
}

/// The symbol table of `tokens`.
pub open spec fn spec_symbols(tokens: Seq<TokenView>) -> Result<
    Map<Seq<char>, nat>,
    AssemblyErrorView,
> {
    spec_symbols_from(tokens, 0, Map::empty())
}

/// The operand slot `slot` with its label resolved. A label becomes the number
/// that the table has for it, and is an error if the table has none. A memory
/// address becomes a number, a register in brackets a register; a register and a
/// number stay.
pub open spec fn spec_resolve_slot(slot: Option<ArgumentView>, table: Map<Seq<char>, nat>) -> Result<
    Option<ArgumentView>,
    AssemblyErrorView,
> {
    match slot {
        None => Ok(None),
        Some(ArgumentView::Label(label)) => if table.dom().contains(label) {
            Ok(Some(ArgumentView::Number(table[label] as u16)))
        } else {
            Err(AssemblyErrorView::UnresolvedLabel(label))
        },
        Some(ArgumentView::MPointer(m)) => Ok(Some(ArgumentView::Number(m as u16))),
        Some(ArgumentView::RPointer(r)) => Ok(Some(ArgumentView::Register(r))),
        Some(ArgumentView::Register(r)) => Ok(Some(ArgumentView::Register(r))),
        Some(ArgumentView::Number(n)) => Ok(Some(ArgumentView::Number(n))),
    }
}

/// The token `t` with its operands resolved, from the first slot to the last. The
/// first label that the table does not have is an error.
pub open spec fn spec_resolve_token(t: TokenView, table: Map<Seq<char>, nat>) -> Result<
    TokenView,
    AssemblyErrorView,
> {
    match spec_resolve_slot(t.args[0], table) {
        Err(e) => Err(e),
        Ok(a) => match spec_resolve_slot(t.args[1], table) {
            Err(e) => Err(e),
            Ok(b) => match spec_resolve_slot(t.args[2], table) {
                Err(e) => Err(e),
                Ok(c) => Ok(TokenView { args: seq![a, b, c], ..t }),
            },
        },
    }
}

/// The tokens from token `k` on, resolved and put behind `done`.
pub open spec fn spec_resolve_from(
    tokens: Seq<TokenView>,
    k: int,
    table: Map<Seq<char>, nat>,
    done: Seq<TokenView>,
) -> Result<Seq<TokenView>, AssemblyErrorView>
    decreases tokens.len() - k,
{
    if k < 0 || k >= tokens.len() {
        Ok(done)
    } else {
        match spec_resolve_token(tokens[k], table) {
            Err(e) => Err(e),
            Ok(t) => spec_resolve_from(tokens, k + 1, table, done.push(t)),
        }
    }
}

/// The tokens `tokens` with all labels resolved: first the symbol table is made of
/// all tokens, then the operands of each token are resolved with it.
pub open spec fn spec_resolve_labels(tokens: Seq<TokenView>) -> Result<
    Seq<TokenView>,
    AssemblyErrorView,
> {
    match spec_symbols(tokens) {
        Err(e) => Err(e),
        Ok(table) => spec_resolve_from(tokens, 0, table, Seq::empty()),
    }
}

/// All offsets in `table` are valid addresses.
pub open spec fn spec_addresses(table: Map<Seq<char>, nat>) -> bool {
    forall|label: Seq<char>| #[trigger]
        table.dom().contains(label) ==> table[label] < MEMORY_SIZE
}

/// Every operand of the token is a register or a number.
pub open spec fn spec_is_plain(t: TokenView) -> bool {
    forall|k: int|
        0 <= k < t.args.len() ==> ((#[trigger] t.args[k]) matches Some(a) ==> a is Register
            || a is Number)
}

/// Collects the labels of `tokens` with their offsets.
pub fn collect_symbols(tokens: &Vec<Token>) -> (r: Result<SymbolTable, AssemblyError>)
    requires
        forall|k: int| 0 <= k < tokens@.len() ==> (#[trigger] tokens@[k])@.wf(),
    ensures
        match r {
            Ok(table) => spec_symbols(spec_tokens(tokens@)) == Ok::<
                Map<Seq<char>, nat>,
                AssemblyErrorView,
            >(table@) && spec_addresses(table@),
            Err(e) => spec_symbols(spec_tokens(tokens@)) == Err::<
                Map<Seq<char>, nat>,
                AssemblyErrorView,
            >(e@),
        },
{
    let ghost views = spec_tokens(tokens@);
    let mut table = SymbolTable::new();
    let mut k: usize = 0;
    while k < tokens.len()
        invariant
            k <= tokens.len(),
            views == spec_tokens(tokens@),
            forall|j: int| 0 <= j < tokens@.len() ==> (#[trigger] tokens@[j])@.wf(),
            spec_addresses(table@),
            spec_symbols(views) == spec_symbols_from(views, k as int, table@),
        decreases tokens.len() - k,
    {
        assert(views[k as int] == tokens@[k as int]@);
        match &tokens[k].label {
            Some(label) => {
                if !table.insert(label.clone(), tokens[k].offset) {
                    return Err(AssemblyError::DuplicateLabel(label.clone()));
                }
            },
            None => {},
        }
        k += 1;
    }
    Ok(table)
}

/// Resolves one operand slot.
fn resolve_slot(slot: &Option<Argument>, table: &SymbolTable) -> (r: Result<
    Option<Argument>,
    AssemblyError,
>)
    requires
        spec_addresses(table@),
        slot matches Some(a) ==> a@.wf(),
    ensures
        match r {
            Ok(resolved) => spec_resolve_slot(spec_slot(*slot), table@) == Ok::<
                Option<ArgumentView>,
                AssemblyErrorView,
            >(spec_slot(resolved)) && (resolved matches Some(a) ==> a@.wf() && (a@ is Register
                || a@ is Number)) && (resolved is Some <==> slot is Some),
            Err(e) => spec_resolve_slot(spec_slot(*slot), table@) == Err::<
                Option<ArgumentView>,
                AssemblyErrorView,
            >(e@),
        },
{
    match slot {
        None => Ok(None),
        Some(Argument::Label(label)) => match table.lookup(label) {
            Some(offset) => Ok(Some(Argument::Number(offset as u16))),
            None => Err(AssemblyError::UnresolvedLabel(label.clone())),
        },
        Some(Argument::MPointer(m)) => Ok(Some(Argument::Number(*m as u16))),
        Some(Argument::RPointer(r)) => Ok(Some(Argument::Register(*r))),
        Some(Argument::Register(r)) => Ok(Some(Argument::Register(*r))),
        Some(Argument::Number(n)) => Ok(Some(Argument::Number(*n))),
    }
}

/// Resolves the operands of one token.
fn resolve_token(token: &Token, table: &SymbolTable) -> (r: Result<Token, AssemblyError>)
    requires
        spec_addresses(table@),
        token@.wf(),
    ensures
        match r {
            Ok(resolved) => spec_resolve_token(token@, table@) == Ok::<
                TokenView,
                AssemblyErrorView,
            >(resolved@) && resolved@.wf() && spec_is_plain(resolved@),
            Err(e) => spec_resolve_token(token@, table@) == Err::<TokenView, AssemblyErrorView>(
                e@,
            ),
        },
{
    assert(token@.args[0] == spec_slot(token.args[0]));
    assert(token@.args[1] == spec_slot(token.args[1]));
    assert(token@.args[2] == spec_slot(token.args[2]));
    let a = resolve_slot(&token.args[0], table)?;
    let b = resolve_slot(&token.args[1], table)?;
    let c = resolve_slot(&token.args[2], table)?;
    let resolved = Token {
        tok_type: token.tok_type,
        label: token.label.clone(),
        offset: token.offset,
        opcode: token.opcode,
        args: [a, b, c],
        data: token.data.clone(),
    };
    assert(resolved@.args =~= seq![spec_slot(a), spec_slot(b), spec_slot(c)]);
    Ok(resolved)
}

/// Resolves the labels: makes the symbol table of all tokens, and then rewrites
/// each operand. A label becomes the number that is the offset of the token that
/// carries it, a memory address becomes a number, and a register in brackets a
/// register. Fails with `DuplicateLabel` at the first label that a token before
/// it carries too, and else with `UnresolvedLabel` at the first operand that names
/// a label that no token carries.
///
/// The tokens must be well formed. Those that come out are well formed too, have
/// the labels, offsets and sizes that they had, and registers and numbers as
/// operands.
pub fn resolve_labels(tokens: Vec<Token>) -> (r: Result<Vec<Token>, AssemblyError>)
    requires
        forall|k: int| 0 <= k < tokens@.len() ==> (#[trigger] tokens@[k])@.wf(),
    ensures
        spec_tokens_result(r) == spec_resolve_labels(spec_tokens(tokens@)),
        r matches Ok(resolved) ==> resolved@.len() == tokens@.len() && forall|k: int|
            0 <= k < resolved@.len() ==> (#[trigger] resolved@[k])@.wf() && spec_is_plain(
                resolved@[k]@,
            ),
{
    let ghost views = spec_tokens(tokens@);
    let table = match collect_symbols(&tokens) {
        Ok(table) => table,
        Err(e) => {
            return Err(e);
        },
    };
    let mut resolved: Vec<Token> = Vec::new();
    let mut k: usize = 0;
    assert(spec_tokens(resolved@) =~= Seq::empty());
    while k < tokens.len()
        invariant
            k <= tokens.len(),
            views == spec_tokens(tokens@),
            spec_symbols(views) == Ok::<Map<Seq<char>, nat>, AssemblyErrorView>(table@),
            spec_addresses(table@),
            forall|j: int| 0 <= j < tokens@.len() ==> (#[trigger] tokens@[j])@.wf(),
            resolved@.len() == k,
            forall|j: int|
                0 <= j < resolved@.len() ==> (#[trigger] resolved@[j])@.wf() && spec_is_plain(
                    resolved@[j]@,
                ),
            spec_resolve_from(views, 0, table@, Seq::empty()) == spec_resolve_from(
                views,
                k as int,
                table@,
                spec_tokens(resolved@),
            ),
        decreases tokens.len() - k,
    {
        assert(views[k as int] == tokens@[k as int]@);
        let ghost before = spec_tokens(resolved@);
        match resolve_token(&tokens[k], &table) {
            Ok(token) => {
                resolved.push(token);
                assert(spec_tokens(resolved@) =~= before.push(token@));
            },
            Err(e) => {
                return Err(e);
            },
        }
        k += 1;
    }
    Ok(resolved)
}

/// The low byte of a word.
pub open spec fn spec_low(w: WORD) -> u8 {
    (w & 0xFF) as u8
}

/// The high byte of a word.
pub open spec fn spec_high(w: WORD) -> u8 {
    (w >> 8) as u8
}

/// The bytes of `words`: for each word its low byte, then its high byte.
pub open spec fn spec_words_to_bytes(words: Seq<WORD>) -> Seq<u8> {
    Seq::new(
        2 * words.len(),
        |i: int|
            if i % 2 == 0 {
                spec_low(words[i / 2])
            } else {
                spec_high(words[i / 2])
            },
    )
}

/// The image of `tokens`: the words of each token, one token behind the other.
pub open spec fn spec_image(tokens: Seq<TokenView>) -> Seq<WORD>
    decreases tokens.len(),
{
    if tokens.len() == 0 {
        Seq::empty()
    } else {
        spec_image(tokens.drop_last()) + tokens.last().spec_as_words()
    }
}

/// The label in the operand slot, if it holds one.
pub open spec fn spec_label_of(slot: Option<ArgumentView>) -> Option<Seq<char>> {
    match slot {
        Some(ArgumentView::Label(l)) => Some(l),
        _ => None,
    }
}

/// The label of the first operand of the token that is a label, if there is one.
pub open spec fn spec_unresolved(t: TokenView) -> Option<Seq<char>> {
    if spec_label_of(t.args[0]) is Some {
        spec_label_of(t.args[0])
    } else if spec_label_of(t.args[1]) is Some {
        spec_label_of(t.args[1])
    } else {
        spec_label_of(t.args[2])
    }
}

/// The label of the first operand that is a label, from token `k` on.
pub open spec fn spec_first_unresolved(tokens: Seq<TokenView>, k: int) -> Option<Seq<char>>
    decreases tokens.len() - k,
{
    if k < 0 || k >= tokens.len() {
        None
    } else {
        match spec_unresolved(tokens[k]) {
            Some(l) => Some(l),
            None => spec_first_unresolved(tokens, k + 1),
        }
    }
}

/// The bytes that `tokens` are written out as: the bytes of their image. A label
/// among the operands has no encoding; the first one is an error.
pub open spec fn spec_convert_to_bytes(tokens: Seq<TokenView>) -> Result<
    Seq<u8>,
    AssemblyErrorView,
> {
    match spec_first_unresolved(tokens, 0) {
        Some(l) => Err(AssemblyErrorView::UnresolvedLabel(l)),
        None => Ok(spec_words_to_bytes(spec_image(tokens))),
    }
}

/// The view of a result of bytes.
pub open spec fn spec_bytes_result(r: Result<Vec<u8>, AssemblyError>) -> Result<
    Seq<u8>,
    AssemblyErrorView,
> {
    match r {
        Ok(bytes) => Ok(bytes@),
        Err(e) => Err(e@),
    }
}

/// Writes words out as bytes, the low byte of each word first.
pub fn words_to_bytes(words: &[WORD]) -> (bytes: Vec<u8>)
    ensures
        bytes@ == spec_words_to_bytes(words@),
{
    let mut bytes: Vec<u8> = Vec::new();
    let mut k: usize = 0;
    while k < words.len()
        invariant
            k <= words.len(),
            bytes@ == spec_words_to_bytes(words@.take(k as int)),
        decreases words.len() - k,
    {
        let w = words[k];
        assert(w & 0xFF <= 0xFF && w >> 8 <= 0xFF) by (bit_vector);
        bytes.push((w & 0xFF) as u8);
        bytes.push((w >> 8) as u8);
        k += 1;
        assert(bytes@ =~= spec_words_to_bytes(words@.take(k as int)));
    }
    assert(words@.take(k as int) =~= words@);
    bytes
}

/// The label of the first operand of `token` that is a label, if there is one.
fn unresolved_label(token: &Token) -> (r: Option<String>)
    ensures
        spec_name(r) == spec_unresolved(token@),
        r is None ==> token@.spec_is_resolved(),
{
    assert(token@.args[0] == spec_slot(token.args[0]));
    assert(token@.args[1] == spec_slot(token.args[1]));
    assert(token@.args[2] == spec_slot(token.args[2]));
    let mut k: usize = 0;
    while k < 3
        invariant
            k <= 3,
            forall|j: int|
                0 <= j < k ==> !(spec_slot(#[trigger] token.args[j]) matches Some(a) && a is Label),
        decreases 3 - k,
    {
        match &token.args[k] {
            Some(Argument::Label(l)) => {
                return Some(l.clone());
            },
            _ => {},
        }
        k += 1;
    }
    None
}

/// Writes the tokens out as bytes: the words of each token in order, each word as
/// its low byte followed by its high byte. Fails with `UnresolvedLabel` at the
/// first operand that is still a label. The tokens must be well formed.
pub fn convert_to_bytes(tokens: Vec<Token>) -> (r: Result<Vec<u8>, AssemblyError>)
    requires
        forall|k: int| 0 <= k < tokens@.len() ==> (#[trigger] tokens@[k])@.wf(),
    ensures
        spec_bytes_result(r) == spec_convert_to_bytes(spec_tokens(tokens@)),
{
    let ghost views = spec_tokens(tokens@);
    let mut image: Vec<WORD> = Vec::new();
    let mut k: usize = 0;
    assert(views.take(0) =~= Seq::empty());
    while k < tokens.len()
        invariant
            k <= tokens.len(),
            views == spec_tokens(tokens@),
            forall|j: int| 0 <= j < tokens@.len() ==> (#[trigger] tokens@[j])@.wf(),
            spec_first_unresolved(views, 0) == spec_first_unresolved(views, k as int),
            image@ == spec_image(views.take(k as int)),
        decreases tokens.len() - k,
    {
        assert(views[k as int] == tokens@[k as int]@);
        match unresolved_label(&tokens[k]) {
            Some(label) => {
                return Err(AssemblyError::UnresolvedLabel(label));
            },
            None => {},
        }
        let mut words = tokens[k].as_words();
        image.append(&mut words);
        k += 1;
        assert(views.take(k as int).drop_last() =~= views.take(k - 1));
    }
    assert(views.take(k as int) =~= views);
    Ok(words_to_bytes(image.as_slice()))
}

} // verus!
