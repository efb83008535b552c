//! The block scanner: splits a source text into a typed block sequence,
//! line by line with one line of lookahead, by lexical cues alone.

use crate::model::{Block, BlockView, Function, Module, ModuleView, Page, ParseError, spec_blocks};
use crate::text::{
    chars_to_string, contains_str, copy_chars, ends_with_char, first_token, is_blank,
    paren_interior, second_token, spec_contains, spec_ends_with, spec_first_token, spec_is_blank,
    spec_lines, spec_paren_interior, spec_second_token, spec_starts_with, spec_trim_end,
    spec_until_close, split_lines, starts_with_chars, starts_with_str, str_to_chars,
    take_until_close, trim_end_chars,
};
use vstd::prelude::*;

verus! {

/// The exposing text gathered from continuation lines, and how many lines
/// that consumed: content up to `)` from each line, stopping after the first
/// line that ends with `)`, or at the end of input.
pub open spec fn spec_exposing_cont(rest: Seq<Seq<char>>) -> (Seq<char>, nat)
    decreases rest.len(),
{
    if rest.len() == 0 {
        (Seq::empty(), 0 as nat)
    } else {
        let piece = spec_until_close(rest.first());
        if spec_ends_with(rest.first(), ')') {
            (piece, 1 as nat)
        } else {
            let r = spec_exposing_cont(rest.drop_first());
            (piece + r.0, 1 + r.1)
        }
    }
}

/// Continuation never consumes more lines than remain.
pub proof fn lemma_exposing_cont_le(rest: Seq<Seq<char>>)
    ensures
        spec_exposing_cont(rest).1 <= rest.len(),
    decreases rest.len(),
{
    if rest.len() > 0 && !spec_ends_with(rest.first(), ')') {
        lemma_exposing_cont_le(rest.drop_first());
    }
}

/// What a `module` or `import` line yields: the declaration and the count of
/// extra lines consumed, or the offending line. The name is the second
/// whitespace-delimited token; an `exposing` keyword starts a parenthesized
/// list that may continue over following lines until one ends with `)`.
pub open spec fn spec_module_line(line: Seq<char>, rest: Seq<Seq<char>>) -> Result<
    (ModuleView, nat),
    Seq<char>,
> {
    match spec_second_token(line) {
        Option::None => Result::Err(line),
        Option::Some(name) => if !spec_contains(line, "exposing"@) {
            Result::Ok((ModuleView { name, exposing: Option::None }, 0 as nat))
        } else {
            let base = spec_paren_interior(line);
            if spec_ends_with(line, ')') {
                Result::Ok((ModuleView { name, exposing: Option::Some(base) }, 0 as nat))
            } else {
                let r = spec_exposing_cont(rest);
                Result::Ok((ModuleView { name, exposing: Option::Some(base + r.0) }, r.1))
            }
        },
    }
}

/// Whether a line continues the function block of `name`: blank, indented,
/// or restarting with the same name (a further pattern-match clause).
pub open spec fn spec_is_cont(line: Seq<char>, name: Seq<char>) -> bool {
    spec_is_blank(line) || (line.len() > 0 && (line.first() == ' ' || line.first() == '\t'))
        || spec_starts_with(line, name + " "@)
}

/// How many following lines the function block of `name` absorbs.
pub open spec fn spec_fn_cont(rest: Seq<Seq<char>>, name: Seq<char>) -> nat
    decreases rest.len(),
{
    if rest.len() > 0 && spec_is_cont(rest.first(), name) {
        (1 + spec_fn_cont(rest.drop_first(), name)) as nat
    } else {
        0 as nat
    }
}

/// A function block never absorbs more lines than remain.
pub proof fn lemma_fn_cont_le(rest: Seq<Seq<char>>, name: Seq<char>)
    ensures
        spec_fn_cont(rest, name) <= rest.len(),
    decreases rest.len(),
{
    if rest.len() > 0 && spec_is_cont(rest.first(), name) {
        lemma_fn_cont_le(rest.drop_first(), name);
    }
}

/// What a recognized function line yields: the block's lines (the line
/// itself and every continuation line) and the count of lines consumed, or
/// the offending line when it has no name token.
pub open spec fn spec_fn_lines(line: Seq<char>, rest: Seq<Seq<char>>) -> Result<
    (Seq<Seq<char>>, nat),
    Seq<char>,
> {
    match spec_first_token(line) {
        Option::None => Result::Err(line),
        Option::Some(name) => {
            let k = spec_fn_cont(rest, name);
            Result::Ok((seq![line] + rest.take(k as int), k))
        },
    }
}

/// What the scanner makes of a line sequence: the block sequence, or the
/// first offending line. Prefixes are tried in order: `module `, `import `,
/// the five function keywords, and anything else becomes opaque text.
pub open spec fn spec_scan(lines: Seq<Seq<char>>) -> Result<Seq<BlockView>, Seq<char>>
    decreases lines.len(),
    via spec_scan_dec
{
    if lines.len() == 0 {
        Result::Ok(Seq::empty())
    } else {
        let line = lines.first();
        let rest = lines.drop_first();
        if spec_starts_with(line, "module "@) {
            match spec_module_line(line, rest) {
                Result::Err(e) => Result::Err(e),
                Result::Ok((m, k)) => match spec_scan(rest.skip(k as int)) {
                    Result::Err(e) => Result::Err(e),
                    Result::Ok(bs) => Result::Ok(seq![BlockView::Module(m)] + bs),
                },
            }
        } else if spec_starts_with(line, "import "@) {
            match spec_module_line(line, rest) {
                Result::Err(e) => Result::Err(e),
                Result::Ok((m, k)) => match spec_scan(rest.skip(k as int)) {
                    Result::Err(e) => Result::Err(e),
                    Result::Ok(bs) => Result::Ok(seq![BlockView::Import(m)] + bs),
                },
            }
        } else if spec_starts_with(line, "init "@) {
            match spec_fn_lines(line, rest) {
                Result::Err(e) => Result::Err(e),
                Result::Ok((ls, k)) => match spec_scan(rest.skip(k as int)) {
                    Result::Err(e) => Result::Err(e),
                    Result::Ok(bs) => Result::Ok(seq![BlockView::Init(ls)] + bs),
                },
            }
        } else if spec_starts_with(line, "update "@) {
            match spec_fn_lines(line, rest) {
                Result::Err(e) => Result::Err(e),
                Result::Ok((ls, k)) => match spec_scan(rest.skip(k as int)) {
                    Result::Err(e) => Result::Err(e),
                    Result::Ok(bs) => Result::Ok(seq![BlockView::Update(ls)] + bs),
                },
            }
        } else if spec_starts_with(line, "view "@) {
            match spec_fn_lines(line, rest) {
                Result::Err(e) => Result::Err(e),
                Result::Ok((ls, k)) => match spec_scan(rest.skip(k as int)) {
                    Result::Err(e) => Result::Err(e),
                    Result::Ok(bs) => Result::Ok(seq![BlockView::View(ls)] + bs),
                },
            }
        } else if spec_starts_with(line, "subscriptions "@) {
            match spec_fn_lines(line, rest) {
                Result::Err(e) => Result::Err(e),
                Result::Ok((ls, k)) => match spec_scan(rest.skip(k as int)) {
                    Result::Err(e) => Result::Err(e),
                    Result::Ok(bs) => Result::Ok(seq![BlockView::Subscriptions(ls)] + bs),
                },
            }
        } else if spec_starts_with(line, "page "@) {
            match spec_fn_lines(line, rest) {
                Result::Err(e) => Result::Err(e),
                Result::Ok((ls, k)) => match spec_scan(rest.skip(k as int)) {
                    Result::Err(e) => Result::Err(e),
                    Result::Ok(bs) => Result::Ok(seq![BlockView::Page(ls)] + bs),
                },
            }
        } else {
            match spec_scan(rest) {
                Result::Err(e) => Result::Err(e),
                Result::Ok(bs) => Result::Ok(seq![BlockView::Other(line)] + bs),
            }
        }
    }
}

#[via_fn]
proof fn spec_scan_dec(lines: Seq<Seq<char>>) {
    if lines.len() > 0 {
        let rest = lines.drop_first();
        lemma_exposing_cont_le(rest);
        assert forall|nm: Seq<char>| spec_fn_cont(rest, nm) <= rest.len() by {
            lemma_fn_cont_le(rest, nm);
        }
    }
}

/// The line sequence the scanner reads: the text's lines, each with its
/// trailing whitespace removed.
pub open spec fn spec_parse_lines(s: Seq<char>) -> Seq<Seq<char>> {
    spec_lines(s).map_values(|l: Seq<char>| spec_trim_end(l))
}

impl Module {
    /// Reads a `module`/`import` declaration from `line`, consuming
    /// continuation lines of `lines` from `pos` on when the exposing list
    /// spans several lines. Returns the declaration and the next unread
    /// position.
    pub fn parse(line: &Vec<char>, lines: &Vec<Vec<char>>, pos: usize) -> (r: Result<
        (Module, usize),
        ParseError,
    >)
        requires
            pos <= lines@.len(),
        ensures
            match r {
                Result::Ok(p) => pos <= p.1 <= lines@.len() && spec_module_line(
                    line@,
                    lines.deep_view().skip(pos as int),
                ) == Result::Ok::<(ModuleView, nat), Seq<char>>((p.0@, (p.1 - pos) as nat)),
                Result::Err(e) => spec_module_line(line@, lines.deep_view().skip(pos as int))
                    == Result::Err::<(ModuleView, nat), Seq<char>>(e.line@),
            },
    {
        let ghost rl = lines.deep_view();
        let name = match second_token(line) {
            Option::Some(n) => n,
            Option::None => {
                return Result::Err(ParseError { line: chars_to_string(line) });
            },
        };
        proof {
            reveal_strlit("exposing");
        }
        if !contains_str(line, "exposing") {
            return Result::Ok((Module { name, exposing: Option::None }, pos));
        }
        let base = paren_interior(line);
        if ends_with_char(line, ')') {
            return Result::Ok((Module { name, exposing: Option::Some(base) }, pos));
        }
        let ghost base0 = base@;
        let mut expo = base;
        let mut i: usize = pos;
        let ghost mut g = Seq::<char>::empty();
        proof {
            assert(expo@ =~= base0 + g);
        }
        loop
            invariant_except_break
                expo@ == base0 + g,
                spec_exposing_cont(rl.skip(pos as int)).0 == g + spec_exposing_cont(
                    rl.skip(i as int),
                ).0,
                spec_exposing_cont(rl.skip(pos as int)).1 == (i - pos) + spec_exposing_cont(
                    rl.skip(i as int),
                ).1,
            invariant
                rl == lines.deep_view(),
                pos <= i <= rl.len(),
            ensures
                pos <= i <= rl.len(),
                expo@ == base0 + spec_exposing_cont(rl.skip(pos as int)).0,
                i - pos == spec_exposing_cont(rl.skip(pos as int)).1,
            decreases rl.len() - i,
        {
            if i == lines.len() {
                proof {
                    assert(rl.skip(i as int).len() == 0);
                    assert(spec_exposing_cont(rl.skip(i as int)).0 == Seq::<char>::empty());
                    assert(g + Seq::<char>::empty() =~= g);
                    assert(expo@ =~= base0 + spec_exposing_cont(rl.skip(pos as int)).0);
                }
                break ;
            }
            let l = &lines[i];
            proof {
                assert(rl.skip(i as int).first() == rl[i as int]);
                assert(lines@[i as int].deep_view() =~= lines@[i as int]@);
                assert(l@.skip(0) =~= l@);
                assert(rl.skip(i as int).drop_first() =~= rl.skip(i as int + 1));
            }
            let piece = take_until_close(l, 0);
            crate::text::push_all(&mut expo, &piece);
            if ends_with_char(l, ')') {
                proof {
                    assert(spec_exposing_cont(rl.skip(i as int)).0 == piece@);
                    assert(spec_exposing_cont(rl.skip(i as int)).1 == 1);
                    assert(spec_exposing_cont(rl.skip(pos as int)).0 == g + piece@);
                    assert(expo@ =~= base0 + (g + piece@));
                }
                i = i + 1;
                break ;
            }
            proof {
                assert(spec_exposing_cont(rl.skip(i as int)).0 == piece@ + spec_exposing_cont(
                    rl.skip(i as int + 1),
                ).0);
                assert(spec_exposing_cont(rl.skip(i as int)).1 == 1 + spec_exposing_cont(
                    rl.skip(i as int + 1),
                ).1);
                assert(g + (piece@ + spec_exposing_cont(rl.skip(i as int + 1)).0) =~= (g + piece@)
                    + spec_exposing_cont(rl.skip(i as int + 1)).0);
                g = g + piece@;
            }
            i = i + 1;
        }
        Result::Ok((Module { name, exposing: Option::Some(expo) }, i))
    }
}

impl Function {
    /// Reads one function block: `line` and every following line of `lines`
    /// from `pos` on that is blank, indented, or restarts with the same
    /// name. Returns the block and the next unread position.
    pub fn parse(line: &Vec<char>, lines: &Vec<Vec<char>>, pos: usize) -> (r: Result<
        (Function, usize),
        ParseError,
    >)
        requires
            pos <= lines@.len(),
        ensures
            match r {
                Result::Ok(p) => pos <= p.1 <= lines@.len() && spec_fn_lines(
                    line@,
                    lines.deep_view().skip(pos as int),
                ) == Result::Ok::<(Seq<Seq<char>>, nat), Seq<char>>((p.0@, (p.1 - pos) as nat)),
                Result::Err(e) => spec_fn_lines(line@, lines.deep_view().skip(pos as int))
                    == Result::Err::<(Seq<Seq<char>>, nat), Seq<char>>(e.line@),
            },
    {
        let ghost rl = lines.deep_view();
        let name = match first_token(line) {
            Option::Some(n) => n,
            Option::None => {
                return Result::Err(ParseError { line: chars_to_string(line) });
            },
        };
        let mut name_sp = copy_chars(&name);
        name_sp.push(' ');
        proof {
            reveal_strlit(" ");
            assert(name_sp@ =~= name@ + " "@);
        }
        let mut flines: Vec<Vec<char>> = Vec::new();
        let lc = copy_chars(line);
        proof {
            assert(lc.deep_view() =~= line@);
        }
        flines.push(lc);
        proof {
            assert(flines.deep_view() =~= seq![line@] + rl.subrange(pos as int, pos as int));
        }
        let mut i: usize = pos;
        loop
            invariant
                rl == lines.deep_view(),
                name_sp@ == name@ + " "@,
                pos <= i <= rl.len(),
                flines.deep_view() == seq![line@] + rl.subrange(pos as int, i as int),
                spec_fn_cont(rl.skip(pos as int), name@) == (i - pos) + spec_fn_cont(
                    rl.skip(i as int),
                    name@,
                ),
            ensures
                pos <= i <= rl.len(),
                flines.deep_view() == seq![line@] + rl.subrange(pos as int, i as int),
                spec_fn_cont(rl.skip(pos as int), name@) == i - pos,
            decreases rl.len() - i,
        {
            if i == lines.len() {
                proof {
                    assert(rl.skip(i as int).len() == 0);
                }
                break ;
            }
            let l = &lines[i];
            proof {
                assert(rl.skip(i as int).first() == rl[i as int]);
                assert(lines@[i as int].deep_view() =~= lines@[i as int]@);
            }
            let c1 = is_blank(l);
            let c2 = l.len() > 0 && (l[0] == ' ' || l[0] == '\t');
            let c3 = starts_with_chars(l, &name_sp);
            if !(c1 || c2 || c3) {
                proof {
                    assert(!spec_is_cont(rl.skip(i as int).first(), name@));
                    assert(spec_fn_cont(rl.skip(i as int), name@) == 0);
                }
                break ;
            }
            let ghost old_deep = flines.deep_view();
            let cc = copy_chars(l);
            proof {
                assert(cc.deep_view() =~= l@);
            }
            flines.push(cc);
            proof {
                assert(spec_is_cont(rl.skip(i as int).first(), name@));
                assert(rl.skip(i as int).drop_first() =~= rl.skip(i as int + 1));
                assert(flines.deep_view() =~= old_deep + seq![l@]);
                assert((seq![line@] + rl.subrange(pos as int, i as int)) + seq![rl[i as int]]
                    =~= seq![line@] + rl.subrange(pos as int, i as int + 1));
            }
            i = i + 1;
        }
        proof {
            assert(rl.skip(pos as int).take((i - pos) as int) =~= rl.subrange(
                pos as int,
                i as int,
            ));
        }
        Result::Ok((Function { lines: flines }, i))
    }
}

impl Page {
    /// Parses a source text into its block sequence: lines are trimmed of
    /// trailing whitespace and scanned in order by line prefix.
    #[verifier::rlimit(100)]
    pub fn parse(text: &String) -> (r: Result<Page, ParseError>)
        ensures
            match r {
                Result::Ok(p) => spec_scan(spec_parse_lines(text@)) == Result::Ok::<
                    Seq<BlockView>,
                    Seq<char>,
                >(p@),
                Result::Err(e) => spec_scan(spec_parse_lines(text@)) == Result::Err::<
                    Seq<BlockView>,
                    Seq<char>,
                >(e.line@),
            },
    {
        let chars = str_to_chars(text.as_str());
        let raw = split_lines(&chars);
        let mut lines: Vec<Vec<char>> = Vec::new();
        let mut i: usize = 0;
        proof {
            assert(lines.deep_view() =~= spec_parse_lines(text@).take(0));
        }
        while i < raw.len()
            invariant
                raw.deep_view() == spec_lines(text@),
                i <= raw@.len(),
                raw@.len() == spec_parse_lines(text@).len(),
                lines.deep_view() == spec_parse_lines(text@).take(i as int),
            decreases raw@.len() - i,
        {
            let ghost old_deep = lines.deep_view();
            let t = trim_end_chars(&raw[i]);
            proof {
                assert(t.deep_view() =~= t@);
            }
            lines.push(t);
            proof {
                assert(raw@[i as int].deep_view() =~= raw@[i as int]@);
                assert(lines.deep_view() =~= old_deep + seq![t@]);
                assert(spec_parse_lines(text@)[i as int] == spec_trim_end(
                    spec_lines(text@)[i as int],
                ));
                assert(old_deep + seq![t@] =~= spec_parse_lines(text@).take(i as int + 1));
            }
            i = i + 1;
        }
        proof {
            assert(spec_parse_lines(text@).take(spec_parse_lines(text@).len() as int)
                =~= spec_parse_lines(text@));
        }
        let ghost rl = lines.deep_view();
        let mut blocks: Vec<Block> = Vec::new();
        let mut j: usize = 0;
        proof {
            assert(rl.skip(0) =~= rl);
            assert(spec_blocks(blocks@) =~= Seq::<BlockView>::empty());
            if spec_scan(rl) is Ok {
                assert(spec_blocks(blocks@) + spec_scan(rl)->Ok_0 =~= spec_scan(rl)->Ok_0);
            }
        }
        while j < lines.len()
            invariant
                rl == lines.deep_view(),
                rl == spec_parse_lines(text@),
                j <= rl.len(),
                match spec_scan(rl.skip(j as int)) {
                    Result::Ok(tail) => spec_scan(rl) == Result::Ok::<Seq<BlockView>, Seq<char>>(
                        spec_blocks(blocks@) + tail,
                    ),
                    Result::Err(e) => spec_scan(rl) == Result::Err::<Seq<BlockView>, Seq<char>>(e),
                },
            decreases rl.len() - j,
        {
            let l = &lines[j];
            proof {
                assert(rl.skip(j as int).first() == rl[j as int]);
                assert(lines@[j as int].deep_view() =~= lines@[j as int]@);
                assert(rl.skip(j as int).drop_first() =~= rl.skip(j as int + 1));
            }
            let ghost old_bv = spec_blocks(blocks@);
            if starts_with_str(l, "module ") {
                match Module::parse(l, &lines, j + 1) {
                    Result::Err(e) => {
                        return Result::Err(e);
                    },
                    Result::Ok((m, np)) => {
                        proof {
                            assert(rl.skip(j as int + 1).skip((np - (j + 1)) as int) =~= rl.skip(
                                np as int,
                            ));
                        }
                        let ghost bv = BlockView::Module(m@);
                        blocks.push(Block::Module(m));
                        proof {
                            assert(spec_blocks(blocks@) =~= old_bv + seq![bv]);
                            if spec_scan(rl.skip(np as int)) is Ok {
                                assert(old_bv + (seq![bv] + spec_scan(rl.skip(np as int))->Ok_0)
                                    =~= (old_bv + seq![bv]) + spec_scan(rl.skip(np as int))->Ok_0);
                            }
                        }
                        j = np;
                    },
                }
            } else if starts_with_str(l, "import ") {
                match Module::parse(l, &lines, j + 1) {
                    Result::Err(e) => {
                        return Result::Err(e);
                    },
                    Result::Ok((m, np)) => {
                        proof {
                            assert(rl.skip(j as int + 1).skip((np - (j + 1)) as int) =~= rl.skip(
                                np as int,
                            ));
                        }
                        let ghost bv = BlockView::Import(m@);
                        blocks.push(Block::Import(m));
                        proof {
                            assert(spec_blocks(blocks@) =~= old_bv + seq![bv]);
                            if spec_scan(rl.skip(np as int)) is Ok {
                                assert(old_bv + (seq![bv] + spec_scan(rl.skip(np as int))->Ok_0)
                                    =~= (old_bv + seq![bv]) + spec_scan(rl.skip(np as int))->Ok_0);
                            }
                        }
                        j = np;
                    },
                }
            } else if starts_with_str(l, "init ") {
                match Function::parse(l, &lines, j + 1) {
                    Result::Err(e) => {
                        return Result::Err(e);
                    },
                    Result::Ok((f, np)) => {
                        proof {
                            assert(rl.skip(j as int + 1).skip((np - (j + 1)) as int) =~= rl.skip(
                                np as int,
                            ));
                        }
                        let ghost bv = BlockView::Init(f@);
                        blocks.push(Block::Init(f));
                        proof {
                            assert(spec_blocks(blocks@) =~= old_bv + seq![bv]);
                            if spec_scan(rl.skip(np as int)) is Ok {
                                assert(old_bv + (seq![bv] + spec_scan(rl.skip(np as int))->Ok_0)
                                    =~= (old_bv + seq![bv]) + spec_scan(rl.skip(np as int))->Ok_0);
                            }
                        }
                        j = np;
                    },
                }
            } else if starts_with_str(l, "update ") {
                match Function::parse(l, &lines, j + 1) {
                    Result::Err(e) => {
                        return Result::Err(e);
                    },
                    Result::Ok((f, np)) => {
                        proof {
                            assert(rl.skip(j as int + 1).skip((np - (j + 1)) as int) =~= rl.skip(
                                np as int,
                            ));
                        }
                        let ghost bv = BlockView::Update(f@);
                        blocks.push(Block::Update(f));
                        proof {
                            assert(spec_blocks(blocks@) =~= old_bv + seq![bv]);
                            if spec_scan(rl.skip(np as int)) is Ok {
                                assert(old_bv + (seq![bv] + spec_scan(rl.skip(np as int))->Ok_0)
                                    =~= (old_bv + seq![bv]) + spec_scan(rl.skip(np as int))->Ok_0);
                            }
                        }
                        j = np;
                    },
                }
            } else if starts_with_str(l, "view ") {
                match Function::parse(l, &lines, j + 1) {
                    Result::Err(e) => {
                        return Result::Err(e);
                    },
                    Result::Ok((f, np)) => {
                        proof {
                            assert(rl.skip(j as int + 1).skip((np - (j + 1)) as int) =~= rl.skip(
                                np as int,
                            ));
                        }
                        let ghost bv = BlockView::View(f@);
                        blocks.push(Block::View(f));
                        proof {
                            assert(spec_blocks(blocks@) =~= old_bv + seq![bv]);
                            if spec_scan(rl.skip(np as int)) is Ok {
                                assert(old_bv + (seq![bv] + spec_scan(rl.skip(np as int))->Ok_0)
                                    =~= (old_bv + seq![bv]) + spec_scan(rl.skip(np as int))->Ok_0);
                            }
                        }
                        j = np;
                    },
                }
            } else if starts_with_str(l, "subscriptions ") {
                match Function::parse(l, &lines, j + 1) {
                    Result::Err(e) => {
                        return Result::Err(e);
                    },
                    Result::Ok((f, np)) => {
                        proof {
                            assert(rl.skip(j as int + 1).skip((np - (j + 1)) as int) =~= rl.skip(
                                np as int,
                            ));
                        }
                        let ghost bv = BlockView::Subscriptions(f@);
                        blocks.push(Block::Subscriptions(f));
                        proof {
                            assert(spec_blocks(blocks@) =~= old_bv + seq![bv]);
                            if spec_scan(rl.skip(np as int)) is Ok {
                                assert(old_bv + (seq![bv] + spec_scan(rl.skip(np as int))->Ok_0)
                                    =~= (old_bv + seq![bv]) + spec_scan(rl.skip(np as int))->Ok_0);
                            }
                        }
                        j = np;
                    },
                }
            } else if starts_with_str(l, "page ") {
                match Function::parse(l, &lines, j + 1) {
                    Result::Err(e) => {
                        return Result::Err(e);
                    },
                    Result::Ok((f, np)) => {
                        proof {
                            assert(rl.skip(j as int + 1).skip((np - (j + 1)) as int) =~= rl.skip(
                                np as int,
                            ));
                        }
                        let ghost bv = BlockView::Page(f@);
                        blocks.push(Block::Page(f));
                        proof {
                            assert(spec_blocks(blocks@) =~= old_bv + seq![bv]);
                            if spec_scan(rl.skip(np as int)) is Ok {
                                assert(old_bv + (seq![bv] + spec_scan(rl.skip(np as int))->Ok_0)
                                    =~= (old_bv + seq![bv]) + spec_scan(rl.skip(np as int))->Ok_0);
                            }
                        }
                        j = np;
                    },
                }
            } else {
                let ghost bv = BlockView::Other(l@);
                blocks.push(Block::Other(copy_chars(l)));
                proof {
                    assert(spec_blocks(blocks@) =~= old_bv + seq![bv]);
                    if spec_scan(rl.skip(j as int + 1)) is Ok {
                        assert(old_bv + (seq![bv] + spec_scan(rl.skip(j as int + 1))->Ok_0)
                            =~= (old_bv + seq![bv]) + spec_scan(rl.skip(j as int + 1))->Ok_0);
                    }
                }
                j = j + 1;
            }
        }
        proof {
            assert(rl.skip(rl.len() as int).len() == 0);
            assert(spec_scan(rl.skip(rl.len() as int)) == Result::Ok::<Seq<BlockView>, Seq<char>>(
                Seq::<BlockView>::empty(),
            ));
            assert(spec_blocks(blocks@) + Seq::<BlockView>::empty() =~= spec_blocks(blocks@));
        }
        Result::Ok(Page { blocks })
    }
}

} // verus!
