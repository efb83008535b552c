//! The renderer: serializes a block sequence back to text, one block at a
//! time, preserving the per-kind spacing conventions.

use crate::model::{Block, BlockView, Function, Module, ModuleView, Page};
use crate::text::{chars_to_string, push_all, push_str_chars};
use vstd::prelude::*;

verus! {

/// One declaration line: the keyword, the name, and the `exposing` list when
/// present, closed by a newline.
pub open spec fn spec_render_module(kw: Seq<char>, m: ModuleView) -> Seq<char> {
    match m.exposing {
        Option::Some(e) => kw + m.name + " exposing ("@ + e + ")\n"@,
        Option::None => kw + m.name + "\n"@,
    }
}

/// Raw lines each closed by a newline, concatenated.
pub open spec fn spec_render_lines(ls: Seq<Seq<char>>) -> Seq<char>
    decreases ls.len(),
{
    if ls.len() == 0 {
        Seq::empty()
    } else {
        ls.first() + "\n"@ + spec_render_lines(ls.drop_first())
    }
}

/// A function block: a leading blank line, the raw lines, a trailing blank
/// line.
pub open spec fn spec_render_fn(ls: Seq<Seq<char>>) -> Seq<char> {
    "\n"@ + spec_render_lines(ls) + "\n"@
}

/// The text of one block.
pub open spec fn spec_render_block(b: BlockView) -> Seq<char> {
    match b {
        BlockView::Module(m) => spec_render_module("module "@, m),
        BlockView::Import(m) => spec_render_module("import "@, m),
        BlockView::Init(ls) => spec_render_fn(ls),
        BlockView::View(ls) => spec_render_fn(ls),
        BlockView::Update(ls) => spec_render_fn(ls),
        BlockView::Subscriptions(ls) => spec_render_fn(ls),
        BlockView::Page(ls) => spec_render_fn(ls),
        BlockView::Other(t) => t + "\n"@,
    }
}

/// The text of a block sequence: each block's text, in sequence order.
pub open spec fn spec_render(bs: Seq<BlockView>) -> Seq<char>
    decreases bs.len(),
{
    if bs.len() == 0 {
        Seq::empty()
    } else {
        spec_render_block(bs.first()) + spec_render(bs.drop_first())
    }
}

/// Rendering distributes over appending one line.
pub proof fn lemma_render_lines_snoc(ls: Seq<Seq<char>>, x: Seq<char>)
    ensures
        spec_render_lines(ls.push(x)) == spec_render_lines(ls) + x + "\n"@,
    decreases ls.len(),
{
    if ls.len() == 0 {
        assert(ls.push(x).drop_first() =~= Seq::<Seq<char>>::empty());
        assert(spec_render_lines(Seq::<Seq<char>>::empty()) == Seq::<char>::empty());
        assert(spec_render_lines(ls.push(x)) =~= spec_render_lines(ls) + x + "\n"@);
    } else {
        assert(ls.push(x).drop_first() =~= ls.drop_first().push(x));
        lemma_render_lines_snoc(ls.drop_first(), x);
        assert(spec_render_lines(ls.push(x)) =~= spec_render_lines(ls) + x + "\n"@);
    }
}

/// Rendering distributes over appending one block.
pub proof fn lemma_render_snoc(bs: Seq<BlockView>, b: BlockView)
    ensures
        spec_render(bs.push(b)) == spec_render(bs) + spec_render_block(b),
    decreases bs.len(),
{
    if bs.len() == 0 {
        assert(bs.push(b).drop_first() =~= Seq::<BlockView>::empty());
        assert(spec_render(Seq::<BlockView>::empty()) == Seq::<char>::empty());
        assert(spec_render(bs.push(b)) =~= spec_render(bs) + spec_render_block(b));
    } else {
        assert(bs.push(b).drop_first() =~= bs.drop_first().push(b));
        lemma_render_snoc(bs.drop_first(), b);
        assert(spec_render(bs.push(b)) =~= spec_render(bs) + spec_render_block(b));
    }
}

/// Serializes one declaration line.
fn render_module(kw: &str, m: &Module) -> (r: Vec<char>)
    ensures
        r@ == spec_render_module(kw@, m@),
{
    let mut out: Vec<char> = Vec::new();
    push_str_chars(&mut out, kw);
    push_all(&mut out, &m.name);
    match &m.exposing {
        Option::Some(e) => {
            push_str_chars(&mut out, " exposing (");
            push_all(&mut out, e);
            push_str_chars(&mut out, ")\n");
            proof {
                assert(out@ =~= spec_render_module(kw@, m@));
            }
        },
        Option::None => {
            push_str_chars(&mut out, "\n");
            proof {
                assert(out@ =~= spec_render_module(kw@, m@));
            }
        },
    }
    out
}

/// Serializes a function block: blank line, raw lines, blank line.
fn render_fn(f: &Function) -> (r: Vec<char>)
    ensures
        r@ == spec_render_fn(f@),
{
    let mut out: Vec<char> = Vec::new();
    push_str_chars(&mut out, "\n");
    let mut i: usize = 0;
    proof {
        assert(f@.take(0) =~= Seq::<Seq<char>>::empty());
        assert(out@ =~= "\n"@ + spec_render_lines(f@.take(0)));
    }
    while i < f.lines.len()
        invariant
            i <= f.lines@.len(),
            f@.len() == f.lines@.len(),
            out@ == "\n"@ + spec_render_lines(f@.take(i as int)),
        decreases f.lines@.len() - i,
    {
        push_all(&mut out, &f.lines[i]);
        push_str_chars(&mut out, "\n");
        proof {
            assert(f.lines[i as int].deep_view() =~= f.lines@[i as int]@);
            assert(f@.take(i as int).push(f@[i as int]) =~= f@.take(i as int + 1));
            lemma_render_lines_snoc(f@.take(i as int), f@[i as int]);
            assert(out@ =~= "\n"@ + spec_render_lines(f@.take(i as int + 1)));
        }
        i = i + 1;
    }
    push_str_chars(&mut out, "\n");
    proof {
        assert(f@.take(f@.len() as int) =~= f@);
        assert(out@ =~= spec_render_fn(f@));
    }
    out
}

impl Block {
    /// Serializes one block by its kind's convention.
    pub fn render(&self) -> (r: Vec<char>)
        ensures
            r@ == spec_render_block(self@),
    {
        match self {
            Block::Module(m) => render_module("module ", m),
            Block::Import(m) => render_module("import ", m),
            Block::Init(f) => render_fn(f),
            Block::View(f) => render_fn(f),
            Block::Update(f) => render_fn(f),
            Block::Subscriptions(f) => render_fn(f),
            Block::Page(f) => render_fn(f),
            Block::Other(t) => {
                let mut out: Vec<char> = Vec::new();
                push_all(&mut out, t);
                push_str_chars(&mut out, "\n");
                out
            },
        }
    }
}

impl Page {
    /// Serializes the page: each block's text, concatenated in order.
    pub fn render(&self) -> (r: String)
        ensures
            r@ == spec_render(self@),
    {
        let mut out: Vec<char> = Vec::new();
        let mut i: usize = 0;
        proof {
            assert(self@.take(0) =~= Seq::<BlockView>::empty());
            assert(out@ =~= spec_render(self@.take(0)));
        }
        while i < self.blocks.len()
            invariant
                i <= self.blocks@.len(),
                self@.len() == self.blocks@.len(),
                out@ == spec_render(self@.take(i as int)),
            decreases self.blocks@.len() - i,
        {
            let b = self.blocks[i].render();
            push_all(&mut out, &b);
            proof {
                assert(self@.take(i as int).push(self@[i as int]) =~= self@.take(i as int + 1));
                lemma_render_snoc(self@.take(i as int), self@[i as int]);
            }
            i = i + 1;
        }
        proof {
            assert(self@.take(self@.len() as int) =~= self@);
        }
        chars_to_string(&out)
    }
}

} // verus!
