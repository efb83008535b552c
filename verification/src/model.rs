//! The block model: module/import descriptors, functions as raw line runs,
//! tagged blocks, and a page as an ordered block sequence.

use vstd::prelude::*;
use vstd::string::StringExecFns;

verus! {

/// Mathematical image of a module or import declaration.
pub struct ModuleView {
    pub name: Seq<char>,
    pub exposing: Option<Seq<char>>,
}

/// A `module` or `import` declaration: the dotted name and the optional raw
/// interior of its parenthesized `exposing` list.
#[derive(Debug)]
pub struct Module {
    pub name: Vec<char>,
    pub exposing: Option<Vec<char>>,
}

impl View for Module {
    type V = ModuleView;

    open spec fn view(&self) -> ModuleView {
        ModuleView {
            name: self.name@,
            exposing: match self.exposing {
                Option::Some(e) => Option::Some(e@),
                Option::None => Option::None,
            },
        }
    }
}

/// One top-level definition: its raw source lines, in order. The first line
/// starts with the definition's name; the rest are its continuation lines.
#[derive(Debug)]
pub struct Function {
    pub lines: Vec<Vec<char>>,
}

impl View for Function {
    type V = Seq<Seq<char>>;

    open spec fn view(&self) -> Seq<Seq<char>> {
        self.lines.deep_view()
    }
}

/// Mathematical image of one parsed block.
pub enum BlockView {
    Module(ModuleView),
    Import(ModuleView),
    Init(Seq<Seq<char>>),
    View(Seq<Seq<char>>),
    Update(Seq<Seq<char>>),
    Subscriptions(Seq<Seq<char>>),
    Page(Seq<Seq<char>>),
    Other(Seq<char>),
}

/// One semantically tagged unit of the parsed source: a declaration, one of
/// the five recognized function kinds, or opaque text carried through.
#[derive(Debug)]
pub enum Block {
    Module(Module),
    Import(Module),
    Init(Function),
    View(Function),
    Update(Function),
    Subscriptions(Function),
    Page(Function),
    Other(Vec<char>),
}

impl View for Block {
    type V = BlockView;

    open spec fn view(&self) -> BlockView {
        match self {
            Block::Module(m) => BlockView::Module(m@),
            Block::Import(m) => BlockView::Import(m@),
            Block::Init(f) => BlockView::Init(f@),
            Block::View(f) => BlockView::View(f@),
            Block::Update(f) => BlockView::Update(f@),
            Block::Subscriptions(f) => BlockView::Subscriptions(f@),
            Block::Page(f) => BlockView::Page(f@),
            Block::Other(t) => BlockView::Other(t@),
        }
    }
}

/// A parsed source file: its blocks, in source order.
#[derive(Debug)]
pub struct Page {
    pub blocks: Vec<Block>,
}

/// The mathematical image of a block sequence.
pub open spec fn spec_blocks(bs: Seq<Block>) -> Seq<BlockView> {
    Seq::new(bs.len(), |i: int| bs[i]@)
}

impl View for Page {
    type V = Seq<BlockView>;

    open spec fn view(&self) -> Seq<BlockView> {
        spec_blocks(self.blocks@)
    }
}

/// A recognized keyword line lacked the following token it required.
#[derive(Debug)]
pub struct ParseError {
    pub line: String,
}

impl ParseError {
    /// The report shown to the user, naming the offending line.
    pub fn message(&self) -> (r: String)
        ensures
            r@ == "Failed to parse: "@ + self.line@,
    {
        let mut r = String::new();
        r.append("Failed to parse: ");
        r.append(self.line.as_str());
        r
    }
}

} // verus!
