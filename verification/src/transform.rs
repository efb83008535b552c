//! The transformation engine: rewrites a parsed block sequence for a chosen
//! archetype and toggle pair — injecting imports, rewriting the module
//! header, replacing recognized function blocks (preserving the originals as
//! comments), and back-filling whatever required blocks are missing.

use crate::model::{Block, BlockView, Function, Module, ModuleView, Page, spec_blocks};
use crate::template::{
    PageType, spec_exposing_template, spec_init_template, spec_page_template,
    spec_subscriptions_template, spec_update_template, spec_view_template,
};
use crate::text::{
    chars_eq, push_all, push_str_chars, spec_lines, spec_starts_with, spec_strip_all, spec_trim,
    split_lines, starts_with_str, str_to_chars, strip_all_prefix, trim_chars,
};
use vstd::prelude::*;

verus! {

/// Whether the block is an import of exactly this module name.
pub open spec fn spec_is_import_named(b: BlockView, name: Seq<char>) -> bool {
    match b {
        BlockView::Import(m) => m.name == name,
        _ => false,
    }
}

/// Whether some block imports this module name.
pub open spec fn spec_has_import(bs: Seq<BlockView>, name: Seq<char>) -> bool {
    exists|i: int| 0 <= i < bs.len() && spec_is_import_named(bs[i], name)
}

/// An import block of the given name and exposing list.
pub open spec fn spec_import(name: Seq<char>, exposing: Option<Seq<char>>) -> BlockView {
    BlockView::Import(ModuleView { name, exposing })
}

/// The position of the first import of this name, or -1 when there is none.
pub open spec fn spec_find_import(bs: Seq<BlockView>, name: Seq<char>) -> int
    decreases bs.len(),
{
    if bs.len() == 0 {
        -1
    } else if spec_is_import_named(bs.first(), name) {
        0
    } else {
        let r = spec_find_import(bs.drop_first(), name);
        if r == -1 {
            -1
        } else {
            1 + r
        }
    }
}

/// What the found position means: -1 exactly when no such import exists;
/// otherwise the first position holding one.
pub proof fn lemma_find_import_props(bs: Seq<BlockView>, name: Seq<char>)
    ensures
        spec_find_import(bs, name) == -1 ==> !spec_has_import(bs, name),
        spec_find_import(bs, name) != -1 ==> 0 <= spec_find_import(bs, name) < bs.len()
            && spec_is_import_named(bs[spec_find_import(bs, name)], name),
    decreases bs.len(),
{
    if bs.len() > 0 && !spec_is_import_named(bs.first(), name) {
        lemma_find_import_props(bs.drop_first(), name);
        if spec_find_import(bs.drop_first(), name) == -1 {
            assert forall|i: int| 0 <= i < bs.len() implies !spec_is_import_named(
                bs[i],
                name,
            ) by {
                if i > 0 {
                    assert(bs.drop_first()[i - 1] == bs[i]);
                }
            }
        }
    }
}

/// A position that holds the name, with none before it, is the found one.
pub proof fn lemma_find_import_first(bs: Seq<BlockView>, name: Seq<char>, i: int)
    requires
        0 <= i < bs.len(),
        spec_is_import_named(bs[i], name),
        forall|j: int| 0 <= j < i ==> !spec_is_import_named(bs[j], name),
    ensures
        spec_find_import(bs, name) == i,
    decreases bs.len(),
{
    if !spec_is_import_named(bs.first(), name) {
        assert(bs.drop_first()[i - 1] == bs[i]);
        assert(forall|j: int|
            0 <= j < i - 1 ==> bs.drop_first()[j] == bs[j + 1] && !spec_is_import_named(
                bs.drop_first()[j],
                name,
            ));
        lemma_find_import_first(bs.drop_first(), name, i - 1);
    }
}

/// The import with its exposing list extended: the new entry prefixed to an
/// existing list, or standing alone where there was none.
pub open spec fn spec_merge_exposing(
    m: ModuleView,
    with_comma: Seq<char>,
    alone: Seq<char>,
) -> ModuleView {
    ModuleView {
        name: m.name,
        exposing: match m.exposing {
            Option::Some(e) => Option::Some(with_comma + e),
            Option::None => Option::Some(alone),
        },
    }
}

/// The block sequence with its first `Page` import, if any, given `Page` in
/// its exposing list.
pub open spec fn spec_merge_page(bs: Seq<BlockView>) -> Seq<BlockView> {
    if spec_has_import(bs, "Page"@) {
        let i = spec_find_import(bs, "Page"@);
        bs.update(
            i,
            match bs[i] {
                BlockView::Import(m) => BlockView::Import(
                    spec_merge_exposing(m, "Page, "@, "Page"@),
                ),
                _ => bs[i],
            },
        )
    } else {
        bs
    }
}

/// The imports injected ahead of the rewritten page: the shared module when
/// the shared toggle asks for one not present, the request module likewise
/// (exposing its request type), the page-wiring module when absent, and the
/// effect module for the `Advanced` archetype.
pub open spec fn spec_pre_imports(
    bs: Seq<BlockView>,
    t: PageType,
    shared: bool,
    request: bool,
) -> Seq<BlockView> {
    let s1 = if shared && !spec_has_import(bs, "Shared"@) {
        seq![spec_import("Shared"@, Option::None)]
    } else {
        Seq::empty()
    };
    let s2 = if request && !spec_has_import(bs, "Request"@) {
        seq![spec_import("Request"@, Option::Some("Request"@))]
    } else {
        Seq::empty()
    };
    let s3 = if !spec_has_import(bs, "Page"@) {
        seq![spec_import("Page"@, Option::Some("Page"@))]
    } else {
        Seq::empty()
    };
    let s4 = if t == PageType::Advanced && !spec_has_import(bs, "Effect"@) {
        seq![spec_import("Effect"@, Option::Some("Effect"@))]
    } else {
        Seq::empty()
    };
    s1 + s2 + s3 + s4
}

/// The original lines of a replaced block, each behind a line-comment
/// marker, joined by newlines.
pub open spec fn spec_comment_lines(ls: Seq<Seq<char>>) -> Seq<char>
    decreases ls.len(),
{
    if ls.len() == 0 {
        Seq::empty()
    } else if ls.len() == 1 {
        "-- "@ + ls.first()
    } else {
        "-- "@ + ls.first() + "\n"@ + spec_comment_lines(ls.drop_first())
    }
}

/// Commenting distributes over appending one line.
pub proof fn lemma_comment_lines_snoc(ls: Seq<Seq<char>>, x: Seq<char>)
    ensures
        spec_comment_lines(ls.push(x)) == if ls.len() == 0 {
            "-- "@ + x
        } else {
            spec_comment_lines(ls) + "\n"@ + "-- "@ + x
        },
    decreases ls.len(),
{
    if ls.len() == 0 {
        assert(ls.push(x).first() == x);
        assert(spec_comment_lines(ls.push(x)) == "-- "@ + x);
    } else if ls.len() == 1 {
        assert(ls.push(x).drop_first() =~= ls.drop_first().push(x));
        assert(ls.push(x).drop_first() =~= seq![x]);
        assert(spec_comment_lines(seq![x]) == "-- "@ + x);
        assert(spec_comment_lines(ls.push(x)) =~= spec_comment_lines(ls) + "\n"@ + "-- "@ + x);
    } else {
        assert(ls.push(x).drop_first() =~= ls.drop_first().push(x));
        lemma_comment_lines_snoc(ls.drop_first(), x);
        assert(spec_comment_lines(ls.push(x)) =~= spec_comment_lines(ls) + "\n"@ + "-- "@ + x);
    }
}

/// The module name of the page's sibling parameters module: the fixed params
/// namespace, then the page's name stripped of its originating namespace.
pub open spec fn spec_params_name(name: Seq<char>) -> Seq<char> {
    "Gen.Params."@ + spec_strip_all(name, "Pages."@)
}

/// What one original block contributes to the output: a module header is
/// rewritten (and its params import merged into the accumulator or added); a
/// recognized function block becomes its generated replacement followed by
/// the commented original; anything else is carried through.
pub open spec fn spec_step(
    acc: Seq<BlockView>,
    b: BlockView,
    t: PageType,
    shared: bool,
    request: bool,
) -> Seq<BlockView> {
    match b {
        BlockView::Module(m) => {
            let gen = spec_params_name(m.name);
            let acc1 = if spec_has_import(acc, gen) {
                let i = spec_find_import(acc, gen);
                acc.update(
                    i,
                    match acc[i] {
                        BlockView::Import(im) => BlockView::Import(
                            spec_merge_exposing(im, "Params, "@, "Params"@),
                        ),
                        _ => acc[i],
                    },
                )
            } else {
                acc.push(spec_import(gen, Option::Some("Params"@)))
            };
            acc1.insert(
                0,
                BlockView::Module(
                    ModuleView { name: m.name, exposing: Option::Some(spec_exposing_template(t)) },
                ),
            )
        },
        BlockView::Init(ls) => acc + seq![
            BlockView::Init(spec_lines(spec_init_template(t, shared, request))),
            BlockView::Other(spec_comment_lines(ls)),
        ],
        BlockView::Update(ls) => acc + seq![
            BlockView::Update(spec_lines(spec_update_template(t, shared, request))),
            BlockView::Other(spec_comment_lines(ls)),
        ],
        BlockView::View(ls) => acc + seq![
            BlockView::View(spec_lines(spec_view_template(t, shared, request))),
            BlockView::Other(spec_comment_lines(ls)),
        ],
        BlockView::Subscriptions(ls) => acc + seq![
            BlockView::Subscriptions(spec_lines(spec_subscriptions_template(t, shared, request))),
            BlockView::Other(spec_comment_lines(ls)),
        ],
        BlockView::Page(ls) => acc + seq![
            BlockView::Page(spec_lines(spec_page_template(t, shared, request))),
            BlockView::Other(spec_comment_lines(ls)),
        ],
        _ => acc.push(b),
    }
}

/// The accumulator after every original block has contributed, in order.
pub open spec fn spec_transform_loop(
    acc: Seq<BlockView>,
    bs: Seq<BlockView>,
    t: PageType,
    shared: bool,
    request: bool,
) -> Seq<BlockView>
    decreases bs.len(),
{
    if bs.len() == 0 {
        acc
    } else {
        spec_transform_loop(
            spec_step(acc, bs.first(), t, shared, request),
            bs.drop_first(),
            t,
            shared,
            request,
        )
    }
}

/// Whether some block is a `page` function block.
pub open spec fn spec_has_page_block(bs: Seq<BlockView>) -> bool {
    exists|i: int| 0 <= i < bs.len() && bs[i] is Page
}

/// Whether some block is an `init` function block.
pub open spec fn spec_has_init_block(bs: Seq<BlockView>) -> bool {
    exists|i: int| 0 <= i < bs.len() && bs[i] is Init
}

/// Whether some block is an `update` function block.
pub open spec fn spec_has_update_block(bs: Seq<BlockView>) -> bool {
    exists|i: int| 0 <= i < bs.len() && bs[i] is Update
}

/// Whether some block is a `view` function block.
pub open spec fn spec_has_view_block(bs: Seq<BlockView>) -> bool {
    exists|i: int| 0 <= i < bs.len() && bs[i] is View
}

/// Whether some block is a `subscriptions` function block.
pub open spec fn spec_has_subscriptions_block(bs: Seq<BlockView>) -> bool {
    exists|i: int| 0 <= i < bs.len() && bs[i] is Subscriptions
}

/// Whether some opaque block starts with the given text.
pub open spec fn spec_has_other_prefix(bs: Seq<BlockView>, p: Seq<char>) -> bool {
    exists|i: int|
        0 <= i < bs.len() && match #[trigger] bs[i] {
            BlockView::Other(tx) => spec_starts_with(tx, p),
            _ => false,
        }
}

/// Whether some opaque block declares the message type.
pub open spec fn spec_has_msg_decl(bs: Seq<BlockView>) -> bool {
    exists|i: int|
        0 <= i < bs.len() && match #[trigger] bs[i] {
            BlockView::Other(tx) => spec_starts_with(tx, "type Msg "@) || spec_trim(tx)
                == "type Msg"@,
            _ => false,
        }
}

/// The blocks appended when required declarations are missing: the `page`
/// wiring always; a default model alias, message type, `subscriptions`,
/// `init` and `update` as the archetype requires them; a default `view`
/// whenever none survived.
pub open spec fn spec_backfill(
    acc: Seq<BlockView>,
    t: PageType,
    shared: bool,
    request: bool,
) -> Seq<BlockView> {
    let a1 = if !spec_has_page_block(acc) {
        acc.push(BlockView::Other(spec_page_template(t, shared, request)))
    } else {
        acc
    };
    let a2 = if t != PageType::Static && !spec_has_other_prefix(a1, "type alias Model ="@) {
        a1.push(BlockView::Other("\ntype alias Model = {}\n\n"@))
    } else {
        a1
    };
    let a3 = if t != PageType::Static && !spec_has_msg_decl(a2) {
        a2.push(BlockView::Other("\ntype Msg = ReplaceMe\n\n"@))
    } else {
        a2
    };
    let a4 = if t != PageType::Static && t != PageType::Sandbox && !spec_has_subscriptions_block(
        a3,
    ) {
        a3.push(BlockView::Other(spec_subscriptions_template(t, shared, request)))
    } else {
        a3
    };
    let a5 = if t != PageType::Static && !spec_has_init_block(a4) {
        a4.push(BlockView::Other(spec_init_template(t, shared, request)))
    } else {
        a4
    };
    let a6 = if t != PageType::Static && !spec_has_update_block(a5) {
        a5.push(BlockView::Other(spec_update_template(t, shared, request)))
    } else {
        a5
    };
    if !spec_has_view_block(a6) {
        a6.push(BlockView::Other(spec_view_template(t, shared, request)))
    } else {
        a6
    }
}

/// Whether some block imports the named module.
fn has_import(blocks: &Vec<Block>, name: &Vec<char>) -> (r: bool)
    ensures
        r == spec_has_import(spec_blocks(blocks@), name@),
{
    let mut i: usize = 0;
    while i < blocks.len()
        invariant
            i <= blocks@.len(),
            forall|j: int|
                0 <= j < i ==> !spec_is_import_named(spec_blocks(blocks@)[j], name@),
        decreases blocks@.len() - i,
    {
        match &blocks[i] {
            Block::Import(m) => {
                if chars_eq(&m.name, name) {
                    proof {
                        assert(spec_is_import_named(spec_blocks(blocks@)[i as int], name@));
                    }
                    return true;
                }
            },
            _ => {},
        }
        i = i + 1;
    }
    false
}

/// The first position importing the named module, if any.
fn find_import(blocks: &Vec<Block>, name: &Vec<char>) -> (r: Option<usize>)
    ensures
        match r {
            Option::Some(i) => i < blocks@.len() && spec_find_import(
                spec_blocks(blocks@),
                name@,
            ) == i as int && spec_has_import(spec_blocks(blocks@), name@),
            Option::None => !spec_has_import(spec_blocks(blocks@), name@),
        },
{
    let mut i: usize = 0;
    while i < blocks.len()
        invariant
            i <= blocks@.len(),
            forall|j: int|
                0 <= j < i ==> !spec_is_import_named(spec_blocks(blocks@)[j], name@),
        decreases blocks@.len() - i,
    {
        match &blocks[i] {
            Block::Import(m) => {
                if chars_eq(&m.name, name) {
                    proof {
                        assert(spec_is_import_named(spec_blocks(blocks@)[i as int], name@));
                        lemma_find_import_first(spec_blocks(blocks@), name@, i as int);
                    }
                    return Option::Some(i);
                }
            },
            _ => {},
        }
        i = i + 1;
    }
    Option::None
}

/// Whether some block is a `page` function block.
fn has_page_block(blocks: &Vec<Block>) -> (r: bool)
    ensures
        r == spec_has_page_block(spec_blocks(blocks@)),
{
    let mut i: usize = 0;
    while i < blocks.len()
        invariant
            i <= blocks@.len(),
            forall|j: int| 0 <= j < i ==> !(spec_blocks(blocks@)[j] is Page),
        decreases blocks@.len() - i,
    {
        match &blocks[i] {
            Block::Page(_) => {
                proof {
                    assert(spec_blocks(blocks@)[i as int] is Page);
                }
                return true;
            },
            _ => {},
        }
        i = i + 1;
    }
    false
}

/// Whether some block is an `init` function block.
fn has_init_block(blocks: &Vec<Block>) -> (r: bool)
    ensures
        r == spec_has_init_block(spec_blocks(blocks@)),
{
    let mut i: usize = 0;
    while i < blocks.len()
        invariant
            i <= blocks@.len(),
            forall|j: int| 0 <= j < i ==> !(spec_blocks(blocks@)[j] is Init),
        decreases blocks@.len() - i,
    {
        match &blocks[i] {
            Block::Init(_) => {
                proof {
                    assert(spec_blocks(blocks@)[i as int] is Init);
                }
                return true;
            },
            _ => {},
        }
        i = i + 1;
    }
    false
}

/// Whether some block is an `update` function block.
fn has_update_block(blocks: &Vec<Block>) -> (r: bool)
    ensures
        r == spec_has_update_block(spec_blocks(blocks@)),
{
    let mut i: usize = 0;
    while i < blocks.len()
        invariant
            i <= blocks@.len(),
            forall|j: int| 0 <= j < i ==> !(spec_blocks(blocks@)[j] is Update),
        decreases blocks@.len() - i,
    {
        match &blocks[i] {
            Block::Update(_) => {
                proof {
                    assert(spec_blocks(blocks@)[i as int] is Update);
                }
                return true;
            },
            _ => {},
        }
        i = i + 1;
    }
    false
}

/// Whether some block is a `view` function block.
fn has_view_block(blocks: &Vec<Block>) -> (r: bool)
    ensures
        r == spec_has_view_block(spec_blocks(blocks@)),
{
    let mut i: usize = 0;
    while i < blocks.len()
        invariant
            i <= blocks@.len(),
            forall|j: int| 0 <= j < i ==> !(spec_blocks(blocks@)[j] is View),
        decreases blocks@.len() - i,
    {
        match &blocks[i] {
            Block::View(_) => {
                proof {
                    assert(spec_blocks(blocks@)[i as int] is View);
                }
                return true;
            },
            _ => {},
        }
        i = i + 1;
    }
    false
}

/// Whether some block is a `subscriptions` function block.
fn has_subscriptions_block(blocks: &Vec<Block>) -> (r: bool)
    ensures
        r == spec_has_subscriptions_block(spec_blocks(blocks@)),
{
    let mut i: usize = 0;
    while i < blocks.len()
        invariant
            i <= blocks@.len(),
            forall|j: int| 0 <= j < i ==> !(spec_blocks(blocks@)[j] is Subscriptions),
        decreases blocks@.len() - i,
    {
        match &blocks[i] {
            Block::Subscriptions(_) => {
                proof {
                    assert(spec_blocks(blocks@)[i as int] is Subscriptions);
                }
                return true;
            },
            _ => {},
        }
        i = i + 1;
    }
    false
}

/// Whether some opaque block starts with the given text.
fn has_other_prefix(blocks: &Vec<Block>, p: &str) -> (r: bool)
    ensures
        r == spec_has_other_prefix(spec_blocks(blocks@), p@),
{
    let mut i: usize = 0;
    while i < blocks.len()
        invariant
            i <= blocks@.len(),
            forall|j: int|
                0 <= j < i ==> match #[trigger] spec_blocks(blocks@)[j] {
                    BlockView::Other(tx) => !spec_starts_with(tx, p@),
                    _ => true,
                },
        decreases blocks@.len() - i,
    {
        match &blocks[i] {
            Block::Other(tx) => {
                if starts_with_str(tx, p) {
                    proof {
                        assert(spec_blocks(blocks@)[i as int] == BlockView::Other(tx@));
                    }
                    return true;
                }
            },
            _ => {},
        }
        i = i + 1;
    }
    false
}

/// Whether some opaque block declares the message type.
fn has_msg_decl(blocks: &Vec<Block>) -> (r: bool)
    ensures
        r == spec_has_msg_decl(spec_blocks(blocks@)),
{
    let mut i: usize = 0;
    while i < blocks.len()
        invariant
            i <= blocks@.len(),
            forall|j: int|
                0 <= j < i ==> match #[trigger] spec_blocks(blocks@)[j] {
                    BlockView::Other(tx) => !(spec_starts_with(tx, "type Msg "@) || spec_trim(tx)
                        == "type Msg"@),
                    _ => true,
                },
        decreases blocks@.len() - i,
    {
        match &blocks[i] {
            Block::Other(tx) => {
                let c1 = starts_with_str(tx, "type Msg ");
                let t = trim_chars(tx);
                let c2 = crate::text::chars_eq_str(&t, "type Msg");
                if c1 || c2 {
                    proof {
                        assert(spec_blocks(blocks@)[i as int] == BlockView::Other(tx@));
                    }
                    return true;
                }
            },
            _ => {},
        }
        i = i + 1;
    }
    false
}

/// The block's lines behind line-comment markers, joined by newlines.
fn comment_block(f: &Function) -> (r: Vec<char>)
    ensures
        r@ == spec_comment_lines(f@),
{
    let mut out: Vec<char> = Vec::new();
    let mut i: usize = 0;
    proof {
        assert(f@.take(0) =~= Seq::<Seq<char>>::empty());
    }
    while i < f.lines.len()
        invariant
            i <= f.lines@.len(),
            f@.len() == f.lines@.len(),
            out@ == spec_comment_lines(f@.take(i as int)),
        decreases f.lines@.len() - i,
    {
        if i > 0 {
            push_str_chars(&mut out, "\n");
        }
        push_str_chars(&mut out, "-- ");
        push_all(&mut out, &f.lines[i]);
        proof {
            assert(f.lines@[i as int].deep_view() =~= f.lines@[i as int]@);
            assert(f@.take(i as int).push(f@[i as int]) =~= f@.take(i as int + 1));
            lemma_comment_lines_snoc(f@.take(i as int), f@[i as int]);
            assert(out@ =~= spec_comment_lines(f@.take(i as int + 1)));
        }
        i = i + 1;
    }
    proof {
        assert(f@.take(f@.len() as int) =~= f@);
    }
    out
}

/// A generated declaration split into its lines, as a function block body.
fn template_function(tmpl: &String) -> (r: Function)
    ensures
        r@ == spec_lines(tmpl@),
{
    let tv = str_to_chars(tmpl.as_str());
    let ls = split_lines(&tv);
    Function { lines: ls }
}

/// The whole transformation: inject imports, rewrite each block in order
/// (moving the module header to the front), then back-fill what is missing.
pub open spec fn spec_transform(
    bs: Seq<BlockView>,
    t: PageType,
    shared: bool,
    request: bool,
) -> Seq<BlockView> {
    spec_backfill(
        spec_transform_loop(
            spec_pre_imports(bs, t, shared, request),
            spec_merge_page(bs),
            t,
            shared,
            request,
        ),
        t,
        shared,
        request,
    )
}


/// Builds the injected import blocks for the page.
fn inject_imports(blocks: &Vec<Block>, t: PageType, shared: bool, request: bool) -> (acc: Vec<
    Block,
>)
    ensures
        spec_blocks(acc@) == spec_pre_imports(spec_blocks(blocks@), t, shared, request),
{
    let ghost bs0 = spec_blocks(blocks@);
    let mut acc: Vec<Block> = Vec::new();
    let shared_name = str_to_chars("Shared");
    if shared && !has_import(blocks, &shared_name) {
        acc.push(Block::Import(Module { name: str_to_chars("Shared"), exposing: Option::None }));
    }
    let request_name = str_to_chars("Request");
    if request && !has_import(blocks, &request_name) {
        acc.push(
            Block::Import(
                Module {
                    name: str_to_chars("Request"),
                    exposing: Option::Some(str_to_chars("Request")),
                },
            ),
        );
    }
    let page_name = str_to_chars("Page");
    if !has_import(blocks, &page_name) {
        acc.push(
            Block::Import(
                Module { name: str_to_chars("Page"), exposing: Option::Some(str_to_chars("Page")) },
            ),
        );
    }
    let effect_name = str_to_chars("Effect");
    if t == PageType::Advanced && !has_import(blocks, &effect_name) {
        acc.push(
            Block::Import(
                Module {
                    name: str_to_chars("Effect"),
                    exposing: Option::Some(str_to_chars("Effect")),
                },
            ),
        );
    }
    proof {
        assert(spec_blocks(acc@) =~= spec_pre_imports(bs0, t, shared, request));
    }
    acc
}

/// Extends the exposing list of the first `Page` import, where one exists.
fn merge_page_import(blocks: &mut Vec<Block>)
    ensures
        spec_blocks(final(blocks)@) == spec_merge_page(spec_blocks(old(blocks)@)),
{
    let ghost bs0 = spec_blocks(blocks@);
    let page_name = str_to_chars("Page");
    let pidx = find_import(blocks, &page_name);
    match pidx {
        Option::Some(i) => {
            proof {
                lemma_find_import_props(bs0, page_name@);
            }
            let old_b = blocks.remove(i);
            proof {
                assert(old_b@ == bs0[i as int]);
            }
            let mm = match old_b {
                Block::Import(x) => x,
                _ => {
                    proof {
                        assert(false);
                    }
                    vstd::pervasive::unreached()
                },
            };
            let new_expo: Vec<char> = match mm.exposing {
                Option::Some(e) => {
                    let mut v = str_to_chars("Page, ");
                    push_all(&mut v, &e);
                    v
                },
                Option::None => str_to_chars("Page"),
            };
            blocks.insert(
                i,
                Block::Import(Module { name: mm.name, exposing: Option::Some(new_expo) }),
            );
            proof {
                assert(spec_blocks(blocks@) =~= spec_merge_page(bs0));
            }
        },
        Option::None => {
            proof {
                assert(spec_blocks(blocks@) =~= spec_merge_page(bs0));
            }
        },
    }
}

/// Contributes a module header to the output: merges or adds the params
/// import, then sets the rewritten header at the front.
fn step_module(acc: &mut Vec<Block>, m: Module, t: PageType)
    ensures
        spec_blocks(final(acc)@) == spec_step(
            spec_blocks(old(acc)@),
            BlockView::Module(m@),
            t,
            true,
            true,
        ),
        spec_blocks(final(acc)@) == spec_step(
            spec_blocks(old(acc)@),
            BlockView::Module(m@),
            t,
            false,
            true,
        ),
        spec_blocks(final(acc)@) == spec_step(
            spec_blocks(old(acc)@),
            BlockView::Module(m@),
            t,
            true,
            false,
        ),
        spec_blocks(final(acc)@) == spec_step(
            spec_blocks(old(acc)@),
            BlockView::Module(m@),
            t,
            false,
            false,
        ),
{
    let ghost acc_v = spec_blocks(acc@);
    proof {
        reveal_strlit("Pages.");
    }
    let stripped = strip_all_prefix(&m.name, "Pages.");
    let mut gname = str_to_chars("Gen.Params.");
    push_all(&mut gname, &stripped);
    let gidx = find_import(acc, &gname);
    match gidx {
        Option::Some(gi) => {
            proof {
                lemma_find_import_props(acc_v, gname@);
            }
            let ob = acc.remove(gi);
            proof {
                assert(ob@ == acc_v[gi as int]);
            }
            let im = match ob {
                Block::Import(x) => x,
                _ => {
                    proof {
                        assert(false);
                    }
                    vstd::pervasive::unreached()
                },
            };
            let ne: Vec<char> = match im.exposing {
                Option::Some(e) => {
                    let mut v = str_to_chars("Params, ");
                    push_all(&mut v, &e);
                    v
                },
                Option::None => str_to_chars("Params"),
            };
            acc.insert(gi, Block::Import(Module { name: im.name, exposing: Option::Some(ne) }));
        },
        Option::None => {
            acc.push(
                Block::Import(
                    Module { name: gname, exposing: Option::Some(str_to_chars("Params")) },
                ),
            );
        },
    }
    acc.insert(
        0,
        Block::Module(
            Module {
                name: m.name,
                exposing: Option::Some(str_to_chars(t.exposing_template())),
            },
        ),
    );
    proof {
        assert(spec_blocks(acc@) =~= spec_step(acc_v, BlockView::Module(m@), t, true, true));
        assert(spec_blocks(acc@) =~= spec_step(acc_v, BlockView::Module(m@), t, false, true));
        assert(spec_blocks(acc@) =~= spec_step(acc_v, BlockView::Module(m@), t, true, false));
        assert(spec_blocks(acc@) =~= spec_step(acc_v, BlockView::Module(m@), t, false, false));
    }
}

/// Feeds every original block through the rewrite step, in order.
#[verifier::rlimit(100)]
#[verifier::spinoff_prover]
fn rewrite_blocks(
    acc: &mut Vec<Block>,
    old_blocks: Vec<Block>,
    t: PageType,
    shared: bool,
    request: bool,
)
    ensures
        spec_blocks(final(acc)@) == spec_transform_loop(
            spec_blocks(old(acc)@),
            spec_blocks(old_blocks@),
            t,
            shared,
            request,
        ),
{
    let ghost pre0 = spec_blocks(acc@);
    let ghost merged_bs = spec_blocks(old_blocks@);
    let mut rest = old_blocks;
    while rest.len() > 0
        invariant
            spec_transform_loop(spec_blocks(acc@), spec_blocks(rest@), t, shared, request)
                == spec_transform_loop(pre0, merged_bs, t, shared, request),
        decreases rest@.len(),
    {
        let ghost acc_v = spec_blocks(acc@);
        let ghost rem_v = spec_blocks(rest@);
        let b = rest.remove(0);
        let ghost bv = b@;
        proof {
            assert(bv == rem_v.first());
            assert(spec_blocks(rest@) =~= rem_v.drop_first());
        }
        match b {
            Block::Module(m) => {
                step_module(acc, m, t);
            },
            Block::Init(f) => {
                let tmpl = t.init_template(shared, request);
                acc.push(Block::Init(template_function(&tmpl)));
                acc.push(Block::Other(comment_block(&f)));
                proof {
                    assert(spec_blocks(acc@) =~= spec_step(acc_v, bv, t, shared, request));
                }
            },
            Block::Update(f) => {
                let tmpl = t.update_template(shared, request);
                acc.push(Block::Update(template_function(&tmpl)));
                acc.push(Block::Other(comment_block(&f)));
                proof {
                    assert(spec_blocks(acc@) =~= spec_step(acc_v, bv, t, shared, request));
                }
            },
            Block::View(f) => {
                let tmpl = t.view_template(shared, request);
                acc.push(Block::View(template_function(&tmpl)));
                acc.push(Block::Other(comment_block(&f)));
                proof {
                    assert(spec_blocks(acc@) =~= spec_step(acc_v, bv, t, shared, request));
                }
            },
            Block::Subscriptions(f) => {
                let tmpl = t.subscriptions_template(shared, request);
                acc.push(Block::Subscriptions(template_function(&tmpl)));
                acc.push(Block::Other(comment_block(&f)));
                proof {
                    assert(spec_blocks(acc@) =~= spec_step(acc_v, bv, t, shared, request));
                }
            },
            Block::Page(f) => {
                let tmpl = t.page_template(shared, request);
                acc.push(Block::Page(template_function(&tmpl)));
                acc.push(Block::Other(comment_block(&f)));
                proof {
                    assert(spec_blocks(acc@) =~= spec_step(acc_v, bv, t, shared, request));
                }
            },
            other => {
                acc.push(other);
                proof {
                    assert(spec_blocks(acc@) =~= spec_step(acc_v, bv, t, shared, request));
                }
            },
        }
    }
    proof {
        assert(spec_blocks(rest@).len() == 0);
    }
}

/// Appends whatever required blocks are still missing.
#[verifier::rlimit(100)]
#[verifier::spinoff_prover]
fn backfill_blocks(acc: &mut Vec<Block>, t: PageType, shared: bool, request: bool)
    ensures
        spec_blocks(final(acc)@) == spec_backfill(spec_blocks(old(acc)@), t, shared, request),
{
    let ghost t0 = spec_blocks(acc@);
    if !has_page_block(acc) {
        let tmpl = t.page_template(shared, request);
        acc.push(Block::Other(str_to_chars(tmpl.as_str())));
    }
    let ghost a1 = spec_blocks(acc@);
    if !(t == PageType::Static) {
        if !has_other_prefix(acc, "type alias Model =") {
            acc.push(Block::Other(str_to_chars("\ntype alias Model = {}\n\n")));
        }
    }
    let ghost a2 = spec_blocks(acc@);
    if !(t == PageType::Static) {
        if !has_msg_decl(acc) {
            acc.push(Block::Other(str_to_chars("\ntype Msg = ReplaceMe\n\n")));
        }
    }
    let ghost a3 = spec_blocks(acc@);
    if !(t == PageType::Static) && !(t == PageType::Sandbox) {
        if !has_subscriptions_block(acc) {
            let tmpl = t.subscriptions_template(shared, request);
            acc.push(Block::Other(str_to_chars(tmpl.as_str())));
        }
    }
    let ghost a4 = spec_blocks(acc@);
    if !(t == PageType::Static) {
        if !has_init_block(acc) {
            let tmpl = t.init_template(shared, request);
            acc.push(Block::Other(str_to_chars(tmpl.as_str())));
        }
    }
    let ghost a5 = spec_blocks(acc@);
    if !(t == PageType::Static) {
        if !has_update_block(acc) {
            let tmpl = t.update_template(shared, request);
            acc.push(Block::Other(str_to_chars(tmpl.as_str())));
        }
    }
    let ghost a6 = spec_blocks(acc@);
    if !has_view_block(acc) {
        let tmpl = t.view_template(shared, request);
        acc.push(Block::Other(str_to_chars(tmpl.as_str())));
    }
    proof {
        let b1 = if !spec_has_page_block(t0) {
            t0.push(BlockView::Other(spec_page_template(t, shared, request)))
        } else {
            t0
        };
        assert(a1 =~= b1);
        let b2 = if t != PageType::Static && !spec_has_other_prefix(
            b1,
            "type alias Model ="@,
        ) {
            b1.push(BlockView::Other("\ntype alias Model = {}\n\n"@))
        } else {
            b1
        };
        assert(a2 =~= b2);
        let b3 = if t != PageType::Static && !spec_has_msg_decl(b2) {
            b2.push(BlockView::Other("\ntype Msg = ReplaceMe\n\n"@))
        } else {
            b2
        };
        assert(a3 =~= b3);
        let b4 = if t != PageType::Static && t != PageType::Sandbox
            && !spec_has_subscriptions_block(b3) {
            b3.push(BlockView::Other(spec_subscriptions_template(t, shared, request)))
        } else {
            b3
        };
        assert(a4 =~= b4);
        let b5 = if t != PageType::Static && !spec_has_init_block(b4) {
            b4.push(BlockView::Other(spec_init_template(t, shared, request)))
        } else {
            b4
        };
        assert(a5 =~= b5);
        let b6 = if t != PageType::Static && !spec_has_update_block(b5) {
            b5.push(BlockView::Other(spec_update_template(t, shared, request)))
        } else {
            b5
        };
        assert(a6 =~= b6);
        let b7 = if !spec_has_view_block(b6) {
            b6.push(BlockView::Other(spec_view_template(t, shared, request)))
        } else {
            b6
        };
        assert(spec_blocks(acc@) =~= b7);
        assert(b7 == spec_backfill(t0, t, shared, request));
    }
}

impl Page {
    /// Rewrites the page for the chosen archetype and toggles. Deterministic
    /// and total: a successfully parsed page always transforms.
    pub fn to(self, pagetype: PageType, shared: bool, request: bool) -> (r: Page)
        ensures
            r@ == spec_transform(self@, pagetype, shared, request),
    {
        let ghost bs0 = self@;
        let Page { blocks: mut old_blocks } = self;
        let mut acc = inject_imports(&old_blocks, pagetype, shared, request);
        merge_page_import(&mut old_blocks);
        rewrite_blocks(&mut acc, old_blocks, pagetype, shared, request);
        backfill_blocks(&mut acc, pagetype, shared, request);
        Page { blocks: acc }
    }
}

} // verus!
