//! Laws of the transformation, stated and proved over the same spec
//! functions its contract uses.

use crate::model::{BlockView, ModuleView};
use crate::template::{
    PageType, spec_exposing_template, spec_init_template, spec_page_template,
    spec_subscriptions_template, spec_update_template, spec_view_template,
};
use crate::text::spec_lines;
use crate::transform::{
    spec_is_import_named,
    lemma_find_import_props, spec_backfill, spec_has_init_block, spec_has_page_block,
    spec_has_subscriptions_block, spec_has_update_block, spec_has_view_block, spec_merge_page,
    spec_pre_imports, spec_step, spec_transform, spec_transform_loop,
};
use vstd::prelude::*;

verus! {

/// The sequence starts with a module header whose exposing list is the
/// archetype's fixed one.
pub open spec fn spec_head_module(bs: Seq<BlockView>, t: PageType) -> bool {
    bs.len() > 0 && match bs[0] {
        BlockView::Module(m) => m.exposing == Option::Some(spec_exposing_template(t)),
        _ => false,
    }
}

/// One rewrite step keeps a rewritten header at the front; a module block
/// puts one there.
proof fn lemma_step_head(acc: Seq<BlockView>, b: BlockView, t: PageType, sh: bool, rq: bool)
    ensures
        spec_head_module(acc, t) || b is Module ==> spec_head_module(
            spec_step(acc, b, t, sh, rq),
            t,
        ),
    decreases 0nat,
{
    match b {
        BlockView::Module(_) => {
        },
        _ => {
            if spec_head_module(acc, t) {
                assert(spec_step(acc, b, t, sh, rq)[0] == acc[0]);
            }
        },
    }
}

/// The whole rewrite pass leaves a rewritten header at the front whenever
/// one was there already or some original block is a module header.
proof fn lemma_loop_head(
    acc: Seq<BlockView>,
    bs: Seq<BlockView>,
    t: PageType,
    sh: bool,
    rq: bool,
)
    requires
        spec_head_module(acc, t) || exists|i: int| 0 <= i < bs.len() && bs[i] is Module,
    ensures
        spec_head_module(spec_transform_loop(acc, bs, t, sh, rq), t),
    decreases bs.len(),
{
    if bs.len() == 0 {
    } else {
        lemma_step_head(acc, bs.first(), t, sh, rq);
        let acc1 = spec_step(acc, bs.first(), t, sh, rq);
        if spec_head_module(acc1, t) {
            lemma_loop_head(acc1, bs.drop_first(), t, sh, rq);
        } else {
            let i = choose|i: int| 0 <= i < bs.len() && bs[i] is Module;
            assert(i > 0);
            assert(bs.drop_first()[i - 1] == bs[i]);
            lemma_loop_head(acc1, bs.drop_first(), t, sh, rq);
        }
    }
}

/// Back-filling only appends, so it keeps the header at the front.
proof fn lemma_backfill_head(acc: Seq<BlockView>, t: PageType, sh: bool, rq: bool)
    requires
        spec_head_module(acc, t),
    ensures
        spec_head_module(spec_backfill(acc, t, sh, rq), t),
{
}

/// Exposing correctness: whenever the input holds a module header, the
/// transformed page starts with a module header whose exposing list is
/// exactly the archetype's fixed exposed-name list.
pub proof fn lemma_exposing_correct(
    bs: Seq<BlockView>,
    t: PageType,
    shared: bool,
    request: bool,
)
    requires
        exists|i: int| 0 <= i < bs.len() && bs[i] is Module,
    ensures
        spec_head_module(spec_transform(bs, t, shared, request), t),
{
    let i = choose|i: int| 0 <= i < bs.len() && bs[i] is Module;
    if crate::transform::spec_has_import(bs, "Page"@) {
        lemma_find_import_props(bs, "Page"@);
    }
    assert(spec_merge_page(bs)[i] is Module);
    assert(0 <= i < spec_merge_page(bs).len() && spec_merge_page(bs)[i] is Module);
    lemma_loop_head(
        spec_pre_imports(bs, t, shared, request),
        spec_merge_page(bs),
        t,
        shared,
        request,
    );
    lemma_backfill_head(
        spec_transform_loop(
            spec_pre_imports(bs, t, shared, request),
            spec_merge_page(bs),
            t,
            shared,
            request,
        ),
        t,
        shared,
        request,
    );
}

/// A block of none of the five function kinds.
pub open spec fn spec_kindless(b: BlockView) -> bool {
    !(b is Init) && !(b is Update) && !(b is View) && !(b is Subscriptions) && !(b is Page)
}

/// Sequences whose blocks agree kind by kind hold the same kinds.
proof fn lemma_has_kind_pointwise(a: Seq<BlockView>, b: Seq<BlockView>)
    requires
        a.len() == b.len(),
        forall|k: int|
            0 <= k < a.len() ==> ((#[trigger] a[k] is Init) == b[k] is Init) && (a[k] is Update
                == b[k] is Update) && (a[k] is View == b[k] is View) && (a[k] is Subscriptions
                == b[k] is Subscriptions) && (a[k] is Page == b[k] is Page),
    ensures
        spec_has_init_block(a) == spec_has_init_block(b),
        spec_has_update_block(a) == spec_has_update_block(b),
        spec_has_view_block(a) == spec_has_view_block(b),
        spec_has_subscriptions_block(a) == spec_has_subscriptions_block(b),
        spec_has_page_block(a) == spec_has_page_block(b),
{
    if spec_has_init_block(a) {
        let w = choose|k: int| 0 <= k < a.len() && a[k] is Init;
        assert(b[w] is Init);
    }
    if spec_has_init_block(b) {
        let w = choose|k: int| 0 <= k < b.len() && b[k] is Init;
        assert(a[w] is Init);
    }
    if spec_has_update_block(a) {
        let w = choose|k: int| 0 <= k < a.len() && a[k] is Update;
        assert(b[w] is Update);
    }
    if spec_has_update_block(b) {
        let w = choose|k: int| 0 <= k < b.len() && b[k] is Update;
        assert(a[w] is Update);
    }
    if spec_has_view_block(a) {
        let w = choose|k: int| 0 <= k < a.len() && a[k] is View;
        assert(b[w] is View);
    }
    if spec_has_view_block(b) {
        let w = choose|k: int| 0 <= k < b.len() && b[k] is View;
        assert(a[w] is View);
    }
    if spec_has_subscriptions_block(a) {
        let w = choose|k: int| 0 <= k < a.len() && a[k] is Subscriptions;
        assert(b[w] is Subscriptions);
    }
    if spec_has_subscriptions_block(b) {
        let w = choose|k: int| 0 <= k < b.len() && b[k] is Subscriptions;
        assert(a[w] is Subscriptions);
    }
    if spec_has_page_block(a) {
        let w = choose|k: int| 0 <= k < a.len() && a[k] is Page;
        assert(b[w] is Page);
    }
    if spec_has_page_block(b) {
        let w = choose|k: int| 0 <= k < b.len() && b[k] is Page;
        assert(a[w] is Page);
    }
}

/// Placing a kindless block at the front changes no kind's presence.
proof fn lemma_has_kind_insert0(a: Seq<BlockView>, b: BlockView)
    requires
        spec_kindless(b),
    ensures
        spec_has_init_block(a.insert(0, b)) == spec_has_init_block(a),
        spec_has_update_block(a.insert(0, b)) == spec_has_update_block(a),
        spec_has_view_block(a.insert(0, b)) == spec_has_view_block(a),
        spec_has_subscriptions_block(a.insert(0, b)) == spec_has_subscriptions_block(a),
        spec_has_page_block(a.insert(0, b)) == spec_has_page_block(a),
{
    let o = a.insert(0, b);
    assert(o[0] == b);
    assert(forall|k: int| 0 <= k < a.len() ==> o[k + 1] == a[k]);
    if spec_has_init_block(o) {
        let w = choose|k: int| 0 <= k < o.len() && o[k] is Init;
        assert(a[w - 1] is Init);
    }
    if spec_has_init_block(a) {
        let w = choose|k: int| 0 <= k < a.len() && a[k] is Init;
        assert(o[w + 1] is Init);
    }
    if spec_has_update_block(o) {
        let w = choose|k: int| 0 <= k < o.len() && o[k] is Update;
        assert(a[w - 1] is Update);
    }
    if spec_has_update_block(a) {
        let w = choose|k: int| 0 <= k < a.len() && a[k] is Update;
        assert(o[w + 1] is Update);
    }
    if spec_has_view_block(o) {
        let w = choose|k: int| 0 <= k < o.len() && o[k] is View;
        assert(a[w - 1] is View);
    }
    if spec_has_view_block(a) {
        let w = choose|k: int| 0 <= k < a.len() && a[k] is View;
        assert(o[w + 1] is View);
    }
    if spec_has_subscriptions_block(o) {
        let w = choose|k: int| 0 <= k < o.len() && o[k] is Subscriptions;
        assert(a[w - 1] is Subscriptions);
    }
    if spec_has_subscriptions_block(a) {
        let w = choose|k: int| 0 <= k < a.len() && a[k] is Subscriptions;
        assert(o[w + 1] is Subscriptions);
    }
    if spec_has_page_block(o) {
        let w = choose|k: int| 0 <= k < o.len() && o[k] is Page;
        assert(a[w - 1] is Page);
    }
    if spec_has_page_block(a) {
        let w = choose|k: int| 0 <= k < a.len() && a[k] is Page;
        assert(o[w + 1] is Page);
    }
}

/// Which block kinds a step can emit: exactly the kind of the block it
/// rewrites, besides what the accumulator already holds.
#[verifier::rlimit(100)]
#[verifier::spinoff_prover]
proof fn lemma_step_kinds(acc: Seq<BlockView>, b: BlockView, t: PageType, sh: bool, rq: bool)
    ensures
        spec_has_init_block(spec_step(acc, b, t, sh, rq)) == (spec_has_init_block(acc)
            || b is Init),
        spec_has_update_block(spec_step(acc, b, t, sh, rq)) == (spec_has_update_block(acc)
            || b is Update),
        spec_has_view_block(spec_step(acc, b, t, sh, rq)) == (spec_has_view_block(acc)
            || b is View),
        spec_has_subscriptions_block(spec_step(acc, b, t, sh, rq)) == (
        spec_has_subscriptions_block(acc) || b is Subscriptions),
        spec_has_page_block(spec_step(acc, b, t, sh, rq)) == (spec_has_page_block(acc)
            || b is Page),
{
    let out = spec_step(acc, b, t, sh, rq);
    match b {
        BlockView::Module(m) => {
            let gen = crate::transform::spec_params_name(m.name);
            let acc1 = if crate::transform::spec_has_import(acc, gen) {
                lemma_find_import_props(acc, gen);
                let i = crate::transform::spec_find_import(acc, gen);
                acc.update(
                    i,
                    match acc[i] {
                        BlockView::Import(im) => BlockView::Import(
                            crate::transform::spec_merge_exposing(im, "Params, "@, "Params"@),
                        ),
                        _ => acc[i],
                    },
                )
            } else {
                acc.push(crate::transform::spec_import(gen, Option::Some("Params"@)))
            };
            if crate::transform::spec_has_import(acc, gen) {
                lemma_find_import_props(acc, gen);
                lemma_has_kind_pointwise(acc1, acc);
            } else {
                lemma_has_kind_push(acc, crate::transform::spec_import(gen, Option::Some("Params"@)));
            }
            assert(spec_has_init_block(acc1) == spec_has_init_block(acc));
            assert(spec_has_update_block(acc1) == spec_has_update_block(acc));
            assert(spec_has_view_block(acc1) == spec_has_view_block(acc));
            assert(spec_has_subscriptions_block(acc1) == spec_has_subscriptions_block(acc));
            assert(spec_has_page_block(acc1) == spec_has_page_block(acc));
            let hd = BlockView::Module(
                ModuleView { name: m.name, exposing: Option::Some(spec_exposing_template(t)) },
            );
            lemma_has_kind_insert0(acc1, hd);
            assert(out == acc1.insert(0, hd));
            assert(spec_has_init_block(out) == spec_has_init_block(acc1));
            assert(spec_has_update_block(out) == spec_has_update_block(acc1));
            assert(!(b is Init));
            assert(spec_has_init_block(spec_step(acc, b, t, sh, rq)) == (spec_has_init_block(acc)
                || b is Init));
            assert(spec_has_update_block(spec_step(acc, b, t, sh, rq)) == (spec_has_update_block(
                acc,
            ) || b is Update));
        },
        BlockView::Init(ls) => {
            let x = BlockView::Init(spec_lines(spec_init_template(t, sh, rq)));
            let y = BlockView::Other(crate::transform::spec_comment_lines(ls));
            assert(out =~= acc.push(x).push(y));
            lemma_has_kind_push(acc, x);
            lemma_has_kind_push(acc.push(x), y);
        },
        BlockView::Update(ls) => {
            let x = BlockView::Update(spec_lines(spec_update_template(t, sh, rq)));
            let y = BlockView::Other(crate::transform::spec_comment_lines(ls));
            assert(out =~= acc.push(x).push(y));
            lemma_has_kind_push(acc, x);
            lemma_has_kind_push(acc.push(x), y);
        },
        BlockView::View(ls) => {
            let x = BlockView::View(spec_lines(spec_view_template(t, sh, rq)));
            let y = BlockView::Other(crate::transform::spec_comment_lines(ls));
            assert(out =~= acc.push(x).push(y));
            lemma_has_kind_push(acc, x);
            lemma_has_kind_push(acc.push(x), y);
        },
        BlockView::Subscriptions(ls) => {
            let x = BlockView::Subscriptions(spec_lines(spec_subscriptions_template(t, sh, rq)));
            let y = BlockView::Other(crate::transform::spec_comment_lines(ls));
            assert(out =~= acc.push(x).push(y));
            lemma_has_kind_push(acc, x);
            lemma_has_kind_push(acc.push(x), y);
        },
        BlockView::Page(ls) => {
            let x = BlockView::Page(spec_lines(spec_page_template(t, sh, rq)));
            let y = BlockView::Other(crate::transform::spec_comment_lines(ls));
            assert(out =~= acc.push(x).push(y));
            lemma_has_kind_push(acc, x);
            lemma_has_kind_push(acc.push(x), y);
        },
        _ => {
            assert(out == acc.push(b));
            lemma_has_kind_push(acc, b);
        },
    }
}

/// The rewrite pass emits a block kind exactly where the accumulator or the
/// originals held one.
proof fn lemma_loop_kinds(
    acc: Seq<BlockView>,
    bs: Seq<BlockView>,
    t: PageType,
    sh: bool,
    rq: bool,
)
    ensures
        spec_has_init_block(spec_transform_loop(acc, bs, t, sh, rq)) == (spec_has_init_block(acc)
            || spec_has_init_block(bs)),
        spec_has_update_block(spec_transform_loop(acc, bs, t, sh, rq)) == (spec_has_update_block(
            acc,
        ) || spec_has_update_block(bs)),
        spec_has_view_block(spec_transform_loop(acc, bs, t, sh, rq)) == (spec_has_view_block(acc)
            || spec_has_view_block(bs)),
        spec_has_subscriptions_block(spec_transform_loop(acc, bs, t, sh, rq)) == (
        spec_has_subscriptions_block(acc) || spec_has_subscriptions_block(bs)),
        spec_has_page_block(spec_transform_loop(acc, bs, t, sh, rq)) == (spec_has_page_block(acc)
            || spec_has_page_block(bs)),
    decreases bs.len(),
{
    if bs.len() == 0 {
    } else {
        lemma_step_kinds(acc, bs.first(), t, sh, rq);
        lemma_loop_kinds(spec_step(acc, bs.first(), t, sh, rq), bs.drop_first(), t, sh, rq);
        assert(spec_has_init_block(bs) == (bs.first() is Init || spec_has_init_block(
            bs.drop_first(),
        ))) by {
            lemma_has_kind_unfold(bs);
        }
        assert(spec_has_update_block(bs) == (bs.first() is Update || spec_has_update_block(
            bs.drop_first(),
        ))) by {
            lemma_has_kind_unfold(bs);
        }
        assert(spec_has_view_block(bs) == (bs.first() is View || spec_has_view_block(
            bs.drop_first(),
        ))) by {
            lemma_has_kind_unfold(bs);
        }
        assert(spec_has_subscriptions_block(bs) == (bs.first() is Subscriptions
            || spec_has_subscriptions_block(bs.drop_first()))) by {
            lemma_has_kind_unfold(bs);
        }
        assert(spec_has_page_block(bs) == (bs.first() is Page || spec_has_page_block(
            bs.drop_first(),
        ))) by {
            lemma_has_kind_unfold(bs);
        }
    }
}

/// A kind occurs in a nonempty sequence exactly when its head has it or its
/// tail holds one.
proof fn lemma_has_kind_unfold(bs: Seq<BlockView>)
    requires
        bs.len() > 0,
    ensures
        spec_has_init_block(bs) == (bs.first() is Init || spec_has_init_block(bs.drop_first())),
        spec_has_update_block(bs) == (bs.first() is Update || spec_has_update_block(
            bs.drop_first(),
        )),
        spec_has_view_block(bs) == (bs.first() is View || spec_has_view_block(bs.drop_first())),
        spec_has_subscriptions_block(bs) == (bs.first() is Subscriptions
            || spec_has_subscriptions_block(bs.drop_first())),
        spec_has_page_block(bs) == (bs.first() is Page || spec_has_page_block(bs.drop_first())),
{
    let tail = bs.drop_first();
    assert(forall|k: int| 0 <= k < tail.len() ==> tail[k] == bs[k + 1]);
    if spec_has_init_block(bs) {
        let w = choose|k: int| 0 <= k < bs.len() && bs[k] is Init;
        if w > 0 {
            assert(tail[w - 1] is Init);
        }
    }
    if spec_has_init_block(tail) {
        let w = choose|k: int| 0 <= k < tail.len() && tail[k] is Init;
        assert(bs[w + 1] is Init);
    }
    if spec_has_update_block(bs) {
        let w = choose|k: int| 0 <= k < bs.len() && bs[k] is Update;
        if w > 0 {
            assert(tail[w - 1] is Update);
        }
    }
    if spec_has_update_block(tail) {
        let w = choose|k: int| 0 <= k < tail.len() && tail[k] is Update;
        assert(bs[w + 1] is Update);
    }
    if spec_has_view_block(bs) {
        let w = choose|k: int| 0 <= k < bs.len() && bs[k] is View;
        if w > 0 {
            assert(tail[w - 1] is View);
        }
    }
    if spec_has_view_block(tail) {
        let w = choose|k: int| 0 <= k < tail.len() && tail[k] is View;
        assert(bs[w + 1] is View);
    }
    if spec_has_subscriptions_block(bs) {
        let w = choose|k: int| 0 <= k < bs.len() && bs[k] is Subscriptions;
        if w > 0 {
            assert(tail[w - 1] is Subscriptions);
        }
    }
    if spec_has_subscriptions_block(tail) {
        let w = choose|k: int| 0 <= k < tail.len() && tail[k] is Subscriptions;
        assert(bs[w + 1] is Subscriptions);
    }
    if spec_has_page_block(bs) {
        let w = choose|k: int| 0 <= k < bs.len() && bs[k] is Page;
        if w > 0 {
            assert(tail[w - 1] is Page);
        }
    }
    if spec_has_page_block(tail) {
        let w = choose|k: int| 0 <= k < tail.len() && tail[k] is Page;
        assert(bs[w + 1] is Page);
    }
}

/// Appending one block keeps every kind already present and adds the
/// appended one's.
proof fn lemma_has_kind_push(bs: Seq<BlockView>, b: BlockView)
    ensures
        spec_has_init_block(bs.push(b)) == (spec_has_init_block(bs) || b is Init),
        spec_has_update_block(bs.push(b)) == (spec_has_update_block(bs) || b is Update),
        spec_has_view_block(bs.push(b)) == (spec_has_view_block(bs) || b is View),
        spec_has_subscriptions_block(bs.push(b)) == (spec_has_subscriptions_block(bs)
            || b is Subscriptions),
        spec_has_page_block(bs.push(b)) == (spec_has_page_block(bs) || b is Page),
{
    assert(bs.push(b)[bs.len() as int] == b);
    assert(forall|k: int| 0 <= k < bs.len() ==> bs.push(b)[k] == bs[k]);
    if spec_has_init_block(bs.push(b)) && !(b is Init) {
        let w = choose|k: int| 0 <= k < bs.push(b).len() && bs.push(b)[k] is Init;
        assert(bs[w] is Init);
    }
    if spec_has_update_block(bs.push(b)) && !(b is Update) {
        let w = choose|k: int| 0 <= k < bs.push(b).len() && bs.push(b)[k] is Update;
        assert(bs[w] is Update);
    }
    if spec_has_view_block(bs.push(b)) && !(b is View) {
        let w = choose|k: int| 0 <= k < bs.push(b).len() && bs.push(b)[k] is View;
        assert(bs[w] is View);
    }
    if spec_has_subscriptions_block(bs.push(b)) && !(b is Subscriptions) {
        let w = choose|k: int| 0 <= k < bs.push(b).len() && bs.push(b)[k] is Subscriptions;
        assert(bs[w] is Subscriptions);
    }
    if spec_has_page_block(bs.push(b)) && !(b is Page) {
        let w = choose|k: int| 0 <= k < bs.push(b).len() && bs.push(b)[k] is Page;
        assert(bs[w] is Page);
    }
}

/// Back-filling appends opaque text only, so the function-block kinds of
/// its input are exactly those of its output.
proof fn lemma_backfill_kinds(acc: Seq<BlockView>, t: PageType, sh: bool, rq: bool)
    ensures
        spec_has_init_block(spec_backfill(acc, t, sh, rq)) == spec_has_init_block(acc),
        spec_has_update_block(spec_backfill(acc, t, sh, rq)) == spec_has_update_block(acc),
        spec_has_view_block(spec_backfill(acc, t, sh, rq)) == spec_has_view_block(acc),
        spec_has_subscriptions_block(spec_backfill(acc, t, sh, rq))
            == spec_has_subscriptions_block(acc),
        spec_has_page_block(spec_backfill(acc, t, sh, rq)) == spec_has_page_block(acc),
{
    let a1 = if !spec_has_page_block(acc) {
        acc.push(BlockView::Other(spec_page_template(t, sh, rq)))
    } else {
        acc
    };
    lemma_has_kind_push(acc, BlockView::Other(spec_page_template(t, sh, rq)));
    let a2 = if t != PageType::Static && !crate::transform::spec_has_other_prefix(
        a1,
        "type alias Model ="@,
    ) {
        a1.push(BlockView::Other("\ntype alias Model = {}\n\n"@))
    } else {
        a1
    };
    lemma_has_kind_push(a1, BlockView::Other("\ntype alias Model = {}\n\n"@));
    let a3 = if t != PageType::Static && !crate::transform::spec_has_msg_decl(a2) {
        a2.push(BlockView::Other("\ntype Msg = ReplaceMe\n\n"@))
    } else {
        a2
    };
    lemma_has_kind_push(a2, BlockView::Other("\ntype Msg = ReplaceMe\n\n"@));
    let a4 = if t != PageType::Static && t != PageType::Sandbox && !spec_has_subscriptions_block(
        a3,
    ) {
        a3.push(BlockView::Other(spec_subscriptions_template(t, sh, rq)))
    } else {
        a3
    };
    lemma_has_kind_push(a3, BlockView::Other(spec_subscriptions_template(t, sh, rq)));
    let a5 = if t != PageType::Static && !spec_has_init_block(a4) {
        a4.push(BlockView::Other(spec_init_template(t, sh, rq)))
    } else {
        a4
    };
    lemma_has_kind_push(a4, BlockView::Other(spec_init_template(t, sh, rq)));
    let a6 = if t != PageType::Static && !spec_has_update_block(a5) {
        a5.push(BlockView::Other(spec_update_template(t, sh, rq)))
    } else {
        a5
    };
    lemma_has_kind_push(a5, BlockView::Other(spec_update_template(t, sh, rq)));
    lemma_has_kind_push(a6, BlockView::Other(spec_view_template(t, sh, rq)));
}

/// The function-block kinds of the merged input are those of the input.
proof fn lemma_merge_kinds(bs: Seq<BlockView>)
    ensures
        spec_has_init_block(spec_merge_page(bs)) == spec_has_init_block(bs),
        spec_has_update_block(spec_merge_page(bs)) == spec_has_update_block(bs),
        spec_has_view_block(spec_merge_page(bs)) == spec_has_view_block(bs),
        spec_has_subscriptions_block(spec_merge_page(bs)) == spec_has_subscriptions_block(bs),
        spec_has_page_block(spec_merge_page(bs)) == spec_has_page_block(bs),
{
    if crate::transform::spec_has_import(bs, "Page"@) {
        lemma_find_import_props(bs, "Page"@);
        lemma_has_kind_pointwise(spec_merge_page(bs), bs);
    }
}

/// The injected imports are imports alone: no function-block kind among
/// them.
proof fn lemma_pre_import_kinds(bs: Seq<BlockView>, t: PageType, sh: bool, rq: bool)
    ensures
        !spec_has_init_block(spec_pre_imports(bs, t, sh, rq)),
        !spec_has_update_block(spec_pre_imports(bs, t, sh, rq)),
        !spec_has_view_block(spec_pre_imports(bs, t, sh, rq)),
        !spec_has_subscriptions_block(spec_pre_imports(bs, t, sh, rq)),
        !spec_has_page_block(spec_pre_imports(bs, t, sh, rq)),
{
    let p = spec_pre_imports(bs, t, sh, rq);
    assert(forall|k: int| 0 <= k < p.len() ==> (#[trigger] p[k]) is Import);
}

/// Function-block preservation: the transformed page holds an
/// `init`/`update`/`view`/`subscriptions`/`page` function block exactly
/// where the input page did — replacement keeps a block's kind, and the
/// back-fill step appends opaque text, never new function blocks.
pub proof fn lemma_transform_kinds(bs: Seq<BlockView>, t: PageType, shared: bool, request: bool)
    ensures
        spec_has_init_block(spec_transform(bs, t, shared, request)) == spec_has_init_block(bs),
        spec_has_update_block(spec_transform(bs, t, shared, request)) == spec_has_update_block(bs),
        spec_has_view_block(spec_transform(bs, t, shared, request)) == spec_has_view_block(bs),
        spec_has_subscriptions_block(spec_transform(bs, t, shared, request))
            == spec_has_subscriptions_block(bs),
        spec_has_page_block(spec_transform(bs, t, shared, request)) == spec_has_page_block(bs),
{
    lemma_pre_import_kinds(bs, t, shared, request);
    lemma_merge_kinds(bs);
    lemma_loop_kinds(
        spec_pre_imports(bs, t, shared, request),
        spec_merge_page(bs),
        t,
        shared,
        request,
    );
    lemma_backfill_kinds(
        spec_transform_loop(
            spec_pre_imports(bs, t, shared, request),
            spec_merge_page(bs),
            t,
            shared,
            request,
        ),
        t,
        shared,
        request,
    );
}

/// Some opaque block holds exactly this text.
pub open spec fn spec_has_other_eq(bs: Seq<BlockView>, x: Seq<char>) -> bool {
    exists|i: int| 0 <= i < bs.len() && bs[i] == BlockView::Other(x)
}

/// A declaration of this kind stands in the page: as a surviving function
/// block, or as the generated default appended by the back-fill.
pub open spec fn spec_present(bs: Seq<BlockView>, kind_there: bool, tmpl: Seq<char>) -> bool {
    kind_there || spec_has_other_eq(bs, tmpl)
}

/// Archetype completeness for `Element` and `Advanced`: after
/// transformation each of the five declarations stands in the page — as a
/// replaced function block or as a back-filled default.
#[verifier::rlimit(100)]
pub proof fn lemma_archetype_complete(bs: Seq<BlockView>, t: PageType, shared: bool, request: bool)
    requires
        t == PageType::Element || t == PageType::Advanced,
    ensures
        ({
            let out = spec_transform(bs, t, shared, request);
            &&& spec_present(out, spec_has_page_block(out), spec_page_template(t, shared, request))
            &&& spec_present(out, spec_has_init_block(out), spec_init_template(t, shared, request))
            &&& spec_present(
                out,
                spec_has_update_block(out),
                spec_update_template(t, shared, request),
            )
            &&& spec_present(out, spec_has_view_block(out), spec_view_template(t, shared, request))
            &&& spec_present(
                out,
                spec_has_subscriptions_block(out),
                spec_subscriptions_template(t, shared, request),
            )
        }),
{
    let acc = spec_transform_loop(
        spec_pre_imports(bs, t, shared, request),
        spec_merge_page(bs),
        t,
        shared,
        request,
    );
    let a1 = if !spec_has_page_block(acc) {
        acc.push(BlockView::Other(spec_page_template(t, shared, request)))
    } else {
        acc
    };
    let a2 = if t != PageType::Static && !crate::transform::spec_has_other_prefix(
        a1,
        "type alias Model ="@,
    ) {
        a1.push(BlockView::Other("\ntype alias Model = {}\n\n"@))
    } else {
        a1
    };
    let a3 = if t != PageType::Static && !crate::transform::spec_has_msg_decl(a2) {
        a2.push(BlockView::Other("\ntype Msg = ReplaceMe\n\n"@))
    } else {
        a2
    };
    let a4 = if t != PageType::Static && t != PageType::Sandbox && !spec_has_subscriptions_block(
        a3,
    ) {
        a3.push(BlockView::Other(spec_subscriptions_template(t, shared, request)))
    } else {
        a3
    };
    let a5 = if t != PageType::Static && !spec_has_init_block(a4) {
        a4.push(BlockView::Other(spec_init_template(t, shared, request)))
    } else {
        a4
    };
    let a6 = if t != PageType::Static && !spec_has_update_block(a5) {
        a5.push(BlockView::Other(spec_update_template(t, shared, request)))
    } else {
        a5
    };
    let a7 = if !spec_has_view_block(a6) {
        a6.push(BlockView::Other(spec_view_template(t, shared, request)))
    } else {
        a6
    };
    let out = spec_transform(bs, t, shared, request);
    assert(out == a7);
    assert(spec_present(a7, spec_has_page_block(a7), spec_page_template(t, shared, request))) by {
        lemma_has_kind_push(acc, BlockView::Other(spec_page_template(t, shared, request)));
        if !spec_has_page_block(acc) {
            assert(a1[acc.len() as int] == BlockView::Other(
                spec_page_template(t, shared, request),
            ));
            let w = acc.len() as int;
            assert(a7[w] == a1[w]);
            assert(spec_has_other_eq(a7, spec_page_template(t, shared, request)));
        } else {
            lemma_has_kind_push(a1, BlockView::Other("\ntype alias Model = {}\n\n"@));
            lemma_has_kind_push(a2, BlockView::Other("\ntype Msg = ReplaceMe\n\n"@));
            lemma_has_kind_push(
                a3,
                BlockView::Other(spec_subscriptions_template(t, shared, request)),
            );
            lemma_has_kind_push(a4, BlockView::Other(spec_init_template(t, shared, request)));
            lemma_has_kind_push(a5, BlockView::Other(spec_update_template(t, shared, request)));
            lemma_has_kind_push(a6, BlockView::Other(spec_view_template(t, shared, request)));
            assert(spec_has_page_block(a7));
        }
    }
    assert(spec_present(
        a7,
        spec_has_subscriptions_block(a7),
        spec_subscriptions_template(t, shared, request),
    )) by {
        lemma_has_kind_push(a3, BlockView::Other(spec_subscriptions_template(t, shared, request)));
        if !spec_has_subscriptions_block(a3) {
            let w = a3.len() as int;
            assert(a4[w] == BlockView::Other(spec_subscriptions_template(t, shared, request)));
            assert(a7[w] == a4[w]);
            assert(spec_has_other_eq(a7, spec_subscriptions_template(t, shared, request)));
        } else {
            lemma_has_kind_push(a4, BlockView::Other(spec_init_template(t, shared, request)));
            lemma_has_kind_push(a5, BlockView::Other(spec_update_template(t, shared, request)));
            lemma_has_kind_push(a6, BlockView::Other(spec_view_template(t, shared, request)));
            assert(spec_has_subscriptions_block(a7));
        }
    }
    assert(spec_present(a7, spec_has_init_block(a7), spec_init_template(t, shared, request))) by {
        lemma_has_kind_push(a4, BlockView::Other(spec_init_template(t, shared, request)));
        if !spec_has_init_block(a4) {
            let w = a4.len() as int;
            assert(a5[w] == BlockView::Other(spec_init_template(t, shared, request)));
            assert(a7[w] == a5[w]);
            assert(spec_has_other_eq(a7, spec_init_template(t, shared, request)));
        } else {
            lemma_has_kind_push(a5, BlockView::Other(spec_update_template(t, shared, request)));
            lemma_has_kind_push(a6, BlockView::Other(spec_view_template(t, shared, request)));
            assert(spec_has_init_block(a7));
        }
    }
    assert(spec_present(a7, spec_has_update_block(a7), spec_update_template(t, shared, request)))
        by {
        lemma_has_kind_push(a5, BlockView::Other(spec_update_template(t, shared, request)));
        if !spec_has_update_block(a5) {
            let w = a5.len() as int;
            assert(a6[w] == BlockView::Other(spec_update_template(t, shared, request)));
            assert(a7[w] == a6[w]);
            assert(spec_has_other_eq(a7, spec_update_template(t, shared, request)));
        } else {
            lemma_has_kind_push(a6, BlockView::Other(spec_view_template(t, shared, request)));
            assert(spec_has_update_block(a7));
        }
    }
    assert(spec_present(a7, spec_has_view_block(a7), spec_view_template(t, shared, request))) by {
        if !spec_has_view_block(a6) {
            let w = a6.len() as int;
            assert(a7[w] == BlockView::Other(spec_view_template(t, shared, request)));
            assert(spec_has_other_eq(a7, spec_view_template(t, shared, request)));
        } else {
            assert(spec_has_view_block(a7));
        }
    }
}


/// Whether the block is one of the five recognized function kinds.
pub open spec fn spec_fn_kind(b: BlockView) -> bool {
    b is Init || b is Update || b is View || b is Subscriptions || b is Page
}

/// The raw lines of a recognized function block.
pub open spec fn spec_fn_body(b: BlockView) -> Seq<Seq<char>> {
    match b {
        BlockView::Init(ls) => ls,
        BlockView::Update(ls) => ls,
        BlockView::View(ls) => ls,
        BlockView::Subscriptions(ls) => ls,
        BlockView::Page(ls) => ls,
        _ => Seq::empty(),
    }
}

/// The generated block that replaces a recognized function block.
pub open spec fn spec_replaced(b: BlockView, t: PageType, sh: bool, rq: bool) -> BlockView {
    match b {
        BlockView::Init(_) => BlockView::Init(spec_lines(spec_init_template(t, sh, rq))),
        BlockView::Update(_) => BlockView::Update(spec_lines(spec_update_template(t, sh, rq))),
        BlockView::View(_) => BlockView::View(spec_lines(spec_view_template(t, sh, rq))),
        BlockView::Subscriptions(_) => BlockView::Subscriptions(
            spec_lines(spec_subscriptions_template(t, sh, rq)),
        ),
        BlockView::Page(_) => BlockView::Page(spec_lines(spec_page_template(t, sh, rq))),
        _ => b,
    }
}

/// Two given blocks stand side by side at position `j`.
pub open spec fn spec_pair_at(bs: Seq<BlockView>, j: int, x: BlockView, y: BlockView) -> bool {
    0 <= j && j + 1 < bs.len() && bs[j] == x && bs[j + 1] == y
}

/// One rewrite step carries an adjacent non-import pair along (its position
/// shifts by at most one when a module header is moved to the front).
#[verifier::spinoff_prover]
proof fn lemma_step_keeps_pair(
    acc: Seq<BlockView>,
    b: BlockView,
    t: PageType,
    sh: bool,
    rq: bool,
    j: int,
    x: BlockView,
    y: BlockView,
)
    requires
        spec_pair_at(acc, j, x, y),
        !(x is Import),
        !(y is Import),
    ensures
        exists|j2: int| spec_pair_at(spec_step(acc, b, t, sh, rq), j2, x, y),
{
    let out = spec_step(acc, b, t, sh, rq);
    match b {
        BlockView::Module(m) => {
            let gen = crate::transform::spec_params_name(m.name);
            let acc1 = if crate::transform::spec_has_import(acc, gen) {
                let i = crate::transform::spec_find_import(acc, gen);
                acc.update(
                    i,
                    match acc[i] {
                        BlockView::Import(im) => BlockView::Import(
                            crate::transform::spec_merge_exposing(im, "Params, "@, "Params"@),
                        ),
                        _ => acc[i],
                    },
                )
            } else {
                acc.push(crate::transform::spec_import(gen, Option::Some("Params"@)))
            };
            if crate::transform::spec_has_import(acc, gen) {
                lemma_find_import_props(acc, gen);
                let i = crate::transform::spec_find_import(acc, gen);
                assert(acc[i] is Import);
                assert(i != j && i != j + 1);
                assert(acc1[j] == x && acc1[j + 1] == y);
            } else {
                assert(acc1[j] == x && acc1[j + 1] == y);
            }
            assert(out[j + 1] == acc1[j] && out[j + 2] == acc1[j + 1]);
            assert(spec_pair_at(out, j + 1, x, y));
        },
        BlockView::Init(_) => {
            assert(out[j] == acc[j] && out[j + 1] == acc[j + 1]);
            assert(spec_pair_at(out, j, x, y));
        },
        BlockView::Update(_) => {
            assert(out[j] == acc[j] && out[j + 1] == acc[j + 1]);
            assert(spec_pair_at(out, j, x, y));
        },
        BlockView::View(_) => {
            assert(out[j] == acc[j] && out[j + 1] == acc[j + 1]);
            assert(spec_pair_at(out, j, x, y));
        },
        BlockView::Subscriptions(_) => {
            assert(out[j] == acc[j] && out[j + 1] == acc[j + 1]);
            assert(spec_pair_at(out, j, x, y));
        },
        BlockView::Page(_) => {
            assert(out[j] == acc[j] && out[j + 1] == acc[j + 1]);
            assert(spec_pair_at(out, j, x, y));
        },
        _ => {
            assert(out == acc.push(b));
            assert(spec_pair_at(out, j, x, y));
        },
    }
}

/// The whole rewrite pass carries an adjacent non-import pair along.
#[verifier::spinoff_prover]
proof fn lemma_loop_keeps_pair(
    acc: Seq<BlockView>,
    bs: Seq<BlockView>,
    t: PageType,
    sh: bool,
    rq: bool,
    j: int,
    x: BlockView,
    y: BlockView,
)
    requires
        spec_pair_at(acc, j, x, y),
        !(x is Import),
        !(y is Import),
    ensures
        exists|j2: int| spec_pair_at(spec_transform_loop(acc, bs, t, sh, rq), j2, x, y),
    decreases bs.len(),
{
    if bs.len() == 0 {
        assert(spec_pair_at(spec_transform_loop(acc, bs, t, sh, rq), j, x, y));
    } else {
        lemma_step_keeps_pair(acc, bs.first(), t, sh, rq, j, x, y);
        let j2 = choose|j2: int|
            spec_pair_at(spec_step(acc, bs.first(), t, sh, rq), j2, x, y);
        lemma_loop_keeps_pair(
            spec_step(acc, bs.first(), t, sh, rq),
            bs.drop_first(),
            t,
            sh,
            rq,
            j2,
            x,
            y,
        );
        let j3 = choose|j3: int|
            spec_pair_at(
                spec_transform_loop(
                    spec_step(acc, bs.first(), t, sh, rq),
                    bs.drop_first(),
                    t,
                    sh,
                    rq,
                ),
                j3,
                x,
                y,
            );
        assert(spec_pair_at(spec_transform_loop(acc, bs, t, sh, rq), j3, x, y));
    }
}

/// Reaching a recognized function block, the rewrite pass lays down its
/// replacement and its commented original side by side, and keeps them.
#[verifier::spinoff_prover]
proof fn lemma_loop_pair(
    acc: Seq<BlockView>,
    bs: Seq<BlockView>,
    t: PageType,
    sh: bool,
    rq: bool,
    i: int,
)
    requires
        0 <= i < bs.len(),
        spec_fn_kind(bs[i]),
    ensures
        exists|j: int|
            spec_pair_at(
                spec_transform_loop(acc, bs, t, sh, rq),
                j,
                spec_replaced(bs[i], t, sh, rq),
                BlockView::Other(crate::transform::spec_comment_lines(spec_fn_body(bs[i]))),
            ),
    decreases bs.len(),
{
    let x = spec_replaced(bs[i], t, sh, rq);
    let y = BlockView::Other(crate::transform::spec_comment_lines(spec_fn_body(bs[i])));
    if i == 0 {
        let acc1 = spec_step(acc, bs.first(), t, sh, rq);
        assert(acc1 == acc + seq![x, y]);
        assert(acc1[acc.len() as int] == x && acc1[acc.len() as int + 1] == y);
        assert(spec_pair_at(acc1, acc.len() as int, x, y));
        lemma_loop_keeps_pair(acc1, bs.drop_first(), t, sh, rq, acc.len() as int, x, y);
        let j3 = choose|j3: int|
            spec_pair_at(spec_transform_loop(acc1, bs.drop_first(), t, sh, rq), j3, x, y);
        assert(spec_pair_at(spec_transform_loop(acc, bs, t, sh, rq), j3, x, y));
    } else {
        assert(bs.drop_first()[i - 1] == bs[i]);
        lemma_loop_pair(spec_step(acc, bs.first(), t, sh, rq), bs.drop_first(), t, sh, rq, i - 1);
        let j3 = choose|j3: int|
            spec_pair_at(
                spec_transform_loop(
                    spec_step(acc, bs.first(), t, sh, rq),
                    bs.drop_first(),
                    t,
                    sh,
                    rq,
                ),
                j3,
                x,
                y,
            );
        assert(spec_pair_at(spec_transform_loop(acc, bs, t, sh, rq), j3, x, y));
    }
}

/// Back-filling only appends, so it keeps an adjacent pair where it stands.
proof fn lemma_backfill_keeps_pair(
    acc: Seq<BlockView>,
    t: PageType,
    sh: bool,
    rq: bool,
    j: int,
    x: BlockView,
    y: BlockView,
)
    requires
        spec_pair_at(acc, j, x, y),
    ensures
        spec_pair_at(spec_backfill(acc, t, sh, rq), j, x, y),
{
}

/// No user-code loss: every recognized function block of the input survives
/// transformation — its generated replacement stands somewhere in the
/// output, immediately followed by an opaque block holding the original
/// lines, each behind a line-comment marker, in their original order.
#[verifier::spinoff_prover]
pub proof fn lemma_no_user_code_loss(
    bs: Seq<BlockView>,
    t: PageType,
    shared: bool,
    request: bool,
    i: int,
)
    requires
        0 <= i < bs.len(),
        spec_fn_kind(bs[i]),
    ensures
        exists|j: int|
            spec_pair_at(
                spec_transform(bs, t, shared, request),
                j,
                spec_replaced(bs[i], t, shared, request),
                BlockView::Other(crate::transform::spec_comment_lines(spec_fn_body(bs[i]))),
            ),
{
    if crate::transform::spec_has_import(bs, "Page"@) {
        lemma_find_import_props(bs, "Page"@);
    }
    let merged = spec_merge_page(bs);
    assert(merged[i] == bs[i]);
    lemma_loop_pair(spec_pre_imports(bs, t, shared, request), merged, t, shared, request, i);
    let j = choose|j: int|
        spec_pair_at(
            spec_transform_loop(
                spec_pre_imports(bs, t, shared, request),
                merged,
                t,
                shared,
                request,
            ),
            j,
            spec_replaced(merged[i], t, shared, request),
            BlockView::Other(crate::transform::spec_comment_lines(spec_fn_body(merged[i]))),
        );
    lemma_backfill_keeps_pair(
        spec_transform_loop(spec_pre_imports(bs, t, shared, request), merged, t, shared, request),
        t,
        shared,
        request,
        j,
        spec_replaced(bs[i], t, shared, request),
        BlockView::Other(crate::transform::spec_comment_lines(spec_fn_body(bs[i]))),
    );
    assert(spec_pair_at(
        spec_transform(bs, t, shared, request),
        j,
        spec_replaced(bs[i], t, shared, request),
        BlockView::Other(crate::transform::spec_comment_lines(spec_fn_body(bs[i]))),
    ));
}


/// How many blocks import the named module.
pub open spec fn spec_count_imports(bs: Seq<BlockView>, name: Seq<char>) -> nat
    decreases bs.len(),
{
    if bs.len() == 0 {
        0 as nat
    } else {
        (if spec_is_import_named(bs.first(), name) {
            1 as nat
        } else {
            0 as nat
        }) + spec_count_imports(bs.drop_first(), name)
    }
}

/// Counting distributes over concatenation.
proof fn lemma_count_concat(a: Seq<BlockView>, b: Seq<BlockView>, name: Seq<char>)
    ensures
        spec_count_imports(a + b, name) == spec_count_imports(a, name) + spec_count_imports(
            b,
            name,
        ),
    decreases a.len(),
{
    if a.len() == 0 {
        assert(a + b =~= b);
    } else {
        assert((a + b).drop_first() =~= a.drop_first() + b);
        lemma_count_concat(a.drop_first(), b, name);
    }
}

/// Appending one block adds its own import count.
proof fn lemma_count_push(bs: Seq<BlockView>, b: BlockView, name: Seq<char>)
    ensures
        spec_count_imports(bs.push(b), name) == spec_count_imports(bs, name) + (
        if spec_is_import_named(b, name) {
            1 as nat
        } else {
            0 as nat
        }),
{
    assert(bs.push(b) =~= bs + seq![b]);
    lemma_count_concat(bs, seq![b], name);
    assert(seq![b].drop_first() =~= Seq::<BlockView>::empty());
    assert(spec_count_imports(Seq::<BlockView>::empty(), name) == 0);
}

/// Placing one block at the front adds its own import count.
proof fn lemma_count_insert0(bs: Seq<BlockView>, b: BlockView, name: Seq<char>)
    ensures
        spec_count_imports(bs.insert(0, b), name) == spec_count_imports(bs, name) + (
        if spec_is_import_named(b, name) {
            1 as nat
        } else {
            0 as nat
        }),
{
    assert(bs.insert(0, b) =~= seq![b] + bs);
    lemma_count_concat(seq![b], bs, name);
    assert(seq![b].drop_first() =~= Seq::<BlockView>::empty());
    assert(spec_count_imports(Seq::<BlockView>::empty(), name) == 0);
}

/// Replacing a block by one that imports the same set of names keeps the
/// count.
proof fn lemma_count_update(bs: Seq<BlockView>, i: int, b2: BlockView, name: Seq<char>)
    requires
        0 <= i < bs.len(),
        spec_is_import_named(bs[i], name) == spec_is_import_named(b2, name),
    ensures
        spec_count_imports(bs.update(i, b2), name) == spec_count_imports(bs, name),
    decreases bs.len(),
{
    if i == 0 {
        assert(bs.update(0, b2).first() == b2);
        assert(bs.update(0, b2).drop_first() =~= bs.drop_first());
    } else {
        assert(bs.update(i, b2).first() == bs.first());
        assert(bs.update(i, b2).drop_first() =~= bs.drop_first().update(i - 1, b2));
        assert(bs.drop_first()[i - 1] == bs[i]);
        lemma_count_update(bs.drop_first(), i - 1, b2, name);
    }
}

/// An import of the name exists exactly when the count is positive.
proof fn lemma_count_pos(bs: Seq<BlockView>, name: Seq<char>)
    ensures
        crate::transform::spec_has_import(bs, name) <==> spec_count_imports(bs, name) > 0,
    decreases bs.len(),
{
    if bs.len() > 0 {
        lemma_count_pos(bs.drop_first(), name);
        if crate::transform::spec_has_import(bs, name) {
            let w = choose|k: int|
                0 <= k < bs.len() && spec_is_import_named(bs[k], name);
            if w > 0 {
                assert(bs.drop_first()[w - 1] == bs[w]);
                assert(crate::transform::spec_has_import(bs.drop_first(), name));
            }
        }
        if spec_count_imports(bs, name) > 0 {
            if spec_is_import_named(bs.first(), name) {
                assert(crate::transform::spec_has_import(bs, name));
            } else {
                let w = choose|k: int|
                    0 <= k < bs.drop_first().len() && spec_is_import_named(
                        bs.drop_first()[k],
                        name,
                    );
                assert(bs[w + 1] == bs.drop_first()[w]);
                assert(crate::transform::spec_has_import(bs, name));
            }
        }
    }
}

/// The params namespace opens with a letter no injected or counted page
/// import name starts with, so the params import never touches the count.
proof fn lemma_params_name_distinct(x: Seq<char>, name: Seq<char>)
    requires
        name.len() > 0,
        name.first() != 'G',
    ensures
        crate::transform::spec_params_name(x) != name,
{
    reveal_strlit("Gen.Params.");
    assert(crate::transform::spec_params_name(x).first() == 'G');
}

/// One rewrite step changes the count of a non-params name only by the
/// import it carries through.
proof fn lemma_step_count(
    acc: Seq<BlockView>,
    b: BlockView,
    t: PageType,
    sh: bool,
    rq: bool,
    name: Seq<char>,
)
    requires
        name.len() > 0,
        name.first() != 'G',
    ensures
        spec_count_imports(spec_step(acc, b, t, sh, rq), name) == spec_count_imports(acc, name)
            + (if spec_is_import_named(b, name) {
            1 as nat
        } else {
            0 as nat
        }),
{
    let out = spec_step(acc, b, t, sh, rq);
    match b {
        BlockView::Module(m) => {
            let gen = crate::transform::spec_params_name(m.name);
            lemma_params_name_distinct(m.name, name);
            let acc1 = if crate::transform::spec_has_import(acc, gen) {
                let i = crate::transform::spec_find_import(acc, gen);
                acc.update(
                    i,
                    match acc[i] {
                        BlockView::Import(im) => BlockView::Import(
                            crate::transform::spec_merge_exposing(im, "Params, "@, "Params"@),
                        ),
                        _ => acc[i],
                    },
                )
            } else {
                acc.push(crate::transform::spec_import(gen, Option::Some("Params"@)))
            };
            if crate::transform::spec_has_import(acc, gen) {
                lemma_find_import_props(acc, gen);
                let i = crate::transform::spec_find_import(acc, gen);
                match acc[i] {
                    BlockView::Import(im) => {
                        assert(im.name == gen);
                        lemma_count_update(
                            acc,
                            i,
                            BlockView::Import(
                                crate::transform::spec_merge_exposing(im, "Params, "@, "Params"@),
                            ),
                            name,
                        );
                    },
                    _ => {
                        assert(false);
                    },
                }
            } else {
                lemma_count_push(
                    acc,
                    crate::transform::spec_import(gen, Option::Some("Params"@)),
                    name,
                );
            }
            lemma_count_insert0(
                acc1,
                BlockView::Module(
                    ModuleView { name: m.name, exposing: Option::Some(spec_exposing_template(t)) },
                ),
                name,
            );
        },
        BlockView::Init(ls) => {
            let x = BlockView::Init(spec_lines(spec_init_template(t, sh, rq)));
            let y = BlockView::Other(crate::transform::spec_comment_lines(ls));
            assert(out =~= acc.push(x).push(y));
            lemma_count_push(acc, x, name);
            lemma_count_push(acc.push(x), y, name);
        },
        BlockView::Update(ls) => {
            let x = BlockView::Update(spec_lines(spec_update_template(t, sh, rq)));
            let y = BlockView::Other(crate::transform::spec_comment_lines(ls));
            assert(out =~= acc.push(x).push(y));
            lemma_count_push(acc, x, name);
            lemma_count_push(acc.push(x), y, name);
        },
        BlockView::View(ls) => {
            let x = BlockView::View(spec_lines(spec_view_template(t, sh, rq)));
            let y = BlockView::Other(crate::transform::spec_comment_lines(ls));
            assert(out =~= acc.push(x).push(y));
            lemma_count_push(acc, x, name);
            lemma_count_push(acc.push(x), y, name);
        },
        BlockView::Subscriptions(ls) => {
            let x = BlockView::Subscriptions(spec_lines(spec_subscriptions_template(t, sh, rq)));
            let y = BlockView::Other(crate::transform::spec_comment_lines(ls));
            assert(out =~= acc.push(x).push(y));
            lemma_count_push(acc, x, name);
            lemma_count_push(acc.push(x), y, name);
        },
        BlockView::Page(ls) => {
            let x = BlockView::Page(spec_lines(spec_page_template(t, sh, rq)));
            let y = BlockView::Other(crate::transform::spec_comment_lines(ls));
            assert(out =~= acc.push(x).push(y));
            lemma_count_push(acc, x, name);
            lemma_count_push(acc.push(x), y, name);
        },
        _ => {
            assert(out == acc.push(b));
            lemma_count_push(acc, b, name);
        },
    }
}

/// The rewrite pass carries every original import through once.
proof fn lemma_loop_count(
    acc: Seq<BlockView>,
    bs: Seq<BlockView>,
    t: PageType,
    sh: bool,
    rq: bool,
    name: Seq<char>,
)
    requires
        name.len() > 0,
        name.first() != 'G',
    ensures
        spec_count_imports(spec_transform_loop(acc, bs, t, sh, rq), name) == spec_count_imports(
            acc,
            name,
        ) + spec_count_imports(bs, name),
    decreases bs.len(),
{
    if bs.len() > 0 {
        lemma_step_count(acc, bs.first(), t, sh, rq, name);
        lemma_loop_count(spec_step(acc, bs.first(), t, sh, rq), bs.drop_first(), t, sh, rq, name);
    }
}

/// Back-filling appends opaque text only, so it keeps every import count.
proof fn lemma_backfill_count(
    acc: Seq<BlockView>,
    t: PageType,
    sh: bool,
    rq: bool,
    name: Seq<char>,
)
    ensures
        spec_count_imports(spec_backfill(acc, t, sh, rq), name) == spec_count_imports(acc, name),
{
    let a1 = if !spec_has_page_block(acc) {
        acc.push(BlockView::Other(spec_page_template(t, sh, rq)))
    } else {
        acc
    };
    lemma_count_push(acc, BlockView::Other(spec_page_template(t, sh, rq)), name);
    let a2 = if t != PageType::Static && !crate::transform::spec_has_other_prefix(
        a1,
        "type alias Model ="@,
    ) {
        a1.push(BlockView::Other("\ntype alias Model = {}\n\n"@))
    } else {
        a1
    };
    lemma_count_push(a1, BlockView::Other("\ntype alias Model = {}\n\n"@), name);
    let a3 = if t != PageType::Static && !crate::transform::spec_has_msg_decl(a2) {
        a2.push(BlockView::Other("\ntype Msg = ReplaceMe\n\n"@))
    } else {
        a2
    };
    lemma_count_push(a2, BlockView::Other("\ntype Msg = ReplaceMe\n\n"@), name);
    let a4 = if t != PageType::Static && t != PageType::Sandbox && !spec_has_subscriptions_block(
        a3,
    ) {
        a3.push(BlockView::Other(spec_subscriptions_template(t, sh, rq)))
    } else {
        a3
    };
    lemma_count_push(a3, BlockView::Other(spec_subscriptions_template(t, sh, rq)), name);
    let a5 = if t != PageType::Static && !spec_has_init_block(a4) {
        a4.push(BlockView::Other(spec_init_template(t, sh, rq)))
    } else {
        a4
    };
    lemma_count_push(a4, BlockView::Other(spec_init_template(t, sh, rq)), name);
    let a6 = if t != PageType::Static && !spec_has_update_block(a5) {
        a5.push(BlockView::Other(spec_update_template(t, sh, rq)))
    } else {
        a5
    };
    lemma_count_push(a5, BlockView::Other(spec_update_template(t, sh, rq)), name);
    lemma_count_push(a6, BlockView::Other(spec_view_template(t, sh, rq)), name);
}

/// Merging the page import keeps every import count: the merged block keeps
/// its name.
proof fn lemma_merge_count(bs: Seq<BlockView>, name: Seq<char>)
    ensures
        spec_count_imports(spec_merge_page(bs), name) == spec_count_imports(bs, name),
{
    if crate::transform::spec_has_import(bs, "Page"@) {
        lemma_find_import_props(bs, "Page"@);
        let i = crate::transform::spec_find_import(bs, "Page"@);
        match bs[i] {
            BlockView::Import(m) => {
                lemma_count_update(
                    bs,
                    i,
                    BlockView::Import(
                        crate::transform::spec_merge_exposing(m, "Page, "@, "Page"@),
                    ),
                    name,
                );
            },
            _ => {
                assert(false);
            },
        }
    }
}

/// The transformation adds to each non-params import name exactly the
/// injected imports for it; every original import is carried through once.
pub proof fn lemma_transform_import_count(
    bs: Seq<BlockView>,
    t: PageType,
    shared: bool,
    request: bool,
    name: Seq<char>,
)
    requires
        name.len() > 0,
        name.first() != 'G',
    ensures
        spec_count_imports(spec_transform(bs, t, shared, request), name) == spec_count_imports(
            spec_pre_imports(bs, t, shared, request),
            name,
        ) + spec_count_imports(bs, name),
{
    lemma_merge_count(bs, name);
    lemma_loop_count(
        spec_pre_imports(bs, t, shared, request),
        spec_merge_page(bs),
        t,
        shared,
        request,
        name,
    );
    lemma_backfill_count(
        spec_transform_loop(
            spec_pre_imports(bs, t, shared, request),
            spec_merge_page(bs),
            t,
            shared,
            request,
        ),
        t,
        shared,
        request,
        name,
    );
}


/// A single block counts as one import of its own name and none other.
proof fn lemma_count_singleton(b: BlockView, name: Seq<char>)
    ensures
        spec_count_imports(seq![b], name) == (if spec_is_import_named(b, name) {
            1 as nat
        } else {
            0 as nat
        }),
{
    assert(seq![b].drop_first() =~= Seq::<BlockView>::empty());
    assert(spec_count_imports(Seq::<BlockView>::empty(), name) == 0);
}

/// What the injected imports count for each of the four page import names.
proof fn lemma_pre_count(x: Seq<BlockView>, t: PageType, sh: bool, rq: bool, name: Seq<char>)
    requires
        name == "Shared"@ || name == "Request"@ || name == "Page"@ || name == "Effect"@,
    ensures
        spec_count_imports(spec_pre_imports(x, t, sh, rq), name) == (
        if name == "Shared"@ && sh && !crate::transform::spec_has_import(x, "Shared"@) {
            1 as nat
        } else if name == "Request"@ && rq && !crate::transform::spec_has_import(x, "Request"@) {
            1 as nat
        } else if name == "Page"@ && !crate::transform::spec_has_import(x, "Page"@) {
            1 as nat
        } else if name == "Effect"@ && t == PageType::Advanced
            && !crate::transform::spec_has_import(x, "Effect"@) {
            1 as nat
        } else {
            0 as nat
        }),
{
    reveal_strlit("Shared");
    reveal_strlit("Request");
    reveal_strlit("Page");
    reveal_strlit("Effect");
    assert("Shared"@[0] == 'S' && "Effect"@[0] == 'E');
    let s1 = if sh && !crate::transform::spec_has_import(x, "Shared"@) {
        seq![crate::transform::spec_import("Shared"@, Option::None)]
    } else {
        Seq::empty()
    };
    let s2 = if rq && !crate::transform::spec_has_import(x, "Request"@) {
        seq![crate::transform::spec_import("Request"@, Option::Some("Request"@))]
    } else {
        Seq::empty()
    };
    let s3 = if !crate::transform::spec_has_import(x, "Page"@) {
        seq![crate::transform::spec_import("Page"@, Option::Some("Page"@))]
    } else {
        Seq::empty()
    };
    let s4 = if t == PageType::Advanced && !crate::transform::spec_has_import(x, "Effect"@) {
        seq![crate::transform::spec_import("Effect"@, Option::Some("Effect"@))]
    } else {
        Seq::empty()
    };
    assert(spec_pre_imports(x, t, sh, rq) == s1 + s2 + s3 + s4);
    lemma_count_concat(s1 + s2 + s3, s4, name);
    lemma_count_concat(s1 + s2, s3, name);
    lemma_count_concat(s1, s2, name);
    lemma_count_singleton(crate::transform::spec_import("Shared"@, Option::None), name);
    lemma_count_singleton(
        crate::transform::spec_import("Request"@, Option::Some("Request"@)),
        name,
    );
    lemma_count_singleton(crate::transform::spec_import("Page"@, Option::Some("Page"@)), name);
    lemma_count_singleton(
        crate::transform::spec_import("Effect"@, Option::Some("Effect"@)),
        name,
    );
    assert(spec_count_imports(Seq::<BlockView>::empty(), name) == 0);
    assert("Shared"@.len() == 6 && "Request"@.len() == 7 && "Page"@.len() == 4 && "Effect"@.len()
        == 6);
    assert("Shared"@ != "Request"@);
    assert("Shared"@ != "Page"@);
    assert("Shared"@ != "Effect"@);
    assert("Request"@ != "Page"@);
    assert("Request"@ != "Effect"@);
    assert("Page"@ != "Effect"@);
    if name == "Shared"@ {
        assert(spec_count_imports(s2, name) == 0);
        assert(spec_count_imports(s3, name) == 0);
        assert(spec_count_imports(s4, name) == 0);
    } else if name == "Request"@ {
        assert(spec_count_imports(s1, name) == 0);
        assert(spec_count_imports(s3, name) == 0);
        assert(spec_count_imports(s4, name) == 0);
    } else if name == "Page"@ {
        assert(spec_count_imports(s1, name) == 0);
        assert(spec_count_imports(s2, name) == 0);
        assert(spec_count_imports(s4, name) == 0);
    } else {
        assert(spec_count_imports(s1, name) == 0);
        assert(spec_count_imports(s2, name) == 0);
        assert(spec_count_imports(s3, name) == 0);
    }
    assert(spec_count_imports(s1 + s2, name) == spec_count_imports(s1, name)
        + spec_count_imports(s2, name));
    assert(spec_count_imports(s1 + s2 + s3, name) == spec_count_imports(s1 + s2, name)
        + spec_count_imports(s3, name));
    assert(spec_count_imports(s1 + s2 + s3 + s4, name) == spec_count_imports(s1 + s2 + s3, name)
        + spec_count_imports(s4, name));
}

/// Import idempotence: transforming an already-transformed page with the
/// same archetype and toggles injects no second `Shared`, `Request`, `Page`
/// or `Effect` import — each of those counts stays what one transformation
/// made it.
pub proof fn lemma_import_idempotent(bs: Seq<BlockView>, t: PageType, shared: bool, request: bool)
    ensures
        ({
            let once = spec_transform(bs, t, shared, request);
            let twice = spec_transform(once, t, shared, request);
            &&& spec_count_imports(twice, "Shared"@) == spec_count_imports(once, "Shared"@)
            &&& spec_count_imports(twice, "Request"@) == spec_count_imports(once, "Request"@)
            &&& spec_count_imports(twice, "Page"@) == spec_count_imports(once, "Page"@)
            &&& spec_count_imports(twice, "Effect"@) == spec_count_imports(once, "Effect"@)
        }),
{
    reveal_strlit("Shared");
    reveal_strlit("Request");
    reveal_strlit("Page");
    reveal_strlit("Effect");
    let once = spec_transform(bs, t, shared, request);
    assert("Shared"@.len() == 6 && "Shared"@[0] == 'S');
    assert("Request"@.len() == 7 && "Request"@[0] == 'R');
    assert("Page"@.len() == 4 && "Page"@[0] == 'P');
    assert("Effect"@.len() == 6 && "Effect"@[0] == 'E');

    lemma_transform_import_count(bs, t, shared, request, "Shared"@);
    lemma_transform_import_count(bs, t, shared, request, "Request"@);
    lemma_transform_import_count(bs, t, shared, request, "Page"@);
    lemma_transform_import_count(bs, t, shared, request, "Effect"@);
    lemma_transform_import_count(once, t, shared, request, "Shared"@);
    lemma_transform_import_count(once, t, shared, request, "Request"@);
    lemma_transform_import_count(once, t, shared, request, "Page"@);
    lemma_transform_import_count(once, t, shared, request, "Effect"@);
    lemma_pre_count(bs, t, shared, request, "Shared"@);
    lemma_pre_count(bs, t, shared, request, "Request"@);
    lemma_pre_count(bs, t, shared, request, "Page"@);
    lemma_pre_count(bs, t, shared, request, "Effect"@);
    lemma_pre_count(once, t, shared, request, "Shared"@);
    lemma_pre_count(once, t, shared, request, "Request"@);
    lemma_pre_count(once, t, shared, request, "Page"@);
    lemma_pre_count(once, t, shared, request, "Effect"@);
    lemma_count_pos(bs, "Shared"@);
    lemma_count_pos(bs, "Request"@);
    lemma_count_pos(bs, "Page"@);
    lemma_count_pos(bs, "Effect"@);
    lemma_count_pos(once, "Shared"@);
    lemma_count_pos(once, "Request"@);
    lemma_count_pos(once, "Page"@);
    lemma_count_pos(once, "Effect"@);
}


/// A run matching the pattern at any position shows containment.
proof fn lemma_contains_at(s: Seq<char>, p: Seq<char>, i: int)
    requires
        0 <= i,
        i + p.len() <= s.len(),
        s.subrange(i, i + p.len() as int) == p,
    ensures
        crate::text::spec_contains(s, p),
    decreases i,
{
    if i == 0 {
        assert(s.take(p.len() as int) =~= s.subrange(0, p.len() as int));
        assert(crate::text::spec_starts_with(s, p));
    } else {
        assert(s.drop_first().subrange(i - 1, i - 1 + p.len() as int) =~= s.subrange(
            i,
            i + p.len() as int,
        ));
        lemma_contains_at(s.drop_first(), p, i - 1);
    }
}

/// Toggle-driven signatures, presence direction: when a toggle is set, the
/// shared-model (or request) signature fragment stands in every generated
/// declaration that carries signatures — `init` and `update` for the three
/// archetypes that generate them, `view` for all four, `subscriptions` for
/// `Element` and `Advanced`. That the fragment is absent when the toggle is
/// off is checked by the test suite over every archetype and toggle pair.
#[verifier::rlimit(100)]
#[verifier::spinoff_prover]
pub proof fn lemma_toggle_fragment_present(t: PageType, sh: bool, rq: bool)
    ensures
        sh && t != PageType::Static ==> crate::text::spec_contains(
            spec_init_template(t, sh, rq),
            "Shared.Model ->"@,
        ),
        sh && t != PageType::Static ==> crate::text::spec_contains(
            spec_update_template(t, sh, rq),
            "Shared.Model ->"@,
        ),
        sh ==> crate::text::spec_contains(spec_view_template(t, sh, rq), "Shared.Model ->"@),
        sh && (t == PageType::Element || t == PageType::Advanced)
            ==> crate::text::spec_contains(
            spec_subscriptions_template(t, sh, rq),
            "Shared.Model ->"@,
        ),
        rq && t != PageType::Static ==> crate::text::spec_contains(
            spec_init_template(t, sh, rq),
            "Request.With Params ->"@,
        ),
        rq && t != PageType::Static ==> crate::text::spec_contains(
            spec_update_template(t, sh, rq),
            "Request.With Params ->"@,
        ),
        rq ==> crate::text::spec_contains(spec_view_template(t, sh, rq), "Request.With Params ->"@),
        rq && (t == PageType::Element || t == PageType::Advanced)
            ==> crate::text::spec_contains(
            spec_subscriptions_template(t, sh, rq),
            "Request.With Params ->"@,
        ),
{
    reveal_strlit("init : ");
    reveal_strlit("update : ");
    reveal_strlit("view : ");
    reveal_strlit("subscriptions : ");
    reveal_strlit(" ");
    reveal_strlit("Shared.Model ->");
    reveal_strlit("Request.With Params ->");
    let s_sig = crate::template::spec_s_sig(sh);
    let r_sig = crate::template::spec_r_sig(rq);
    if sh {
        assert(s_sig.len() == 15);
        if t != PageType::Static {
            let s = spec_init_template(t, sh, rq);
            assert(s.subrange(7, 22) =~= "Shared.Model ->"@);
            lemma_contains_at(s, "Shared.Model ->"@, 7);
            let u = spec_update_template(t, sh, rq);
            assert(u.subrange(9, 24) =~= "Shared.Model ->"@);
            lemma_contains_at(u, "Shared.Model ->"@, 9);
        }
        let v = spec_view_template(t, sh, rq);
        assert(v.subrange(7, 22) =~= "Shared.Model ->"@);
        lemma_contains_at(v, "Shared.Model ->"@, 7);
        if t == PageType::Element || t == PageType::Advanced {
            let w = spec_subscriptions_template(t, sh, rq);
            assert(w.subrange(16, 31) =~= "Shared.Model ->"@);
            lemma_contains_at(w, "Shared.Model ->"@, 16);
        }
    }
    if rq {
        assert(r_sig.len() == 22);
        let off: int = if sh {
            16
        } else {
            1
        };
        assert(s_sig.len() + 1 == off) by {
            reveal_strlit("");
        }
        if t != PageType::Static {
            let s = spec_init_template(t, sh, rq);
            assert(s.subrange(7 + off, 7 + off + 22) =~= "Request.With Params ->"@);
            lemma_contains_at(s, "Request.With Params ->"@, 7 + off);
            let u = spec_update_template(t, sh, rq);
            assert(u.subrange(9 + off, 9 + off + 22) =~= "Request.With Params ->"@);
            lemma_contains_at(u, "Request.With Params ->"@, 9 + off);
        }
        let v = spec_view_template(t, sh, rq);
        assert(v.subrange(7 + off, 7 + off + 22) =~= "Request.With Params ->"@);
        lemma_contains_at(v, "Request.With Params ->"@, 7 + off);
        if t == PageType::Element || t == PageType::Advanced {
            let w = spec_subscriptions_template(t, sh, rq);
            assert(w.subrange(16 + off, 16 + off + 22) =~= "Request.With Params ->"@);
            lemma_contains_at(w, "Request.With Params ->"@, 16 + off);
        }
    }
}

} // verus!
