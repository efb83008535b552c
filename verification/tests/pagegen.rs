use pagegen::cli::Cli;
use pagegen::model::{Block, Module, Page};
use pagegen::template::PageType;

fn chars(s: &str) -> Vec<char> {
    s.chars().collect()
}

fn text(v: &[char]) -> String {
    v.iter().collect()
}

#[test]
fn page_type_from_tokens() {
    assert_eq!(PageType::from("static"), Some(PageType::Static));
    assert_eq!(PageType::from("sandbox"), Some(PageType::Sandbox));
    assert_eq!(PageType::from("element"), Some(PageType::Element));
    assert_eq!(PageType::from("advanced"), Some(PageType::Advanced));
    assert_eq!(PageType::from("Advanced"), None);
    assert_eq!(PageType::from(""), None);
}

#[test]
fn exposing_template_per_archetype() {
    assert_eq!(PageType::Static.exposing_template(), "page");
    assert_eq!(PageType::Sandbox.exposing_template(), "page, Model, Msg");
    assert_eq!(PageType::Element.exposing_template(), "page, Model, Msg");
    assert_eq!(PageType::Advanced.exposing_template(), "page, Model, Msg");
}

#[test]
fn init_template_exact() {
    assert_eq!(PageType::Static.init_template(false, false), "");
    assert_eq!(
        PageType::Sandbox.init_template(false, false),
        "init :   Model\ninit   =\n    {}\n"
    );
    assert_eq!(
        PageType::Element.init_template(true, false),
        "init : Shared.Model ->  (Model, Cmd Msg)\ninit shared  =\n    ({}, Cmd.none)\n"
    );
    assert_eq!(
        PageType::Advanced.init_template(true, true),
        "init : Shared.Model -> Request.With Params -> (Model, Effect Msg)\ninit shared req =\n    ({}, Effect.none)\n"
    );
}

#[test]
fn update_template_exact() {
    assert_eq!(PageType::Static.update_template(true, true), "");
    assert_eq!(
        PageType::Sandbox.update_template(false, true),
        "update :  Request.With Params -> Msg -> Model -> Model\nupdate  req msg model =\n    case msg of\n        _ ->\n            model\n"
    );
}

#[test]
fn subscriptions_template_exact() {
    assert_eq!(PageType::Static.subscriptions_template(false, false), "");
    assert_eq!(PageType::Sandbox.subscriptions_template(true, true), "");
    assert_eq!(
        PageType::Element.subscriptions_template(false, false),
        "subscriptions :   Model -> Sub Msg\nsubscriptions   model =\n    Sub.none\n"
    );
}

#[test]
fn toggle_drives_shared_fragment() {
    for t in [PageType::Sandbox, PageType::Element, PageType::Advanced] {
        for rq in [false, true] {
            assert!(t.init_template(true, rq).contains("Shared.Model ->"));
            assert!(!t.init_template(false, rq).contains("Shared.Model ->"));
            assert!(t.update_template(true, rq).contains("Shared.Model ->"));
            assert!(!t.update_template(false, rq).contains("Shared.Model ->"));
            assert!(t.view_template(true, rq).contains("Shared.Model ->"));
            assert!(!t.view_template(false, rq).contains("Shared.Model ->"));
        }
    }
}

#[test]
fn toggle_drives_request_fragment() {
    for t in [PageType::Sandbox, PageType::Element, PageType::Advanced] {
        for sh in [false, true] {
            assert!(t.init_template(sh, true).contains("Request.With Params ->"));
            assert!(!t.init_template(sh, false).contains("Request.With Params ->"));
            assert!(t.view_template(sh, true).contains("Request.With Params ->"));
            assert!(!t.view_template(sh, false).contains("Request.With Params ->"));
        }
    }
}

#[test]
fn static_transform_of_minimal_page() {
    let input = String::from(
        "module Pages.Home exposing (page)\n\npage =\n    Page.static { view = view }\n",
    );
    let page = Page::parse(&input).unwrap();
    let out = page.to(PageType::Static, false, false).render();
    let expected_lines = vec![
        "module Pages.Home exposing (page)",
        "import Page exposing (Page)",
        "import Gen.Params.Home exposing (Params)",
        "",
        "",
        "page : Shared.Model -> Request.With Params -> Page",
        "page shared req =",
        "    Page.static",
        "        { view = view  ",
        "        }",
        "",
        "-- page =",
        "--     Page.static { view = view }",
        "view :   View msg",
        "view   =",
        "    View.placeholder \"Hello World\"",
        "",
    ];
    let expected: String = expected_lines
        .iter()
        .map(|l| format!("{}\n", l))
        .collect();
    assert_eq!(out, expected);
}

#[test]
fn advanced_transform_backfills_everything() {
    let input = String::from(
        "module Pages.Home exposing (page)\n\npage =\n    Page.static { view = view }\n",
    );
    let page = Page::parse(&input).unwrap();
    let out = page.to(PageType::Advanced, true, true).render();
    assert!(out.starts_with("module Pages.Home exposing (page, Model, Msg)\n"));
    assert!(out.contains("import Shared\n"));
    assert!(out.contains("import Request exposing (Request)\n"));
    assert!(out.contains("import Page exposing (Page)\n"));
    assert!(out.contains("import Effect exposing (Effect)\n"));
    assert!(out.contains("import Gen.Params.Home exposing (Params)\n"));
    assert!(out.contains("type alias Model = {}\n"));
    assert!(out.contains("type Msg = ReplaceMe\n"));
    assert!(out.contains(
        "init : Shared.Model -> Request.With Params -> (Model, Effect Msg)\ninit shared req =\n    ({}, Effect.none)\n"
    ));
    assert!(out.contains(
        "update : Shared.Model -> Request.With Params -> Msg -> Model -> ( Model, Effect Msg )\n"
    ));
    assert!(out.contains(
        "subscriptions : Shared.Model -> Request.With Params -> Model -> Sub Msg\n"
    ));
    assert!(out.contains("Page.advanced\n"));
    assert!(out.contains("-- page =\n--     Page.static { view = view }\n"));
}

#[test]
fn existing_page_import_gets_prefixed_even_when_duplicate() {
    // The merge rule prefixes "Page, " without checking for an existing
    // entry, so a pre-exposed Page import ends up listing Page twice.
    let input = String::from(
        "module Pages.Home exposing (page)\nimport Page exposing (Page)\n\npage =\n    Page.static { view = view }\n",
    );
    let page = Page::parse(&input).unwrap();
    let out = page.to(PageType::Static, false, false).render();
    assert!(out.contains("import Page exposing (Page, Page)\n"));
    assert_eq!(out.matches("import Page exposing").count(), 1);
}

#[test]
fn transform_twice_keeps_single_imports() {
    let input = String::from(
        "module Pages.Home exposing (page)\n\npage =\n    Page.static { view = view }\n",
    );
    let once = Page::parse(&input)
        .unwrap()
        .to(PageType::Advanced, true, true)
        .render();
    let twice = Page::parse(&once)
        .unwrap()
        .to(PageType::Advanced, true, true)
        .render();
    assert_eq!(twice.matches("import Shared\n").count(), 1);
    assert_eq!(twice.matches("import Request exposing").count(), 1);
    assert_eq!(twice.matches("import Effect exposing").count(), 1);
    assert_eq!(twice.matches("\nimport Page exposing").count(), 1);
}

#[test]
fn multi_clause_update_is_one_block() {
    let input = String::from(
        "module Pages.Home exposing (page)\nupdate Inc model =\n    up model\nupdate Dec model =\n    down model\n",
    );
    let page = Page::parse(&input).unwrap();
    assert_eq!(page.blocks.len(), 2);
    match &page.blocks[1] {
        Block::Update(f) => {
            assert_eq!(f.lines.len(), 4);
            assert_eq!(text(&f.lines[0]), "update Inc model =");
            assert_eq!(text(&f.lines[1]), "    up model");
            assert_eq!(text(&f.lines[2]), "update Dec model =");
            assert_eq!(text(&f.lines[3]), "    down model");
        }
        other => panic!("expected an update block, found {:?}", other),
    }
}

#[test]
fn render_parse_render_is_stable_for_declaration_pages() {
    let t0 = String::from("module Pages.A exposing (x, y)\nimport B\nimport C exposing (c1, c2)\n-- a comment\n");
    let r1 = Page::parse(&t0).unwrap().render();
    assert_eq!(r1, t0);
    let r2 = Page::parse(&r1).unwrap().render();
    assert_eq!(r2, r1);
}

#[test]
fn multi_line_exposing_is_gathered() {
    let input = String::from("import Foo exposing (a,\n    b,\n    c)\nx = 1\n");
    let page = Page::parse(&input).unwrap();
    match &page.blocks[0] {
        Block::Import(m) => {
            assert_eq!(text(&m.name), "Foo");
            assert_eq!(text(m.exposing.as_ref().unwrap()), "a,    b,    c");
        }
        other => panic!("expected an import block, found {:?}", other),
    }
    match &page.blocks[1] {
        Block::Other(t) => assert_eq!(text(t), "x = 1"),
        other => panic!("expected an opaque block, found {:?}", other),
    }
}

#[test]
fn module_line_without_name_is_an_error() {
    let line = chars("module");
    let lines: Vec<Vec<char>> = Vec::new();
    let err = Module::parse(&line, &lines, 0).unwrap_err();
    assert_eq!(err.line, "module");
    assert_eq!(err.message(), "Failed to parse: module");
}

#[test]
fn import_without_exposing_has_none() {
    let input = String::from("import Html\n");
    let page = Page::parse(&input).unwrap();
    match &page.blocks[0] {
        Block::Import(m) => {
            assert_eq!(text(&m.name), "Html");
            assert!(m.exposing.is_none());
        }
        other => panic!("expected an import block, found {:?}", other),
    }
}

#[test]
fn function_block_absorbs_blank_and_indented_lines() {
    let input = String::from("view model =\n\n    body\nnext = 2\n");
    let page = Page::parse(&input).unwrap();
    assert_eq!(page.blocks.len(), 2);
    match &page.blocks[0] {
        Block::View(f) => {
            assert_eq!(f.lines.len(), 3);
            assert_eq!(text(&f.lines[1]), "");
        }
        other => panic!("expected a view block, found {:?}", other),
    }
}

#[test]
fn cli_flags_and_operands() {
    let args = vec![
        String::from("-s"),
        String::from("--dry-run"),
        String::from("src/Pages/Home.elm"),
        String::from("advanced"),
    ];
    let cli = Cli::parse(args);
    assert!(cli.shared);
    assert!(!cli.request);
    assert!(cli.dry_run);
    assert_eq!(cli.path.as_deref(), Some("src/Pages/Home.elm"));
    assert_eq!(cli.template, Some(PageType::Advanced));
}

#[test]
fn cli_unrecognized_template_is_absent() {
    let args = vec![String::from("a.elm"), String::from("bogus")];
    let cli = Cli::parse(args);
    assert_eq!(cli.path.as_deref(), Some("a.elm"));
    assert_eq!(cli.template, None);
}

#[test]
fn cli_double_dash_takes_next_as_path() {
    let args = vec![
        String::from("--"),
        String::from("-weird.elm"),
        String::from("static"),
    ];
    let cli = Cli::parse(args);
    assert_eq!(cli.path.as_deref(), Some("-weird.elm"));
    assert_eq!(cli.template, None);
}

#[test]
fn cli_help_and_version_flags() {
    let cli = Cli::parse(vec![String::from("-h")]);
    assert!(cli.help);
    let cli = Cli::parse(vec![String::from("--version")]);
    assert!(cli.version);
}

#[test]
fn sandbox_transform_skips_subscriptions_backfill() {
    let input = String::from(
        "module Pages.Home exposing (page)\n\npage =\n    Page.static { view = view }\n",
    );
    let out = Page::parse(&input)
        .unwrap()
        .to(PageType::Sandbox, false, false)
        .render();
    assert!(!out.contains("subscriptions"));
    assert!(out.contains("type alias Model = {}"));
    assert!(out.contains("Page.sandbox\n"));
}

#[test]
fn nested_pages_prefix_is_stripped_repeatedly() {
    let input = String::from("module Pages.Pages.Inner exposing (page)\n");
    let out = Page::parse(&input)
        .unwrap()
        .to(PageType::Static, false, false)
        .render();
    assert!(out.contains("import Gen.Params.Inner exposing (Params)\n"));
}
