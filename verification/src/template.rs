//! The template generator: a pure mapping from (archetype, toggle pair,
//! function kind) to canonical declaration text.

use vstd::prelude::*;
use vstd::string::StringExecFns;

verus! {

/// The four page archetypes.
#[derive(Debug, Clone, Copy, PartialEq, Eq, Structural)]
pub enum PageType {
    Static,
    Sandbox,
    Element,
    Advanced,
}

/// The shared-model signature fragment: present exactly when the shared
/// toggle is set.
pub open spec fn spec_s_sig(shared: bool) -> Seq<char> {
    if shared {
        "Shared.Model ->"@
    } else {
        ""@
    }
}

/// The request signature fragment: present exactly when the request toggle is
/// set.
pub open spec fn spec_r_sig(request: bool) -> Seq<char> {
    if request {
        "Request.With Params ->"@
    } else {
        ""@
    }
}

/// The shared-model argument name: present exactly when the shared toggle is
/// set.
pub open spec fn spec_s_arg(shared: bool) -> Seq<char> {
    if shared {
        "shared"@
    } else {
        ""@
    }
}

/// The request argument name: present exactly when the request toggle is set.
pub open spec fn spec_r_arg(request: bool) -> Seq<char> {
    if request {
        "req"@
    } else {
        ""@
    }
}

/// The four signature and argument fragments driven by the two toggles:
/// shared signature, request signature, shared argument, request argument.
pub fn _fmt_defs(shared: bool, request: bool) -> (r: (
    &'static str,
    &'static str,
    &'static str,
    &'static str,
))
    ensures
        r.0@ == spec_s_sig(shared),
        r.1@ == spec_r_sig(request),
        r.2@ == spec_s_arg(shared),
        r.3@ == spec_r_arg(request),
{
    let (s_sig, s_arg) = if shared {
        ("Shared.Model ->", "shared")
    } else {
        ("", "")
    };
    let (r_sig, r_arg) = if request {
        ("Request.With Params ->", "req")
    } else {
        ("", "")
    };
    (s_sig, r_sig, s_arg, r_arg)
}

/// Which archetype a command-line template token names, if any.
pub open spec fn spec_page_type(s: Seq<char>) -> Option<PageType> {
    if s == "static"@ {
        Option::Some(PageType::Static)
    } else if s == "sandbox"@ {
        Option::Some(PageType::Sandbox)
    } else if s == "element"@ {
        Option::Some(PageType::Element)
    } else if s == "advanced"@ {
        Option::Some(PageType::Advanced)
    } else {
        Option::None
    }
}

/// The fixed exposed-name list of the archetype's module header.
pub open spec fn spec_exposing_template(t: PageType) -> Seq<char> {
    match t {
        PageType::Static => "page"@,
        PageType::Sandbox => "page, Model, Msg"@,
        PageType::Element => "page, Model, Msg"@,
        PageType::Advanced => "page, Model, Msg"@,
    }
}

/// The generated `page` wiring declaration.
pub open spec fn spec_page_template(t: PageType, shared: bool, request: bool) -> Seq<char> {
    let s_arg = spec_s_arg(shared);
    let r_arg = spec_r_arg(request);
    match t {
        PageType::Static => "page : Shared.Model -> Request.With Params -> Page\npage shared req =\n    Page.static\n        { view = view "@
            + s_arg + " "@ + r_arg + "\n        }\n"@,
        PageType::Sandbox => "page : Shared.Model -> Request.With Params -> Page.With Model Msg\npage shared req =\n    Page.sandbox\n        { init = init "@
            + s_arg + " "@ + r_arg + "\n        , update = update "@ + s_arg + " "@ + r_arg
            + "\n        , view = view "@ + s_arg + " "@ + r_arg + "\n        }\n"@,
        PageType::Element => "page : Shared.Model -> Request.With Params -> Page.With Model Msg\npage shared req =\n    Page.element\n        { init = init "@
            + s_arg + " "@ + r_arg + "\n        , update = update "@ + s_arg + " "@ + r_arg
            + "\n        , view = view "@ + s_arg + " "@ + r_arg
            + "\n        , subscriptions = subscriptions "@ + s_arg + " "@ + r_arg
            + "\n        }\n"@,
        PageType::Advanced => "page : Shared.Model -> Request.With Params -> Page.With Model Msg\npage shared req =\n    Page.advanced\n        { init = init "@
            + s_arg + " "@ + r_arg + "\n        , update = update "@ + s_arg + " "@ + r_arg
            + "\n        , view = view "@ + s_arg + " "@ + r_arg
            + "\n        , subscriptions = subscriptions "@ + s_arg + " "@ + r_arg
            + "\n        }\n"@,
    }
}

/// The generated `init` declaration; empty for `Static`.
pub open spec fn spec_init_template(t: PageType, shared: bool, request: bool) -> Seq<char> {
    let s_sig = spec_s_sig(shared);
    let r_sig = spec_r_sig(request);
    let s_arg = spec_s_arg(shared);
    let r_arg = spec_r_arg(request);
    match t {
        PageType::Static => ""@,
        PageType::Sandbox => "init : "@ + s_sig + " "@ + r_sig + " Model\ninit "@ + s_arg + " "@
            + r_arg + " =\n    {}\n"@,
        PageType::Element => "init : "@ + s_sig + " "@ + r_sig + " (Model, Cmd Msg)\ninit "@
            + s_arg + " "@ + r_arg + " =\n    ({}, Cmd.none)\n"@,
        PageType::Advanced => "init : "@ + s_sig + " "@ + r_sig + " (Model, Effect Msg)\ninit "@
            + s_arg + " "@ + r_arg + " =\n    ({}, Effect.none)\n"@,
    }
}

/// The generated `update` declaration; empty for `Static`.
pub open spec fn spec_update_template(t: PageType, shared: bool, request: bool) -> Seq<char> {
    let s_sig = spec_s_sig(shared);
    let r_sig = spec_r_sig(request);
    let s_arg = spec_s_arg(shared);
    let r_arg = spec_r_arg(request);
    match t {
        PageType::Static => ""@,
        PageType::Sandbox => "update : "@ + s_sig + " "@ + r_sig
            + " Msg -> Model -> Model\nupdate "@ + s_arg + " "@ + r_arg
            + " msg model =\n    case msg of\n        _ ->\n            model\n"@,
        PageType::Element => "update : "@ + s_sig + " "@ + r_sig
            + " Msg -> Model -> ( Model, Cmd Msg )\nupdate "@ + s_arg + " "@ + r_arg
            + " msg model =\n    case msg of\n        _ ->\n            ( model, Cmd.none )\n"@,
        PageType::Advanced => "update : "@ + s_sig + " "@ + r_sig
            + " Msg -> Model -> ( Model, Effect Msg )\nupdate "@ + s_arg + " "@ + r_arg
            + " msg model =\n    case msg of\n        _ ->\n            ( model, Effect.none )\n"@,
    }
}

/// The generated `view` declaration: a fixed placeholder view, with a model
/// parameter for every archetype but `Static`.
pub open spec fn spec_view_template(t: PageType, shared: bool, request: bool) -> Seq<char> {
    let s_sig = spec_s_sig(shared);
    let r_sig = spec_r_sig(request);
    let s_arg = spec_s_arg(shared);
    let r_arg = spec_r_arg(request);
    match t {
        PageType::Static => "view : "@ + s_sig + " "@ + r_sig + " View msg\nview "@ + s_arg + " "@
            + r_arg + " =\n    View.placeholder \"Hello World\"\n"@,
        _ => "view : "@ + s_sig + " "@ + r_sig + " Model -> View Msg\nview "@ + s_arg + " "@
            + r_arg + " model =\n    View.placeholder \"Hello World\"\n"@,
    }
}

/// The generated `subscriptions` declaration; empty for `Static` and
/// `Sandbox`.
pub open spec fn spec_subscriptions_template(t: PageType, shared: bool, request: bool) -> Seq<
    char,
> {
    let s_sig = spec_s_sig(shared);
    let r_sig = spec_r_sig(request);
    let s_arg = spec_s_arg(shared);
    let r_arg = spec_r_arg(request);
    match t {
        PageType::Static => ""@,
        PageType::Sandbox => ""@,
        _ => "subscriptions : "@ + s_sig + " "@ + r_sig
            + " Model -> Sub Msg\nsubscriptions "@ + s_arg + " "@ + r_arg
            + " model =\n    Sub.none\n"@,
    }
}

impl PageType {
    /// Reads an archetype from its command-line token.
    pub fn from(string: &str) -> (r: Option<PageType>)
        ensures
            r == spec_page_type(string@),
    {
        if crate::text::str_eq(string, "static") {
            Option::Some(PageType::Static)
        } else if crate::text::str_eq(string, "sandbox") {
            Option::Some(PageType::Sandbox)
        } else if crate::text::str_eq(string, "element") {
            Option::Some(PageType::Element)
        } else if crate::text::str_eq(string, "advanced") {
            Option::Some(PageType::Advanced)
        } else {
            Option::None
        }
    }

    /// The fixed exposed-name list for the archetype's module header.
    pub fn exposing_template(self) -> (r: &'static str)
        ensures
            r@ == spec_exposing_template(self),
    {
        match self {
            PageType::Static => "page",
            PageType::Sandbox => "page, Model, Msg",
            PageType::Element => "page, Model, Msg",
            PageType::Advanced => "page, Model, Msg",
        }
    }

    /// The generated `page` wiring declaration for this archetype.
    pub fn page_template(self, shared: bool, request: bool) -> (r: String)
        ensures
            r@ == spec_page_template(self, shared, request),
    {
        let (_, _, s_arg, r_arg) = _fmt_defs(shared, request);
        match self {
            PageType::Static => {
                let mut out = String::from_str(
                    "page : Shared.Model -> Request.With Params -> Page\npage shared req =\n    Page.static\n        { view = view ",
                );
                out.append(s_arg);
                out.append(" ");
                out.append(r_arg);
                out.append("\n        }\n");
                out
            },
            PageType::Sandbox => {
                let mut out = String::from_str(
                    "page : Shared.Model -> Request.With Params -> Page.With Model Msg\npage shared req =\n    Page.sandbox\n        { init = init ",
                );
                out.append(s_arg);
                out.append(" ");
                out.append(r_arg);
                out.append("\n        , update = update ");
                out.append(s_arg);
                out.append(" ");
                out.append(r_arg);
                out.append("\n        , view = view ");
                out.append(s_arg);
                out.append(" ");
                out.append(r_arg);
                out.append("\n        }\n");
                out
            },
            PageType::Element => {
                let mut out = String::from_str(
                    "page : Shared.Model -> Request.With Params -> Page.With Model Msg\npage shared req =\n    Page.element\n        { init = init ",
                );
                out.append(s_arg);
                out.append(" ");
                out.append(r_arg);
                out.append("\n        , update = update ");
                out.append(s_arg);
                out.append(" ");
                out.append(r_arg);
                out.append("\n        , view = view ");
                out.append(s_arg);
                out.append(" ");
                out.append(r_arg);
                out.append("\n        , subscriptions = subscriptions ");
                out.append(s_arg);
                out.append(" ");
                out.append(r_arg);
                out.append("\n        }\n");
                out
            },
            PageType::Advanced => {
                let mut out = String::from_str(
                    "page : Shared.Model -> Request.With Params -> Page.With Model Msg\npage shared req =\n    Page.advanced\n        { init = init ",
                );
                out.append(s_arg);
                out.append(" ");
                out.append(r_arg);
                out.append("\n        , update = update ");
                out.append(s_arg);
                out.append(" ");
                out.append(r_arg);
                out.append("\n        , view = view ");
                out.append(s_arg);
                out.append(" ");
                out.append(r_arg);
                out.append("\n        , subscriptions = subscriptions ");
                out.append(s_arg);
                out.append(" ");
                out.append(r_arg);
                out.append("\n        }\n");
                out
            },
        }
    }

    /// The generated `init` declaration for this archetype.
    pub fn init_template(self, shared: bool, request: bool) -> (r: String)
        ensures
            r@ == spec_init_template(self, shared, request),
    {
        let (s_sig, r_sig, s_arg, r_arg) = _fmt_defs(shared, request);
        match self {
            PageType::Static => String::from_str(""),
            PageType::Sandbox => {
                let mut out = String::from_str("init : ");
                out.append(s_sig);
                out.append(" ");
                out.append(r_sig);
                out.append(" Model\ninit ");
                out.append(s_arg);
                out.append(" ");
                out.append(r_arg);
                out.append(" =\n    {}\n");
                out
            },
            PageType::Element => {
                let mut out = String::from_str("init : ");
                out.append(s_sig);
                out.append(" ");
                out.append(r_sig);
                out.append(" (Model, Cmd Msg)\ninit ");
                out.append(s_arg);
                out.append(" ");
                out.append(r_arg);
                out.append(" =\n    ({}, Cmd.none)\n");
                out
            },
            PageType::Advanced => {
                let mut out = String::from_str("init : ");
                out.append(s_sig);
                out.append(" ");
                out.append(r_sig);
                out.append(" (Model, Effect Msg)\ninit ");
                out.append(s_arg);
                out.append(" ");
                out.append(r_arg);
                out.append(" =\n    ({}, Effect.none)\n");
                out
            },
        }
    }

    /// The generated `update` declaration for this archetype.
    pub fn update_template(self, shared: bool, request: bool) -> (r: String)
        ensures
            r@ == spec_update_template(self, shared, request),
    {
        let (s_sig, r_sig, s_arg, r_arg) = _fmt_defs(shared, request);
        match self {
            PageType::Static => String::from_str(""),
            PageType::Sandbox => {
                let mut out = String::from_str("update : ");
                out.append(s_sig);
                out.append(" ");
                out.append(r_sig);
                out.append(" Msg -> Model -> Model\nupdate ");
                out.append(s_arg);
                out.append(" ");
                out.append(r_arg);
                out.append(" msg model =\n    case msg of\n        _ ->\n            model\n");
                out
            },
            PageType::Element => {
                let mut out = String::from_str("update : ");
                out.append(s_sig);
                out.append(" ");
                out.append(r_sig);
                out.append(" Msg -> Model -> ( Model, Cmd Msg )\nupdate ");
                out.append(s_arg);
                out.append(" ");
                out.append(r_arg);
                out.append(
                    " msg model =\n    case msg of\n        _ ->\n            ( model, Cmd.none )\n",
                );
                out
            },
            PageType::Advanced => {
                let mut out = String::from_str("update : ");
                out.append(s_sig);
                out.append(" ");
                out.append(r_sig);
                out.append(" Msg -> Model -> ( Model, Effect Msg )\nupdate ");
                out.append(s_arg);
                out.append(" ");
                out.append(r_arg);
                out.append(
                    " msg model =\n    case msg of\n        _ ->\n            ( model, Effect.none )\n",
                );
                out
            },
        }
    }

    /// The generated `view` declaration for this archetype.
    pub fn view_template(self, shared: bool, request: bool) -> (r: String)
        ensures
            r@ == spec_view_template(self, shared, request),
    {
        let (s_sig, r_sig, s_arg, r_arg) = _fmt_defs(shared, request);
        match self {
            PageType::Static => {
                let mut out = String::from_str("view : ");
                out.append(s_sig);
                out.append(" ");
                out.append(r_sig);
                out.append(" View msg\nview ");
                out.append(s_arg);
                out.append(" ");
                out.append(r_arg);
                out.append(" =\n    View.placeholder \"Hello World\"\n");
                out
            },
            _ => {
                let mut out = String::from_str("view : ");
                out.append(s_sig);
                out.append(" ");
                out.append(r_sig);
                out.append(" Model -> View Msg\nview ");
                out.append(s_arg);
                out.append(" ");
                out.append(r_arg);
                out.append(" model =\n    View.placeholder \"Hello World\"\n");
                out
            },
        }
    }

    /// The generated `subscriptions` declaration for this archetype.
    pub fn subscriptions_template(self, shared: bool, request: bool) -> (r: String)
        ensures
            r@ == spec_subscriptions_template(self, shared, request),
    {
        let (s_sig, r_sig, s_arg, r_arg) = _fmt_defs(shared, request);
        match self {
            PageType::Static => String::from_str(""),
            PageType::Sandbox => String::from_str(""),
            _ => {
                let mut out = String::from_str("subscriptions : ");
                out.append(s_sig);
                out.append(" ");
                out.append(r_sig);
                out.append(" Model -> Sub Msg\nsubscriptions ");
                out.append(s_arg);
                out.append(" ");
                out.append(r_arg);
                out.append(" model =\n    Sub.none\n");
                out
            },
        }
    }
}

} // verus!
