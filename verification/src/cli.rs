//! Command-line decisions: reading flags, the target path and the template
//! token out of an argument list. Reading the real process arguments and all
//! I/O stay outside the library; this module only decides what they mean.

use crate::template::{PageType, spec_page_type};
use crate::text::str_eq;
use vstd::prelude::*;

verus! {

/// Mathematical image of the parsed command line.
pub struct CliView {
    pub version: bool,
    pub help: bool,
    pub dry_run: bool,
    pub shared: bool,
    pub request: bool,
    pub path: Option<Seq<char>>,
    pub template: Option<PageType>,
}

/// What the user asked for on the command line.
#[derive(Debug)]
pub struct Cli {
    pub version: bool,
    pub help: bool,
    pub dry_run: bool,
    pub shared: bool,
    pub request: bool,
    pub path: Option<String>,
    pub template: Option<PageType>,
}

impl View for Cli {
    type V = CliView;

    open spec fn view(&self) -> CliView {
        CliView {
            version: self.version,
            help: self.help,
            dry_run: self.dry_run,
            shared: self.shared,
            request: self.request,
            path: match self.path {
                Option::Some(p) => Option::Some(p@),
                Option::None => Option::None,
            },
            template: self.template,
        }
    }
}

/// The command line with nothing set.
pub open spec fn spec_cli_default() -> CliView {
    CliView {
        version: false,
        help: false,
        dry_run: false,
        shared: false,
        request: false,
        path: Option::None,
        template: Option::None,
    }
}

/// What the argument walk makes of the remaining arguments, given the state
/// so far. Flags set their toggles; `--` stops the walk, taking the next
/// argument as the path when none is set; the first free argument is the
/// path, the second names the template (an unrecognized token leaves it
/// absent); further arguments are ignored.
pub open spec fn spec_cli(args: Seq<Seq<char>>, cur: CliView) -> CliView
    decreases args.len(),
{
    if args.len() == 0 {
        cur
    } else {
        let a = args.first();
        let rest = args.drop_first();
        if a == "-h"@ || a == "--help"@ {
            spec_cli(rest, CliView { help: true, ..cur })
        } else if a == "-V"@ || a == "--version"@ {
            spec_cli(rest, CliView { version: true, ..cur })
        } else if a == "--"@ {
            if cur.path is None {
                CliView {
                    path: if rest.len() > 0 {
                        Option::Some(rest.first())
                    } else {
                        Option::None
                    },
                    ..cur
                }
            } else {
                cur
            }
        } else if a == "-s"@ || a == "--shared"@ {
            spec_cli(rest, CliView { shared: true, ..cur })
        } else if a == "-r"@ || a == "--request"@ {
            spec_cli(rest, CliView { request: true, ..cur })
        } else if a == "--dry-run"@ {
            spec_cli(rest, CliView { dry_run: true, ..cur })
        } else if cur.path is None {
            spec_cli(rest, CliView { path: Option::Some(a), ..cur })
        } else if cur.template is None {
            spec_cli(rest, CliView { template: spec_page_type(a), ..cur })
        } else {
            spec_cli(rest, cur)
        }
    }
}

impl Cli {
    /// Walks the argument list (the process arguments, program name already
    /// dropped) and decides flags, path and template.
    pub fn parse(args: Vec<String>) -> (r: Cli)
        ensures
            r@ == spec_cli(args.deep_view(), spec_cli_default()),
    {
        let ghost av = args.deep_view();
        let mut cli = Cli {
            version: false,
            help: false,
            dry_run: false,
            shared: false,
            request: false,
            path: Option::None,
            template: Option::None,
        };
        let mut i: usize = 0;
        proof {
            assert(av.skip(0) =~= av);
        }
        loop
            invariant
                av == args.deep_view(),
                i <= av.len(),
                spec_cli(av, spec_cli_default()) == spec_cli(av.skip(i as int), cli@),
            ensures
                spec_cli(av, spec_cli_default()) == cli@,
            decreases av.len() - i,
        {
            if i == args.len() {
                proof {
                    assert(av.skip(i as int).len() == 0);
                }
                break ;
            }
            let arg = &args[i];
            proof {
                assert(av.skip(i as int).first() == av[i as int]);
                assert(av[i as int] == args@[i as int]@);
                assert(av.skip(i as int).drop_first() =~= av.skip(i as int + 1));
            }
            if str_eq(arg.as_str(), "-h") || str_eq(arg.as_str(), "--help") {
                cli.help = true;
            } else if str_eq(arg.as_str(), "-V") || str_eq(arg.as_str(), "--version") {
                cli.version = true;
            } else if str_eq(arg.as_str(), "--") {
                match cli.path {
                    Option::None => {
                        if i + 1 < args.len() {
                            proof {
                                assert(av.skip(i as int + 1).first() == av[i as int + 1]);
                            }
                            cli.path = Option::Some(args[i + 1].clone());
                        }
                    },
                    Option::Some(_) => {},
                }
                return cli;
            } else if str_eq(arg.as_str(), "-s") || str_eq(arg.as_str(), "--shared") {
                cli.shared = true;
            } else if str_eq(arg.as_str(), "-r") || str_eq(arg.as_str(), "--request") {
                cli.request = true;
            } else if str_eq(arg.as_str(), "--dry-run") {
                cli.dry_run = true;
            } else {
                let path_unset = match &cli.path {
                    Option::None => true,
                    Option::Some(_) => false,
                };
                if path_unset {
                    cli.path = Option::Some(arg.clone());
                } else {
                    let template_unset = match &cli.template {
                        Option::None => true,
                        Option::Some(_) => false,
                    };
                    if template_unset {
                        cli.template = PageType::from(arg.as_str());
                    }
                }
            }
            i = i + 1;
        }
        cli
    }
}

} // verus!
